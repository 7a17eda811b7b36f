//! What changes of several records promise: that a promotion carries a release over, that a batch changes what it names
//! where its caller may, and that a repair removes only what can be had again.
use vstd::prelude::*;
use vstd::utf8::{decode_utf8, encode_utf8, valid_utf8};

use crate::digest::is_digest;
use crate::store::audit::behind_prefix;
use crate::store::batches::{
    file_promoted, files_promoted, is_batch_done, is_event_queued, is_promotion, overridden, provenance_copied,
    rewritten, BatchDone, BatchError, BatchErrorText, Promoted, PromotedRecord, PromotedRelease, Promotion,
    UploadMutationPlan,
};
use crate::store::index::PublishedFileWrite;
use crate::store::keys::{
    key2, key3, key4, prefixes_are_namespaces, ANNOUNCED_RELEASE_PREFIX, FILE_PREFIX, OVERRIDE_PREFIX, PROJECTS_PREFIX,
    PROVENANCE_PREFIX, PUBLICATION_PREFIX, UPLOAD_PREFIX,
};
use crate::store::mutation_laws::{
    plain_keys_are_not_derived, recorded_projects_are_found, written_records_are_read_back,
};
use crate::store::overrides::{
    first_unknown, is_judged, is_judged_raw, known_field, DecodedOverride, DecodedText, FileOverride, MutationText,
};
use crate::store::repair::{
    actionable_count, finding_before, owned_by, sound_project_key, sound_publication, sound_source_key, sound_upload_key,
    source_key_parts, FixText, RepairContext, RepairText,
};
use crate::store::summary::{recent_with, shifted, Counts, UploadFieldsText};
use crate::store::txn::{keys_under, RowScope, TxnState};
use crate::store::uploads::{filename_in, override_applied, version_named, Mutated, MutationBatch};
use crate::store::values::{claim_of, file_source_record, publication_record, FileSourceText, MetaError, MetaErrorText};
use crate::text::{first_index_of_joined, opt_text, texts};

verus! {

// ---------------------------------------------------------------------------------------------
// Promotions
// ---------------------------------------------------------------------------------------------

/// A file that the target takes leaves its record there and counts as written; one that it does not take changes
/// nothing. The record of no other file changes.
pub proof fn promoted_files_are_read_back(
    p: Promoted,
    outbox: bool,
    release: PromotedRelease<'_>,
    record: PromotedRecord,
    other: Seq<char>,
)
    ensures
        record.guard is Skip ==> file_promoted(p, outbox, release, record) == Ok::<Promoted, MetaErrorText>(p),
        record.guard is Commit ==> (file_promoted(p, outbox, release, record) matches Ok(q) ==> {
            let key = key3(UPLOAD_PREFIX@, release.index@, release.normalized@, record.filename@);
            &&& q.state.row(key) == Some(record.record@)
            &&& q.written == p.written + 1
            &&& q.state.touched.contains(release.index@)
            &&& other != key && other.len() > 5 && other[5] == UPLOAD_PREFIX@[5] ==> q.state.row(other) == p.state.row(other)
            &&& release.blob_sizes@.contains_key(record.token@) ==> q.state.blobs.contains(
                (record.token@, release.blob_sizes@[record.token@]),
            )
            &&& release.reservations@.contains_key(record.filename@) ==> q.committed == p.committed.push(
                release.reservations@[record.filename@],
            )
            &&& !release.reservations@.contains_key(record.filename@) ==> q.committed == p.committed
            &&& outbox ==> q.journal.len() > p.journal.len()
            &&& !outbox ==> q.journal == p.journal
        }),
{
    if record.guard is Commit && file_promoted(p, outbox, release, record) is Ok {
        prefixes_are_namespaces();
        let key = key3(UPLOAD_PREFIX@, release.index@, release.normalized@, record.filename@);
        let target = key4(PROVENANCE_PREFIX@, release.index@, release.normalized@, record.token@, record.filename@);
        let touched = p.state.touched(release.index@);
        written_records_are_read_back(touched, release.index@, release.normalized@, record.filename@, record.record@);
        let s = touched.upload_written(release.index@, release.normalized@, record.filename@, record.record@)->Ok_0;
        let referenced = if release.blob_sizes@.contains_key(record.token@) {
            s.referenced(record.token@, release.blob_sizes@[record.token@])
        } else {
            s
        };
        let t = provenance_copied(referenced, release, record)->Ok_0;
        let version = version_named(record.record@, opt_text(record.segment));
        assert(key[5] == UPLOAD_PREFIX@[5]);
        assert(target[5] == PROVENANCE_PREFIX@[5]);
        if version is Some {
            assert(key3(ANNOUNCED_RELEASE_PREFIX@, release.index@, release.normalized@, version->0)[5]
                == ANNOUNCED_RELEASE_PREFIX@[5]);
        }
        if other.len() > 5 && other[5] == UPLOAD_PREFIX@[5] {
            plain_keys_are_not_derived(other);
        }
        plain_keys_are_not_derived(key);
        if release.blob_sizes@.contains_key(record.token@) {
            let blob = (record.token@, release.blob_sizes@[record.token@]);
            assert(referenced.blobs.contains(blob)) by {
                assert(referenced.blobs[referenced.blobs.len() - 1] == blob);
            }
            if t.blobs != referenced.blobs {
                let i = choose|i: int| 0 <= i < referenced.blobs.len() && referenced.blobs[i] == blob;
                assert(t.blobs[i] == blob);
            }
        }
        assert(touched.touched[touched.touched.len() - 1] == release.index@);
    }
}

/// A provenance bundle comes along: the target's row is the source's, and its blob is referenced. Where there is none,
/// nothing is written.
pub proof fn bundles_come_along(s: TxnState, release: PromotedRelease<'_>, record: PromotedRecord)
    ensures
        ({
            let source = key4(PROVENANCE_PREFIX@, release.source@, release.normalized@, record.token@, record.filename@);
            let target = key4(PROVENANCE_PREFIX@, release.index@, release.normalized@, record.token@, record.filename@);
            &&& s.row(source) is None ==> provenance_copied(s, release, record) == Ok::<TxnState, MetaErrorText>(s)
            &&& s.row(source) is Some ==> (provenance_copied(s, release, record) matches Ok(t) ==> t.row(target) == s.row(
                source,
            ))
            &&& provenance_copied(s, release, record) matches Ok(t) ==> forall|k: Seq<char>|
                k != target ==> #[trigger] t.row(k) == s.row(k)
        }),
{
}

/// Every file that the target takes is there once the release is promoted, as long as no later one has its name; and as
/// many are written as were taken.
pub proof fn promoted_releases_are_read_back(
    start: TxnState,
    outbox: bool,
    release: PromotedRelease<'_>,
    n: int,
    i: int,
)
    requires
        0 <= i < n <= release.records@.len(),
        release.records@[i].guard is Commit,
        files_promoted(start, outbox, release, n) is Ok,
        forall|j: int| i < j < n ==> key3(
            UPLOAD_PREFIX@,
            release.index@,
            release.normalized@,
            (#[trigger] release.records@[j]).filename@,
        ) != key3(UPLOAD_PREFIX@, release.index@, release.normalized@, release.records@[i].filename@),
    ensures
        files_promoted(start, outbox, release, n)->Ok_0.state.row(
            key3(UPLOAD_PREFIX@, release.index@, release.normalized@, release.records@[i].filename@),
        ) == Some(release.records@[i].record@),
        1 <= files_promoted(start, outbox, release, n)->Ok_0.written,
    decreases n,
{
    prefixes_are_namespaces();
    let key = key3(UPLOAD_PREFIX@, release.index@, release.normalized@, release.records@[i].filename@);
    let p = files_promoted(start, outbox, release, n - 1)->Ok_0;
    assert(key[5] == UPLOAD_PREFIX@[5]);
    promoted_files_are_read_back(p, outbox, release, release.records@[n - 1], key);
    if i < n - 1 {
        promoted_releases_are_read_back(start, outbox, release, n - 1, i);
        assert(release.records@[n - 1] == release.records@[n - 1]);
    }
}

/// As many files are written as the target took.
pub proof fn promotions_count_what_was_taken(start: TxnState, outbox: bool, release: PromotedRelease<'_>, n: int)
    requires
        0 <= n <= release.records@.len(),
    ensures
        files_promoted(start, outbox, release, n) matches Ok(p) ==> p.written <= n && p.committed.len() <= p.written,
        (forall|i: int| 0 <= i < n ==> (#[trigger] release.records@[i]).guard is Commit) ==> (files_promoted(
            start,
            outbox,
            release,
            n,
        ) matches Ok(p) ==> p.written == n),
    decreases n,
{
    if n > 0 {
        promotions_count_what_was_taken(start, outbox, release, n - 1);
        if files_promoted(start, outbox, release, n - 1) is Ok {
            promoted_files_are_read_back(
                files_promoted(start, outbox, release, n - 1)->Ok_0,
                outbox,
                release,
                release.records@[n - 1],
                Seq::empty(),
            );
        }
    }
}

/// A promotion that fails writes nothing, and one that wrote a file leaves the project recorded.
pub proof fn promotions_record_their_project(
    was: TxnState,
    outbox: bool,
    release: PromotedRelease<'_>,
    now: TxnState,
    r: Result<Promotion, MetaError>,
)
    requires
        is_promotion(was, outbox, release, now, r),
    ensures
        r is Err ==> now == was,
        r matches Ok(done) ==> (done.written > 0 ==> now.row(key2(PROJECTS_PREFIX@, release.index@, release.normalized@))
            == Some(encode_utf8(release.display@))),
        r matches Ok(done) ==> done.written <= release.records@.len(),
{
    if r is Ok {
        let n = release.records@.len() as int;
        let p = files_promoted(was, outbox, release, n)->Ok_0;
        promotions_count_what_was_taken(was, outbox, release, n);
        recorded_projects_are_found(
            p.state,
            RowScope::Replicated,
            release.index@,
            release.normalized@,
            release.display@,
        );
        assert(r->Ok_0.at(now).state == now);
    }
}

// ---------------------------------------------------------------------------------------------
// Records and overrides together
// ---------------------------------------------------------------------------------------------

/// A record that is named is rewritten, counted and read back; one that is not named is left; and nothing is rewritten
/// for a caller who may not write.
pub proof fn named_records_are_rewritten(
    start: TxnState,
    batch: MutationBatch,
    keys: Seq<Seq<char>>,
    allowed: bool,
    rewrites: Map<Seq<char>, Vec<u8>>,
    segments: Map<Seq<char>, String>,
    n: int,
)
    requires
        0 < n <= keys.len(),
        rewritten(start, batch, keys, allowed, rewrites, segments, n - 1) is Ok,
    ensures
        ({
            let before = rewritten(start, batch, keys, allowed, rewrites, segments, n - 1)->Ok_0;
            let r = rewritten(start, batch, keys, allowed, rewrites, segments, n);
            let filename = filename_in(batch, keys[n - 1]);
            let key = key3(UPLOAD_PREFIX@, batch.index, batch.normalized, filename);
            &&& !rewrites.contains_key(filename) ==> r == Ok::<Mutated, BatchErrorText>(before)
            &&& rewrites.contains_key(filename) && !allowed ==> r == Err::<Mutated, BatchErrorText>(BatchErrorText::Refused)
            &&& rewrites.contains_key(filename) && allowed ==> (r matches Ok(after) ==> after.state.row(key) == Some(
                rewrites[filename]@,
            ) && after.changed == before.changed + 1 && (batch.outbox ==> after.journal.len() == before.journal.len() + 1))
        }),
{
    let before = rewritten(start, batch, keys, allowed, rewrites, segments, n - 1)->Ok_0;
    let filename = filename_in(batch, keys[n - 1]);
    if rewrites.contains_key(filename) {
        written_records_are_read_back(before.state, batch.index, batch.normalized, filename, rewrites[filename]@);
    }
}

/// An override is changed only for a caller who may write. One that moves is counted and journaled; one that does not
/// is left.
pub proof fn named_overrides_are_changed(
    m: Mutated,
    batch: MutationBatch,
    filenames: Seq<Seq<char>>,
    allowed: bool,
    mutation: MutationText,
    decoded: Map<Seq<char>, DecodedOverride>,
    segments: Map<Seq<char>, String>,
    n: int,
)
    requires
        0 < n <= filenames.len(),
        overridden(m, batch, filenames, allowed, mutation, decoded, segments, n - 1) is Ok,
    ensures
        ({
            let before = overridden(m, batch, filenames, allowed, mutation, decoded, segments, n - 1)->Ok_0;
            let r = overridden(m, batch, filenames, allowed, mutation, decoded, segments, n);
            let key = key3(OVERRIDE_PREFIX@, batch.index, batch.normalized, filenames[n - 1]);
            let applied = override_applied(
                before.state,
                key,
                crate::store::overrides::decoded_at(decoded, filenames[n - 1]),
                mutation,
            );
            &&& !allowed ==> r == Err::<Mutated, BatchErrorText>(BatchErrorText::Refused)
            &&& allowed && applied is Err ==> r is Err
            &&& allowed ==> (applied matches Ok((s, Some(_))) ==> (r matches Ok(after) && after.changed == before.changed + 1
                && after.state.row(key) == s.row(key)))
            &&& allowed ==> ((applied matches Ok((_, None))) ==> r == Ok::<Mutated, BatchErrorText>(before))
        }),
{
}

/// A batch that is refused or fails writes nothing, and one that names no override needs none.
pub proof fn refused_batches_write_nothing(
    was: TxnState,
    plan: UploadMutationPlan<'_>,
    allowed: bool,
    rewrites: Map<Seq<char>, Vec<u8>>,
    decoded: Map<Seq<char>, DecodedOverride>,
    segments: Map<Seq<char>, String>,
    now: TxnState,
    r: Result<BatchDone, BatchError>,
)
    requires
        is_batch_done(was, plan, allowed, rewrites, decoded, segments, now, r),
    ensures
        r is Err ==> now == was,
        !allowed && plan.override_filenames@.len() > 0 ==> r is Err,
{
    let names = texts(plan.override_filenames@);
    let keys = keys_under(was.rows, key2(UPLOAD_PREFIX@, plan.index@, plan.normalized@) + "/"@);
    if !allowed && plan.override_filenames@.len() > 0 {
        let first = rewritten(was, plan.batch(), keys, allowed, rewrites, segments, keys.len() as int);
        if first is Ok {
            refused_overrides_stay_refused(
                first->Ok_0,
                plan.batch(),
                names,
                plan.override_mutation@,
                decoded,
                segments,
                names.len() as int,
            );
        }
    }
}

proof fn refused_overrides_stay_refused(
    m: Mutated,
    batch: MutationBatch,
    filenames: Seq<Seq<char>>,
    mutation: MutationText,
    decoded: Map<Seq<char>, DecodedOverride>,
    segments: Map<Seq<char>, String>,
    n: int,
)
    requires
        0 < n <= filenames.len(),
    ensures
        overridden(m, batch, filenames, false, mutation, decoded, segments, n) == Err::<Mutated, BatchErrorText>(
            BatchErrorText::Refused,
        ),
    decreases n,
{
    reveal_with_fuel(overridden, 2);
    if n > 1 {
        refused_overrides_stay_refused(m, batch, filenames, mutation, decoded, segments, n - 1);
    }
}

/// A batch that changed nothing tells nobody; one that changed something queues its event.
pub proof fn batches_tell_of_changes(was: TxnState, changed: usize, event: Option<Vec<u8>>, now: TxnState)
    requires
        is_event_queued(was, changed, event, now),
    ensures
        changed == 0 ==> now == was,
        changed > 0 && event is Some ==> now.webhooks == was.webhooks.push(event->0@),
        event is None ==> now.webhooks == was.webhooks,
        forall|k: Seq<char>| #[trigger] now.row(k) == was.row(k),
{
}

/// A record that describes an override is one. One that does not, but carries a field that is not known, is a newer
/// build's; any other is damaged.
pub proof fn newer_records_are_told_from_damaged_ones(parsed: Option<FileOverride>, raw: Seq<u8>, r: DecodedOverride)
    requires
        is_judged_raw(parsed, raw, r),
    ensures
        r is Record <==> parsed is Some,
        parsed matches Some(record) ==> r@ == DecodedText::Record(record@),
        r is Newer <==> parsed is None && (crate::outside::json_fields(raw) matches Some(fields) && exists|i: int|
            0 <= i < fields.len() && #[trigger] fields[i] != "hidden"@ && fields[i] != "yanked"@),
{
    if crate::outside::json_fields(raw) is Some {
        unknown_fields_are_found(crate::outside::json_fields(raw)->0);
    }
}

/// The names of a record's fields decide the same.
pub proof fn fields_tell_newer_records(parsed: Option<FileOverride>, fields: Option<Vec<String>>, r: DecodedOverride)
    requires
        is_judged(parsed, fields, r),
    ensures
        r is Record <==> parsed is Some,
        parsed matches Some(record) ==> r@ == DecodedText::Record(record@),
        r is Newer <==> parsed is None && (fields matches Some(names) && exists|i: int|
            0 <= i < texts(names@).len() && #[trigger] texts(names@)[i] != "hidden"@ && texts(names@)[i] != "yanked"@),
{
    if fields is Some {
        unknown_fields_are_found(texts(fields->0@));
    }
}

proof fn unknown_fields_are_found(fields: Seq<Seq<char>>)
    ensures
        first_unknown(fields) is Some <==> exists|i: int|
            0 <= i < fields.len() && #[trigger] fields[i] != "hidden"@ && fields[i] != "yanked"@,
    decreases fields.len(),
{
    if fields.len() > 0 {
        let rest = fields.skip(1);
        unknown_fields_are_found(rest);
        if !known_field(fields[0]) {
            assert(fields[0] != "hidden"@ && fields[0] != "yanked"@);
        } else {
            if exists|i: int| 0 <= i < fields.len() && #[trigger] fields[i] != "hidden"@ && fields[i] != "yanked"@ {
                let i = choose|i: int|
                    0 <= i < fields.len() && #[trigger] fields[i] != "hidden"@ && fields[i] != "yanked"@;
                assert(rest[i - 1] == fields[i]);
            }
            if first_unknown(rest) is Some {
                let i = choose|i: int| 0 <= i < rest.len() && #[trigger] rest[i] != "hidden"@ && rest[i] != "yanked"@;
                assert(fields[i + 1] == rest[i]);
            }
        }
    }
}

// ---------------------------------------------------------------------------------------------
// Derived rows and registrations
// ---------------------------------------------------------------------------------------------

/// Counts move by what they are moved by, within what a count can hold.
pub proof fn counts_move_by_what_changed(counts: Counts, projects: int, uploads: int)
    ensures
        0 <= counts.projects + projects <= u64::MAX ==> counts.moved(projects, uploads).projects == counts.projects
            + projects,
        0 <= counts.uploads + uploads <= u64::MAX ==> counts.moved(projects, uploads).uploads == counts.uploads + uploads,
        counts.projects + projects < 0 ==> shifted(counts.projects, projects) == 0,
        counts.projects + projects > u64::MAX ==> shifted(counts.projects, projects) == u64::MAX,
{
}

/// A write is reported with what its record says; a record that does not name its file is reported under the name it is
/// stored by.
pub proof fn writes_are_reported_as_recorded(project: Seq<char>, fallback: Seq<char>, fields: UploadFieldsText)
    ensures
        ({
            let recent = recent_with(project, fallback, fields);
            &&& recent.resource == project
            &&& fields.filename matches Some(filename) ==> recent.artifact == filename
            &&& fields.filename is None ==> recent.artifact == fallback
            &&& fields.version matches Some(version) ==> recent.group == version
            &&& fields.version is None ==> recent.group.len() == 0
            &&& recent.written_at == fields.upload_time
            &&& recent.size == fields.size
        }),
{
}

/// A page's file is registered with where its bytes live and what its page says of its sidecar, and no other row
/// changes.
pub proof fn registered_files_are_found(
    s: TxnState,
    index: Seq<char>,
    normalized: Seq<char>,
    source: Seq<char>,
    upstream: Option<Seq<char>>,
    file: PublishedFileWrite,
    other: Seq<char>,
)
    ensures
        ({
            let bytes = key3(FILE_PREFIX@, index, normalized, file.sha256@);
            let claim = key4(PUBLICATION_PREFIX@, index, normalized, file.sha256@, file.filename@);
            let after = s.file_registered(index, normalized, source, upstream, file);
            &&& after.row(bytes) == Some(
                encode_utf8(
                    file_source_record(FileSourceText { url: file.url@, source, size: file.size, upstream }),
                ),
            )
            &&& after.row(claim) == Some(encode_utf8(publication_record(claim_of(file.metadata, source, upstream))))
            &&& other != bytes && other != claim ==> after.row(other) == s.row(other)
        }),
{
    prefixes_are_namespaces();
    let bytes = key3(FILE_PREFIX@, index, normalized, file.sha256@);
    let claim = key4(PUBLICATION_PREFIX@, index, normalized, file.sha256@, file.filename@);
    assert(bytes[5] == FILE_PREFIX@[5]);
    assert(claim[5] == PUBLICATION_PREFIX@[5]);
}

// ---------------------------------------------------------------------------------------------
// Repairs
// ---------------------------------------------------------------------------------------------

/// What cannot be had again is never removed: an upload, an override or a provenance record that is damaged is only
/// reported, and one that is sound is not even that.
pub proof fn records_of_this_node_are_only_reported(context: RepairContext, stored: Seq<char>, raw: Seq<u8>)
    ensures
        context.upload_finding(stored, raw) matches Some(finding) ==> finding.fix is ReportOnly,
        context.override_finding(stored, raw) matches Some(finding) ==> finding.fix is ReportOnly,
        context.provenance_finding(stored, raw) matches Some(finding) ==> finding.fix is ReportOnly,
        context.publication_finding(stored, raw) matches Some(finding) ==> finding.fix is ReportOnly || finding.fix
            is RemoveLocal,
        context.upload_finding(stored, raw) is None <==> sound_upload_key(
            behind_prefix(stored),
        ) && context.sound_uploads@.contains(stored),
        context.override_finding(stored, raw) is None <==> valid_utf8(raw) && sound_upload_key(
            behind_prefix(stored),
        ) && context.sound_overrides@.contains(stored),
{
}

/// A cached page that can be read is left, one that cannot is removed where a cached index owns it, and one of no known
/// owner is only reported.
pub proof fn unreadable_pages_are_removed(context: RepairContext, stored: Seq<char>, raw: Seq<u8>)
    ensures
        ({
            let key = behind_prefix(stored);
            &&& context.page_finding(stored, raw) is None <==> context.readable_pages@.contains(stored)
            &&& context.page_finding(stored, raw) matches Some(finding) ==> (if owned_by(texts(context.cached@), key)
                is Some {
                finding.fix == (FixText::RemoveCachedPage { page: key })
            } else {
                finding.fix is ReportOnly
            })
        }),
{
}

/// A metadata pointer is left where both digests are ones, removed where its artifact's is none, and reported otherwise.
pub proof fn metadata_pointers_need_two_digests(context: RepairContext, stored: Seq<char>, raw: Seq<u8>)
    ensures
        ({
            let key = behind_prefix(stored);
            &&& context.metadata_finding(stored, raw) is None <==> is_digest(key) && valid_utf8(raw) && is_digest(
                decode_utf8(raw),
            )
            &&& !is_digest(key) ==> (context.metadata_finding(stored, raw) matches Some(finding) && finding.fix == (
            FixText::RemoveLocal { key: stored }))
            &&& is_digest(key) ==> (context.metadata_finding(stored, raw) matches Some(finding) ==> finding.fix
                is ReportOnly)
        }),
{
}

/// A project marker is left where its key and its text are sound. A damaged one is removed where its index is cached,
/// and only reported otherwise.
pub proof fn damaged_markers_are_removed_from_caches(context: RepairContext, stored: Seq<char>, raw: Seq<u8>)
    ensures
        ({
            let key = behind_prefix(stored);
            let owner = owned_by(context.names(), key);
            &&& context.project_finding(stored, raw) is None <==> sound_project_key(key) && valid_utf8(raw) && decode_utf8(
                raw,
            ).len() > 0
            &&& context.project_finding(stored, raw) matches Some(finding) ==> (if owner is Some && texts(
                context.cached@,
            ).contains((owner->0).0) {
                finding.fix == (FixText::RemoveCachedProject { index: (owner->0).0, project: (owner->0).1 })
            } else {
                finding.fix is ReportOnly
            })
        }),
{
}

/// A file-source row is left where it can be read; a damaged one is removed only where it names no publication at all.
pub proof fn damaged_locators_are_removed_where_nothing_owns_them(
    context: RepairContext,
    stored: Seq<char>,
    raw: Seq<u8>,
)
    ensures
        ({
            let key = behind_prefix(stored);
            &&& context.source_finding(stored, raw) is None <==> valid_utf8(raw) && sound_source_key(context.names(), key)
                && decode_utf8(raw).contains('\n')
            &&& context.source_finding(stored, raw) matches Some(finding) ==> (finding.fix is RemoveLocal <==> owned_by(
                context.names(),
                key,
            ) is None && source_key_parts(key) is None)
            &&& context.publication_finding(stored, raw) is None <==> valid_utf8(raw) && sound_publication(decode_utf8(raw))
        }),
{
}

/// A key of two parts names a project and one of three an upload, none of them empty.
pub proof fn sound_keys_have_their_parts(index: Seq<char>, project: Seq<char>, filename: Seq<char>)
    requires
        !index.contains('/'),
        !project.contains('/'),
    ensures
        sound_project_key(index + seq!['/'] + project) <==> index.len() > 0 && project.len() > 0,
        sound_upload_key(index + seq!['/'] + (project + seq!['/'] + filename)) <==> index.len() > 0 && project.len() > 0
            && filename.len() > 0,
        !sound_project_key(index),
{
    first_index_of_joined(index, '/', project);
    first_index_of_joined(index, '/', project + seq!['/'] + filename);
    first_index_of_joined(project, '/', filename);
    crate::text::first_index_bounds(index, '/');
    let i = crate::text::first_index(index, '/');
    if i < index.len() {
        assert(index.contains(index[i]));
    }
}

/// As many findings change the store as do not only report.
pub proof fn findings_that_change_are_counted(list: Seq<RepairText>, n: int)
    requires
        0 <= n <= list.len(),
    ensures
        actionable_count(list, n) <= n,
        (forall|i: int| 0 <= i < n ==> (#[trigger] list[i]).fix is ReportOnly) ==> actionable_count(list, n) == 0,
        (forall|i: int| 0 <= i < n ==> !((#[trigger] list[i]).fix is ReportOnly)) ==> actionable_count(list, n) == n,
    decreases n,
{
    if n > 0 {
        findings_that_change_are_counted(list, n - 1);
        assert(list[n - 1] == list[n - 1]);
    }
}

/// Findings are ordered by namespace and then by key.
pub proof fn findings_stand_by_namespace(a: RepairText, b: RepairText)
    ensures
        crate::text::before(a.namespace, b.namespace) ==> finding_before(a, b),
        a.namespace == b.namespace && crate::text::before(a.key, b.key) ==> finding_before(a, b),
        a.namespace == b.namespace && a.key == b.key ==> !finding_before(a, b),
{
    crate::text::before_irreflexive(a.namespace);
    crate::text::before_irreflexive(a.key);
}

} // verus!
