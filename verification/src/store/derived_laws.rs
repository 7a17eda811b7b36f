//! The derived rows follow the rows they summarize through everything that publishes, rewrites or deletes a
//! file.
use vstd::prelude::*;

use super::keys::{
    key1, key2, key3, key4, prefixes_are_namespaces, ANNOUNCED_RELEASE_PREFIX, COUNT_PREFIX, FILE_PREFIX,
    FRESHNESS_PREFIX, INDEX_PREFIX, METADATA_PREFIX, PROJECTS_PREFIX, PROJECT_STATUS_PREFIX, PROVENANCE_PREFIX,
    PUBLICATION_PREFIX, RECENT_PREFIX, UPLOAD_PREFIX,
};
use super::order_laws::{
    orders_agree, other_rows_keep_orders, project_removals_keep_orders, project_writes_keep_orders,
    upload_removals_keep_orders, upload_writes_keep_orders, Upload,
};
use super::projects::{erased_all_rows, sources_prefix};
use super::summary::order_position;
use super::summary_laws::{
    count_keys_are_no_rows, counts_agree, is_project_row, is_upload_row, project_key_is_its_row,
    project_removals_keep_counts, project_rows, project_writes_keep_counts, upload_removals_keep_counts, upload_rows,
    upload_writes_keep_counts,
};
use super::txn::{filtered_members, keys_under, rows_are_under, RowScope, TxnState};
use super::uploads::{
    ending_in, filename_in, found_text, journaled, mutated, mutation_of, version_named, MutationBatch, PublishedFile,
    UploadMutation,
};
use crate::text::cut_prefix;

verus! {

/// Whether the derived rows of `index` say what its projects and uploads are: how many there are, and in
/// which order the uploads came.
pub open spec fn summary_agrees(s: TxnState, index: Seq<char>) -> bool {
    counts_agree(s, index) && orders_agree(s)
}

/// Whether a key is one of those that the summary is about or is made of.
spec fn concerns_summary(key: Seq<char>) -> bool {
    ||| PROJECTS_PREFIX@.is_prefix_of(key)
    ||| UPLOAD_PREFIX@.is_prefix_of(key)
    ||| COUNT_PREFIX@.is_prefix_of(key)
    ||| RECENT_PREFIX@.is_prefix_of(key)
}

/// Other rows have no part in the summary.
proof fn other_rows_keep_the_summary(s: TxnState, t: TxnState, index: Seq<char>)
    requires
        summary_agrees(s, index),
        t.rows.dom().finite(),
        forall|key: Seq<char>| concerns_summary(key) ==> s.row(key) == #[trigger] t.row(key),
    ensures
        summary_agrees(t, index),
{
    other_rows_keep_orders(s, t);
    same_rows_count_the_same(s, t, index);
    let count = key1(COUNT_PREFIX@, index);
    assert(count.subrange(0, COUNT_PREFIX@.len() as int) =~= COUNT_PREFIX@);
    assert(s.row(count) == t.row(count));
}

/// A key of another namespace has no part in the summary.
proof fn other_keys_do_not_concern_the_summary(prefix: Seq<char>, rest: Seq<char>)
    requires
        super::keys::is_namespace(prefix),
        super::keys::namespace_of(prefix) != super::keys::namespace_of(PROJECTS_PREFIX@),
        super::keys::namespace_of(prefix) != super::keys::namespace_of(UPLOAD_PREFIX@),
        super::keys::namespace_of(prefix) != super::keys::namespace_of(COUNT_PREFIX@),
        super::keys::namespace_of(prefix) != super::keys::namespace_of(RECENT_PREFIX@),
    ensures
        !concerns_summary(prefix + rest),
{
    prefixes_are_namespaces();
    super::keys::namespaces_are_disjoint(prefix, PROJECTS_PREFIX@, rest);
    super::keys::namespaces_are_disjoint(prefix, UPLOAD_PREFIX@, rest);
    super::keys::namespaces_are_disjoint(prefix, COUNT_PREFIX@, rest);
    super::keys::namespaces_are_disjoint(prefix, RECENT_PREFIX@, rest);
}

/// Recording a file takes an upload row, and none of a project.
proof fn project_rows_survive_uploads(s: TxnState, u: Upload, record: Seq<u8>)
    requires
        s.rows.dom().finite(),
        s.upload_written(u.index, u.normalized, u.filename, record) is Ok,
    ensures
        project_rows(s.upload_written(u.index, u.normalized, u.filename, record)->Ok_0, u.index) == project_rows(
            s,
            u.index,
        ),
{
    let t = s.upload_written(u.index, u.normalized, u.filename, record)->Ok_0;
    prefixes_are_namespaces();
    assert forall|key: Seq<char>| project_rows(s, u.index).contains(key) == project_rows(t, u.index).contains(key) by {
        if is_project_row(u.index, key) {
            let p = PROJECTS_PREFIX@;
            assert(key.subrange(0, p.len() as int)[5] == key[5]);
            assert(u.key()[5] == UPLOAD_PREFIX@[5]);
            assert(key1(COUNT_PREFIX@, u.index)[5] == COUNT_PREFIX@[5]);
            assert forall|recent: super::summary::RecentText| #[trigger]
                order_position(u.index, recent, u.filename) != key by {
                assert(order_position(u.index, recent, u.filename)[5] == RECENT_PREFIX@[5]);
            }
        }
    }
    assert(project_rows(s, u.index) =~= project_rows(t, u.index));
}

/// The state once a file's siblings are recorded.
spec fn with_siblings(s: TxnState, file: PublishedFile<'_>, webhook: Option<Seq<u8>>) -> TxnState {
    let provenance = key4(
        PROVENANCE_PREFIX@,
        file.index@,
        file.normalized@,
        file.artifact_sha256@,
        file.filename@,
    );
    s.touched(file.index@).webhook_queued(webhook).referenced(
        file.artifact_sha256@,
        file.artifact_size,
    ).metadata_recorded(file.artifact_sha256@, file.metadata).provenance_recorded(provenance, file.provenance)
}

proof fn siblings_keep_rows(s: TxnState, file: PublishedFile<'_>, webhook: Option<Seq<u8>>)
    requires
        s.rows.dom().finite(),
    ensures
        with_siblings(s, file, webhook).rows.dom().finite(),
        forall|key: Seq<char>|
            concerns_summary(key) ==> s.row(key) == #[trigger] with_siblings(s, file, webhook).row(key),
{
    prefixes_are_namespaces();
    let provenance = key4(
        PROVENANCE_PREFIX@,
        file.index@,
        file.normalized@,
        file.artifact_sha256@,
        file.filename@,
    );
    let bundle = file.index@ + "/"@ + file.normalized@ + "/"@ + file.artifact_sha256@ + "/"@ + file.filename@;
    assert(provenance =~= PROVENANCE_PREFIX@ + bundle);
    other_keys_do_not_concern_the_summary(PROVENANCE_PREFIX@, bundle);
    other_keys_do_not_concern_the_summary(METADATA_PREFIX@, file.artifact_sha256@);
}

proof fn same_rows_count_the_same(s: TxnState, t: TxnState, index: Seq<char>)
    requires
        forall|key: Seq<char>| concerns_summary(key) ==> s.row(key) == #[trigger] t.row(key),
    ensures
        project_rows(s, index) == project_rows(t, index),
        upload_rows(s, index) == upload_rows(t, index),
{
    assert forall|key: Seq<char>| project_rows(s, index).contains(key) == project_rows(t, index).contains(key) by {
        if is_project_row(index, key) {
            assert(cut_prefix(key, PROJECTS_PREFIX@) is Some);
            assert(s.row(key) == t.row(key));
        }
    }
    assert(project_rows(s, index) =~= project_rows(t, index));
    assert forall|key: Seq<char>| upload_rows(s, index).contains(key) == upload_rows(t, index).contains(key) by {
        if is_upload_row(index, key) {
            assert(cut_prefix(key, UPLOAD_PREFIX@) is Some);
            assert(s.row(key) == t.row(key));
        }
    }
    assert(upload_rows(s, index) =~= upload_rows(t, index));
}

proof fn writing_keeps_the_summary(
    s: TxnState,
    u: Upload,
    record: Seq<u8>,
    display: Seq<char>,
    other: Seq<char>,
)
    requires
        u.index.len() > 0,
        u.normalized.len() > 0,
        u.plain(),
        summary_agrees(s, u.index),
        summary_agrees(s, other),
        project_rows(s, u.index).len() < u64::MAX,
        upload_rows(s, u.index).len() < u64::MAX,
    ensures
        s.upload_written(u.index, u.normalized, u.filename, record) matches Ok(written) && written.project_written(
            RowScope::Replicated,
            u.index,
            u.normalized,
            display,
        ) matches Ok(named) && summary_agrees(named, other),
{
    upload_writes_keep_counts(s, u.index, u.normalized, u.filename, record, u.index);
    upload_writes_keep_counts(s, u.index, u.normalized, u.filename, record, other);
    upload_writes_keep_orders(s, u, record);
    project_rows_survive_uploads(s, u, record);
    let written = s.upload_written(u.index, u.normalized, u.filename, record)->Ok_0;
    project_writes_keep_counts(written, RowScope::Replicated, u.index, u.normalized, display, other);
    project_writes_keep_orders(written, RowScope::Replicated, u.index, u.normalized, display);
}

proof fn announcing_keeps_the_summary(
    s: TxnState,
    index: Seq<char>,
    normalized: Seq<char>,
    version: Seq<char>,
    submitted_at_unix: i64,
    other: Seq<char>,
)
    requires
        summary_agrees(s, other),
    ensures
        summary_agrees(s.announced(index, normalized, Some(version), submitted_at_unix).state, other),
{
    prefixes_are_namespaces();
    let announced = s.announced(index, normalized, Some(version), submitted_at_unix).state;
    let release = index + "/"@ + normalized + "/"@ + version;
    assert(key3(ANNOUNCED_RELEASE_PREFIX@, index, normalized, version) =~= ANNOUNCED_RELEASE_PREFIX@ + release);
    other_keys_do_not_concern_the_summary(ANNOUNCED_RELEASE_PREFIX@, release);
    assert forall|key: Seq<char>| concerns_summary(key) implies s.row(key) == #[trigger] announced.row(key) by {
    }
    other_rows_keep_the_summary(s, announced, other);
}

/// Publishing a file keeps the summary of every index in step, and does not fail over it.
pub proof fn publications_keep_the_summary(
    s: TxnState,
    outbox: bool,
    file: PublishedFile<'_>,
    webhook: Option<Seq<u8>>,
    other: Seq<char>,
)
    requires
        file.index@.len() > 0,
        file.normalized@.len() > 0,
        (Upload { index: file.index@, normalized: file.normalized@, filename: file.filename@ }).plain(),
        summary_agrees(s, file.index@),
        summary_agrees(s, other),
        project_rows(s, file.index@).len() < u64::MAX,
        upload_rows(s, file.index@).len() < u64::MAX,
    ensures
        s.file_published(outbox, file, webhook) matches Ok(done) && summary_agrees(done.state, other),
{
    let u = Upload { index: file.index@, normalized: file.normalized@, filename: file.filename@ };
    let recorded = with_siblings(s, file, webhook);
    siblings_keep_rows(s, file, webhook);
    other_rows_keep_the_summary(s, recorded, u.index);
    other_rows_keep_the_summary(s, recorded, other);
    same_rows_count_the_same(s, recorded, u.index);
    writing_keeps_the_summary(recorded, u, file.record@, file.display@, other);
    let written = recorded.upload_written(u.index, u.normalized, u.filename, file.record@)->Ok_0;
    let named = written.project_written(RowScope::Replicated, u.index, u.normalized, file.display@)->Ok_0;
    announcing_keeps_the_summary(named, u.index, u.normalized, file.version@, file.submitted_at_unix, other);
}

proof fn erasing_stays_finite(s: TxnState, scope: RowScope, keys: Seq<Seq<char>>, n: int)
    requires
        s.rows.dom().finite(),
    ensures
        s.erased_all(scope, keys, n).rows.dom().finite(),
    decreases n,
{
    if n > 0 {
        erasing_stays_finite(s, scope, keys, n - 1);
    }
}

/// Deleting a file keeps the summary of every index in step, and does not fail over it. `record` is the
/// record that goes.
pub proof fn deletions_keep_the_summary(s: TxnState, u: Upload, record: Seq<u8>, other: Seq<char>)
    requires
        u.index.len() > 0,
        u.normalized.len() > 0,
        u.plain(),
        s.row(u.key()) == Some(record),
        summary_agrees(s, u.index),
        summary_agrees(s, other),
    ensures
        s.touched(u.index).upload_removed(u.index, u.normalized, u.filename, record) matches Ok(t) && summary_agrees(
            t.provenance_released(u.index, u.normalized, u.filename),
            other,
        ),
{
    prefixes_are_namespaces();
    let start = s.touched(u.index);
    assert forall|key: Seq<char>| concerns_summary(key) implies s.row(key) == #[trigger] start.row(key) by {
    }
    other_rows_keep_the_summary(s, start, u.index);
    other_rows_keep_the_summary(s, start, other);
    upload_removals_keep_counts(start, u.index, u.normalized, u.filename, record, other);
    upload_removals_keep_orders(start, u, record);
    let removed = start.upload_removed(u.index, u.normalized, u.filename, record)->Ok_0;
    let range = key2(PROVENANCE_PREFIX@, u.index, u.normalized) + "/"@;
    let under = keys_under(removed.rows, range);
    let suffix = "/"@ + u.filename;
    let keys = ending_in(under, suffix);
    let n = keys.len() as int;
    let released = removed.provenance_released(u.index, u.normalized, u.filename);
    erasing_stays_finite(removed, RowScope::Replicated, keys, n);
    let rest = u.index + "/"@ + u.normalized + "/"@;
    assert(range =~= PROVENANCE_PREFIX@ + rest);
    assert forall|key: Seq<char>| concerns_summary(key) implies removed.row(key) == #[trigger] released.row(key) by {
        erased_all_rows(removed, RowScope::Replicated, keys, n, key);
        assert(keys.take(n) =~= keys);
        if keys.contains(key) {
            filtered_members(under, |k: Seq<char>| suffix.is_suffix_of(k), key);
            rows_are_under(removed.rows, range, key);
            let tail = key.skip(PROVENANCE_PREFIX@.len() as int);
            assert(key.subrange(0, range.len() as int) =~= range);
            assert(key =~= PROVENANCE_PREFIX@ + tail) by {
                assert forall|i: int| 0 <= i < PROVENANCE_PREFIX@.len() implies key[i] == PROVENANCE_PREFIX@[i] by {
                    assert(key[i] == key.subrange(0, range.len() as int)[i]);
                    assert(range[i] == PROVENANCE_PREFIX@[i]);
                }
            }
            other_keys_do_not_concern_the_summary(PROVENANCE_PREFIX@, tail);
        }
    }
    other_rows_keep_the_summary(removed, released, other);
}

/// The upload that a key under a batch's prefix names.
pub open spec fn upload_at(batch: MutationBatch, key: Seq<char>) -> Upload {
    Upload { index: batch.index, normalized: batch.normalized, filename: filename_in(batch, key) }
}

/// Writing or removing one upload leaves the record of every other as it was.
proof fn other_records_stay(s: TxnState, t: TxnState, u: Upload, record: Seq<u8>, key: Seq<char>)
    requires
        UPLOAD_PREFIX@.is_prefix_of(key),
        key != u.key(),
        s.upload_written(u.index, u.normalized, u.filename, record) == Ok::<TxnState, super::values::MetaErrorText>(t)
            || s.upload_removed(u.index, u.normalized, u.filename, record) == Ok::<
            TxnState,
            super::values::MetaErrorText,
        >(t),
    ensures
        t.row(key) == s.row(key),
{
    prefixes_are_namespaces();
    let p = UPLOAD_PREFIX@;
    assert(key.subrange(0, p.len() as int)[5] == key[5]);
    assert(key1(COUNT_PREFIX@, u.index)[5] == COUNT_PREFIX@[5]);
    assert forall|recent: super::summary::RecentText| #[trigger] order_position(u.index, recent, u.filename) != key by {
        assert(order_position(u.index, recent, u.filename)[5] == RECENT_PREFIX@[5]);
    }
}

/// Rewriting and removing the records of a project keeps the summary of every index in step, and does not
/// fail over it. `keys` are the keys of the records, each once.
pub proof fn mutations_keep_the_summary(
    start: TxnState,
    batch: MutationBatch,
    keys: Seq<Seq<char>>,
    mutations: Map<Seq<char>, UploadMutation>,
    segments: Map<Seq<char>, String>,
    n: int,
    other: Seq<char>,
)
    requires
        0 <= n <= keys.len(),
        batch.index.len() > 0,
        batch.normalized.len() > 0,
        keys.no_duplicates(),
        forall|i: int|
            0 <= i < keys.len() ==> start.rows.contains_key(#[trigger] keys[i]) && upload_at(batch, keys[i]).plain()
                && upload_at(batch, keys[i]).key() == keys[i],
        summary_agrees(start, batch.index),
        summary_agrees(start, other),
    ensures
        mutated(start, batch, keys, mutations, segments, n) matches Ok(m) && summary_agrees(m.state, other)
            && summary_agrees(m.state, batch.index) && forall|i: int|
            n <= i < keys.len() ==> m.state.row(#[trigger] keys[i]) == start.row(keys[i]),
    decreases n,
{
    if n > 0 {
        mutations_keep_the_summary(start, batch, keys, mutations, segments, n - 1, other);
        let m = mutated(start, batch, keys, mutations, segments, n - 1)->Ok_0;
        let key = keys[n - 1];
        let u = upload_at(batch, key);
        let record = start.rows[key];
        let version = version_named(record, found_text(segments, u.filename));
        assert(u.key() == key);
        assert(m.state.row(key) == Some(record));
        match mutation_of(mutations, u.filename) {
            UploadMutation::Keep => {},
            UploadMutation::Replace(bytes) => {
                upload_writes_keep_counts(m.state, u.index, u.normalized, u.filename, bytes@, other);
                upload_writes_keep_counts(m.state, u.index, u.normalized, u.filename, bytes@, u.index);
                upload_writes_keep_orders(m.state, u, bytes@);
                let t = m.state.upload_written(u.index, u.normalized, u.filename, bytes@)->Ok_0;
                let end = journaled(m, t, batch, batch.action, version, u.filename).state;
                after_journaling(t, end, batch.index, other);
                assert forall|i: int| n <= i < keys.len() implies end.row(#[trigger] keys[i]) == start.row(keys[i]) by {
                    upload_keys_are_prefixed(upload_at(batch, keys[i]));
                    assert(keys[i] != key);
                    other_records_stay(m.state, t, u, bytes@, keys[i]);
                }
            },
            UploadMutation::Delete => {
                upload_removals_keep_counts(m.state, u.index, u.normalized, u.filename, record, other);
                upload_removals_keep_counts(m.state, u.index, u.normalized, u.filename, record, u.index);
                upload_removals_keep_orders(m.state, u, record);
                let t = m.state.upload_removed(u.index, u.normalized, u.filename, record)->Ok_0;
                let end = journaled(m, t, batch, batch.action, version, u.filename).state;
                after_journaling(t, end, batch.index, other);
                assert forall|i: int| n <= i < keys.len() implies end.row(#[trigger] keys[i]) == start.row(keys[i]) by {
                    upload_keys_are_prefixed(upload_at(batch, keys[i]));
                    assert(keys[i] != key);
                    other_records_stay(m.state, t, u, record, keys[i]);
                }
            },
        }
    }
}

proof fn upload_keys_are_prefixed(u: Upload)
    ensures
        UPLOAD_PREFIX@.is_prefix_of(u.key()),
{
    assert(u.key().subrange(0, UPLOAD_PREFIX@.len() as int) =~= UPLOAD_PREFIX@);
}

proof fn after_journaling(t: TxnState, end: TxnState, index: Seq<char>, other: Seq<char>)
    requires
        summary_agrees(t, index),
        summary_agrees(t, other),
        end.rows == t.rows,
    ensures
        summary_agrees(end, index),
        summary_agrees(end, other),
{
    assert forall|key: Seq<char>| concerns_summary(key) implies t.row(key) == #[trigger] end.row(key) by {
    }
    other_rows_keep_the_summary(t, end, index);
    other_rows_keep_the_summary(t, end, other);
}

proof fn erasing_other_rows(s: TxnState, keys: Seq<Seq<char>>, n: int)
    requires
        0 <= n <= keys.len(),
        s.rows.dom().finite(),
        forall|i: int| 0 <= i < keys.len() ==> !concerns_summary(#[trigger] keys[i]),
    ensures
        s.erased_all(RowScope::Replicated, keys, n).rows.dom().finite(),
        forall|key: Seq<char>|
            concerns_summary(key) ==> s.row(key) == #[trigger] s.erased_all(RowScope::Replicated, keys, n).row(key),
    decreases n,
{
    if n > 0 {
        erasing_other_rows(s, keys, n - 1);
        let fewer = s.erased_all(RowScope::Replicated, keys, n - 1);
        assert forall|key: Seq<char>| concerns_summary(key) implies s.row(key) == #[trigger] s.erased_all(
            RowScope::Replicated,
            keys,
            n,
        ).row(key) by {
            assert(s.row(key) == fewer.row(key));
            assert(!concerns_summary(keys[n - 1]));
        }
    }
}

proof fn erasing_other_digests(s: TxnState, prefix: Seq<char>, digests: Seq<Seq<char>>, n: int)
    requires
        0 <= n <= digests.len(),
        s.rows.dom().finite(),
        forall|digest: Seq<char>| !concerns_summary(#[trigger] (prefix + digest)),
    ensures
        s.digests_erased(prefix, digests, n).rows.dom().finite(),
        forall|key: Seq<char>|
            concerns_summary(key) ==> s.row(key) == #[trigger] s.digests_erased(prefix, digests, n).row(key),
    decreases n,
{
    if n > 0 {
        erasing_other_digests(s, prefix, digests, n - 1);
        let fewer = s.digests_erased(prefix, digests, n - 1);
        assert forall|key: Seq<char>| concerns_summary(key) implies s.row(key) == #[trigger] s.digests_erased(
            prefix,
            digests,
            n,
        ).row(key) by {
            assert(s.row(key) == fewer.row(key));
            assert(!concerns_summary(prefix + digests[n - 1]));
        }
    }
}

proof fn erased_caches_keep_other_rows(
    s: TxnState,
    index: Seq<char>,
    normalized: Seq<char>,
    file_digests: Seq<Seq<char>>,
    metadata_digests: Seq<Seq<char>>,
)
    requires
        s.rows.dom().finite(),
    ensures
        ({
            let t = s.cache_erased(index, normalized, file_digests, metadata_digests);
            &&& t.rows.dom().finite()
            &&& forall|key: Seq<char>| concerns_summary(key) ==> s.row(key) == #[trigger] t.row(key)
        }),
{
    prefixes_are_namespaces();
    let name = index + "/"@ + normalized;
    let publications = key2(PUBLICATION_PREFIX@, index, normalized) + "/"@;
    let keys = keys_under(s.rows, publications);
    assert forall|i: int| 0 <= i < keys.len() implies !concerns_summary(#[trigger] keys[i]) by {
        rows_are_under(s.rows, publications, keys[i]);
        assert(keys.contains(keys[i]));
        let rest = keys[i].skip(PUBLICATION_PREFIX@.len() as int);
        assert(publications =~= PUBLICATION_PREFIX@ + (name + "/"@));
        assert(publications =~= keys[i].take(publications.len() as int));
        assert(keys[i] =~= PUBLICATION_PREFIX@ + rest) by {
            assert(PUBLICATION_PREFIX@ =~= publications.take(PUBLICATION_PREFIX@.len() as int));
            assert(publications.take(PUBLICATION_PREFIX@.len() as int) =~= keys[i].take(
                PUBLICATION_PREFIX@.len() as int,
            ));
        }
        other_keys_do_not_concern_the_summary(PUBLICATION_PREFIX@, rest);
    }
    erasing_other_rows(s, keys, keys.len() as int);
    let a = s.erased_all(RowScope::Replicated, keys, keys.len() as int);
    other_keys_do_not_concern_the_summary(INDEX_PREFIX@, name);
    other_keys_do_not_concern_the_summary(FRESHNESS_PREFIX@, name);
    other_keys_do_not_concern_the_summary(PROJECT_STATUS_PREFIX@, name);
    assert(key2(PROJECT_STATUS_PREFIX@, index, normalized) =~= PROJECT_STATUS_PREFIX@ + name);
    let b = a.erased(RowScope::Replicated, key1(INDEX_PREFIX@, name)).erased(
        RowScope::Replicated,
        key1(FRESHNESS_PREFIX@, name),
    ).erased(RowScope::Replicated, key2(PROJECT_STATUS_PREFIX@, index, normalized));
    assert forall|key: Seq<char>| concerns_summary(key) implies s.row(key) == #[trigger] b.row(key) by {
        assert(s.row(key) == a.row(key));
    }
    let sources = sources_prefix(index, normalized);
    assert forall|digest: Seq<char>| !concerns_summary(#[trigger] (sources + digest)) by {
        assert(sources + digest =~= FILE_PREFIX@ + (name + "/"@ + digest));
        other_keys_do_not_concern_the_summary(FILE_PREFIX@, name + "/"@ + digest);
    }
    assert forall|digest: Seq<char>| !concerns_summary(#[trigger] (METADATA_PREFIX@ + digest)) by {
        other_keys_do_not_concern_the_summary(METADATA_PREFIX@, digest);
    }
    erasing_other_digests(b, sources, file_digests, file_digests.len() as int);
    let c = b.digests_erased(sources, file_digests, file_digests.len() as int);
    erasing_other_digests(c, METADATA_PREFIX@, metadata_digests, metadata_digests.len() as int);
    let t = c.digests_erased(METADATA_PREFIX@, metadata_digests, metadata_digests.len() as int);
    assert forall|key: Seq<char>| concerns_summary(key) implies s.row(key) == #[trigger] t.row(key) by {
        assert(s.row(key) == b.row(key));
        assert(b.row(key) == c.row(key));
    }
}

/// Purging a project keeps the summary of every index in step, and does not fail over it: its row goes, and no
/// other row of a project or an upload.
pub proof fn purges_keep_the_summary(
    s: TxnState,
    index: Seq<char>,
    normalized: Seq<char>,
    file_digests: Seq<Seq<char>>,
    metadata_digests: Seq<Seq<char>>,
    other: Seq<char>,
)
    requires
        index.len() > 0,
        normalized.len() > 0,
        !normalized.contains('/'),
        summary_agrees(s, index),
        summary_agrees(s, other),
    ensures
        s.purged(index, normalized, file_digests, metadata_digests) matches Ok(t) && {
            &&& summary_agrees(t, other)
            &&& project_rows(t, index) == project_rows(s, index).remove(key2(PROJECTS_PREFIX@, index, normalized))
            &&& upload_rows(t, index) == upload_rows(s, index)
            &&& t.row(key2(PROJECTS_PREFIX@, index, normalized)) is None
        },
{
    let key = key2(PROJECTS_PREFIX@, index, normalized);
    project_removals_keep_counts(s, RowScope::Replicated, index, normalized, other);
    project_removals_keep_counts(s, RowScope::Replicated, index, normalized, index);
    project_removals_keep_orders(s, RowScope::Replicated, index, normalized);
    let u = s.project_removed(RowScope::Replicated, index, normalized)->Ok_0;
    let t = u.cache_erased(index, normalized, file_digests, metadata_digests);
    erased_caches_keep_other_rows(u, index, normalized, file_digests, metadata_digests);
    other_rows_keep_the_summary(u, t, other);
    same_rows_count_the_same(u, t, index);
    project_key_is_its_row(index, normalized, index);
    count_keys_are_no_rows(index, index);
    assert(project_rows(u, index) =~= project_rows(s, index).remove(key));
    assert(upload_rows(u, index) =~= upload_rows(s, index));
    assert(key.subrange(0, PROJECTS_PREFIX@.len() as int) =~= PROJECTS_PREFIX@);
    assert(concerns_summary(key));
    assert(u.row(key) == t.row(key));
}

} // verus!
