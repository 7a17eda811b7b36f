//! What publishing, rewriting and deleting files leave behind: the rows they are about, and every other row.
use vstd::prelude::*;
use vstd::utf8::encode_utf8;

use crate::store::journal::json_journal;
use crate::store::keys::{
    key1, key2, key3, key4, prefixes_are_namespaces, ANNOUNCED_RELEASE_PREFIX, COUNT_PREFIX, METADATA_PREFIX,
    OVERRIDE_PREFIX, PROJECTS_PREFIX, PROVENANCE_PREFIX, RECENT_PREFIX, UPLOAD_PREFIX,
};
use crate::store::overrides::{DecodedText, MutationText, OverrideText};
use crate::store::projects::erased_all_rows;
use crate::store::summary::{order_position, RecentText};
use crate::store::txn::{byte_seqs, keys_under, rows_are_under, RowScope, TxnState};
use crate::store::uploads::{
    ending_in, filename_in, is_deletion, is_mutation, is_publication, mutated, mutation_of, override_applied,
    override_at, override_set, Guard, MutationBatch, PublishedFile, UploadMutation,
};
use crate::store::values::{MetaError, MetaErrorText};
use crate::collections::ascending_distinct;
use crate::simple::file::YankedText;

verus! {

/// Whether a key is that of a count or of the order of the uploads.
pub open spec fn is_derived_key(key: Seq<char>) -> bool {
    COUNT_PREFIX@.is_prefix_of(key) || RECENT_PREFIX@.is_prefix_of(key)
}

proof fn derived_keys(index: Seq<char>, recent: RecentText, filename: Seq<char>)
    ensures
        is_derived_key(key1(COUNT_PREFIX@, index)),
        is_derived_key(order_position(index, recent, filename)),
{
    prefixes_are_namespaces();
    let count = key1(COUNT_PREFIX@, index);
    let order = order_position(index, recent, filename);
    assert(count.subrange(0, COUNT_PREFIX@.len() as int) =~= COUNT_PREFIX@);
    assert(order.subrange(0, RECENT_PREFIX@.len() as int) =~= RECENT_PREFIX@);
}

proof fn upload_keys_are_not_derived(index: Seq<char>, normalized: Seq<char>, filename: Seq<char>)
    ensures
        !is_derived_key(key3(UPLOAD_PREFIX@, index, normalized, filename)),
{
    prefixes_are_namespaces();
    let key = key3(UPLOAD_PREFIX@, index, normalized, filename);
    assert(key[5] == UPLOAD_PREFIX@[5]);
    if COUNT_PREFIX@.is_prefix_of(key) {
        assert(key.subrange(0, COUNT_PREFIX@.len() as int)[5] == key[5]);
    }
    if RECENT_PREFIX@.is_prefix_of(key) {
        assert(key.subrange(0, RECENT_PREFIX@.len() as int)[5] == key[5]);
    }
}

// ---------------------------------------------------------------------------------------------
// One record
// ---------------------------------------------------------------------------------------------

/// A record that is written is read back, and no other row changes but those that count and order the uploads. It
/// fails only where the record is new and the count row cannot be read.
pub proof fn written_records_are_read_back(
    s: TxnState,
    index: Seq<char>,
    normalized: Seq<char>,
    filename: Seq<char>,
    record: Seq<u8>,
)
    ensures
        ({
            let key = key3(UPLOAD_PREFIX@, index, normalized, filename);
            let r = s.upload_written(index, normalized, filename, record);
            &&& r is Err ==> s.row(key) is None && s.counts(index) is Err
            &&& s.row(key) is Some || s.counts(index) is Ok ==> r is Ok
            &&& r matches Ok(t) ==> t.row(key) == Some(record)
            &&& r matches Ok(t) ==> forall|k: Seq<char>| k != key && !is_derived_key(k) ==> #[trigger] t.row(k) == s.row(k)
            &&& r matches Ok(t) ==> t.blobs == s.blobs && t.webhooks == s.webhooks && t.touched == s.touched
        }),
{
    let key = key3(UPLOAD_PREFIX@, index, normalized, filename);
    upload_keys_are_not_derived(index, normalized, filename);
    assert forall|recent: RecentText| is_derived_key(#[trigger] order_position(index, recent, filename)) by {
        derived_keys(index, recent, filename);
    }
    derived_keys(index, arbitrary_recent(), filename);
}

spec fn arbitrary_recent() -> RecentText {
    RecentText {
        resource: Seq::empty(),
        artifact: Seq::empty(),
        group: Seq::empty(),
        written_at: None,
        size: None,
    }
}

/// A record that is removed is gone, and no other row changes but those that count and order the uploads. It fails only
/// where the count row cannot be read.
pub proof fn removed_records_are_gone(
    s: TxnState,
    index: Seq<char>,
    normalized: Seq<char>,
    filename: Seq<char>,
    record: Seq<u8>,
)
    ensures
        ({
            let key = key3(UPLOAD_PREFIX@, index, normalized, filename);
            let r = s.upload_removed(index, normalized, filename, record);
            &&& r is Ok <==> s.counts(index) is Ok
            &&& r matches Ok(t) ==> t.row(key) is None
            &&& r matches Ok(t) ==> forall|k: Seq<char>| k != key && !is_derived_key(k) ==> #[trigger] t.row(k) == s.row(k)
            &&& r matches Ok(t) ==> t.blobs == s.blobs && t.webhooks == s.webhooks && t.touched == s.touched
        }),
{
    upload_keys_are_not_derived(index, normalized, filename);
    assert forall|recent: RecentText| is_derived_key(#[trigger] order_position(index, recent, filename)) by {
        derived_keys(index, recent, filename);
    }
    derived_keys(index, arbitrary_recent(), filename);
}

/// A project that is recorded is found under the name it was recorded with, and no other row changes but a count.
pub proof fn recorded_projects_are_found(
    s: TxnState,
    scope: RowScope,
    index: Seq<char>,
    normalized: Seq<char>,
    display: Seq<char>,
)
    ensures
        ({
            let key = key2(PROJECTS_PREFIX@, index, normalized);
            let r = s.project_written(scope, index, normalized, display);
            &&& r is Err ==> s.row(key) is None && s.counts(index) is Err
            &&& r matches Ok(t) ==> t.row(key) == Some(encode_utf8(display))
            &&& r matches Ok(t) ==> forall|k: Seq<char>| k != key && !is_derived_key(k) ==> #[trigger] t.row(k) == s.row(k)
        }),
{
    prefixes_are_namespaces();
    derived_keys(index, arbitrary_recent(), Seq::empty());
    let key = key2(PROJECTS_PREFIX@, index, normalized);
    assert(key[5] == PROJECTS_PREFIX@[5]);
    assert(key1(COUNT_PREFIX@, index)[5] == COUNT_PREFIX@[5]);
}

/// A project that is dropped is gone, and no other row changes but a count.
pub proof fn dropped_projects_are_gone(s: TxnState, scope: RowScope, index: Seq<char>, normalized: Seq<char>)
    ensures
        ({
            let key = key2(PROJECTS_PREFIX@, index, normalized);
            let r = s.project_removed(scope, index, normalized);
            &&& r matches Ok(t) ==> t.row(key) is None
            &&& r matches Ok(t) ==> forall|k: Seq<char>| k != key && !is_derived_key(k) ==> #[trigger] t.row(k) == s.row(k)
            &&& s.row(key) is None ==> r == Ok::<TxnState, MetaErrorText>(s)
        }),
{
    prefixes_are_namespaces();
    derived_keys(index, arbitrary_recent(), Seq::empty());
    let key = key2(PROJECTS_PREFIX@, index, normalized);
    assert(key[5] == PROJECTS_PREFIX@[5]);
    assert(key1(COUNT_PREFIX@, index)[5] == COUNT_PREFIX@[5]);
}

// ---------------------------------------------------------------------------------------------
// A batch
// ---------------------------------------------------------------------------------------------

/// The row that a mutation leaves of a record.
pub open spec fn left_of(mutation: UploadMutation, record: Option<Seq<u8>>) -> Option<Seq<u8>> {
    match mutation {
        UploadMutation::Keep => record,
        UploadMutation::Replace(bytes) => Some(bytes@),
        UploadMutation::Delete => None,
    }
}

/// Those of the keys whose records a batch rewrites or removes.
pub open spec fn changed_keys(
    batch: MutationBatch,
    mutations: Map<Seq<char>, UploadMutation>,
    keys: Seq<Seq<char>>,
) -> Seq<Seq<char>> {
    keys.filter(
        |k: Seq<char>|
            {
                let filename = k.skip((key2(UPLOAD_PREFIX@, batch.index, batch.normalized) + "/"@).len() as int);
                mutations.contains_key(filename) && !(mutations[filename] is Keep)
            },
    )
}

/// Whether every key is that of one of the project's records.
spec fn are_records(start: TxnState, batch: MutationBatch, keys: Seq<Seq<char>>) -> bool {
    forall|i: int|
        0 <= i < keys.len() ==> start.rows.contains_key(#[trigger] keys[i]) && keys[i] == key3(
            UPLOAD_PREFIX@,
            batch.index,
            batch.normalized,
            filename_in(batch, keys[i]),
        )
}

/// One step of a batch does to its record what the mutation says, and to no other.
proof fn one_record_changes(
    start: TxnState,
    batch: MutationBatch,
    keys: Seq<Seq<char>>,
    mutations: Map<Seq<char>, UploadMutation>,
    segments: Map<Seq<char>, String>,
    n: int,
)
    requires
        0 < n <= keys.len(),
        are_records(start, batch, keys),
        mutated(start, batch, keys, mutations, segments, n) is Ok,
    ensures
        mutated(start, batch, keys, mutations, segments, n - 1) is Ok,
        ({
            let m = mutated(start, batch, keys, mutations, segments, n - 1)->Ok_0;
            let end = mutated(start, batch, keys, mutations, segments, n)->Ok_0;
            let mutation = mutation_of(mutations, filename_in(batch, keys[n - 1]));
            &&& end.state.row(keys[n - 1]) == left_of(mutation, m.state.row(keys[n - 1]))
            &&& forall|k: Seq<char>|
                k != keys[n - 1] && !is_derived_key(k) ==> #[trigger] end.state.row(k) == m.state.row(k)
            &&& end.changed == m.changed + (if mutation is Keep {
                0int
            } else {
                1
            })
            &&& end.journal.len() == m.journal.len() + (if mutation is Keep || !batch.outbox {
                0int
            } else {
                1
            })
        }),
{
    let m = mutated(start, batch, keys, mutations, segments, n - 1)->Ok_0;
    let key = keys[n - 1];
    let filename = filename_in(batch, key);
    let record = start.rows[key];
    assert(start.rows.contains_key(key));
    match mutation_of(mutations, filename) {
        UploadMutation::Keep => {},
        UploadMutation::Replace(bytes) => {
            written_records_are_read_back(m.state, batch.index, batch.normalized, filename, bytes@);
            let t = m.state.upload_written(batch.index, batch.normalized, filename, bytes@)->Ok_0;
            let end = mutated(start, batch, keys, mutations, segments, n)->Ok_0;
            assert forall|k: Seq<char>| k != key && !is_derived_key(k) implies #[trigger] end.state.row(k) == m.state.row(
                k,
            ) by {
                assert(t.row(k) == m.state.row(k));
            }
            assert(end.state.row(key) == t.row(key));
        },
        UploadMutation::Delete => {
            removed_records_are_gone(m.state, batch.index, batch.normalized, filename, record);
            let t = m.state.upload_removed(batch.index, batch.normalized, filename, record)->Ok_0;
            let end = mutated(start, batch, keys, mutations, segments, n)->Ok_0;
            assert forall|k: Seq<char>| k != key && !is_derived_key(k) implies #[trigger] end.state.row(k) == m.state.row(
                k,
            ) by {
                assert(t.row(k) == m.state.row(k));
            }
            assert(end.state.row(key) == t.row(key));
        },
    }
}

proof fn batches_so_far(
    start: TxnState,
    batch: MutationBatch,
    keys: Seq<Seq<char>>,
    mutations: Map<Seq<char>, UploadMutation>,
    segments: Map<Seq<char>, String>,
    n: int,
)
    requires
        0 <= n <= keys.len(),
        keys.no_duplicates(),
        are_records(start, batch, keys),
        mutated(start, batch, keys, mutations, segments, n) is Ok,
    ensures
        ({
            let m = mutated(start, batch, keys, mutations, segments, n)->Ok_0;
            &&& forall|i: int|
                0 <= i < n ==> m.state.row(#[trigger] keys[i]) == left_of(
                    mutation_of(mutations, filename_in(batch, keys[i])),
                    start.row(keys[i]),
                )
            &&& forall|k: Seq<char>|
                !keys.take(n).contains(k) && !is_derived_key(k) ==> #[trigger] m.state.row(k) == start.row(k)
        }),
    decreases n,
{
    if n > 0 {
        one_record_changes(start, batch, keys, mutations, segments, n);
        batches_so_far(start, batch, keys, mutations, segments, n - 1);
        let m = mutated(start, batch, keys, mutations, segments, n - 1)->Ok_0;
        let end = mutated(start, batch, keys, mutations, segments, n)->Ok_0;
        let key = keys[n - 1];
        let fewer = keys.take(n - 1);
        let more = keys.take(n);
        assert(!fewer.contains(key)) by {
            if fewer.contains(key) {
                let i = choose|i: int| 0 <= i < fewer.len() && fewer[i] == key;
                assert(keys[i] == keys[n - 1]);
            }
        }
        upload_keys_are_not_derived(batch.index, batch.normalized, filename_in(batch, key));
        assert(m.state.row(key) == start.row(key));
        assert forall|i: int| 0 <= i < n implies end.state.row(#[trigger] keys[i]) == left_of(
            mutation_of(mutations, filename_in(batch, keys[i])),
            start.row(keys[i]),
        ) by {
            if i < n - 1 {
                assert(keys[i] != key);
                upload_keys_are_not_derived(batch.index, batch.normalized, filename_in(batch, keys[i]));
                assert(end.state.row(keys[i]) == m.state.row(keys[i]));
            }
        }
        assert forall|k: Seq<char>| !more.contains(k) && !is_derived_key(k) implies #[trigger] end.state.row(k)
            == start.row(k) by {
            assert(more[n - 1] == key);
            if fewer.contains(k) {
                let i = choose|i: int| 0 <= i < fewer.len() && fewer[i] == k;
                assert(more[i] == k);
            }
            assert(end.state.row(k) == m.state.row(k));
            assert(m.state.row(k) == start.row(k));
        }
    }
}

proof fn changes_so_far(
    start: TxnState,
    batch: MutationBatch,
    keys: Seq<Seq<char>>,
    mutations: Map<Seq<char>, UploadMutation>,
    segments: Map<Seq<char>, String>,
    n: int,
)
    requires
        0 <= n <= keys.len(),
        are_records(start, batch, keys),
        mutated(start, batch, keys, mutations, segments, n) is Ok,
    ensures
        ({
            let m = mutated(start, batch, keys, mutations, segments, n)->Ok_0;
            &&& m.changed == changed_keys(batch, mutations, keys.take(n)).len()
            &&& m.journal.len() == (if batch.outbox {
                m.changed
            } else {
                0
            })
        }),
    decreases n,
{
    reveal(Seq::filter);
    if n > 0 {
        one_record_changes(start, batch, keys, mutations, segments, n);
        changes_so_far(start, batch, keys, mutations, segments, n - 1);
        let more = keys.take(n);
        assert(more.drop_last() =~= keys.take(n - 1));
        assert(more.last() == keys[n - 1]);
    } else {
        assert(keys.take(0) =~= Seq::empty());
    }
}

/// A batch of mutations does to each record of the project what it says of it: a record that it deletes is gone, one
/// that it replaces is the replacement, and every other record is as it was. No other row changes but those that count
/// and order the uploads. It gives how many records it changed, and journals as many entries where entries are kept.
pub proof fn batches_do_what_they_say(
    was: TxnState,
    batch: MutationBatch,
    mutations: Map<Seq<char>, UploadMutation>,
    segments: Map<Seq<char>, String>,
    now: TxnState,
    r: Result<(usize, Vec<Vec<u8>>), MetaError>,
    filename: Seq<char>,
)
    requires
        was.rows.dom().finite(),
        is_mutation(was, batch, mutations, segments, now, r),
    ensures
        r is Err ==> now == was,
        r is Ok ==> {
            let key = key3(UPLOAD_PREFIX@, batch.index, batch.normalized, filename);
            &&& was.row(key) is None ==> now.row(key) is None
            &&& was.row(key) is Some && mutations.contains_key(filename) && mutations[filename] is Delete ==> now.row(key) is None
            &&& was.row(key) is Some && mutations.contains_key(filename) ==> (mutations[filename] matches
                UploadMutation::Replace(bytes) ==> now.row(key) == Some(bytes@))
            &&& !mutations.contains_key(filename) || mutations[filename] is Keep ==> now.row(key) == was.row(key)
        },
        r is Ok ==> forall|k: Seq<char>|
            !(key2(UPLOAD_PREFIX@, batch.index, batch.normalized) + "/"@).is_prefix_of(k) && !is_derived_key(k)
                ==> #[trigger] now.row(k) == was.row(k),
        r matches Ok((changed, journal)) ==> changed == changed_keys(
            batch,
            mutations,
            keys_under(was.rows, key2(UPLOAD_PREFIX@, batch.index, batch.normalized) + "/"@),
        ).len() && journal@.len() == (if batch.outbox {
            changed as int
        } else {
            0
        }),
{
    let prefix = key2(UPLOAD_PREFIX@, batch.index, batch.normalized) + "/"@;
    let keys = keys_under(was.rows, prefix);
    let under = was.rows.dom().filter(|k: Seq<char>| prefix.is_prefix_of(k));
    crate::store::txn::finite_sets_are_listed(under);
    ascending_distinct(keys);
    assert forall|i: int| 0 <= i < keys.len() implies was.rows.contains_key(#[trigger] keys[i]) && keys[i] == key3(
        UPLOAD_PREFIX@,
        batch.index,
        batch.normalized,
        filename_in(batch, keys[i]),
    ) by {
        assert(keys.contains(keys[i]));
        rows_are_under(was.rows, prefix, keys[i]);
        assert(keys[i] =~= prefix + keys[i].skip(prefix.len() as int));
        assert(key3(UPLOAD_PREFIX@, batch.index, batch.normalized, filename_in(batch, keys[i])) =~= prefix + keys[i].skip(
            prefix.len() as int,
        ));
    }
    if r is Ok {
        let n = keys.len() as int;
        batches_so_far(was, batch, keys, mutations, segments, n);
        changes_so_far(was, batch, keys, mutations, segments, n);
        assert(keys.take(n) =~= keys);
        let key = key3(UPLOAD_PREFIX@, batch.index, batch.normalized, filename);
        assert(key =~= prefix + filename);
        assert(key.subrange(0, prefix.len() as int) =~= prefix);
        assert(key.skip(prefix.len() as int) =~= filename);
        upload_keys_are_not_derived(batch.index, batch.normalized, filename);
        rows_are_under(was.rows, prefix, key);
        if was.row(key) is Some {
            let i = choose|i: int| 0 <= i < keys.len() && keys[i] == key;
            assert(filename_in(batch, keys[i]) == filename);
            assert(now.row(keys[i]) == left_of(mutation_of(mutations, filename), was.row(key)));
        } else {
            assert(!keys.contains(key));
        }
        assert forall|k: Seq<char>| !prefix.is_prefix_of(k) && !is_derived_key(k) implies #[trigger] now.row(k) == was.row(
            k,
        ) by {
            rows_are_under(was.rows, prefix, k);
        }
        assert(byte_seqs((r->Ok_0).1@).len() == (r->Ok_0).1@.len());
    }
}

/// A batch counts a record as changed exactly where it deletes or replaces it.
pub proof fn changed_records_are_counted(
    batch: MutationBatch,
    mutations: Map<Seq<char>, UploadMutation>,
    keys: Seq<Seq<char>>,
    filename: Seq<char>,
)
    ensures
        ({
            let key = key3(UPLOAD_PREFIX@, batch.index, batch.normalized, filename);
            changed_keys(batch, mutations, keys).contains(key) <==> keys.contains(key) && mutations.contains_key(filename)
                && (mutations[filename] is Delete || mutations[filename] is Replace)
        }),
{
    let prefix = key2(UPLOAD_PREFIX@, batch.index, batch.normalized) + "/"@;
    let key = key3(UPLOAD_PREFIX@, batch.index, batch.normalized, filename);
    assert(key =~= prefix + filename);
    assert(key.skip(prefix.len() as int) =~= filename);
    let changes = |k: Seq<char>|
        {
            let filename = k.skip((key2(UPLOAD_PREFIX@, batch.index, batch.normalized) + "/"@).len() as int);
            mutations.contains_key(filename) && !(mutations[filename] is Keep)
        };
    crate::store::txn::filtered_members(keys, changes, key);
}

// ---------------------------------------------------------------------------------------------
// Publishing and deleting
// ---------------------------------------------------------------------------------------------

/// A publication that its guard skips changes nothing and says so. One that goes in leaves the file's record, its
/// project, and its siblings to be read, references every blob, and changes the record of no other file. Where entries
/// are kept it journals the file last.
pub proof fn publications_are_read_back(
    was: TxnState,
    outbox: bool,
    file: PublishedFile<'_>,
    guard: Guard,
    webhook: Option<Seq<u8>>,
    now: TxnState,
    r: Result<(bool, Vec<Vec<u8>>), MetaError>,
)
    requires
        is_publication(was, outbox, file, guard, webhook, now, r),
    ensures
        guard is Skip ==> now == was && (r matches Ok((written, journal)) && !written && journal@.len() == 0),
        r is Err ==> now == was,
        r matches Ok((written, journal)) ==> (written <==> guard is Commit),
        guard is Commit && r is Ok ==> {
            &&& now.row(key3(UPLOAD_PREFIX@, file.index@, file.normalized@, file.filename@)) == Some(file.record@)
            &&& now.row(key2(PROJECTS_PREFIX@, file.index@, file.normalized@)) == Some(encode_utf8(file.display@))
            &&& file.metadata matches Some(sibling) ==> now.row(key1(METADATA_PREFIX@, file.artifact_sha256@)) == Some(
                encode_utf8(sibling.metadata_sha256@),
            )
            &&& file.provenance matches Some(sibling) ==> now.row(
                key4(PROVENANCE_PREFIX@, file.index@, file.normalized@, file.artifact_sha256@, file.filename@),
            ) == Some(
                encode_utf8(crate::store::values::provenance_record(sibling.provenance_sha256@, sibling.size)),
            )
            &&& now.blobs.contains((file.artifact_sha256@, file.artifact_size))
            &&& file.metadata matches Some(sibling) ==> now.blobs.contains((sibling.metadata_sha256@, sibling.size))
            &&& file.provenance matches Some(sibling) ==> now.blobs.contains((sibling.provenance_sha256@, sibling.size))
            &&& now.touched.contains(file.index@)
            &&& webhook matches Some(event) ==> now.webhooks == was.webhooks.push(event)
            &&& webhook is None ==> now.webhooks == was.webhooks
        },
        guard is Commit && outbox ==> (r matches Ok((written, journal)) ==> journal@.len() > 0 && journal@.last()@
            == encode_utf8(
            json_journal(
                "add-file"@,
                file.normalized@,
                Some(file.version@),
                Some(file.filename@),
                Some(file.python_tag@),
                file.submitted_at_unix,
            ),
        )),
        guard is Commit && !outbox ==> (r matches Ok((written, journal)) ==> journal@.len() == 0),
        r is Ok ==> forall|index: Seq<char>, normalized: Seq<char>, filename: Seq<char>|
            #![trigger key3(UPLOAD_PREFIX@, index, normalized, filename)]
            key3(UPLOAD_PREFIX@, index, normalized, filename) != key3(
                UPLOAD_PREFIX@,
                file.index@,
                file.normalized@,
                file.filename@,
            ) ==> now.row(key3(UPLOAD_PREFIX@, index, normalized, filename)) == was.row(
                key3(UPLOAD_PREFIX@, index, normalized, filename),
            ),
{
    if guard is Commit && r is Ok {
        prefixes_are_namespaces();
        let upload = key3(UPLOAD_PREFIX@, file.index@, file.normalized@, file.filename@);
        let project = key2(PROJECTS_PREFIX@, file.index@, file.normalized@);
        let metadata = key1(METADATA_PREFIX@, file.artifact_sha256@);
        let provenance = key4(PROVENANCE_PREFIX@, file.index@, file.normalized@, file.artifact_sha256@, file.filename@);
        let release = key3(ANNOUNCED_RELEASE_PREFIX@, file.index@, file.normalized@, file.version@);
        let touched = was.touched(file.index@).webhook_queued(webhook).referenced(file.artifact_sha256@, file.artifact_size);
        let described = touched.metadata_recorded(file.artifact_sha256@, file.metadata);
        let recorded = described.provenance_recorded(provenance, file.provenance);
        written_records_are_read_back(recorded, file.index@, file.normalized@, file.filename@, file.record@);
        let s = recorded.upload_written(file.index@, file.normalized@, file.filename@, file.record@)->Ok_0;
        recorded_projects_are_found(s, RowScope::Replicated, file.index@, file.normalized@, file.display@);
        let t = s.project_written(RowScope::Replicated, file.index@, file.normalized@, file.display@)->Ok_0;
        assert(upload[5] == UPLOAD_PREFIX@[5]);
        assert(project[5] == PROJECTS_PREFIX@[5]);
        assert(metadata[5] == METADATA_PREFIX@[5]);
        assert(provenance[5] == PROVENANCE_PREFIX@[5]);
        assert(release[5] == ANNOUNCED_RELEASE_PREFIX@[5]);
        plain_keys_are_not_derived(upload);
        plain_keys_are_not_derived(project);
        plain_keys_are_not_derived(metadata);
        plain_keys_are_not_derived(provenance);
        assert(t.row(upload) == Some(file.record@));
        assert(now.row(upload) == t.row(upload));
        blobs_of_projects(s, RowScope::Replicated, file.index@, file.normalized@, file.display@);
        let first = was.blobs.push((file.artifact_sha256@, file.artifact_size));
        assert(touched.blobs == first);
        assert(first[was.blobs.len() as int] == (file.artifact_sha256@, file.artifact_size));
        assert(described.blobs[was.blobs.len() as int] == first[was.blobs.len() as int]);
        assert(recorded.blobs[was.blobs.len() as int] == first[was.blobs.len() as int]);
        if file.metadata is Some {
            assert(described.blobs[described.blobs.len() - 1] == (
                (file.metadata->0).metadata_sha256@,
                (file.metadata->0).size,
            ));
            assert(recorded.blobs[described.blobs.len() - 1] == described.blobs[described.blobs.len() - 1]);
        }
        if file.provenance is Some {
            assert(recorded.blobs[recorded.blobs.len() - 1] == (
                (file.provenance->0).provenance_sha256@,
                (file.provenance->0).size,
            ));
        }
        assert(now.blobs == recorded.blobs);
        assert(now.touched[was.touched.len() as int] == file.index@);
        assert forall|index: Seq<char>, normalized: Seq<char>, filename: Seq<char>|
            #![trigger key3(UPLOAD_PREFIX@, index, normalized, filename)]
            key3(UPLOAD_PREFIX@, index, normalized, filename) != upload implies now.row(
            key3(UPLOAD_PREFIX@, index, normalized, filename),
        ) == was.row(key3(UPLOAD_PREFIX@, index, normalized, filename)) by {
            let other = key3(UPLOAD_PREFIX@, index, normalized, filename);
            assert(other[5] == UPLOAD_PREFIX@[5]);
            plain_keys_are_not_derived(other);
            assert(t.row(other) == s.row(other));
            assert(s.row(other) == recorded.row(other));
        }
        let journal = (r->Ok_0).1@;
        assert(byte_seqs(journal).len() == journal.len());
        if outbox {
            assert(byte_seqs(journal)[journal.len() - 1] == journal[journal.len() - 1]@);
        }
    }
}

proof fn blobs_of_projects(s: TxnState, scope: RowScope, index: Seq<char>, normalized: Seq<char>, display: Seq<char>)
    ensures
        s.project_written(scope, index, normalized, display) matches Ok(t) ==> t.blobs == s.blobs && t.touched == s.touched
            && t.webhooks == s.webhooks,
{
}

pub(crate) proof fn plain_keys_are_not_derived(key: Seq<char>)
    requires
        key.len() > 5,
        key[5] == UPLOAD_PREFIX@[5] || key[5] == PROJECTS_PREFIX@[5] || key[5] == METADATA_PREFIX@[5] || key[5]
            == PROVENANCE_PREFIX@[5],
    ensures
        !is_derived_key(key),
{
    prefixes_are_namespaces();
    if COUNT_PREFIX@.is_prefix_of(key) {
        assert(key.subrange(0, COUNT_PREFIX@.len() as int)[5] == key[5]);
    }
    if RECENT_PREFIX@.is_prefix_of(key) {
        assert(key.subrange(0, RECENT_PREFIX@.len() as int)[5] == key[5]);
    }
}

/// Deleting a file that is there removes its record and journals it where entries are kept; one that is not there is
/// told as such, and nothing changes. The record of no other file changes.
pub proof fn deletions_remove_one_file(
    was: TxnState,
    outbox: bool,
    index: Seq<char>,
    normalized: Seq<char>,
    filename: Seq<char>,
    segment: Option<Seq<char>>,
    submitted_at_unix: i64,
    now: TxnState,
    r: Result<(bool, Vec<Vec<u8>>), MetaError>,
)
    requires
        was.rows.dom().finite(),
        is_deletion(was, outbox, index, normalized, filename, segment, submitted_at_unix, now, r),
    ensures
        ({
            let key = key3(UPLOAD_PREFIX@, index, normalized, filename);
            &&& r is Err ==> now == was && was.row(key) is Some
            &&& r matches Ok((there, journal)) ==> {
                &&& there <==> was.row(key) is Some
                &&& now.row(key) is None
                &&& !there ==> now == was && journal@.len() == 0
                &&& there ==> journal@.len() == (if outbox {
                    1int
                } else {
                    0
                })
                &&& forall|k: Seq<char>|
                    k != key && UPLOAD_PREFIX@.is_prefix_of(k) ==> #[trigger] now.row(k) == was.row(k)
                &&& forall|k: Seq<char>|
                    PROJECTS_PREFIX@.is_prefix_of(k) || OVERRIDE_PREFIX@.is_prefix_of(k) ==> #[trigger] now.row(k)
                        == was.row(k)
            }
        }),
{
    let key = key3(UPLOAD_PREFIX@, index, normalized, filename);
    if was.row(key) is Some && r is Ok {
        prefixes_are_namespaces();
        let record = was.row(key)->0;
        let start = was.touched(index);
        removed_records_are_gone(start, index, normalized, filename, record);
        let s = start.upload_removed(index, normalized, filename, record)->Ok_0;
        let range = key2(PROVENANCE_PREFIX@, index, normalized) + "/"@;
        let under = keys_under(s.rows, range);
        let suffix = "/"@ + filename;
        let keys = ending_in(under, suffix);
        let n = keys.len() as int;
        counted_rows_stay_finite(start, index, normalized, filename, record);
        assert forall|k: Seq<char>| k.len() > 5 && k[5] != PROVENANCE_PREFIX@[5] implies #[trigger] now.row(k) == s.row(k) by {
            erased_all_rows(s, RowScope::Replicated, keys, n, k);
            assert(keys.take(n) =~= keys);
            if keys.contains(k) {
                crate::store::txn::filtered_members(under, |x: Seq<char>| suffix.is_suffix_of(x), k);
                rows_are_under(s.rows, range, k);
                assert(range.is_prefix_of(k));
                assert(k.subrange(0, range.len() as int)[5] == k[5]);
                assert(range[5] == PROVENANCE_PREFIX@[5]);
            }
        }
        assert(key[5] == UPLOAD_PREFIX@[5]);
        assert(now.row(key) == s.row(key));
        assert forall|k: Seq<char>| k != key && UPLOAD_PREFIX@.is_prefix_of(k) implies #[trigger] now.row(k) == was.row(k) by {
            assert(k.subrange(0, UPLOAD_PREFIX@.len() as int)[5] == k[5]);
            plain_keys_are_not_derived(k);
            assert(now.row(k) == s.row(k));
        }
        assert forall|k: Seq<char>| PROJECTS_PREFIX@.is_prefix_of(k) || OVERRIDE_PREFIX@.is_prefix_of(k) implies
            #[trigger] now.row(k) == was.row(k) by {
            if PROJECTS_PREFIX@.is_prefix_of(k) {
                assert(k.subrange(0, PROJECTS_PREFIX@.len() as int)[5] == k[5]);
            } else {
                assert(k.subrange(0, OVERRIDE_PREFIX@.len() as int)[5] == k[5]);
            }
            if COUNT_PREFIX@.is_prefix_of(k) {
                assert(k.subrange(0, COUNT_PREFIX@.len() as int)[5] == k[5]);
            }
            if RECENT_PREFIX@.is_prefix_of(k) {
                assert(k.subrange(0, RECENT_PREFIX@.len() as int)[5] == k[5]);
            }
            assert(now.row(k) == s.row(k));
        }
        let journal = (r->Ok_0).1@;
        assert(byte_seqs(journal).len() == journal.len());
    }
}

proof fn counted_rows_stay_finite(
    s: TxnState,
    index: Seq<char>,
    normalized: Seq<char>,
    filename: Seq<char>,
    record: Seq<u8>,
)
    requires
        s.rows.dom().finite(),
    ensures
        s.upload_removed(index, normalized, filename, record) matches Ok(t) ==> t.rows.dom().finite(),
{
}

// ---------------------------------------------------------------------------------------------
// Overrides
// ---------------------------------------------------------------------------------------------

/// An override that is set changes its own row alone. It says that the record moved exactly where a replica has
/// something to replay, and where nothing moved nothing changes.
pub proof fn overrides_change_one_row(
    s: TxnState,
    outbox: bool,
    index: Seq<char>,
    normalized: Seq<char>,
    filename: Seq<char>,
    segment: Option<Seq<char>>,
    decoded: DecodedText,
    mutation: MutationText,
    submitted_at_unix: i64,
)
    ensures
        override_set(s, outbox, index, normalized, filename, segment, decoded, mutation, submitted_at_unix) matches Ok(
            (t, moved, entries),
        ) ==> {
            let key = key3(OVERRIDE_PREFIX@, index, normalized, filename);
            &&& forall|k: Seq<char>| k != key ==> #[trigger] t.row(k) == s.row(k)
            &&& !moved ==> t == s && entries.len() == 0
            &&& moved ==> entries.len() == (if outbox {
                1int
            } else {
                0
            }) && t.touched.contains(index)
        },
{
    let r = override_set(s, outbox, index, normalized, filename, segment, decoded, mutation, submitted_at_unix);
    if r is Ok && r->Ok_0.1 {
        let t = r->Ok_0.0;
        assert(t.touched[s.touched.len() as int] == index);
    }
}

/// An override that is left imposing nothing has no row, and any other a row.
pub proof fn overrides_that_impose_nothing_go(s: TxnState, key: Seq<char>, decoded: DecodedText, mutation: MutationText)
    ensures
        override_applied(s, key, decoded, mutation) matches Ok((t, action)) ==> {
            let before = override_at(s, key, decoded)->Ok_0;
            let after = mutation.applied(before);
            &&& action is Some && !after.hidden && after.yanked is No ==> t.row(key) is None
            &&& action is Some && (after.hidden || !(after.yanked is No)) ==> t.row(key) == Some(
                encode_utf8(crate::store::overrides::json_override(after)),
            )
            &&& action is None ==> t == s
        },
        s.row(key) is None ==> override_at(s, key, decoded) == Ok::<OverrideText, MetaErrorText>(
            OverrideText { hidden: false, yanked: YankedText::No },
        ),
{
}

} // verus!
