//! The counts of an index agree with the rows they count, and every write keeps it so.
use vstd::prelude::*;
use vstd::utf8::encode_utf8;

use super::keys::{
    index_project, index_project_reads_back, key1, key2, key3, leaf_project, namespaces_are_disjoint,
    prefixes_are_namespaces, COUNT_PREFIX, PROJECTS_PREFIX, RECENT_PREFIX, UPLOAD_PREFIX,
};
use super::summary::{counts_read_back, json_recent, order_position, recent_of, time_segment, Counts};
use super::txn::{RowScope, TxnState};
use super::values::MetaErrorText;
use crate::text::{cut_prefix, cut_prefix_of_joined, last_index_of_joined};

verus! {

/// Whether `key` is the project row of one of `index`'s projects.
pub open spec fn is_project_row(index: Seq<char>, key: Seq<char>) -> bool {
    match cut_prefix(key, PROJECTS_PREFIX@) {
        Some(rest) => index_project(rest) is Some && (index_project(rest)->0).0 == index,
        None => false,
    }
}

/// Whether `key` is the upload row of one of `index`'s files.
pub open spec fn is_upload_row(index: Seq<char>, key: Seq<char>) -> bool {
    match cut_prefix(key, UPLOAD_PREFIX@) {
        Some(rest) => leaf_project(rest) is Some && (leaf_project(rest)->0).0 == index,
        None => false,
    }
}

/// The project rows of `index`.
pub open spec fn project_rows(s: TxnState, index: Seq<char>) -> Set<Seq<char>> {
    s.rows.dom().filter(|k: Seq<char>| is_project_row(index, k))
}

/// The upload rows of `index`.
pub open spec fn upload_rows(s: TxnState, index: Seq<char>) -> Set<Seq<char>> {
    s.rows.dom().filter(|k: Seq<char>| is_upload_row(index, k))
}

/// Whether the count row of `index` says how many project and upload rows `index` has.
pub open spec fn counts_agree(s: TxnState, index: Seq<char>) -> bool {
    &&& s.rows.dom().finite()
    &&& s.counts(index) matches Ok(counts) && counts.projects == project_rows(s, index).len() && counts.uploads
        == upload_rows(s, index).len()
}

/// The count row of an index is neither a project row nor an upload row.
pub proof fn count_keys_are_no_rows(index: Seq<char>, other: Seq<char>)
    ensures
        !is_project_row(other, key1(COUNT_PREFIX@, index)),
        !is_upload_row(other, key1(COUNT_PREFIX@, index)),
        index != other ==> key1(COUNT_PREFIX@, index) != key1(COUNT_PREFIX@, other),
{
    prefixes_are_namespaces();
    namespaces_are_disjoint(COUNT_PREFIX@, PROJECTS_PREFIX@, index);
    namespaces_are_disjoint(COUNT_PREFIX@, UPLOAD_PREFIX@, index);
    cut_prefix_of_joined(COUNT_PREFIX@, index);
    cut_prefix_of_joined(COUNT_PREFIX@, other);
}

proof fn order_keys_are_no_rows(rest: Seq<char>, index: Seq<char>)
    ensures
        !is_project_row(index, RECENT_PREFIX@ + rest),
        !is_upload_row(index, RECENT_PREFIX@ + rest),
        RECENT_PREFIX@ + rest != key1(COUNT_PREFIX@, index),
{
    prefixes_are_namespaces();
    namespaces_are_disjoint(RECENT_PREFIX@, PROJECTS_PREFIX@, rest);
    namespaces_are_disjoint(RECENT_PREFIX@, UPLOAD_PREFIX@, rest);
    namespaces_are_disjoint(RECENT_PREFIX@, COUNT_PREFIX@, rest);
    cut_prefix_of_joined(COUNT_PREFIX@, index);
}

/// The row of a project belongs to its index alone, and is neither an upload row nor a count row.
pub proof fn project_key_is_its_row(index: Seq<char>, normalized: Seq<char>, other: Seq<char>)
    requires
        index.len() > 0,
        normalized.len() > 0,
        !normalized.contains('/'),
    ensures
        is_project_row(other, key2(PROJECTS_PREFIX@, index, normalized)) == (other == index),
        !is_upload_row(other, key2(PROJECTS_PREFIX@, index, normalized)),
        key2(PROJECTS_PREFIX@, index, normalized) != key1(COUNT_PREFIX@, other),
{
    prefixes_are_namespaces();
    let rest = index + "/"@ + normalized;
    assert(key2(PROJECTS_PREFIX@, index, normalized) =~= PROJECTS_PREFIX@ + rest);
    cut_prefix_of_joined(PROJECTS_PREFIX@, rest);
    index_project_reads_back(index, normalized);
    namespaces_are_disjoint(PROJECTS_PREFIX@, UPLOAD_PREFIX@, rest);
    namespaces_are_disjoint(PROJECTS_PREFIX@, COUNT_PREFIX@, rest);
    cut_prefix_of_joined(COUNT_PREFIX@, other);
}

/// The row of a file belongs to its index alone, and is neither a project row nor a count row.
pub proof fn upload_key_is_its_row(index: Seq<char>, normalized: Seq<char>, filename: Seq<char>, other: Seq<char>)
    requires
        index.len() > 0,
        normalized.len() > 0,
        !normalized.contains('/'),
        !filename.contains('/'),
    ensures
        is_upload_row(other, key3(UPLOAD_PREFIX@, index, normalized, filename)) == (other == index),
        !is_project_row(other, key3(UPLOAD_PREFIX@, index, normalized, filename)),
        key3(UPLOAD_PREFIX@, index, normalized, filename) != key1(COUNT_PREFIX@, other),
{
    prefixes_are_namespaces();
    let pair = index + "/"@ + normalized;
    let rest = pair + "/"@ + filename;
    reveal_strlit("/");
    assert("/"@ =~= seq!['/']);
    assert(key3(UPLOAD_PREFIX@, index, normalized, filename) =~= UPLOAD_PREFIX@ + rest);
    cut_prefix_of_joined(UPLOAD_PREFIX@, rest);
    last_index_of_joined(pair, '/', filename);
    index_project_reads_back(index, normalized);
    namespaces_are_disjoint(UPLOAD_PREFIX@, PROJECTS_PREFIX@, rest);
    namespaces_are_disjoint(UPLOAD_PREFIX@, COUNT_PREFIX@, rest);
    cut_prefix_of_joined(COUNT_PREFIX@, other);
}

/// Writing the count row of `index` changes no project or upload row, and no other index's counts.
proof fn counting_changes_counts_alone(
    s: TxnState,
    scope: RowScope,
    index: Seq<char>,
    counts: Counts,
    other: Seq<char>,
)
    requires
        s.rows.dom().finite(),
    ensures
        ({
            let t = s.counted(scope, index, counts);
            &&& t.rows.dom().finite()
            &&& project_rows(t, other) == project_rows(s, other)
            &&& upload_rows(t, other) == upload_rows(s, other)
            &&& t.counts(index) == Ok::<Counts, MetaErrorText>(counts)
            &&& other != index ==> t.counts(other) == s.counts(other)
        }),
{
    let t = s.counted(scope, index, counts);
    count_keys_are_no_rows(index, other);
    count_keys_are_no_rows(index, index);
    counts_read_back(key1(COUNT_PREFIX@, index), counts);
    assert(project_rows(t, other) =~= project_rows(s, other));
    assert(upload_rows(t, other) =~= upload_rows(s, other));
}

/// Recording a project keeps the counts of every index in step with its rows.
pub proof fn project_writes_keep_counts(
    s: TxnState,
    scope: RowScope,
    index: Seq<char>,
    normalized: Seq<char>,
    display: Seq<char>,
    other: Seq<char>,
)
    requires
        index.len() > 0,
        normalized.len() > 0,
        !normalized.contains('/'),
        counts_agree(s, index),
        counts_agree(s, other),
        s.rows.contains_key(key2(PROJECTS_PREFIX@, index, normalized)) || project_rows(s, index).len() < u64::MAX,
    ensures
        s.project_written(scope, index, normalized, display) matches Ok(t) && counts_agree(t, other),
{
    let key = key2(PROJECTS_PREFIX@, index, normalized);
    project_key_is_its_row(index, normalized, index);
    project_key_is_its_row(index, normalized, other);
    let w = s.wrote(scope, key, encode_utf8(display));
    assert(upload_rows(w, other) =~= upload_rows(s, other));
    assert(upload_rows(w, index) =~= upload_rows(s, index));
    if s.rows.contains_key(key) {
        assert(project_rows(w, other) =~= project_rows(s, other));
    } else {
        assert(project_rows(w, index) =~= project_rows(s, index).insert(key));
        assert(!project_rows(s, index).contains(key));
        if other != index {
            assert(project_rows(w, other) =~= project_rows(s, other));
        }
        let counts = s.counts(index)->Ok_0;
        counting_changes_counts_alone(w, scope, index, counts.moved(1, 0), other);
        counting_changes_counts_alone(w, scope, index, counts.moved(1, 0), index);
    }
}

/// Dropping a project keeps the counts of every index in step with its rows.
pub proof fn project_removals_keep_counts(
    s: TxnState,
    scope: RowScope,
    index: Seq<char>,
    normalized: Seq<char>,
    other: Seq<char>,
)
    requires
        index.len() > 0,
        normalized.len() > 0,
        !normalized.contains('/'),
        counts_agree(s, index),
        counts_agree(s, other),
    ensures
        s.project_removed(scope, index, normalized) matches Ok(t) && counts_agree(t, other),
{
    let key = key2(PROJECTS_PREFIX@, index, normalized);
    project_key_is_its_row(index, normalized, index);
    project_key_is_its_row(index, normalized, other);
    if s.rows.contains_key(key) {
        let w = s.erased(scope, key);
        assert(upload_rows(w, other) =~= upload_rows(s, other));
        assert(upload_rows(w, index) =~= upload_rows(s, index));
        assert(project_rows(w, index) =~= project_rows(s, index).remove(key));
        assert(project_rows(s, index).contains(key));
        if other != index {
            assert(project_rows(w, other) =~= project_rows(s, other));
        }
        let counts = s.counts(index)->Ok_0;
        assert(w.counts(index) == s.counts(index));
        counting_changes_counts_alone(w, scope, index, counts.moved(-1, 0), other);
        counting_changes_counts_alone(w, scope, index, counts.moved(-1, 0), index);
    }
}

/// Touching a row of the order changes no counted row and no count.
proof fn order_changes_no_count(s: TxnState, t: TxnState, rest: Seq<char>, other: Seq<char>)
    requires
        s.rows.dom().finite(),
        t.rows == s.rows.remove(RECENT_PREFIX@ + rest) || t.rows == s.rows || exists|v: Seq<u8>|
            t.rows == s.rows.insert(RECENT_PREFIX@ + rest, v),
    ensures
        t.rows.dom().finite(),
        project_rows(t, other) == project_rows(s, other),
        upload_rows(t, other) == upload_rows(s, other),
        t.counts(other) == s.counts(other),
        forall|k: Seq<char>|
            k != RECENT_PREFIX@ + rest ==> (#[trigger] t.rows.contains_key(k) == s.rows.contains_key(k)),
{
    order_keys_are_no_rows(rest, other);
    assert(project_rows(t, other) =~= project_rows(s, other));
    assert(upload_rows(t, other) =~= upload_rows(s, other));
}

/// What stands behind the namespace in an order key.
pub open spec fn order_rest(index: Seq<char>, recent: super::summary::RecentText, filename: Seq<char>) -> Seq<char> {
    order_position(index, recent, filename).skip(RECENT_PREFIX@.len() as int)
}

proof fn order_position_is_an_order_key(
    index: Seq<char>,
    recent: super::summary::RecentText,
    filename: Seq<char>,
)
    ensures
        order_position(index, recent, filename) == RECENT_PREFIX@ + order_rest(index, recent, filename),
{
    let tail = index + "\u{0}"@ + time_segment(recent.written_at) + "/"@ + recent.artifact + "\u{0}"@ + recent.resource
        + "\u{0}"@ + filename;
    assert(order_position(index, recent, filename) =~= RECENT_PREFIX@ + tail);
    assert((RECENT_PREFIX@ + tail).skip(RECENT_PREFIX@.len() as int) =~= tail);
}

proof fn retiring_keeps_counts(
    s: TxnState,
    index: Seq<char>,
    normalized: Seq<char>,
    filename: Seq<char>,
    record: Option<Seq<u8>>,
    other: Seq<char>,
)
    requires
        s.rows.dom().finite(),
    ensures
        ({
            let t = s.order_retired(index, normalized, filename, record);
            let key = key3(UPLOAD_PREFIX@, index, normalized, filename);
            &&& t.rows.dom().finite()
            &&& project_rows(t, other) == project_rows(s, other)
            &&& upload_rows(t, other) == upload_rows(s, other)
            &&& t.counts(other) == s.counts(other)
            &&& t.rows.contains_key(key) == s.rows.contains_key(key)
        }),
{
    let t = s.order_retired(index, normalized, filename, record);
    let key = key3(UPLOAD_PREFIX@, index, normalized, filename);
    if record is Some && recent_of(normalized, filename, record->0) is Some {
        let recent = recent_of(normalized, filename, record->0)->0;
        let rest = order_rest(index, recent, filename);
        order_position_is_an_order_key(index, recent, filename);
        order_changes_no_count(s, t, rest, other);
        upload_key_is_no_order_key(index, normalized, filename, rest);
    }
}

proof fn upload_key_is_no_order_key(
    index: Seq<char>,
    normalized: Seq<char>,
    filename: Seq<char>,
    rest: Seq<char>,
)
    ensures
        key3(UPLOAD_PREFIX@, index, normalized, filename) != RECENT_PREFIX@ + rest,
{
    prefixes_are_namespaces();
    let tail = index + "/"@ + normalized + "/"@ + filename;
    assert(key3(UPLOAD_PREFIX@, index, normalized, filename) =~= UPLOAD_PREFIX@ + tail);
    namespaces_are_disjoint(UPLOAD_PREFIX@, RECENT_PREFIX@, tail);
    cut_prefix_of_joined(RECENT_PREFIX@, rest);
}

proof fn adding_order_keeps_counts(
    s: TxnState,
    index: Seq<char>,
    normalized: Seq<char>,
    filename: Seq<char>,
    record: Seq<u8>,
    other: Seq<char>,
)
    requires
        counts_agree(s, other),
    ensures
        counts_agree(s.order_added(index, normalized, filename, record), other),
{
    let t = s.order_added(index, normalized, filename, record);
    if recent_of(normalized, filename, record) is Some {
        let recent = recent_of(normalized, filename, record)->0;
        let rest = order_rest(index, recent, filename);
        order_position_is_an_order_key(index, recent, filename);
        assert(t.rows == s.rows.insert(RECENT_PREFIX@ + rest, encode_utf8(json_recent(recent))));
        order_changes_no_count(s, t, rest, other);
    }
}

/// Recording an upload keeps the counts of every index in step with its rows.
pub proof fn upload_writes_keep_counts(
    s: TxnState,
    index: Seq<char>,
    normalized: Seq<char>,
    filename: Seq<char>,
    record: Seq<u8>,
    other: Seq<char>,
)
    requires
        index.len() > 0,
        normalized.len() > 0,
        !normalized.contains('/'),
        !filename.contains('/'),
        counts_agree(s, index),
        counts_agree(s, other),
        s.rows.contains_key(key3(UPLOAD_PREFIX@, index, normalized, filename)) || upload_rows(s, index).len() < u64::MAX,
    ensures
        s.upload_written(index, normalized, filename, record) matches Ok(t) && counts_agree(t, other),
{
    let key = key3(UPLOAD_PREFIX@, index, normalized, filename);
    upload_key_is_its_row(index, normalized, filename, index);
    upload_key_is_its_row(index, normalized, filename, other);
    retiring_keeps_counts(s, index, normalized, filename, s.row(key), index);
    retiring_keeps_counts(s, index, normalized, filename, s.row(key), other);
    let a = s.order_retired(index, normalized, filename, s.row(key));
    let w = a.wrote(RowScope::Replicated, key, record);
    assert(project_rows(w, other) =~= project_rows(a, other));
    assert(project_rows(w, index) =~= project_rows(a, index));
    if s.rows.contains_key(key) {
        assert(upload_rows(w, other) =~= upload_rows(a, other));
        adding_order_keeps_counts(w, index, normalized, filename, record, other);
    } else {
        assert(upload_rows(w, index) =~= upload_rows(a, index).insert(key));
        assert(!upload_rows(a, index).contains(key));
        if other != index {
            assert(upload_rows(w, other) =~= upload_rows(a, other));
        }
        let counts = s.counts(index)->Ok_0;
        let c = w.counted(RowScope::Replicated, index, counts.moved(0, 1));
        counting_changes_counts_alone(w, RowScope::Replicated, index, counts.moved(0, 1), other);
        counting_changes_counts_alone(w, RowScope::Replicated, index, counts.moved(0, 1), index);
        adding_order_keeps_counts(c, index, normalized, filename, record, other);
    }
}

/// Removing an upload that is there keeps the counts of every index in step with its rows.
pub proof fn upload_removals_keep_counts(
    s: TxnState,
    index: Seq<char>,
    normalized: Seq<char>,
    filename: Seq<char>,
    record: Seq<u8>,
    other: Seq<char>,
)
    requires
        index.len() > 0,
        normalized.len() > 0,
        !normalized.contains('/'),
        !filename.contains('/'),
        s.rows.contains_key(key3(UPLOAD_PREFIX@, index, normalized, filename)),
        counts_agree(s, index),
        counts_agree(s, other),
    ensures
        s.upload_removed(index, normalized, filename, record) matches Ok(t) && counts_agree(t, other),
{
    let key = key3(UPLOAD_PREFIX@, index, normalized, filename);
    upload_key_is_its_row(index, normalized, filename, index);
    upload_key_is_its_row(index, normalized, filename, other);
    retiring_keeps_counts(s, index, normalized, filename, Some(record), index);
    retiring_keeps_counts(s, index, normalized, filename, Some(record), other);
    let a = s.order_retired(index, normalized, filename, Some(record));
    let w = a.erased(RowScope::Replicated, key);
    assert(project_rows(w, other) =~= project_rows(a, other));
    assert(project_rows(w, index) =~= project_rows(a, index));
    assert(upload_rows(w, index) =~= upload_rows(a, index).remove(key));
    assert(upload_rows(a, index).contains(key));
    if other != index {
        assert(upload_rows(w, other) =~= upload_rows(a, other));
    }
    let counts = s.counts(index)->Ok_0;
    counting_changes_counts_alone(w, RowScope::Replicated, index, counts.moved(0, -1), other);
    counting_changes_counts_alone(w, RowScope::Replicated, index, counts.moved(0, -1), index);
}

} // verus!
