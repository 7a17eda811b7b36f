//! What is read back of what was written: pages, overrides and the summary of an index.
use vstd::prelude::*;
use vstd::utf8::encode_utf8;

use super::keys::{
    key1, key2, key3, namespaces_are_disjoint, prefixes_are_namespaces, COUNT_PREFIX, FRESHNESS_PREFIX, INDEX_PREFIX,
    OVERRIDE_PREFIX, PROJECTS_PREFIX, RECENT_PREFIX,
};
use super::overrides::{json_override, DecodedText, MutationText, OverrideText};
use super::derived_laws::{purges_keep_the_summary, summary_agrees};
use super::journal::json_journal;
use super::reads::{page_at, summaries_read, summary_read, writes_read};
use super::record::{
    framed, json_overlay, page_decoded, records_are_framed, summarized, CachedIndex, CachedText, DecodedPage, FreshnessOverlay,
    IndexSummaryText, RecordHeader,
};
use super::summary::{order_range, RecentWrite};
use super::summary_laws::{
    count_keys_are_no_rows, counts_agree, project_key_is_its_row, project_removals_keep_counts, project_rows,
    project_writes_keep_counts, upload_rows,
};
use super::txn::{keys_under, rows_are_under, RowScope, TxnState};
use super::uploads::{override_applied, override_at, override_set};
use super::values::MetaErrorText;
use crate::text::opt_text;

verus! {

// ---------------------------------------------------------------------------------------------
// Cached pages
// ---------------------------------------------------------------------------------------------

/// Whether a decoded header line says what the header line of `record` says.
pub open spec fn says(header: RecordHeader, record: CachedIndex) -> bool {
    &&& opt_text(header.etag) == opt_text(record.etag)
    &&& header.last_serial == record.last_serial
    &&& header.fetched_at_unix == record.fetched_at_unix
    &&& opt_text(header.content_type) == opt_text(record.content_type)
    &&& header.fresh_secs == record.fresh_secs
}

/// A record is read back as it was encoded, body and all, and its summary gives its metadata and the lengths of
/// its body and of the whole record.
pub proof fn encoded_records_read_back(record: CachedIndex, header: RecordHeader)
    requires
        says(header, record),
    ensures
        ({
            let bytes = framed(encode_utf8(record.header_line()), record.body@);
            &&& page_decoded(bytes, DecodedPage::Header(header)) == Some(record@)
            &&& summarized(bytes, DecodedPage::Header(header)) == Some(
                IndexSummaryText {
                    fetched_at_unix: record.fetched_at_unix,
                    fresh_secs: record.fresh_secs,
                    body_bytes: record.body@.len(),
                    record_bytes: bytes.len(),
                    last_serial: record.last_serial,
                    content_type: opt_text(record.content_type),
                },
            )
        }),
{
    records_are_framed(record);
}

/// The rows once a page has been put.
pub open spec fn page_put(s: TxnState, key: Seq<char>, record: CachedIndex) -> TxnState {
    s.wrote(
        RowScope::Replicated,
        key1(INDEX_PREFIX@, key),
        framed(encode_utf8(record.header_line()), record.body@),
    ).erased(RowScope::Replicated, key1(FRESHNESS_PREFIX@, key))
}

/// The rows once a page's freshness has been advanced.
pub open spec fn freshness_touched(s: TxnState, key: Seq<char>, overlay: FreshnessOverlay) -> TxnState {
    s.wrote(RowScope::Replicated, key1(FRESHNESS_PREFIX@, key), encode_utf8(json_overlay(overlay)))
}

proof fn page_and_overlay_are_apart(key: Seq<char>)
    ensures
        key1(INDEX_PREFIX@, key) != key1(FRESHNESS_PREFIX@, key),
{
    prefixes_are_namespaces();
    namespaces_are_disjoint(INDEX_PREFIX@, FRESHNESS_PREFIX@, key);
    assert(FRESHNESS_PREFIX@.is_prefix_of(FRESHNESS_PREFIX@ + key));
}

/// A page that was put is read back as it was put, whatever overlay stood before it. A revalidation behind it
/// changes when it was fetched and how long it stays fresh, and nothing else; and a page that is put later is
/// read back with its own freshness again.
pub proof fn stored_pages_read_back(
    s: TxnState,
    key: Seq<char>,
    record: CachedIndex,
    header: RecordHeader,
    touched: FreshnessOverlay,
    later: CachedIndex,
    later_header: RecordHeader,
    overlay: Option<FreshnessOverlay>,
)
    requires
        says(header, record),
        says(later_header, later),
    ensures
        ({
            let put = page_put(s, key, record);
            let revalidated = freshness_touched(put, key, touched);
            let again = page_put(revalidated, key, later);
            &&& page_at(put, key, DecodedPage::Header(header), overlay) == Some(Some(record@))
            &&& page_at(revalidated, key, DecodedPage::Header(header), Some(touched)) == Some(
                Some(
                    CachedText {
                        fetched_at_unix: touched.fetched_at_unix,
                        fresh_secs: touched.fresh_secs,
                        ..record@
                    },
                ),
            )
            &&& page_at(again, key, DecodedPage::Header(later_header), overlay) == Some(Some(later@))
        }),
{
    page_and_overlay_are_apart(key);
    encoded_records_read_back(record, header);
    encoded_records_read_back(later, later_header);
}

// ---------------------------------------------------------------------------------------------
// Overrides
// ---------------------------------------------------------------------------------------------

/// Whether `decode` reads every override back from its stored form.
pub open spec fn reads_overrides_back(decode: spec_fn(Seq<u8>) -> DecodedText) -> bool {
    forall|record: OverrideText| decode(#[trigger] encode_utf8(json_override(record))) == DecodedText::Record(record)
}

/// What the override row at `key` decodes to.
pub open spec fn decoded_row(s: TxnState, key: Seq<char>, decode: spec_fn(Seq<u8>) -> DecodedText) -> DecodedText {
    match s.row(key) {
        Some(raw) => decode(raw),
        None => DecodedText::Damaged,
    }
}

/// A change of an override is read back: the record holds the new value of the field that moved and the old one
/// of the other. Every other row stays as it was, and recording the same value again changes nothing and has no
/// action to replay.
pub proof fn override_changes_read_back(
    s: TxnState,
    key: Seq<char>,
    decode: spec_fn(Seq<u8>) -> DecodedText,
    mutation: MutationText,
)
    requires
        reads_overrides_back(decode),
        override_at(s, key, decoded_row(s, key, decode)) is Ok,
    ensures
        ({
            let record = override_at(s, key, decoded_row(s, key, decode))->Ok_0;
            &&& override_applied(s, key, decoded_row(s, key, decode), mutation) matches Ok((t, action)) && {
                &&& action == mutation.action(record)
                &&& override_at(t, key, decoded_row(t, key, decode)) == Ok::<OverrideText, MetaErrorText>(mutation.applied(record))
                &&& t.rows.remove(key) == s.rows.remove(key)
                &&& override_applied(t, key, decoded_row(t, key, decode), mutation) == Ok::<
                    (TxnState, Option<Seq<char>>),
                    MetaErrorText,
                >(
                    (t, None),
                )
            }
        }),
{
    let record = override_at(s, key, decoded_row(s, key, decode))->Ok_0;
    let after = mutation.applied(record);
    let (t, action) = override_applied(s, key, decoded_row(s, key, decode), mutation)->Ok_0;
    vstd::utf8::encode_utf8_valid_utf8(json_override(after));
    assert(decode(encode_utf8(json_override(after))) == DecodedText::Record(after));
    assert(t.rows.remove(key) =~= s.rows.remove(key));
    if action is Some && !after.hidden && after.yanked is No {
        assert(t.row(key) is None);
    }
    assert(mutation.applied(after) == after);
}

/// The row of an override as it is written: none for one that imposes nothing.
pub open spec fn override_row(record: OverrideText) -> Option<Seq<u8>> {
    if !record.hidden && record.yanked is No {
        None
    } else {
        Some(encode_utf8(json_override(record)))
    }
}

/// Restoring a file undoes its deletion. Both writes move the record, and with an outbox each has its own journal
/// entry, the deletion's before the restoration's. Read again, the record, and with it the yank state, is what it
/// was before; the row is gone where the record imposes nothing, every other row is as it was, and all rows are
/// where the record was stored as it is written. Restoring once more changes nothing and has no entry.
pub proof fn restoring_undoes_deleting(
    s: TxnState,
    outbox: bool,
    index: Seq<char>,
    normalized: Seq<char>,
    filename: Seq<char>,
    segment: Option<Seq<char>>,
    decode: spec_fn(Seq<u8>) -> DecodedText,
    record: OverrideText,
    deleted_at: i64,
    restored_at: i64,
)
    requires
        reads_overrides_back(decode),
        override_at(
            s,
            key3(OVERRIDE_PREFIX@, index, normalized, filename),
            decoded_row(s, key3(OVERRIDE_PREFIX@, index, normalized, filename), decode),
        ) == Ok::<OverrideText, MetaErrorText>(record),
        !record.hidden,
    ensures
        ({
            let key = key3(OVERRIDE_PREFIX@, index, normalized, filename);
            let hide = MutationText::Hidden(true);
            let restore = MutationText::Hidden(false);
            let read = |t: TxnState| decoded_row(t, key, decode);
            let entry = |action: Seq<char>, at: i64|
                if outbox {
                    seq![encode_utf8(json_journal(action, normalized, segment, Some(filename), None, at))]
                } else {
                    Seq::<Seq<u8>>::empty()
                };
            &&& override_set(s, outbox, index, normalized, filename, segment, read(s), hide, deleted_at) matches Ok(
                (t, moved, journal),
            ) && {
                &&& moved && journal == entry("hide"@, deleted_at)
                &&& override_at(t, key, read(t)) == Ok::<OverrideText, MetaErrorText>(
                    OverrideText { hidden: true, ..record },
                )
                &&& override_set(t, outbox, index, normalized, filename, segment, read(t), restore, restored_at) matches Ok(
                    (u, moved, journal),
                ) && {
                    &&& moved && journal == entry("restore"@, restored_at)
                    &&& override_at(u, key, read(u)) == Ok::<OverrideText, MetaErrorText>(record)
                    &&& u.row(key) == override_row(record)
                    &&& u.rows.remove(key) == s.rows.remove(key)
                    &&& s.row(key) == override_row(record) ==> u.rows == s.rows
                    &&& override_set(u, outbox, index, normalized, filename, segment, read(u), restore, restored_at)
                        == Ok::<(TxnState, bool, Seq<Seq<u8>>), MetaErrorText>((u, false, Seq::empty()))
                }
            }
        }),
{
    let key = key3(OVERRIDE_PREFIX@, index, normalized, filename);
    let hide = MutationText::Hidden(true);
    let restore = MutationText::Hidden(false);
    override_changes_read_back(s, key, decode, hide);
    let (hidden, _) = override_applied(s, key, decoded_row(s, key, decode), hide)->Ok_0;
    let t = hidden.touched(index);
    assert(decoded_row(t, key, decode) == decoded_row(hidden, key, decode));
    override_changes_read_back(t, key, decode, restore);
    let (shown, _) = override_applied(t, key, decoded_row(t, key, decode), restore)->Ok_0;
    let u = shown.touched(index);
    assert(decoded_row(u, key, decode) == decoded_row(shown, key, decode));
    assert(restore.applied(OverrideText { hidden: true, ..record }) == record);
    if s.row(key) == override_row(record) {
        assert(u.rows =~= s.rows) by {
            assert forall|k: Seq<char>| #[trigger] u.rows.contains_key(k) == s.rows.contains_key(k) by {
                assert(u.rows.remove(key).contains_key(k) == s.rows.remove(key).contains_key(k));
                assert(u.row(key) == s.row(key));
            }
            assert forall|k: Seq<char>| #[trigger] u.rows.contains_key(k) implies u.rows[k] == s.rows[k] by {
                if k != key {
                    assert(u.rows.remove(key)[k] == s.rows.remove(key)[k]);
                }
                assert(u.row(key) == s.row(key));
            }
        }
    }
}

// ---------------------------------------------------------------------------------------------
// The summary of an index
// ---------------------------------------------------------------------------------------------

proof fn decoded_writes_are_read(keys: Seq<Seq<char>>, decoded: Map<Seq<char>, RecentWrite>, n: int)
    requires
        n <= keys.len(),
        forall|i: int| 0 <= i < keys.len() ==> decoded.contains_key(#[trigger] keys[i]),
    ensures
        writes_read(keys, decoded, n) is Ok,
    decreases n,
{
    if n > 0 {
        decoded_writes_are_read(keys, decoded, n - 1);
    }
}

/// A summary gives as many projects and as many uploads as the index has rows for, where its counts agree and
/// its order rows can be read.
pub proof fn summaries_count_the_rows(
    s: TxnState,
    index: Seq<char>,
    limit: nat,
    decoded: Map<Seq<char>, RecentWrite>,
)
    requires
        counts_agree(s, index),
        forall|i: int|
            0 <= i < keys_under(s.rows, order_range(index)).len() ==> decoded.contains_key(
                #[trigger] keys_under(s.rows, order_range(index))[i],
            ),
    ensures
        summary_read(s, index, limit, decoded) matches Ok(summary) && summary.resource_count == project_rows(
            s,
            index,
        ).len() && summary.write_count == upload_rows(s, index).len(),
{
    let keys = keys_under(s.rows, order_range(index));
    decoded_writes_are_read(
        keys,
        decoded,
        if limit < keys.len() {
            limit as int
        } else {
            keys.len() as int
        },
    );
}

/// A project that is put is counted: the summary behind it gives as many projects as the index then has rows for,
/// which is one more than before where the project is new.
pub proof fn put_projects_are_counted(
    s: TxnState,
    scope: RowScope,
    index: Seq<char>,
    normalized: Seq<char>,
    display: Seq<char>,
    limit: nat,
    decoded: Map<Seq<char>, RecentWrite>,
)
    requires
        index.len() > 0,
        normalized.len() > 0,
        !normalized.contains('/'),
        counts_agree(s, index),
        s.rows.contains_key(key2(PROJECTS_PREFIX@, index, normalized)) || project_rows(s, index).len() < u64::MAX,
        s.project_written(scope, index, normalized, display) matches Ok(t) ==> forall|i: int|
            0 <= i < keys_under(t.rows, order_range(index)).len() ==> decoded.contains_key(
                #[trigger] keys_under(t.rows, order_range(index))[i],
            ),
    ensures
        s.project_written(scope, index, normalized, display) matches Ok(t) && {
            &&& t.row(key2(PROJECTS_PREFIX@, index, normalized)) == Some(encode_utf8(display))
            &&& summary_read(t, index, limit, decoded) matches Ok(summary) && summary.resource_count == project_rows(
                t,
                index,
            ).len() && summary.resource_count == project_rows(s, index).len() + (if s.rows.contains_key(
                key2(PROJECTS_PREFIX@, index, normalized),
            ) {
                0int
            } else {
                1int
            })
        },
{
    let key = key2(PROJECTS_PREFIX@, index, normalized);
    project_writes_keep_counts(s, scope, index, normalized, display, index);
    let t = s.project_written(scope, index, normalized, display)->Ok_0;
    summaries_count_the_rows(t, index, limit, decoded);
    project_key_is_its_row(index, normalized, index);
    count_keys_are_no_rows(index, index);
    assert(project_rows(t, index) =~= project_rows(s, index).insert(key));
}

/// A project that is removed is no longer counted.
pub proof fn removed_projects_are_not_counted(
    s: TxnState,
    scope: RowScope,
    index: Seq<char>,
    normalized: Seq<char>,
    limit: nat,
    decoded: Map<Seq<char>, RecentWrite>,
)
    requires
        index.len() > 0,
        normalized.len() > 0,
        !normalized.contains('/'),
        counts_agree(s, index),
        s.project_removed(scope, index, normalized) matches Ok(t) ==> forall|i: int|
            0 <= i < keys_under(t.rows, order_range(index)).len() ==> decoded.contains_key(
                #[trigger] keys_under(t.rows, order_range(index))[i],
            ),
    ensures
        s.project_removed(scope, index, normalized) matches Ok(t) && {
            &&& t.row(key2(PROJECTS_PREFIX@, index, normalized)) is None
            &&& summary_read(t, index, limit, decoded) matches Ok(summary) && summary.resource_count == project_rows(
                t,
                index,
            ).len() && summary.resource_count == project_rows(s, index).len() - (if s.rows.contains_key(
                key2(PROJECTS_PREFIX@, index, normalized),
            ) {
                1int
            } else {
                0int
            })
        },
{
    let key = key2(PROJECTS_PREFIX@, index, normalized);
    project_removals_keep_counts(s, scope, index, normalized, index);
    let t = s.project_removed(scope, index, normalized)->Ok_0;
    summaries_count_the_rows(t, index, limit, decoded);
    project_key_is_its_row(index, normalized, index);
    count_keys_are_no_rows(index, index);
    assert(project_rows(t, index) =~= project_rows(s, index).remove(key));
}

/// A project that is purged is no longer counted: the summary behind the purge gives as many projects as the index
/// then has rows for, which is one less than before where the project was there, and as many uploads as before.
pub proof fn purged_projects_are_not_counted(
    s: TxnState,
    index: Seq<char>,
    normalized: Seq<char>,
    file_digests: Seq<Seq<char>>,
    metadata_digests: Seq<Seq<char>>,
    limit: nat,
    decoded: Map<Seq<char>, RecentWrite>,
)
    requires
        index.len() > 0,
        normalized.len() > 0,
        !normalized.contains('/'),
        summary_agrees(s, index),
        s.purged(index, normalized, file_digests, metadata_digests) matches Ok(t) ==> forall|i: int|
            0 <= i < keys_under(t.rows, order_range(index)).len() ==> decoded.contains_key(
                #[trigger] keys_under(t.rows, order_range(index))[i],
            ),
    ensures
        s.purged(index, normalized, file_digests, metadata_digests) matches Ok(t) && {
            &&& t.row(key2(PROJECTS_PREFIX@, index, normalized)) is None
            &&& summary_read(t, index, limit, decoded) matches Ok(summary) && summary.resource_count == project_rows(
                t,
                index,
            ).len() && summary.resource_count == project_rows(s, index).len() - (if s.rows.contains_key(
                key2(PROJECTS_PREFIX@, index, normalized),
            ) {
                1int
            } else {
                0int
            }) && summary.write_count == upload_rows(s, index).len()
        },
{
    purges_keep_the_summary(s, index, normalized, file_digests, metadata_digests, index);
    let t = s.purged(index, normalized, file_digests, metadata_digests)->Ok_0;
    summaries_count_the_rows(t, index, limit, decoded);
    project_key_is_its_row(index, normalized, index);
}

/// The first project of an empty store is counted, for whoever asks for the summary of its index.
pub proof fn the_first_project_is_counted(
    s: TxnState,
    scope: RowScope,
    index: Seq<char>,
    normalized: Seq<char>,
    display: Seq<char>,
    limit: nat,
    decoded: Map<Seq<char>, RecentWrite>,
)
    requires
        s.rows == Map::<Seq<char>, Seq<u8>>::empty(),
        index.len() > 0,
        normalized.len() > 0,
        !normalized.contains('/'),
    ensures
        s.project_written(scope, index, normalized, display) matches Ok(t) && (summaries_read(
            t,
            seq![index],
            limit,
            decoded,
            1,
        ) matches Ok(summaries) && summaries.contains_key(index) && summaries[index].resource_count == 1),
{
    assert(project_rows(s, index) =~= Set::empty());
    assert(upload_rows(s, index) =~= Set::empty());
    project_writes_keep_counts(s, scope, index, normalized, display, index);
    let t = s.project_written(scope, index, normalized, display)->Ok_0;
    let key = key2(PROJECTS_PREFIX@, index, normalized);
    let count = key1(COUNT_PREFIX@, index);
    let range = order_range(index);
    prefixes_are_namespaces();
    assert(key =~= PROJECTS_PREFIX@ + (index + "/"@ + normalized));
    namespaces_are_disjoint(PROJECTS_PREFIX@, RECENT_PREFIX@, index + "/"@ + normalized);
    namespaces_are_disjoint(COUNT_PREFIX@, RECENT_PREFIX@, index);
    assert forall|k: Seq<char>| !keys_under(t.rows, range).contains(k) by {
        rows_are_under(t.rows, range, k);
        if t.rows.contains_key(k) && range.is_prefix_of(k) {
            assert(k == key || k == count);
            assert(RECENT_PREFIX@ =~= k.take(RECENT_PREFIX@.len() as int)) by {
                assert(range =~= k.take(range.len() as int));
                assert(RECENT_PREFIX@ =~= range.take(RECENT_PREFIX@.len() as int));
            }
            assert(RECENT_PREFIX@.is_prefix_of(k));
        }
    }
    if keys_under(t.rows, range).len() > 0 {
        assert(keys_under(t.rows, range).contains(keys_under(t.rows, range)[0]));
    }
    put_projects_are_counted(s, scope, index, normalized, display, limit, decoded);
    reveal_with_fuel(summaries_read, 2);
}

} // verus!
