//! Reading records back, one by one and by namespace.
use vstd::prelude::*;
use vstd::utf8::{decode_utf8, valid_utf8};

use crate::collections::TextMap;
use crate::outside::utf8_text;
use crate::store::keys::{
    count_key, freshness_key, index_key, key1, key2, key3, project_key, upload_key, upload_prefix, FRESHNESS_PREFIX,
    COUNT_PREFIX, INDEX_PREFIX, OVERRIDE_PREFIX, PROJECTS_PREFIX, UPLOAD_PREFIX,
};
use crate::store::overrides::{decoded_at, read_override, DecodedOverride, FileOverride, OverrideText};
use crate::store::record::{
    page_decoded, summarized, CachedIndex, CachedIndexPage, CachedText, DecodedPage, FreshnessOverlay, IndexSummaryText,
};
use crate::store::summary::{counts_read, order_prefix, order_range, Counts, RecentText, RecentWrite};
use crate::store::txn::{keys_under, opt_as_slice, opt_bytes, rows_under, DriverTxn, TxnState};
use crate::store::values::{record_str, MetaError, MetaErrorText, PypiRecords};
use crate::text::{bytes_clone, opt_text, texts};

verus! {

// ---------------------------------------------------------------------------------------------
// Single rows
// ---------------------------------------------------------------------------------------------

/// Whether `r` is the display name of a project.
pub open spec fn is_display_name(s: TxnState, index: Seq<char>, normalized: Seq<char>, r: Option<String>) -> bool {
    opt_text(r) == (match s.row(key2(PROJECTS_PREFIX@, index, normalized)) {
        Some(raw) => if valid_utf8(raw) {
            Some(decode_utf8(raw))
        } else {
            None
        },
        None => None,
    })
}

/// The display name of a project. A row that is not text names nothing.
pub fn get_project(txn: &DriverTxn, index: &str, normalized: &str) -> (r: Option<String>)
    ensures
        is_display_name(txn@, index@, normalized@, r),
{
    let key = project_key(index, normalized);
    match txn.get(key.as_str()) {
        Some(raw) => utf8_text(raw),
        None => None,
    }
}

/// The stored record of one hosted file.
pub fn get_upload(txn: &DriverTxn, index: &str, normalized: &str, filename: &str) -> (r: Option<Vec<u8>>)
    ensures
        opt_bytes(r) == txn@.row(key3(UPLOAD_PREFIX@, index@, normalized@, filename@)),
{
    let key = upload_key(index, normalized, filename);
    txn.get(key.as_str())
}

/// A cached page as it is stored.
pub enum StoredPage {
    Absent,
    /// The row, or the overlay row that a revalidation left, cannot be read.
    Unreadable,
    Page(CachedIndex),
}

/// The freshness that a revalidation left for a page, when it left one; `decoded` is what its row decodes to.
/// Nothing at all where the row cannot be read.
pub open spec fn overlay_read(s: TxnState, key: Seq<char>, decoded: Option<FreshnessOverlay>) -> Option<
    Option<FreshnessOverlay>,
> {
    match (s.row(key1(FRESHNESS_PREFIX@, key)), decoded) {
        (None, _) => Some(None),
        (Some(_), Some(overlay)) => Some(Some(overlay)),
        (Some(_), None) => None,
    }
}

fn read_overlay(txn: &DriverTxn, key: &str, decoded: Option<FreshnessOverlay>) -> (r: Option<Option<FreshnessOverlay>>)
    ensures
        r == overlay_read(txn@, key@, decoded),
{
    let overlay_key = freshness_key(key);
    match (txn.get(overlay_key.as_str()), decoded) {
        (None, _) => Some(None),
        (Some(_), Some(overlay)) => Some(Some(overlay)),
        (Some(_), None) => None,
    }
}

/// The cached page at `key`: none where there is no row, and nothing at all where the row, or the overlay row that
/// a revalidation left, cannot be read. The overlay's freshness stands over the record's own.
pub open spec fn page_at(
    s: TxnState,
    key: Seq<char>,
    decoded: DecodedPage,
    overlay: Option<FreshnessOverlay>,
) -> Option<Option<CachedText>> {
    match s.row(key1(INDEX_PREFIX@, key)) {
        None => Some(None),
        Some(raw) => match (page_decoded(raw, decoded), overlay_read(s, key, overlay)) {
            (Some(page), Some(fresh)) => Some(Some(page.overlaid(fresh))),
            _ => None,
        },
    }
}

/// Read a cached page. `decoded` is what its record decodes to, and `overlay` what the overlay row a
/// revalidation left decodes to. The overlay's freshness stands over the record's own.
pub fn get_index(txn: &DriverTxn, key: &str, decoded: DecodedPage, overlay: Option<FreshnessOverlay>) -> (r: StoredPage)
    ensures
        match page_at(txn@, key@, decoded, overlay) {
            Some(None) => r is Absent,
            Some(Some(page)) => r matches StoredPage::Page(found) && found@ == page,
            None => r is Unreadable,
        },
{
    let page_key = index_key(key);
    let raw = match txn.get(page_key.as_str()) {
        Some(raw) => raw,
        None => {
            return StoredPage::Absent;
        },
    };
    match (CachedIndex::decode(raw.as_slice(), decoded), read_overlay(txn, key, overlay)) {
        (Some(page), Some(fresh)) => StoredPage::Page(page.with_overlay(fresh)),
        _ => StoredPage::Unreadable,
    }
}

// ---------------------------------------------------------------------------------------------
// Namespaces
// ---------------------------------------------------------------------------------------------

/// What follows the prefix in a key.
pub open spec fn behind(prefix: Seq<char>, key: Seq<char>) -> Seq<char> {
    key.skip(prefix.len() as int)
}

fn key_behind(prefix: &str, key: &str) -> (r: String)
    requires
        prefix@.is_prefix_of(key@),
    ensures
        r@ == behind(prefix@, key@),
{
    let n: usize = prefix.unicode_len();
    let m: usize = key.unicode_len();
    let rest = key.substring_char(n, m);
    assert(rest@ =~= behind(prefix@, key@));
    rest.to_owned()
}

/// Whether `entries` are the rows under a prefix, in order, each under what follows the prefix in its key.
pub open spec fn entries_behind(s: TxnState, prefix: Seq<char>, entries: Seq<(String, Vec<u8>)>) -> bool {
    let keys = keys_under(s.rows, prefix);
    &&& entries.len() == keys.len()
    &&& forall|i: int|
        0 <= i < entries.len() ==> (#[trigger] entries[i]).0@ == behind(prefix, keys[i]) && s.row(keys[i]) == Some(
            entries[i].1@,
        ) && prefix.is_prefix_of(keys[i])
}

/// The rows under a prefix, each under what follows the prefix in its key.
pub fn entries_under(txn: &DriverTxn, prefix: &str) -> (r: Vec<(String, Vec<u8>)>)
    ensures
        entries_behind(txn@, prefix@, r@),
{
    let rows = txn.prefix(prefix);
    let ghost keys = keys_under(txn@.rows, prefix@);
    assert(rows@.len() == keys.len()) by {
        assert(crate::store::txn::entry_keys(rows@).len() == rows@.len());
    }
    let mut out: Vec<(String, Vec<u8>)> = Vec::new();
    let mut i: usize = 0;
    while i < rows.len()
        invariant
            i <= rows@.len(),
            rows_under(txn@.rows, prefix@, rows@),
            keys == keys_under(txn@.rows, prefix@),
            rows@.len() == keys.len(),
            out@.len() == i,
            forall|j: int|
                0 <= j < i ==> (#[trigger] out@[j]).0@ == behind(prefix@, keys[j]) && txn@.row(keys[j]) == Some(
                    out@[j].1@,
                ),
        decreases rows.len() - i,
    {
        assert(crate::store::txn::entry_keys(rows@)[i as int] == rows@[i as int].0@);
        let name = key_behind(prefix, rows[i].0.as_str());
        out.push((name, bytes_clone(rows[i].1.as_slice())));
        i = i + 1;
    }
    out
}

/// The stored records of a hosted project, by filename.
pub fn list_upload_entries(txn: &DriverTxn, index: &str, normalized: &str) -> (r: Vec<(String, Vec<u8>)>)
    ensures
        entries_behind(txn@, key3(UPLOAD_PREFIX@, index@, normalized@, Seq::empty()), r@),
{
    let prefix = upload_prefix(index, normalized);
    assert(prefix@ =~= key3(UPLOAD_PREFIX@, index@, normalized@, Seq::empty()));
    entries_under(txn, prefix.as_str())
}

/// The summary of the cached page at `key`, its freshness that of its overlay row where there is one. Nothing
/// where either row cannot be read.
pub open spec fn page_summary(
    s: TxnState,
    key: Seq<char>,
    decoded: Map<Seq<char>, DecodedPage>,
    overlays: Map<Seq<char>, FreshnessOverlay>,
) -> Option<IndexSummaryText> {
    let page = if decoded.contains_key(key) {
        decoded[key]
    } else {
        DecodedPage::Damaged
    };
    let overlay = if overlays.contains_key(key) {
        Some(overlays[key])
    } else {
        None
    };
    match (summarized(s.rows[key1(INDEX_PREFIX@, key)], page), overlay_read(s, key, overlay)) {
        (Some(summary), Some(Some(overlay))) => Some(
            IndexSummaryText {
                fetched_at_unix: overlay.fetched_at_unix,
                fresh_secs: overlay.fresh_secs,
                ..summary
            },
        ),
        (Some(summary), Some(None)) => Some(summary),
        _ => None,
    }
}

/// The summaries of the first `n` cached pages, or the key of the first that cannot be read.
pub open spec fn pages_summarized(
    s: TxnState,
    decoded: Map<Seq<char>, DecodedPage>,
    overlays: Map<Seq<char>, FreshnessOverlay>,
    n: int,
) -> Result<Seq<(Seq<char>, IndexSummaryText)>, Seq<char>>
    decreases n,
{
    if n <= 0 {
        Ok(Seq::empty())
    } else {
        match pages_summarized(s, decoded, overlays, n - 1) {
            Err(key) => Err(key),
            Ok(pages) => {
                let key = behind(INDEX_PREFIX@, keys_under(s.rows, INDEX_PREFIX@)[n - 1]);
                match page_summary(s, key, decoded, overlays) {
                    Some(summary) => Ok(pages.push((key, summary))),
                    None => Err(key),
                }
            },
        }
    }
}

proof fn summary_error_stays(
    s: TxnState,
    decoded: Map<Seq<char>, DecodedPage>,
    overlays: Map<Seq<char>, FreshnessOverlay>,
    m: int,
    n: int,
)
    requires
        0 <= m <= n,
        pages_summarized(s, decoded, overlays, m) is Err,
    ensures
        pages_summarized(s, decoded, overlays, n) == pages_summarized(s, decoded, overlays, m),
    decreases n,
{
    if m < n {
        summary_error_stays(s, decoded, overlays, m, n - 1);
    }
}

/// Pages as texts.
pub open spec fn page_texts(pages: Seq<CachedIndexPage>) -> Seq<(Seq<char>, IndexSummaryText)> {
    pages.map_values(|p: CachedIndexPage| (p.key@, p.summary@))
}

/// Every cached page's summary, in the order of the keys. `decoded` and `overlays` are what the rows decode
/// to, by page.
pub fn scan_index_pages(
    txn: &DriverTxn,
    decoded: &TextMap<DecodedPage>,
    overlays: &TextMap<FreshnessOverlay>,
) -> (r: Result<Vec<CachedIndexPage>, MetaError>)
    ensures
        match pages_summarized(txn@, decoded@, overlays@, keys_under(txn@.rows, INDEX_PREFIX@).len() as int) {
            Ok(pages) => r matches Ok(found) && page_texts(found@) == pages,
            Err(key) => r matches Err(e) && e@ == (MetaErrorText::Malformed { key }),
        },
{
    let rows = entries_under(txn, INDEX_PREFIX);
    let ghost keys = keys_under(txn@.rows, INDEX_PREFIX@);
    let mut out: Vec<CachedIndexPage> = Vec::new();
    assert(page_texts(out@) =~= Seq::<(Seq<char>, IndexSummaryText)>::empty());
    let mut i: usize = 0;
    while i < rows.len()
        invariant
            i <= rows@.len(),
            keys == keys_under(txn@.rows, INDEX_PREFIX@),
            entries_behind(txn@, INDEX_PREFIX@, rows@),
            pages_summarized(txn@, decoded@, overlays@, i as int) == Ok::<
                Seq<(Seq<char>, IndexSummaryText)>,
                Seq<char>,
            >(page_texts(out@)),
        decreases rows.len() - i,
    {
        let key = rows[i].0.as_str();
        let ghost stored = keys[i as int];
        proof {
            assert(rows@[i as int].0@ == behind(INDEX_PREFIX@, stored));
            assert(stored.subrange(0, INDEX_PREFIX@.len() as int) =~= INDEX_PREFIX@);
            assert(key1(INDEX_PREFIX@, key@) =~= stored);
        }
        let overlay: Option<FreshnessOverlay> = match overlays.get(key) {
            Some(overlay) => Some(*overlay),
            None => None,
        };
        let summary = CachedIndex::summary(rows[i].1.as_slice(), decoded.get(key));
        let fresh = read_overlay(txn, key, overlay);
        match (summary, fresh) {
            (Some(summary), Some(fresh)) => {
                let ghost before = page_texts(out@);
                let page = CachedIndexPage { key: key.to_owned(), summary: summary.with_overlay(fresh) };
                out.push(page);
                assert(page_texts(out@) =~= before.push((page.key@, page.summary@)));
            },
            _ => {
                proof {
                    summary_error_stays(txn@, decoded@, overlays@, i + 1, keys.len() as int);
                }
                return Err(MetaError::DriverRecordMalformed { key: key.to_owned() });
            },
        }
        i = i + 1;
    }
    Ok(out)
}

/// When a cached page was fetched, and the lifetime it was granted: those of its overlay row where there is
/// one, in which case its record is not looked into. Nothing where what is looked into cannot be read.
pub open spec fn page_freshness(
    s: TxnState,
    key: Seq<char>,
    decoded: Map<Seq<char>, DecodedPage>,
    overlays: Map<Seq<char>, FreshnessOverlay>,
) -> Option<(i64, Option<i64>)> {
    let page = if decoded.contains_key(key) {
        decoded[key]
    } else {
        DecodedPage::Damaged
    };
    let overlay = if overlays.contains_key(key) {
        Some(overlays[key])
    } else {
        None
    };
    match overlay_read(s, key, overlay) {
        None => None,
        Some(Some(overlay)) => Some((overlay.fetched_at_unix, overlay.fresh_secs)),
        Some(None) => match summarized(s.rows[key1(INDEX_PREFIX@, key)], page) {
            Some(summary) => Some((summary.fetched_at_unix, summary.fresh_secs)),
            None => None,
        },
    }
}

/// When the first `n` cached pages were fetched, or the key of the first that cannot be read.
pub open spec fn pages_dated(
    s: TxnState,
    decoded: Map<Seq<char>, DecodedPage>,
    overlays: Map<Seq<char>, FreshnessOverlay>,
    n: int,
) -> Result<Seq<(Seq<char>, i64, Option<i64>)>, Seq<char>>
    decreases n,
{
    if n <= 0 {
        Ok(Seq::empty())
    } else {
        match pages_dated(s, decoded, overlays, n - 1) {
            Err(key) => Err(key),
            Ok(pages) => {
                let key = behind(INDEX_PREFIX@, keys_under(s.rows, INDEX_PREFIX@)[n - 1]);
                match page_freshness(s, key, decoded, overlays) {
                    Some((fetched, fresh)) => Ok(pages.push((key, fetched, fresh))),
                    None => Err(key),
                }
            },
        }
    }
}

proof fn dating_error_stays(
    s: TxnState,
    decoded: Map<Seq<char>, DecodedPage>,
    overlays: Map<Seq<char>, FreshnessOverlay>,
    m: int,
    n: int,
)
    requires
        0 <= m <= n,
        pages_dated(s, decoded, overlays, m) is Err,
    ensures
        pages_dated(s, decoded, overlays, n) == pages_dated(s, decoded, overlays, m),
    decreases n,
{
    if m < n {
        dating_error_stays(s, decoded, overlays, m, n - 1);
    }
}

/// Dated pages as texts.
pub open spec fn dated_texts(pages: Seq<(String, i64, Option<i64>)>) -> Seq<(Seq<char>, i64, Option<i64>)> {
    pages.map_values(|p: (String, i64, Option<i64>)| (p.0@, p.1, p.2))
}

/// Every cached page's key, when it was fetched and the lifetime it was granted, for a refresher to find the
/// stale ones without loading the bodies. `decoded` and `overlays` are what the rows decode to, by page.
pub fn list_index_pages(
    txn: &DriverTxn,
    decoded: &TextMap<DecodedPage>,
    overlays: &TextMap<FreshnessOverlay>,
) -> (r: Result<Vec<(String, i64, Option<i64>)>, MetaError>)
    ensures
        match pages_dated(txn@, decoded@, overlays@, keys_under(txn@.rows, INDEX_PREFIX@).len() as int) {
            Ok(pages) => r matches Ok(found) && dated_texts(found@) == pages,
            Err(key) => r matches Err(e) && e@ == (MetaErrorText::Malformed { key }),
        },
{
    let rows = entries_under(txn, INDEX_PREFIX);
    let ghost keys = keys_under(txn@.rows, INDEX_PREFIX@);
    let mut out: Vec<(String, i64, Option<i64>)> = Vec::new();
    assert(dated_texts(out@) =~= Seq::<(Seq<char>, i64, Option<i64>)>::empty());
    let mut i: usize = 0;
    while i < rows.len()
        invariant
            i <= rows@.len(),
            keys == keys_under(txn@.rows, INDEX_PREFIX@),
            entries_behind(txn@, INDEX_PREFIX@, rows@),
            pages_dated(txn@, decoded@, overlays@, i as int) == Ok::<
                Seq<(Seq<char>, i64, Option<i64>)>,
                Seq<char>,
            >(dated_texts(out@)),
        decreases rows.len() - i,
    {
        let key = rows[i].0.as_str();
        let ghost stored = keys[i as int];
        proof {
            assert(rows@[i as int].0@ == behind(INDEX_PREFIX@, stored));
            assert(stored.subrange(0, INDEX_PREFIX@.len() as int) =~= INDEX_PREFIX@);
            assert(key1(INDEX_PREFIX@, key@) =~= stored);
        }
        let overlay: Option<FreshnessOverlay> = match overlays.get(key) {
            Some(overlay) => Some(*overlay),
            None => None,
        };
        let dated: Option<(i64, Option<i64>)> = match read_overlay(txn, key, overlay) {
            None => None,
            Some(Some(overlay)) => Some((overlay.fetched_at_unix, overlay.fresh_secs)),
            Some(None) => match CachedIndex::summary(rows[i].1.as_slice(), decoded.get(key)) {
                Some(summary) => Some((summary.fetched_at_unix, summary.fresh_secs)),
                None => None,
            },
        };
        match dated {
            Some((fetched, fresh)) => {
                let ghost before = dated_texts(out@);
                let page = (key.to_owned(), fetched, fresh);
                out.push(page);
                assert(dated_texts(out@) =~= before.push((page.0@, fetched, fresh)));
            },
            None => {
                proof {
                    dating_error_stays(txn@, decoded@, overlays@, i + 1, keys.len() as int);
                }
                return Err(MetaError::DriverRecordMalformed { key: key.to_owned() });
            },
        }
        i = i + 1;
    }
    Ok(out)
}

/// The overrides that the first `n` rows under a prefix hold, or why they cannot be read. `decoded` is what
/// each row decodes to.
pub open spec fn overrides_read(
    s: TxnState,
    prefix: Seq<char>,
    decoded: Map<Seq<char>, DecodedOverride>,
    n: int,
) -> Result<Map<Seq<char>, OverrideText>, MetaErrorText>
    decreases n,
{
    if n <= 0 {
        Ok(Map::empty())
    } else {
        match overrides_read(s, prefix, decoded, n - 1) {
            Err(error) => Err(error),
            Ok(map) => {
                let key = keys_under(s.rows, prefix)[n - 1];
                if !valid_utf8(s.rows[key]) {
                    Err(MetaErrorText::Utf8 { key })
                } else {
                    match decoded_at(decoded, key).read(key) {
                        Err(error) => Err(error),
                        Ok(record) => Ok(map.insert(behind(prefix, key), record)),
                    }
                }
            },
        }
    }
}

proof fn override_error_stays(s: TxnState, prefix: Seq<char>, decoded: Map<Seq<char>, DecodedOverride>, m: int, n: int)
    requires
        0 <= m <= n,
        overrides_read(s, prefix, decoded, m) is Err,
    ensures
        overrides_read(s, prefix, decoded, n) == overrides_read(s, prefix, decoded, m),
    decreases n,
{
    if m < n {
        override_error_stays(s, prefix, decoded, m, n - 1);
    }
}

/// Overrides as texts.
pub open spec fn override_texts(map: Map<Seq<char>, FileOverride>) -> Map<Seq<char>, OverrideText> {
    map.map_values(|o: FileOverride| o@)
}

/// Every override an operator recorded over one project's files, by filename. A damaged row fails the read
/// rather than drop out of the map: an override is a withdrawal, and a page that silently omits one serves a
/// file that was deleted or yanked. `decoded` is what each row decodes to, by its key.
pub fn list_overrides(txn: &DriverTxn, index: &str, normalized: &str, decoded: &TextMap<DecodedOverride>) -> (r: Result<
    TextMap<FileOverride>,
    MetaError,
>)
    ensures
        ({
            let prefix = key3(OVERRIDE_PREFIX@, index@, normalized@, Seq::empty());
            match overrides_read(txn@, prefix, decoded@, keys_under(txn@.rows, prefix).len() as int) {
                Ok(map) => r matches Ok(found) && override_texts(found@) == map,
                Err(error) => r matches Err(e) && e@ == error,
            }
        }),
{
    let mut prefix = OVERRIDE_PREFIX.to_owned();
    prefix.append(index);
    prefix.append("/");
    prefix.append(normalized);
    prefix.append("/");
    assert(prefix@ =~= key3(OVERRIDE_PREFIX@, index@, normalized@, Seq::empty()));
    let rows = txn.prefix(prefix.as_str());
    let ghost keys = keys_under(txn@.rows, prefix@);
    let ghost known = decoded@;
    assert(rows@.len() == keys.len()) by {
        assert(crate::store::txn::entry_keys(rows@).len() == rows@.len());
    }
    let mut out: TextMap<FileOverride> = TextMap::new();
    assert(override_texts(out@) =~= Map::<Seq<char>, OverrideText>::empty());
    let mut i: usize = 0;
    while i < rows.len()
        invariant
            i <= rows@.len(),
            rows_under(txn@.rows, prefix@, rows@),
            keys == keys_under(txn@.rows, prefix@),
            rows@.len() == keys.len(),
            known == decoded@,
            prefix@ == key3(OVERRIDE_PREFIX@, index@, normalized@, Seq::empty()),
            overrides_read(txn@, prefix@, known, i as int) == Ok::<Map<Seq<char>, OverrideText>, MetaErrorText>(
                override_texts(out@),
            ),
        decreases rows.len() - i,
    {
        assert(crate::store::txn::entry_keys(rows@)[i as int] == rows@[i as int].0@);
        let key = rows[i].0.as_str();
        match record_str(key, bytes_clone(rows[i].1.as_slice())) {
            Err(error) => {
                proof {
                    assert(overrides_read(txn@, prefix@, known, i + 1) == Err::<
                        Map<Seq<char>, OverrideText>,
                        MetaErrorText,
                    >(error@));
                    override_error_stays(txn@, prefix@, known, i + 1, keys.len() as int);
                }
                return Err(error);
            },
            Ok(_) => {},
        }
        match read_override(key, decoded.get(key)) {
            Err(error) => {
                proof {
                    assert(overrides_read(txn@, prefix@, known, i + 1) == Err::<
                        Map<Seq<char>, OverrideText>,
                        MetaErrorText,
                    >(error@));
                    override_error_stays(txn@, prefix@, known, i + 1, keys.len() as int);
                }
                return Err(error);
            },
            Ok(record) => {
                let ghost before = override_texts(out@);
                let name = key_behind(prefix.as_str(), key);
                let ghost at = name@;
                out.insert(name, record);
                assert(override_texts(out@) =~= before.insert(at, record@));
            },
        }
        i = i + 1;
    }
    Ok(out)
}

/// The texts of the first `n` rows under a prefix, by what follows the prefix in their keys, and the keys of
/// those that are not text.
pub open spec fn readable(s: TxnState, prefix: Seq<char>, n: int) -> (Seq<(Seq<char>, Seq<char>)>, Seq<Seq<char>>)
    decreases n,
{
    if n <= 0 {
        (Seq::empty(), Seq::empty())
    } else {
        let (read, skipped) = readable(s, prefix, n - 1);
        let key = keys_under(s.rows, prefix)[n - 1];
        if valid_utf8(s.rows[key]) {
            (read.push((behind(prefix, key), decode_utf8(s.rows[key]))), skipped)
        } else {
            (read, skipped.push(behind(prefix, key)))
        }
    }
}

/// What a repair scan found.
pub struct RepairScan {
    /// The records that are text.
    pub records: Vec<(String, String)>,
    /// The keys of those that are not.
    pub skipped: Vec<String>,
}

/// Read every record of a namespace, collecting the rows that do not decode rather than stop at the first.
/// This is the scan a repair wants and no other caller should: the result names every skipped row, so a
/// report built from it cannot claim that the namespace is clean.
pub fn scan_records_for_repair(txn: &DriverTxn, namespace: PypiRecords) -> (r: RepairScan)
    ensures
        ({
            let prefix = namespace.prefix_text();
            let found = readable(txn@, prefix, keys_under(txn@.rows, prefix).len() as int);
            &&& crate::serving::inspect::pair_texts(r.records@) == found.0
            &&& texts(r.skipped@) == found.1
        }),
{
    let prefix = namespace.prefix();
    let rows = txn.prefix(prefix);
    let ghost keys = keys_under(txn@.rows, prefix@);
    assert(rows@.len() == keys.len()) by {
        assert(crate::store::txn::entry_keys(rows@).len() == rows@.len());
    }
    let mut records: Vec<(String, String)> = Vec::new();
    let mut skipped: Vec<String> = Vec::new();
    assert(crate::serving::inspect::pair_texts(records@) =~= Seq::<(Seq<char>, Seq<char>)>::empty());
    assert(texts(skipped@) =~= Seq::<Seq<char>>::empty());
    let mut i: usize = 0;
    while i < rows.len()
        invariant
            i <= rows@.len(),
            rows_under(txn@.rows, prefix@, rows@),
            keys == keys_under(txn@.rows, prefix@),
            rows@.len() == keys.len(),
            crate::serving::inspect::pair_texts(records@) == readable(txn@, prefix@, i as int).0,
            texts(skipped@) == readable(txn@, prefix@, i as int).1,
        decreases rows.len() - i,
    {
        assert(crate::store::txn::entry_keys(rows@)[i as int] == rows@[i as int].0@);
        let name = key_behind(prefix, rows[i].0.as_str());
        match utf8_text(bytes_clone(rows[i].1.as_slice())) {
            Some(text) => {
                let ghost before = crate::serving::inspect::pair_texts(records@);
                let ghost pair = (name@, text@);
                records.push((name, text));
                assert(crate::serving::inspect::pair_texts(records@) =~= before.push(pair));
            },
            None => {
                let ghost before = texts(skipped@);
                let ghost at = name@;
                skipped.push(name);
                assert(texts(skipped@) =~= before.push(at));
            },
        }
        i = i + 1;
    }
    RepairScan { records, skipped }
}

/// A repair scan passes over no row: each is either read or named among the skipped.
pub proof fn repair_scans_cover_every_row(s: TxnState, prefix: Seq<char>, n: int)
    requires
        0 <= n,
    ensures
        readable(s, prefix, n).0.len() + readable(s, prefix, n).1.len() == n,
    decreases n,
{
    if n > 0 {
        repair_scans_cover_every_row(s, prefix, n - 1);
    }
}

/// The texts of the first `n` rows under a prefix, by what follows the prefix in their keys, or the key of the
/// first that is not text.
pub open spec fn texts_read(s: TxnState, prefix: Seq<char>, n: int) -> Result<Seq<(Seq<char>, Seq<char>)>, Seq<char>>
    decreases n,
{
    if n <= 0 {
        Ok(Seq::empty())
    } else {
        match texts_read(s, prefix, n - 1) {
            Err(key) => Err(key),
            Ok(read) => {
                let key = keys_under(s.rows, prefix)[n - 1];
                if valid_utf8(s.rows[key]) {
                    Ok(read.push((behind(prefix, key), decode_utf8(s.rows[key]))))
                } else {
                    Err(key)
                }
            },
        }
    }
}

proof fn text_error_stays(s: TxnState, prefix: Seq<char>, m: int, n: int)
    requires
        0 <= m <= n,
        texts_read(s, prefix, m) is Err,
    ensures
        texts_read(s, prefix, n) == texts_read(s, prefix, m),
    decreases n,
{
    if m < n {
        text_error_stays(s, prefix, m, n - 1);
    }
}

/// Every record of a namespace, by what follows the namespace in its key, stopping at the first that is not
/// text.
pub fn scan_utf8_records(txn: &DriverTxn, namespace: PypiRecords) -> (r: Result<Vec<(String, String)>, MetaError>)
    ensures
        ({
            let prefix = namespace.prefix_text();
            match texts_read(txn@, prefix, keys_under(txn@.rows, prefix).len() as int) {
                Ok(read) => r matches Ok(records) && crate::serving::inspect::pair_texts(records@) == read,
                Err(key) => r matches Err(e) && e@ == (MetaErrorText::Utf8 { key }),
            }
        }),
{
    let prefix = namespace.prefix();
    let rows = txn.prefix(prefix);
    let ghost keys = keys_under(txn@.rows, prefix@);
    assert(rows@.len() == keys.len()) by {
        assert(crate::store::txn::entry_keys(rows@).len() == rows@.len());
    }
    let mut records: Vec<(String, String)> = Vec::new();
    assert(crate::serving::inspect::pair_texts(records@) =~= Seq::<(Seq<char>, Seq<char>)>::empty());
    let mut i: usize = 0;
    while i < rows.len()
        invariant
            i <= rows@.len(),
            rows_under(txn@.rows, prefix@, rows@),
            keys == keys_under(txn@.rows, prefix@),
            rows@.len() == keys.len(),
            prefix@ == namespace.prefix_text(),
            texts_read(txn@, prefix@, i as int) == Ok::<Seq<(Seq<char>, Seq<char>)>, Seq<char>>(
                crate::serving::inspect::pair_texts(records@),
            ),
        decreases rows.len() - i,
    {
        assert(crate::store::txn::entry_keys(rows@)[i as int] == rows@[i as int].0@);
        let key = rows[i].0.as_str();
        match record_str(key, bytes_clone(rows[i].1.as_slice())) {
            Ok(text) => {
                let name = key_behind(prefix, key);
                let ghost before = crate::serving::inspect::pair_texts(records@);
                let ghost pair = (name@, text@);
                records.push((name, text));
                assert(crate::serving::inspect::pair_texts(records@) =~= before.push(pair));
            },
            Err(error) => {
                proof {
                    text_error_stays(txn@, prefix@, i + 1, keys.len() as int);
                }
                return Err(error);
            },
        }
        i = i + 1;
    }
    Ok(records)
}

// ---------------------------------------------------------------------------------------------
// Index summaries
// ---------------------------------------------------------------------------------------------

/// The counts of an index, and its newest writes.
#[derive(Debug)]
pub struct IndexSummary {
    pub resource_count: u64,
    pub write_count: u64,
    pub recent_writes: Vec<RecentWrite>,
}

/// A summary, its text seen as characters.
pub struct SummaryText {
    pub resource_count: u64,
    pub write_count: u64,
    pub recent_writes: Seq<RecentText>,
}

/// Writes, seen as text.
pub open spec fn write_texts(list: Seq<RecentWrite>) -> Seq<RecentText> {
    list.map_values(|w: RecentWrite| w@)
}

impl IndexSummary {
    pub open spec fn view(self) -> SummaryText {
        SummaryText {
            resource_count: self.resource_count,
            write_count: self.write_count,
            recent_writes: write_texts(self.recent_writes@),
        }
    }
}

/// The writes that the first `n` order rows hold, or the key of the first that cannot be read. `decoded` is
/// what the rows decode to, by key.
pub open spec fn writes_read(keys: Seq<Seq<char>>, decoded: Map<Seq<char>, RecentWrite>, n: int) -> Result<
    Seq<RecentText>,
    Seq<char>,
>
    decreases n,
{
    if n <= 0 {
        Ok(Seq::empty())
    } else {
        match writes_read(keys, decoded, n - 1) {
            Err(key) => Err(key),
            Ok(list) => if decoded.contains_key(keys[n - 1]) {
                Ok(list.push(decoded[keys[n - 1]]@))
            } else {
                Err(keys[n - 1])
            },
        }
    }
}

proof fn write_error_stays(keys: Seq<Seq<char>>, decoded: Map<Seq<char>, RecentWrite>, m: int, n: int)
    requires
        0 <= m <= n,
        writes_read(keys, decoded, m) is Err,
    ensures
        writes_read(keys, decoded, n) == writes_read(keys, decoded, m),
    decreases n,
{
    if m < n {
        write_error_stays(keys, decoded, m, n - 1);
    }
}

/// The summary of an index, read from its count row and the first `limit` of its order rows, or the first
/// error of these. The order rows' keys sort the newest write first.
pub open spec fn summary_read(
    s: TxnState,
    index: Seq<char>,
    limit: nat,
    decoded: Map<Seq<char>, RecentWrite>,
) -> Result<SummaryText, MetaErrorText> {
    let key = key1(COUNT_PREFIX@, index);
    let keys = keys_under(s.rows, order_range(index));
    match counts_read(key, s.row(key)) {
        Err(error) => Err(error),
        Ok(counts) => match writes_read(
            keys,
            decoded,
            if limit < keys.len() {
                limit as int
            } else {
                keys.len() as int
            },
        ) {
            Err(key) => Err(MetaErrorText::Malformed { key }),
            Ok(writes) => Ok(
                SummaryText { resource_count: counts.projects, write_count: counts.uploads, recent_writes: writes },
            ),
        },
    }
}

/// The counts of an index and its newest writes, at most `recent_limit` of them.
pub fn summarize_index(
    txn: &DriverTxn,
    index: &str,
    recent_limit: usize,
    decoded: &TextMap<RecentWrite>,
) -> (r: Result<IndexSummary, MetaError>)
    ensures
        match summary_read(txn@, index@, recent_limit as nat, decoded@) {
            Err(error) => r matches Err(e) && e@ == error,
            Ok(summary) => r matches Ok(found) && found@ == summary,
        },
{
    let key = count_key(index);
    let raw = txn.get(key.as_str());
    let counts = match Counts::decode(key.as_str(), opt_as_slice(&raw)) {
        Ok(counts) => counts,
        Err(error) => {
            return Err(error);
        },
    };
    let prefix = order_prefix(index);
    let rows = txn.prefix(prefix.as_str());
    let ghost keys = keys_under(txn@.rows, prefix@);
    assert(rows@.len() == keys.len()) by {
        assert(crate::store::txn::entry_keys(rows@).len() == rows@.len());
    }
    let ghost most = if recent_limit < keys.len() {
        recent_limit as int
    } else {
        keys.len() as int
    };
    let mut recent: Vec<RecentWrite> = Vec::new();
    assert(write_texts(recent@) =~= Seq::<RecentText>::empty());
    let mut i: usize = 0;
    while i < rows.len() && i < recent_limit
        invariant
            i <= rows@.len(),
            i <= recent_limit,
            rows_under(txn@.rows, prefix@, rows@),
            prefix@ == order_range(index@),
            key@ == key1(COUNT_PREFIX@, index@),
            counts_read(key@, txn@.row(key@)) == Ok::<Counts, MetaErrorText>(counts),
            keys == keys_under(txn@.rows, prefix@),
            rows@.len() == keys.len(),
            most == (if recent_limit < keys.len() {
                recent_limit as int
            } else {
                keys.len() as int
            }),
            writes_read(keys, decoded@, i as int) == Ok::<Seq<RecentText>, Seq<char>>(write_texts(recent@)),
        decreases rows.len() - i,
    {
        assert(crate::store::txn::entry_keys(rows@)[i as int] == rows@[i as int].0@);
        let order = rows[i].0.as_str();
        match decoded.get(order) {
            Some(write) => {
                let ghost before = write_texts(recent@);
                let copy = write.copied();
                recent.push(copy);
                assert(write_texts(recent@) =~= before.push(write@));
            },
            None => {
                proof {
                    write_error_stays(keys, decoded@, i + 1, most);
                }
                return Err(MetaError::DriverRecordMalformed { key: order.to_owned() });
            },
        }
        i = i + 1;
    }
    Ok(IndexSummary { resource_count: counts.projects, write_count: counts.uploads, recent_writes: recent })
}

/// The summaries of the first `n` named indexes, or the first error of these.
pub open spec fn summaries_read(
    s: TxnState,
    names: Seq<Seq<char>>,
    limit: nat,
    decoded: Map<Seq<char>, RecentWrite>,
    n: int,
) -> Result<Map<Seq<char>, SummaryText>, MetaErrorText>
    decreases n,
{
    if n <= 0 {
        Ok(Map::empty())
    } else {
        match summaries_read(s, names, limit, decoded, n - 1) {
            Err(error) => Err(error),
            Ok(map) => match summary_read(s, names[n - 1], limit, decoded) {
                Err(error) => Err(error),
                Ok(summary) => Ok(map.insert(names[n - 1], summary)),
            },
        }
    }
}

proof fn summaries_error_stays(
    s: TxnState,
    names: Seq<Seq<char>>,
    limit: nat,
    decoded: Map<Seq<char>, RecentWrite>,
    m: int,
    n: int,
)
    requires
        0 <= m <= n,
        summaries_read(s, names, limit, decoded, m) is Err,
    ensures
        summaries_read(s, names, limit, decoded, n) == summaries_read(s, names, limit, decoded, m),
    decreases n,
{
    if m < n {
        summaries_error_stays(s, names, limit, decoded, m, n - 1);
    }
}

/// Summaries as texts.
pub open spec fn summary_texts(map: Map<Seq<char>, IndexSummary>) -> Map<Seq<char>, SummaryText> {
    map.map_values(|s: IndexSummary| s@)
}

/// The counts and newest writes of each named index, read from the maintained rows.
pub fn summarize_indexes(
    txn: &DriverTxn,
    index_names: &Vec<String>,
    recent_limit: usize,
    decoded: &TextMap<RecentWrite>,
) -> (r: Result<TextMap<IndexSummary>, MetaError>)
    ensures
        match summaries_read(
            txn@,
            texts(index_names@),
            recent_limit as nat,
            decoded@,
            index_names@.len() as int,
        ) {
            Err(error) => r matches Err(e) && e@ == error,
            Ok(map) => r matches Ok(found) && summary_texts(found@) == map,
        },
{
    let ghost names = texts(index_names@);
    let mut out: TextMap<IndexSummary> = TextMap::new();
    assert(summary_texts(out@) =~= Map::<Seq<char>, SummaryText>::empty());
    let mut i: usize = 0;
    while i < index_names.len()
        invariant
            i <= index_names@.len(),
            names == texts(index_names@),
            names.len() == index_names@.len(),
            summaries_read(txn@, names, recent_limit as nat, decoded@, i as int) == Ok::<
                Map<Seq<char>, SummaryText>,
                MetaErrorText,
            >(summary_texts(out@)),
        decreases index_names.len() - i,
    {
        let name = index_names[i].as_str();
        assert(names[i as int] == name@);
        match summarize_index(txn, name, recent_limit, decoded) {
            Ok(summary) => {
                let ghost before = summary_texts(out@);
                let ghost text = summary@;
                out.insert(name.to_owned(), summary);
                assert(summary_texts(out@) =~= before.insert(name@, text));
            },
            Err(error) => {
                proof {
                    summaries_error_stays(
                        txn@,
                        names,
                        recent_limit as nat,
                        decoded@,
                        i + 1,
                        index_names@.len() as int,
                    );
                }
                return Err(error);
            },
        }
        i = i + 1;
    }
    Ok(out)
}

} // verus!
