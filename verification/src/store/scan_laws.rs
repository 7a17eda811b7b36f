//! What reads promise: that a scan passes over no row, that a newer freshness stands over an older one, and that a
//! catalog, the journal and the files are read as they were written.
use vstd::prelude::*;
use vstd::utf8::{decode_utf8, encode_utf8, valid_utf8};

use crate::collections::{ascending, listed};
use crate::serving::project_view::ArtifactSource;
use crate::store::catalog::{is_catalog_aborted, is_catalog_published, is_catalog_refreshed, json_catalog};
use crate::store::files::{digests_read, is_origin_source, publication_at, text_at, PypiArtifactOrigin};
use crate::store::journal::{
    changelog_action, changelog_entry, cursor_behind, is_changelog, is_decoded, is_decoded_raw, is_snapshot, stamped,
    taken, DamagedRecord, DecodedRecord, JournalEntry, JournalRecord, JournalSnapshot,
};
use crate::store::keys::{
    key1, key2, key_metadata_artifact, CATALOG_PREFIX, FRESHNESS_PREFIX, INDEX_PREFIX, METADATA_PREFIX, PROJECTS_PREFIX, PROJECT_STATUS_PREFIX,
};
use crate::store::overrides::{decoded_at, DecodedOverride, OverrideText};
use crate::store::projects::{
    are_catalog_projects, are_projects, display_names, displays, displays_under, generation_of, generation_prefix, is_batch_spelled,
    is_cache_deleted, observed_prefix, project_displays, rows_of_digests, sources_prefix, CatalogGeneration,
    CatalogState, ProjectCachePurgeCounts,
};
use crate::store::reads::{
    behind, entries_behind, is_display_name, overlay_read, overrides_read, page_at, page_freshness, page_summary, pages_dated,
    pages_summarized, readable, summaries_read, summary_read, texts_read, writes_read, SummaryText,
};
use crate::store::record::{page_decoded, CachedText, DecodedPage, FreshnessOverlay};
use crate::store::summary::RecentWrite;
use crate::store::txn::{entry_keys, finite_sets_are_listed, keys_under, rows_are_under, rows_under, TxnState};
use crate::store::values::{ClaimText, MetaError, MetaErrorText};
use crate::text::{cut_prefix, cut_prefix_of_joined, in_order, opt_text, texts};

verus! {

// ---------------------------------------------------------------------------------------------
// Scans
// ---------------------------------------------------------------------------------------------

/// A scan reads every row in its order, and fails where one is not text.
pub proof fn scans_read_every_row(s: TxnState, prefix: Seq<char>, n: int, i: int)
    requires
        0 <= i < n <= keys_under(s.rows, prefix).len(),
    ensures
        texts_read(s, prefix, n) is Ok <==> forall|j: int|
            0 <= j < n ==> valid_utf8(s.rows[#[trigger] keys_under(s.rows, prefix)[j]]),
        texts_read(s, prefix, n) matches Ok(read) ==> read.len() == n && read[i] == (
            behind(prefix, keys_under(s.rows, prefix)[i]),
            decode_utf8(s.rows[keys_under(s.rows, prefix)[i]]),
        ),
    decreases n,
{
    reveal_with_fuel(texts_read, 2);
    let keys = keys_under(s.rows, prefix);
    assert(keys[n - 1] == keys[n - 1]);
    if n > 1 {
        scans_read_every_row(s, prefix, n - 1, if i < n - 1 {
            i
        } else {
            0
        });
    }
}

/// A repair's scan reads every row that is text, and names every other.
pub proof fn repair_scans_name_what_they_skip(s: TxnState, prefix: Seq<char>, n: int, i: int)
    requires
        0 <= i < n <= keys_under(s.rows, prefix).len(),
    ensures
        ({
            let key = keys_under(s.rows, prefix)[i];
            if valid_utf8(s.rows[key]) {
                readable(s, prefix, n).0.contains((behind(prefix, key), decode_utf8(s.rows[key])))
            } else {
                readable(s, prefix, n).1.contains(behind(prefix, key))
            }
        }),
    decreases n,
{
    let key = keys_under(s.rows, prefix)[i];
    let (read, skipped) = readable(s, prefix, n - 1);
    let (all, named) = readable(s, prefix, n);
    if i < n - 1 {
        repair_scans_name_what_they_skip(s, prefix, n - 1, i);
        if valid_utf8(s.rows[key]) {
            let k = choose|k: int| 0 <= k < read.len() && read[k] == (behind(prefix, key), decode_utf8(s.rows[key]));
            assert(all[k] == read[k]);
        } else {
            let k = choose|k: int| 0 <= k < skipped.len() && skipped[k] == behind(prefix, key);
            assert(named[k] == skipped[k]);
        }
    } else if valid_utf8(s.rows[key]) {
        assert(all[read.len() as int] == (behind(prefix, key), decode_utf8(s.rows[key])));
    } else {
        assert(named[skipped.len() as int] == behind(prefix, key));
    }
}

/// Reading overrides leaves none out: where it succeeds, every row decoded and stands in the result.
pub proof fn no_override_is_left_out(
    s: TxnState,
    prefix: Seq<char>,
    decoded: Map<Seq<char>, DecodedOverride>,
    n: int,
    i: int,
)
    requires
        0 <= i < n <= keys_under(s.rows, prefix).len(),
    ensures
        ({
            let key = keys_under(s.rows, prefix)[i];
            overrides_read(s, prefix, decoded, n) matches Ok(map) ==> valid_utf8(s.rows[key]) && decoded_at(
                decoded,
                key,
            ).read(key) is Ok && map.contains_key(behind(prefix, key))
        }),
        ({
            let key = keys_under(s.rows, prefix)[n - 1];
            overrides_read(s, prefix, decoded, n) matches Ok(map) ==> Ok::<OverrideText, MetaErrorText>(
                map[behind(prefix, key)],
            ) == decoded_at(decoded, key).read(key)
        }),
    decreases n,
{
    if i < n - 1 {
        no_override_is_left_out(s, prefix, decoded, n - 1, i);
    }
}

/// A damaged or missing decoding of a row that is there fails the read.
pub proof fn damaged_overrides_fail_the_read(
    s: TxnState,
    prefix: Seq<char>,
    decoded: Map<Seq<char>, DecodedOverride>,
    n: int,
    i: int,
)
    requires
        0 <= i < n <= keys_under(s.rows, prefix).len(),
        !valid_utf8(s.rows[keys_under(s.rows, prefix)[i]]) || decoded_at(decoded, keys_under(s.rows, prefix)[i]).read(
            keys_under(s.rows, prefix)[i],
        ) is Err,
    ensures
        overrides_read(s, prefix, decoded, n) is Err,
{
    no_override_is_left_out(s, prefix, decoded, n, i);
}

/// The freshness of a revalidation stands over the page's own, and a row that cannot be read is no answer.
pub proof fn newer_freshness_stands(
    s: TxnState,
    key: Seq<char>,
    decoded: Map<Seq<char>, DecodedPage>,
    overlays: Map<Seq<char>, FreshnessOverlay>,
)
    ensures
        s.row(key1(FRESHNESS_PREFIX@, key)) is Some && overlays.contains_key(key) ==> page_freshness(
            s,
            key,
            decoded,
            overlays,
        ) == Some((overlays[key].fetched_at_unix, overlays[key].fresh_secs)),
        s.row(key1(FRESHNESS_PREFIX@, key)) is Some && !overlays.contains_key(key) ==> page_freshness(
            s,
            key,
            decoded,
            overlays,
        ) is None && page_summary(s, key, decoded, overlays) is None,
        (page_summary(s, key, decoded, overlays) matches Some(summary) && page_freshness(s, key, decoded, overlays) == Some(
            (summary.fetched_at_unix, summary.fresh_secs),
        )) || page_summary(s, key, decoded, overlays) is None,
        overlay_read(s, key, None) is None <==> s.row(key1(FRESHNESS_PREFIX@, key)) is Some,
{
}

/// A page is read where its row and its overlay are, with its body as it was stored; where there is no row there is no
/// page.
pub proof fn pages_are_read_with_their_overlay(
    s: TxnState,
    key: Seq<char>,
    decoded: DecodedPage,
    overlay: Option<FreshnessOverlay>,
)
    ensures
        s.row(key1(INDEX_PREFIX@, key)) is None ==> page_at(s, key, decoded, overlay) == Some(None::<CachedText>),
        s.row(key1(INDEX_PREFIX@, key)) matches Some(raw) ==> (page_decoded(raw, decoded) is None ==> page_at(
            s,
            key,
            decoded,
            overlay,
        ) is None),
        s.row(key1(INDEX_PREFIX@, key)) matches Some(raw) ==> (page_decoded(raw, decoded) matches Some(page) ==> (s.row(
            key1(FRESHNESS_PREFIX@, key),
        ) is None ==> (page_at(s, key, decoded, overlay) matches Some(Some(found)) && found.body == page.body
            && found.fetched_at_unix == page.fetched_at_unix && found.fresh_secs == page.fresh_secs && found.etag
            == page.etag))),
        s.row(key1(INDEX_PREFIX@, key)) matches Some(raw) ==> (page_decoded(raw, decoded) matches Some(page) ==> (overlay
            matches Some(fresh) ==> (s.row(key1(FRESHNESS_PREFIX@, key)) is Some ==> (page_at(s, key, decoded, overlay)
            matches Some(Some(found)) && found.body == page.body && found.etag == page.etag && found.fetched_at_unix
            == fresh.fetched_at_unix && found.fresh_secs == fresh.fresh_secs)))),
{
}

/// Every cached page is summarized and dated, in the order of the keys, or the scan fails.
pub proof fn every_page_is_listed(
    s: TxnState,
    decoded: Map<Seq<char>, DecodedPage>,
    overlays: Map<Seq<char>, FreshnessOverlay>,
    n: int,
    i: int,
)
    requires
        0 <= i < n <= keys_under(s.rows, INDEX_PREFIX@).len(),
    ensures
        ({
            let key = behind(INDEX_PREFIX@, keys_under(s.rows, INDEX_PREFIX@)[i]);
            &&& pages_summarized(s, decoded, overlays, n) matches Ok(pages) ==> pages.len() == n && pages[i].0 == key && Some(
                pages[i].1,
            ) == page_summary(s, key, decoded, overlays)
            &&& pages_dated(s, decoded, overlays, n) matches Ok(pages) ==> pages.len() == n && pages[i].0 == key && Some(
                (pages[i].1, pages[i].2),
            ) == page_freshness(s, key, decoded, overlays)
            &&& page_summary(s, key, decoded, overlays) is None ==> pages_summarized(s, decoded, overlays, n) is Err
            &&& page_freshness(s, key, decoded, overlays) is None ==> pages_dated(s, decoded, overlays, n) is Err
        }),
    decreases n,
{
    reveal_with_fuel(pages_summarized, 2);
    reveal_with_fuel(pages_dated, 2);
    if n > 1 {
        every_page_is_listed(s, decoded, overlays, n - 1, if i < n - 1 {
            i
        } else {
            0
        });
    }
}

/// The newest writes are read in their order, as many as are asked for and there are.
pub proof fn newest_writes_are_read(keys: Seq<Seq<char>>, decoded: Map<Seq<char>, RecentWrite>, n: int, i: int)
    requires
        0 <= i < n <= keys.len(),
    ensures
        writes_read(keys, decoded, n) matches Ok(list) ==> list.len() == n && decoded.contains_key(keys[i]) && list[i]
            == decoded[keys[i]]@,
        !decoded.contains_key(keys[i]) ==> writes_read(keys, decoded, n) is Err,
    decreases n,
{
    reveal_with_fuel(writes_read, 2);
    if n > 1 {
        newest_writes_are_read(keys, decoded, n - 1, if i < n - 1 {
            i
        } else {
            0
        });
    }
}

/// A summary has no more writes than were asked for.
pub proof fn summaries_are_bounded(s: TxnState, index: Seq<char>, limit: nat, decoded: Map<Seq<char>, RecentWrite>)
    ensures
        summary_read(s, index, limit, decoded) matches Ok(summary) ==> summary.recent_writes.len() <= limit,
{
    let keys = keys_under(s.rows, crate::store::summary::order_range(index));
    let n = if limit < keys.len() {
        limit as int
    } else {
        keys.len() as int
    };
    if n > 0 {
        newest_writes_are_read(keys, decoded, n, 0);
    }
}

/// Every index that is named is summarized, each as it would be alone.
pub proof fn every_named_index_is_summarized(
    s: TxnState,
    names: Seq<Seq<char>>,
    limit: nat,
    decoded: Map<Seq<char>, RecentWrite>,
    n: int,
    i: int,
)
    requires
        0 <= i < n <= names.len(),
    ensures
        summaries_read(s, names, limit, decoded, n) matches Ok(map) ==> map.contains_key(names[i]) && Ok::<
            SummaryText,
            MetaErrorText,
        >(map[names[i]]) == summary_read(s, names[i], limit, decoded),
        summary_read(s, names[i], limit, decoded) is Err ==> summaries_read(s, names, limit, decoded, n) is Err,
    decreases n,
{
    if i < n - 1 {
        every_named_index_is_summarized(s, names, limit, decoded, n - 1, i);
    }
}

/// A project has the display name that its row spells.
pub proof fn projects_have_the_name_of_their_row(
    s: TxnState,
    index: Seq<char>,
    normalized: Seq<char>,
    r: Option<String>,
    display: Seq<char>,
)
    requires
        is_display_name(s, index, normalized, r),
    ensures
        s.row(key2(PROJECTS_PREFIX@, index, normalized)) is None ==> r is None,
        s.row(key2(PROJECTS_PREFIX@, index, normalized)) == Some(encode_utf8(display)) ==> opt_text(r) == Some(display),
{
    vstd::utf8::encode_utf8_valid_utf8(display);
    vstd::utf8::encode_utf8_decode_utf8(display);
}

// ---------------------------------------------------------------------------------------------
// Files
// ---------------------------------------------------------------------------------------------

/// An upload's bytes are hosted and a mirrored file's are a proxy's.
pub proof fn origins_are_told_apart(origin: PypiArtifactOrigin, r: ArtifactSource)
    requires
        is_origin_source(origin, r),
    ensures
        r is Hosted <==> origin is Upload,
        r is Proxy <==> origin is Cached,
{
}

/// The digests of several artifacts are those that each has alone; one without any is left out.
pub proof fn digests_are_read_one_by_one(s: TxnState, artifacts: Seq<String>, n: int, i: int)
    requires
        0 <= i < n <= artifacts.len(),
    ensures
        ({
            let alone = text_at(s, key1(METADATA_PREFIX@, artifacts[i]@));
            &&& alone is Err ==> digests_read(s, artifacts, n) is Err
            &&& digests_read(s, artifacts, n) matches Ok(map) ==> {
                &&& alone matches Ok(Some(digest)) ==> map.contains_key(artifacts[i]@) && map[artifacts[i]@] == digest
                &&& (alone matches Ok(None)) ==> !map.contains_key(artifacts[i]@)
            }
        }),
        (forall|j: int| 0 <= j < n ==> text_at(s, key1(METADATA_PREFIX@, (#[trigger] artifacts[j])@)) is Ok) ==> digests_read(
            s,
            artifacts,
            n,
        ) is Ok,
    decreases n,
{
    digests_so_far(s, artifacts, n, artifacts[i]@);
    errors_fail_the_read(s, artifacts, n);
}

proof fn digests_so_far(s: TxnState, artifacts: Seq<String>, n: int, artifact: Seq<char>)
    requires
        0 <= n <= artifacts.len(),
    ensures
        ({
            let alone = text_at(s, key1(METADATA_PREFIX@, artifact));
            let among = exists|j: int| 0 <= j < n && (#[trigger] artifacts[j])@ == artifact;
            digests_read(s, artifacts, n) matches Ok(map) ==> {
                &&& among && (alone matches Ok(Some(_))) ==> map.contains_key(artifact) && Ok::<
                    Option<Seq<char>>,
                    MetaErrorText,
                >(Some(map[artifact])) == alone
                &&& map.contains_key(artifact) ==> among && (alone matches Ok(Some(_)))
            }
        }),
    decreases n,
{
    if n > 0 {
        digests_so_far(s, artifacts, n - 1, artifact);
    }
}

proof fn errors_fail_the_read(s: TxnState, artifacts: Seq<String>, n: int)
    requires
        0 <= n <= artifacts.len(),
    ensures
        digests_read(s, artifacts, n) is Ok <==> forall|j: int|
            0 <= j < n ==> text_at(s, key1(METADATA_PREFIX@, (#[trigger] artifacts[j])@)) is Ok,
    decreases n,
{
    if n > 0 {
        errors_fail_the_read(s, artifacts, n - 1);
    }
}

/// A text row is read back as it was written, one that is not text is damage, and none is none.
pub proof fn text_rows_read_back(s: TxnState, key: Seq<char>, text: Seq<char>)
    ensures
        s.row(key) == Some(encode_utf8(text)) ==> text_at(s, key) == Ok::<Option<Seq<char>>, MetaErrorText>(Some(text)),
        s.row(key) is None ==> text_at(s, key) == Ok::<Option<Seq<char>>, MetaErrorText>(None),
        s.row(key) matches Some(raw) ==> (!valid_utf8(raw) ==> text_at(s, key) is Err && publication_at(s, key) is Err),
        s.row(key) is None ==> publication_at(s, key) == Ok::<Option<Option<ClaimText>>, MetaErrorText>(None),
{
    vstd::utf8::encode_utf8_valid_utf8(text);
    vstd::utf8::encode_utf8_decode_utf8(text);
}

// ---------------------------------------------------------------------------------------------
// The catalog
// ---------------------------------------------------------------------------------------------

/// A reservation takes the next number and changes neither what is served nor what is retired. Publishing serves the
/// staged generation, retires the one that was served and ends the reservation.
pub proof fn catalogs_move_from_reservation_to_publication(state: CatalogState, generation: CatalogGeneration)
    requires
        state.next_generation < u64::MAX,
    ensures
        state.reserved().active == state.active,
        state.reserved().retired == state.retired,
        state.reserved().staging == Some((state.next_generation + 1) as u64),
        state.reserved().next_generation == state.next_generation + 1,
        state.published(generation).active == Some(generation),
        state.published(generation).staging is None,
        state.published(generation).next_generation == state.next_generation,
        state.active matches Some(active) ==> state.published(generation).retired == Some(active.generation),
        state.active is None ==> state.published(generation).retired is None,
        state.publishable(generation_of(state.active), generation.generation) <==> state.staging == Some(
            generation.generation,
        ),
{
}

/// A recovery ends what was seen staged and retired; what came since stays, and so does what is served.
pub proof fn recoveries_end_what_was_seen(state: CatalogState, staging: Option<u64>, retired: Option<u64>)
    ensures
        state.staging == staging ==> state.recovered(staging, retired).staging is None,
        state.staging != staging ==> state.recovered(staging, retired).staging == state.staging,
        state.retired == retired ==> state.recovered(staging, retired).retired is None,
        state.retired != retired ==> state.recovered(staging, retired).retired == state.retired,
        state.recovered(staging, retired).active == state.active,
        state.recovered(staging, retired).next_generation == state.next_generation,
{
}

/// A revalidation dates the served generation anew and keeps the validators that the response did not carry.
pub proof fn revalidations_keep_the_catalog(
    state: CatalogState,
    etag: Option<String>,
    last_modified: Option<String>,
    fetched_at_unix: i64,
)
    requires
        state.active is Some,
    ensures
        ({
            let was = state.active->0;
            let now = state.refreshed(etag, last_modified, fetched_at_unix);
            &&& now.active is Some
            &&& now.active->0.fetched_at_unix == fetched_at_unix
            &&& now.active->0.generation == was.generation && now.active->0.projects == was.projects && now.active->0.url
                == was.url && now.active->0.last_serial == was.last_serial
            &&& now.active->0.etag == (if etag is Some { etag } else { was.etag })
            &&& now.active->0.last_modified == (if last_modified is Some { last_modified } else { was.last_modified })
            &&& now.staging == state.staging && now.retired == state.retired && now.next_generation
                == state.next_generation
        }),
{
}

/// A publication is stored exactly where its generation is staged over the one it was built on; otherwise nothing is
/// written.
pub proof fn publications_need_their_reservation(
    was: TxnState,
    index: Seq<char>,
    state: CatalogState,
    expected_active: Option<u64>,
    generation: CatalogGeneration,
    now: TxnState,
    r: Result<(), MetaError>,
)
    requires
        is_catalog_published(was, index, state, expected_active, generation, now, r),
    ensures
        r is Ok <==> state.staging == Some(generation.generation) && generation_of(state.active) == expected_active,
        r is Err ==> now == was,
        r is Ok ==> now.row(key1(CATALOG_PREFIX@, index)) == Some(encode_utf8(json_catalog(state.published(generation)))),
{
}

/// A revalidation is stored exactly where the generation it was made of is still served.
pub proof fn revalidations_need_their_generation(
    was: TxnState,
    index: Seq<char>,
    state: CatalogState,
    expected: u64,
    etag: Option<String>,
    last_modified: Option<String>,
    fetched_at_unix: i64,
    now: TxnState,
    r: Result<(), MetaError>,
)
    requires
        is_catalog_refreshed(was, index, state, expected, etag, last_modified, fetched_at_unix, now, r),
    ensures
        r is Ok <==> (state.active matches Some(active) && active.generation == expected),
        r is Err ==> now == was,
        r is Ok ==> now.row(key1(CATALOG_PREFIX@, index)) == Some(
            encode_utf8(json_catalog(state.refreshed(etag, last_modified, fetched_at_unix))),
        ),
{
}

/// A discarded generation leaves no row, and a newer reservation stands.
pub proof fn discarded_generations_leave_nothing(
    was: TxnState,
    index: Seq<char>,
    state: CatalogState,
    generation: u64,
    now: TxnState,
    key: Seq<char>,
)
    requires
        was.rows.dom().finite(),
        is_catalog_aborted(was, index, state, generation, now),
        generation_prefix(index, generation).is_prefix_of(key),
        key != key1(CATALOG_PREFIX@, index),
    ensures
        now.row(key) is None,
        state.staging == Some(generation) ==> now.row(key1(CATALOG_PREFIX@, index)) == Some(
            encode_utf8(json_catalog(CatalogState { staging: None, ..state })),
        ),
{
    crate::store::catalog::dropped_generations_are_gone(was, index, generation, key);
}

/// Projects are added to the staging generation alone, and each that is new is counted once.
pub proof fn projects_join_the_staging_generation(
    was: TxnState,
    state: CatalogState,
    index: Seq<char>,
    generation: u64,
    projects: Seq<(Seq<char>, Seq<char>)>,
    now: TxnState,
    r: Result<u64, MetaError>,
)
    requires
        is_batch_spelled(was, state, index, generation, projects, now, r),
    ensures
        r is Ok <==> state.staging == Some(generation),
        r is Err ==> now == was,
        r matches Ok(inserted) ==> inserted <= projects.len(),
        r is Ok ==> forall|i: int|
            0 <= i < projects.len() ==> now.row(
                generation_prefix(index, generation) + (#[trigger] projects[i]).0,
            ) is Some,
{
    if r is Ok {
        let prefix = generation_prefix(index, generation);
        counted_projects_are_bounded(was, prefix, projects, projects.len() as int);
        assert forall|i: int| 0 <= i < projects.len() implies now.row(prefix + (#[trigger] projects[i]).0) is Some by {
            crate::store::projects::smallest_spelling_stays(
                was,
                prefix,
                projects,
                projects.len() as int,
                projects[i].0,
            );
            assert(crate::store::projects::spells(
                projects,
                projects.len() as int,
                projects[i].0,
                encode_utf8(projects[i].1),
            ));
        }
    }
}

proof fn counted_projects_are_bounded(s: TxnState, prefix: Seq<char>, projects: Seq<(Seq<char>, Seq<char>)>, n: int)
    requires
        0 <= n <= projects.len(),
    ensures
        s.spelled_all(prefix, projects, n).1 <= n,
    decreases n,
{
    if n > 0 {
        counted_projects_are_bounded(s, prefix, projects, n - 1);
    }
}

/// A project whose row is text has its display name, and an observed one wins over the catalog's.
pub proof fn observed_names_win(
    rows: Map<Seq<char>, Seq<u8>>,
    index: Seq<char>,
    generation: u64,
    name: Seq<char>,
)
    requires
        rows.dom().finite(),
    ensures
        ({
            let observed = observed_prefix(index) + name;
            let listed = generation_prefix(index, generation) + name;
            let shown = project_displays(rows, index, Some(generation));
            &&& rows.contains_key(observed) && valid_utf8(rows[observed]) ==> shown.contains_key(name) && shown[name]
                == decode_utf8(rows[observed])
            &&& !(rows.contains_key(observed) && valid_utf8(rows[observed])) && rows.contains_key(listed) && valid_utf8(
                rows[listed],
            ) ==> shown.contains_key(name) && shown[name] == decode_utf8(rows[listed])
            &&& shown.contains_key(name) ==> rows.contains_key(observed) || rows.contains_key(listed)
        }),
        ({
            let observed = observed_prefix(index) + name;
            let shown = project_displays(rows, index, None);
            shown.contains_key(name) <==> rows.contains_key(observed) && valid_utf8(rows[observed])
        }),
{
    names_are_displayed(rows, observed_prefix(index), name);
    names_are_displayed(rows, generation_prefix(index, generation), name);
}

proof fn names_are_displayed(rows: Map<Seq<char>, Seq<u8>>, prefix: Seq<char>, name: Seq<char>)
    requires
        rows.dom().finite(),
    ensures
        displays_under(rows, prefix).contains_key(name) <==> rows.contains_key(prefix + name) && valid_utf8(
            rows[prefix + name],
        ),
        displays_under(rows, prefix).contains_key(name) ==> displays_under(rows, prefix)[name] == decode_utf8(
            rows[prefix + name],
        ),
{
    let keys = keys_under(rows, prefix);
    let key = prefix + name;
    assert(prefix.is_prefix_of(key)) by {
        assert(key.subrange(0, prefix.len() as int) =~= prefix);
    }
    rows_are_under(rows, prefix, key);
    assert forall|i: int| 0 <= i < keys.len() implies prefix.is_prefix_of(#[trigger] keys[i]) by {
        assert(keys.contains(keys[i]));
        rows_are_under(rows, prefix, keys[i]);
    }
    displays_of_keys(rows, prefix, keys, keys.len() as int, name);
    assert(keys.take(keys.len() as int) =~= keys);
}

proof fn displays_of_keys(
    rows: Map<Seq<char>, Seq<u8>>,
    prefix: Seq<char>,
    keys: Seq<Seq<char>>,
    n: int,
    name: Seq<char>,
)
    requires
        0 <= n <= keys.len(),
        forall|i: int| 0 <= i < keys.len() ==> prefix.is_prefix_of(#[trigger] keys[i]),
    ensures
        displays(rows, prefix, keys, n).contains_key(name) <==> keys.take(n).contains(prefix + name) && valid_utf8(
            rows[prefix + name],
        ),
        displays(rows, prefix, keys, n).contains_key(name) ==> displays(rows, prefix, keys, n)[name] == decode_utf8(
            rows[prefix + name],
        ),
    decreases n,
{
    if n > 0 {
        displays_of_keys(rows, prefix, keys, n - 1, name);
        let last = keys[n - 1];
        let key = prefix + name;
        assert(last.subrange(0, prefix.len() as int) =~= prefix);
        assert(last =~= prefix + last.skip(prefix.len() as int));
        assert(key.skip(prefix.len() as int) =~= name);
        assert(crate::store::projects::behind(prefix, last) == name <==> last == key);
        assert(keys.take(n)[n - 1] == last);
        let shorter = keys.take(n - 1);
        let longer = keys.take(n);
        if shorter.contains(key) {
            let i = choose|i: int| 0 <= i < shorter.len() && shorter[i] == key;
            assert(longer[i] == key);
        }
        if longer.contains(key) {
            let i = choose|i: int| 0 <= i < longer.len() && longer[i] == key;
            if i < n - 1 {
                assert(shorter[i] == key);
            }
        }
    } else {
        assert(keys.take(0).len() == 0);
    }
}

/// A catalog lists nothing where none is served, and no more than was asked for.
pub proof fn catalog_lists_are_bounded(
    s: TxnState,
    index: Seq<char>,
    active: Option<u64>,
    limit: usize,
    r: Seq<String>,
    i: int,
)
    requires
        are_catalog_projects(s, index, active, limit, r),
        0 <= i < r.len(),
        s.rows.dom().finite(),
    ensures
        active is Some,
        r.len() <= limit,
        s.rows.contains_key(generation_prefix(index, active->0) + r[i]@),
{
    let prefix = generation_prefix(index, active->0);
    let keys = keys_under(s.rows, prefix);
    assert(keys.contains(keys[i]));
    rows_are_under(s.rows, prefix, keys[i]);
    assert(keys[i].subrange(0, prefix.len() as int) =~= prefix);
    assert(keys[i] =~= prefix + r[i]@);
}

/// A purge counts the rows that are there and removes them: the project's page, its freshness, its status, and what is
/// kept of the named artifacts.
pub proof fn purges_count_what_they_remove(
    was: TxnState,
    index: Seq<char>,
    normalized: Seq<char>,
    file_digests: Seq<Seq<char>>,
    metadata_digests: Seq<Seq<char>>,
    now: TxnState,
    r: Result<ProjectCachePurgeCounts, MetaError>,
)
    requires
        is_cache_deleted(was, index, normalized, file_digests, metadata_digests, now, r),
    ensures
        r is Err ==> now == was,
        r matches Ok(counts) ==> {
            &&& counts.index_pages == (if was.rows.contains_key(key1(INDEX_PREFIX@, index + "/"@ + normalized)) {
                1int
            } else {
                0int
            })
            &&& counts.project_records == (if was.rows.contains_key(key2(PROJECTS_PREFIX@, index, normalized)) {
                1int
            } else {
                0int
            })
            &&& counts.project_status_records == (if was.rows.contains_key(
                key2(PROJECT_STATUS_PREFIX@, index, normalized),
            ) {
                1int
            } else {
                0int
            })
            &&& counts.file_url_records <= file_digests.len()
            &&& counts.metadata_records <= metadata_digests.len()
        },
        r is Ok ==> now.row(key1(INDEX_PREFIX@, index + "/"@ + normalized)) is None,
        r is Ok ==> now.row(key1(FRESHNESS_PREFIX@, index + "/"@ + normalized)) is None,
        r is Ok ==> now.row(key2(PROJECT_STATUS_PREFIX@, index, normalized)) is None,
        r is Ok ==> forall|i: int|
            0 <= i < metadata_digests.len() ==> now.row(METADATA_PREFIX@ + #[trigger] metadata_digests[i]) is None,
{
    if r is Ok {
        let s = was.project_removed(crate::store::txn::RowScope::Replicated, index, normalized)->Ok_0;
        let page = index + "/"@ + normalized;
        let keys = keys_under(
            s.rows,
            key2(crate::store::keys::PUBLICATION_PREFIX@, index, normalized) + "/"@,
        );
        let bare = s.erased_all(crate::store::txn::RowScope::Replicated, keys, keys.len() as int).erased(
            crate::store::txn::RowScope::Replicated,
            key1(INDEX_PREFIX@, page),
        ).erased(crate::store::txn::RowScope::Replicated, key1(FRESHNESS_PREFIX@, page)).erased(
            crate::store::txn::RowScope::Replicated,
            key2(PROJECT_STATUS_PREFIX@, index, normalized),
        );
        let sources = sources_prefix(index, normalized);
        let n = file_digests.len() as int;
        let m = metadata_digests.len() as int;
        let lean = bare.digests_erased(sources, file_digests, n);
        assert(now == lean.digests_erased(METADATA_PREFIX@, metadata_digests, m));
        erasing_digests_adds_nothing(bare, sources, file_digests, n, key1(INDEX_PREFIX@, page));
        erasing_digests_adds_nothing(bare, sources, file_digests, n, key1(FRESHNESS_PREFIX@, page));
        erasing_digests_adds_nothing(bare, sources, file_digests, n, key2(PROJECT_STATUS_PREFIX@, index, normalized));
        erasing_digests_adds_nothing(lean, METADATA_PREFIX@, metadata_digests, m, key1(INDEX_PREFIX@, page));
        erasing_digests_adds_nothing(lean, METADATA_PREFIX@, metadata_digests, m, key1(FRESHNESS_PREFIX@, page));
        erasing_digests_adds_nothing(
            lean,
            METADATA_PREFIX@,
            metadata_digests,
            m,
            key2(PROJECT_STATUS_PREFIX@, index, normalized),
        );
        erased_digests_are_gone(lean, METADATA_PREFIX@, metadata_digests, m);
        counted_rows_are_bounded(was, sources, file_digests, n);
        counted_rows_are_bounded(was, METADATA_PREFIX@, metadata_digests, m);
    }
}

proof fn erasing_digests_adds_nothing(s: TxnState, prefix: Seq<char>, digests: Seq<Seq<char>>, n: int, key: Seq<char>)
    requires
        0 <= n <= digests.len(),
        s.row(key) is None,
    ensures
        s.digests_erased(prefix, digests, n).row(key) is None,
    decreases n,
{
    if n > 0 {
        erasing_digests_adds_nothing(s, prefix, digests, n - 1, key);
    }
}

proof fn erased_digests_are_gone(s: TxnState, prefix: Seq<char>, digests: Seq<Seq<char>>, n: int)
    requires
        0 <= n <= digests.len(),
    ensures
        forall|i: int| 0 <= i < n ==> s.digests_erased(prefix, digests, n).row(prefix + #[trigger] digests[i]) is None,
    decreases n,
{
    if n > 0 {
        erased_digests_are_gone(s, prefix, digests, n - 1);
    }
}

proof fn counted_rows_are_bounded(s: TxnState, prefix: Seq<char>, digests: Seq<Seq<char>>, n: int)
    requires
        0 <= n <= digests.len(),
    ensures
        rows_of_digests(s, prefix, digests, n) <= n,
    decreases n,
{
    if n > 0 {
        counted_rows_are_bounded(s, prefix, digests, n - 1);
    }
}

// ---------------------------------------------------------------------------------------------
// The journal
// ---------------------------------------------------------------------------------------------

/// A record that does not carry the tag is another vocabulary's. One that does is an entry where it describes one, and
/// damaged otherwise, and so is one that is no object.
pub proof fn the_tag_decides(payload: Seq<u8>, parsed: Option<JournalEntry>, r: DecodedRecord)
    requires
        is_decoded_raw(payload, parsed, r),
    ensures
        r is Foreign <==> (crate::outside::json_fields(payload) matches Some(fields) && !fields.contains("pypi-op"@)),
        r is Entry <==> (crate::outside::json_fields(payload) matches Some(fields) && fields.contains("pypi-op"@))
            && parsed is Some,
        r matches DecodedRecord::Entry(entry) ==> parsed == Some(entry),
{
}

/// The names of a record's fields decide the same.
pub proof fn the_fields_decide(fields: Option<Vec<String>>, parsed: Option<JournalEntry>, r: DecodedRecord)
    requires
        is_decoded(fields, parsed, r),
    ensures
        r is Foreign <==> (fields matches Some(names) && !texts(names@).contains("pypi-op"@)),
        r is Entry <==> (fields matches Some(names) && texts(names@).contains("pypi-op"@)) && parsed is Some,
        r matches DecodedRecord::Entry(entry) ==> parsed == Some(entry),
{
}

/// Entries are taken in their order, no more than were asked for, and none that is another's.
pub proof fn entries_are_taken_in_order(records: Seq<JournalRecord>, limit: usize, n: int)
    requires
        0 <= n <= records.len(),
    ensures
        taken(records, limit, n) matches Some(positions) ==> {
            &&& positions.len() <= limit
            &&& forall|i: int| 0 <= i < positions.len() ==> 0 <= #[trigger] positions[i] < n
                && records[positions[i]].decoded is Entry
            &&& forall|i: int, j: int| 0 <= i < j < positions.len() ==> #[trigger] positions[i] < #[trigger] positions[j]
            &&& positions.len() < limit ==> forall|p: int|
                0 <= p < n && (#[trigger] records[p]).decoded is Entry ==> positions.contains(p)
        },
    decreases n,
{
    if n > 0 {
        entries_are_taken_in_order(records, limit, n - 1);
        if taken(records, limit, n) is Some {
            let before = taken(records, limit, n - 1)->0;
            let positions = taken(records, limit, n)->0;
            if positions.len() < limit {
                assert forall|p: int| 0 <= p < n && (#[trigger] records[p]).decoded is Entry implies positions.contains(
                    p,
                ) by {
                    if p < n - 1 {
                        let k = choose|k: int| 0 <= k < before.len() && before[k] == p;
                        assert(positions[k] == p);
                    } else {
                        assert(positions[before.len() as int] == p);
                    }
                }
            }
        }
    }
}

/// A damaged record that stands before the page is full fails the read.
pub proof fn damage_is_not_passed_over(records: Seq<JournalRecord>, limit: usize, n: int, i: int)
    requires
        0 <= i < n <= records.len(),
        records[i].decoded is Damaged,
        taken(records, limit, i) matches Some(positions) && positions.len() < limit,
    ensures
        taken(records, limit, n) is None,
    decreases n,
{
    if i < n - 1 {
        damage_is_not_passed_over(records, limit, n - 1, i);
    }
}

/// A snapshot carries the serial it was read at, and each entry as it was recorded, under the serial that the store gave
/// its record.
pub proof fn snapshots_carry_the_stores_serials(
    records: Seq<JournalRecord>,
    current_serial: u64,
    limit: usize,
    r: Result<JournalSnapshot, DamagedRecord>,
    i: int,
)
    requires
        is_snapshot(records, current_serial, limit, r),
    ensures
        r matches Ok(snapshot) ==> snapshot.current_serial == current_serial && snapshot.entries@.len() <= limit,
        r matches Ok(snapshot) ==> (0 <= i < snapshot.entries@.len() ==> exists|p: int|
            0 <= p < records.len() && (#[trigger] records[p]).decoded is Entry && snapshot.entries@[i].serial
                == records[p].serial && snapshot.entries@[i].action@ == records[p].decoded->Entry_0.action@
                && snapshot.entries@[i].project@ == records[p].decoded->Entry_0.project@),
{
    entries_are_taken_in_order(records, limit, records.len() as int);
    if r is Ok && 0 <= i < r->Ok_0.entries@.len() {
        let positions = taken(records, limit, records.len() as int)->0;
        assert(stamped(records[positions[i]], r->Ok_0.entries@[i]));
        assert(records[positions[i]].decoded is Entry);
    }
}

/// A changelog speaks of files added and removed, and names the file; every other action is named as it is.
pub proof fn changelogs_name_what_happened(action: Seq<char>, filename: Seq<char>)
    ensures
        changelog_action("add-file"@, Some(filename)) == "add file"@ + " "@ + filename,
        changelog_action("promote"@, Some(filename)) == "add file"@ + " "@ + filename,
        "delete-file"@ != "add-file"@ && "delete-file"@ != "promote"@ ==> changelog_action(
            "delete-file"@,
            Some(filename),
        ) == "remove file"@ + " "@ + filename,
        action != "add-file"@ && action != "promote"@ && action != "delete-file"@ ==> changelog_action(action, None)
            == action && changelog_action(action, Some(filename)) == action + " "@ + filename,
{
}

/// A changelog is read behind its cursor, and from the start where that is negative.
pub proof fn changelogs_are_read_behind_their_cursor(after: i64)
    ensures
        after >= 0 ==> cursor_behind(after) == after,
        after < 0 ==> cursor_behind(after) == 0,
{
}

/// A changelog page lists every entry of its snapshot, with its serial and its time.
pub proof fn changelog_pages_list_every_entry(
    after: i64,
    snapshot: JournalSnapshot,
    limit: usize,
    r: Result<crate::serial::ChangelogPage, crate::serial::ChangelogPageError>,
    i: int,
)
    requires
        is_changelog(after, snapshot, limit, r),
    ensures
        r matches Ok(page) ==> page.cursor() == after && page.snapshot() == snapshot.current_serial && page.list().len()
            == snapshot.entries@.len(),
        r matches Ok(page) ==> (0 <= i < page.list().len() ==> page.list()[i].serial == snapshot.entries@[i].serial
            && page.list()[i].project == snapshot.entries@[i].project && page.list()[i].timestamp
            == snapshot.entries@[i].submitted_at_unix && page.list()[i].version == snapshot.entries@[i].version
            && page.list()[i].action@ == changelog_action(
            snapshot.entries@[i].action@,
            opt_text(snapshot.entries@[i].filename),
        )),
{
    if r is Ok && 0 <= i < r->Ok_0.list().len() {
        assert(changelog_entry(snapshot.entries@[i], r->Ok_0.list()[i]));
    }
}

// ---------------------------------------------------------------------------------------------
// Rows under a prefix
// ---------------------------------------------------------------------------------------------

/// A read of the rows under a prefix gives every one of them once, in the order of their keys, each with its value.
pub proof fn rows_are_read_whole(rows: Map<Seq<char>, Seq<u8>>, prefix: Seq<char>, entries: Seq<(String, Vec<u8>)>, key: Seq<char>)
    requires
        rows.dom().finite(),
        rows_under(rows, prefix, entries),
    ensures
        ascending(entry_keys(entries)),
        rows.contains_key(key) && prefix.is_prefix_of(key) <==> entry_keys(entries).contains(key),
        forall|i: int|
            0 <= i < entries.len() ==> (#[trigger] entries[i]).0@ == key ==> rows.contains_key(key) && rows[key]
                == entries[i].1@,
{
    let under = rows.dom().filter(|k: Seq<char>| prefix.is_prefix_of(k));
    finite_sets_are_listed(under);
    assert(listed(under).to_set().contains(key) <==> under.contains(key));
}

/// A read behind a prefix gives as many rows as stand under it, and every one under the rest of its key.
pub proof fn rows_are_read_behind_their_prefix(
    s: TxnState,
    prefix: Seq<char>,
    entries: Seq<(String, Vec<u8>)>,
    rest: Seq<char>,
)
    requires
        s.rows.dom().finite(),
        entries_behind(s, prefix, entries),
    ensures
        forall|i: int|
            0 <= i < entries.len() ==> s.row(prefix + (#[trigger] entries[i]).0@) == Some(entries[i].1@),
        s.row(prefix + rest) is Some ==> exists|i: int|
            0 <= i < entries.len() && (#[trigger] entries[i]).0@ == rest,
{
    let keys = keys_under(s.rows, prefix);
    assert forall|i: int| 0 <= i < entries.len() implies s.row(prefix + (#[trigger] entries[i]).0@) == Some(
        entries[i].1@,
    ) by {
        assert(prefix + behind(prefix, keys[i]) =~= keys[i]);
    }
    if s.row(prefix + rest) is Some {
        let under = s.rows.dom().filter(|k: Seq<char>| prefix.is_prefix_of(k));
        finite_sets_are_listed(under);
        assert(prefix.is_prefix_of(prefix + rest));
        assert(under.contains(prefix + rest));
        assert(keys.to_set().contains(prefix + rest));
        let i = choose|i: int| 0 <= i < keys.len() && keys[i] == prefix + rest;
        assert(behind(prefix, prefix + rest) =~= rest);
        assert(entries[i].0@ == rest);
    }
}

/// A metadata pointer names the artifact whose digest its key was made of.
pub proof fn metadata_pointers_name_their_artifact(sha256: Seq<char>, key: Seq<char>)
    ensures
        sha256.len() > 0 ==> key_metadata_artifact(METADATA_PREFIX@ + sha256) == Some(sha256),
        key_metadata_artifact(key) matches Some(named) ==> key == METADATA_PREFIX@ + named && named.len() > 0,
        !METADATA_PREFIX@.is_prefix_of(key) ==> key_metadata_artifact(key) is None,
{
    cut_prefix_of_joined(METADATA_PREFIX@, sha256);
    if key_metadata_artifact(key) is Some {
        assert(METADATA_PREFIX@ + cut_prefix(key, METADATA_PREFIX@)->0 =~= key);
    }
}

/// The projects of an index are listed in order, as many as it has names of, and every display name among them.
pub proof fn projects_are_listed_by_their_display_names(
    s: TxnState,
    index: Seq<char>,
    active: Option<u64>,
    r: Seq<Seq<char>>,
    name: Seq<char>,
)
    requires
        s.rows.dom().finite(),
        are_projects(s, index, active, r),
    ensures
        in_order(r),
        project_displays(s.rows, index, active).dom().finite() && project_displays(s.rows, index, active).contains_key(
            name,
        ) ==> r.contains(project_displays(s.rows, index, active)[name]),
        r.len() == display_names(project_displays(s.rows, index, active)).len(),
{
    broadcast use vstd::seq_lib::group_to_multiset_ensures;

    let map = project_displays(s.rows, index, active);
    let shown = display_names(map);
    assert(r.len() == r.to_multiset().len());
    assert(shown.len() == shown.to_multiset().len());
    if map.dom().finite() && map.contains_key(name) {
        finite_sets_are_listed(map.dom());
        assert(listed(map.dom()).to_set().contains(name));
        let k = choose|k: int| 0 <= k < listed(map.dom()).len() && listed(map.dom())[k] == name;
        assert(shown[k] == map[name]);
        assert(shown.contains(map[name]));
        assert(r.to_multiset().count(map[name]) > 0);
    }
}

} // verus!
