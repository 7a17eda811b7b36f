//! The catalog of a cached index: its state is a row of the store, and a sync moves it from reservation to
//! publication.
use vstd::prelude::*;
use vstd::utf8::encode_utf8;

use super::keys::{catalog_key, key1, CATALOG_PREFIX};
use super::projects::{
    catalog_generation_prefix, erased_all_rows, generation_of, generation_prefix, remove_rows_under, CatalogGeneration,
    CatalogState,
};
use super::record::{json_opt_number, opt_number_json};
use super::summary::{json_opt_string, opt_string_json};
use super::txn::{keys_under, rows_are_under, DriverTxn, RowScope, TxnState};
use super::values::{MetaError, MetaErrorText};
use crate::outside::{json_string, json_string_text};
use crate::text::{
    decimal, decimal_text, opt_as_str, opt_text, signed_decimal, signed_decimal_text,
};

verus! {

/// A generation as an object.
pub open spec fn json_generation(g: CatalogGeneration) -> Seq<char> {
    "{\"generation\":"@ + decimal(g.generation as nat) + ",\"source\":"@ + json_string(g.source@) + ",\"url\":"@
        + json_string(g.url@) + ",\"format\":"@ + json_string(g.format@) + ",\"etag\":"@ + json_opt_string(
        opt_text(g.etag),
    ) + ",\"last_modified\":"@ + json_opt_string(opt_text(g.last_modified)) + ",\"last_serial\":"@ + json_opt_number(
        g.last_serial,
    ) + ",\"fetched_at_unix\":"@ + signed_decimal(g.fetched_at_unix as int) + ",\"bytes\":"@ + decimal(
        g.bytes as nat,
    ) + ",\"projects\":"@ + decimal(g.projects as nat) + "}"@
}

fn generation_json(g: &CatalogGeneration) -> (r: String)
    ensures
        r@ == json_generation(*g),
{
    let mut out = "{\"generation\":".to_owned();
    let number = decimal_text(g.generation);
    out.append(number.as_str());
    let source = json_string_text(g.source.as_str());
    out.append(",\"source\":");
    out.append(source.as_str());
    let url = json_string_text(g.url.as_str());
    out.append(",\"url\":");
    out.append(url.as_str());
    let format = json_string_text(g.format.as_str());
    out.append(",\"format\":");
    out.append(format.as_str());
    let etag = opt_string_json(opt_as_str(&g.etag));
    out.append(",\"etag\":");
    out.append(etag.as_str());
    let modified = opt_string_json(opt_as_str(&g.last_modified));
    out.append(",\"last_modified\":");
    out.append(modified.as_str());
    let serial = opt_number_json(g.last_serial);
    out.append(",\"last_serial\":");
    out.append(serial.as_str());
    let fetched = signed_decimal_text(g.fetched_at_unix);
    out.append(",\"fetched_at_unix\":");
    out.append(fetched.as_str());
    let bytes = decimal_text(g.bytes);
    out.append(",\"bytes\":");
    out.append(bytes.as_str());
    let projects = decimal_text(g.projects);
    out.append(",\"projects\":");
    out.append(projects.as_str());
    out.append("}");
    out
}

/// A catalog's state as an object.
pub open spec fn json_catalog(state: CatalogState) -> Seq<char> {
    "{\"active\":"@ + (match state.active {
        Some(active) => json_generation(active),
        None => "null"@,
    }) + ",\"staging\":"@ + json_opt_number(state.staging) + ",\"retired\":"@ + json_opt_number(state.retired)
        + ",\"next_generation\":"@ + decimal(state.next_generation as nat) + "}"@
}

fn catalog_json(state: &CatalogState) -> (r: String)
    ensures
        r@ == json_catalog(*state),
{
    let mut out = "{\"active\":".to_owned();
    match &state.active {
        Some(active) => {
            let text = generation_json(active);
            out.append(text.as_str());
        },
        None => {
            out.append("null");
        },
    }
    let staging = opt_number_json(state.staging);
    out.append(",\"staging\":");
    out.append(staging.as_str());
    let retired = opt_number_json(state.retired);
    out.append(",\"retired\":");
    out.append(retired.as_str());
    let next = decimal_text(state.next_generation);
    out.append(",\"next_generation\":");
    out.append(next.as_str());
    out.append("}");
    out
}

impl TxnState {
    /// The state of an index's catalog is stored.
    pub open spec fn catalog_stored(self, index: Seq<char>, state: CatalogState) -> TxnState {
        self.wrote(RowScope::Local, key1(CATALOG_PREFIX@, index), encode_utf8(json_catalog(state)))
    }

    /// The rows of a generation are gone.
    pub open spec fn generation_dropped(self, index: Seq<char>, generation: Option<u64>) -> TxnState {
        match generation {
            None => self,
            Some(generation) => {
                let keys = keys_under(self.rows, generation_prefix(index, generation));
                self.erased_all(RowScope::Local, keys, keys.len() as int)
            },
        }
    }
}

fn store_catalog_state(txn: &mut DriverTxn, index: &str, state: &CatalogState)
    ensures
        final(txn)@ == old(txn)@.catalog_stored(index@, *state),
{
    let key = catalog_key(index);
    let text = catalog_json(state);
    let fresh: bool = txn.write_row(RowScope::Local, key.as_str(), text.as_str().as_bytes());
}

fn drop_generation(txn: &mut DriverTxn, index: &str, generation: Option<u64>)
    ensures
        final(txn)@ == old(txn)@.generation_dropped(index@, generation),
{
    match generation {
        None => {},
        Some(generation) => {
            let prefix = catalog_generation_prefix(index, generation);
            remove_rows_under(txn, RowScope::Local, prefix.as_str());
        },
    }
}

/// Reserve the next generation, giving its number and that of the active one. `state` is the catalog's state
/// as it is stored.
pub fn begin_catalog_generation(txn: &mut DriverTxn, index: &str, state: CatalogState) -> (r: (u64, Option<u64>))
    requires
        state.next_generation < u64::MAX,
    ensures
        final(txn)@ == old(txn)@.catalog_stored(index@, state.reserved()),
        r.0 == state.next_generation + 1,
        r.1 == generation_of(state.active),
{
    let (next, number, expected) = state.reserve();
    store_catalog_state(txn, index, &next);
    (number, expected)
}

/// Whether publishing a staged generation takes the store from `was` to `now`.
pub open spec fn is_catalog_published(
    was: TxnState,
    index: Seq<char>,
    state: CatalogState,
    expected_active: Option<u64>,
    generation: CatalogGeneration,
    now: TxnState,
    r: Result<(), MetaError>,
) -> bool {
    if state.publishable(expected_active, generation.generation) {
        r is Ok && now == was.catalog_stored(index, state.published(generation))
    } else {
        r matches Err(e) && e@ == MetaErrorText::Precondition("catalog publication lost its reservation"@)
            && now == was
    }
}

/// Publish a staged generation. A publication that lost its reservation, or whose base changed, is refused
/// and writes nothing.
pub fn publish_catalog_generation(
    txn: &mut DriverTxn,
    index: &str,
    state: CatalogState,
    expected_active: Option<u64>,
    generation: CatalogGeneration,
) -> (r: Result<(), MetaError>)
    ensures
        is_catalog_published(old(txn)@, index@, state, expected_active, generation, final(txn)@, r),
{
    match state.publish(expected_active, generation) {
        Ok(next) => {
            store_catalog_state(txn, index, &next);
            Ok(())
        },
        Err(error) => Err(error),
    }
}

/// Whether discarding a staging generation takes the store from `was` to `now`.
pub open spec fn is_catalog_aborted(was: TxnState, index: Seq<char>, state: CatalogState, generation: u64, now: TxnState) -> bool {
    let dropped = was.generation_dropped(index, Some(generation));
    now == (if state.staging == Some(generation) {
        dropped.catalog_stored(index, CatalogState { staging: None, ..state })
    } else {
        dropped
    })
}

/// Discard one failed staging generation with its rows, without disturbing a newer reservation.
pub fn abort_catalog_generation(txn: &mut DriverTxn, index: &str, state: CatalogState, generation: u64)
    ensures
        is_catalog_aborted(old(txn)@, index@, state, generation, final(txn)@),
{
    drop_generation(txn, index, Some(generation));
    match state.abort(generation) {
        Some(next) => {
            store_catalog_state(txn, index, &next);
        },
        None => {},
    }
}

/// Remove the generations that an interrupted sync left, and clear them from the state once their rows are
/// gone. `staging` and `retired` are what was seen of the state before; `current` is what it is now.
pub fn recover_catalog_generations(
    txn: &mut DriverTxn,
    index: &str,
    staging: Option<u64>,
    retired: Option<u64>,
    current: CatalogState,
)
    ensures
        final(txn)@ == old(txn)@.generation_dropped(index@, staging).generation_dropped(
            index@,
            retired,
        ).catalog_stored(index@, current.recovered(staging, retired)),
{
    drop_generation(txn, index, staging);
    drop_generation(txn, index, retired);
    let next = current.recover(staging, retired);
    store_catalog_state(txn, index, &next);
}

/// Whether refreshing the published generation takes the store from `was` to `now`.
pub open spec fn is_catalog_refreshed(
    was: TxnState,
    index: Seq<char>,
    state: CatalogState,
    expected: u64,
    etag: Option<String>,
    last_modified: Option<String>,
    fetched_at_unix: i64,
    now: TxnState,
    r: Result<(), MetaError>,
) -> bool {
    if generation_of(state.active) == Some(expected) {
        r is Ok && now == was.catalog_stored(
            index,
            state.refreshed(etag, last_modified, fetched_at_unix),
        )
    } else {
        r matches Err(e) && e@ == MetaErrorText::Precondition("catalog changed during revalidation"@)
            && now == was
    }
}

/// Refresh the published generation after a `304`. Where it is no longer the one that was revalidated, the
/// refresh is refused and writes nothing.
pub fn refresh_catalog_generation(
    txn: &mut DriverTxn,
    index: &str,
    state: CatalogState,
    expected: u64,
    etag: Option<String>,
    last_modified: Option<String>,
    fetched_at_unix: i64,
) -> (r: Result<(), MetaError>)
    ensures
        is_catalog_refreshed(old(txn)@, index@, state, expected, etag, last_modified, fetched_at_unix, final(txn)@, r),
{
    match state.refresh(expected, etag, last_modified, fetched_at_unix) {
        Ok(next) => {
            store_catalog_state(txn, index, &next);
            Ok(())
        },
        Err(error) => Err(error),
    }
}

/// A dropped generation leaves no row.
pub proof fn dropped_generations_are_gone(s: TxnState, index: Seq<char>, generation: u64, key: Seq<char>)
    requires
        s.rows.dom().finite(),
        generation_prefix(index, generation).is_prefix_of(key),
    ensures
        s.generation_dropped(index, Some(generation)).row(key) is None,
{
    let prefix = generation_prefix(index, generation);
    let keys = keys_under(s.rows, prefix);
    rows_are_under(s.rows, prefix, key);
    erased_all_rows(s, RowScope::Local, keys, keys.len() as int, key);
    assert(keys.take(keys.len() as int) =~= keys);
}

} // verus!
