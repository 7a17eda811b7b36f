//! The projects of an index: the observed ones, and the generations of a remote root catalog.
use vstd::prelude::*;
use vstd::utf8::{decode_utf8, encode_utf8, valid_utf8};

use super::keys::{
    freshness_key, index_key, key1, key2, project_key, project_status_key, publication_prefix,
    CATALOG_GENERATION_PREFIX, FILE_PREFIX, FRESHNESS_PREFIX, INDEX_PREFIX, METADATA_PREFIX, PROJECTS_PREFIX,
    PROJECT_STATUS_PREFIX, PUBLICATION_PREFIX,
};
use super::summary::{padded, padded_text, remove_project_row};
use super::txn::{entry_keys, keys_under, rows_under, DriverTxn, RowScope, TxnState};
use super::values::{MetaError, MetaErrorText};
use crate::collections::{listed, listed_is, TextMap};
use crate::outside::utf8_text;
use crate::simple::file::text_values;
use crate::text::{
    bytes_clone, in_order, sort_texts, bytes_before, bytes_before_irreflexive, bytes_before_total,
    bytes_before_transitive, is_bytes_before, texts,
};

verus! {

/// One completely parsed remote root catalog.
#[derive(Debug)]
pub struct CatalogGeneration {
    pub generation: u64,
    pub source: String,
    pub url: String,
    pub format: String,
    pub etag: Option<String>,
    pub last_modified: Option<String>,
    pub last_serial: Option<u64>,
    pub fetched_at_unix: i64,
    pub bytes: u64,
    pub projects: u64,
}

/// Publication state for one cached index's remote root catalog: the generation a reader serves, the
/// reservation an in-progress sync holds, and the generation a publication just displaced.
#[derive(Debug)]
pub struct CatalogState {
    pub active: Option<CatalogGeneration>,
    pub staging: Option<u64>,
    pub retired: Option<u64>,
    pub next_generation: u64,
}

impl Default for CatalogState {
    fn default() -> (r: Self)
        ensures
            r == (CatalogState { active: None, staging: None, retired: None, next_generation: 0 }),
    {
        CatalogState { active: None, staging: None, retired: None, next_generation: 0 }
    }
}

/// The generation of an optional catalog.
pub open spec fn generation_of(active: Option<CatalogGeneration>) -> Option<u64> {
    match active {
        Some(active) => Some(active.generation),
        None => None,
    }
}

fn active_generation(active: &Option<CatalogGeneration>) -> (r: Option<u64>)
    ensures
        r == generation_of(*active),
{
    match active {
        Some(active) => Some(active.generation),
        None => None,
    }
}

impl CatalogState {
    /// Every generation number that is in use was handed out.
    pub open spec fn wf(self) -> bool {
        &&& self.active is Some ==> (self.active->0).generation <= self.next_generation
        &&& self.staging is Some ==> self.staging->0 <= self.next_generation
        &&& self.retired is Some ==> self.retired->0 <= self.next_generation
    }

    /// The next generation is reserved.
    pub open spec fn reserved(self) -> CatalogState {
        CatalogState {
            next_generation: (self.next_generation + 1) as u64,
            staging: Some((self.next_generation + 1) as u64),
            ..self
        }
    }

    /// Whether the generation is staged and the active one is as it was.
    pub open spec fn publishable(self, expected_active: Option<u64>, generation: u64) -> bool {
        self.staging == Some(generation) && generation_of(self.active) == expected_active
    }

    /// The staged generation is published in place of the active one, which is retired.
    pub open spec fn published(self, generation: CatalogGeneration) -> CatalogState {
        CatalogState {
            active: Some(generation),
            staging: None,
            retired: generation_of(self.active),
            next_generation: self.next_generation,
        }
    }

    /// The generations that were seen staged and retired are over.
    pub open spec fn recovered(self, staging: Option<u64>, retired: Option<u64>) -> CatalogState {
        CatalogState {
            staging: if self.staging == staging {
                None
            } else {
                self.staging
            },
            retired: if self.retired == retired {
                None
            } else {
                self.retired
            },
            ..self
        }
    }

    /// The active generation is revalidated: what a response carried of its validators stands.
    pub open spec fn refreshed(
        self,
        etag: Option<String>,
        last_modified: Option<String>,
        fetched_at_unix: i64,
    ) -> CatalogState {
        let active = self.active->0;
        CatalogState {
            active: Some(
                CatalogGeneration {
                    etag: if etag is Some {
                        etag
                    } else {
                        active.etag
                    },
                    last_modified: if last_modified is Some {
                        last_modified
                    } else {
                        active.last_modified
                    },
                    fetched_at_unix,
                    ..active
                },
            ),
            ..self
        }
    }

    /// Reserve the next generation, giving its number and that of the active one.
    pub fn reserve(self) -> (r: (CatalogState, u64, Option<u64>))
        requires
            self.next_generation < u64::MAX,
        ensures
            r.0 == self.reserved(),
            r.1 == self.next_generation + 1,
            r.2 == generation_of(self.active),
            self.wf() ==> r.0.wf(),
    {
        let expected: Option<u64> = active_generation(&self.active);
        let next: u64 = self.next_generation + 1;
        let state = CatalogState { staging: Some(next), next_generation: next, ..self };
        (state, next, expected)
    }

    /// Publish a staged generation. A publication that lost its reservation, or whose base changed, is
    /// refused.
    pub fn publish(self, expected_active: Option<u64>, generation: CatalogGeneration) -> (r: Result<
        CatalogState,
        MetaError,
    >)
        ensures
            if self.publishable(expected_active, generation.generation) {
                r == Ok::<CatalogState, MetaError>(self.published(generation)) && (self.wf() ==> self.published(
                    generation,
                ).wf())
            } else {
                r matches Err(e) && e@ == MetaErrorText::Precondition("catalog publication lost its reservation"@)
            },
    {
        let staged: bool = match self.staging {
            Some(staging) => staging == generation.generation,
            None => false,
        };
        let active: Option<u64> = active_generation(&self.active);
        if !staged || active != expected_active {
            return Err(MetaError::DriverPrecondition("catalog publication lost its reservation".to_owned()));
        }
        Ok(
            CatalogState {
                active: Some(generation),
                staging: None,
                retired: active,
                next_generation: self.next_generation,
            },
        )
    }

    /// Discard one failed staging generation without disturbing a newer reservation. Nothing comes back
    /// when the state need not be stored.
    pub fn abort(self, generation: u64) -> (r: Option<CatalogState>)
        ensures
            r == (if self.staging == Some(generation) {
                Some(CatalogState { staging: None, ..self })
            } else {
                None
            }),
    {
        match self.staging {
            Some(staging) => {
                if staging == generation {
                    Some(CatalogState { staging: None, ..self })
                } else {
                    None
                }
            },
            None => None,
        }
    }

    /// Clear the generations whose rows are gone. A reservation or a retirement that came since stays.
    pub fn recover(self, staging: Option<u64>, retired: Option<u64>) -> (r: CatalogState)
        ensures
            r == self.recovered(staging, retired),
    {
        let mut state = self;
        if state.staging == staging {
            state.staging = None;
        }
        if state.retired == retired {
            state.retired = None;
        }
        state
    }

    /// Refresh the published generation after a `304`, merging only the validators that the response
    /// carried.
    pub fn refresh(
        self,
        expected: u64,
        etag: Option<String>,
        last_modified: Option<String>,
        fetched_at_unix: i64,
    ) -> (r: Result<CatalogState, MetaError>)
        ensures
            if generation_of(self.active) == Some(expected) {
                r == Ok::<CatalogState, MetaError>(self.refreshed(etag, last_modified, fetched_at_unix))
            } else {
                r matches Err(e) && e@ == MetaErrorText::Precondition("catalog changed during revalidation"@)
            },
    {
        let CatalogState { active, staging, retired, next_generation } = self;
        match active {
            Some(active) => {
                if active.generation == expected {
                    let mut active = active;
                    if etag.is_some() {
                        active.etag = etag;
                    }
                    if last_modified.is_some() {
                        active.last_modified = last_modified;
                    }
                    active.fetched_at_unix = fetched_at_unix;
                    return Ok(CatalogState { active: Some(active), staging, retired, next_generation });
                }
            },
            None => {},
        }
        Err(MetaError::DriverPrecondition("catalog changed during revalidation".to_owned()))
    }
}

/// A sync that is not interfered with is published: the generation it reserved is staged, over the
/// generation that was active when it began.
pub proof fn uninterrupted_syncs_publish(state: CatalogState)
    requires
        state.next_generation < u64::MAX,
    ensures
        state.reserved().publishable(generation_of(state.active), (state.next_generation + 1) as u64),
{
}

/// A generation that was reserved before cannot be published once another has been reserved.
pub proof fn newer_reservations_win(state: CatalogState, expected: Option<u64>, older: u64)
    requires
        state.next_generation < u64::MAX,
        older <= state.next_generation,
    ensures
        !state.reserved().publishable(expected, older),
{
}

// ---------------------------------------------------------------------------------------------
// Catalog rows
// ---------------------------------------------------------------------------------------------

/// The prefix of one generation's rows. The generation is written with a fixed width, so that the keys
/// sort by it.
pub open spec fn generation_prefix(index: Seq<char>, generation: u64) -> Seq<char> {
    CATALOG_GENERATION_PREFIX@ + index + "/"@ + padded(generation as nat, 20) + "/"@
}

/// The prefix of one generation's rows.
pub fn catalog_generation_prefix(index: &str, generation: u64) -> (r: String)
    ensures
        r@ == generation_prefix(index@, generation),
{
    let mut key = CATALOG_GENERATION_PREFIX.to_owned();
    key.append(index);
    key.append("/");
    let number = padded_text(generation);
    key.append(number.as_str());
    key.append("/");
    key
}

/// The key of one project of a generation.
pub fn catalog_project_key(index: &str, generation: u64, normalized: &str) -> (r: String)
    ensures
        r@ == generation_prefix(index@, generation) + normalized@,
{
    let mut key = catalog_generation_prefix(index, generation);
    key.append(normalized);
    key
}

impl TxnState {
    /// One project of a generation is recorded: of two spellings the bytewise smaller one stays.
    pub open spec fn spelled(self, key: Seq<char>, display: Seq<u8>) -> TxnState {
        match self.row(key) {
            None => self.wrote(RowScope::Local, key, display),
            Some(current) => if bytes_before(display, current) {
                self.wrote(RowScope::Local, key, display)
            } else {
                self
            },
        }
    }

    /// The first `n` projects are recorded, and how many of them were new.
    pub open spec fn spelled_all(
        self,
        prefix: Seq<char>,
        projects: Seq<(Seq<char>, Seq<char>)>,
        n: int,
    ) -> (TxnState, nat)
        decreases n,
    {
        if n <= 0 {
            (self, 0)
        } else {
            let (s, inserted) = self.spelled_all(prefix, projects, n - 1);
            let key = prefix + projects[n - 1].0;
            (
                s.spelled(key, encode_utf8(projects[n - 1].1)),
                if s.rows.contains_key(key) {
                    inserted
                } else {
                    inserted + 1
                },
            )
        }
    }
}

/// Pairs of texts, seen as characters.
pub open spec fn pair_texts(pairs: Seq<(String, String)>) -> Seq<(Seq<char>, Seq<char>)> {
    pairs.map_values(|p: (String, String)| (p.0@, p.1@))
}

/// Whether adding projects to a staging generation takes the store from `was` to `now`.
pub open spec fn is_batch_spelled(
    was: TxnState,
    state: CatalogState,
    index: Seq<char>,
    generation: u64,
    projects: Seq<(Seq<char>, Seq<char>)>,
    now: TxnState,
    r: Result<u64, MetaError>,
) -> bool {
    if state.staging == Some(generation) {
        let after = was.spelled_all(
            generation_prefix(index, generation),
            projects,
            projects.len() as int,
        );
        r matches Ok(inserted) && now == after.0 && inserted == after.1
    } else {
        r matches Err(e) && e@ == MetaErrorText::Precondition("catalog generation is not staging"@)
            && now == was
    }
}

/// Add a bounded batch of canonical and display names to a staging generation, and say how many
/// canonical names are new.
pub fn put_catalog_projects(
    txn: &mut DriverTxn,
    state: &CatalogState,
    index: &str,
    generation: u64,
    projects: &Vec<(String, String)>,
) -> (r: Result<u64, MetaError>)
    ensures
        is_batch_spelled(old(txn)@, *state, index@, generation, pair_texts(projects@), final(txn)@, r),
{
    let staging: bool = match state.staging {
        Some(staging) => staging == generation,
        None => false,
    };
    if !staging {
        return Err(MetaError::DriverPrecondition("catalog generation is not staging".to_owned()));
    }
    let ghost start = txn@;
    let ghost prefix = generation_prefix(index@, generation);
    let ghost all = pair_texts(projects@);
    let mut inserted: u64 = 0;
    let mut i: usize = 0;
    while i < projects.len()
        invariant
            i <= projects@.len(),
            all == pair_texts(projects@),
            prefix == generation_prefix(index@, generation),
            txn@ == start.spelled_all(prefix, all, i as int).0,
            inserted == start.spelled_all(prefix, all, i as int).1,
            inserted <= i,
        decreases projects.len() - i,
    {
        let key = catalog_project_key(index, generation, projects[i].0.as_str());
        let display = projects[i].1.as_str().as_bytes();
        match txn.get(key.as_str()) {
            None => {
                let fresh: bool = txn.write_row(RowScope::Local, key.as_str(), display);
                inserted = inserted + 1;
            },
            Some(current) => {
                if is_bytes_before(display, current.as_slice()) {
                    let fresh: bool = txn.write_row(RowScope::Local, key.as_str(), display);
                }
            },
        }
        i = i + 1;
    }
    Ok(inserted)
}

/// Whether one of the first `n` projects has the name and the spelling.
pub open spec fn spells(projects: Seq<(Seq<char>, Seq<char>)>, n: int, name: Seq<char>, display: Seq<u8>) -> bool {
    exists|i: int|
        0 <= i < n && (#[trigger] projects[i]).0 == name && encode_utf8(projects[i].1) == display
}

/// What a name's row holds once the projects are recorded: a spelling that was there, and none that was
/// there is smaller.
pub proof fn smallest_spelling_stays(
    s: TxnState,
    prefix: Seq<char>,
    projects: Seq<(Seq<char>, Seq<char>)>,
    n: int,
    name: Seq<char>,
)
    requires
        0 <= n <= projects.len(),
    ensures
        ({
            let t = s.spelled_all(prefix, projects, n).0;
            let key = prefix + name;
            &&& t.row(key) matches Some(row) ==> (s.row(key) == Some(row) || spells(projects, n, name, row))
            &&& forall|display: Seq<u8>| #[trigger]
                spells(projects, n, name, display) ==> t.row(key) is Some && !bytes_before(display, t.row(key)->0)
            &&& s.row(key) matches Some(row) ==> t.row(key) is Some && !bytes_before(row, t.row(key)->0)
        }),
    decreases n,
{
    let key = prefix + name;
    if n > 0 {
        smallest_spelling_stays(s, prefix, projects, n - 1, name);
        let u = s.spelled_all(prefix, projects, n - 1).0;
        let t = s.spelled_all(prefix, projects, n).0;
        let other = prefix + projects[n - 1].0;
        let display = encode_utf8(projects[n - 1].1);
        assert(other == key ==> projects[n - 1].0 == name) by {
            if other == key {
                assert(other.skip(prefix.len() as int) =~= projects[n - 1].0);
                assert(key.skip(prefix.len() as int) =~= name);
            }
        }
        assert forall|d: Seq<u8>| spells(projects, n, name, d) == (spells(projects, n - 1, name, d) || (projects[n
            - 1].0 == name && d == display)) by {
            if spells(projects, n, name, d) {
                let i = choose|i: int|
                    0 <= i < n && (#[trigger] projects[i]).0 == name && encode_utf8(projects[i].1) == d;
                if i < n - 1 {
                    assert(projects[i].0 == name);
                }
            }
            if spells(projects, n - 1, name, d) {
                let i = choose|i: int|
                    0 <= i < n - 1 && (#[trigger] projects[i]).0 == name && encode_utf8(projects[i].1) == d;
                assert(projects[i].0 == name);
            }
            if projects[n - 1].0 == name && d == display {
                assert(projects[n - 1].0 == name);
            }
        }
        bytes_before_irreflexive(display);
        if projects[n - 1].0 == name {
            match u.row(key) {
                None => {
                    assert(t.row(key) == Some(display));
                    assert forall|d: Seq<u8>| #[trigger] spells(projects, n, name, d) implies !bytes_before(
                        d,
                        display,
                    ) by {
                        if spells(projects, n - 1, name, d) {
                            assert(u.row(key) is Some);
                        }
                    }
                },
                Some(current) => {
                    if bytes_before(display, current) {
                        assert(t.row(key) == Some(display));
                        assert forall|d: Seq<u8>| #[trigger] spells(projects, n, name, d) implies !bytes_before(
                            d,
                            display,
                        ) by {
                            if spells(projects, n - 1, name, d) && bytes_before(d, display) {
                                bytes_before_transitive(d, display, current);
                            }
                        }
                        if s.row(key) is Some && bytes_before(s.row(key)->0, display) {
                            bytes_before_transitive(s.row(key)->0, display, current);
                        }
                    } else {
                        assert(t.row(key) == u.row(key));
                    }
                },
            }
        } else {
            assert(t.row(key) == u.row(key));
        }
    } else {
        if s.row(key) is Some {
            bytes_before_irreflexive(s.row(key)->0);
        }
    }
}

/// The spellings that stay do not depend on the order in which an upstream lists its projects.
pub proof fn listing_order_does_not_matter(
    s: TxnState,
    prefix: Seq<char>,
    a: Seq<(Seq<char>, Seq<char>)>,
    b: Seq<(Seq<char>, Seq<char>)>,
    name: Seq<char>,
)
    requires
        forall|p: (Seq<char>, Seq<char>)| a.contains(p) == b.contains(p),
    ensures
        s.spelled_all(prefix, a, a.len() as int).0.row(prefix + name) == s.spelled_all(
            prefix,
            b,
            b.len() as int,
        ).0.row(prefix + name),
{
    let key = prefix + name;
    smallest_spelling_stays(s, prefix, a, a.len() as int, name);
    smallest_spelling_stays(s, prefix, b, b.len() as int, name);
    let x = s.spelled_all(prefix, a, a.len() as int).0.row(key);
    let y = s.spelled_all(prefix, b, b.len() as int).0.row(key);
    assert forall|d: Seq<u8>| #[trigger] spells(a, a.len() as int, name, d) == spells(b, b.len() as int, name, d) by {
        if spells(a, a.len() as int, name, d) {
            let i = choose|i: int|
                0 <= i < a.len() && (#[trigger] a[i]).0 == name && encode_utf8(a[i].1) == d;
            assert(a.contains(a[i]));
            let j = choose|j: int| 0 <= j < b.len() && b[j] == a[i];
            assert(b[j].0 == name);
        }
        if spells(b, b.len() as int, name, d) {
            let i = choose|i: int|
                0 <= i < b.len() && (#[trigger] b[i]).0 == name && encode_utf8(b[i].1) == d;
            assert(b.contains(b[i]));
            let j = choose|j: int| 0 <= j < a.len() && a[j] == b[i];
            assert(a[j].0 == name);
        }
    }
    if x is Some && y is Some {
        let p = x->0;
        let q = y->0;
        assert(!bytes_before(p, q)) by {
            if spells(a, a.len() as int, name, p) {
                assert(spells(b, b.len() as int, name, p));
            }
        }
        assert(!bytes_before(q, p)) by {
            if spells(b, b.len() as int, name, q) {
                assert(spells(a, a.len() as int, name, q));
            }
        }
        bytes_before_total(p, q);
    } else if x is Some {
        if spells(a, a.len() as int, name, x->0) {
            assert(spells(b, b.len() as int, name, x->0));
        }
    } else if y is Some {
        if spells(b, b.len() as int, name, y->0) {
            assert(spells(a, a.len() as int, name, y->0));
        }
    }
}

// ---------------------------------------------------------------------------------------------
// Removing rows
// ---------------------------------------------------------------------------------------------

impl TxnState {
    /// The rows of the first `n` of `keys` are removed, one after the other.
    pub open spec fn erased_all(self, scope: RowScope, keys: Seq<Seq<char>>, n: int) -> TxnState
        decreases n,
    {
        if n <= 0 {
            self
        } else {
            self.erased_all(scope, keys, n - 1).erased(scope, keys[n - 1])
        }
    }
}

/// Remove every row under `prefix`.
pub fn remove_rows_under(txn: &mut DriverTxn, scope: RowScope, prefix: &str)
    ensures
        ({
            let keys = keys_under(old(txn)@.rows, prefix@);
            final(txn)@ == old(txn)@.erased_all(scope, keys, keys.len() as int)
        }),
{
    let ghost start = txn@;
    let entries = txn.prefix(prefix);
    let ghost keys = keys_under(start.rows, prefix@);
    assert(entry_keys(entries@).len() == entries@.len());
    let mut i: usize = 0;
    while i < entries.len()
        invariant
            i <= entries@.len(),
            entries@.len() == keys.len(),
            entry_keys(entries@) == keys,
            txn@ == start.erased_all(scope, keys, i as int),
        decreases entries.len() - i,
    {
        assert(entry_keys(entries@)[i as int] == entries@[i as int].0@);
        let there: bool = txn.remove_row(scope, entries[i].0.as_str());
        i = i + 1;
    }
}

/// Removing keys leaves every other row as it was, and none of theirs.
pub proof fn erased_all_rows(s: TxnState, scope: RowScope, keys: Seq<Seq<char>>, n: int, key: Seq<char>)
    requires
        0 <= n <= keys.len(),
    ensures
        s.erased_all(scope, keys, n).row(key) == (if keys.take(n).contains(key) {
            None
        } else {
            s.row(key)
        }),
    decreases n,
{
    if n > 0 {
        erased_all_rows(s, scope, keys, n - 1, key);
        let fewer = keys.take(n - 1);
        let more = keys.take(n);
        if fewer.contains(key) {
            let i = choose|i: int| 0 <= i < fewer.len() && fewer[i] == key;
            assert(more[i] == key);
        }
        if more.contains(key) && keys[n - 1] != key {
            let i = choose|i: int| 0 <= i < more.len() && more[i] == key;
            assert(fewer[i] == key);
        }
        if keys[n - 1] == key {
            assert(more[n - 1] == key);
        }
    } else {
        assert(keys.take(0).len() == 0);
    }
}

// ---------------------------------------------------------------------------------------------
// Purging a project
// ---------------------------------------------------------------------------------------------

/// Counts of metadata rows a project-cache purge plans or deletes.
#[derive(Debug, Clone, Copy, PartialEq, Eq, Structural)]
pub struct ProjectCachePurgeCounts {
    pub index_pages: usize,
    pub project_records: usize,
    pub project_status_records: usize,
    pub file_url_records: usize,
    pub metadata_records: usize,
}

/// One for a row that is there.
pub open spec fn there(s: TxnState, key: Seq<char>) -> nat {
    if s.rows.contains_key(key) {
        1
    } else {
        0
    }
}

/// How many of the first `n` digests have a row under `prefix`.
pub open spec fn rows_of_digests(s: TxnState, prefix: Seq<char>, digests: Seq<Seq<char>>, n: int) -> nat
    decreases n,
{
    if n <= 0 {
        0
    } else {
        rows_of_digests(s, prefix, digests, n - 1) + there(s, prefix + digests[n - 1])
    }
}

fn count_rows(txn: &DriverTxn, prefix: &str, digests: &Vec<String>) -> (r: usize)
    ensures
        r == rows_of_digests(txn@, prefix@, texts(digests@), digests@.len() as int),
{
    let ghost all = texts(digests@);
    let mut count: usize = 0;
    let mut i: usize = 0;
    while i < digests.len()
        invariant
            i <= digests@.len(),
            all == texts(digests@),
            count <= i,
            count == rows_of_digests(txn@, prefix@, all, i as int),
        decreases digests.len() - i,
    {
        let mut key = prefix.to_owned();
        key.append(digests[i].as_str());
        assert(key@ == prefix@ + all[i as int]);
        if txn.get(key.as_str()).is_some() {
            count = count + 1;
        }
        i = i + 1;
    }
    count
}

fn one_if(txn: &DriverTxn, key: &str) -> (r: usize)
    ensures
        r == there(txn@, key@),
{
    if txn.get(key).is_some() {
        1
    } else {
        0
    }
}

/// The prefix of a project's artifact sources.
pub open spec fn sources_prefix(index: Seq<char>, normalized: Seq<char>) -> Seq<char> {
    key2(FILE_PREFIX@, index, normalized) + "/"@
}

/// What a purge of a project's cache finds: its page, its marker, its status, the sources of the named
/// artifacts, and the named metadata records.
pub fn count_project_cache_purge(
    txn: &DriverTxn,
    index: &str,
    normalized: &str,
    file_digests: &Vec<String>,
    metadata_digests: &Vec<String>,
) -> (r: ProjectCachePurgeCounts)
    ensures
        is_purge_count(txn@, index@, normalized@, texts(file_digests@), texts(metadata_digests@), r),
{
    let mut page = index.to_owned();
    page.append("/");
    page.append(normalized);
    let page_key = index_key(page.as_str());
    let project = project_key(index, normalized);
    let status = project_status_key(index, normalized);
    let sources = super::keys::file_prefix(index, normalized);
    ProjectCachePurgeCounts {
        index_pages: one_if(txn, page_key.as_str()),
        project_records: one_if(txn, project.as_str()),
        project_status_records: one_if(txn, status.as_str()),
        file_url_records: count_rows(txn, sources.as_str(), file_digests),
        metadata_records: count_rows(txn, METADATA_PREFIX, metadata_digests),
    }
}

impl TxnState {
    /// The rows of the first `n` digests under `prefix` are removed.
    pub open spec fn digests_erased(self, prefix: Seq<char>, digests: Seq<Seq<char>>, n: int) -> TxnState
        decreases n,
    {
        if n <= 0 {
            self
        } else {
            self.digests_erased(prefix, digests, n - 1).erased(RowScope::Replicated, prefix + digests[n - 1])
        }
    }

    /// A project's cache is purged: its row goes and is no longer counted, and with it its page, its publications,
    /// its status, and what is kept of the named artifacts.
    pub open spec fn purged(
        self,
        index: Seq<char>,
        normalized: Seq<char>,
        file_digests: Seq<Seq<char>>,
        metadata_digests: Seq<Seq<char>>,
    ) -> Result<TxnState, MetaErrorText> {
        match self.project_removed(RowScope::Replicated, index, normalized) {
            Err(error) => Err(error),
            Ok(s) => Ok(s.cache_erased(index, normalized, file_digests, metadata_digests)),
        }
    }

    /// What is cached of a project besides its row is removed.
    pub open spec fn cache_erased(
        self,
        index: Seq<char>,
        normalized: Seq<char>,
        file_digests: Seq<Seq<char>>,
        metadata_digests: Seq<Seq<char>>,
    ) -> TxnState {
        let page = index + "/"@ + normalized;
        let keys = keys_under(self.rows, key2(PUBLICATION_PREFIX@, index, normalized) + "/"@);
        self.erased_all(RowScope::Replicated, keys, keys.len() as int).erased(
            RowScope::Replicated,
            key1(INDEX_PREFIX@, page),
        ).erased(RowScope::Replicated, key1(FRESHNESS_PREFIX@, page)).erased(
            RowScope::Replicated,
            key2(PROJECT_STATUS_PREFIX@, index, normalized),
        ).digests_erased(
            sources_prefix(index, normalized),
            file_digests,
            file_digests.len() as int,
        ).digests_erased(METADATA_PREFIX@, metadata_digests, metadata_digests.len() as int)
    }
}

fn remove_digests(txn: &mut DriverTxn, prefix: &str, digests: &Vec<String>)
    ensures
        final(txn)@ == old(txn)@.digests_erased(prefix@, texts(digests@), digests@.len() as int),
{
    let ghost start = txn@;
    let ghost all = texts(digests@);
    let mut i: usize = 0;
    while i < digests.len()
        invariant
            i <= digests@.len(),
            all == texts(digests@),
            txn@ == start.digests_erased(prefix@, all, i as int),
        decreases digests.len() - i,
    {
        let mut key = prefix.to_owned();
        key.append(digests[i].as_str());
        assert(key@ == prefix@ + all[i as int]);
        let there: bool = txn.remove_row(RowScope::Replicated, key.as_str());
        i = i + 1;
    }
}

/// Whether `r` says what a purge finds.
pub open spec fn is_purge_count(
    s: TxnState,
    index: Seq<char>,
    normalized: Seq<char>,
    file_digests: Seq<Seq<char>>,
    metadata_digests: Seq<Seq<char>>,
    r: ProjectCachePurgeCounts,
) -> bool {
    &&& r.index_pages == there(s, key1(INDEX_PREFIX@, index + "/"@ + normalized))
    &&& r.project_records == there(s, key2(PROJECTS_PREFIX@, index, normalized))
    &&& r.project_status_records == there(s, key2(PROJECT_STATUS_PREFIX@, index, normalized))
    &&& r.file_url_records == rows_of_digests(
        s,
        sources_prefix(index, normalized),
        file_digests,
        file_digests.len() as int,
    )
    &&& r.metadata_records == rows_of_digests(s, METADATA_PREFIX@, metadata_digests, metadata_digests.len() as int)
}

/// Whether purging a project's cache takes the store from `was` to `now`.
pub open spec fn is_cache_deleted(
    was: TxnState,
    index: Seq<char>,
    normalized: Seq<char>,
    file_digests: Seq<Seq<char>>,
    metadata_digests: Seq<Seq<char>>,
    now: TxnState,
    r: Result<ProjectCachePurgeCounts, MetaError>,
) -> bool {
    match was.purged(index, normalized, file_digests, metadata_digests) {
        Err(error) => r matches Err(e) && e@ == error && now == was,
        Ok(state) => now == state && (r matches Ok(counts) && is_purge_count(
            was,
            index,
            normalized,
            file_digests,
            metadata_digests,
            counts,
        )),
    }
}

/// Purge a project's cache, keeping the index's project count in step, and say what was there.
pub fn delete_project_cache(
    txn: &mut DriverTxn,
    index: &str,
    normalized: &str,
    file_digests: &Vec<String>,
    metadata_digests: &Vec<String>,
) -> (r: Result<ProjectCachePurgeCounts, MetaError>)
    ensures
        is_cache_deleted(old(txn)@, index@, normalized@, texts(file_digests@), texts(metadata_digests@), final(txn)@, r),
{
    let counts = count_project_cache_purge(txn, index, normalized, file_digests, metadata_digests);
    match remove_project_row(txn, RowScope::Replicated, index, normalized) {
        Ok(_) => {},
        Err(error) => {
            return Err(error);
        },
    }
    let mut page = index.to_owned();
    page.append("/");
    page.append(normalized);
    let publications = publication_prefix(index, normalized);
    remove_rows_under(txn, RowScope::Replicated, publications.as_str());
    let page_key = index_key(page.as_str());
    let a: bool = txn.remove_row(RowScope::Replicated, page_key.as_str());
    let overlay = freshness_key(page.as_str());
    let b: bool = txn.remove_row(RowScope::Replicated, overlay.as_str());
    let status = project_status_key(index, normalized);
    let c: bool = txn.remove_row(RowScope::Replicated, status.as_str());
    let sources = super::keys::file_prefix(index, normalized);
    remove_digests(txn, sources.as_str(), file_digests);
    remove_digests(txn, METADATA_PREFIX, metadata_digests);
    Ok(counts)
}

// ---------------------------------------------------------------------------------------------
// Listing projects
// ---------------------------------------------------------------------------------------------

/// What stands behind `prefix` in `key`.
pub open spec fn behind(prefix: Seq<char>, key: Seq<char>) -> Seq<char> {
    key.skip(prefix.len() as int)
}

/// The names under `prefix` and their display names, of the first `n` keys. A row that is not text names
/// nothing.
pub open spec fn displays(
    rows: Map<Seq<char>, Seq<u8>>,
    prefix: Seq<char>,
    keys: Seq<Seq<char>>,
    n: int,
) -> Map<Seq<char>, Seq<char>>
    decreases n,
{
    if n <= 0 {
        Map::empty()
    } else if valid_utf8(rows[keys[n - 1]]) {
        displays(rows, prefix, keys, n - 1).insert(behind(prefix, keys[n - 1]), decode_utf8(rows[keys[n - 1]]))
    } else {
        displays(rows, prefix, keys, n - 1)
    }
}

/// The names under `prefix` and their display names.
pub open spec fn displays_under(rows: Map<Seq<char>, Seq<u8>>, prefix: Seq<char>) -> Map<Seq<char>, Seq<char>> {
    let keys = keys_under(rows, prefix);
    displays(rows, prefix, keys, keys.len() as int)
}

/// The prefix of an index's observed projects.
pub open spec fn observed_prefix(index: Seq<char>) -> Seq<char> {
    PROJECTS_PREFIX@ + index + "/"@
}

/// The projects of an index: the observed ones, and those of the active catalog generation. An observed
/// display name wins over the catalog's.
pub open spec fn project_displays(
    rows: Map<Seq<char>, Seq<u8>>,
    index: Seq<char>,
    active: Option<u64>,
) -> Map<Seq<char>, Seq<char>> {
    let observed = displays_under(rows, observed_prefix(index));
    match active {
        Some(generation) => displays_under(rows, generation_prefix(index, generation)).union_prefer_right(observed),
        None => observed,
    }
}

/// The display names of a map, in the order of the names they belong to.
pub open spec fn display_names(map: Map<Seq<char>, Seq<char>>) -> Seq<Seq<char>> {
    listed(map.dom()).map_values(|k: Seq<char>| map[k])
}

fn add_displays(map: &mut TextMap<String>, txn: &DriverTxn, prefix: &str)
    ensures
        text_values(final(map)@) == text_values(old(map)@).union_prefer_right(displays_under(txn@.rows, prefix@)),
{
    let ghost start = text_values(map@);
    let entries = txn.prefix(prefix);
    let ghost keys = keys_under(txn@.rows, prefix@);
    let skip: usize = prefix.unicode_len();
    assert(entry_keys(entries@).len() == entries@.len());
    let mut i: usize = 0;
    assert(text_values(map@) =~= start.union_prefer_right(Map::empty()));
    while i < entries.len()
        invariant
            i <= entries@.len(),
            skip == prefix@.len(),
            entries@.len() == keys.len(),
            entry_keys(entries@) == keys,
            rows_under(txn@.rows, prefix@, entries@),
            text_values(map@) == start.union_prefer_right(displays(txn@.rows, prefix@, keys, i as int)),
        decreases entries.len() - i,
    {
        assert(entry_keys(entries@)[i as int] == entries@[i as int].0@);
        let key = entries[i].0.as_str();
        let total: usize = key.unicode_len();
        let name = key.substring_char(skip, total);
        assert(name@ =~= behind(prefix@, key@));
        let ghost fewer = displays(txn@.rows, prefix@, keys, i as int);
        let ghost was = map@;
        match utf8_text(bytes_clone(entries[i].1.as_slice())) {
            Some(display) => {
                let ghost text = display@;
                map.insert(name.to_owned(), display);
                assert(text_values(map@) =~= text_values(was).insert(name@, text));
                assert(text_values(map@) =~= start.union_prefer_right(fewer.insert(name@, text)));
            },
            None => {},
        }
        i = i + 1;
    }
}

/// Whether `r` are the display names of an index's projects, sorted.
pub open spec fn are_projects(s: TxnState, index: Seq<char>, active: Option<u64>, r: Seq<Seq<char>>) -> bool {
    &&& in_order(r)
    &&& r.to_multiset() == display_names(project_displays(s.rows, index, active)).to_multiset()
}

/// The display names of an index's projects, sorted. `active` is the generation of the catalog that is
/// served.
pub fn list_projects(txn: &DriverTxn, index: &str, active: Option<u64>) -> (r: Vec<String>)
    ensures
        are_projects(txn@, index@, active, texts(r@)),
{
    let mut map: TextMap<String> = TextMap::new();
    assert(text_values(map@) =~= Map::<Seq<char>, Seq<char>>::empty());
    match active {
        Some(generation) => {
            let prefix = catalog_generation_prefix(index, generation);
            add_displays(&mut map, txn, prefix.as_str());
        },
        None => {},
    }
    let mut prefix = PROJECTS_PREFIX.to_owned();
    prefix.append(index);
    prefix.append("/");
    add_displays(&mut map, txn, prefix.as_str());
    let ghost all = project_displays(txn@.rows, index@, active);
    assert(text_values(map@) =~= all);
    let n: usize = map.len();
    proof {
        listed_is(map.keys());
        assert(all.dom() =~= map@.dom());
    }
    let mut names: Vec<String> = Vec::new();
    let mut i: usize = 0;
    while i < n
        invariant
            i <= n,
            n == map.keys().len(),
            n == map.values().len(),
            all == text_values(map@),
            listed(all.dom()) == map.keys(),
            names@.len() == i,
            forall|j: int| 0 <= j < i ==> (#[trigger] names@[j])@ == display_names(all)[j],
        decreases n - i,
    {
        let name = map.value_at(i).clone();
        assert(display_names(all)[i as int] == name@);
        names.push(name);
        i = i + 1;
    }
    assert(texts(names@) =~= display_names(all));
    sort_texts(names)
}

/// Whether `r` are the first names of the served catalog generation.
pub open spec fn are_catalog_projects(s: TxnState, index: Seq<char>, active: Option<u64>, limit: usize, r: Seq<String>) -> bool {
    match active {
        None => r.len() == 0,
        Some(generation) => {
            let prefix = generation_prefix(index, generation);
            let keys = keys_under(s.rows, prefix);
            &&& r.len() == (if keys.len() < limit {
                keys.len()
            } else {
                limit as nat
            })
            &&& forall|i: int| 0 <= i < r.len() ==> (#[trigger] r[i])@ == behind(prefix, keys[i])
        },
    }
}

/// The first `limit` names of the served catalog generation, in order.
pub fn list_catalog_projects(txn: &DriverTxn, index: &str, active: Option<u64>, limit: usize) -> (r: Vec<String>)
    ensures
        are_catalog_projects(txn@, index@, active, limit, r@),
{
    let mut names: Vec<String> = Vec::new();
    let generation: u64 = match active {
        Some(generation) => generation,
        None => {
            return names;
        },
    };
    let prefix = catalog_generation_prefix(index, generation);
    let skip: usize = prefix.as_str().unicode_len();
    let entries = txn.prefix(prefix.as_str());
    let ghost keys = keys_under(txn@.rows, prefix@);
    assert(entry_keys(entries@).len() == entries@.len());
    let mut i: usize = 0;
    while i < entries.len() && i < limit
        invariant
            i <= entries@.len(),
            i <= limit,
            skip == prefix@.len(),
            entries@.len() == keys.len(),
            entry_keys(entries@) == keys,
            rows_under(txn@.rows, prefix@, entries@),
            names@.len() == i,
            forall|j: int| 0 <= j < i ==> (#[trigger] names@[j])@ == behind(prefix@, keys[j]),
        decreases entries.len() - i,
    {
        assert(entry_keys(entries@)[i as int] == entries@[i as int].0@);
        let key = entries[i].0.as_str();
        let total: usize = key.unicode_len();
        let name = key.substring_char(skip, total);
        assert(name@ =~= behind(prefix@, key@));
        names.push(name.to_owned());
        i = i + 1;
    }
    names
}

} // verus!
