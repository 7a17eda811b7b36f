//! A transaction over the store's rows: what it reads, and what it writes.
use vstd::prelude::*;

use crate::collections::{ascending, listed, listed_is, TextMap};
use crate::text::{bytes_clone, starts_with, texts};

verus! {

/// Whether a row travels with the row it describes or stays on the node that wrote it.
///
/// A hosted index's rows are journaled, so a replica applies them verbatim; a cached index's are written
/// by whichever node fetched the page and are journaled by nobody.
#[derive(Debug, Clone, Copy, PartialEq, Eq, Structural)]
pub enum RowScope {
    Replicated,
    Local,
}

/// One write of a transaction: the value a key is given, or nothing when its row is removed.
pub struct DriverWrite {
    pub scope: RowScope,
    pub key: String,
    pub value: Option<Vec<u8>>,
}

/// A write, its text seen as characters.
pub struct WriteText {
    pub scope: RowScope,
    pub key: Seq<char>,
    pub value: Option<Seq<u8>>,
}

impl DriverWrite {
    pub open spec fn view(self) -> WriteText {
        WriteText {
            scope: self.scope,
            key: self.key@,
            value: match self.value {
                Some(value) => Some(value@),
                None => None,
            },
        }
    }

    fn copied(&self) -> (r: Self)
        ensures
            r@ == self@,
    {
        let value: Option<Vec<u8>> = match &self.value {
            Some(value) => Some(bytes_clone(value.as_slice())),
            None => None,
        };
        DriverWrite { scope: self.scope, key: self.key.clone(), value }
    }
}

/// The rows of a store.
pub open spec fn row_texts(rows: Map<Seq<char>, Vec<u8>>) -> Map<Seq<char>, Seq<u8>> {
    rows.map_values(|v: Vec<u8>| v@)
}

/// Where a transaction stands: the rows as it sees them, the writes it made in order, the indexes whose
/// policy inputs it touched, the blobs it referenced, and the webhook events it queued.
pub struct TxnState {
    pub rows: Map<Seq<char>, Seq<u8>>,
    pub writes: Seq<WriteText>,
    pub touched: Seq<Seq<char>>,
    pub blobs: Seq<(Seq<char>, u64)>,
    pub webhooks: Seq<Seq<u8>>,
}

impl TxnState {
    /// The key has been given the value.
    pub open spec fn wrote(self, scope: RowScope, key: Seq<char>, value: Seq<u8>) -> TxnState {
        TxnState {
            rows: self.rows.insert(key, value),
            writes: self.writes.push(WriteText { scope, key, value: Some(value) }),
            ..self
        }
    }

    /// The key's row has been removed. Removing a row that is not there writes nothing.
    pub open spec fn erased(self, scope: RowScope, key: Seq<char>) -> TxnState {
        if self.rows.contains_key(key) {
            TxnState {
                rows: self.rows.remove(key),
                writes: self.writes.push(WriteText { scope, key, value: None }),
                ..self
            }
        } else {
            self
        }
    }

    pub open spec fn touched(self, index: Seq<char>) -> TxnState {
        TxnState { touched: self.touched.push(index), ..self }
    }

    pub open spec fn referenced(self, sha256: Seq<char>, size: u64) -> TxnState {
        TxnState { blobs: self.blobs.push((sha256, size)), ..self }
    }

    /// The row of `key`.
    pub open spec fn row(self, key: Seq<char>) -> Option<Seq<u8>> {
        if self.rows.contains_key(key) {
            Some(self.rows[key])
        } else {
            None
        }
    }
}

/// The optional bytes.
pub open spec fn opt_bytes(v: Option<Vec<u8>>) -> Option<Seq<u8>> {
    match v {
        Some(v) => Some(v@),
        None => None,
    }
}

/// The optional bytes.
pub open spec fn opt_slice(v: Option<&[u8]>) -> Option<Seq<u8>> {
    match v {
        Some(v) => Some(v@),
        None => None,
    }
}

/// Borrow optional bytes.
pub fn opt_as_slice(v: &Option<Vec<u8>>) -> (r: Option<&[u8]>)
    ensures
        opt_slice(r) == opt_bytes(*v),
{
    match v {
        Some(v) => Some(v.as_slice()),
        None => None,
    }
}

/// The keys under `prefix`, in order.
pub open spec fn keys_under(rows: Map<Seq<char>, Seq<u8>>, prefix: Seq<char>) -> Seq<Seq<char>> {
    listed(rows.dom().filter(|k: Seq<char>| prefix.is_prefix_of(k)))
}

/// The keys of a list of rows.
pub open spec fn entry_keys(entries: Seq<(String, Vec<u8>)>) -> Seq<Seq<char>> {
    entries.map_values(|e: (String, Vec<u8>)| e.0@)
}

/// Whether `entries` are the rows under `prefix`, in the order of their keys.
pub open spec fn rows_under(
    rows: Map<Seq<char>, Seq<u8>>,
    prefix: Seq<char>,
    entries: Seq<(String, Vec<u8>)>,
) -> bool {
    &&& entry_keys(entries) == keys_under(rows, prefix)
    &&& forall|i: int|
        0 <= i < entries.len() ==> rows.contains_key((#[trigger] entries[i]).0@) && rows[entries[i].0@]
            == entries[i].1@ && prefix.is_prefix_of(entries[i].0@)
}

/// A transaction over the rows it was given.
pub struct DriverTxn {
    rows: TextMap<Vec<u8>>,
    writes: Vec<DriverWrite>,
    touched: Vec<String>,
    blobs: Vec<(String, u64)>,
    webhooks: Vec<Vec<u8>>,
}

/// Blobs, their digests seen as characters.
pub open spec fn blob_texts(blobs: Seq<(String, u64)>) -> Seq<(Seq<char>, u64)> {
    blobs.map_values(|b: (String, u64)| (b.0@, b.1))
}

/// Byte strings, seen as sequences.
pub open spec fn byte_seqs(list: Seq<Vec<u8>>) -> Seq<Seq<u8>> {
    list.map_values(|v: Vec<u8>| v@)
}

impl DriverTxn {
    pub closed spec fn view(self) -> TxnState {
        TxnState {
            rows: row_texts(self.rows@),
            writes: self.writes@.map_values(|w: DriverWrite| w@),
            touched: texts(self.touched@),
            blobs: blob_texts(self.blobs@),
            webhooks: byte_seqs(self.webhooks@),
        }
    }

    /// A transaction that has written nothing.
    pub fn new(rows: TextMap<Vec<u8>>) -> (r: Self)
        ensures
            r@ == (TxnState {
                rows: row_texts(rows@),
                writes: Seq::empty(),
                touched: Seq::empty(),
                blobs: Seq::empty(),
                webhooks: Seq::empty(),
            }),
    {
        let r = DriverTxn {
            rows,
            writes: Vec::new(),
            touched: Vec::new(),
            blobs: Vec::new(),
            webhooks: Vec::new(),
        };
        assert(r@.writes =~= Seq::<WriteText>::empty());
        assert(r@.touched =~= Seq::<Seq<char>>::empty());
        assert(r@.blobs =~= Seq::<(Seq<char>, u64)>::empty());
        assert(r@.webhooks =~= Seq::<Seq<u8>>::empty());
        r
    }

    /// The transaction as it stands, to return to when what follows fails.
    pub fn savepoint(&self) -> (r: Self)
        ensures
            r@ == self@,
    {
        let rows = self.rows.copied();
        assert(row_texts(rows@) =~= row_texts(self.rows@));
        let mut writes: Vec<DriverWrite> = Vec::new();
        let mut i: usize = 0;
        while i < self.writes.len()
            invariant
                i <= self.writes@.len(),
                writes@.len() == i,
                forall|j: int| 0 <= j < i ==> (#[trigger] writes@[j])@ == self.writes@[j]@,
            decreases self.writes.len() - i,
        {
            writes.push(self.writes[i].copied());
            i = i + 1;
        }
        let mut touched: Vec<String> = Vec::new();
        let mut i: usize = 0;
        while i < self.touched.len()
            invariant
                i <= self.touched@.len(),
                touched@.len() == i,
                forall|j: int| 0 <= j < i ==> (#[trigger] touched@[j])@ == self.touched@[j]@,
            decreases self.touched.len() - i,
        {
            touched.push(self.touched[i].clone());
            i = i + 1;
        }
        let mut blobs: Vec<(String, u64)> = Vec::new();
        let mut i: usize = 0;
        while i < self.blobs.len()
            invariant
                i <= self.blobs@.len(),
                blobs@.len() == i,
                forall|j: int|
                    0 <= j < i ==> (#[trigger] blobs@[j]).0@ == self.blobs@[j].0@ && blobs@[j].1 == self.blobs@[j].1,
            decreases self.blobs.len() - i,
        {
            blobs.push((self.blobs[i].0.clone(), self.blobs[i].1));
            i = i + 1;
        }
        let mut webhooks: Vec<Vec<u8>> = Vec::new();
        let mut i: usize = 0;
        while i < self.webhooks.len()
            invariant
                i <= self.webhooks@.len(),
                webhooks@.len() == i,
                forall|j: int| 0 <= j < i ==> (#[trigger] webhooks@[j])@ == self.webhooks@[j]@,
            decreases self.webhooks.len() - i,
        {
            webhooks.push(bytes_clone(self.webhooks[i].as_slice()));
            i = i + 1;
        }
        let r = DriverTxn { rows, writes, touched, blobs, webhooks };
        assert(r@.writes =~= self@.writes);
        assert(r@.touched =~= self@.touched);
        assert(r@.blobs =~= self@.blobs);
        assert(r@.webhooks =~= self@.webhooks);
        r
    }

    /// The writes, in order.
    pub fn into_writes(self) -> (r: Vec<DriverWrite>)
        ensures
            r@.map_values(|w: DriverWrite| w@) == self@.writes,
    {
        self.writes
    }

    /// The row of `key`.
    pub fn get(&self, key: &str) -> (r: Option<Vec<u8>>)
        ensures
            opt_bytes(r) == self@.row(key@),
    {
        match self.rows.get(key) {
            Some(value) => Some(bytes_clone(value.as_slice())),
            None => None,
        }
    }

    /// Give `key` the value; say whether its row is new.
    pub fn write_row(&mut self, scope: RowScope, key: &str, value: &[u8]) -> (r: bool)
        ensures
            final(self)@ == old(self)@.wrote(scope, key@, value@),
            r == !old(self)@.rows.contains_key(key@),
    {
        let fresh: bool = !self.rows.contains_key(key);
        let ghost before_rows = self.rows@;
        let ghost before_writes = self@.writes;
        let stored = bytes_clone(value);
        self.rows.insert(key.to_owned(), stored);
        let write = DriverWrite { scope, key: key.to_owned(), value: Some(bytes_clone(value)) };
        self.writes.push(write);
        assert(row_texts(self.rows@) =~= row_texts(before_rows).insert(key@, value@));
        assert(self@.writes =~= before_writes.push(write@));
        fresh
    }

    /// Remove the row of `key`; say whether it was there.
    pub fn remove_row(&mut self, scope: RowScope, key: &str) -> (r: bool)
        ensures
            final(self)@ == old(self)@.erased(scope, key@),
            r == old(self)@.rows.contains_key(key@),
    {
        let ghost before_rows = self.rows@;
        let ghost before_writes = self@.writes;
        match self.rows.remove(key) {
            Some(_) => {
                let write = DriverWrite { scope, key: key.to_owned(), value: None };
                self.writes.push(write);
                assert(row_texts(self.rows@) =~= row_texts(before_rows).remove(key@));
                assert(self@.writes =~= before_writes.push(write@));
                true
            },
            None => {
                assert(self.rows@ =~= before_rows);
                false
            },
        }
    }

    /// Note that the policy inputs of `index` changed.
    pub fn touch_policy_inputs(&mut self, index: &str)
        ensures
            final(self)@ == old(self)@.touched(index@),
    {
        let ghost before = texts(self.touched@);
        let name = index.to_owned();
        self.touched.push(name);
        assert(texts(self.touched@) =~= before.push(index@));
    }

    /// Note that a blob is referenced.
    pub fn reference_blob(&mut self, sha256: &str, size: u64)
        ensures
            final(self)@ == old(self)@.referenced(sha256@, size),
    {
        let ghost before = self@.blobs;
        self.blobs.push((sha256.to_owned(), size));
        assert(self@.blobs =~= before.push((sha256@, size)));
    }

    /// Queue a webhook event.
    pub fn enqueue_webhook_event(&mut self, event: Vec<u8>)
        ensures
            final(self)@ == (TxnState { webhooks: old(self)@.webhooks.push(event@), ..old(self)@ }),
    {
        let ghost before = self@.webhooks;
        self.webhooks.push(event);
        assert(self@.webhooks =~= before.push(event@));
    }

    /// The rows under `prefix`, in the order of their keys.
    pub fn prefix(&self, prefix: &str) -> (r: Vec<(String, Vec<u8>)>)
        ensures
            rows_under(self@.rows, prefix@, r@),
    {
        let mut out: Vec<(String, Vec<u8>)> = Vec::new();
        let n: usize = self.rows.len();
        let ghost keys = self.rows.keys();
        let ghost under = |k: Seq<char>| prefix@.is_prefix_of(k);
        let mut i: usize = 0;
        reveal(Seq::filter);
        assert(keys.take(0).filter(under) =~= Seq::<Seq<char>>::empty());
        assert(entry_keys(out@) =~= Seq::<Seq<char>>::empty());
        while i < n
            invariant
                i <= n,
                n == keys.len(),
                n == self.rows.values().len(),
                keys == self.rows.keys(),
                under == (|k: Seq<char>| prefix@.is_prefix_of(k)),
                forall|j: int|
                    0 <= j < keys.len() ==> self.rows@.contains_key(#[trigger] keys[j]) && self.rows@[keys[j]]
                        == self.rows.values()[j],
                entry_keys(out@) == keys.take(i as int).filter(under),
                forall|j: int|
                    0 <= j < out@.len() ==> self@.rows.contains_key((#[trigger] out@[j]).0@)
                        && self@.rows[out@[j].0@] == out@[j].1@ && prefix@.is_prefix_of(out@[j].0@),
            decreases n - i,
        {
            reveal(Seq::filter);
            let key = self.rows.key_at(i);
            assert(keys.take(i + 1).drop_last() =~= keys.take(i as int));
            assert(keys.take(i + 1).last() == key@);
            if starts_with(key, prefix) {
                let ghost so_far = out@;
                let entry = (key.to_owned(), bytes_clone(self.rows.value_at(i).as_slice()));
                out.push(entry);
                assert(entry_keys(out@) =~= entry_keys(so_far).push(key@));
            }
            i = i + 1;
        }
        proof {
            assert(keys.take(n as int) =~= keys);
            filtered_is_listed(keys, under);
            assert(self@.rows.dom() =~= keys.to_set());
            assert(keys.to_set().filter(under) =~= self@.rows.dom().filter(under));
        }
        out
    }
}

/// Filtering an ascending list lists what the filter leaves of its members.
pub proof fn filtered_is_listed(keys: Seq<Seq<char>>, keep: spec_fn(Seq<char>) -> bool)
    requires
        ascending(keys),
    ensures
        keys.filter(keep) == listed(keys.to_set().filter(keep)),
{
    let kept = keys.filter(keep);
    filtered_ascends(keys, keep);
    assert forall|k: Seq<char>| kept.to_set().contains(k) == keys.to_set().filter(keep).contains(k) by {
        filtered_members(keys, keep, k);
    }
    assert(kept.to_set() =~= keys.to_set().filter(keep));
    listed_is(kept);
}

/// A filter keeps exactly the members that pass.
pub proof fn filtered_members(keys: Seq<Seq<char>>, keep: spec_fn(Seq<char>) -> bool, k: Seq<char>)
    ensures
        keys.filter(keep).contains(k) == (keys.contains(k) && keep(k)),
    decreases keys.len(),
{
    reveal(Seq::filter);
    if keys.len() > 0 {
        let fewer = keys.drop_last();
        let kept = fewer.filter(keep);
        filtered_members(fewer, keep, k);
        if keys.contains(k) {
            let i = choose|i: int| 0 <= i < keys.len() && keys[i] == k;
            if i < fewer.len() {
                assert(fewer[i] == k);
            }
        }
        if fewer.contains(k) {
            let i = choose|i: int| 0 <= i < fewer.len() && fewer[i] == k;
            assert(keys[i] == k);
        }
        if keep(keys.last()) {
            let all = kept.push(keys.last());
            if kept.contains(k) {
                let i = choose|i: int| 0 <= i < kept.len() && kept[i] == k;
                assert(all[i] == k);
            }
            if k == keys.last() {
                assert(all[kept.len() as int] == k);
            }
            if all.contains(k) && k != keys.last() {
                let i = choose|i: int| 0 <= i < all.len() && all[i] == k;
                assert(kept[i] == k);
            }
        }
        assert(keys[keys.len() - 1] == keys.last());
    }
}

/// A filter keeps the order.
pub proof fn filtered_ascends(keys: Seq<Seq<char>>, keep: spec_fn(Seq<char>) -> bool)
    requires
        ascending(keys),
    ensures
        ascending(keys.filter(keep)),
    decreases keys.len(),
{
    reveal(Seq::filter);
    if keys.len() > 0 {
        let fewer = keys.drop_last();
        let kept = fewer.filter(keep);
        filtered_ascends(fewer, keep);
        if keep(keys.last()) {
            let all = kept.push(keys.last());
            assert forall|i: int, j: int| 0 <= i < j < all.len() implies crate::text::before(
                #[trigger] all[i],
                #[trigger] all[j],
            ) by {
                if j == kept.len() {
                    filtered_members(fewer, keep, kept[i]);
                    assert(kept.contains(kept[i]));
                    let m = choose|m: int| 0 <= m < fewer.len() && fewer[m] == kept[i];
                    assert(crate::text::before(keys[m], keys[keys.len() - 1]));
                }
            }
        }
    }
}

/// A finite set of texts can be listed in order.
pub proof fn finite_sets_are_listed(s: Set<Seq<char>>)
    requires
        s.finite(),
    ensures
        ascending(listed(s)),
        listed(s).to_set() == s,
    decreases s.len(),
{
    if s.len() == 0 {
        let none = Seq::<Seq<char>>::empty();
        assert(none.to_set() =~= s);
        listed_is(none);
    } else {
        let x = s.choose();
        let rest = s.remove(x);
        finite_sets_are_listed(rest);
        let l = listed(rest);
        let low = |k: Seq<char>| crate::text::before(k, x);
        let high = |k: Seq<char>| crate::text::before(x, k);
        let a = l.filter(low);
        let b = l.filter(high);
        filtered_ascends(l, low);
        filtered_ascends(l, high);
        let all = a + seq![x] + b;
        assert forall|i: int, j: int| 0 <= i < j < all.len() implies crate::text::before(
            #[trigger] all[i],
            #[trigger] all[j],
        ) by {
            if i < a.len() {
                assert(a.contains(a[i]));
                filtered_members(l, low, a[i]);
            }
            if j > a.len() {
                let m = j - a.len() - 1;
                assert(b.contains(b[m]));
                filtered_members(l, high, b[m]);
                if i < a.len() {
                    crate::text::before_transitive(a[i], x, b[m]);
                }
            }
        }
        assert forall|k: Seq<char>| all.to_set().contains(k) == s.contains(k) by {
            filtered_members(l, low, k);
            filtered_members(l, high, k);
            crate::text::before_total(k, x);
            assert(l.to_set().contains(k) == l.contains(k));
            if a.contains(k) {
                let i = choose|i: int| 0 <= i < a.len() && a[i] == k;
                assert(all[i] == k);
            }
            if b.contains(k) {
                let i = choose|i: int| 0 <= i < b.len() && b[i] == k;
                assert(all[a.len() + 1 + i] == k);
            }
            if k == x {
                assert(all[a.len() as int] == k);
            }
            if all.contains(k) {
                let i = choose|i: int| 0 <= i < all.len() && all[i] == k;
                if i < a.len() {
                    assert(a[i] == k);
                    assert(a.contains(k));
                } else if i > a.len() {
                    assert(b[i - a.len() - 1] == k);
                    assert(b.contains(k));
                }
            }
        }
        assert(all.to_set() =~= s);
        listed_is(all);
    }
}

/// The keys under a prefix are exactly the rows' keys that begin with it.
pub proof fn rows_are_under(rows: Map<Seq<char>, Seq<u8>>, prefix: Seq<char>, key: Seq<char>)
    requires
        rows.dom().finite(),
    ensures
        keys_under(rows, prefix).contains(key) == (rows.contains_key(key) && prefix.is_prefix_of(key)),
{
    let under = rows.dom().filter(|k: Seq<char>| prefix.is_prefix_of(k));
    finite_sets_are_listed(under);
    assert(keys_under(rows, prefix).to_set().contains(key) == under.contains(key));
}

} // verus!
