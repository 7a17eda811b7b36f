//! Maps and sets keyed by text, kept in the order of their keys.
use vstd::prelude::*;

use crate::text::{
    before, before_irreflexive, before_total, before_transitive, bytes_clone, text_before, text_eq,
};

verus! {

/// Whether every key stands before the keys that follow it.
pub open spec fn ascending(keys: Seq<Seq<char>>) -> bool {
    forall|i: int, j: int| 0 <= i < j < keys.len() ==> before(#[trigger] keys[i], #[trigger] keys[j])
}

/// Ascending keys hold no key twice.
pub proof fn ascending_distinct(keys: Seq<Seq<char>>)
    requires
        ascending(keys),
    ensures
        keys.no_duplicates(),
{
    assert forall|i: int, j: int| 0 <= i < keys.len() && 0 <= j < keys.len() && i != j implies keys[i]
        != keys[j] by {
        before_irreflexive(keys[i]);
        if i < j {
            assert(before(keys[i], keys[j]));
        } else {
            assert(before(keys[j], keys[i]));
        }
    }
}

/// Two ascending lists of the same keys are the same list.
pub proof fn ascending_unique(a: Seq<Seq<char>>, b: Seq<Seq<char>>)
    requires
        ascending(a),
        ascending(b),
        forall|k: Seq<char>| a.contains(k) == b.contains(k),
    ensures
        a == b,
    decreases a.len(),
{
    if a.len() == 0 {
        if b.len() > 0 {
            assert(b.contains(b[0]));
            assert(a.contains(b[0]));
        }
        assert(a =~= b);
    } else if b.len() == 0 {
        assert(a.contains(a[0]));
        assert(b.contains(a[0]));
    } else {
        let x = a.last();
        let y = b.last();
        assert(a.contains(x));
        assert(b.contains(y));
        let i = choose|i: int| 0 <= i < b.len() && b[i] == x;
        let j = choose|j: int| 0 <= j < a.len() && a[j] == y;
        if i < b.len() - 1 {
            assert(before(b[i], b[b.len() - 1]));
            if j < a.len() - 1 {
                assert(before(a[j], a[a.len() - 1]));
                before_transitive(x, y, x);
            }
            before_irreflexive(x);
        }
        assert(x == y);
        ascending_distinct(a);
        ascending_distinct(b);
        let a2 = a.drop_last();
        let b2 = b.drop_last();
        assert forall|k: Seq<char>| a2.contains(k) == b2.contains(k) by {
            if a2.contains(k) {
                let m = choose|m: int| 0 <= m < a2.len() && a2[m] == k;
                assert(a[m] == k);
                assert(a.contains(k));
                let n = choose|n: int| 0 <= n < b.len() && b[n] == k;
                assert(n != b.len() - 1);
                assert(b2[n] == k);
            }
            if b2.contains(k) {
                let m = choose|m: int| 0 <= m < b2.len() && b2[m] == k;
                assert(b[m] == k);
                assert(b.contains(k));
                let n = choose|n: int| 0 <= n < a.len() && a[n] == k;
                assert(n != a.len() - 1);
                assert(a2[n] == k);
            }
        }
        ascending_unique(a2, b2);
        assert(a =~= a2.push(x));
        assert(b =~= b2.push(y));
    }
}

/// The members of `s`, in order.
pub open spec fn listed(s: Set<Seq<char>>) -> Seq<Seq<char>> {
    choose|l: Seq<Seq<char>>| ascending(l) && l.to_set() == s
}

/// An ascending list is the list of its members.
pub proof fn listed_is(l: Seq<Seq<char>>)
    requires
        ascending(l),
    ensures
        listed(l.to_set()) == l,
{
    let m = listed(l.to_set());
    assert(ascending(l) && l.to_set() == l.to_set());
    assert(ascending(m) && m.to_set() == l.to_set());
    assert forall|k: Seq<char>| l.contains(k) == m.contains(k) by {
        assert(l.to_set().contains(k) == l.contains(k));
        assert(m.to_set().contains(k) == m.contains(k));
    }
    ascending_unique(l, m);
}

/// A map from text to `V` whose entries stand in the order of their keys.
pub struct TextMap<V> {
    entries: Vec<(String, V)>,
}

impl<V> TextMap<V> {
    /// The keys, in order.
    pub closed spec fn keys(self) -> Seq<Seq<char>> {
        self.entries@.map_values(|e: (String, V)| e.0@)
    }

    /// The values, in the order of their keys.
    pub closed spec fn values(self) -> Seq<V> {
        self.entries@.map_values(|e: (String, V)| e.1)
    }

    /// The entries as a map.
    pub open spec fn view(self) -> Map<Seq<char>, V> {
        Map::new(
            |k: Seq<char>| self.keys().contains(k),
            |k: Seq<char>| self.values()[self.keys().index_of(k)],
        )
    }

    #[verifier::type_invariant]
    closed spec fn in_order(self) -> bool {
        ascending(self.keys())
    }

    /// Each key leads to its value.
    proof fn entries_of(&self)
        requires
            ascending(self.keys()),
        ensures
            self.keys().len() == self.values().len(),
            self@.dom() == self.keys().to_set(),
            forall|i: int|
                0 <= i < self.keys().len() ==> self@.contains_key(#[trigger] self.keys()[i])
                    && self@[self.keys()[i]] == self.values()[i],
            forall|k: Seq<char>|
                #[trigger] self@.contains_key(k) ==> exists|i: int|
                    0 <= i < self.keys().len() && #[trigger] self.keys()[i] == k && self.values()[i] == self@[k],
    {
        ascending_distinct(self.keys());
        assert(self@.dom() =~= self.keys().to_set());
        assert forall|i: int| 0 <= i < self.keys().len() implies self@.contains_key(#[trigger] self.keys()[i])
            && self@[self.keys()[i]] == self.values()[i] by {
            assert(self.keys().contains(self.keys()[i]));
            let m = self.keys().index_of(self.keys()[i]);
            assert(self.keys()[m] == self.keys()[i]);
            assert(m == i);
        }
        assert forall|k: Seq<char>| #[trigger] self@.contains_key(k) implies exists|i: int|
            0 <= i < self.keys().len() && #[trigger] self.keys()[i] == k && self.values()[i] == self@[k] by {
            assert(self.keys().contains(k));
            let i = choose|i: int| 0 <= i < self.keys().len() && self.keys()[i] == k;
            assert(self.keys()[i] == k && self.values()[i] == self@[k]);
        }
    }

    /// The empty map.
    pub fn new() -> (r: Self)
        ensures
            r@ == Map::<Seq<char>, V>::empty(),
            r.keys() == Seq::<Seq<char>>::empty(),
    {
        let r = TextMap { entries: Vec::new() };
        assert(r.keys() =~= Seq::<Seq<char>>::empty());
        assert(r@ =~= Map::<Seq<char>, V>::empty());
        r
    }

    /// How many entries there are. The keys are in order and each leads to its value.
    pub fn len(&self) -> (n: usize)
        ensures
            n == self.keys().len(),
            n == self.values().len(),
            ascending(self.keys()),
            self@.dom() == self.keys().to_set(),
            forall|i: int|
                0 <= i < self.keys().len() ==> self@.contains_key(#[trigger] self.keys()[i])
                    && self@[self.keys()[i]] == self.values()[i],
            forall|k: Seq<char>|
                #[trigger] self@.contains_key(k) ==> exists|i: int|
                    0 <= i < self.keys().len() && #[trigger] self.keys()[i] == k && self.values()[i] == self@[k],
    {
        proof {
            use_type_invariant(self);
            self.entries_of();
        }
        self.entries.len()
    }

    /// The key at position `i`.
    pub fn key_at(&self, i: usize) -> (k: &str)
        requires
            i < self.keys().len(),
        ensures
            k@ == self.keys()[i as int],
            self@.contains_key(k@),
            self@[k@] == self.values()[i as int],
    {
        proof {
            use_type_invariant(self);
            self.entries_of();
        }
        self.entries[i].0.as_str()
    }

    /// The value at position `i`.
    pub fn value_at(&self, i: usize) -> (v: &V)
        requires
            i < self.keys().len(),
        ensures
            *v == self.values()[i as int],
            self@.contains_key(self.keys()[i as int]),
            self@[self.keys()[i as int]] == *v,
    {
        proof {
            use_type_invariant(self);
            self.entries_of();
        }
        &self.entries[i].1
    }

    /// The first position whose key does not stand before `k`.
    fn position(&self, k: &str) -> (i: usize)
        ensures
            i <= self.keys().len(),
            forall|j: int| 0 <= j < i ==> before(#[trigger] self.keys()[j], k@),
            i < self.keys().len() ==> !before(self.keys()[i as int], k@),
    {
        let mut i: usize = 0;
        while i < self.entries.len() && text_before(self.entries[i].0.as_str(), k)
            invariant
                i <= self.keys().len(),
                self.keys().len() == self.entries@.len(),
                forall|j: int| 0 <= j < i ==> before(#[trigger] self.keys()[j], k@),
            decreases self.entries.len() - i,
        {
            i = i + 1;
        }
        i
    }

    proof fn absent_from(&self, k: Seq<char>, i: int)
        requires
            ascending(self.keys()),
            0 <= i <= self.keys().len(),
            forall|j: int| 0 <= j < i ==> before(#[trigger] self.keys()[j], k),
            i < self.keys().len() ==> before(k, self.keys()[i]),
        ensures
            !self.keys().contains(k),
    {
        if self.keys().contains(k) {
            let m = choose|m: int| 0 <= m < self.keys().len() && self.keys()[m] == k;
            before_irreflexive(k);
            if m > i {
                before_transitive(k, self.keys()[i], self.keys()[m]);
            }
        }
    }

    /// The value of `k`.
    pub fn get(&self, k: &str) -> (r: Option<&V>)
        ensures
            match r {
                Some(v) => self@.contains_key(k@) && self@[k@] == *v,
                None => !self@.contains_key(k@),
            },
    {
        proof {
            use_type_invariant(self);
            self.entries_of();
        }
        let i: usize = self.position(k);
        if i < self.entries.len() && text_eq(self.entries[i].0.as_str(), k) {
            assert(self.keys()[i as int] == k@);
            Some(&self.entries[i].1)
        } else {
            proof {
                if i < self.keys().len() {
                    before_total(self.keys()[i as int], k@);
                }
                self.absent_from(k@, i as int);
            }
            None
        }
    }

    /// Whether `k` has a value.
    pub fn contains_key(&self, k: &str) -> (r: bool)
        ensures
            r == self@.contains_key(k@),
    {
        self.get(k).is_some()
    }

    /// Give `k` the value `v`, in place of the one it had.
    pub fn insert(&mut self, k: String, v: V)
        ensures
            final(self)@ == old(self)@.insert(k@, v),
    {
        proof {
            use_type_invariant(&*self);
            self.entries_of();
        }
        let ghost before_self = *self;
        let ghost key = k@;
        let i: usize = self.position(k.as_str());
        let present: bool = i < self.entries.len() && text_eq(self.entries[i].0.as_str(), k.as_str());
        let mut entries: Vec<(String, V)> = Vec::new();
        core::mem::swap(&mut self.entries, &mut entries);
        if present {
            entries.set(i, (k, v));
        } else {
            proof {
                if i < before_self.keys().len() {
                    before_total(before_self.keys()[i as int], key);
                }
                before_self.absent_from(key, i as int);
            }
            entries.insert(i, (k, v));
        }
        let ghost after = TextMap { entries };
        proof {
            if present {
                assert(after.keys() =~= before_self.keys());
            } else {
                assert(after.keys() =~= before_self.keys().insert(i as int, key));
                assert forall|a: int, b: int| 0 <= a < b < after.keys().len() implies before(
                    #[trigger] after.keys()[a],
                    #[trigger] after.keys()[b],
                ) by {
                    let x = if a < i { a } else { a - 1 };
                    let y = if b < i { b } else { b - 1 };
                    if a == i {
                        if i < y {
                            before_transitive(key, before_self.keys()[i as int], before_self.keys()[y]);
                        }
                    } else if b == i {
                    } else {
                        assert(before(before_self.keys()[x], before_self.keys()[y]));
                    }
                }
            }
            after.entries_of();
            assert(after.keys()[i as int] == key);
            assert(after.values()[i as int] == v);
            assert forall|q: Seq<char>| after@.contains_key(q) == before_self@.insert(key, v).contains_key(q) by {
                if before_self@.contains_key(q) {
                    let m = choose|m: int| 0 <= m < before_self.keys().len() && before_self.keys()[m] == q;
                    let n = if present || m < i { m } else { m + 1 };
                    assert(after.keys()[n] == q);
                }
                if after@.contains_key(q) && q != key {
                    let m = choose|m: int| 0 <= m < after.keys().len() && after.keys()[m] == q;
                    let n = if present || m < i { m } else { m - 1 };
                    assert(before_self.keys()[n] == q);
                }
            }
            assert forall|q: Seq<char>| after@.contains_key(q) implies after@[q] == before_self@.insert(key, v)[q] by {
                if q != key {
                    let m = choose|m: int|
                        0 <= m < after.keys().len() && #[trigger] after.keys()[m] == q && after.values()[m] == after@[q];
                    let n = if present || m < i { m } else { m - 1 };
                    assert(before_self.keys()[n] == q);
                    assert(before_self.values()[n] == after.values()[m]);
                }
            }
            assert(after@ =~= before_self@.insert(key, v));
        }
        self.entries = entries;
    }

    /// Take the entry of `k` out.
    pub fn remove(&mut self, k: &str) -> (r: Option<V>)
        ensures
            final(self)@ == old(self)@.remove(k@),
            match r {
                Some(v) => old(self)@.contains_key(k@) && old(self)@[k@] == v,
                None => !old(self)@.contains_key(k@),
            },
    {
        proof {
            use_type_invariant(&*self);
            self.entries_of();
        }
        let ghost before_self = *self;
        let ghost key = k@;
        let i: usize = self.position(k);
        let present: bool = i < self.entries.len() && text_eq(self.entries[i].0.as_str(), k);
        if !present {
            proof {
                if i < before_self.keys().len() {
                    before_total(before_self.keys()[i as int], key);
                }
                before_self.absent_from(key, i as int);
                assert(before_self@.remove(key) =~= before_self@);
            }
            return None;
        }
        let mut entries: Vec<(String, V)> = Vec::new();
        core::mem::swap(&mut self.entries, &mut entries);
        let (_, v) = entries.remove(i);
        let ghost after = TextMap { entries };
        proof {
            assert(before_self.keys()[i as int] == key);
            assert(after.keys() =~= before_self.keys().remove(i as int));
            assert forall|a: int, b: int| 0 <= a < b < after.keys().len() implies before(
                #[trigger] after.keys()[a],
                #[trigger] after.keys()[b],
            ) by {
                let x = if a < i { a } else { a + 1 };
                let y = if b < i { b } else { b + 1 };
                assert(before(before_self.keys()[x], before_self.keys()[y]));
            }
            after.entries_of();
            ascending_distinct(before_self.keys());
            assert forall|q: Seq<char>| after@.contains_key(q) == before_self@.remove(key).contains_key(q) by {
                if before_self@.contains_key(q) && q != key {
                    let m = choose|m: int| 0 <= m < before_self.keys().len() && before_self.keys()[m] == q;
                    let n = if m < i { m } else { m - 1 };
                    assert(after.keys()[n] == q);
                }
                if after@.contains_key(q) {
                    let m = choose|m: int| 0 <= m < after.keys().len() && after.keys()[m] == q;
                    let n = if m < i { m } else { m + 1 };
                    assert(before_self.keys()[n] == q);
                }
            }
            assert forall|q: Seq<char>| after@.contains_key(q) implies after@[q] == before_self@.remove(key)[q] by {
                let m = choose|m: int|
                    0 <= m < after.keys().len() && #[trigger] after.keys()[m] == q && after.values()[m] == after@[q];
                let n = if m < i { m } else { m + 1 };
                assert(before_self.keys()[n] == q);
                assert(before_self.values()[n] == after.values()[m]);
            }
            assert(after@ =~= before_self@.remove(key));
        }
        self.entries = entries;
        Some(v)
    }
}

impl TextMap<Vec<u8>> {
    /// A copy.
    pub fn copied(&self) -> (r: Self)
        ensures
            r.keys() == self.keys(),
            r@.dom() == self@.dom(),
            forall|k: Seq<char>| #[trigger] r@.contains_key(k) ==> r@[k]@ == self@[k]@,
    {
        proof {
            use_type_invariant(self);
            self.entries_of();
        }
        let mut entries: Vec<(String, Vec<u8>)> = Vec::new();
        let mut i: usize = 0;
        while i < self.entries.len()
            invariant
                i <= self.entries@.len(),
                entries@.len() == i,
                forall|j: int|
                    0 <= j < i ==> (#[trigger] entries@[j]).0@ == self.entries@[j].0@ && entries@[j].1@
                        == self.entries@[j].1@,
            decreases self.entries.len() - i,
        {
            let value = bytes_clone(self.entries[i].1.as_slice());
            entries.push((self.entries[i].0.clone(), value));
            i = i + 1;
        }
        let ghost keys = entries@.map_values(|e: (String, Vec<u8>)| e.0@);
        assert(keys =~= self.keys());
        let r = TextMap { entries };
        proof {
            assert(r.keys() =~= self.keys());
            r.entries_of();
            assert forall|k: Seq<char>| #[trigger] r@.contains_key(k) implies r@[k]@ == self@[k]@ by {
                let n = choose|n: int| 0 <= n < r.keys().len() && #[trigger] r.keys()[n] == k && r.values()[n] == r@[k];
                assert(self@[self.keys()[n]] == self.values()[n]);
                assert(r.values()[n] == r.entries@[n].1 && self.values()[n] == self.entries@[n].1);
            }
        }
        r
    }
}

/// A set of texts, kept in order.
pub struct TextSet {
    members: TextMap<()>,
}

impl TextSet {
    /// The members.
    pub closed spec fn view(self) -> Set<Seq<char>> {
        self.members@.dom()
    }

    /// The members, in order.
    pub closed spec fn list(self) -> Seq<Seq<char>> {
        self.members.keys()
    }

    /// The empty set.
    pub fn new() -> (r: Self)
        ensures
            r@ == Set::<Seq<char>>::empty(),
    {
        let r = TextSet { members: TextMap::new() };
        assert(r@ =~= Set::<Seq<char>>::empty());
        r
    }

    /// How many members there are. The list is in order and holds each member once.
    pub fn len(&self) -> (n: usize)
        ensures
            n == self.list().len(),
            ascending(self.list()),
            self.list().to_set() == self@,
            self.list().no_duplicates(),
            self.list() == listed(self@),
    {
        let n: usize = self.members.len();
        proof {
            ascending_distinct(self.list());
            listed_is(self.list());
        }
        n
    }

    /// The member at position `i`.
    pub fn at(&self, i: usize) -> (k: &str)
        requires
            i < self.list().len(),
        ensures
            k@ == self.list()[i as int],
            self@.contains(k@),
    {
        self.members.key_at(i)
    }

    /// Whether `k` is a member.
    pub fn contains(&self, k: &str) -> (r: bool)
        ensures
            r == self@.contains(k@),
    {
        self.members.contains_key(k)
    }

    /// Add `k`; say whether it was new.
    pub fn insert(&mut self, k: String) -> (r: bool)
        ensures
            final(self)@ == old(self)@.insert(k@),
            r == !old(self)@.contains(k@),
    {
        let fresh: bool = !self.members.contains_key(k.as_str());
        let ghost was = *self;
        let ghost key = k@;
        self.members.insert(k, ());
        assert(self@ =~= was@.insert(key));
        fresh
    }

    /// The members as a list, in order.
    pub fn to_list(&self) -> (r: Vec<String>)
        ensures
            crate::text::texts(r@) == self.list(),
            self.list() == listed(self@),
            ascending(self.list()),
            self.list().to_set() == self@,
    {
        let n: usize = self.len();
        let mut out: Vec<String> = Vec::new();
        let mut i: usize = 0;
        while i < n
            invariant
                i <= n,
                n == self.list().len(),
                crate::text::texts(out@) =~= self.list().take(i as int),
            decreases self.list().len() - i,
        {
            let member: String = self.at(i).to_owned();
            let ghost so_far = out@;
            out.push(member);
            i = i + 1;
            assert(crate::text::texts(out@) =~= crate::text::texts(so_far).push(member@));
        }
        assert(self.list().take(i as int) =~= self.list());
        out
    }
}

} // verus!
