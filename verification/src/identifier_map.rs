//! A map keyed by identifier that keeps its entries in identifier order.

use crate::identifier::{
    lemma_precedes_irreflexive, lemma_precedes_total, lemma_precedes_transitive, precedes,
    Identifier,
};
use vstd::prelude::*;

verus! {

/// Entries whose keys strictly increase in identifier order.
pub open spec fn sorted<T>(entries: Seq<(Seq<u8>, T)>) -> bool {
    forall|i: int, j: int|
        0 <= i < j < entries.len() ==> precedes(
            (#[trigger] entries[i]).0,
            (#[trigger] entries[j]).0,
        )
}

/// Whether some entry has the given key.
pub open spec fn has_key<T>(entries: Seq<(Seq<u8>, T)>, key: Seq<u8>) -> bool {
    exists|i: int| 0 <= i < entries.len() && (#[trigger] entries[i]).0 == key
}

/// An index at which `key` occurs, where it occurs at all.
pub open spec fn position<T>(entries: Seq<(Seq<u8>, T)>, key: Seq<u8>) -> int {
    choose|i: int| 0 <= i < entries.len() && (#[trigger] entries[i]).0 == key
}

/// The map that a list of entries stands for.
pub open spec fn to_map<T>(entries: Seq<(Seq<u8>, T)>) -> Map<Seq<u8>, T> {
    Map::new(|k: Seq<u8>| has_key(entries, k), |k: Seq<u8>| entries[position(entries, k)].1)
}

/// In a sorted list no key occurs twice.
pub proof fn lemma_sorted_distinct<T>(entries: Seq<(Seq<u8>, T)>, i: int, j: int)
    requires
        sorted(entries),
        0 <= i < entries.len(),
        0 <= j < entries.len(),
        entries[i].0 == entries[j].0,
    ensures
        i == j,
{
    lemma_precedes_irreflexive(entries[i].0);
}

/// In a sorted list, the entry at an index is the one its key maps to.
pub proof fn lemma_sorted_lookup<T>(entries: Seq<(Seq<u8>, T)>, i: int)
    requires
        sorted(entries),
        0 <= i < entries.len(),
    ensures
        has_key(entries, entries[i].0),
        position(entries, entries[i].0) == i,
        to_map(entries).dom().contains(entries[i].0),
        to_map(entries)[entries[i].0] == entries[i].1,
{
    let k = entries[i].0;
    assert(has_key(entries, k));
    lemma_sorted_distinct(entries, i, position(entries, k));
}

/// A sorted list is determined by the map it stands for: the order in which
/// the entries were put together leaves no trace.
pub proof fn lemma_sorted_unique<T>(a: Seq<(Seq<u8>, T)>, b: Seq<(Seq<u8>, T)>)
    requires
        sorted(a),
        sorted(b),
        to_map(a) == to_map(b),
    ensures
        a == b,
    decreases a.len(),
{
    if a.len() == 0 {
        if b.len() > 0 {
            lemma_sorted_lookup(b, 0);
            assert(to_map(a).dom().contains(b[0].0));
        }
        assert(a =~= b);
    } else {
        let la = a.len() - 1;
        lemma_sorted_lookup(a, la);
        assert(to_map(b).dom().contains(a[la].0));
        let pb = position(b, a[la].0);
        assert(0 <= pb < b.len() && b[pb].0 == a[la].0);
        let lb = b.len() - 1;
        lemma_sorted_lookup(b, lb);
        assert(to_map(a).dom().contains(b[lb].0));
        let pa = position(a, b[lb].0);
        assert(0 <= pa < a.len() && a[pa].0 == b[lb].0);
        // The greatest key of each list is a key of the other.
        if pb < lb {
            if pa < la {
                lemma_precedes_transitive(b[pb].0, b[lb].0, a[la].0);
            }
            lemma_precedes_irreflexive(a[la].0);
            lemma_precedes_total(b[pb].0, b[lb].0);
            assert(false);
        }
        assert(pb == lb);
        lemma_sorted_lookup(b, pb);
        assert(a[la].1 == b[lb].1);
        assert(a[la] == b[lb]);
        let a0 = a.drop_last();
        let b0 = b.drop_last();
        assert(sorted(a0));
        assert(sorted(b0));
        assert(to_map(a0) =~= to_map(b0)) by {
            assert forall|k: Seq<u8>| has_key(a0, k) <==> has_key(b0, k) by {
                lemma_drop_last_keys(a, k);
                lemma_drop_last_keys(b, k);
                assert(to_map(a).dom().contains(k) <==> has_key(a, k));
                assert(to_map(b).dom().contains(k) <==> has_key(b, k));
            }
            assert forall|k: Seq<u8>| has_key(a0, k) implies a0[position(a0, k)].1
                == b0[position(b0, k)].1 by {
                lemma_drop_last_keys(a, k);
                lemma_drop_last_keys(b, k);
                let i = position(a0, k);
                let j = position(b0, k);
                lemma_sorted_lookup(a, i);
                lemma_sorted_lookup(b, j);
                assert(a0[i] == a[i]);
                assert(b0[j] == b[j]);
            }
        }
        lemma_sorted_unique(a0, b0);
        assert(a =~= a0.push(a[la]));
        assert(b =~= b0.push(b[lb]));
    }
}

/// The entries of a map in identifier order.
pub open spec fn entries_of<T>(map: Map<Seq<u8>, T>) -> Seq<(Seq<u8>, T)> {
    choose|entries: Seq<(Seq<u8>, T)>| sorted(entries) && to_map(entries) == map
}

/// Whether a map has its entries in a list in identifier order. Every
/// finite map has, and so has the view of every `IdentifierMap`.
pub open spec fn listable<T>(map: Map<Seq<u8>, T>) -> bool {
    sorted(entries_of(map)) && to_map(entries_of(map)) == map
}

/// A sorted list is the list of the entries of its map.
pub proof fn lemma_entries_of<T>(entries: Seq<(Seq<u8>, T)>)
    requires
        sorted(entries),
    ensures
        entries_of(to_map(entries)) == entries,
        listable(to_map(entries)),
{
    let found = entries_of(to_map(entries));
    assert(sorted(found) && to_map(found) == to_map(entries));
    lemma_sorted_unique(found, entries);
}

/// The keys of a sorted list without its last entry are its keys but the
/// last one.
pub proof fn lemma_drop_last_keys<T>(entries: Seq<(Seq<u8>, T)>, key: Seq<u8>)
    requires
        sorted(entries),
        entries.len() > 0,
    ensures
        has_key(entries.drop_last(), key) <==> (has_key(entries, key) && key
            != entries.last().0),
{
    let e0 = entries.drop_last();
    if has_key(e0, key) {
        let i = position(e0, key);
        assert(entries[i].0 == key);
        assert(e0[i] == entries[i]);
        lemma_precedes_irreflexive(key);
    }
    if has_key(entries, key) && key != entries.last().0 {
        let i = position(entries, key);
        assert(e0[i] == entries[i]);
    }
}

/// Putting an entry with a new key at the place its key belongs keeps the
/// list sorted and adds that one binding to the map.
pub proof fn lemma_insert_sorted<T>(entries: Seq<(Seq<u8>, T)>, at: int, key: Seq<u8>, value: T)
    requires
        sorted(entries),
        0 <= at <= entries.len(),
        forall|i: int| 0 <= i < at ==> precedes((#[trigger] entries[i]).0, key),
        forall|i: int| at <= i < entries.len() ==> precedes(key, (#[trigger] entries[i]).0),
    ensures
        sorted(entries.insert(at, (key, value))),
        !has_key(entries, key),
        to_map(entries.insert(at, (key, value))) == to_map(entries).insert(key, value),
{
    let grown = entries.insert(at, (key, value));
    assert(sorted(grown)) by {
        assert forall|i: int, j: int| 0 <= i < j < grown.len() implies precedes(
            (#[trigger] grown[i]).0,
            (#[trigger] grown[j]).0,
        ) by {
            if j < at {
                assert(grown[i] == entries[i] && grown[j] == entries[j]);
            } else if j == at {
                assert(grown[i] == entries[i]);
            } else if i < at {
                assert(grown[i] == entries[i] && grown[j] == entries[j - 1]);
            } else if i == at {
                assert(grown[j] == entries[j - 1]);
            } else {
                assert(grown[i] == entries[i - 1] && grown[j] == entries[j - 1]);
            }
        }
    }
    if has_key(entries, key) {
        lemma_precedes_irreflexive(key);
        assert(false);
    }
    assert(to_map(grown) =~= to_map(entries).insert(key, value)) by {
        assert forall|k: Seq<u8>| has_key(grown, k) <==> (k == key || has_key(entries, k)) by {
            if has_key(grown, k) {
                let i = position(grown, k);
                if i < at {
                    assert(grown[i] == entries[i]);
                } else if i > at {
                    assert(grown[i] == entries[i - 1]);
                }
            }
            if k == key {
                assert(grown[at].0 == key);
            }
            if has_key(entries, k) {
                let i = position(entries, k);
                if i < at {
                    assert(grown[i] == entries[i]);
                } else {
                    assert(grown[i + 1] == entries[i]);
                }
            }
        }
        assert forall|k: Seq<u8>| has_key(grown, k) implies grown[position(grown, k)].1 == (if k
            == key {
            value
        } else {
            entries[position(entries, k)].1
        }) by {
            let i = position(grown, k);
            if k == key {
                lemma_sorted_distinct(grown, i, at);
            } else {
                let j = position(entries, k);
                if j < at {
                    assert(grown[j] == entries[j]);
                    lemma_sorted_distinct(grown, i, j);
                } else {
                    assert(grown[j + 1] == entries[j]);
                    lemma_sorted_distinct(grown, i, j + 1);
                }
            }
        }
    }
}

/// Identifiers with values, each by its view.
pub open spec fn pairs_view<V: View>(pairs: Seq<(Identifier, V)>) -> Seq<(Seq<u8>, V::V)> {
    Seq::new(pairs.len(), |i: int| (pairs[i].0@, pairs[i].1@))
}

/// A map from identifiers to values, kept in identifier order.
#[derive(Debug, PartialEq, Eq)]
pub struct IdentifierMap<V: View> {
    entries: Vec<(Identifier, V)>,
}

impl<V: View> IdentifierMap<V> {
    /// The entries in identifier order, each key and value by its view.
    pub closed spec fn spec_entries(&self) -> Seq<(Seq<u8>, V::V)> {
        pairs_view(self.entries@)
    }

    /// What holds of every map: its entries are in identifier order.
    #[verifier::type_invariant]
    pub open spec fn ordered(&self) -> bool {
        sorted(self.spec_entries())
    }

    /// An empty map.
    pub fn new() -> (m: Self)
        ensures
            m@ == Map::<Seq<u8>, V::V>::empty(),
            m.spec_entries() == Seq::<(Seq<u8>, V::V)>::empty(),
    {
        let m = IdentifierMap { entries: Vec::new() };
        assert(m.spec_entries() =~= Seq::<(Seq<u8>, V::V)>::empty());
        assert(to_map(m.spec_entries()) =~= Map::<Seq<u8>, V::V>::empty());
        m
    }

    /// The map of the given entries, where they are in identifier order.
    pub fn from_sorted(entries: Vec<(Identifier, V)>) -> (m: Option<Self>)
        ensures
            m is Some <==> sorted(pairs_view(entries@)),
            m matches Some(map) ==> map.spec_entries() == pairs_view(entries@),
    {
        let ghost e = pairs_view(entries@);
        let mut i: usize = 1;
        while i < entries.len()
            invariant
                1 <= i,
                e == pairs_view(entries@),
                forall|a: int, b: int|
                    0 <= a < b < i && b < e.len() ==> precedes(
                        (#[trigger] e[a]).0,
                        (#[trigger] e[b]).0,
                    ),
            decreases entries@.len() - i,
        {
            if !entries[i - 1].0.precedes(&entries[i].0) {
                assert(!precedes(e[i - 1].0, e[i as int].0));
                return None;
            }
            proof {
                assert forall|a: int, b: int| 0 <= a < b < i + 1 && b < e.len() implies precedes(
                    (#[trigger] e[a]).0,
                    (#[trigger] e[b]).0,
                ) by {
                    if b == i && a < i - 1 {
                        lemma_precedes_transitive(e[a].0, e[i - 1].0, e[i as int].0);
                    }
                }
            }
            i = i + 1;
        }
        Some(IdentifierMap { entries })
    }

    /// The number of entries.
    pub fn len(&self) -> (n: usize)
        ensures
            n == self.spec_entries().len(),
            n == self@.dom().len(),
            sorted(self.spec_entries()),
    {
        proof {
            use_type_invariant(self);
            lemma_entries_count(self.spec_entries());
        }
        self.entries.len()
    }

    /// The key of the entry at `index` in identifier order.
    pub fn key_at(&self, index: usize) -> (key: &Identifier)
        requires
            index < self.spec_entries().len(),
        ensures
            key@ == self.spec_entries()[index as int].0,
    {
        &self.entries[index].0
    }

    /// The value of the entry at `index` in identifier order.
    pub fn value_at(&self, index: usize) -> (value: &V)
        requires
            index < self.spec_entries().len(),
        ensures
            value@ == self.spec_entries()[index as int].1,
    {
        &self.entries[index].1
    }

    /// The index of the first entry whose key does not precede `key`.
    fn lower_bound(&self, key: &Identifier) -> (at: usize)
        ensures
            at <= self.spec_entries().len(),
            forall|i: int| 0 <= i < at ==> precedes((#[trigger] self.spec_entries()[i]).0, key@),
            forall|i: int|
                at <= i < self.spec_entries().len() ==> !precedes(
                    (#[trigger] self.spec_entries()[i]).0,
                    key@,
                ),
    {
        proof {
            use_type_invariant(self);
        }
        let mut at: usize = 0;
        while at < self.entries.len() && self.entries[at].0.precedes(key)
            invariant
                at <= self.entries@.len(),
                self.entries@.len() == self.spec_entries().len(),
                forall|i: int|
                    0 <= i < at ==> precedes((#[trigger] self.spec_entries()[i]).0, key@),
            decreases self.entries@.len() - at,
        {
            at = at + 1;
        }
        proof {
            let e = self.spec_entries();
            if at < e.len() {
                assert(!precedes(e[at as int].0, key@));
                assert forall|i: int| at <= i < e.len() implies !precedes(
                    (#[trigger] e[i]).0,
                    key@,
                ) by {
                    if i > at && precedes(e[i].0, key@) {
                        lemma_precedes_transitive(e[at as int].0, e[i].0, key@);
                    }
                }
            }
        }
        at
    }

    /// The value bound to `key`, if any.
    pub fn get(&self, key: &Identifier) -> (value: Option<&V>)
        ensures
            value is Some <==> self@.dom().contains(key@),
            value matches Some(v) ==> v@ == self@[key@],
    {
        proof {
            use_type_invariant(self);
        }
        let at = self.lower_bound(key);
        proof {
            let e = self.spec_entries();
            if has_key(e, key@) {
                let p = position(e, key@);
                lemma_precedes_irreflexive(key@);
                if p > at {
                    lemma_precedes_total(e[at as int].0, key@);
                }
                assert(p == at);
            }
        }
        if at < self.entries.len() && self.entries[at].0.same(key) {
            proof {
                lemma_sorted_lookup(self.spec_entries(), at as int);
            }
            Some(&self.entries[at].1)
        } else {
            None
        }
    }

    /// Whether `key` is bound.
    pub fn contains_key(&self, key: &Identifier) -> (found: bool)
        ensures
            found == self@.dom().contains(key@),
    {
        self.get(key).is_some()
    }

    /// Binds `key` to `value` unless `key` is bound already, and says whether
    /// it did. A map that holds the key is left as it was.
    pub fn insert(&mut self, key: Identifier, value: V) -> (added: bool)
        ensures
            added == !old(self)@.dom().contains(key@),
            added ==> final(self)@ == old(self)@.insert(key@, value@),
            !added ==> final(self).spec_entries() == old(self).spec_entries(),
            !added ==> final(self)@ == old(self)@,
            sorted(final(self).spec_entries()),
    {
        proof {
            use_type_invariant(&*self);
        }
        let at = self.lower_bound(&key);
        let ghost before = self.spec_entries();
        let ghost k = key@;
        let ghost v = value@;
        proof {
            assert(to_map(before).dom().contains(k) <==> has_key(before, k));
            if has_key(before, k) {
                let p = position(before, k);
                lemma_precedes_irreflexive(k);
                if p > at {
                    lemma_precedes_total(before[at as int].0, k);
                }
                assert(p == at);
            }
        }
        if at < self.entries.len() && self.entries[at].0.same(&key) {
            assert(before[at as int].0 == k);
            false
        } else {
            proof {
                assert forall|i: int| at <= i < before.len() implies precedes(
                    k,
                    (#[trigger] before[i]).0,
                ) by {
                    lemma_precedes_total(k, before[i].0);
                    if i > at {
                        lemma_precedes_total(k, before[at as int].0);
                        lemma_precedes_transitive(k, before[at as int].0, before[i].0);
                    }
                }
                lemma_insert_sorted(before, at as int, k, v);
            }
            let mut entries: Vec<(Identifier, V)> = Vec::new();
            core::mem::swap(&mut self.entries, &mut entries);
            entries.insert(at, (key, value));
            assert(pairs_view(entries@) =~= before.insert(at as int, (k, v)));
            core::mem::swap(&mut self.entries, &mut entries);
            assert(self.spec_entries() =~= before.insert(at as int, (k, v)));
            true
        }
    }
}

impl<V: View> View for IdentifierMap<V> {
    type V = Map<Seq<u8>, V::V>;

    open spec fn view(&self) -> Map<Seq<u8>, V::V> {
        to_map(self.spec_entries())
    }
}

/// A sorted list has as many entries as its map has keys.
pub proof fn lemma_entries_count<T>(entries: Seq<(Seq<u8>, T)>)
    requires
        sorted(entries),
    ensures
        to_map(entries).dom().finite(),
        to_map(entries).dom().len() == entries.len(),
    decreases entries.len(),
{
    if entries.len() == 0 {
        assert(to_map(entries).dom() =~= Set::<Seq<u8>>::empty());
    } else {
        let e0 = entries.drop_last();
        assert(sorted(e0));
        lemma_entries_count(e0);
        assert(to_map(entries).dom() =~= to_map(e0).dom().insert(entries.last().0)) by {
            assert forall|k: Seq<u8>|
                has_key(entries, k) <==> (has_key(e0, k) || k == entries.last().0) by {
                lemma_drop_last_keys(entries, k);
                if k == entries.last().0 {
                    assert(entries[entries.len() - 1].0 == k);
                }
            }
        }
        lemma_drop_last_keys(entries, entries.last().0);
    }
}

/// Entries of which no two have the same key.
pub open spec fn distinct_keys<T>(entries: Seq<(Seq<u8>, T)>) -> bool {
    forall|i: int, j: int|
        0 <= i < j < entries.len() ==> (#[trigger] entries[i]).0 != (#[trigger] entries[j]).0
}

/// In a list without repeated keys, the entry at an index is the one its
/// key maps to.
pub proof fn lemma_distinct_lookup<T>(entries: Seq<(Seq<u8>, T)>, i: int)
    requires
        distinct_keys(entries),
        0 <= i < entries.len(),
    ensures
        to_map(entries).dom().contains(entries[i].0),
        to_map(entries)[entries[i].0] == entries[i].1,
{
    let k = entries[i].0;
    assert(has_key(entries, k));
    let p = position(entries, k);
    if p < i {
        assert(entries[p].0 != entries[i].0);
    } else if i < p {
        assert(entries[i].0 != entries[p].0);
    }
}

/// One more entry with a new key adds one binding to the map.
pub proof fn lemma_to_map_push<T>(entries: Seq<(Seq<u8>, T)>, key: Seq<u8>, value: T)
    requires
        distinct_keys(entries.push((key, value))),
    ensures
        distinct_keys(entries),
        !to_map(entries).dom().contains(key),
        to_map(entries.push((key, value))) == to_map(entries).insert(key, value),
{
    let grown = entries.push((key, value));
    let n = entries.len() as int;
    assert(distinct_keys(entries)) by {
        assert forall|i: int, j: int| 0 <= i < j < entries.len() implies (#[trigger] entries[i]).0
            != (#[trigger] entries[j]).0 by {
            assert(grown[i] == entries[i] && grown[j] == entries[j]);
        }
    }
    if has_key(entries, key) {
        let p = position(entries, key);
        assert(grown[p] == entries[p]);
        assert(grown[p].0 != grown[n].0);
    }
    assert(to_map(grown) =~= to_map(entries).insert(key, value)) by {
        assert forall|k: Seq<u8>| has_key(grown, k) <==> (k == key || has_key(entries, k)) by {
            if has_key(grown, k) {
                let p = position(grown, k);
                if p < n {
                    assert(grown[p] == entries[p]);
                }
            }
            if k == key {
                assert(grown[n].0 == key);
            }
            if has_key(entries, k) {
                let p = position(entries, k);
                assert(grown[p] == entries[p]);
            }
        }
        assert forall|k: Seq<u8>| has_key(grown, k) implies to_map(grown)[k] == to_map(
            entries,
        ).insert(key, value)[k] by {
            if k == key {
                lemma_distinct_lookup(grown, n);
            } else {
                let p = position(entries, k);
                assert(grown[p] == entries[p]);
                lemma_distinct_lookup(grown, p);
                lemma_distinct_lookup(entries, p);
            }
        }
    }
}

/// A list without repeated keys has as many entries as its map has keys.
pub proof fn lemma_to_map_len<T>(entries: Seq<(Seq<u8>, T)>)
    requires
        distinct_keys(entries),
    ensures
        to_map(entries).dom().finite(),
        to_map(entries).dom().len() == entries.len(),
    decreases entries.len(),
{
    if entries.len() == 0 {
        assert(to_map(entries).dom() =~= Set::<Seq<u8>>::empty());
    } else {
        let rest = entries.drop_last();
        let last = entries.last();
        assert(entries =~= rest.push((last.0, last.1)));
        lemma_to_map_push(rest, last.0, last.1);
        lemma_to_map_len(rest);
        assert(to_map(entries).dom() =~= to_map(rest).dom().insert(last.0));
    }
}

/// Two lists without repeated keys that hold the same entries, in whatever
/// order, stand for the same map.
pub proof fn lemma_to_map_permutation<T>(a: Seq<(Seq<u8>, T)>, b: Seq<(Seq<u8>, T)>)
    requires
        distinct_keys(a),
        distinct_keys(b),
        a.to_multiset() == b.to_multiset(),
    ensures
        to_map(a) == to_map(b),
        a.len() == b.len(),
{
    vstd::seq_lib::to_multiset_len(a);
    vstd::seq_lib::to_multiset_len(b);
    assert forall|x: (Seq<u8>, T)| a.contains(x) <==> b.contains(x) by {
        vstd::seq_lib::to_multiset_contains(a, x);
        vstd::seq_lib::to_multiset_contains(b, x);
    }
    assert(to_map(a) =~= to_map(b)) by {
        assert forall|k: Seq<u8>| has_key(a, k) <==> has_key(b, k) by {
            if has_key(a, k) {
                let x = a[position(a, k)];
                assert(a.contains(x));
                let j = choose|j: int| 0 <= j < b.len() && b[j] == x;
                assert(b[j].0 == k);
            }
            if has_key(b, k) {
                let x = b[position(b, k)];
                assert(b.contains(x));
                let j = choose|j: int| 0 <= j < a.len() && a[j] == x;
                assert(a[j].0 == k);
            }
        }
        assert forall|k: Seq<u8>| has_key(a, k) implies to_map(a)[k] == to_map(b)[k] by {
            let i = position(a, k);
            let x = a[i];
            assert(a.contains(x));
            let j = choose|j: int| 0 <= j < b.len() && b[j] == x;
            lemma_distinct_lookup(a, i);
            lemma_distinct_lookup(b, j);
        }
    }
}

} // verus!
