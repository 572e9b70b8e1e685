//! A map from names to values that remembers the order in which names were
//! first inserted.
//!
//! The values live in a vector of slots, in insertion order. An
//! `indexmap::IndexMap` from each name to its slot finds a name without a scan.

use indexmap::IndexMap;
use vstd::prelude::*;

verus! {

#[verifier::external_type_specification]
#[verifier::external_body]
#[verifier::reject_recursive_types(K)]
#[verifier::reject_recursive_types(V)]
#[verifier::reject_recursive_types(S)]
pub struct ExIndexMap<K, V, S>(IndexMap<K, V, S>);

/// What a name index holds: its keys, each with the slot it maps to, in the
/// order in which the keys were inserted.
pub uninterp spec fn index_entries(m: IndexMap<String, usize>) -> Seq<(Seq<char>, usize)>;

/// `IndexMap::new`: a map without entries.
#[verifier::external_body]
fn index_new() -> (m: IndexMap<String, usize>)
    ensures
        index_entries(m) == Seq::<(Seq<char>, usize)>::empty(),
{
    IndexMap::new()
}

/// `IndexMap::get`: the slot stored for `key`. The result is `Some` exactly
/// when an entry has that key, and then holds that entry's slot.
#[verifier::external_body]
fn index_get(m: &IndexMap<String, usize>, key: &str) -> (r: Option<usize>)
    ensures
        match r {
            Some(slot) => exists|i: int|
                0 <= i < index_entries(*m).len() && index_entries(*m)[i] == (key@, slot),
            None => forall|i: int|
                0 <= i < index_entries(*m).len() ==> index_entries(*m)[i].0 != key@,
        },
{
    m.get(key).copied()
}

/// `IndexMap::insert`: where an entry has the key already, it keeps its place
/// and gets the new slot, and the old slot is returned. Otherwise the entry is
/// added last and `None` is returned.
#[verifier::external_body]
fn index_insert(m: &mut IndexMap<String, usize>, key: String, slot: usize) -> (r: Option<usize>)
    ensures
        match r {
            Some(prev) => exists|i: int|
                0 <= i < index_entries(*old(m)).len() && index_entries(*old(m))[i] == (key@, prev)
                    && index_entries(*final(m)) == index_entries(*old(m)).update(
                    i,
                    (key@, slot),
                ),
            None => {
                &&& forall|i: int|
                    0 <= i < index_entries(*old(m)).len() ==> index_entries(*old(m))[i].0 != key@
                &&& index_entries(*final(m)) == index_entries(*old(m)).push((key@, slot))
            },
        },
{
    m.insert(key, slot)
}

/// Position of the entry of `entries` whose name is `key`, or the length of
/// `entries` if there is none.
pub open spec fn position<T>(entries: Seq<(Seq<char>, T)>, key: Seq<char>) -> int
    decreases entries.len(),
{
    if entries.len() == 0 {
        0
    } else if entries[0].0 == key {
        0
    } else {
        1 + position(entries.drop_first(), key)
    }
}

/// The value that `entries` holds for `key`, if any.
pub open spec fn lookup<T>(entries: Seq<(Seq<char>, T)>, key: Seq<char>) -> Option<T> {
    let i = position(entries, key);
    if i < entries.len() {
        Some(entries[i].1)
    } else {
        None
    }
}

/// `entries` after `key` was bound to `value`: an entry with that name keeps
/// its place and gets the value, otherwise the binding is added last.
pub open spec fn upsert<T>(entries: Seq<(Seq<char>, T)>, key: Seq<char>, value: T) -> Seq<
    (Seq<char>, T),
> {
    let i = position(entries, key);
    if i < entries.len() {
        entries.update(i, (key, value))
    } else {
        entries.push((key, value))
    }
}

/// Whether no two entries have the same name.
pub open spec fn distinct_names<T>(entries: Seq<(Seq<char>, T)>) -> bool {
    forall|i: int, j: int|
        0 <= i < j < entries.len() ==> (#[trigger] entries[i]).0 != (#[trigger] entries[j]).0
}

pub proof fn lemma_position<T>(entries: Seq<(Seq<char>, T)>, key: Seq<char>)
    ensures
        0 <= position(entries, key) <= entries.len(),
        position(entries, key) < entries.len() ==> entries[position(entries, key)].0 == key,
        forall|j: int| 0 <= j < position(entries, key) ==> (#[trigger] entries[j]).0 != key,
    decreases entries.len(),
{
    if entries.len() > 0 && entries[0].0 != key {
        let rest = entries.drop_first();
        lemma_position(rest, key);
        assert forall|j: int| 0 <= j < position(entries, key) implies (#[trigger] entries[j]).0
            != key by {
            if j > 0 {
                assert(entries[j] == rest[j - 1]);
            }
        }
    }
}

/// An index `i` whose entry has the name `key` is the position of `key`, if
/// names are distinct.
pub proof fn lemma_position_unique<T>(entries: Seq<(Seq<char>, T)>, key: Seq<char>, i: int)
    requires
        distinct_names(entries),
        0 <= i < entries.len(),
        entries[i].0 == key,
    ensures
        position(entries, key) == i,
{
    lemma_position(entries, key);
    let p = position(entries, key);
    if p < i {
        assert(entries[p].0 != entries[i].0);
    }
}

/// A name that no entry has is at position `len`.
pub proof fn lemma_position_absent<T>(entries: Seq<(Seq<char>, T)>, key: Seq<char>)
    requires
        forall|i: int| 0 <= i < entries.len() ==> (#[trigger] entries[i]).0 != key,
    ensures
        position(entries, key) == entries.len(),
{
    lemma_position(entries, key);
}

/// What a lookup finds after an upsert: the new value under the name that was
/// bound, and what was there before under every other name.
pub proof fn lemma_lookup_upsert<T>(
    entries: Seq<(Seq<char>, T)>,
    key: Seq<char>,
    value: T,
    other: Seq<char>,
)
    requires
        distinct_names(entries),
    ensures
        distinct_names(upsert(entries, key, value)),
        lookup(upsert(entries, key, value), key) == Some(value),
        other != key ==> lookup(upsert(entries, key, value), other) == lookup(entries, other),
{
    lemma_position(entries, key);
    lemma_position(entries, other);
    let after = upsert(entries, key, value);
    let p = position(entries, key);
    assert(distinct_names(after)) by {
        assert forall|i: int, j: int| 0 <= i < j < after.len() implies (#[trigger] after[i]).0 != (
        #[trigger] after[j]).0 by {
            if p < entries.len() {
                assert(entries[i].0 != entries[j].0);
            } else if j < entries.len() {
                assert(entries[i].0 != entries[j].0);
            } else {
                assert(entries[i].0 != key);
            }
        }
    }
    assert(after[p].0 == key);
    lemma_position_unique(after, key, p);
    if other != key {
        let q = position(entries, other);
        if q < entries.len() {
            assert(after[q] == entries[q]);
            lemma_position_unique(after, other, q);
        } else {
            assert forall|i: int| 0 <= i < after.len() implies (#[trigger] after[i]).0 != other by {
                if i < entries.len() {
                    assert(entries[i].0 != other);
                }
            }
            lemma_position_absent(after, other);
        }
    }
}

/// `entries` with every value replaced by its view.
pub open spec fn deep_entries<V: DeepView>(entries: Seq<(Seq<char>, V)>) -> Seq<
    (Seq<char>, V::V),
> {
    Seq::new(entries.len(), |i: int| (entries[i].0, entries[i].1.deep_view()))
}

/// Lookups and upserts commute with taking the views of the values.
pub proof fn lemma_deep_entries<V: DeepView>(
    entries: Seq<(Seq<char>, V)>,
    key: Seq<char>,
    value: V,
)
    ensures
        position(deep_entries(entries), key) == position(entries, key),
        lookup(deep_entries(entries), key) == match lookup(entries, key) {
            Some(v) => Some(v.deep_view()),
            None => None,
        },
        deep_entries(upsert(entries, key, value)) == upsert(
            deep_entries(entries),
            key,
            value.deep_view(),
        ),
        distinct_names(entries) ==> distinct_names(deep_entries(entries)),
    decreases entries.len(),
{
    let d = deep_entries(entries);
    if entries.len() > 0 {
        assert(deep_entries(entries.drop_first()) =~= d.drop_first());
        if entries[0].0 != key {
            lemma_deep_entries(entries.drop_first(), key, value);
        }
    }
    lemma_position(entries, key);
    assert(deep_entries(upsert(entries, key, value)) =~= upsert(d, key, value.deep_view()));
    if distinct_names(entries) {
        assert forall|i: int, j: int| 0 <= i < j < d.len() implies (#[trigger] d[i]).0 != (
        #[trigger] d[j]).0 by {
            assert(entries[i].0 != entries[j].0);
        }
    }
}

/// A map from names to values, in the order in which the names were first
/// inserted.
#[derive(Debug, PartialEq, Eq)]
pub struct NameMap<V> {
    index: IndexMap<String, usize>,
    slots: Vec<(String, V)>,
}

impl<V> NameMap<V> {
    /// Every name stands in the index with the number of its slot, and no name
    /// stands twice.
    #[verifier::type_invariant]
    spec fn well_formed(self) -> bool {
        let ix = index_entries(self.index);
        &&& ix.len() == self.slots@.len()
        &&& forall|i: int|
            0 <= i < ix.len() ==> (#[trigger] ix[i]).0 == self.slots@[i].0@ && ix[i].1 == i
        &&& distinct_names(self.entries())
    }

    /// The bindings, in insertion order.
    pub closed spec fn entries(self) -> Seq<(Seq<char>, V)> {
        Seq::new(self.slots@.len(), |i: int| (self.slots@[i].0@, self.slots@[i].1))
    }

    /// An empty map.
    pub fn new() -> (m: NameMap<V>)
        ensures
            m.entries() == Seq::<(Seq<char>, V)>::empty(),
    {
        let m = NameMap { index: index_new(), slots: Vec::new() };
        assert(m.entries() =~= Seq::<(Seq<char>, V)>::empty());
        m
    }

    /// Number of bindings.
    pub fn len(&self) -> (n: usize)
        ensures
            n == self.entries().len(),
    {
        self.slots.len()
    }

    /// The name and the value of the binding at `i` in insertion order.
    pub fn entry_at(&self, i: usize) -> (r: (&String, &V))
        requires
            i < self.entries().len(),
        ensures
            (r.0@, *r.1) == self.entries()[i as int],
    {
        (&self.slots[i].0, &self.slots[i].1)
    }

    /// The value bound to `key`, if any.
    pub fn get(&self, key: &str) -> (r: Option<&V>)
        ensures
            match r {
                Some(v) => lookup(self.entries(), key@) == Some(*v),
                None => lookup(self.entries(), key@) is None,
            },
    {
        proof {
            use_type_invariant(self);
        }
        let ghost ix = index_entries(self.index);
        match index_get(&self.index, key) {
            Some(i) => {
                proof {
                    let w = choose|w: int| 0 <= w < ix.len() && ix[w] == (key@, i);
                    assert(ix[w].1 == w);
                    assert(self.entries()[i as int].0 == key@);
                    lemma_position_unique(self.entries(), key@, i as int);
                }
                Some(&self.slots[i].1)
            },
            None => {
                proof {
                    assert forall|j: int| 0 <= j < self.entries().len() implies (
                    #[trigger] self.entries()[j]).0 != key@ by {
                        assert(ix[j].1 == j);
                    }
                    lemma_position_absent(self.entries(), key@);
                }
                None
            },
        }
    }

    /// Whether `key` is bound.
    pub fn contains_key(&self, key: &str) -> (b: bool)
        ensures
            b == lookup(self.entries(), key@) is Some,
    {
        self.get(key).is_some()
    }

    /// Binds `key` to `value`. A name that is bound already keeps its place in
    /// the order; the value it had is returned.
    pub fn insert(&mut self, key: String, value: V) -> (prev: Option<V>)
        ensures
            final(self).entries() == upsert(old(self).entries(), key@, value),
            prev == lookup(old(self).entries(), key@),
    {
        let mut taken: NameMap<V> = NameMap::new();
        std::mem::swap(self, &mut taken);
        proof {
            use_type_invariant(&taken);
        }
        let ghost before = taken.entries();
        let NameMap { mut index, mut slots } = taken;
        let ghost ix = index_entries(index);
        proof {
            lemma_lookup_upsert(before, key@, value, key@);
        }
        let prev = match index_get(&index, key.as_str()) {
            Some(i) => {
                proof {
                    let w = choose|w: int| 0 <= w < ix.len() && ix[w] == (key@, i);
                    assert(ix[w].1 == w);
                    assert(before[i as int].0 == key@);
                    lemma_position_unique(before, key@, i as int);
                }
                slots.push((key, value));
                let old_entry = slots.swap_remove(i);
                let ghost after = Seq::new(slots@.len(), |j: int| (slots@[j].0@, slots@[j].1));
                assert(after =~= upsert(before, key@, value));
                assert forall|j: int| 0 <= j < ix.len() implies (#[trigger] ix[j]).0
                    == slots@[j].0@ && ix[j].1 == j by {
                    assert(ix[j].0 == before[j].0);
                }
                Some(old_entry.1)
            },
            None => {
                proof {
                    assert forall|j: int| 0 <= j < before.len() implies (#[trigger] before[j]).0
                        != key@ by {
                        assert(ix[j].0 == before[j].0);
                    }
                    lemma_position_absent(before, key@);
                }
                let name = key.clone();
                slots.push((key, value));
                let slot = slots.len() - 1;
                let r = index_insert(&mut index, name, slot);
                let ghost after = Seq::new(slots@.len(), |j: int| (slots@[j].0@, slots@[j].1));
                assert(after =~= upsert(before, key@, value));
                proof {
                    if r is Some {
                        let w = choose|w: int|
                            0 <= w < ix.len() && ix[w] == (key@, r->0) && index_entries(index)
                                == ix.update(w, (key@, slot));
                        assert(ix[w].0 == before[w].0);
                        assert(false);
                    }
                    assert forall|j: int| 0 <= j < index_entries(index).len() implies (
                    #[trigger] index_entries(index)[j]).0 == slots@[j].0@ && index_entries(
                        index,
                    )[j].1 == j by {
                        if j < ix.len() {
                            assert(ix[j].0 == before[j].0);
                        }
                    }
                }
                None
            },
        };
        *self = NameMap { index, slots };
        prev
    }
}

impl<V: DeepView> DeepView for NameMap<V> {
    type V = Seq<(Seq<char>, V::V)>;

    open spec fn deep_view(&self) -> Seq<(Seq<char>, V::V)> {
        deep_entries(self.entries())
    }
}

} // verus!
