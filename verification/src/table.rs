//! A map from byte strings of fixed length to values, kept as a list of entries
//! in which no key occurs twice.

use crate::hash::{Address, H256};
use vstd::prelude::*;

verus! {

/// A key: it stands for a byte string, and two keys can be compared.
pub trait Key: Copy {
    spec fn key(&self) -> Seq<u8>;

    fn same_key(&self, other: &Self) -> (equal: bool)
        ensures
            equal == (self.key() == other.key()),
    ;
}

/// A value: it has a view, and can be copied.
pub trait Value: View + Sized {
    fn duplicate(&self) -> (copy: Self)
        ensures
            copy@ == self@,
    ;
}

impl Key for Address {
    open spec fn key(&self) -> Seq<u8> {
        self@
    }

    fn same_key(&self, other: &Self) -> (equal: bool) {
        self.same(other)
    }
}

impl Key for H256 {
    open spec fn key(&self) -> Seq<u8> {
        self@
    }

    fn same_key(&self, other: &Self) -> (equal: bool) {
        self.same(other)
    }
}

impl Value for H256 {
    fn duplicate(&self) -> (copy: Self) {
        *self
    }
}

/// Whether an entry with the key is in the list.
spec fn listed<K: Key, V: Value>(entries: Seq<(K, V)>, k: Seq<u8>) -> bool {
    exists|i: int| 0 <= i < entries.len() && #[trigger] entries[i].0.key() == k
}

/// Where the entry with the key is.
spec fn position<K: Key, V: Value>(entries: Seq<(K, V)>, k: Seq<u8>) -> int {
    choose|i: int| 0 <= i < entries.len() && #[trigger] entries[i].0.key() == k
}

/// No key occurs twice.
spec fn unique<K: Key, V: Value>(entries: Seq<(K, V)>) -> bool {
    forall|i: int, j: int|
        0 <= i < j < entries.len() ==> #[trigger] entries[i].0.key()
            != #[trigger] entries[j].0.key()
}

/// What a list of entries maps each key to.
spec fn mapping<K: Key, V: Value>(entries: Seq<(K, V)>) -> Map<Seq<u8>, V::V> {
    Map::new(|k: Seq<u8>| listed(entries, k), |k: Seq<u8>| entries[position(entries, k)].1@)
}

/// An entry of a list without repetitions is what its key is mapped to.
proof fn lemma_entry<K: Key, V: Value>(entries: Seq<(K, V)>, i: int)
    requires
        unique(entries),
        0 <= i < entries.len(),
    ensures
        mapping(entries).contains_key(entries[i].0.key()),
        mapping(entries)[entries[i].0.key()] == entries[i].1@,
{
    let k = entries[i].0.key();
    assert(listed(entries, k));
    let j = position(entries, k);
    assert(0 <= j < entries.len() && entries[j].0.key() == k);
    assert(i == j);
}

/// A map from byte strings to values.
pub struct Table<K: Key, V: Value> {
    entries: Vec<(K, V)>,
}

impl<K: Key, V: Value> View for Table<K, V> {
    type V = Map<Seq<u8>, V::V>;

    closed spec fn view(&self) -> Map<Seq<u8>, V::V> {
        mapping(self.entries@)
    }
}

impl<K: Key, V: Value> Table<K, V> {
    #[verifier::type_invariant]
    spec fn no_repetition(self) -> bool {
        unique(self.entries@)
    }

    /// The empty map.
    pub fn new() -> (table: Self)
        ensures
            table@ == Map::<Seq<u8>, V::V>::empty(),
    {
        let table: Table<K, V> = Table { entries: Vec::new() };
        assert(table@ =~= Map::<Seq<u8>, V::V>::empty());
        table
    }

    /// The index of the entry with the key.
    fn find(entries: &Vec<(K, V)>, k: &K) -> (found: Option<usize>)
        ensures
            match found {
                Some(i) => i < entries@.len() && entries@[i as int].0.key() == k.key(),
                None => !listed(entries@, k.key()),
            },
    {
        let mut i: usize = 0;
        while i < entries.len()
            invariant
                i <= entries@.len(),
                forall|j: int| 0 <= j < i ==> #[trigger] entries@[j].0.key() != k.key(),
            decreases entries@.len() - i,
        {
            if entries[i].0.same_key(k) {
                return Some(i);
            }
            i = i + 1;
        }
        None
    }

    /// The value that the key is mapped to.
    pub fn get(&self, k: &K) -> (value: Option<&V>)
        ensures
            value is Some == self@.contains_key(k.key()),
            value matches Some(v) ==> self@[k.key()] == v@,
    {
        proof {
            use_type_invariant(self);
        }
        match Self::find(&self.entries, k) {
            Some(i) => {
                proof {
                    lemma_entry(self.entries@, i as int);
                }
                Some(&self.entries[i].1)
            },
            None => None,
        }
    }

    /// Removes the key, and returns the value that it was mapped to.
    pub fn take(&mut self, k: &K) -> (value: Option<V>)
        ensures
            final(self)@ == old(self)@.remove(k.key()),
            value is Some == old(self)@.contains_key(k.key()),
            value matches Some(v) ==> old(self)@[k.key()] == v@,
    {
        proof {
            use_type_invariant(&*self);
        }
        let mut entries: Vec<(K, V)> = Vec::new();
        std::mem::swap(&mut entries, &mut self.entries);
        let ghost before = entries@;
        match Self::find(&entries, k) {
            Some(i) => {
                let entry: (K, V) = entries.remove(i);
                proof {
                    let after = entries@;
                    lemma_entry(before, i as int);
                    assert forall|j: int| 0 <= j < after.len() implies #[trigger] after[j]
                        == before[if j < i { j } else { j + 1 }] by {}
                    assert(unique(after));
                    assert forall|x: Seq<u8>| #[trigger]
                        mapping(after).contains_key(x) == mapping(before).remove(
                            k.key(),
                        ).contains_key(x) by {
                        if listed(after, x) {
                            let j = position(after, x);
                            let m = if j < i { j } else { j + 1 };
                            assert(before[m].0.key() == x);
                            assert(before[m].0.key() != before[i as int].0.key());
                        }
                        if listed(before, x) && x != k.key() {
                            let m = position(before, x);
                            let j = if m < i { m } else { m - 1 };
                            assert(after[j].0.key() == x);
                        }
                    }
                    assert forall|x: Seq<u8>| #[trigger] mapping(after).contains_key(x) implies mapping(
                        after,
                    )[x] == mapping(before).remove(k.key())[x] by {
                        let j = position(after, x);
                        let m = if j < i { j } else { j + 1 };
                        assert(before[m] == after[j]);
                        lemma_entry(after, j);
                        lemma_entry(before, m);
                    }
                    assert(mapping(after) =~= mapping(before).remove(k.key()));
                }
                self.entries = entries;
                Some(entry.1)
            },
            None => {
                proof {
                    assert(mapping(before) =~= mapping(before).remove(k.key()));
                }
                self.entries = entries;
                None
            },
        }
    }

    /// Maps the key to the value.
    pub fn insert(&mut self, k: &K, v: V)
        ensures
            final(self)@ == old(self)@.insert(k.key(), v@),
    {
        let _ = self.take(k);
        proof {
            use_type_invariant(&*self);
        }
        let mut entries: Vec<(K, V)> = Vec::new();
        std::mem::swap(&mut entries, &mut self.entries);
        let ghost before = entries@;
        entries.push((*k, v));
        proof {
            let after = entries@;
            assert(!mapping(before).contains_key(k.key()));
            assert forall|i: int, j: int| 0 <= i < j < after.len() implies #[trigger] after[i].0.key()
                != #[trigger] after[j].0.key() by {
                if j == before.len() {
                    lemma_entry(before, i);
                }
            }
            assert forall|x: Seq<u8>| #[trigger]
                mapping(after).contains_key(x) == mapping(before).insert(
                    k.key(),
                    v@,
                ).contains_key(x) by {
                if listed(before, x) {
                    assert(after[position(before, x)].0.key() == x);
                }
                if x == k.key() {
                    assert(after[before.len() as int].0.key() == x);
                }
                if listed(after, x) && x != k.key() {
                    assert(before[position(after, x)].0.key() == x);
                }
            }
            assert forall|x: Seq<u8>| #[trigger] mapping(after).contains_key(x) implies mapping(
                after,
            )[x] == mapping(before).insert(k.key(), v@)[x] by {
                let j = position(after, x);
                lemma_entry(after, j);
                if j < before.len() {
                    lemma_entry(before, j);
                }
            }
            assert(mapping(after) =~= mapping(before).insert(k.key(), v@));
            assert(old(self)@.remove(k.key()).insert(k.key(), v@) =~= old(self)@.insert(
                k.key(),
                v@,
            ));
        }
        self.entries = entries;
    }

    /// A map with the same keys and values.
    pub fn duplicate(&self) -> (copy: Self)
        ensures
            copy@ == self@,
    {
        proof {
            use_type_invariant(self);
        }
        let mut entries: Vec<(K, V)> = Vec::new();
        let mut i: usize = 0;
        while i < self.entries.len()
            invariant
                i <= self.entries@.len(),
                entries@.len() == i,
                forall|j: int|
                    0 <= j < i ==> (#[trigger] entries@[j]).0 == self.entries@[j].0
                        && entries@[j].1@ == self.entries@[j].1@,
            decreases self.entries@.len() - i,
        {
            entries.push((self.entries[i].0, self.entries[i].1.duplicate()));
            i = i + 1;
        }
        proof {
            let mine = self.entries@;
            let other = entries@;
            assert(unique(other));
            assert forall|x: Seq<u8>| #[trigger] mapping(other).contains_key(x) == mapping(
                mine,
            ).contains_key(x) by {
                if listed(mine, x) {
                    assert(other[position(mine, x)].0.key() == x);
                }
                if listed(other, x) {
                    assert(mine[position(other, x)].0.key() == x);
                }
            }
            assert forall|x: Seq<u8>| #[trigger] mapping(other).contains_key(x) implies mapping(
                other,
            )[x] == mapping(mine)[x] by {
                let j = position(other, x);
                lemma_entry(other, j);
                lemma_entry(mine, j);
            }
            assert(mapping(other) =~= mapping(mine));
        }
        Table { entries }
    }

    /// What a key is mapped to is the view of a value.
    pub proof fn lemma_value(&self, k: Seq<u8>) -> (value: V)
        requires
            self@.contains_key(k),
        ensures
            self@[k] == value@,
    {
        self.entries@[position(self.entries@, k)].1
    }

    /// A map has finitely many keys.
    pub proof fn lemma_finite(&self)
        ensures
            self@.dom().finite(),
    {
        let keys = self.entries@.map_values(|entry: (K, V)| entry.0.key());
        assert forall|x: Seq<u8>| self@.dom().contains(x) implies keys.to_set().contains(x) by {
            let j = position(self.entries@, x);
            assert(keys[j] == x);
        }
        vstd::seq_lib::seq_to_set_is_finite(keys);
        vstd::set_lib::lemma_set_subset_finite(keys.to_set(), self@.dom());
    }
}

} // verus!
