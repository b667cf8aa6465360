//! A small table from logical keys to values, in which no key occurs twice.

use vstd::prelude::*;
use crate::keys::KeyId;

verus! {

/// A table from keys to values. Entries are kept in the order in which their
/// keys were first inserted.
pub struct KeyTable<V: Copy> {
    entries: Vec<(KeyId, V)>,
}

/// No key occurs twice among `entries`.
pub open spec fn distinct_keys<V>(entries: Seq<(KeyId, V)>) -> bool {
    forall|i: int, j: int|
        0 <= i < entries.len() && 0 <= j < entries.len() && i != j ==> entries[i].0 != entries[j].0
}

/// The map that `entries` stand for.
pub open spec fn map_of<V>(entries: Seq<(KeyId, V)>) -> Map<KeyId, V> {
    Map::new(
        |k: KeyId| exists|i: int| 0 <= i < entries.len() && (#[trigger] entries[i]).0 == k,
        |k: KeyId|
            entries[choose|i: int| 0 <= i < entries.len() && (#[trigger] entries[i]).0 == k].1,
    )
}

/// Where no key occurs twice, the pairs of the map are the entries.
pub proof fn lemma_pairs_of_map<V>(entries: Seq<(KeyId, V)>)
    requires
        distinct_keys(entries),
    ensures
        forall|k: KeyId, v: V| entries.contains((k, v)) <==> map_of(entries).contains_pair(k, v),
        forall|i: int| 0 <= i < entries.len() ==> map_of(entries).contains_key((#[trigger] entries[i]).0),
{
    assert forall|k: KeyId, v: V| entries.contains((k, v)) <==> map_of(entries).contains_pair(
        k,
        v,
    ) by {
        if entries.contains((k, v)) {
            let i = choose|i: int| 0 <= i < entries.len() && entries[i] == (k, v);
            assert(entries[i].0 == k);
            let h = choose|h: int| 0 <= h < entries.len() && (#[trigger] entries[h]).0 == k;
            assert(h == i);
        }
        if map_of(entries).contains_pair(k, v) {
            let h = choose|h: int| 0 <= h < entries.len() && (#[trigger] entries[h]).0 == k;
            assert(entries[h] == (k, v));
        }
    }
}

impl<V: Copy> KeyTable<V> {
    #[verifier::type_invariant]
    spec fn well_formed(self) -> bool {
        distinct_keys(self.entries@)
    }

    /// The entries of the table, in the order in which their keys were
    /// first inserted.
    pub closed spec fn pairs(self) -> Seq<(KeyId, V)> {
        self.entries@
    }

    /// The map that the table stands for.
    pub open spec fn view(self) -> Map<KeyId, V> {
        map_of(self.pairs())
    }

    /// An empty table.
    pub fn new() -> (table: Self)
        ensures
            table.pairs() == Seq::<(KeyId, V)>::empty(),
            table@ == Map::<KeyId, V>::empty(),
    {
        let table = KeyTable { entries: Vec::new() };
        assert(table@ =~= Map::<KeyId, V>::empty());
        table
    }

    /// The position of `key` among the entries, if it has one.
    fn position(&self, key: KeyId) -> (at: Option<usize>)
        ensures
            match at {
                Some(i) => i < self.pairs().len() && self.pairs()[i as int].0 == key,
                None => forall|j: int| 0 <= j < self.pairs().len() ==> self.pairs()[j].0 != key,
            },
    {
        let mut i: usize = 0;
        while i < self.entries.len()
            invariant
                i <= self.entries.len(),
                forall|j: int| 0 <= j < i ==> self.entries@[j].0 != key,
            decreases self.entries.len() - i,
        {
            if self.entries[i].0 == key {
                return Some(i);
            }
            i += 1;
        }
        None
    }

    /// The value that `key` has in the table, if it has one.
    pub fn get(&self, key: KeyId) -> (value: Option<V>)
        ensures
            value == (if self@.contains_key(key) {
                Some(self@[key])
            } else {
                None
            }),
    {
        proof {
            use_type_invariant(self);
        }
        match self.position(key) {
            Some(i) => {
                assert(self.entries@[i as int].0 == key);
                Some(self.entries[i].1)
            },
            None => None,
        }
    }

    /// Gives `key` the value `value`, in place of the value it had if it had
    /// one.
    pub fn insert(&mut self, key: KeyId, value: V)
        ensures
            final(self)@ == old(self)@.insert(key, value),
            final(self).pairs().len() == old(self).pairs().len() + (if old(self)@.contains_key(key) {
                0int
            } else {
                1int
            }),
    {
        proof {
            use_type_invariant(&*self);
        }
        let ghost before = self.entries@;
        let mut entries = self.to_vec();
        match self.position(key) {
            Some(i) => {
                entries.set(i, (key, value));
                proof {
                    let after = entries@;
                    assert(before[i as int].0 == key);
                    assert forall|k: KeyId| map_of(after).contains_key(k) == map_of(
                        before,
                    ).insert(key, value).contains_key(k) by {
                        if map_of(after).contains_key(k) {
                            let j = choose|j: int| 0 <= j < after.len() && (#[trigger] after[j]).0 == k;
                            assert(before[j].0 == k);
                        }
                        if map_of(before).contains_key(k) {
                            let j = choose|j: int|
                                0 <= j < before.len() && (#[trigger] before[j]).0 == k;
                            assert(after[j].0 == k);
                        }
                        if k == key {
                            assert(after[i as int].0 == k);
                        }
                    }
                    assert forall|k: KeyId| map_of(after).contains_key(k) implies map_of(after)[k]
                        == map_of(before).insert(key, value)[k] by {
                        let j = choose|j: int| 0 <= j < after.len() && (#[trigger] after[j]).0 == k;
                        assert(before[j].0 == k);
                        if k != key {
                            let h = choose|h: int|
                                0 <= h < before.len() && (#[trigger] before[h]).0 == k;
                            assert(h == j);
                        } else {
                            assert(j == i);
                        }
                    }
                    assert(map_of(after) =~= map_of(before).insert(key, value));
                }
            },
            None => {
                entries.push((key, value));
                proof {
                    let after = entries@;
                    let n = before.len() as int;
                    assert(after[n].0 == key);
                    assert forall|k: KeyId| map_of(after).contains_key(k) == map_of(
                        before,
                    ).insert(key, value).contains_key(k) by {
                        if map_of(after).contains_key(k) {
                            let j = choose|j: int| 0 <= j < after.len() && (#[trigger] after[j]).0 == k;
                            if j < n {
                                assert(before[j].0 == k);
                            }
                        }
                        if map_of(before).contains_key(k) {
                            let j = choose|j: int|
                                0 <= j < before.len() && (#[trigger] before[j]).0 == k;
                            assert(after[j].0 == k);
                        }
                    }
                    assert forall|k: KeyId| map_of(after).contains_key(k) implies map_of(after)[k]
                        == map_of(before).insert(key, value)[k] by {
                        let j = choose|j: int| 0 <= j < after.len() && (#[trigger] after[j]).0 == k;
                        if k != key {
                            assert(j < n);
                            assert(before[j].0 == k);
                            let h = choose|h: int|
                                0 <= h < before.len() && (#[trigger] before[h]).0 == k;
                            assert(h == j);
                        } else {
                            assert(j == n);
                        }
                    }
                    assert(map_of(after) =~= map_of(before).insert(key, value));
                }
            },
        }
        self.entries = entries;
    }

    /// Removes `key` and its value from the table.
    pub fn remove(&mut self, key: KeyId)
        ensures
            final(self)@ == old(self)@.remove(key),
    {
        proof {
            use_type_invariant(&*self);
        }
        let ghost before = self.entries@;
        let mut entries = self.to_vec();
        match self.position(key) {
            Some(i) => {
                entries.remove(i);
                proof {
                    let after = entries@;
                    assert(after == before.remove(i as int));
                    assert forall|k: KeyId| map_of(after).contains_key(k) == map_of(
                        before,
                    ).remove(key).contains_key(k) by {
                        if map_of(after).contains_key(k) {
                            let j = choose|j: int| 0 <= j < after.len() && (#[trigger] after[j]).0 == k;
                            let j0 = if j < i { j } else { j + 1 };
                            assert(before[j0].0 == k);
                        }
                        if map_of(before).contains_key(k) && k != key {
                            let j = choose|j: int|
                                0 <= j < before.len() && (#[trigger] before[j]).0 == k;
                            let j1 = if j < i { j } else { j - 1 };
                            assert(after[j1].0 == k);
                        }
                    }
                    assert forall|k: KeyId| map_of(after).contains_key(k) implies map_of(after)[k]
                        == map_of(before).remove(key)[k] by {
                        let j = choose|j: int| 0 <= j < after.len() && (#[trigger] after[j]).0 == k;
                        let j0 = if j < i { j } else { j + 1 };
                        assert(before[j0].0 == k);
                        let h = choose|h: int| 0 <= h < before.len() && (#[trigger] before[h]).0 == k;
                        assert(h == j0);
                    }
                    assert(map_of(after) =~= map_of(before).remove(key));
                }
            },
            None => {
                assert(map_of(before) =~= map_of(before).remove(key));
            },
        }
        self.entries = entries;
    }

    /// Removes every entry.
    pub fn clear(&mut self)
        ensures
            final(self)@ == Map::<KeyId, V>::empty(),
            final(self).pairs() == Seq::<(KeyId, V)>::empty(),
    {
        self.entries = Vec::new();
        assert(map_of(self.entries@) =~= Map::<KeyId, V>::empty());
    }

    /// The entries of the table, in the order in which their keys were first
    /// inserted.
    pub fn to_vec(&self) -> (pairs: Vec<(KeyId, V)>)
        ensures
            pairs@ == self.pairs(),
            distinct_keys(pairs@),
            forall|k: KeyId, v: V| pairs@.contains((k, v)) <==> self@.contains_pair(k, v),
            forall|i: int| 0 <= i < pairs@.len() ==> self@.contains_key((#[trigger] pairs@[i]).0),
    {
        proof {
            use_type_invariant(self);
            lemma_pairs_of_map(self.entries@);
        }
        let mut pairs: Vec<(KeyId, V)> = Vec::new();
        let mut i: usize = 0;
        while i < self.entries.len()
            invariant
                i <= self.entries.len(),
                pairs@ == self.entries@.take(i as int),
            decreases self.entries.len() - i,
        {
            pairs.push(self.entries[i]);
            assert(self.entries@.take(i + 1) =~= self.entries@.take(i as int).push(
                self.entries@[i as int],
            ));
            i += 1;
        }
        assert(self.entries@.take(self.entries.len() as int) =~= self.entries@);
        pairs
    }
}

} // verus!
