//! Maps and sets over [`Key`] types, kept in insertion order.
use crate::primitives::Key;
use vstd::prelude::*;

verus! {

/// A set of keys, in insertion order.
pub struct KeySet<K> {
    items: Vec<K>,
}

impl<K> View for KeySet<K> {
    type V = Set<K>;

    closed spec fn view(&self) -> Set<K> {
        self.items@.to_set()
    }
}

impl<K> KeySet<K> {
    #[verifier::type_invariant]
    spec fn distinct(self) -> bool {
        self.items@.no_duplicates()
    }

    /// The members in the order in which they were inserted.
    pub closed spec fn order(&self) -> Seq<K> {
        self.items@
    }

    /// The order lists exactly the members, each once.
    pub broadcast proof fn lemma_order(&self)
        ensures
            #[trigger] self.order().to_set() == self@,
    {
    }
}

impl<K: Key> KeySet<K> {
    /// The empty set.
    pub fn new() -> (res: KeySet<K>)
        ensures
            res@ == Set::<K>::empty(),
            res.order() == Seq::<K>::empty(),
    {
        let res: KeySet<K> = KeySet { items: Vec::new() };
        assert(res.items@.to_set() =~= Set::<K>::empty());
        res
    }

    /// How many members there are.
    pub fn len(&self) -> (res: usize)
        ensures
            res == self@.len(),
            self@.finite(),
            res == self.order().len(),
            self.order().no_duplicates(),
    {
        proof {
            use_type_invariant(self);
            self.items@.unique_seq_to_set();
            vstd::seq_lib::seq_to_set_is_finite(self.items@);
        }
        self.items.len()
    }

    /// Whether there are no members.
    pub fn is_empty(&self) -> (res: bool)
        ensures
            res == (self@ == Set::<K>::empty()),
    {
        proof {
            if self.items@.len() > 0 {
                assert(self.items@.contains(self.items@[0]));
                assert(self@.contains(self.items@[0]));
            } else {
                assert(self@ =~= Set::<K>::empty());
            }
        }
        self.items.len() == 0
    }

    /// The member at place `i` of the insertion order.
    pub fn at(&self, i: usize) -> (res: K)
        requires
            i < self.order().len(),
        ensures
            res == self.order()[i as int],
            self@.contains(res),
    {
        assert(self.items@.contains(self.items@[i as int]));
        self.items[i]
    }

    /// Where `key` stands in the insertion order.
    fn position(&self, key: &K) -> (res: Option<usize>)
        ensures
            match res {
                Some(i) => i < self.order().len() && self.order()[i as int] == *key
                    && self@.contains(*key),
                None => !self@.contains(*key),
            },
    {
        let mut i: usize = 0;
        while i < self.items.len()
            invariant
                i <= self.items@.len(),
                forall|j: int| 0 <= j < i ==> self.items@[j] != *key,
            decreases self.items@.len() - i,
        {
            if self.items[i].same(key) {
                assert(self.items@.contains(self.items@[i as int]));
                return Some(i);
            }
            i = i + 1;
        }
        None
    }

    /// Whether `key` is a member.
    pub fn contains(&self, key: &K) -> (res: bool)
        ensures
            res == self@.contains(*key),
    {
        self.position(key).is_some()
    }

    /// Adds `key`; answers whether it is new.
    pub fn insert(&mut self, key: K) -> (res: bool)
        ensures
            final(self)@ == old(self)@.insert(key),
            res == !old(self)@.contains(key),
            final(self).order() == (if old(self)@.contains(key) {
                old(self).order()
            } else {
                old(self).order().push(key)
            }),
    {
        proof {
            use_type_invariant(&*self);
        }
        if self.contains(&key) {
            assert(self@ =~= self@.insert(key));
            return false;
        }
        let ghost before = self.items@;
        let mut items: Vec<K> = Vec::new();
        core::mem::swap(&mut items, &mut self.items);
        items.push(key);
        proof {
            assert forall|i: int, j: int|
                0 <= i < items@.len() && 0 <= j < items@.len() && i != j implies items@[i]
                != items@[j] by {
                if i == before.len() {
                    assert(before.contains(before[j]));
                } else if j == before.len() {
                    assert(before.contains(before[i]));
                }
            }
            assert(items@.to_set() =~= before.to_set().insert(key)) by {
                assert forall|k: K| before.to_set().insert(key).contains(k) implies items@.contains(
                    k,
                ) by {
                    if k == key {
                        assert(items@[before.len() as int] == k);
                    } else {
                        let i = before.index_of(k);
                        assert(items@[i] == k);
                    }
                }
            }
        }
        self.items = items;
        true
    }

    /// Takes `key` out; answers whether it was a member.
    pub fn remove(&mut self, key: &K) -> (res: bool)
        ensures
            final(self)@ == old(self)@.remove(*key),
            res == old(self)@.contains(*key),
    {
        proof {
            use_type_invariant(&*self);
        }
        let found = self.position(key);
        match found {
            None => {
                assert(self@ =~= self@.remove(*key));
                false
            },
            Some(i) => {
                let ghost before = self.items@;
                let mut items: Vec<K> = Vec::new();
                core::mem::swap(&mut items, &mut self.items);
                items.remove(i);
                proof {
                    assert(items@ == before.remove(i as int));
                    assert(items@.to_set() =~= before.to_set().remove(*key)) by {
                        assert forall|k: K| items@.contains(k) implies before.contains(k) && k
                            != *key by {
                            let j = items@.index_of(k);
                            let from = if j < i { j } else { j + 1 };
                            assert(before[from] == k);
                        }
                        assert forall|k: K| before.contains(k) && k != *key implies items@.contains(
                            k,
                        ) by {
                            let j = before.index_of(k);
                            let to = if j < i { j } else { j - 1 };
                            assert(items@[to] == k);
                        }
                    }
                }
                self.items = items;
                true
            },
        }
    }
}

/// A map from keys to values, in the order in which its keys were first inserted.
pub struct KeyMap<K, V> {
    entries: Vec<(K, V)>,
}

/// Whether some entry of `entries` stands under `key`.
pub open spec fn has_entry<K, V>(entries: Seq<(K, V)>, key: K) -> bool {
    exists|i: int| 0 <= i < entries.len() && (#[trigger] entries[i]).0 == key
}

/// The value of an entry of `entries` that stands under `key`.
pub open spec fn entry_value<K, V>(entries: Seq<(K, V)>, key: K) -> V {
    entries[choose|i: int| 0 <= i < entries.len() && (#[trigger] entries[i]).0 == key].1
}

/// The map that a list of entries with distinct keys stands for.
pub open spec fn entries_map<K, V>(entries: Seq<(K, V)>) -> Map<K, V> {
    Map::new(|key: K| has_entry(entries, key), |key: K| entry_value(entries, key))
}

/// No two entries stand under one key.
pub open spec fn distinct_keys<K, V>(entries: Seq<(K, V)>) -> bool {
    forall|i: int, j: int|
        0 <= i < entries.len() && 0 <= j < entries.len() && i != j ==> (#[trigger] entries[i]).0
            != (#[trigger] entries[j]).0
}

/// Each entry of a list with distinct keys is in the map that the list stands for.
pub proof fn lemma_entry_in_map<K, V>(entries: Seq<(K, V)>, i: int)
    requires
        distinct_keys(entries),
        0 <= i < entries.len(),
    ensures
        entries_map(entries).contains_pair(entries[i].0, entries[i].1),
{
    let key = entries[i].0;
    assert(has_entry(entries, key));
    let j = choose|j: int| 0 <= j < entries.len() && (#[trigger] entries[j]).0 == key;
    assert(i == j);
}

impl<K, V> View for KeyMap<K, V> {
    type V = Map<K, V>;

    closed spec fn view(&self) -> Map<K, V> {
        entries_map(self.entries@)
    }
}

impl<K, V> KeyMap<K, V> {
    #[verifier::type_invariant]
    spec fn distinct(self) -> bool {
        distinct_keys(self.entries@)
    }

    /// The entries in the order in which their keys were first inserted.
    pub closed spec fn order(&self) -> Seq<(K, V)> {
        self.entries@
    }
}

impl<K: Key, V> KeyMap<K, V> {
    /// The empty map.
    pub fn new() -> (res: KeyMap<K, V>)
        ensures
            res@ == Map::<K, V>::empty(),
            res.order() == Seq::<(K, V)>::empty(),
    {
        let res: KeyMap<K, V> = KeyMap { entries: Vec::new() };
        assert(res@ =~= Map::<K, V>::empty());
        res
    }

    /// How many entries there are.
    pub fn len(&self) -> (res: usize)
        ensures
            res == self@.len(),
            self@.dom().finite(),
            res == self.order().len(),
            distinct_keys(self.order()),
            entries_map(self.order()) == self@,
    {
        proof {
            use_type_invariant(self);
            let keys = self.entries@.map_values(|e: (K, V)| e.0);
            assert(keys.no_duplicates());
            keys.unique_seq_to_set();
            vstd::seq_lib::seq_to_set_is_finite(keys);
            assert(keys.to_set() =~= self@.dom()) by {
                assert forall|k: K| keys.contains(k) <==> self@.dom().contains(k) by {
                    if keys.contains(k) {
                        let i = keys.index_of(k);
                        assert(self.entries@[i].0 == k);
                    }
                    if has_entry(self.entries@, k) {
                        let i = choose|i: int|
                            0 <= i < self.entries@.len() && (#[trigger] self.entries@[i]).0 == k;
                        assert(keys[i] == k);
                    }
                }
            }
        }
        self.entries.len()
    }

    /// Whether there are no entries.
    pub fn is_empty(&self) -> (res: bool)
        ensures
            res == (self@ == Map::<K, V>::empty()),
            res == (forall|k: K| !self@.contains_key(k)),
    {
        proof {
            if self.entries@.len() > 0 {
                assert(has_entry(self.entries@, self.entries@[0].0));
                assert(self@.contains_key(self.entries@[0].0));
            } else {
                assert(self@ =~= Map::<K, V>::empty());
            }
        }
        self.entries.len() == 0
    }

    /// The key at place `i` of the insertion order.
    pub fn key_at(&self, i: usize) -> (res: K)
        requires
            i < self.order().len(),
        ensures
            res == self.order()[i as int].0,
            self@.contains_pair(res, self.order()[i as int].1),
    {
        proof {
            use_type_invariant(self);
            lemma_entry_in_map(self.entries@, i as int);
        }
        self.entries[i].0
    }

    /// The value at place `i` of the insertion order.
    pub fn value_at(&self, i: usize) -> (res: &V)
        requires
            i < self.order().len(),
        ensures
            *res == self.order()[i as int].1,
    {
        &self.entries[i].1
    }

    /// Where the entry of `key` stands in the insertion order.
    fn position(&self, key: &K) -> (res: Option<usize>)
        ensures
            match res {
                Some(i) => i < self.order().len() && self.order()[i as int].0 == *key
                    && self@.contains_pair(*key, self.order()[i as int].1),
                None => !self@.contains_key(*key),
            },
    {
        let mut i: usize = 0;
        while i < self.entries.len()
            invariant
                i <= self.entries@.len(),
                forall|j: int| 0 <= j < i ==> (#[trigger] self.entries@[j]).0 != *key,
            decreases self.entries@.len() - i,
        {
            if self.entries[i].0.same(key) {
                proof {
                    use_type_invariant(self);
                    lemma_entry_in_map(self.entries@, i as int);
                }
                return Some(i);
            }
            i = i + 1;
        }
        None
    }

    /// Whether there is an entry for `key`.
    pub fn contains_key(&self, key: &K) -> (res: bool)
        ensures
            res == self@.contains_key(*key),
    {
        self.position(key).is_some()
    }

    /// The value of `key`, if it has one.
    pub fn get(&self, key: &K) -> (res: Option<&V>)
        ensures
            match res {
                Some(v) => self@.contains_pair(*key, *v),
                None => !self@.contains_key(*key),
            },
    {
        match self.position(key) {
            Some(i) => Some(&self.entries[i].1),
            None => None,
        }
    }

    /// Puts `value` under `key`, in place of a value that already stands there.
    pub fn insert(&mut self, key: K, value: V)
        ensures
            final(self)@ == old(self)@.insert(key, value),
            !old(self)@.contains_key(key) ==> final(self).order() == old(self).order().push(
                (key, value),
            ),
    {
        proof {
            use_type_invariant(&*self);
        }
        let found = self.position(&key);
        let ghost before = self.entries@;
        let ghost old_map = self@;
        let mut entries: Vec<(K, V)> = Vec::new();
        core::mem::swap(&mut entries, &mut self.entries);
        match found {
            Some(i) => {
                entries.set(i, (key, value));
            },
            None => {
                entries.push((key, value));
            },
        }
        proof {
            assert(distinct_keys(entries@)) by {
                assert forall|i: int, j: int|
                    0 <= i < entries@.len() && 0 <= j < entries@.len() && i
                        != j implies (#[trigger] entries@[i]).0 != (#[trigger] entries@[j]).0 by {
                    if i < before.len() {
                        assert(has_entry(before, before[i].0));
                    }
                    if j < before.len() {
                        assert(has_entry(before, before[j].0));
                    }
                }
            }
            let target = match found {
                Some(i) => i as int,
                None => before.len() as int,
            };
            assert(entries@[target] == (key, value));
            assert(entries_map(entries@) =~= old_map.insert(key, value)) by {
                lemma_entry_in_map(entries@, target);
                assert forall|k: K| k != key implies has_entry(entries@, k) == has_entry(
                    before,
                    k,
                ) && (has_entry(before, k) ==> entry_value(entries@, k) == entry_value(
                    before,
                    k,
                )) by {
                    if has_entry(before, k) {
                        let i = choose|i: int|
                            0 <= i < before.len() && (#[trigger] before[i]).0 == k;
                        assert(entries@[i] == before[i]);
                        lemma_entry_in_map(entries@, i);
                        lemma_entry_in_map(before, i);
                    }
                    if has_entry(entries@, k) {
                        let i = choose|i: int|
                            0 <= i < entries@.len() && (#[trigger] entries@[i]).0 == k;
                        assert(entries@[i] == before[i]);
                    }
                }
            }
        }
        self.entries = entries;
    }

    /// Takes the entry of `key` out, and answers its value.
    pub fn remove(&mut self, key: &K) -> (res: Option<V>)
        ensures
            final(self)@ == old(self)@.remove(*key),
            match res {
                Some(v) => old(self)@.contains_pair(*key, v),
                None => !old(self)@.contains_key(*key),
            },
    {
        proof {
            use_type_invariant(&*self);
        }
        let found = self.position(key);
        match found {
            None => {
                assert(self@ =~= self@.remove(*key));
                None
            },
            Some(at) => {
                let ghost before = self.entries@;
                let ghost old_map = self@;
                let mut entries: Vec<(K, V)> = Vec::new();
                core::mem::swap(&mut entries, &mut self.entries);
                let gone = entries.remove(at);
                proof {
                    assert(entries@ == before.remove(at as int));
                    assert(distinct_keys(entries@)) by {
                        assert forall|i: int, j: int|
                            0 <= i < entries@.len() && 0 <= j < entries@.len() && i
                                != j implies (#[trigger] entries@[i]).0 != (
                        #[trigger] entries@[j]).0 by {
                            let from_i = if i < at { i } else { i + 1 };
                            let from_j = if j < at { j } else { j + 1 };
                            assert(before[from_i].0 != before[from_j].0);
                        }
                    }
                    assert(entries_map(entries@) =~= old_map.remove(*key)) by {
                        assert forall|k: K|
                            has_entry(entries@, k) == (k != *key && has_entry(before, k)) && (
                            has_entry(entries@, k) ==> entry_value(entries@, k) == entry_value(
                                before,
                                k,
                            )) by {
                            if has_entry(entries@, k) {
                                let i = choose|i: int|
                                    0 <= i < entries@.len() && (#[trigger] entries@[i]).0 == k;
                                let from = if i < at { i } else { i + 1 };
                                assert(entries@[i] == before[from]);
                                lemma_entry_in_map(entries@, i);
                                lemma_entry_in_map(before, from);
                                assert(before[from].0 != before[at as int].0);
                            }
                            if k != *key && has_entry(before, k) {
                                let i = choose|i: int|
                                    0 <= i < before.len() && (#[trigger] before[i]).0 == k;
                                let to = if i < at { i } else { i - 1 };
                                assert(entries@[to] == before[i]);
                            }
                        }
                    }
                }
                self.entries = entries;
                Some(gone.1)
            },
        }
    }
}

} // verus!
