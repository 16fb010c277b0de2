use crate::crypto::Digest;
use vstd::prelude::*;

verus! {

/// A key that executable code can compare for equality.
pub trait Key: Sized + Copy {
    fn same(&self, other: &Self) -> (same: bool)
        ensures
            same == (*self == *other),
    ;
}

impl Key for u64 {
    fn same(&self, other: &Self) -> (same: bool) {
        *self == *other
    }
}

impl Key for Digest {
    fn same(&self, other: &Self) -> (same: bool) {
        *self == *other
    }
}

/// Two digests that together name one entry.
#[derive(Clone, Copy, Debug, PartialEq, Eq, Structural)]
pub struct Pair {
    pub first: Digest,
    pub second: Digest,
}

impl Key for Pair {
    fn same(&self, other: &Self) -> (same: bool) {
        self.first == other.first && self.second == other.second
    }
}

/// A finite map that remembers the order in which its keys arrived.
pub struct Table<K: Key, V> {
    keys: Vec<K>,
    values: Vec<V>,
}

impl<K: Key, V> View for Table<K, V> {
    type V = Map<K, V>;

    closed spec fn view(&self) -> Map<K, V> {
        Map::new(
            |key: K| self.keys@.contains(key),
            |key: K| self.values@[self.keys@.index_of(key)],
        )
    }
}

impl<K: Key, V> Table<K, V> {
    /// The keys in order of arrival.
    pub closed spec fn keys(&self) -> Seq<K> {
        self.keys@
    }

    pub closed spec fn wf(&self) -> bool {
        &&& self.keys@.len() == self.values@.len()
        &&& self.keys@.no_duplicates()
    }

    /// The keys list the domain, once each, and the map is finite.
    pub proof fn lemma_keys(&self)
        requires
            self.wf(),
        ensures
            self.keys().no_duplicates(),
            self.keys().to_set() == self@.dom(),
            self@.dom().finite(),
            self@.dom().len() == self.keys().len(),
    {
        assert(self.keys@.to_set() =~= self@.dom());
        self.keys@.unique_seq_to_set();
        vstd::seq_lib::seq_to_set_is_finite(self.keys@);
    }

    pub fn new() -> (table: Self)
        ensures
            table.wf(),
            table@ == Map::<K, V>::empty(),
            table.keys() == Seq::<K>::empty(),
    {
        let table = Table { keys: Vec::new(), values: Vec::new() };
        assert(table@ =~= Map::<K, V>::empty());
        table
    }

    pub fn len(&self) -> (len: usize)
        requires
            self.wf(),
        ensures
            len == self@.dom().len(),
            len == self.keys().len(),
    {
        proof {
            self.lemma_keys();
        }
        self.keys.len()
    }

    /// Where `key` sits, if it is present.
    fn position(&self, key: &K) -> (found: Option<usize>)
        requires
            self.wf(),
        ensures
            match found {
                Some(index) => index < self.keys@.len() && self.keys@[index as int] == *key
                    && self.keys@.index_of(*key) == index,
                None => !self.keys@.contains(*key),
            },
    {
        let mut index: usize = 0;
        while index < self.keys.len()
            invariant
                self.wf(),
                index <= self.keys@.len(),
                forall|i: int| 0 <= i < index ==> self.keys@[i] != *key,
            decreases self.keys@.len() - index,
        {
            if self.keys[index].same(key) {
                proof {
                    self.keys@.index_of_first_ensures(*key);
                    let first = self.keys@.index_of(*key);
                    assert(self.keys@.contains(*key));
                    assert(self.keys@[first] == *key);
                }
                return Some(index);
            }
            index += 1;
        }
        None
    }

    /// The key that arrived `index`-th.
    pub fn key_at(&self, index: usize) -> (key: K)
        requires
            self.wf(),
            index < self.keys().len(),
        ensures
            key == self.keys()[index as int],
    {
        self.keys[index]
    }

    pub fn contains_key(&self, key: &K) -> (found: bool)
        requires
            self.wf(),
        ensures
            found == self@.dom().contains(*key),
    {
        self.position(key).is_some()
    }

    pub fn get(&self, key: &K) -> (value: Option<&V>)
        requires
            self.wf(),
        ensures
            match value {
                Some(value) => self@.dom().contains(*key) && *value == self@[*key],
                None => !self@.dom().contains(*key),
            },
    {
        match self.position(key) {
            Some(index) => Some(&self.values[index]),
            None => None,
        }
    }

    /// Binds `key` to `value`; hands back what `key` was bound to before.
    pub fn insert(&mut self, key: K, value: V) -> (previous: Option<V>)
        requires
            old(self).wf(),
        ensures
            final(self).wf(),
            final(self)@ == old(self)@.insert(key, value),
            match previous {
                Some(previous) => old(self)@.dom().contains(key) && previous == old(self)@[key]
                    && final(self).keys() == old(self).keys(),
                None => !old(self)@.dom().contains(key) && final(self).keys() == old(
                    self,
                ).keys().push(key),
            },
    {
        match self.position(&key) {
            Some(index) => {
                let ghost keys = self.keys@;
                let ghost before = self.values@;
                let mut value = value;
                std::mem::swap(&mut self.values[index], &mut value);
                proof {
                    let after = self.values@;
                    assert forall|k: K| keys.contains(k) implies #[trigger] after[keys.index_of(k)]
                        == if k == key {
                        after[index as int]
                    } else {
                        before[keys.index_of(k)]
                    } by {
                        keys.index_of_first_ensures(k);
                    }
                    assert(self@ =~= old(self)@.insert(key, after[index as int]));
                }
                Some(value)
            },
            None => {
                let ghost keys = self.keys@;
                let ghost before = self.values@;
                self.keys.push(key);
                self.values.push(value);
                proof {
                    let grown = self.keys@;
                    assert forall|i: int, j: int| 0 <= i < grown.len() && 0 <= j < grown.len() && i
                        != j implies grown[i] != grown[j] by {
                        if i < keys.len() {
                            assert(keys.contains(grown[i]));
                        }
                        if j < keys.len() {
                            assert(keys.contains(grown[j]));
                        }
                    }
                    assert forall|k: K| grown.contains(k) <==> (keys.contains(k) || k == key) by {
                        if keys.contains(k) {
                            let i = choose|i: int| 0 <= i < keys.len() && keys[i] == k;
                            assert(grown[i] == k);
                        }
                        if k == key {
                            assert(grown[keys.len() as int] == k);
                        }
                    }
                    assert forall|k: K| grown.contains(k) implies #[trigger] self.values@[
                        grown.index_of(k)] == if k == key {
                        value
                    } else {
                        before[keys.index_of(k)]
                    } by {
                        grown.index_of_first_ensures(k);
                        if k != key {
                            keys.index_of_first_ensures(k);
                            let i = keys.index_of(k);
                            assert(grown[i] == k);
                        }
                    }
                    assert(self@ =~= old(self)@.insert(key, value));
                }
                None
            },
        }
    }
}

/// A finite set that remembers the order in which its elements arrived.
pub struct KeySet<K: Key> {
    table: Table<K, ()>,
}

impl<K: Key> View for KeySet<K> {
    type V = Set<K>;

    closed spec fn view(&self) -> Set<K> {
        self.table@.dom()
    }
}

impl<K: Key> KeySet<K> {
    /// The elements in order of arrival.
    pub closed spec fn ordered(&self) -> Seq<K> {
        self.table.keys()
    }

    pub closed spec fn wf(&self) -> bool {
        self.table.wf()
    }

    /// The ordered sequence lists the set, once each.
    pub proof fn lemma_ordered(&self)
        requires
            self.wf(),
        ensures
            self.ordered().no_duplicates(),
            self.ordered().to_set() == self@,
            self@.finite(),
            self@.len() == self.ordered().len(),
    {
        self.table.lemma_keys();
    }

    pub fn new() -> (set: Self)
        ensures
            set.wf(),
            set@ == Set::<K>::empty(),
            set.ordered() == Seq::<K>::empty(),
    {
        let set = KeySet { table: Table::new() };
        assert(set@ =~= Set::<K>::empty());
        set
    }

    pub fn len(&self) -> (len: usize)
        requires
            self.wf(),
        ensures
            len == self@.len(),
            len == self.ordered().len(),
    {
        self.table.len()
    }

    pub fn contains(&self, key: &K) -> (found: bool)
        requires
            self.wf(),
        ensures
            found == self@.contains(*key),
    {
        self.table.contains_key(key)
    }

    /// Adds `key`; tells whether it was absent before.
    pub fn insert(&mut self, key: K) -> (fresh: bool)
        requires
            old(self).wf(),
        ensures
            final(self).wf(),
            final(self)@ == old(self)@.insert(key),
            fresh == !old(self)@.contains(key),
            final(self).ordered() == if fresh {
                old(self).ordered().push(key)
            } else {
                old(self).ordered()
            },
    {
        let previous = self.table.insert(key, ());
        assert(self.table@.dom() =~= old(self).table@.dom().insert(key));
        previous.is_none()
    }

    /// The element that arrived `index`-th.
    pub fn get(&self, index: usize) -> (key: K)
        requires
            self.wf(),
            index < self.ordered().len(),
        ensures
            key == self.ordered()[index as int],
    {
        self.table.key_at(index)
    }
}

} // verus!
