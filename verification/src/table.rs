//! A table from byte strings to values.

use vstd::prelude::*;

use crate::model::{bytes_eq, Bytes, Modeled};

verus! {

/// A table from keys to values, in which each key occurs once.
pub struct Table<V: Modeled> {
    entries: Vec<(Bytes, V)>,
}

impl<V: Modeled> Table<V> {
    #[verifier::type_invariant]
    spec fn inv(self) -> bool {
        distinct_keys(self.entries@)
    }

    /// The index at which `key` stands, where it does.
    closed spec fn slot(self, key: Seq<u8>) -> int {
        choose|i: int| 0 <= i < self.entries@.len() && (#[trigger] self.entries@[i]).0@ == key
    }

    closed spec fn has_key(self, key: Seq<u8>) -> bool {
        exists|i: int| 0 <= i < self.entries@.len() && (#[trigger] self.entries@[i]).0@ == key
    }

    /// The table as a map from keys to what the values mean.
    pub closed spec fn view(&self) -> Map<Seq<u8>, V::M> {
        Map::new(|key: Seq<u8>| self.has_key(key), |key: Seq<u8>|
            self.entries@[self.slot(key)].1.model())
    }

    /// A table without entries.
    pub fn new() -> (table: Table<V>)
        ensures
            table@ == Map::<Seq<u8>, V::M>::empty(),
    {
        let table = Table { entries: Vec::new() };
        assert(table@ =~= Map::<Seq<u8>, V::M>::empty());
        table
    }

    fn find(&self, key: &Bytes) -> (index: Option<usize>)
        ensures
            match index {
                Some(i) => i < self.entries@.len() && self.entries@[i as int].0@ == key@,
                None => !self.has_key(key@),
            },
    {
        let mut i: usize = 0;
        while i < self.entries.len()
            invariant
                i <= self.entries@.len(),
                forall|j: int| 0 <= j < i ==> (#[trigger] self.entries@[j]).0@ != key@,
            decreases self.entries@.len() - i,
        {
            if bytes_eq(&self.entries[i].0, key) {
                return Some(i);
            }
            i += 1;
        }
        None
    }

    /// The value under `key`, if there is one.
    pub fn get(&self, key: &Bytes) -> (value: Option<&V>)
        ensures
            match value {
                Some(v) => self@.contains_key(key@) && self@[key@] == v.model(),
                None => !self@.contains_key(key@),
            },
    {
        proof {
            use_type_invariant(self);
        }
        match self.find(key) {
            Some(i) => {
                assert(self.has_key(key@));
                assert(self.slot(key@) == i);
                Some(&self.entries[i].1)
            },
            None => None,
        }
    }

    /// Whether there is a value under `key`.
    pub fn has(&self, key: &Bytes) -> (found: bool)
        ensures
            found == self@.contains_key(key@),
    {
        self.get(key).is_some()
    }

    /// The keys of the table, in no particular order.
    pub fn keys(&self) -> (keys: Vec<Bytes>)
        ensures
            keys.model().no_duplicates(),
            forall|key: Seq<u8>| #[trigger]
                keys.model().contains(key) <==> self@.contains_key(key),
    {
        proof {
            use_type_invariant(self);
        }
        let mut keys: Vec<Bytes> = Vec::new();
        let mut i: usize = 0;
        while i < self.entries.len()
            invariant
                i <= self.entries@.len(),
                keys@.len() == i,
                forall|j: int| 0 <= j < i ==> #[trigger] keys.model()[j] == self.entries@[j].0@,
            decreases self.entries@.len() - i,
        {
            let ghost before: Seq<Seq<u8>> = keys.model();
            let key: Bytes = self.entries[i].0.copied();
            keys.push(key);
            assert(keys.model() =~= before.push(key@));
            i += 1;
        }
        assert forall|key: Seq<u8>| #[trigger]
            keys.model().contains(key) <==> self@.contains_key(key) by {
            if keys.model().contains(key) {
                let j = choose|j: int| 0 <= j < keys.model().len() && keys.model()[j] == key;
                assert(self.entries@[j].0@ == key);
            }
            if self.has_key(key) {
                let j = self.slot(key);
                assert(keys.model()[j] == key);
            }
        }
        keys
    }

    /// Puts `value` under `key`, in place of what was there.
    pub fn set(&mut self, key: &Bytes, value: V)
        ensures
            final(self)@ == old(self)@.insert(key@, value.model()),
    {
        proof {
            use_type_invariant(&*self);
        }
        let ghost before: Table<V> = *self;
        let found = self.find(key);
        let mut entries: Vec<(Bytes, V)> = Vec::new();
        std::mem::swap(&mut entries, &mut self.entries);
        let entry = (key.copied(), value);
        match found {
            Some(i) => {
                entries.set(i, entry);
            },
            None => {
                entries.push(entry);
            },
        }
        self.entries = entries;
        proof {
            assert forall|k: Seq<u8>| #[trigger]
                self.has_key(k) <==> before.has_key(k) || k == key@ by {
                if before.has_key(k) && k != key@ {
                    let i = before.slot(k);
                    assert(self.entries@[i].0@ == k);
                }
                if k == key@ {
                    let i = match found {
                        Some(i) => i as int,
                        None => before.entries@.len() as int,
                    };
                    assert(self.entries@[i].0@ == k);
                }
                if self.has_key(k) && k != key@ {
                    let i = self.slot(k);
                    assert(before.entries@[i].0@ == k);
                }
            }
            assert forall|k: Seq<u8>| #[trigger] self.has_key(k) && k != key@ implies self@[k]
                == before@[k] by {
                let i = self.slot(k);
                let j = before.slot(k);
                assert(before.has_key(k));
                assert(self.entries@[j].0@ == k);
            }
            assert(self.has_key(key@));
            assert(self@[key@] == value.model());
            assert(self@ =~= before@.insert(key@, value.model()));
        }
    }
}

/// No key occurs twice.
spec fn distinct_keys<V>(entries: Seq<(Bytes, V)>) -> bool {
    forall|i: int, j: int|
        0 <= i < j < entries.len() ==> (#[trigger] entries[i]).0@ != (#[trigger] entries[j]).0@
}

} // verus!
