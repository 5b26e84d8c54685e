//! Operations of the shared map: the borrowed counterpart of the owned
//! map's lookup interface.

use vstd::prelude::*;
use crate::hashing::{key_hash, key_hash_of};
use crate::types::model::{ValModel, entries_find, entries_insert, lemma_entries_find, map_get_in};
use crate::types::shared::{SharedValue, SharedMap};

verus! {

impl SharedMap {
    /// A fresh empty map.
    pub fn new() -> (r: SharedMap)
        ensures
            r@.entries == Seq::<(u64, ValModel)>::empty(),
            r@.fields == Seq::<Seq<char>>::empty(),
    {
        let r = SharedMap { map: Vec::new(), fields: Vec::new() };
        proof {
            SharedValue::lemma_entry_models(&r.map, 0);
            assert(r@.entries =~= Seq::<(u64, ValModel)>::empty());
            assert(r@.fields =~= Seq::<Seq<char>>::empty());
        }
        r
    }

    /// The first position holding a key id, if any.
    fn find_pos(&self, key: u64) -> (r: Option<usize>)
        ensures
            r matches Some(pos) ==> entries_find(self@.entries, key) == pos as int,
            r is None ==> entries_find(self@.entries, key) < 0,
    {
        proof {
            SharedValue::lemma_entry_models(&self.map, self.map@.len() as nat);
            lemma_entries_find(self@.entries, key);
        }
        let mut i: usize = 0;
        while i < self.map.len()
            invariant
                i <= self.map@.len(),
                self@.entries.len() == self.map@.len(),
                forall|j: int|
                    0 <= j < self.map@.len() ==> (#[trigger] self@.entries[j]).0 == self.map@[j].0,
                forall|j: int| 0 <= j < i ==> (#[trigger] self@.entries[j]).0 != key,
            decreases self.map@.len() - i,
        {
            if self.map[i].0 == key {
                proof {
                    assert(self@.entries[i as int].0 == key);
                    lemma_entries_find(self@.entries, key);
                    assert(entries_find(self@.entries, key) == i as int);
                }
                return Some(i);
            }
            i = i + 1;
        }
        proof {
            lemma_entries_find(self@.entries, key);
        }
        None
    }

    /// Insert a value under a bare key id, bypassing name tracking.
    pub fn insert_key_id(&mut self, key: u64, value: SharedValue) -> (r: Option<SharedValue>)
        ensures
            final(self)@ == old(self)@.insert_id(key, value@),
            old(self)@.contains_key(key) ==> (r matches Some(prev) && prev@ == old(
                self,
            )@.value_of(key)),
            !old(self)@.contains_key(key) ==> r is None,
    {
        proof {
            SharedValue::lemma_entry_models(&self.map, self.map@.len() as nat);
            lemma_entries_find(self@.entries, key);
        }
        let ghost old_entries = self@.entries;
        let ghost old_fields = self@.fields;
        match self.find_pos(key) {
            Some(pos) => {
                let prev = self.map.remove(pos);
                self.map.insert(pos, (key, value));
                proof {
                    SharedValue::lemma_entry_models(&self.map, self.map@.len() as nat);
                    assert(self@.entries =~= entries_insert(old_entries, key, value@));
                    assert(self@.fields =~= old_fields);
                }
                Some(prev.1)
            },
            None => {
                self.map.push((key, value));
                proof {
                    SharedValue::lemma_entry_models(&self.map, self.map@.len() as nat);
                    assert(self@.entries =~= entries_insert(old_entries, key, value@));
                    assert(self@.fields =~= old_fields);
                }
                None
            },
        }
    }

    /// Insert a value under a field name.
    pub fn insert(&mut self, key: &str, value: SharedValue) -> (r: Option<SharedValue>)
        ensures
            final(self)@ == old(self)@.insert_named(key@, key_hash_of(key@), value@),
            old(self)@.contains_key(key_hash_of(key@)) ==> (r matches Some(prev) && prev@ == old(
                self,
            )@.value_of(key_hash_of(key@))),
            !old(self)@.contains_key(key_hash_of(key@)) ==> r is None,
    {
        let ghost old_fields = self@.fields;
        self.fields.push(key.to_owned());
        proof {
            assert(self@.fields =~= old_fields.push(key@));
            assert(self@.entries == old(self)@.entries);
        }
        let id = key_hash(key);
        self.insert_key_id(id, value)
    }

    /// Total lookup by key id: the value stored under the id, or the
    /// canonical Null for an id that was never inserted — never an error.
    pub fn get_by_key_id(&self, key: u64) -> (r: SharedValue)
        ensures
            r@ == self@.lookup(key),
    {
        proof {
            SharedValue::lemma_entry_models(&self.map, self.map@.len() as nat);
            lemma_entries_find(self@.entries, key);
        }
        match self.find_pos(key) {
            Some(pos) => self.map[pos].1.duplicate(),
            None => SharedValue::Null,
        }
    }

    /// Total lookup by field name.
    pub fn get(&self, key: &str) -> (r: SharedValue)
        ensures
            r@ == self@.lookup(key_hash_of(key@)),
    {
        let id = key_hash(key);
        self.get_by_key_id(id)
    }

    /// Nested path lookup from position `at` of the id path.
    fn get_in_from(&self, ids: &[u64], at: usize) -> (r: SharedValue)
        ensures
            r@ == map_get_in(self@, ids@, at as int),
        decreases ids@.len() - at,
    {
        if at >= ids.len() {
            return SharedValue::Null;
        }
        let v = self.get_by_key_id(ids[at]);
        if at == ids.len() - 1 {
            v
        } else {
            match v {
                SharedValue::DataMap(inner) => inner.get_in_from(ids, at + 1),
                _ => SharedValue::Null,
            }
        }
    }

    /// Nested path lookup over a path of key ids: short-circuits to Null
    /// the moment an intermediate value is not itself a map.
    pub fn get_in_by_ids(&self, ids: &[u64]) -> (r: SharedValue)
        ensures
            r@ == map_get_in(self@, ids@, 0),
    {
        self.get_in_from(ids, 0)
    }

    /// The number of distinct keys.
    pub fn len(&self) -> (r: usize)
        ensures
            r == self@.len(),
    {
        proof {
            SharedValue::lemma_entry_models(&self.map, self.map@.len() as nat);
        }
        self.map.len()
    }
}

} // verus!
