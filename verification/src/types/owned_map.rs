//! Operations of the owned map: insertion by field name or bare key id,
//! total lookup, nested path access, and recovery of the name-keyed view.

use vstd::prelude::*;
use crate::hashing::{key_hash, key_hash_of};
use crate::types::model::{
    ValModel, MapModel, entries_find, entries_insert, lemma_entries_find, map_get_in, map_set_in,
};
use crate::types::owned::{OwnedValue, OwnedMap, ToValue};

verus! {

/// The field name a key id reads back as: the last name in the field list
/// that hashes to the id.
pub open spec fn name_for(fields: Seq<Seq<char>>, id: u64) -> Option<Seq<char>>
    decreases fields.len(),
{
    if fields.len() == 0 {
        None
    } else if key_hash_of(fields.last()) == id {
        Some(fields.last())
    } else {
        name_for(fields.drop_last(), id)
    }
}

/// The name-keyed view of an entry list: each entry whose key id still has a
/// name in the field list, in entry order, under that name; entries whose
/// names are gone from the field list are dropped.
pub open spec fn string_map_of(entries: Seq<(u64, ValModel)>, fields: Seq<Seq<char>>) -> Seq<
    (Seq<char>, ValModel),
>
    decreases entries.len(),
{
    if entries.len() == 0 {
        Seq::empty()
    } else {
        string_map_of(entries.drop_last(), fields) + (match name_for(fields, entries.last().0) {
            Some(n) => seq![(n, entries.last().1)],
            None => Seq::empty(),
        })
    }
}

impl OwnedMap {
    /// A fresh empty map.
    pub fn new() -> (r: OwnedMap)
        ensures
            r@.entries == Seq::<(u64, ValModel)>::empty(),
            r@.fields == Seq::<Seq<char>>::empty(),
    {
        let r = OwnedMap { map: Vec::new(), fields: Vec::new() };
        proof {
            OwnedValue::lemma_entry_models(&r.map, 0);
            assert(r@.entries =~= Seq::<(u64, ValModel)>::empty());
            assert(r@.fields =~= Seq::<Seq<char>>::empty());
        }
        r
    }

    /// The first position holding a key id, if any: the exec side of
    /// `entries_find`.
    fn find_pos(&self, key: u64) -> (r: Option<usize>)
        ensures
            r matches Some(pos) ==> entries_find(self@.entries, key) == pos as int,
            r is None ==> entries_find(self@.entries, key) < 0,
    {
        proof {
            OwnedValue::lemma_entry_models(&self.map, self.map@.len() as nat);
            lemma_entries_find(self@.entries, key);
        }
        let mut i: usize = 0;
        while i < self.map.len()
            invariant
                i <= self.map@.len(),
                self@.entries.len() == self.map@.len(),
                forall|j: int|
                    0 <= j < self.map@.len() ==> (#[trigger] self@.entries[j]).0 == self.map@[j].0,
                forall|j: int| 0 <= j < i ==> (#[trigger] self@.entries[j]).0 != key,
            decreases self.map@.len() - i,
        {
            if self.map[i].0 == key {
                proof {
                    assert(self@.entries[i as int].0 == key);
                    lemma_entries_find(self@.entries, key);
                    assert(entries_find(self@.entries, key) >= 0);
                    assert(entries_find(self@.entries, key) == i as int);
                }
                return Some(i);
            }
            i = i + 1;
        }
        proof {
            lemma_entries_find(self@.entries, key);
        }
        None
    }

    /// Insert a value under a bare key id, bypassing name tracking: the
    /// value replaces the first entry with that id, or joins the end of the
    /// entry list. Hands back the value previously stored under the id.
    pub fn insert_key_id(&mut self, key: u64, value: OwnedValue) -> (r: Option<OwnedValue>)
        ensures
            final(self)@ == old(self)@.insert_id(key, value@),
            old(self)@.contains_key(key) ==> (r matches Some(prev) && prev@ == old(self)@.value_of(key)),
            !old(self)@.contains_key(key) ==> r is None,
    {
        proof {
            OwnedValue::lemma_entry_models(&self.map, self.map@.len() as nat);
            lemma_entries_find(self@.entries, key);
        }
        let ghost old_entries = self@.entries;
        let ghost old_fields = self@.fields;
        match self.find_pos(key) {
            Some(pos) => {
                let prev = self.map.remove(pos);
                self.map.insert(pos, (key, value));
                proof {
                    OwnedValue::lemma_entry_models(&self.map, self.map@.len() as nat);
                    assert(self@.entries =~= entries_insert(old_entries, key, value@));
                    assert(self@.fields =~= old_fields);
                }
                Some(prev.1)
            },
            None => {
                self.map.push((key, value));
                proof {
                    OwnedValue::lemma_entry_models(&self.map, self.map@.len() as nat);
                    assert(self@.entries =~= entries_insert(old_entries, key, value@));
                    assert(self@.fields =~= old_fields);
                }
                None
            },
        }
    }

    /// Insert a value under a field name: the name joins the field list and
    /// the value is stored under the name's hashed key id.
    pub fn insert(&mut self, key: &str, value: OwnedValue) -> (r: Option<OwnedValue>)
        ensures
            final(self)@ == old(self)@.insert_named(key@, key_hash_of(key@), value@),
            old(self)@.contains_key(key_hash_of(key@)) ==> (r matches Some(prev) && prev@ == old(self)@.value_of(key_hash_of(key@))),
            !old(self)@.contains_key(key_hash_of(key@)) ==> r is None,
    {
        let ghost old_fields = self@.fields;
        self.fields.push(key.to_owned());
        proof {
            assert(self@.fields =~= old_fields.push(key@));
            assert(self@.entries == old(self)@.entries);
        }
        let id = key_hash(key);
        self.insert_key_id(id, value)
    }

    /// Total lookup by key id: the value stored under the id, or the
    /// canonical Null for an id that was never inserted — never an error.
    pub fn get_by_key_id(&self, key: u64) -> (r: OwnedValue)
        ensures
            r@ == self@.lookup(key),
    {
        proof {
            OwnedValue::lemma_entry_models(&self.map, self.map@.len() as nat);
            lemma_entries_find(self@.entries, key);
        }
        match self.find_pos(key) {
            Some(pos) => self.map[pos].1.duplicate(),
            None => OwnedValue::Null,
        }
    }

    /// Total lookup by field name.
    pub fn get(&self, key: &str) -> (r: OwnedValue)
        ensures
            r@ == self@.lookup(key_hash_of(key@)),
    {
        let id = key_hash(key);
        self.get_by_key_id(id)
    }

    /// Hash a list of field names to their key ids.
    pub fn strs_to_ids(keys: &[&str]) -> (r: Vec<u64>)
        ensures
            r@.len() == keys@.len(),
            forall|i: int| 0 <= i < keys@.len() ==> r@[i] == key_hash_of(keys@[i]@),
    {
        let mut out: Vec<u64> = Vec::new();
        let mut i: usize = 0;
        while i < keys.len()
            invariant
                i <= keys@.len(),
                out@.len() == i,
                forall|j: int| 0 <= j < i ==> out@[j] == key_hash_of(keys@[j]@),
            decreases keys@.len() - i,
        {
            out.push(key_hash(keys[i]));
            i = i + 1;
        }
        out
    }

    /// Nested path lookup from position `at` of the id path.
    fn get_in_from(&self, ids: &[u64], at: usize) -> (r: OwnedValue)
        ensures
            r@ == map_get_in(self@, ids@, at as int),
        decreases ids@.len() - at,
    {
        if at >= ids.len() {
            return OwnedValue::Null;
        }
        let v = self.get_by_key_id(ids[at]);
        if at == ids.len() - 1 {
            v
        } else {
            match v {
                OwnedValue::DataMap(inner) => inner.get_in_from(ids, at + 1),
                _ => OwnedValue::Null,
            }
        }
    }

    /// Nested path lookup over a path of key ids: short-circuits to Null the
    /// moment an intermediate value is not itself a map.
    pub fn get_in_by_ids(&self, ids: &[u64]) -> (r: OwnedValue)
        ensures
            r@ == map_get_in(self@, ids@, 0),
    {
        self.get_in_from(ids, 0)
    }

    /// Nested path lookup over a path of field names.
    pub fn get_in(&self, keys: &[&str]) -> (r: OwnedValue)
        ensures
            r@ == map_get_in(
                self@,
                Seq::new(keys@.len(), |i: int| key_hash_of(keys@[i]@)),
                0,
            ),
    {
        let ids = Self::strs_to_ids(keys);
        let r = self.get_in_by_ids(ids.as_slice());
        proof {
            assert(ids@ =~= Seq::new(keys@.len(), |i: int| key_hash_of(keys@[i]@)));
        }
        r
    }

    /// Nested path update from position `at` of the id path.
    fn set_in_from(&mut self, ids: &[u64], at: usize, value: OwnedValue) -> (r: Option<()>)
        ensures
            map_set_in(old(self)@, ids@, at as int, value@) matches Some(nm) ==> (r == Some(())
                && final(self)@ == nm),
            map_set_in(old(self)@, ids@, at as int, value@) is None ==> (r is None && final(self)@
                == old(self)@),
        decreases ids@.len() - at,
    {
        proof {
            OwnedValue::lemma_entry_models(&self.map, self.map@.len() as nat);
            lemma_entries_find(self@.entries, if at < ids@.len() {
                ids@[at as int]
            } else {
                0u64
            });
        }
        if at >= ids.len() {
            return None;
        }
        let key = ids[at];
        let pos_opt = self.find_pos(key);
        match pos_opt {
            None => None,
            Some(pos) => {
                let ghost old_entries = self@.entries;
                let ghost old_fields = self@.fields;
                let entry = self.map.remove(pos);
                let entry_key = entry.0;
                if at == ids.len() - 1 {
                    match entry.1 {
                        OwnedValue::Null => {
                            self.map.insert(pos, (entry_key, OwnedValue::Null));
                            proof {
                                OwnedValue::lemma_entry_models(&self.map, self.map@.len() as nat);
                                assert(self@.entries =~= old_entries);
                                assert(self@.fields =~= old_fields);
                                assert(self@ =~= old(self)@);
                            }
                            None
                        },
                        _ => {
                            self.map.insert(pos, (entry_key, value));
                            proof {
                                OwnedValue::lemma_entry_models(&self.map, self.map@.len() as nat);
                                assert(self@.entries =~= old_entries.update(
                                    pos as int,
                                    (key, value@),
                                ));
                                assert(self@.fields =~= old_fields);
                            }
                            Some(())
                        },
                    }
                } else {
                    match entry.1 {
                        OwnedValue::DataMap(mut inner) => {
                            let res = inner.set_in_from(ids, at + 1, value);
                            self.map.insert(pos, (entry_key, OwnedValue::DataMap(inner)));
                            proof {
                                OwnedValue::lemma_entry_models(&self.map, self.map@.len() as nat);
                                if res is Some {
                                    assert(self@.entries =~= old_entries.update(
                                        pos as int,
                                        (key, self.map@[pos as int].1@),
                                    ));
                                } else {
                                    assert(self@.entries =~= old_entries);
                                }
                                assert(self@.fields =~= old_fields);
                                if res is None {
                                    assert(self@ =~= old(self)@);
                                }
                            }
                            res
                        },
                        other => {
                            self.map.insert(pos, (entry_key, other));
                            proof {
                                OwnedValue::lemma_entry_models(&self.map, self.map@.len() as nat);
                                assert(self@.entries =~= old_entries);
                                assert(self@.fields =~= old_fields);
                                assert(self@ =~= old(self)@);
                            }
                            None
                        },
                    }
                }
            },
        }
    }

    /// Nested path update over a path of key ids: fails, leaving the map
    /// unchanged, the moment the path leaves maps, hits an absent key, or
    /// ends at a Null.
    pub fn set_in_by_key_ids(&mut self, ids: &[u64], value: OwnedValue) -> (r: Option<()>)
        ensures
            map_set_in(old(self)@, ids@, 0, value@) matches Some(nm) ==> (r == Some(()) && final(self)@ == nm),
            map_set_in(old(self)@, ids@, 0, value@) is None ==> (r is None && final(self)@ == old(self)@),
    {
        self.set_in_from(ids, 0, value)
    }

    /// Nested path update over a path of field names.
    pub fn set_in(&mut self, keys: &[&str], value: OwnedValue) -> (r: Option<()>)
        ensures
            map_set_in(
                old(self)@,
                Seq::new(keys@.len(), |i: int| key_hash_of(keys@[i]@)),
                0,
                value@,
            ) matches Some(nm) ==> (r == Some(()) && final(self)@ == nm),
            map_set_in(
                old(self)@,
                Seq::new(keys@.len(), |i: int| key_hash_of(keys@[i]@)),
                0,
                value@,
            ) is None ==> (r is None && final(self)@ == old(self)@),
    {
        let ids = Self::strs_to_ids(keys);
        proof {
            assert(ids@ =~= Seq::new(keys@.len(), |i: int| key_hash_of(keys@[i]@)));
        }
        self.set_in_by_key_ids(ids.as_slice(), value)
    }

    /// The number of distinct keys; field names can diverge from it when a
    /// key was inserted only by id.
    pub fn len(&self) -> (r: usize)
        ensures
            r == self@.len(),
    {
        proof {
            OwnedValue::lemma_entry_models(&self.map, self.map@.len() as nat);
        }
        self.map.len()
    }
}

/// The map a list of name/value pairs builds, folded by insertion from
/// pair `i` on.
pub open spec fn spec_from_pairs(ps: Seq<(Seq<char>, ValModel)>, i: int, m: MapModel) -> MapModel
    decreases ps.len() - i,
{
    if i < 0 || i >= ps.len() {
        m
    } else {
        spec_from_pairs(ps, i + 1, m.insert_named(ps[i].0, key_hash_of(ps[i].0), ps[i].1))
    }
}

impl OwnedMap {
    /// Build a map from name/value pairs, inserted in order: a repeated
    /// name's later value wins, and every name joins the field list.
    #[verifier::loop_isolation(false)]
    pub fn from_hash_map(pairs: Vec<(String, OwnedValue)>) -> (r: OwnedMap)
        ensures
            r@ == spec_from_pairs(
                Seq::new(pairs@.len(), |i: int| (pairs@[i].0@, pairs@[i].1.model())),
                0,
                MapModel { entries: Seq::empty(), fields: Seq::empty() },
            ),
    {
        let ghost ps = Seq::new(pairs@.len(), |i: int| (pairs@[i].0@, pairs@[i].1.model()));
        let mut m = OwnedMap::new();
        proof {
            assert(m@ =~= MapModel { entries: Seq::empty(), fields: Seq::empty() });
        }
        let mut i: usize = 0;
        while i < pairs.len()
            invariant
                i <= pairs@.len(),
                spec_from_pairs(ps, i as int, m@) == spec_from_pairs(
                    ps,
                    0,
                    MapModel { entries: Seq::empty(), fields: Seq::empty() },
                ),
            decreases pairs@.len() - i,
        {
            let name = pairs[i].0.clone();
            let val = pairs[i].1.duplicate();
            m.insert(name.as_str(), val);
            i = i + 1;
        }
        m
    }

    /// Insert a host value under a field name, converting it first.
    pub fn insert_value<V: ToValue>(&mut self, key: &str, value: V) -> (r: Option<OwnedValue>)
        ensures
            final(self)@ == old(self)@.insert_named(
                key@,
                key_hash_of(key@),
                value.to_value_model(),
            ),
    {
        self.insert(key, value.value())
    }

    /// Insert a host value under a bare key id, converting it first.
    pub fn insert_key_id_value<V: ToValue>(&mut self, key: u64, value: V) -> (r: Option<
        OwnedValue,
    >)
        ensures
            final(self)@ == old(self)@.insert_id(key, value.to_value_model()),
    {
        self.insert_key_id(key, value.value())
    }

    /// Recover the name-keyed view: each entry whose key id still has a
    /// name in the field list, in entry order, under that name (the last
    /// matching name wins); entries inserted only by id are dropped.
    #[verifier::loop_isolation(false)]
    pub fn into_string_map(self) -> (r: Vec<(String, OwnedValue)>)
        ensures
            Seq::new(r@.len(), |i: int| (r@[i].0@, r@[i].1.model())) == crate::types::owned_map::string_map_of(
                self@.entries,
                self@.fields,
            ),
    {
        proof {
            OwnedValue::lemma_entry_models(&self.map, self.map@.len() as nat);
        }
        let ghost entries_m = self@.entries;
        let ghost fields_m = self@.fields;
        let mut out: Vec<(String, OwnedValue)> = Vec::new();
        let mut i: usize = 0;
        while i < self.map.len()
            invariant
                i <= self.map@.len(),
                Seq::new(out@.len(), |k: int| (out@[k].0@, out@[k].1.model()))
                    =~= string_map_of(entries_m.subrange(0, i as int), fields_m),
            decreases self.map@.len() - i,
        {
            let fid = self.map[i].0;
            let name_opt = self.find_name(fid);
            let ghost before = Seq::new(out@.len(), |k: int| (out@[k].0@, out@[k].1.model()));
            match name_opt {
                Some(name) => {
                    out.push((name, self.map[i].1.duplicate()));
                },
                None => {},
            }
            proof {
                let pre = entries_m.subrange(0, i + 1);
                assert(pre.drop_last() =~= entries_m.subrange(0, i as int));
                assert(pre.last() == entries_m[i as int]);
                assert(Seq::new(out@.len(), |k: int| (out@[k].0@, out@[k].1.model()))
                    =~= string_map_of(pre, fields_m));
            }
            i = i + 1;
        }
        proof {
            assert(entries_m.subrange(0, entries_m.len() as int) =~= entries_m);
        }
        out
    }

    /// The last field name in the list that hashes to the id, if any.
    fn find_name(&self, id: u64) -> (r: Option<String>)
        ensures
            name_for(self@.fields, id) matches Some(n) ==> (r matches Some(s) && s@ == n),
            name_for(self@.fields, id) is None ==> r is None,
    {
        let ghost fm = self@.fields;
        let n = self.fields.len();
        let mut j: usize = n;
        proof {
            assert(fm.subrange(0, n as int) =~= fm);
        }
        while j > 0
            invariant
                j <= n,
                n == self.fields@.len(),
                fm == self@.fields,
                fm.len() == n,
                forall|k: int| 0 <= k < fm.len() ==> #[trigger] fm[k] == self.fields@[k]@,
                name_for(fm, id) == name_for(fm.subrange(0, j as int), id),
            decreases j,
        {
            j = j - 1;
            let h = key_hash(self.fields[j].as_str());
            proof {
                assert(fm.subrange(0, j + 1).last() == fm[j as int]);
                assert(fm.subrange(0, j + 1).drop_last() =~= fm.subrange(0, j as int));
            }
            if h == id {
                proof {
                    assert(name_for(fm.subrange(0, j + 1), id) == Some(fm[j as int]));
                }
                return Some(self.fields[j].clone());
            }
        }
        proof {
            assert(fm.subrange(0, 0) =~= Seq::<Seq<char>>::empty());
        }
        None
    }
}

} // verus!
