//! Mathematical models of the value representation. Owned and shared values
//! share one model, which is what makes the two physical representations
//! semantically interchangeable: converting between them preserves the model.

use vstd::prelude::*;
use crate::types::pos::{Pos2d32, Pos2d64, Pos3d32, Pos3d64};
use crate::types::id::Id;
use crate::types::data_type::Type;

verus! {

/// The model of a homogeneous packed array: one sequence of plain payloads
/// per registered primitive type. Float payloads are IEEE 754 bit patterns.
#[verifier::ext_equal]
pub enum PrimArrayModel {
    Bool(Seq<bool>),
    Char(Seq<char>),
    I8(Seq<i8>),
    I16(Seq<i16>),
    I32(Seq<i32>),
    I64(Seq<i64>),
    U8(Seq<u8>),
    U16(Seq<u16>),
    U32(Seq<u32>),
    U64(Seq<u64>),
    F32(Seq<u32>),
    F64(Seq<u64>),
    Pos2d32(Seq<Pos2d32>),
    Pos2d64(Seq<Pos2d64>),
    Pos3d32(Seq<Pos3d32>),
    Pos3d64(Seq<Pos3d64>),
    Id(Seq<Id>),
    String(Seq<Seq<char>>),
    Bytes(Seq<Seq<u8>>),
    SmallBytes(Seq<Seq<u8>>),
}

/// The model of a map: the key/value entries in insertion order, with each
/// key stored under its 64-bit id, and the list of field names in the order
/// they were declared.
#[verifier::ext_equal]
pub struct MapModel {
    pub entries: Seq<(u64, ValModel)>,
    pub fields: Seq<Seq<char>>,
}

/// The model of a value: its type and plain payload. Float payloads are IEEE
/// 754 bit patterns.
#[verifier::ext_equal]
pub enum ValModel {
    Bool(bool),
    Char(char),
    I8(i8),
    I16(i16),
    I32(i32),
    I64(i64),
    U8(u8),
    U16(u16),
    U32(u32),
    U64(u64),
    F32(u32),
    F64(u64),
    Pos2d32(Pos2d32),
    Pos2d64(Pos2d64),
    Pos3d32(Pos3d32),
    Pos3d64(Pos3d64),
    Id(Id),
    String(Seq<char>),
    Bytes(Seq<u8>),
    SmallBytes(Seq<u8>),
    DataMap(MapModel),
    Array(Seq<ValModel>),
    PrimArray(PrimArrayModel),
    Null,
    NA,
}

impl PrimArrayModel {
    /// How many elements the packed array holds.
    pub open spec fn len(self) -> nat {
        match self {
            PrimArrayModel::Bool(s) => s.len(),
            PrimArrayModel::Char(s) => s.len(),
            PrimArrayModel::I8(s) => s.len(),
            PrimArrayModel::I16(s) => s.len(),
            PrimArrayModel::I32(s) => s.len(),
            PrimArrayModel::I64(s) => s.len(),
            PrimArrayModel::U8(s) => s.len(),
            PrimArrayModel::U16(s) => s.len(),
            PrimArrayModel::U32(s) => s.len(),
            PrimArrayModel::U64(s) => s.len(),
            PrimArrayModel::F32(s) => s.len(),
            PrimArrayModel::F64(s) => s.len(),
            PrimArrayModel::Pos2d32(s) => s.len(),
            PrimArrayModel::Pos2d64(s) => s.len(),
            PrimArrayModel::Pos3d32(s) => s.len(),
            PrimArrayModel::Pos3d64(s) => s.len(),
            PrimArrayModel::Id(s) => s.len(),
            PrimArrayModel::String(s) => s.len(),
            PrimArrayModel::Bytes(s) => s.len(),
            PrimArrayModel::SmallBytes(s) => s.len(),
        }
    }

    /// The element type of the packed array.
    pub open spec fn elem_type(self) -> Type {
        match self {
            PrimArrayModel::Bool(_) => Type::Bool,
            PrimArrayModel::Char(_) => Type::Char,
            PrimArrayModel::I8(_) => Type::I8,
            PrimArrayModel::I16(_) => Type::I16,
            PrimArrayModel::I32(_) => Type::I32,
            PrimArrayModel::I64(_) => Type::I64,
            PrimArrayModel::U8(_) => Type::U8,
            PrimArrayModel::U16(_) => Type::U16,
            PrimArrayModel::U32(_) => Type::U32,
            PrimArrayModel::U64(_) => Type::U64,
            PrimArrayModel::F32(_) => Type::F32,
            PrimArrayModel::F64(_) => Type::F64,
            PrimArrayModel::Pos2d32(_) => Type::Pos2d32,
            PrimArrayModel::Pos2d64(_) => Type::Pos2d64,
            PrimArrayModel::Pos3d32(_) => Type::Pos3d32,
            PrimArrayModel::Pos3d64(_) => Type::Pos3d64,
            PrimArrayModel::Id(_) => Type::Id,
            PrimArrayModel::String(_) => Type::String,
            PrimArrayModel::Bytes(_) => Type::Bytes,
            PrimArrayModel::SmallBytes(_) => Type::SmallBytes,
        }
    }
}

/// The first position holding a key id in an entry list, or -1 when the key
/// is absent.
pub open spec fn entries_find(es: Seq<(u64, ValModel)>, key: u64) -> int
    decreases es.len(),
{
    if es.len() == 0 {
        -1
    } else if es[0].0 == key {
        0
    } else {
        let r = entries_find(es.drop_first(), key);
        if r < 0 {
            -1
        } else {
            r + 1
        }
    }
}

/// Where `entries_find` points: at an entry holding the key, within bounds,
/// and at the first such entry; or nowhere, and then no entry holds the key.
pub proof fn lemma_entries_find(es: Seq<(u64, ValModel)>, key: u64)
    ensures
        entries_find(es, key) >= 0 ==> entries_find(es, key) < es.len() && es[entries_find(
            es,
            key,
        )].0 == key && (forall|j: int| 0 <= j < entries_find(es, key) ==> es[j].0 != key),
        entries_find(es, key) < 0 ==> (forall|j: int| 0 <= j < es.len() ==> es[j].0 != key),
    decreases es.len(),
{
    if es.len() > 0 && es[0].0 != key {
        lemma_entries_find(es.drop_first(), key);
        assert forall|j: int| 1 <= j < es.len() implies #[trigger] es[j] == es.drop_first()[j
            - 1] by {}
    }
}

/// Insert under a key id: the first entry holding the key is replaced in
/// place, or a fresh entry is appended.
pub open spec fn entries_insert(es: Seq<(u64, ValModel)>, key: u64, v: ValModel) -> Seq<
    (u64, ValModel),
> {
    let at = entries_find(es, key);
    if at >= 0 {
        es.update(at, (key, v))
    } else {
        es.push((key, v))
    }
}

impl MapModel {
    /// Whether a key id is present.
    pub open spec fn contains_key(self, key: u64) -> bool {
        entries_find(self.entries, key) >= 0
    }

    /// The value stored under a key id; meaningful only for present keys
    /// (callers use `lookup`).
    pub open spec fn value_of(self, key: u64) -> ValModel {
        self.entries[entries_find(self.entries, key)].1
    }

    /// Total lookup: the value stored under a key id, or the canonical Null
    /// for a key that was never inserted.
    pub open spec fn lookup(self, key: u64) -> ValModel {
        if self.contains_key(key) {
            self.value_of(key)
        } else {
            ValModel::Null
        }
    }

    /// The number of distinct keys. With unique entries this is the entry
    /// count; field names are counted separately and can diverge from it.
    pub open spec fn len(self) -> nat {
        self.entries.len()
    }

    /// Each key id appears in at most one entry.
    pub open spec fn keys_unique(self) -> bool {
        forall|i: int, j: int|
            0 <= i < j < self.entries.len() ==> self.entries[i].0 != self.entries[j].0
    }

    /// Insert a value under a bare key id, without touching the field names.
    pub open spec fn insert_id(self, key: u64, v: ValModel) -> MapModel {
        MapModel { entries: entries_insert(self.entries, key, v), fields: self.fields }
    }

    /// Insert a value under a field name: the name joins the field list and
    /// the value is stored under the name's key id.
    pub open spec fn insert_named(self, name: Seq<char>, key: u64, v: ValModel) -> MapModel {
        MapModel {
            entries: entries_insert(self.entries, key, v),
            fields: self.fields.push(name),
        }
    }
}

/// Nested path lookup from `at` on: empty paths give Null; an intermediate
/// value that is not itself a map short-circuits to Null.
pub open spec fn map_get_in(m: MapModel, ids: Seq<u64>, at: int) -> ValModel
    decreases ids.len() - at,
{
    if at < 0 || at >= ids.len() {
        ValModel::Null
    } else {
        let v = m.lookup(ids[at]);
        if at == ids.len() - 1 {
            v
        } else {
            match v {
                ValModel::DataMap(inner) => map_get_in(inner, ids, at + 1),
                _ => ValModel::Null,
            }
        }
    }
}

/// Nested path update from `at` on: `None` the moment the path leaves maps,
/// hits an absent key, or ends at a Null; otherwise the map with the value
/// at the path replaced.
pub open spec fn map_set_in(m: MapModel, ids: Seq<u64>, at: int, v: ValModel) -> Option<MapModel>
    decreases ids.len() - at,
{
    if at < 0 || at >= ids.len() {
        None
    } else {
        let pos = entries_find(m.entries, ids[at]);
        if pos < 0 {
            None
        } else {
            let cur = m.entries[pos].1;
            if cur is Null {
                None
            } else if at == ids.len() - 1 {
                Some(MapModel { entries: m.entries.update(pos, (ids[at], v)), fields: m.fields })
            } else {
                match cur {
                    ValModel::DataMap(inner) => match map_set_in(inner, ids, at + 1, v) {
                        Some(ni) => Some(
                            MapModel {
                                entries: m.entries.update(
                                    pos,
                                    (ids[at], ValModel::DataMap(ni)),
                                ),
                                fields: m.fields,
                            },
                        ),
                        None => None,
                    },
                    _ => None,
                }
            }
        }
    }
}

/// Map total-indexing: looking up a key id that was never inserted gives
/// the canonical Null, never an error, in every map.
pub proof fn lemma_map_total_indexing(m: MapModel, key: u64)
    ensures
        !m.contains_key(key) ==> m.lookup(key) == ValModel::Null,
{
}

/// Total lookup over a bare entry list.
pub open spec fn lookup_entries(es: Seq<(u64, ValModel)>, key: u64) -> ValModel {
    if entries_find(es, key) >= 0 {
        es[entries_find(es, key)].1
    } else {
        ValModel::Null
    }
}

/// Inserting writes the key and touches no other.
pub proof fn lemma_entries_insert_lookup(es: Seq<(u64, ValModel)>, key: u64, v: ValModel)
    ensures
        lookup_entries(entries_insert(es, key, v), key) == v,
        entries_find(entries_insert(es, key, v), key) >= 0,
        forall|k: u64|
            k != key ==> #[trigger] lookup_entries(entries_insert(es, key, v), k)
                == lookup_entries(es, k),
        forall|k: u64|
            k != key ==> #[trigger] entries_find(entries_insert(es, key, v), k) == entries_find(
                es,
                k,
            ),
{
    let at = entries_find(es, key);
    lemma_entries_find(es, key);
    let es1 = entries_insert(es, key, v);
    lemma_entries_find(es1, key);
    if at >= 0 {
        lemma_find_update(es, at, (key, v), key);
    } else {
        lemma_find_append(es, (key, v), key);
    }
    assert forall|k: u64| k != key implies #[trigger] entries_find(es1, k) == entries_find(
        es,
        k,
    ) by {
        lemma_entries_find(es, k);
        lemma_entries_find(es1, k);
        if at >= 0 {
            lemma_find_update_other(es, at, (key, v), k);
        } else {
            lemma_find_append_other(es, (key, v), k);
        }
    }
    assert forall|k: u64| k != key implies #[trigger] lookup_entries(es1, k) == lookup_entries(
        es,
        k,
    ) by {
        lemma_entries_find(es, k);
        lemma_entries_find(es1, k);
        if at >= 0 {
            lemma_find_update_other(es, at, (key, v), k);
        } else {
            lemma_find_append_other(es, (key, v), k);
        }
    }
}

proof fn lemma_find_update(es: Seq<(u64, ValModel)>, at: int, entry: (u64, ValModel), key: u64)
    requires
        0 <= at < es.len(),
        es[at].0 == key,
        entry.0 == key,
        forall|j: int| 0 <= j < at ==> es[j].0 != key,
    ensures
        entries_find(es.update(at, entry), key) == at,
{
    let es1 = es.update(at, entry);
    lemma_entries_find(es1, key);
    let f = entries_find(es1, key);
    if f < 0 {
        assert(es1[at].0 == key);
        assert(false);
    }
    if f < at {
        assert(es1[f].0 == key);
        assert(es[f].0 == key);
        assert(false);
    }
    if f > at {
        assert(es1[at].0 != key);
        assert(false);
    }
}

proof fn lemma_find_update_other(
    es: Seq<(u64, ValModel)>,
    at: int,
    entry: (u64, ValModel),
    k: u64,
)
    requires
        0 <= at < es.len(),
        entry.0 == es[at].0,
        k != entry.0,
    ensures
        entries_find(es.update(at, entry), k) == entries_find(es, k),
{
    let es1 = es.update(at, entry);
    lemma_entries_find(es, k);
    lemma_entries_find(es1, k);
    let f = entries_find(es, k);
    let f1 = entries_find(es1, k);
    if f >= 0 {
        assert(f != at);
        assert(es1[f].0 == k);
        if f1 < 0 {
            assert(false);
        }
        if f1 < f {
            assert(es1[f1].0 == k);
            assert(es[f1].0 == k);
            assert(false);
        }
        if f1 > f {
            assert(es1[f].0 != k);
            assert(false);
        }
    } else {
        if f1 >= 0 {
            assert(es1[f1].0 == k);
            assert(es[f1].0 == k);
            assert(false);
        }
    }
}

proof fn lemma_find_append(es: Seq<(u64, ValModel)>, entry: (u64, ValModel), key: u64)
    requires
        entries_find(es, key) < 0,
        entry.0 == key,
    ensures
        entries_find(es.push(entry), key) == es.len(),
{
    let es1 = es.push(entry);
    lemma_entries_find(es, key);
    lemma_entries_find(es1, key);
    let f1 = entries_find(es1, key);
    if f1 < 0 {
        assert(es1[es.len() as int].0 == key);
        assert(false);
    }
    if f1 < es.len() {
        assert(es1[f1].0 == key);
        assert(es[f1].0 == key);
        assert(false);
    }
}

proof fn lemma_find_append_other(es: Seq<(u64, ValModel)>, entry: (u64, ValModel), k: u64)
    requires
        k != entry.0,
    ensures
        entries_find(es.push(entry), k) == entries_find(es, k),
{
    let es1 = es.push(entry);
    lemma_entries_find(es, k);
    lemma_entries_find(es1, k);
    let f = entries_find(es, k);
    let f1 = entries_find(es1, k);
    if f >= 0 {
        assert(es1[f].0 == k);
        if f1 < 0 {
            assert(false);
        }
        if f1 < f {
            assert(es1[f1].0 == k);
            assert(es[f1].0 == k);
            assert(false);
        }
        if f1 > f {
            assert(es1[f].0 != k);
            assert(false);
        }
    } else {
        if f1 >= 0 && f1 < es.len() {
            assert(es1[f1].0 == k);
            assert(es[f1].0 == k);
            assert(false);
        }
        if f1 == es.len() {
            assert(es1[f1].0 == k);
            assert(false);
        }
    }
}

/// The model of a value's base type.
pub open spec fn model_base_type(m: ValModel) -> Type
    decreases m,
    via model_base_type_decreases
{
    match m {
        ValModel::Bool(_) => Type::Bool,
        ValModel::Char(_) => Type::Char,
        ValModel::I8(_) => Type::I8,
        ValModel::I16(_) => Type::I16,
        ValModel::I32(_) => Type::I32,
        ValModel::I64(_) => Type::I64,
        ValModel::U8(_) => Type::U8,
        ValModel::U16(_) => Type::U16,
        ValModel::U32(_) => Type::U32,
        ValModel::U64(_) => Type::U64,
        ValModel::F32(_) => Type::F32,
        ValModel::F64(_) => Type::F64,
        ValModel::Pos2d32(_) => Type::Pos2d32,
        ValModel::Pos2d64(_) => Type::Pos2d64,
        ValModel::Pos3d32(_) => Type::Pos3d32,
        ValModel::Pos3d64(_) => Type::Pos3d64,
        ValModel::Id(_) => Type::Id,
        ValModel::String(_) => Type::String,
        ValModel::Bytes(_) => Type::Bytes,
        ValModel::SmallBytes(_) => Type::SmallBytes,
        ValModel::DataMap(_) => Type::DataMap,
        ValModel::Array(elems) => if elems.len() > 0 {
            model_base_type(elems[0])
        } else {
            Type::NA
        },
        ValModel::PrimArray(pa) => pa.elem_type(),
        ValModel::Null => Type::Null,
        ValModel::NA => Type::NA,
    }
}

#[via_fn]
proof fn model_base_type_decreases(m: ValModel) {
    match m {
        ValModel::Array(elems) => {
            if elems.len() > 0 {
                vstd::seq::axiom_seq_index_decreases(elems, 0);
            }
        },
        _ => {},
    }
}

} // verus!
