//! Owned values: self-contained, heap-backed values with no external
//! lifetime dependency.

use vstd::prelude::*;
use crate::types::data_type::Type;
use crate::types::model::{ValModel, PrimArrayModel, MapModel, model_base_type};
use crate::types::pos::{Pos2d32, Pos2d64, Pos3d32, Pos3d64};
use crate::types::id::Id;
use crate::types::bytes::{Bytes, SmallBytes};

verus! {

/// A field-name-indexed, hashed-key-addressed associative container of owned
/// values. Entries are kept in insertion order, each key id at most once;
/// `fields` records the original field names, in insertion order, for the
/// keys that were inserted by name.
#[derive(Debug)]
pub struct OwnedMap {
    pub map: Vec<(u64, OwnedValue)>,
    pub fields: Vec<String>,
}

/// A homogeneous packed array of one primitive type, without a union tag per
/// element. Float elements are carried as IEEE 754 bit patterns.
#[derive(Debug)]
pub enum OwnedPrimArray {
    Bool(Vec<bool>),
    Char(Vec<char>),
    I8(Vec<i8>),
    I16(Vec<i16>),
    I32(Vec<i32>),
    I64(Vec<i64>),
    U8(Vec<u8>),
    U16(Vec<u16>),
    U32(Vec<u32>),
    U64(Vec<u64>),
    F32(Vec<u32>),
    F64(Vec<u64>),
    Pos2d32(Vec<Pos2d32>),
    Pos2d64(Vec<Pos2d64>),
    Pos3d32(Vec<Pos3d32>),
    Pos3d64(Vec<Pos3d64>),
    Id(Vec<Id>),
    String(Vec<String>),
    Bytes(Vec<Bytes>),
    SmallBytes(Vec<SmallBytes>),
}

/// A self-contained value: one variant per registered type, plus maps,
/// heterogeneous arrays, packed arrays and the `Null`/`NA` sentinels. Float
/// payloads are IEEE 754 bit patterns; the embedding host converts at its
/// boundary.
#[derive(Debug)]
pub enum OwnedValue {
    Bool(bool),
    Char(char),
    I8(i8),
    I16(i16),
    I32(i32),
    I64(i64),
    U8(u8),
    U16(u16),
    U32(u32),
    U64(u64),
    F32(u32),
    F64(u64),
    Pos2d32(Pos2d32),
    Pos2d64(Pos2d64),
    Pos3d32(Pos3d32),
    Pos3d64(Pos3d64),
    Id(Id),
    String(String),
    Bytes(Bytes),
    SmallBytes(SmallBytes),
    DataMap(OwnedMap),
    Array(Vec<OwnedValue>),
    PrimArray(OwnedPrimArray),
    Null,
    NA,
}

impl OwnedPrimArray {
    /// The model of this packed array.
    pub open spec fn model(&self) -> PrimArrayModel {
        match self {
            OwnedPrimArray::Bool(v) => PrimArrayModel::Bool(v@),
            OwnedPrimArray::Char(v) => PrimArrayModel::Char(v@),
            OwnedPrimArray::I8(v) => PrimArrayModel::I8(v@),
            OwnedPrimArray::I16(v) => PrimArrayModel::I16(v@),
            OwnedPrimArray::I32(v) => PrimArrayModel::I32(v@),
            OwnedPrimArray::I64(v) => PrimArrayModel::I64(v@),
            OwnedPrimArray::U8(v) => PrimArrayModel::U8(v@),
            OwnedPrimArray::U16(v) => PrimArrayModel::U16(v@),
            OwnedPrimArray::U32(v) => PrimArrayModel::U32(v@),
            OwnedPrimArray::U64(v) => PrimArrayModel::U64(v@),
            OwnedPrimArray::F32(v) => PrimArrayModel::F32(v@),
            OwnedPrimArray::F64(v) => PrimArrayModel::F64(v@),
            OwnedPrimArray::Pos2d32(v) => PrimArrayModel::Pos2d32(v@),
            OwnedPrimArray::Pos2d64(v) => PrimArrayModel::Pos2d64(v@),
            OwnedPrimArray::Pos3d32(v) => PrimArrayModel::Pos3d32(v@),
            OwnedPrimArray::Pos3d64(v) => PrimArrayModel::Pos3d64(v@),
            OwnedPrimArray::Id(v) => PrimArrayModel::Id(v@),
            OwnedPrimArray::String(v) => PrimArrayModel::String(
                Seq::new(v@.len(), |i: int| v@[i]@),
            ),
            OwnedPrimArray::Bytes(v) => PrimArrayModel::Bytes(Seq::new(v@.len(), |i: int| v@[i]@)),
            OwnedPrimArray::SmallBytes(v) => PrimArrayModel::SmallBytes(
                Seq::new(v@.len(), |i: int| v@[i]@),
            ),
        }
    }
}

impl View for OwnedPrimArray {
    type V = PrimArrayModel;

    open spec fn view(&self) -> PrimArrayModel {
        self.model()
    }
}

impl OwnedValue {
    /// The model of this value.
    pub open spec fn model(&self) -> ValModel
        decreases *self, 2int, 0int,
    {
        match self {
            OwnedValue::Bool(v) => ValModel::Bool(*v),
            OwnedValue::Char(v) => ValModel::Char(*v),
            OwnedValue::I8(v) => ValModel::I8(*v),
            OwnedValue::I16(v) => ValModel::I16(*v),
            OwnedValue::I32(v) => ValModel::I32(*v),
            OwnedValue::I64(v) => ValModel::I64(*v),
            OwnedValue::U8(v) => ValModel::U8(*v),
            OwnedValue::U16(v) => ValModel::U16(*v),
            OwnedValue::U32(v) => ValModel::U32(*v),
            OwnedValue::U64(v) => ValModel::U64(*v),
            OwnedValue::F32(v) => ValModel::F32(*v),
            OwnedValue::F64(v) => ValModel::F64(*v),
            OwnedValue::Pos2d32(v) => ValModel::Pos2d32(*v),
            OwnedValue::Pos2d64(v) => ValModel::Pos2d64(*v),
            OwnedValue::Pos3d32(v) => ValModel::Pos3d32(*v),
            OwnedValue::Pos3d64(v) => ValModel::Pos3d64(*v),
            OwnedValue::Id(v) => ValModel::Id(*v),
            OwnedValue::String(v) => ValModel::String(v@),
            OwnedValue::Bytes(v) => ValModel::Bytes(v@),
            OwnedValue::SmallBytes(v) => ValModel::SmallBytes(v@),
            OwnedValue::DataMap(m) => ValModel::DataMap(m.model()),
            OwnedValue::Array(elems) => ValModel::Array(
                Self::elem_models(elems, elems@.len() as nat),
            ),
            OwnedValue::PrimArray(pa) => ValModel::PrimArray(pa.model()),
            OwnedValue::Null => ValModel::Null,
            OwnedValue::NA => ValModel::NA,
        }
    }

    /// The models of the first `n` elements of an array.
    pub open spec fn elem_models(elems: &Vec<OwnedValue>, n: nat) -> Seq<ValModel>
        decreases *elems, 1int, n,
        via Self::elem_models_decreases
    {
        if n == 0 || n > elems@.len() {
            Seq::empty()
        } else {
            Self::elem_models(elems, (n - 1) as nat).push(elems@[n - 1].model())
        }
    }

    #[via_fn]
    proof fn elem_models_decreases(elems: &Vec<OwnedValue>, n: nat) {
        if n > 0 && n <= elems@.len() {
            vstd::std_specs::vec::axiom_vec_index_decreases(*elems, n - 1);
        }
    }

    /// The models of the first `n` entries of a map's entry list.
    pub open spec fn entry_models(entries: &Vec<(u64, OwnedValue)>, n: nat) -> Seq<
        (u64, ValModel),
    >
        decreases *entries, 1int, n,
        via Self::entry_models_decreases
    {
        if n == 0 || n > entries@.len() {
            Seq::empty()
        } else {
            Self::entry_models(entries, (n - 1) as nat).push(
                (entries@[n - 1].0, entries@[n - 1].1.model()),
            )
        }
    }

    #[via_fn]
    proof fn entry_models_decreases(entries: &Vec<(u64, OwnedValue)>, n: nat) {
        if n > 0 && n <= entries@.len() {
            vstd::std_specs::vec::axiom_vec_index_decreases(*entries, n - 1);
            assert(decreases_to!(entries@[n - 1] => entries@[n - 1].1));
        }
    }

    /// Element models indexed: position `i` of the model sequence is the
    /// model of element `i`.
    pub proof fn lemma_elem_models(elems: &Vec<OwnedValue>, n: nat)
        requires
            n <= elems@.len(),
        ensures
            Self::elem_models(elems, n).len() == n,
            forall|i: int|
                0 <= i < n ==> #[trigger] Self::elem_models(elems, n)[i] == elems@[i].model(),
        decreases n,
    {
        if n > 0 {
            Self::lemma_elem_models(elems, (n - 1) as nat);
        }
    }

    /// Entry models indexed: position `i` of the model sequence carries the
    /// key id and value model of entry `i`.
    pub proof fn lemma_entry_models(entries: &Vec<(u64, OwnedValue)>, n: nat)
        requires
            n <= entries@.len(),
        ensures
            Self::entry_models(entries, n).len() == n,
            forall|i: int|
                0 <= i < n ==> #[trigger] Self::entry_models(entries, n)[i] == (
                entries@[i].0,
                entries@[i].1.model(),
                ),
        decreases n,
    {
        if n > 0 {
            Self::lemma_entry_models(entries, (n - 1) as nat);
        }
    }
}

impl View for OwnedValue {
    type V = ValModel;

    open spec fn view(&self) -> ValModel {
        self.model()
    }
}

impl OwnedMap {
    /// The model of this map.
    pub open spec fn model(&self) -> MapModel
        decreases *self, 2int, 0int,
    {
        MapModel {
            entries: OwnedValue::entry_models(&self.map, self.map@.len() as nat),
            fields: Seq::new(self.fields@.len(), |i: int| self.fields@[i]@),
        }
    }
}

impl View for OwnedMap {
    type V = MapModel;

    open spec fn view(&self) -> MapModel {
        self.model()
    }
}

impl OwnedValue {
    /// The base type of this value. The base type of a heterogeneous array
    /// is its first element's; an empty array has no introspectable type and
    /// reports `NA`.
    pub fn base_type(&self) -> (r: Type)
        ensures
            r == model_base_type(self@),
        decreases *self,
    {
        match self {
            OwnedValue::Bool(_) => Type::Bool,
            OwnedValue::Char(_) => Type::Char,
            OwnedValue::I8(_) => Type::I8,
            OwnedValue::I16(_) => Type::I16,
            OwnedValue::I32(_) => Type::I32,
            OwnedValue::I64(_) => Type::I64,
            OwnedValue::U8(_) => Type::U8,
            OwnedValue::U16(_) => Type::U16,
            OwnedValue::U32(_) => Type::U32,
            OwnedValue::U64(_) => Type::U64,
            OwnedValue::F32(_) => Type::F32,
            OwnedValue::F64(_) => Type::F64,
            OwnedValue::Pos2d32(_) => Type::Pos2d32,
            OwnedValue::Pos2d64(_) => Type::Pos2d64,
            OwnedValue::Pos3d32(_) => Type::Pos3d32,
            OwnedValue::Pos3d64(_) => Type::Pos3d64,
            OwnedValue::Id(_) => Type::Id,
            OwnedValue::String(_) => Type::String,
            OwnedValue::Bytes(_) => Type::Bytes,
            OwnedValue::SmallBytes(_) => Type::SmallBytes,
            OwnedValue::DataMap(_) => Type::DataMap,
            OwnedValue::Array(elems) => {
                if elems.len() == 0 {
                    Type::NA
                } else {
                    proof {
                        vstd::std_specs::vec::axiom_vec_index_decreases(*elems, 0);
                        OwnedValue::lemma_elem_models(elems, elems@.len() as nat);
                    }
                    let r = elems[0].base_type();
                    r
                }
            },
            OwnedValue::PrimArray(pa) => pa.elem_type(),
            OwnedValue::Null => Type::Null,
            OwnedValue::NA => Type::NA,
        }
    }

    /// How many items this value holds: the element count of an array or
    /// packed array, the distinct-key count of a map, nothing for scalars.
    pub fn len(&self) -> (r: Option<usize>)
        ensures
            self@ matches ValModel::Array(elems) ==> r == Some(elems.len() as usize),
            self@ matches ValModel::DataMap(m) ==> r == Some(m.len() as usize),
            self@ matches ValModel::PrimArray(pa) ==> r == Some(pa.len() as usize),
            !(self@ is Array) && !(self@ is DataMap) && !(self@ is PrimArray) ==> r is None,
    {
        match self {
            OwnedValue::Array(elems) => {
                proof {
                    OwnedValue::lemma_elem_models(elems, elems@.len() as nat);
                }
                Some(elems.len())
            },
            OwnedValue::DataMap(m) => {
                proof {
                    OwnedValue::lemma_entry_models(&m.map, m.map@.len() as nat);
                }
                Some(m.map.len())
            },
            OwnedValue::PrimArray(pa) => Some(pa.len()),
            _ => None,
        }
    }

    /// A reference to the map inside, if this value is a map.
    pub fn as_map(&self) -> (r: Option<&OwnedMap>)
        ensures
            self@ matches ValModel::DataMap(mm) ==> (r matches Some(m) && m@ == mm),
            !(self@ is DataMap) ==> r is None,
    {
        match self {
            OwnedValue::DataMap(m) => Some(m),
            _ => None,
        }
    }

    /// A reference to the packed array inside, if this value is one.
    pub fn prim_array(&self) -> (r: Option<&OwnedPrimArray>)
        ensures
            self@ matches ValModel::PrimArray(pm) ==> (r matches Some(pa) && pa@ == pm),
            !(self@ is PrimArray) ==> r is None,
    {
        match self {
            OwnedValue::PrimArray(pa) => Some(pa),
            _ => None,
        }
    }
}

impl OwnedPrimArray {
    /// The element type of this packed array.
    pub fn elem_type(&self) -> (r: Type)
        ensures
            r == self@.elem_type(),
    {
        match self {
            OwnedPrimArray::Bool(_) => Type::Bool,
            OwnedPrimArray::Char(_) => Type::Char,
            OwnedPrimArray::I8(_) => Type::I8,
            OwnedPrimArray::I16(_) => Type::I16,
            OwnedPrimArray::I32(_) => Type::I32,
            OwnedPrimArray::I64(_) => Type::I64,
            OwnedPrimArray::U8(_) => Type::U8,
            OwnedPrimArray::U16(_) => Type::U16,
            OwnedPrimArray::U32(_) => Type::U32,
            OwnedPrimArray::U64(_) => Type::U64,
            OwnedPrimArray::F32(_) => Type::F32,
            OwnedPrimArray::F64(_) => Type::F64,
            OwnedPrimArray::Pos2d32(_) => Type::Pos2d32,
            OwnedPrimArray::Pos2d64(_) => Type::Pos2d64,
            OwnedPrimArray::Pos3d32(_) => Type::Pos3d32,
            OwnedPrimArray::Pos3d64(_) => Type::Pos3d64,
            OwnedPrimArray::Id(_) => Type::Id,
            OwnedPrimArray::String(_) => Type::String,
            OwnedPrimArray::Bytes(_) => Type::Bytes,
            OwnedPrimArray::SmallBytes(_) => Type::SmallBytes,
        }
    }

    /// How many elements this packed array holds.
    pub fn len(&self) -> (r: usize)
        ensures
            r == self@.len(),
    {
        match self {
            OwnedPrimArray::Bool(v) => v.len(),
            OwnedPrimArray::Char(v) => v.len(),
            OwnedPrimArray::I8(v) => v.len(),
            OwnedPrimArray::I16(v) => v.len(),
            OwnedPrimArray::I32(v) => v.len(),
            OwnedPrimArray::I64(v) => v.len(),
            OwnedPrimArray::U8(v) => v.len(),
            OwnedPrimArray::U16(v) => v.len(),
            OwnedPrimArray::U32(v) => v.len(),
            OwnedPrimArray::U64(v) => v.len(),
            OwnedPrimArray::F32(v) => v.len(),
            OwnedPrimArray::F64(v) => v.len(),
            OwnedPrimArray::Pos2d32(v) => v.len(),
            OwnedPrimArray::Pos2d64(v) => v.len(),
            OwnedPrimArray::Pos3d32(v) => v.len(),
            OwnedPrimArray::Pos3d64(v) => v.len(),
            OwnedPrimArray::Id(v) => v.len(),
            OwnedPrimArray::String(v) => v.len(),
            OwnedPrimArray::Bytes(v) => v.len(),
            OwnedPrimArray::SmallBytes(v) => v.len(),
        }
    }
}

/// Conversion of plain host values into engine values, as the embedding
/// boundary uses it.
pub trait ToValue: Sized {
    /// The model of the value this converts to.
    spec fn to_value_model(self) -> ValModel;

    /// Wrap this into an owned engine value.
    fn value(self) -> (r: OwnedValue)
        ensures
            r@ == self.to_value_model(),
    ;
}

impl ToValue for bool {
    open spec fn to_value_model(self) -> ValModel {
        ValModel::Bool(self)
    }

    fn value(self) -> (r: OwnedValue) {
        OwnedValue::Bool(self)
    }
}

impl ToValue for u8 {
    open spec fn to_value_model(self) -> ValModel {
        ValModel::U8(self)
    }

    fn value(self) -> (r: OwnedValue) {
        OwnedValue::U8(self)
    }
}

impl ToValue for u16 {
    open spec fn to_value_model(self) -> ValModel {
        ValModel::U16(self)
    }

    fn value(self) -> (r: OwnedValue) {
        OwnedValue::U16(self)
    }
}

impl ToValue for u32 {
    open spec fn to_value_model(self) -> ValModel {
        ValModel::U32(self)
    }

    fn value(self) -> (r: OwnedValue) {
        OwnedValue::U32(self)
    }
}

impl ToValue for u64 {
    open spec fn to_value_model(self) -> ValModel {
        ValModel::U64(self)
    }

    fn value(self) -> (r: OwnedValue) {
        OwnedValue::U64(self)
    }
}

impl ToValue for i8 {
    open spec fn to_value_model(self) -> ValModel {
        ValModel::I8(self)
    }

    fn value(self) -> (r: OwnedValue) {
        OwnedValue::I8(self)
    }
}

impl ToValue for i16 {
    open spec fn to_value_model(self) -> ValModel {
        ValModel::I16(self)
    }

    fn value(self) -> (r: OwnedValue) {
        OwnedValue::I16(self)
    }
}

impl ToValue for i32 {
    open spec fn to_value_model(self) -> ValModel {
        ValModel::I32(self)
    }

    fn value(self) -> (r: OwnedValue) {
        OwnedValue::I32(self)
    }
}

impl ToValue for i64 {
    open spec fn to_value_model(self) -> ValModel {
        ValModel::I64(self)
    }

    fn value(self) -> (r: OwnedValue) {
        OwnedValue::I64(self)
    }
}

impl ToValue for String {
    open spec fn to_value_model(self) -> ValModel {
        ValModel::String(self@)
    }

    fn value(self) -> (r: OwnedValue) {
        OwnedValue::String(self)
    }
}

impl ToValue for &str {
    open spec fn to_value_model(self) -> ValModel {
        ValModel::String(self@)
    }

    fn value(self) -> (r: OwnedValue) {
        OwnedValue::String(self.to_owned())
    }
}

impl ToValue for OwnedValue {
    open spec fn to_value_model(self) -> ValModel {
        self.model()
    }

    fn value(self) -> (r: OwnedValue) {
        self
    }
}

} // verus!
