//! Shared values: the borrowed view of a value. A shared value mirrors an
//! owned value structurally and carries the decoded payloads of externally
//! held memory; it has the same model as the owned value it was derived
//! from, which is what "borrow" and "materialize" preserve.

use vstd::prelude::*;
use crate::types::data_type::Type;
use crate::types::model::{ValModel, PrimArrayModel, MapModel, model_base_type};
use crate::types::pos::{Pos2d32, Pos2d64, Pos3d32, Pos3d64};
use crate::types::id::Id;
use crate::types::bytes::{Bytes, SmallBytes};
use crate::types::owned::{OwnedValue, OwnedPrimArray, OwnedMap};

verus! {

/// The borrowed counterpart of `OwnedMap`.
#[derive(Debug)]
pub struct SharedMap {
    pub map: Vec<(u64, SharedValue)>,
    pub fields: Vec<String>,
}

/// The borrowed counterpart of `OwnedPrimArray`.
#[derive(Debug)]
pub enum SharedPrimArray {
    Bool(Vec<bool>),
    Char(Vec<char>),
    I8(Vec<i8>),
    I16(Vec<i16>),
    I32(Vec<i32>),
    I64(Vec<i64>),
    U8(Vec<u8>),
    U16(Vec<u16>),
    U32(Vec<u32>),
    U64(Vec<u64>),
    F32(Vec<u32>),
    F64(Vec<u64>),
    Pos2d32(Vec<Pos2d32>),
    Pos2d64(Vec<Pos2d64>),
    Pos3d32(Vec<Pos3d32>),
    Pos3d64(Vec<Pos3d64>),
    Id(Vec<Id>),
    String(Vec<String>),
    Bytes(Vec<Bytes>),
    SmallBytes(Vec<SmallBytes>),
}

/// The borrowed counterpart of `OwnedValue`.
#[derive(Debug)]
pub enum SharedValue {
    Bool(bool),
    Char(char),
    I8(i8),
    I16(i16),
    I32(i32),
    I64(i64),
    U8(u8),
    U16(u16),
    U32(u32),
    U64(u64),
    F32(u32),
    F64(u64),
    Pos2d32(Pos2d32),
    Pos2d64(Pos2d64),
    Pos3d32(Pos3d32),
    Pos3d64(Pos3d64),
    Id(Id),
    String(String),
    Bytes(Bytes),
    SmallBytes(SmallBytes),
    DataMap(SharedMap),
    Array(Vec<SharedValue>),
    PrimArray(SharedPrimArray),
    Null,
    NA,
}

impl SharedPrimArray {
    /// The model of this packed array.
    pub open spec fn model(&self) -> PrimArrayModel {
        match self {
            SharedPrimArray::Bool(v) => PrimArrayModel::Bool(v@),
            SharedPrimArray::Char(v) => PrimArrayModel::Char(v@),
            SharedPrimArray::I8(v) => PrimArrayModel::I8(v@),
            SharedPrimArray::I16(v) => PrimArrayModel::I16(v@),
            SharedPrimArray::I32(v) => PrimArrayModel::I32(v@),
            SharedPrimArray::I64(v) => PrimArrayModel::I64(v@),
            SharedPrimArray::U8(v) => PrimArrayModel::U8(v@),
            SharedPrimArray::U16(v) => PrimArrayModel::U16(v@),
            SharedPrimArray::U32(v) => PrimArrayModel::U32(v@),
            SharedPrimArray::U64(v) => PrimArrayModel::U64(v@),
            SharedPrimArray::F32(v) => PrimArrayModel::F32(v@),
            SharedPrimArray::F64(v) => PrimArrayModel::F64(v@),
            SharedPrimArray::Pos2d32(v) => PrimArrayModel::Pos2d32(v@),
            SharedPrimArray::Pos2d64(v) => PrimArrayModel::Pos2d64(v@),
            SharedPrimArray::Pos3d32(v) => PrimArrayModel::Pos3d32(v@),
            SharedPrimArray::Pos3d64(v) => PrimArrayModel::Pos3d64(v@),
            SharedPrimArray::Id(v) => PrimArrayModel::Id(v@),
            SharedPrimArray::String(v) => PrimArrayModel::String(
                Seq::new(v@.len(), |i: int| v@[i]@),
            ),
            SharedPrimArray::Bytes(v) => PrimArrayModel::Bytes(
                Seq::new(v@.len(), |i: int| v@[i]@),
            ),
            SharedPrimArray::SmallBytes(v) => PrimArrayModel::SmallBytes(
                Seq::new(v@.len(), |i: int| v@[i]@),
            ),
        }
    }
}

impl View for SharedPrimArray {
    type V = PrimArrayModel;

    open spec fn view(&self) -> PrimArrayModel {
        self.model()
    }
}

impl SharedValue {
    /// The model of this value.
    pub open spec fn model(&self) -> ValModel
        decreases *self, 2int, 0int,
    {
        match self {
            SharedValue::Bool(v) => ValModel::Bool(*v),
            SharedValue::Char(v) => ValModel::Char(*v),
            SharedValue::I8(v) => ValModel::I8(*v),
            SharedValue::I16(v) => ValModel::I16(*v),
            SharedValue::I32(v) => ValModel::I32(*v),
            SharedValue::I64(v) => ValModel::I64(*v),
            SharedValue::U8(v) => ValModel::U8(*v),
            SharedValue::U16(v) => ValModel::U16(*v),
            SharedValue::U32(v) => ValModel::U32(*v),
            SharedValue::U64(v) => ValModel::U64(*v),
            SharedValue::F32(v) => ValModel::F32(*v),
            SharedValue::F64(v) => ValModel::F64(*v),
            SharedValue::Pos2d32(v) => ValModel::Pos2d32(*v),
            SharedValue::Pos2d64(v) => ValModel::Pos2d64(*v),
            SharedValue::Pos3d32(v) => ValModel::Pos3d32(*v),
            SharedValue::Pos3d64(v) => ValModel::Pos3d64(*v),
            SharedValue::Id(v) => ValModel::Id(*v),
            SharedValue::String(v) => ValModel::String(v@),
            SharedValue::Bytes(v) => ValModel::Bytes(v@),
            SharedValue::SmallBytes(v) => ValModel::SmallBytes(v@),
            SharedValue::DataMap(m) => ValModel::DataMap(m.model()),
            SharedValue::Array(elems) => ValModel::Array(
                Self::elem_models(elems, elems@.len() as nat),
            ),
            SharedValue::PrimArray(pa) => ValModel::PrimArray(pa.model()),
            SharedValue::Null => ValModel::Null,
            SharedValue::NA => ValModel::NA,
        }
    }

    /// The models of the first `n` elements of an array.
    pub open spec fn elem_models(elems: &Vec<SharedValue>, n: nat) -> Seq<ValModel>
        decreases *elems, 1int, n,
        via Self::elem_models_decreases
    {
        if n == 0 || n > elems@.len() {
            Seq::empty()
        } else {
            Self::elem_models(elems, (n - 1) as nat).push(elems@[n - 1].model())
        }
    }

    #[via_fn]
    proof fn elem_models_decreases(elems: &Vec<SharedValue>, n: nat) {
        if n > 0 && n <= elems@.len() {
            vstd::std_specs::vec::axiom_vec_index_decreases(*elems, n - 1);
        }
    }

    /// The models of the first `n` entries of a map's entry list.
    pub open spec fn entry_models(entries: &Vec<(u64, SharedValue)>, n: nat) -> Seq<
        (u64, ValModel),
    >
        decreases *entries, 1int, n,
        via Self::entry_models_decreases
    {
        if n == 0 || n > entries@.len() {
            Seq::empty()
        } else {
            Self::entry_models(entries, (n - 1) as nat).push(
                (entries@[n - 1].0, entries@[n - 1].1.model()),
            )
        }
    }

    #[via_fn]
    proof fn entry_models_decreases(entries: &Vec<(u64, SharedValue)>, n: nat) {
        if n > 0 && n <= entries@.len() {
            vstd::std_specs::vec::axiom_vec_index_decreases(*entries, n - 1);
            assert(decreases_to!(entries@[n - 1] => entries@[n - 1].1));
        }
    }

    /// Element models indexed.
    pub proof fn lemma_elem_models(elems: &Vec<SharedValue>, n: nat)
        requires
            n <= elems@.len(),
        ensures
            Self::elem_models(elems, n).len() == n,
            forall|i: int|
                0 <= i < n ==> #[trigger] Self::elem_models(elems, n)[i] == elems@[i].model(),
        decreases n,
    {
        if n > 0 {
            Self::lemma_elem_models(elems, (n - 1) as nat);
        }
    }

    /// Entry models indexed.
    pub proof fn lemma_entry_models(entries: &Vec<(u64, SharedValue)>, n: nat)
        requires
            n <= entries@.len(),
        ensures
            Self::entry_models(entries, n).len() == n,
            forall|i: int|
                0 <= i < n ==> #[trigger] Self::entry_models(entries, n)[i] == (
                entries@[i].0,
                entries@[i].1.model(),
                ),
        decreases n,
    {
        if n > 0 {
            Self::lemma_entry_models(entries, (n - 1) as nat);
        }
    }
}

impl View for SharedValue {
    type V = ValModel;

    open spec fn view(&self) -> ValModel {
        self.model()
    }
}

impl SharedMap {
    /// The model of this map.
    pub open spec fn model(&self) -> MapModel
        decreases *self, 2int, 0int,
    {
        MapModel {
            entries: SharedValue::entry_models(&self.map, self.map@.len() as nat),
            fields: Seq::new(self.fields@.len(), |i: int| self.fields@[i]@),
        }
    }
}

impl View for SharedMap {
    type V = MapModel;

    open spec fn view(&self) -> MapModel {
        self.model()
    }
}

/// Copy a vector of plainly copyable values.
pub fn copy_vec<T: Copy>(v: &Vec<T>) -> (r: Vec<T>)
    ensures
        r@ == v@,
{
    let mut out: Vec<T> = Vec::new();
    let mut i: usize = 0;
    while i < v.len()
        invariant
            i <= v@.len(),
            out@ == v@.subrange(0, i as int),
        decreases v@.len() - i,
    {
        out.push(v[i]);
        proof {
            assert(out@ =~= v@.subrange(0, i + 1));
        }
        i = i + 1;
    }
    proof {
        assert(v@.subrange(0, v@.len() as int) =~= v@);
    }
    out
}

/// Clone a vector of strings, preserving each string's characters.
pub fn clone_string_vec(v: &Vec<String>) -> (r: Vec<String>)
    ensures
        r@.len() == v@.len(),
        forall|i: int| 0 <= i < v@.len() ==> r@[i] == v@[i],
{
    let mut out: Vec<String> = Vec::new();
    let mut i: usize = 0;
    while i < v.len()
        invariant
            i <= v@.len(),
            out@.len() == i,
            forall|j: int| 0 <= j < i ==> out@[j] == v@[j],
        decreases v@.len() - i,
    {
        out.push(v[i].clone());
        i = i + 1;
    }
    out
}

/// Clone a vector of byte blobs, preserving each blob's bytes.
pub fn clone_bytes_vec(v: &Vec<Bytes>) -> (r: Vec<Bytes>)
    ensures
        r@.len() == v@.len(),
        forall|i: int| 0 <= i < v@.len() ==> r@[i]@ == v@[i]@,
{
    let mut out: Vec<Bytes> = Vec::new();
    let mut i: usize = 0;
    while i < v.len()
        invariant
            i <= v@.len(),
            out@.len() == i,
            forall|j: int| 0 <= j < i ==> out@[j]@ == v@[j]@,
        decreases v@.len() - i,
    {
        out.push(Bytes { data: copy_vec(&v[i].data) });
        i = i + 1;
    }
    out
}

/// Clone a vector of short byte blobs, preserving each blob's bytes.
pub fn clone_small_bytes_vec(v: &Vec<SmallBytes>) -> (r: Vec<SmallBytes>)
    ensures
        r@.len() == v@.len(),
        forall|i: int| 0 <= i < v@.len() ==> r@[i]@ == v@[i]@,
{
    let mut out: Vec<SmallBytes> = Vec::new();
    let mut i: usize = 0;
    while i < v.len()
        invariant
            i <= v@.len(),
            out@.len() == i,
            forall|j: int| 0 <= j < i ==> out@[j]@ == v@[j]@,
        decreases v@.len() - i,
    {
        out.push(SmallBytes { data: copy_vec(&v[i].data) });
        i = i + 1;
    }
    out
}

impl OwnedPrimArray {
    /// Borrow this packed array: the shared form with the same model.
    pub fn shared(&self) -> (r: SharedPrimArray)
        ensures
            r@ == self@,
    {
        match self {
            OwnedPrimArray::Bool(v) => SharedPrimArray::Bool(copy_vec(v)),
            OwnedPrimArray::Char(v) => SharedPrimArray::Char(copy_vec(v)),
            OwnedPrimArray::I8(v) => SharedPrimArray::I8(copy_vec(v)),
            OwnedPrimArray::I16(v) => SharedPrimArray::I16(copy_vec(v)),
            OwnedPrimArray::I32(v) => SharedPrimArray::I32(copy_vec(v)),
            OwnedPrimArray::I64(v) => SharedPrimArray::I64(copy_vec(v)),
            OwnedPrimArray::U8(v) => SharedPrimArray::U8(copy_vec(v)),
            OwnedPrimArray::U16(v) => SharedPrimArray::U16(copy_vec(v)),
            OwnedPrimArray::U32(v) => SharedPrimArray::U32(copy_vec(v)),
            OwnedPrimArray::U64(v) => SharedPrimArray::U64(copy_vec(v)),
            OwnedPrimArray::F32(v) => SharedPrimArray::F32(copy_vec(v)),
            OwnedPrimArray::F64(v) => SharedPrimArray::F64(copy_vec(v)),
            OwnedPrimArray::Pos2d32(v) => SharedPrimArray::Pos2d32(copy_vec(v)),
            OwnedPrimArray::Pos2d64(v) => SharedPrimArray::Pos2d64(copy_vec(v)),
            OwnedPrimArray::Pos3d32(v) => SharedPrimArray::Pos3d32(copy_vec(v)),
            OwnedPrimArray::Pos3d64(v) => SharedPrimArray::Pos3d64(copy_vec(v)),
            OwnedPrimArray::Id(v) => SharedPrimArray::Id(copy_vec(v)),
            OwnedPrimArray::String(v) => {
                let r = SharedPrimArray::String(clone_string_vec(v));
                proof {
                    assert(r@->String_0 =~= self@->String_0);
                }
                r
            },
            OwnedPrimArray::Bytes(v) => {
                let r = SharedPrimArray::Bytes(clone_bytes_vec(v));
                proof {
                    assert(r@->Bytes_0 =~= self@->Bytes_0);
                }
                r
            },
            OwnedPrimArray::SmallBytes(v) => {
                let r = SharedPrimArray::SmallBytes(clone_small_bytes_vec(v));
                proof {
                    assert(r@->SmallBytes_0 =~= self@->SmallBytes_0);
                }
                r
            },
        }
    }
}

impl SharedPrimArray {
    /// Materialize this packed array: the owned form with the same model.
    pub fn owned(&self) -> (r: OwnedPrimArray)
        ensures
            r@ == self@,
    {
        match self {
            SharedPrimArray::Bool(v) => OwnedPrimArray::Bool(copy_vec(v)),
            SharedPrimArray::Char(v) => OwnedPrimArray::Char(copy_vec(v)),
            SharedPrimArray::I8(v) => OwnedPrimArray::I8(copy_vec(v)),
            SharedPrimArray::I16(v) => OwnedPrimArray::I16(copy_vec(v)),
            SharedPrimArray::I32(v) => OwnedPrimArray::I32(copy_vec(v)),
            SharedPrimArray::I64(v) => OwnedPrimArray::I64(copy_vec(v)),
            SharedPrimArray::U8(v) => OwnedPrimArray::U8(copy_vec(v)),
            SharedPrimArray::U16(v) => OwnedPrimArray::U16(copy_vec(v)),
            SharedPrimArray::U32(v) => OwnedPrimArray::U32(copy_vec(v)),
            SharedPrimArray::U64(v) => OwnedPrimArray::U64(copy_vec(v)),
            SharedPrimArray::F32(v) => OwnedPrimArray::F32(copy_vec(v)),
            SharedPrimArray::F64(v) => OwnedPrimArray::F64(copy_vec(v)),
            SharedPrimArray::Pos2d32(v) => OwnedPrimArray::Pos2d32(copy_vec(v)),
            SharedPrimArray::Pos2d64(v) => OwnedPrimArray::Pos2d64(copy_vec(v)),
            SharedPrimArray::Pos3d32(v) => OwnedPrimArray::Pos3d32(copy_vec(v)),
            SharedPrimArray::Pos3d64(v) => OwnedPrimArray::Pos3d64(copy_vec(v)),
            SharedPrimArray::Id(v) => OwnedPrimArray::Id(copy_vec(v)),
            SharedPrimArray::String(v) => {
                let r = OwnedPrimArray::String(clone_string_vec(v));
                proof {
                    assert(r@->String_0 =~= self@->String_0);
                }
                r
            },
            SharedPrimArray::Bytes(v) => {
                let r = OwnedPrimArray::Bytes(clone_bytes_vec(v));
                proof {
                    assert(r@->Bytes_0 =~= self@->Bytes_0);
                }
                r
            },
            SharedPrimArray::SmallBytes(v) => {
                let r = OwnedPrimArray::SmallBytes(clone_small_bytes_vec(v));
                proof {
                    assert(r@->SmallBytes_0 =~= self@->SmallBytes_0);
                }
                r
            },
        }
    }
}

impl OwnedValue {
    /// Borrow this value: the shared form with the same model. The borrowed
    /// form of a map or array re-wraps its parts; scalars carry their
    /// payloads over unchanged.
    #[verifier::loop_isolation(false)]
    pub fn shared(&self) -> (r: SharedValue)
        ensures
            r@ == self@,
        decreases *self, 1int,
    {
        match self {
            OwnedValue::Bool(v) => SharedValue::Bool(*v),
            OwnedValue::Char(v) => SharedValue::Char(*v),
            OwnedValue::I8(v) => SharedValue::I8(*v),
            OwnedValue::I16(v) => SharedValue::I16(*v),
            OwnedValue::I32(v) => SharedValue::I32(*v),
            OwnedValue::I64(v) => SharedValue::I64(*v),
            OwnedValue::U8(v) => SharedValue::U8(*v),
            OwnedValue::U16(v) => SharedValue::U16(*v),
            OwnedValue::U32(v) => SharedValue::U32(*v),
            OwnedValue::U64(v) => SharedValue::U64(*v),
            OwnedValue::F32(v) => SharedValue::F32(*v),
            OwnedValue::F64(v) => SharedValue::F64(*v),
            OwnedValue::Pos2d32(v) => SharedValue::Pos2d32(*v),
            OwnedValue::Pos2d64(v) => SharedValue::Pos2d64(*v),
            OwnedValue::Pos3d32(v) => SharedValue::Pos3d32(*v),
            OwnedValue::Pos3d64(v) => SharedValue::Pos3d64(*v),
            OwnedValue::Id(v) => SharedValue::Id(*v),
            OwnedValue::String(v) => SharedValue::String(v.clone()),
            OwnedValue::Bytes(v) => SharedValue::Bytes(Bytes { data: copy_vec(&v.data) }),
            OwnedValue::SmallBytes(v) => SharedValue::SmallBytes(
                SmallBytes { data: copy_vec(&v.data) },
            ),
            OwnedValue::DataMap(m) => SharedValue::DataMap(m.shared()),
            OwnedValue::Array(elems) => {
                let mut out: Vec<SharedValue> = Vec::new();
                let mut i: usize = 0;
                while i < elems.len()
                    invariant
                        i <= elems@.len(),
                        out@.len() == i,
                        forall|j: int|
                            0 <= j < i ==> #[trigger] out@[j].model() == elems@[j].model(),
                    decreases elems@.len() - i,
                {
                    proof {
                        vstd::std_specs::vec::axiom_vec_index_decreases(*elems, i as int);
                    }
                    let s = elems[i].shared();
                    out.push(s);
                    i = i + 1;
                }
                let r = SharedValue::Array(out);
                proof {
                    OwnedValue::lemma_elem_models(elems, elems@.len() as nat);
                    SharedValue::lemma_elem_models(&r->Array_0, r->Array_0@.len() as nat);
                    assert(r@->Array_0 =~= self@->Array_0);
                }
                r
            },
            OwnedValue::PrimArray(pa) => SharedValue::PrimArray(pa.shared()),
            OwnedValue::Null => SharedValue::Null,
            OwnedValue::NA => SharedValue::NA,
        }
    }
}

impl OwnedValue {
    /// An independent deep copy: a fresh owned value with the same model.
    pub fn duplicate(&self) -> (r: OwnedValue)
        ensures
            r@ == self@,
    {
        self.shared().owned()
    }
}

impl SharedValue {
    /// An independent deep copy: a fresh shared value with the same model.
    pub fn duplicate(&self) -> (r: SharedValue)
        ensures
            r@ == self@,
    {
        self.owned().shared()
    }
}

impl OwnedMap {
    /// Borrow this map: the shared form with the same model.
    #[verifier::loop_isolation(false)]
    pub fn shared(&self) -> (r: SharedMap)
        ensures
            r@ == self@,
        decreases *self, 0int,
    {
        let mut out: Vec<(u64, SharedValue)> = Vec::new();
        let mut i: usize = 0;
        while i < self.map.len()
            invariant
                i <= self.map@.len(),
                out@.len() == i,
                forall|j: int|
                    0 <= j < i ==> #[trigger] out@[j].0 == self.map@[j].0 && out@[j].1@
                        == self.map@[j].1@,
            decreases self.map@.len() - i,
        {
            proof {
                vstd::std_specs::vec::axiom_vec_index_decreases(self.map, i as int);
                assert(decreases_to!(self.map@[i as int] => self.map@[i as int].1));
            }
            let key = self.map[i].0;
            let val = self.map[i].1.shared();
            out.push((key, val));
            i = i + 1;
        }
        let fields = clone_string_vec(&self.fields);
        let r = SharedMap { map: out, fields };
        proof {
            OwnedValue::lemma_entry_models(&self.map, self.map@.len() as nat);
            SharedValue::lemma_entry_models(&r.map, r.map@.len() as nat);
            assert(r@.entries =~= self@.entries);
            assert(r@.fields =~= self@.fields);
        }
        r
    }

    /// The owned form of this map: a structural copy with the same model.
    pub fn owned(&self) -> (r: OwnedMap)
        ensures
            r@ == self@,
    {
        self.shared().owned()
    }
}

impl SharedValue {
    /// Materialize this value: the owned form with the same model, holding
    /// independent storage with no external dependency.
    #[verifier::loop_isolation(false)]
    pub fn owned(&self) -> (r: OwnedValue)
        ensures
            r@ == self@,
        decreases *self, 1int,
    {
        match self {
            SharedValue::Bool(v) => OwnedValue::Bool(*v),
            SharedValue::Char(v) => OwnedValue::Char(*v),
            SharedValue::I8(v) => OwnedValue::I8(*v),
            SharedValue::I16(v) => OwnedValue::I16(*v),
            SharedValue::I32(v) => OwnedValue::I32(*v),
            SharedValue::I64(v) => OwnedValue::I64(*v),
            SharedValue::U8(v) => OwnedValue::U8(*v),
            SharedValue::U16(v) => OwnedValue::U16(*v),
            SharedValue::U32(v) => OwnedValue::U32(*v),
            SharedValue::U64(v) => OwnedValue::U64(*v),
            SharedValue::F32(v) => OwnedValue::F32(*v),
            SharedValue::F64(v) => OwnedValue::F64(*v),
            SharedValue::Pos2d32(v) => OwnedValue::Pos2d32(*v),
            SharedValue::Pos2d64(v) => OwnedValue::Pos2d64(*v),
            SharedValue::Pos3d32(v) => OwnedValue::Pos3d32(*v),
            SharedValue::Pos3d64(v) => OwnedValue::Pos3d64(*v),
            SharedValue::Id(v) => OwnedValue::Id(*v),
            SharedValue::String(v) => OwnedValue::String(v.clone()),
            SharedValue::Bytes(v) => OwnedValue::Bytes(Bytes { data: copy_vec(&v.data) }),
            SharedValue::SmallBytes(v) => OwnedValue::SmallBytes(
                SmallBytes { data: copy_vec(&v.data) },
            ),
            SharedValue::DataMap(m) => OwnedValue::DataMap(m.owned()),
            SharedValue::Array(elems) => {
                let mut out: Vec<OwnedValue> = Vec::new();
                let mut i: usize = 0;
                while i < elems.len()
                    invariant
                        i <= elems@.len(),
                        out@.len() == i,
                        forall|j: int|
                            0 <= j < i ==> #[trigger] out@[j].model() == elems@[j].model(),
                    decreases elems@.len() - i,
                {
                    proof {
                        vstd::std_specs::vec::axiom_vec_index_decreases(*elems, i as int);
                    }
                    let s = elems[i].owned();
                    out.push(s);
                    i = i + 1;
                }
                let r = OwnedValue::Array(out);
                proof {
                    SharedValue::lemma_elem_models(elems, elems@.len() as nat);
                    OwnedValue::lemma_elem_models(&r->Array_0, r->Array_0@.len() as nat);
                    assert(r@->Array_0 =~= self@->Array_0);
                }
                r
            },
            SharedValue::PrimArray(pa) => OwnedValue::PrimArray(pa.owned()),
            SharedValue::Null => OwnedValue::Null,
            SharedValue::NA => OwnedValue::NA,
        }
    }
}

impl SharedMap {
    /// Materialize this map: the owned form with the same model.
    #[verifier::loop_isolation(false)]
    pub fn owned(&self) -> (r: OwnedMap)
        ensures
            r@ == self@,
        decreases *self, 0int,
    {
        let mut out: Vec<(u64, OwnedValue)> = Vec::new();
        let mut i: usize = 0;
        while i < self.map.len()
            invariant
                i <= self.map@.len(),
                out@.len() == i,
                forall|j: int|
                    0 <= j < i ==> #[trigger] out@[j].0 == self.map@[j].0 && out@[j].1@
                        == self.map@[j].1@,
            decreases self.map@.len() - i,
        {
            proof {
                vstd::std_specs::vec::axiom_vec_index_decreases(self.map, i as int);
                assert(decreases_to!(self.map@[i as int] => self.map@[i as int].1));
            }
            let key = self.map[i].0;
            let val = self.map[i].1.owned();
            out.push((key, val));
            i = i + 1;
        }
        let fields = clone_string_vec(&self.fields);
        let r = OwnedMap { map: out, fields };
        proof {
            SharedValue::lemma_entry_models(&self.map, self.map@.len() as nat);
            OwnedValue::lemma_entry_models(&r.map, r.map@.len() as nat);
            assert(r@.entries =~= self@.entries);
            assert(r@.fields =~= self@.fields);
        }
        r
    }

    /// Borrow this map again: a structural copy with the same model.
    pub fn shared(&self) -> (r: SharedMap)
        ensures
            r@ == self@,
    {
        self.owned().shared()
    }
}

/// Borrow/materialize round trip: whatever `shared` returns for an owned
/// value `v`, materializing it with `owned` gives a value structurally equal
/// to `v` (equal models), for every variant including nested maps, arrays
/// and packed arrays.
pub proof fn lemma_owned_shared_round_trip(v: OwnedValue, s: SharedValue, o: OwnedValue)
    requires
        call_ensures(OwnedValue::shared, (&v,), s),
        call_ensures(SharedValue::owned, (&s,), o),
    ensures
        o@ == v@,
{
}

/// Materialize/borrow round trip: whatever `owned` returns for a shared
/// value `s`, borrowing it again with `shared` gives a value structurally
/// equal to `s` (equal models).
pub proof fn lemma_shared_owned_round_trip(s: SharedValue, o: OwnedValue, s2: SharedValue)
    requires
        call_ensures(SharedValue::owned, (&s,), o),
        call_ensures(OwnedValue::shared, (&o,), s2),
    ensures
        s2@ == s@,
{
}

} // verus!
