//! Structural equality of values: two values are equal when their models
//! are, which compares payloads (strings by characters, blobs by bytes,
//! floats by bit pattern) and structure recursively.

use vstd::prelude::*;
use crate::types::data_type::str_eq;
use crate::types::bytes::{Bytes, SmallBytes, bytes_eq};
use crate::types::owned::{OwnedValue, OwnedPrimArray, OwnedMap};
use crate::types::shared::{SharedValue, SharedPrimArray, SharedMap};

verus! {

/// Compare two vectors of `bool` elementwise.
pub fn eq_vec_bool(a: &Vec<bool>, b: &Vec<bool>) -> (r: bool)
    ensures
        r == (a@ == b@),
{
    if a.len() != b.len() {
        return false;
    }
    let mut i: usize = 0;
    while i < a.len()
        invariant
            a@.len() == b@.len(),
            i <= a@.len(),
            forall|j: int| 0 <= j < i ==> a@[j] == b@[j],
        decreases a@.len() - i,
    {
        if a[i] != b[i] {
            return false;
        }
        i = i + 1;
    }
    proof {
        assert(a@ =~= b@);
    }
    true
}

/// Compare two vectors of `char` elementwise.
pub fn eq_vec_char(a: &Vec<char>, b: &Vec<char>) -> (r: bool)
    ensures
        r == (a@ == b@),
{
    if a.len() != b.len() {
        return false;
    }
    let mut i: usize = 0;
    while i < a.len()
        invariant
            a@.len() == b@.len(),
            i <= a@.len(),
            forall|j: int| 0 <= j < i ==> a@[j] == b@[j],
        decreases a@.len() - i,
    {
        if a[i] != b[i] {
            return false;
        }
        i = i + 1;
    }
    proof {
        assert(a@ =~= b@);
    }
    true
}

/// Compare two vectors of `i8` elementwise.
pub fn eq_vec_i8(a: &Vec<i8>, b: &Vec<i8>) -> (r: bool)
    ensures
        r == (a@ == b@),
{
    if a.len() != b.len() {
        return false;
    }
    let mut i: usize = 0;
    while i < a.len()
        invariant
            a@.len() == b@.len(),
            i <= a@.len(),
            forall|j: int| 0 <= j < i ==> a@[j] == b@[j],
        decreases a@.len() - i,
    {
        if a[i] != b[i] {
            return false;
        }
        i = i + 1;
    }
    proof {
        assert(a@ =~= b@);
    }
    true
}

/// Compare two vectors of `i16` elementwise.
pub fn eq_vec_i16(a: &Vec<i16>, b: &Vec<i16>) -> (r: bool)
    ensures
        r == (a@ == b@),
{
    if a.len() != b.len() {
        return false;
    }
    let mut i: usize = 0;
    while i < a.len()
        invariant
            a@.len() == b@.len(),
            i <= a@.len(),
            forall|j: int| 0 <= j < i ==> a@[j] == b@[j],
        decreases a@.len() - i,
    {
        if a[i] != b[i] {
            return false;
        }
        i = i + 1;
    }
    proof {
        assert(a@ =~= b@);
    }
    true
}

/// Compare two vectors of `i32` elementwise.
pub fn eq_vec_i32(a: &Vec<i32>, b: &Vec<i32>) -> (r: bool)
    ensures
        r == (a@ == b@),
{
    if a.len() != b.len() {
        return false;
    }
    let mut i: usize = 0;
    while i < a.len()
        invariant
            a@.len() == b@.len(),
            i <= a@.len(),
            forall|j: int| 0 <= j < i ==> a@[j] == b@[j],
        decreases a@.len() - i,
    {
        if a[i] != b[i] {
            return false;
        }
        i = i + 1;
    }
    proof {
        assert(a@ =~= b@);
    }
    true
}

/// Compare two vectors of `i64` elementwise.
pub fn eq_vec_i64(a: &Vec<i64>, b: &Vec<i64>) -> (r: bool)
    ensures
        r == (a@ == b@),
{
    if a.len() != b.len() {
        return false;
    }
    let mut i: usize = 0;
    while i < a.len()
        invariant
            a@.len() == b@.len(),
            i <= a@.len(),
            forall|j: int| 0 <= j < i ==> a@[j] == b@[j],
        decreases a@.len() - i,
    {
        if a[i] != b[i] {
            return false;
        }
        i = i + 1;
    }
    proof {
        assert(a@ =~= b@);
    }
    true
}

/// Compare two vectors of `u8` elementwise.
pub fn eq_vec_u8(a: &Vec<u8>, b: &Vec<u8>) -> (r: bool)
    ensures
        r == (a@ == b@),
{
    if a.len() != b.len() {
        return false;
    }
    let mut i: usize = 0;
    while i < a.len()
        invariant
            a@.len() == b@.len(),
            i <= a@.len(),
            forall|j: int| 0 <= j < i ==> a@[j] == b@[j],
        decreases a@.len() - i,
    {
        if a[i] != b[i] {
            return false;
        }
        i = i + 1;
    }
    proof {
        assert(a@ =~= b@);
    }
    true
}

/// Compare two vectors of `u16` elementwise.
pub fn eq_vec_u16(a: &Vec<u16>, b: &Vec<u16>) -> (r: bool)
    ensures
        r == (a@ == b@),
{
    if a.len() != b.len() {
        return false;
    }
    let mut i: usize = 0;
    while i < a.len()
        invariant
            a@.len() == b@.len(),
            i <= a@.len(),
            forall|j: int| 0 <= j < i ==> a@[j] == b@[j],
        decreases a@.len() - i,
    {
        if a[i] != b[i] {
            return false;
        }
        i = i + 1;
    }
    proof {
        assert(a@ =~= b@);
    }
    true
}

/// Compare two vectors of `u32` elementwise.
pub fn eq_vec_u32(a: &Vec<u32>, b: &Vec<u32>) -> (r: bool)
    ensures
        r == (a@ == b@),
{
    if a.len() != b.len() {
        return false;
    }
    let mut i: usize = 0;
    while i < a.len()
        invariant
            a@.len() == b@.len(),
            i <= a@.len(),
            forall|j: int| 0 <= j < i ==> a@[j] == b@[j],
        decreases a@.len() - i,
    {
        if a[i] != b[i] {
            return false;
        }
        i = i + 1;
    }
    proof {
        assert(a@ =~= b@);
    }
    true
}

/// Compare two vectors of `u64` elementwise.
pub fn eq_vec_u64(a: &Vec<u64>, b: &Vec<u64>) -> (r: bool)
    ensures
        r == (a@ == b@),
{
    if a.len() != b.len() {
        return false;
    }
    let mut i: usize = 0;
    while i < a.len()
        invariant
            a@.len() == b@.len(),
            i <= a@.len(),
            forall|j: int| 0 <= j < i ==> a@[j] == b@[j],
        decreases a@.len() - i,
    {
        if a[i] != b[i] {
            return false;
        }
        i = i + 1;
    }
    proof {
        assert(a@ =~= b@);
    }
    true
}

/// Compare two vectors of `Pos2d32` elementwise.
pub fn eq_vec_pos2d32(a: &Vec<crate::types::pos::Pos2d32>, b: &Vec<crate::types::pos::Pos2d32>) -> (r: bool)
    ensures
        r == (a@ == b@),
{
    if a.len() != b.len() {
        return false;
    }
    let mut i: usize = 0;
    while i < a.len()
        invariant
            a@.len() == b@.len(),
            i <= a@.len(),
            forall|j: int| 0 <= j < i ==> a@[j] == b@[j],
        decreases a@.len() - i,
    {
        if a[i] != b[i] {
            return false;
        }
        i = i + 1;
    }
    proof {
        assert(a@ =~= b@);
    }
    true
}

/// Compare two vectors of `Pos2d64` elementwise.
pub fn eq_vec_pos2d64(a: &Vec<crate::types::pos::Pos2d64>, b: &Vec<crate::types::pos::Pos2d64>) -> (r: bool)
    ensures
        r == (a@ == b@),
{
    if a.len() != b.len() {
        return false;
    }
    let mut i: usize = 0;
    while i < a.len()
        invariant
            a@.len() == b@.len(),
            i <= a@.len(),
            forall|j: int| 0 <= j < i ==> a@[j] == b@[j],
        decreases a@.len() - i,
    {
        if a[i] != b[i] {
            return false;
        }
        i = i + 1;
    }
    proof {
        assert(a@ =~= b@);
    }
    true
}

/// Compare two vectors of `Pos3d32` elementwise.
pub fn eq_vec_pos3d32(a: &Vec<crate::types::pos::Pos3d32>, b: &Vec<crate::types::pos::Pos3d32>) -> (r: bool)
    ensures
        r == (a@ == b@),
{
    if a.len() != b.len() {
        return false;
    }
    let mut i: usize = 0;
    while i < a.len()
        invariant
            a@.len() == b@.len(),
            i <= a@.len(),
            forall|j: int| 0 <= j < i ==> a@[j] == b@[j],
        decreases a@.len() - i,
    {
        if a[i] != b[i] {
            return false;
        }
        i = i + 1;
    }
    proof {
        assert(a@ =~= b@);
    }
    true
}

/// Compare two vectors of `Pos3d64` elementwise.
pub fn eq_vec_pos3d64(a: &Vec<crate::types::pos::Pos3d64>, b: &Vec<crate::types::pos::Pos3d64>) -> (r: bool)
    ensures
        r == (a@ == b@),
{
    if a.len() != b.len() {
        return false;
    }
    let mut i: usize = 0;
    while i < a.len()
        invariant
            a@.len() == b@.len(),
            i <= a@.len(),
            forall|j: int| 0 <= j < i ==> a@[j] == b@[j],
        decreases a@.len() - i,
    {
        if a[i] != b[i] {
            return false;
        }
        i = i + 1;
    }
    proof {
        assert(a@ =~= b@);
    }
    true
}

/// Compare two vectors of `Id` elementwise.
pub fn eq_vec_id(a: &Vec<crate::types::id::Id>, b: &Vec<crate::types::id::Id>) -> (r: bool)
    ensures
        r == (a@ == b@),
{
    if a.len() != b.len() {
        return false;
    }
    let mut i: usize = 0;
    while i < a.len()
        invariant
            a@.len() == b@.len(),
            i <= a@.len(),
            forall|j: int| 0 <= j < i ==> a@[j] == b@[j],
        decreases a@.len() - i,
    {
        if a[i] != b[i] {
            return false;
        }
        i = i + 1;
    }
    proof {
        assert(a@ =~= b@);
    }
    true
}

/// Compare two vectors of strings by their characters.
pub fn eq_vec_string(a: &Vec<String>, b: &Vec<String>) -> (r: bool)
    ensures
        r == (Seq::new(a@.len(), |i: int| a@[i]@) == Seq::new(b@.len(), |i: int| b@[i]@)),
{
    let ghost av = Seq::new(a@.len(), |i: int| a@[i]@);
    let ghost bv = Seq::new(b@.len(), |i: int| b@[i]@);
    if a.len() != b.len() {
        proof {
            assert(av.len() != bv.len());
        }
        return false;
    }
    let mut i: usize = 0;
    while i < a.len()
        invariant
            a@.len() == b@.len(),
            i <= a@.len(),
            av == Seq::new(a@.len(), |k: int| a@[k]@),
            bv == Seq::new(b@.len(), |k: int| b@[k]@),
            forall|j: int| 0 <= j < i ==> av[j] == bv[j],
        decreases a@.len() - i,
    {
        if !str_eq(a[i].as_str(), b[i].as_str()) {
            proof {
                assert(av[i as int] != bv[i as int]);
            }
            return false;
        }
        i = i + 1;
    }
    proof {
        assert(av =~= bv);
    }
    true
}

/// Compare two vectors of byte blobs by their bytes.
pub fn eq_vec_bytes(a: &Vec<Bytes>, b: &Vec<Bytes>) -> (r: bool)
    ensures
        r == (Seq::new(a@.len(), |i: int| a@[i]@) == Seq::new(b@.len(), |i: int| b@[i]@)),
{
    let ghost av = Seq::new(a@.len(), |i: int| a@[i]@);
    let ghost bv = Seq::new(b@.len(), |i: int| b@[i]@);
    if a.len() != b.len() {
        proof {
            assert(av.len() != bv.len());
        }
        return false;
    }
    let mut i: usize = 0;
    while i < a.len()
        invariant
            a@.len() == b@.len(),
            i <= a@.len(),
            av == Seq::new(a@.len(), |k: int| a@[k]@),
            bv == Seq::new(b@.len(), |k: int| b@[k]@),
            forall|j: int| 0 <= j < i ==> av[j] == bv[j],
        decreases a@.len() - i,
    {
        if !bytes_eq(&a[i].data, &b[i].data) {
            proof {
                assert(av[i as int] != bv[i as int]);
            }
            return false;
        }
        i = i + 1;
    }
    proof {
        assert(av =~= bv);
    }
    true
}

/// Compare two vectors of short byte blobs by their bytes.
pub fn eq_vec_small_bytes(a: &Vec<SmallBytes>, b: &Vec<SmallBytes>) -> (r: bool)
    ensures
        r == (Seq::new(a@.len(), |i: int| a@[i]@) == Seq::new(b@.len(), |i: int| b@[i]@)),
{
    let ghost av = Seq::new(a@.len(), |i: int| a@[i]@);
    let ghost bv = Seq::new(b@.len(), |i: int| b@[i]@);
    if a.len() != b.len() {
        proof {
            assert(av.len() != bv.len());
        }
        return false;
    }
    let mut i: usize = 0;
    while i < a.len()
        invariant
            a@.len() == b@.len(),
            i <= a@.len(),
            av == Seq::new(a@.len(), |k: int| a@[k]@),
            bv == Seq::new(b@.len(), |k: int| b@[k]@),
            forall|j: int| 0 <= j < i ==> av[j] == bv[j],
        decreases a@.len() - i,
    {
        if !bytes_eq(&a[i].data, &b[i].data) {
            proof {
                assert(av[i as int] != bv[i as int]);
            }
            return false;
        }
        i = i + 1;
    }
    proof {
        assert(av =~= bv);
    }
    true
}

/// Compare two packed arrays by model.
pub fn prim_array_eq(a: &OwnedPrimArray, b: &OwnedPrimArray) -> (r: bool)
    ensures
        r == (a@ == b@),
{
    match (a, b) {
            (OwnedPrimArray::Bool(x), OwnedPrimArray::Bool(y)) => eq_vec_bool(x, y),
            (OwnedPrimArray::Char(x), OwnedPrimArray::Char(y)) => eq_vec_char(x, y),
            (OwnedPrimArray::I8(x), OwnedPrimArray::I8(y)) => eq_vec_i8(x, y),
            (OwnedPrimArray::I16(x), OwnedPrimArray::I16(y)) => eq_vec_i16(x, y),
            (OwnedPrimArray::I32(x), OwnedPrimArray::I32(y)) => eq_vec_i32(x, y),
            (OwnedPrimArray::I64(x), OwnedPrimArray::I64(y)) => eq_vec_i64(x, y),
            (OwnedPrimArray::U8(x), OwnedPrimArray::U8(y)) => eq_vec_u8(x, y),
            (OwnedPrimArray::U16(x), OwnedPrimArray::U16(y)) => eq_vec_u16(x, y),
            (OwnedPrimArray::U32(x), OwnedPrimArray::U32(y)) => eq_vec_u32(x, y),
            (OwnedPrimArray::U64(x), OwnedPrimArray::U64(y)) => eq_vec_u64(x, y),
            (OwnedPrimArray::F32(x), OwnedPrimArray::F32(y)) => eq_vec_u32(x, y),
            (OwnedPrimArray::F64(x), OwnedPrimArray::F64(y)) => eq_vec_u64(x, y),
            (OwnedPrimArray::Pos2d32(x), OwnedPrimArray::Pos2d32(y)) => eq_vec_pos2d32(x, y),
            (OwnedPrimArray::Pos2d64(x), OwnedPrimArray::Pos2d64(y)) => eq_vec_pos2d64(x, y),
            (OwnedPrimArray::Pos3d32(x), OwnedPrimArray::Pos3d32(y)) => eq_vec_pos3d32(x, y),
            (OwnedPrimArray::Pos3d64(x), OwnedPrimArray::Pos3d64(y)) => eq_vec_pos3d64(x, y),
            (OwnedPrimArray::Id(x), OwnedPrimArray::Id(y)) => eq_vec_id(x, y),
            (OwnedPrimArray::String(x), OwnedPrimArray::String(y)) => eq_vec_string(x, y),
            (OwnedPrimArray::Bytes(x), OwnedPrimArray::Bytes(y)) => eq_vec_bytes(x, y),
            (OwnedPrimArray::SmallBytes(x), OwnedPrimArray::SmallBytes(y)) => eq_vec_small_bytes(x, y),
            _ => false,
    }
}

/// Compare two packed arrays by model.
pub fn shared_prim_array_eq(a: &SharedPrimArray, b: &SharedPrimArray) -> (r: bool)
    ensures
        r == (a@ == b@),
{
    match (a, b) {
            (SharedPrimArray::Bool(x), SharedPrimArray::Bool(y)) => eq_vec_bool(x, y),
            (SharedPrimArray::Char(x), SharedPrimArray::Char(y)) => eq_vec_char(x, y),
            (SharedPrimArray::I8(x), SharedPrimArray::I8(y)) => eq_vec_i8(x, y),
            (SharedPrimArray::I16(x), SharedPrimArray::I16(y)) => eq_vec_i16(x, y),
            (SharedPrimArray::I32(x), SharedPrimArray::I32(y)) => eq_vec_i32(x, y),
            (SharedPrimArray::I64(x), SharedPrimArray::I64(y)) => eq_vec_i64(x, y),
            (SharedPrimArray::U8(x), SharedPrimArray::U8(y)) => eq_vec_u8(x, y),
            (SharedPrimArray::U16(x), SharedPrimArray::U16(y)) => eq_vec_u16(x, y),
            (SharedPrimArray::U32(x), SharedPrimArray::U32(y)) => eq_vec_u32(x, y),
            (SharedPrimArray::U64(x), SharedPrimArray::U64(y)) => eq_vec_u64(x, y),
            (SharedPrimArray::F32(x), SharedPrimArray::F32(y)) => eq_vec_u32(x, y),
            (SharedPrimArray::F64(x), SharedPrimArray::F64(y)) => eq_vec_u64(x, y),
            (SharedPrimArray::Pos2d32(x), SharedPrimArray::Pos2d32(y)) => eq_vec_pos2d32(x, y),
            (SharedPrimArray::Pos2d64(x), SharedPrimArray::Pos2d64(y)) => eq_vec_pos2d64(x, y),
            (SharedPrimArray::Pos3d32(x), SharedPrimArray::Pos3d32(y)) => eq_vec_pos3d32(x, y),
            (SharedPrimArray::Pos3d64(x), SharedPrimArray::Pos3d64(y)) => eq_vec_pos3d64(x, y),
            (SharedPrimArray::Id(x), SharedPrimArray::Id(y)) => eq_vec_id(x, y),
            (SharedPrimArray::String(x), SharedPrimArray::String(y)) => eq_vec_string(x, y),
            (SharedPrimArray::Bytes(x), SharedPrimArray::Bytes(y)) => eq_vec_bytes(x, y),
            (SharedPrimArray::SmallBytes(x), SharedPrimArray::SmallBytes(y)) => eq_vec_small_bytes(x, y),
            _ => false,
    }
}

/// Compare two values by model: structural equality with strings compared
/// by characters, blobs by bytes and floats by bit pattern.
#[verifier::loop_isolation(false)]
pub fn owned_value_eq(a: &OwnedValue, b: &OwnedValue) -> (r: bool)
    ensures
        r == (a@ == b@),
    decreases *a, 1int,
{
    match (a, b) {
            (OwnedValue::Bool(x), OwnedValue::Bool(y)) => x == y,
            (OwnedValue::Char(x), OwnedValue::Char(y)) => x == y,
            (OwnedValue::I8(x), OwnedValue::I8(y)) => x == y,
            (OwnedValue::I16(x), OwnedValue::I16(y)) => x == y,
            (OwnedValue::I32(x), OwnedValue::I32(y)) => x == y,
            (OwnedValue::I64(x), OwnedValue::I64(y)) => x == y,
            (OwnedValue::U8(x), OwnedValue::U8(y)) => x == y,
            (OwnedValue::U16(x), OwnedValue::U16(y)) => x == y,
            (OwnedValue::U32(x), OwnedValue::U32(y)) => x == y,
            (OwnedValue::U64(x), OwnedValue::U64(y)) => x == y,
            (OwnedValue::F32(x), OwnedValue::F32(y)) => x == y,
            (OwnedValue::F64(x), OwnedValue::F64(y)) => x == y,
            (OwnedValue::Pos2d32(x), OwnedValue::Pos2d32(y)) => x == y,
            (OwnedValue::Pos2d64(x), OwnedValue::Pos2d64(y)) => x == y,
            (OwnedValue::Pos3d32(x), OwnedValue::Pos3d32(y)) => x == y,
            (OwnedValue::Pos3d64(x), OwnedValue::Pos3d64(y)) => x == y,
            (OwnedValue::Id(x), OwnedValue::Id(y)) => x == y,
            (OwnedValue::String(x), OwnedValue::String(y)) => str_eq(x.as_str(), y.as_str()),
            (OwnedValue::Bytes(x), OwnedValue::Bytes(y)) => bytes_eq(&x.data, &y.data),
            (OwnedValue::SmallBytes(x), OwnedValue::SmallBytes(y)) => bytes_eq(&x.data, &y.data),
            (OwnedValue::DataMap(x), OwnedValue::DataMap(y)) => owned_map_eq(x, y),
            (OwnedValue::Array(x), OwnedValue::Array(y)) => {
        proof {
            OwnedValue::lemma_elem_models(x, x@.len() as nat);
            OwnedValue::lemma_elem_models(y, y@.len() as nat);
        }
        if x.len() != y.len() {
            return false;
        }
        let mut i: usize = 0;
        while i < x.len()
            invariant
                x@.len() == y@.len(),
                i <= x@.len(),
                forall|j: int| 0 <= j < i ==> #[trigger] x@[j].model() == y@[j].model(),
                forall|j: int|
                    0 <= j < x@.len() ==> #[trigger] OwnedValue::elem_models(x, x@.len() as nat)[j]
                        == x@[j].model(),
                forall|j: int|
                    0 <= j < y@.len() ==> #[trigger] OwnedValue::elem_models(y, y@.len() as nat)[j]
                        == y@[j].model(),
                OwnedValue::elem_models(x, x@.len() as nat).len() == x@.len(),
                OwnedValue::elem_models(y, y@.len() as nat).len() == y@.len(),
            decreases x@.len() - i,
        {
            proof {
                vstd::std_specs::vec::axiom_vec_index_decreases(*x, i as int);
            }
            if !owned_value_eq(&x[i], &y[i]) {
                proof {
                    assert(OwnedValue::elem_models(x, x@.len() as nat)[i as int] != OwnedValue::elem_models(
                        y,
                        y@.len() as nat,
                    )[i as int]);
                }
                return false;
            }
            i = i + 1;
        }
        proof {
            assert(OwnedValue::elem_models(x, x@.len() as nat) =~= OwnedValue::elem_models(
                y,
                y@.len() as nat,
            ));
        }
        true
    },
            (OwnedValue::PrimArray(x), OwnedValue::PrimArray(y)) => prim_array_eq(x, y),
            (OwnedValue::Null, OwnedValue::Null) => true,
            (OwnedValue::NA, OwnedValue::NA) => true,
            _ => false,
    }
}

/// Compare two maps by model: same entries in the same order and the same
/// field-name list.
#[verifier::loop_isolation(false)]
pub fn owned_map_eq(a: &OwnedMap, b: &OwnedMap) -> (r: bool)
    ensures
        r == (a@ == b@),
    decreases *a, 0int,
{
    proof {
        OwnedValue::lemma_entry_models(&a.map, a.map@.len() as nat);
        OwnedValue::lemma_entry_models(&b.map, b.map@.len() as nat);
    }
    if a.map.len() != b.map.len() {
        proof {
            assert(a@.entries.len() != b@.entries.len());
        }
        return false;
    }
    let mut i: usize = 0;
    while i < a.map.len()
        invariant
            a.map@.len() == b.map@.len(),
            i <= a.map@.len(),
            forall|j: int| 0 <= j < i ==> (#[trigger] a.map@[j]).0 == b.map@[j].0,
            forall|j: int|
                0 <= j < i ==> (#[trigger] a.map@[j]).1.model() == b.map@[j].1.model(),
            forall|j: int|
                0 <= j < a.map@.len() ==> #[trigger] a@.entries[j] == (
                a.map@[j].0,
                a.map@[j].1.model(),
                ),
            forall|j: int|
                0 <= j < b.map@.len() ==> #[trigger] b@.entries[j] == (
                b.map@[j].0,
                b.map@[j].1.model(),
                ),
            a@.entries.len() == a.map@.len(),
            b@.entries.len() == b.map@.len(),
        decreases a.map@.len() - i,
    {
        proof {
            vstd::std_specs::vec::axiom_vec_index_decreases(a.map, i as int);
            assert(decreases_to!(a.map@[i as int] => a.map@[i as int].1));
        }
        if a.map[i].0 != b.map[i].0 {
            proof {
                assert(a@.entries[i as int] != b@.entries[i as int]);
            }
            return false;
        }
        if !owned_value_eq(&a.map[i].1, &b.map[i].1) {
            proof {
                assert(a@.entries[i as int] != b@.entries[i as int]);
            }
            return false;
        }
        proof {
            assert(a.map@[i as int].1@ == b.map@[i as int].1@);
            assert(a.map@[i as int].1.model() == b.map@[i as int].1.model());
        }
        i = i + 1;
    }
    if !eq_vec_string(&a.fields, &b.fields) {
        proof {
            assert(a@.fields == Seq::new(a.fields@.len(), |k: int| a.fields@[k]@));
            assert(b@.fields == Seq::new(b.fields@.len(), |k: int| b.fields@[k]@));
        }
        return false;
    }
    proof {
        assert(a@.entries =~= b@.entries);
        assert(a@.fields == Seq::new(a.fields@.len(), |k: int| a.fields@[k]@));
        assert(b@.fields == Seq::new(b.fields@.len(), |k: int| b.fields@[k]@));
        assert(a@ =~= b@);
    }
    true
}

/// Compare two values by model: structural equality with strings compared
/// by characters, blobs by bytes and floats by bit pattern.
#[verifier::loop_isolation(false)]
pub fn shared_value_eq(a: &SharedValue, b: &SharedValue) -> (r: bool)
    ensures
        r == (a@ == b@),
    decreases *a, 1int,
{
    match (a, b) {
            (SharedValue::Bool(x), SharedValue::Bool(y)) => x == y,
            (SharedValue::Char(x), SharedValue::Char(y)) => x == y,
            (SharedValue::I8(x), SharedValue::I8(y)) => x == y,
            (SharedValue::I16(x), SharedValue::I16(y)) => x == y,
            (SharedValue::I32(x), SharedValue::I32(y)) => x == y,
            (SharedValue::I64(x), SharedValue::I64(y)) => x == y,
            (SharedValue::U8(x), SharedValue::U8(y)) => x == y,
            (SharedValue::U16(x), SharedValue::U16(y)) => x == y,
            (SharedValue::U32(x), SharedValue::U32(y)) => x == y,
            (SharedValue::U64(x), SharedValue::U64(y)) => x == y,
            (SharedValue::F32(x), SharedValue::F32(y)) => x == y,
            (SharedValue::F64(x), SharedValue::F64(y)) => x == y,
            (SharedValue::Pos2d32(x), SharedValue::Pos2d32(y)) => x == y,
            (SharedValue::Pos2d64(x), SharedValue::Pos2d64(y)) => x == y,
            (SharedValue::Pos3d32(x), SharedValue::Pos3d32(y)) => x == y,
            (SharedValue::Pos3d64(x), SharedValue::Pos3d64(y)) => x == y,
            (SharedValue::Id(x), SharedValue::Id(y)) => x == y,
            (SharedValue::String(x), SharedValue::String(y)) => str_eq(x.as_str(), y.as_str()),
            (SharedValue::Bytes(x), SharedValue::Bytes(y)) => bytes_eq(&x.data, &y.data),
            (SharedValue::SmallBytes(x), SharedValue::SmallBytes(y)) => bytes_eq(&x.data, &y.data),
            (SharedValue::DataMap(x), SharedValue::DataMap(y)) => shared_map_eq(x, y),
            (SharedValue::Array(x), SharedValue::Array(y)) => {
        proof {
            SharedValue::lemma_elem_models(x, x@.len() as nat);
            SharedValue::lemma_elem_models(y, y@.len() as nat);
        }
        if x.len() != y.len() {
            return false;
        }
        let mut i: usize = 0;
        while i < x.len()
            invariant
                x@.len() == y@.len(),
                i <= x@.len(),
                forall|j: int| 0 <= j < i ==> #[trigger] x@[j].model() == y@[j].model(),
                forall|j: int|
                    0 <= j < x@.len() ==> #[trigger] SharedValue::elem_models(x, x@.len() as nat)[j]
                        == x@[j].model(),
                forall|j: int|
                    0 <= j < y@.len() ==> #[trigger] SharedValue::elem_models(y, y@.len() as nat)[j]
                        == y@[j].model(),
                SharedValue::elem_models(x, x@.len() as nat).len() == x@.len(),
                SharedValue::elem_models(y, y@.len() as nat).len() == y@.len(),
            decreases x@.len() - i,
        {
            proof {
                vstd::std_specs::vec::axiom_vec_index_decreases(*x, i as int);
            }
            if !shared_value_eq(&x[i], &y[i]) {
                proof {
                    assert(SharedValue::elem_models(x, x@.len() as nat)[i as int] != SharedValue::elem_models(
                        y,
                        y@.len() as nat,
                    )[i as int]);
                }
                return false;
            }
            i = i + 1;
        }
        proof {
            assert(SharedValue::elem_models(x, x@.len() as nat) =~= SharedValue::elem_models(
                y,
                y@.len() as nat,
            ));
        }
        true
    },
            (SharedValue::PrimArray(x), SharedValue::PrimArray(y)) => shared_prim_array_eq(x, y),
            (SharedValue::Null, SharedValue::Null) => true,
            (SharedValue::NA, SharedValue::NA) => true,
            _ => false,
    }
}

/// Compare two maps by model: same entries in the same order and the same
/// field-name list.
#[verifier::loop_isolation(false)]
pub fn shared_map_eq(a: &SharedMap, b: &SharedMap) -> (r: bool)
    ensures
        r == (a@ == b@),
    decreases *a, 0int,
{
    proof {
        SharedValue::lemma_entry_models(&a.map, a.map@.len() as nat);
        SharedValue::lemma_entry_models(&b.map, b.map@.len() as nat);
    }
    if a.map.len() != b.map.len() {
        proof {
            assert(a@.entries.len() != b@.entries.len());
        }
        return false;
    }
    let mut i: usize = 0;
    while i < a.map.len()
        invariant
            a.map@.len() == b.map@.len(),
            i <= a.map@.len(),
            forall|j: int| 0 <= j < i ==> (#[trigger] a.map@[j]).0 == b.map@[j].0,
            forall|j: int|
                0 <= j < i ==> (#[trigger] a.map@[j]).1.model() == b.map@[j].1.model(),
            forall|j: int|
                0 <= j < a.map@.len() ==> #[trigger] a@.entries[j] == (
                a.map@[j].0,
                a.map@[j].1.model(),
                ),
            forall|j: int|
                0 <= j < b.map@.len() ==> #[trigger] b@.entries[j] == (
                b.map@[j].0,
                b.map@[j].1.model(),
                ),
            a@.entries.len() == a.map@.len(),
            b@.entries.len() == b.map@.len(),
        decreases a.map@.len() - i,
    {
        proof {
            vstd::std_specs::vec::axiom_vec_index_decreases(a.map, i as int);
            assert(decreases_to!(a.map@[i as int] => a.map@[i as int].1));
        }
        if a.map[i].0 != b.map[i].0 {
            proof {
                assert(a@.entries[i as int] != b@.entries[i as int]);
            }
            return false;
        }
        if !shared_value_eq(&a.map[i].1, &b.map[i].1) {
            proof {
                assert(a@.entries[i as int] != b@.entries[i as int]);
            }
            return false;
        }
        proof {
            assert(a.map@[i as int].1@ == b.map@[i as int].1@);
            assert(a.map@[i as int].1.model() == b.map@[i as int].1.model());
        }
        i = i + 1;
    }
    if !eq_vec_string(&a.fields, &b.fields) {
        proof {
            assert(a@.fields == Seq::new(a.fields@.len(), |k: int| a.fields@[k]@));
            assert(b@.fields == Seq::new(b.fields@.len(), |k: int| b.fields@[k]@));
        }
        return false;
    }
    proof {
        assert(a@.entries =~= b@.entries);
        assert(a@.fields == Seq::new(a.fields@.len(), |k: int| a.fields@[k]@));
        assert(b@.fields == Seq::new(b.fields@.len(), |k: int| b.fields@[k]@));
        assert(a@ =~= b@);
    }
    true
}

impl PartialEq for OwnedValue {
    fn eq(&self, other: &OwnedValue) -> (r: bool) {
        owned_value_eq(self, other)
    }
}

impl Eq for OwnedValue {

}

impl vstd::std_specs::cmp::PartialEqSpecImpl for OwnedValue {
    open spec fn obeys_eq_spec() -> bool {
        true
    }

    open spec fn eq_spec(&self, other: &OwnedValue) -> bool {
        self@ == other@
    }
}

impl PartialEq for SharedValue {
    fn eq(&self, other: &SharedValue) -> (r: bool) {
        shared_value_eq(self, other)
    }
}

impl Eq for SharedValue {

}

impl vstd::std_specs::cmp::PartialEqSpecImpl for SharedValue {
    open spec fn obeys_eq_spec() -> bool {
        true
    }

    open spec fn eq_spec(&self, other: &SharedValue) -> bool {
        self@ == other@
    }
}

impl PartialEq for OwnedMap {
    fn eq(&self, other: &OwnedMap) -> (r: bool) {
        owned_map_eq(self, other)
    }
}

impl Eq for OwnedMap {

}

impl vstd::std_specs::cmp::PartialEqSpecImpl for OwnedMap {
    open spec fn obeys_eq_spec() -> bool {
        true
    }

    open spec fn eq_spec(&self, other: &OwnedMap) -> bool {
        self@ == other@
    }
}

impl PartialEq for SharedMap {
    fn eq(&self, other: &SharedMap) -> (r: bool) {
        shared_map_eq(self, other)
    }
}

impl Eq for SharedMap {

}

impl vstd::std_specs::cmp::PartialEqSpecImpl for SharedMap {
    open spec fn obeys_eq_spec() -> bool {
        true
    }

    open spec fn eq_spec(&self, other: &SharedMap) -> bool {
        self@ == other@
    }
}

impl PartialEq for OwnedPrimArray {
    fn eq(&self, other: &OwnedPrimArray) -> (r: bool) {
        prim_array_eq(self, other)
    }
}

impl Eq for OwnedPrimArray {

}

impl vstd::std_specs::cmp::PartialEqSpecImpl for OwnedPrimArray {
    open spec fn obeys_eq_spec() -> bool {
        true
    }

    open spec fn eq_spec(&self, other: &OwnedPrimArray) -> bool {
        self@ == other@
    }
}

impl PartialEq for SharedPrimArray {
    fn eq(&self, other: &SharedPrimArray) -> (r: bool) {
        shared_prim_array_eq(self, other)
    }
}

impl Eq for SharedPrimArray {

}

impl vstd::std_specs::cmp::PartialEqSpecImpl for SharedPrimArray {
    open spec fn obeys_eq_spec() -> bool {
        true
    }

    open spec fn eq_spec(&self, other: &SharedPrimArray) -> bool {
        self@ == other@
    }
}

} // verus!
