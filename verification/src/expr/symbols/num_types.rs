//! Explicit numeric conversion builtins: each one casts any integer-typed
//! value to its target type with two's-complement truncation, as an explicit
//! opt-in to widening or narrowing that plain arithmetic never performs.

use vstd::prelude::*;
use crate::types::model::ValModel;
use crate::types::shared::SharedValue;
use crate::types::owned::OwnedValue;
use crate::expr::ast::{SExpr, ExprModel, ValueModel, res_model};
use crate::expr::error::EvalError;

verus! {

/// What the `u8` conversion builtin returns.
pub open spec fn spec_cast_u8(e: ExprModel) -> Result<ExprModel, EvalError> {
    match e {
        ExprModel::Value(vm) => match vm.payload() {
            ValModel::U8(n) => Ok(ExprModel::Value(ValueModel::Owned(ValModel::U8(n)))),
            ValModel::U16(n) => Ok(ExprModel::Value(ValueModel::Owned(ValModel::U8(n as u8)))),
            ValModel::U32(n) => Ok(ExprModel::Value(ValueModel::Owned(ValModel::U8(n as u8)))),
            ValModel::U64(n) => Ok(ExprModel::Value(ValueModel::Owned(ValModel::U8(n as u8)))),
            ValModel::I8(n) => Ok(ExprModel::Value(ValueModel::Owned(ValModel::U8(n as u8)))),
            ValModel::I16(n) => Ok(ExprModel::Value(ValueModel::Owned(ValModel::U8(n as u8)))),
            ValModel::I32(n) => Ok(ExprModel::Value(ValueModel::Owned(ValModel::U8(n as u8)))),
            ValModel::I64(n) => Ok(ExprModel::Value(ValueModel::Owned(ValModel::U8(n as u8)))),
            _ => Err(EvalError::TypeMismatch),
        },
        _ => Err(EvalError::TypeMismatch),
    }
}

/// Convert any integer-typed value to `u8`, truncating two's-complement.
pub fn u8(value: SExpr) -> (r: Result<SExpr, EvalError>)
    ensures
        res_model(r) == spec_cast_u8(value@),
{
    match value.val() {
        Some(SharedValue::U8(n)) => Ok(SExpr::owned_value(OwnedValue::U8(n))),
        Some(SharedValue::U16(n)) => Ok(SExpr::owned_value(OwnedValue::U8(#[verifier::truncate] (n as u8)))),
        Some(SharedValue::U32(n)) => Ok(SExpr::owned_value(OwnedValue::U8(#[verifier::truncate] (n as u8)))),
        Some(SharedValue::U64(n)) => Ok(SExpr::owned_value(OwnedValue::U8(#[verifier::truncate] (n as u8)))),
        Some(SharedValue::I8(n)) => Ok(SExpr::owned_value(OwnedValue::U8(#[verifier::truncate] (n as u8)))),
        Some(SharedValue::I16(n)) => Ok(SExpr::owned_value(OwnedValue::U8(#[verifier::truncate] (n as u8)))),
        Some(SharedValue::I32(n)) => Ok(SExpr::owned_value(OwnedValue::U8(#[verifier::truncate] (n as u8)))),
        Some(SharedValue::I64(n)) => Ok(SExpr::owned_value(OwnedValue::U8(#[verifier::truncate] (n as u8)))),
        _ => Err(EvalError::TypeMismatch),
    }
}

/// What the `u16` conversion builtin returns.
pub open spec fn spec_cast_u16(e: ExprModel) -> Result<ExprModel, EvalError> {
    match e {
        ExprModel::Value(vm) => match vm.payload() {
            ValModel::U8(n) => Ok(ExprModel::Value(ValueModel::Owned(ValModel::U16(n as u16)))),
            ValModel::U16(n) => Ok(ExprModel::Value(ValueModel::Owned(ValModel::U16(n)))),
            ValModel::U32(n) => Ok(ExprModel::Value(ValueModel::Owned(ValModel::U16(n as u16)))),
            ValModel::U64(n) => Ok(ExprModel::Value(ValueModel::Owned(ValModel::U16(n as u16)))),
            ValModel::I8(n) => Ok(ExprModel::Value(ValueModel::Owned(ValModel::U16(n as u16)))),
            ValModel::I16(n) => Ok(ExprModel::Value(ValueModel::Owned(ValModel::U16(n as u16)))),
            ValModel::I32(n) => Ok(ExprModel::Value(ValueModel::Owned(ValModel::U16(n as u16)))),
            ValModel::I64(n) => Ok(ExprModel::Value(ValueModel::Owned(ValModel::U16(n as u16)))),
            _ => Err(EvalError::TypeMismatch),
        },
        _ => Err(EvalError::TypeMismatch),
    }
}

/// Convert any integer-typed value to `u16`, truncating two's-complement.
pub fn u16(value: SExpr) -> (r: Result<SExpr, EvalError>)
    ensures
        res_model(r) == spec_cast_u16(value@),
{
    match value.val() {
        Some(SharedValue::U8(n)) => Ok(SExpr::owned_value(OwnedValue::U16(#[verifier::truncate] (n as u16)))),
        Some(SharedValue::U16(n)) => Ok(SExpr::owned_value(OwnedValue::U16(n))),
        Some(SharedValue::U32(n)) => Ok(SExpr::owned_value(OwnedValue::U16(#[verifier::truncate] (n as u16)))),
        Some(SharedValue::U64(n)) => Ok(SExpr::owned_value(OwnedValue::U16(#[verifier::truncate] (n as u16)))),
        Some(SharedValue::I8(n)) => Ok(SExpr::owned_value(OwnedValue::U16(#[verifier::truncate] (n as u16)))),
        Some(SharedValue::I16(n)) => Ok(SExpr::owned_value(OwnedValue::U16(#[verifier::truncate] (n as u16)))),
        Some(SharedValue::I32(n)) => Ok(SExpr::owned_value(OwnedValue::U16(#[verifier::truncate] (n as u16)))),
        Some(SharedValue::I64(n)) => Ok(SExpr::owned_value(OwnedValue::U16(#[verifier::truncate] (n as u16)))),
        _ => Err(EvalError::TypeMismatch),
    }
}

/// What the `u32` conversion builtin returns.
pub open spec fn spec_cast_u32(e: ExprModel) -> Result<ExprModel, EvalError> {
    match e {
        ExprModel::Value(vm) => match vm.payload() {
            ValModel::U8(n) => Ok(ExprModel::Value(ValueModel::Owned(ValModel::U32(n as u32)))),
            ValModel::U16(n) => Ok(ExprModel::Value(ValueModel::Owned(ValModel::U32(n as u32)))),
            ValModel::U32(n) => Ok(ExprModel::Value(ValueModel::Owned(ValModel::U32(n)))),
            ValModel::U64(n) => Ok(ExprModel::Value(ValueModel::Owned(ValModel::U32(n as u32)))),
            ValModel::I8(n) => Ok(ExprModel::Value(ValueModel::Owned(ValModel::U32(n as u32)))),
            ValModel::I16(n) => Ok(ExprModel::Value(ValueModel::Owned(ValModel::U32(n as u32)))),
            ValModel::I32(n) => Ok(ExprModel::Value(ValueModel::Owned(ValModel::U32(n as u32)))),
            ValModel::I64(n) => Ok(ExprModel::Value(ValueModel::Owned(ValModel::U32(n as u32)))),
            _ => Err(EvalError::TypeMismatch),
        },
        _ => Err(EvalError::TypeMismatch),
    }
}

/// Convert any integer-typed value to `u32`, truncating two's-complement.
pub fn u32(value: SExpr) -> (r: Result<SExpr, EvalError>)
    ensures
        res_model(r) == spec_cast_u32(value@),
{
    match value.val() {
        Some(SharedValue::U8(n)) => Ok(SExpr::owned_value(OwnedValue::U32(#[verifier::truncate] (n as u32)))),
        Some(SharedValue::U16(n)) => Ok(SExpr::owned_value(OwnedValue::U32(#[verifier::truncate] (n as u32)))),
        Some(SharedValue::U32(n)) => Ok(SExpr::owned_value(OwnedValue::U32(n))),
        Some(SharedValue::U64(n)) => Ok(SExpr::owned_value(OwnedValue::U32(#[verifier::truncate] (n as u32)))),
        Some(SharedValue::I8(n)) => Ok(SExpr::owned_value(OwnedValue::U32(#[verifier::truncate] (n as u32)))),
        Some(SharedValue::I16(n)) => Ok(SExpr::owned_value(OwnedValue::U32(#[verifier::truncate] (n as u32)))),
        Some(SharedValue::I32(n)) => Ok(SExpr::owned_value(OwnedValue::U32(#[verifier::truncate] (n as u32)))),
        Some(SharedValue::I64(n)) => Ok(SExpr::owned_value(OwnedValue::U32(#[verifier::truncate] (n as u32)))),
        _ => Err(EvalError::TypeMismatch),
    }
}

/// What the `u64` conversion builtin returns.
pub open spec fn spec_cast_u64(e: ExprModel) -> Result<ExprModel, EvalError> {
    match e {
        ExprModel::Value(vm) => match vm.payload() {
            ValModel::U8(n) => Ok(ExprModel::Value(ValueModel::Owned(ValModel::U64(n as u64)))),
            ValModel::U16(n) => Ok(ExprModel::Value(ValueModel::Owned(ValModel::U64(n as u64)))),
            ValModel::U32(n) => Ok(ExprModel::Value(ValueModel::Owned(ValModel::U64(n as u64)))),
            ValModel::U64(n) => Ok(ExprModel::Value(ValueModel::Owned(ValModel::U64(n)))),
            ValModel::I8(n) => Ok(ExprModel::Value(ValueModel::Owned(ValModel::U64(n as u64)))),
            ValModel::I16(n) => Ok(ExprModel::Value(ValueModel::Owned(ValModel::U64(n as u64)))),
            ValModel::I32(n) => Ok(ExprModel::Value(ValueModel::Owned(ValModel::U64(n as u64)))),
            ValModel::I64(n) => Ok(ExprModel::Value(ValueModel::Owned(ValModel::U64(n as u64)))),
            _ => Err(EvalError::TypeMismatch),
        },
        _ => Err(EvalError::TypeMismatch),
    }
}

/// Convert any integer-typed value to `u64`, truncating two's-complement.
pub fn u64(value: SExpr) -> (r: Result<SExpr, EvalError>)
    ensures
        res_model(r) == spec_cast_u64(value@),
{
    match value.val() {
        Some(SharedValue::U8(n)) => Ok(SExpr::owned_value(OwnedValue::U64(#[verifier::truncate] (n as u64)))),
        Some(SharedValue::U16(n)) => Ok(SExpr::owned_value(OwnedValue::U64(#[verifier::truncate] (n as u64)))),
        Some(SharedValue::U32(n)) => Ok(SExpr::owned_value(OwnedValue::U64(#[verifier::truncate] (n as u64)))),
        Some(SharedValue::U64(n)) => Ok(SExpr::owned_value(OwnedValue::U64(n))),
        Some(SharedValue::I8(n)) => Ok(SExpr::owned_value(OwnedValue::U64(#[verifier::truncate] (n as u64)))),
        Some(SharedValue::I16(n)) => Ok(SExpr::owned_value(OwnedValue::U64(#[verifier::truncate] (n as u64)))),
        Some(SharedValue::I32(n)) => Ok(SExpr::owned_value(OwnedValue::U64(#[verifier::truncate] (n as u64)))),
        Some(SharedValue::I64(n)) => Ok(SExpr::owned_value(OwnedValue::U64(#[verifier::truncate] (n as u64)))),
        _ => Err(EvalError::TypeMismatch),
    }
}

/// What the `i8` conversion builtin returns.
pub open spec fn spec_cast_i8(e: ExprModel) -> Result<ExprModel, EvalError> {
    match e {
        ExprModel::Value(vm) => match vm.payload() {
            ValModel::U8(n) => Ok(ExprModel::Value(ValueModel::Owned(ValModel::I8(n as i8)))),
            ValModel::U16(n) => Ok(ExprModel::Value(ValueModel::Owned(ValModel::I8(n as i8)))),
            ValModel::U32(n) => Ok(ExprModel::Value(ValueModel::Owned(ValModel::I8(n as i8)))),
            ValModel::U64(n) => Ok(ExprModel::Value(ValueModel::Owned(ValModel::I8(n as i8)))),
            ValModel::I8(n) => Ok(ExprModel::Value(ValueModel::Owned(ValModel::I8(n)))),
            ValModel::I16(n) => Ok(ExprModel::Value(ValueModel::Owned(ValModel::I8(n as i8)))),
            ValModel::I32(n) => Ok(ExprModel::Value(ValueModel::Owned(ValModel::I8(n as i8)))),
            ValModel::I64(n) => Ok(ExprModel::Value(ValueModel::Owned(ValModel::I8(n as i8)))),
            _ => Err(EvalError::TypeMismatch),
        },
        _ => Err(EvalError::TypeMismatch),
    }
}

/// Convert any integer-typed value to `i8`, truncating two's-complement.
pub fn i8(value: SExpr) -> (r: Result<SExpr, EvalError>)
    ensures
        res_model(r) == spec_cast_i8(value@),
{
    match value.val() {
        Some(SharedValue::U8(n)) => Ok(SExpr::owned_value(OwnedValue::I8(#[verifier::truncate] (n as i8)))),
        Some(SharedValue::U16(n)) => Ok(SExpr::owned_value(OwnedValue::I8(#[verifier::truncate] (n as i8)))),
        Some(SharedValue::U32(n)) => Ok(SExpr::owned_value(OwnedValue::I8(#[verifier::truncate] (n as i8)))),
        Some(SharedValue::U64(n)) => Ok(SExpr::owned_value(OwnedValue::I8(#[verifier::truncate] (n as i8)))),
        Some(SharedValue::I8(n)) => Ok(SExpr::owned_value(OwnedValue::I8(n))),
        Some(SharedValue::I16(n)) => Ok(SExpr::owned_value(OwnedValue::I8(#[verifier::truncate] (n as i8)))),
        Some(SharedValue::I32(n)) => Ok(SExpr::owned_value(OwnedValue::I8(#[verifier::truncate] (n as i8)))),
        Some(SharedValue::I64(n)) => Ok(SExpr::owned_value(OwnedValue::I8(#[verifier::truncate] (n as i8)))),
        _ => Err(EvalError::TypeMismatch),
    }
}

/// What the `i16` conversion builtin returns.
pub open spec fn spec_cast_i16(e: ExprModel) -> Result<ExprModel, EvalError> {
    match e {
        ExprModel::Value(vm) => match vm.payload() {
            ValModel::U8(n) => Ok(ExprModel::Value(ValueModel::Owned(ValModel::I16(n as i16)))),
            ValModel::U16(n) => Ok(ExprModel::Value(ValueModel::Owned(ValModel::I16(n as i16)))),
            ValModel::U32(n) => Ok(ExprModel::Value(ValueModel::Owned(ValModel::I16(n as i16)))),
            ValModel::U64(n) => Ok(ExprModel::Value(ValueModel::Owned(ValModel::I16(n as i16)))),
            ValModel::I8(n) => Ok(ExprModel::Value(ValueModel::Owned(ValModel::I16(n as i16)))),
            ValModel::I16(n) => Ok(ExprModel::Value(ValueModel::Owned(ValModel::I16(n)))),
            ValModel::I32(n) => Ok(ExprModel::Value(ValueModel::Owned(ValModel::I16(n as i16)))),
            ValModel::I64(n) => Ok(ExprModel::Value(ValueModel::Owned(ValModel::I16(n as i16)))),
            _ => Err(EvalError::TypeMismatch),
        },
        _ => Err(EvalError::TypeMismatch),
    }
}

/// Convert any integer-typed value to `i16`, truncating two's-complement.
pub fn i16(value: SExpr) -> (r: Result<SExpr, EvalError>)
    ensures
        res_model(r) == spec_cast_i16(value@),
{
    match value.val() {
        Some(SharedValue::U8(n)) => Ok(SExpr::owned_value(OwnedValue::I16(#[verifier::truncate] (n as i16)))),
        Some(SharedValue::U16(n)) => Ok(SExpr::owned_value(OwnedValue::I16(#[verifier::truncate] (n as i16)))),
        Some(SharedValue::U32(n)) => Ok(SExpr::owned_value(OwnedValue::I16(#[verifier::truncate] (n as i16)))),
        Some(SharedValue::U64(n)) => Ok(SExpr::owned_value(OwnedValue::I16(#[verifier::truncate] (n as i16)))),
        Some(SharedValue::I8(n)) => Ok(SExpr::owned_value(OwnedValue::I16(#[verifier::truncate] (n as i16)))),
        Some(SharedValue::I16(n)) => Ok(SExpr::owned_value(OwnedValue::I16(n))),
        Some(SharedValue::I32(n)) => Ok(SExpr::owned_value(OwnedValue::I16(#[verifier::truncate] (n as i16)))),
        Some(SharedValue::I64(n)) => Ok(SExpr::owned_value(OwnedValue::I16(#[verifier::truncate] (n as i16)))),
        _ => Err(EvalError::TypeMismatch),
    }
}

/// What the `i32` conversion builtin returns.
pub open spec fn spec_cast_i32(e: ExprModel) -> Result<ExprModel, EvalError> {
    match e {
        ExprModel::Value(vm) => match vm.payload() {
            ValModel::U8(n) => Ok(ExprModel::Value(ValueModel::Owned(ValModel::I32(n as i32)))),
            ValModel::U16(n) => Ok(ExprModel::Value(ValueModel::Owned(ValModel::I32(n as i32)))),
            ValModel::U32(n) => Ok(ExprModel::Value(ValueModel::Owned(ValModel::I32(n as i32)))),
            ValModel::U64(n) => Ok(ExprModel::Value(ValueModel::Owned(ValModel::I32(n as i32)))),
            ValModel::I8(n) => Ok(ExprModel::Value(ValueModel::Owned(ValModel::I32(n as i32)))),
            ValModel::I16(n) => Ok(ExprModel::Value(ValueModel::Owned(ValModel::I32(n as i32)))),
            ValModel::I32(n) => Ok(ExprModel::Value(ValueModel::Owned(ValModel::I32(n)))),
            ValModel::I64(n) => Ok(ExprModel::Value(ValueModel::Owned(ValModel::I32(n as i32)))),
            _ => Err(EvalError::TypeMismatch),
        },
        _ => Err(EvalError::TypeMismatch),
    }
}

/// Convert any integer-typed value to `i32`, truncating two's-complement.
pub fn i32(value: SExpr) -> (r: Result<SExpr, EvalError>)
    ensures
        res_model(r) == spec_cast_i32(value@),
{
    match value.val() {
        Some(SharedValue::U8(n)) => Ok(SExpr::owned_value(OwnedValue::I32(#[verifier::truncate] (n as i32)))),
        Some(SharedValue::U16(n)) => Ok(SExpr::owned_value(OwnedValue::I32(#[verifier::truncate] (n as i32)))),
        Some(SharedValue::U32(n)) => Ok(SExpr::owned_value(OwnedValue::I32(#[verifier::truncate] (n as i32)))),
        Some(SharedValue::U64(n)) => Ok(SExpr::owned_value(OwnedValue::I32(#[verifier::truncate] (n as i32)))),
        Some(SharedValue::I8(n)) => Ok(SExpr::owned_value(OwnedValue::I32(#[verifier::truncate] (n as i32)))),
        Some(SharedValue::I16(n)) => Ok(SExpr::owned_value(OwnedValue::I32(#[verifier::truncate] (n as i32)))),
        Some(SharedValue::I32(n)) => Ok(SExpr::owned_value(OwnedValue::I32(n))),
        Some(SharedValue::I64(n)) => Ok(SExpr::owned_value(OwnedValue::I32(#[verifier::truncate] (n as i32)))),
        _ => Err(EvalError::TypeMismatch),
    }
}

/// What the `i64` conversion builtin returns.
pub open spec fn spec_cast_i64(e: ExprModel) -> Result<ExprModel, EvalError> {
    match e {
        ExprModel::Value(vm) => match vm.payload() {
            ValModel::U8(n) => Ok(ExprModel::Value(ValueModel::Owned(ValModel::I64(n as i64)))),
            ValModel::U16(n) => Ok(ExprModel::Value(ValueModel::Owned(ValModel::I64(n as i64)))),
            ValModel::U32(n) => Ok(ExprModel::Value(ValueModel::Owned(ValModel::I64(n as i64)))),
            ValModel::U64(n) => Ok(ExprModel::Value(ValueModel::Owned(ValModel::I64(n as i64)))),
            ValModel::I8(n) => Ok(ExprModel::Value(ValueModel::Owned(ValModel::I64(n as i64)))),
            ValModel::I16(n) => Ok(ExprModel::Value(ValueModel::Owned(ValModel::I64(n as i64)))),
            ValModel::I32(n) => Ok(ExprModel::Value(ValueModel::Owned(ValModel::I64(n as i64)))),
            ValModel::I64(n) => Ok(ExprModel::Value(ValueModel::Owned(ValModel::I64(n)))),
            _ => Err(EvalError::TypeMismatch),
        },
        _ => Err(EvalError::TypeMismatch),
    }
}

/// Convert any integer-typed value to `i64`, truncating two's-complement.
pub fn i64(value: SExpr) -> (r: Result<SExpr, EvalError>)
    ensures
        res_model(r) == spec_cast_i64(value@),
{
    match value.val() {
        Some(SharedValue::U8(n)) => Ok(SExpr::owned_value(OwnedValue::I64(#[verifier::truncate] (n as i64)))),
        Some(SharedValue::U16(n)) => Ok(SExpr::owned_value(OwnedValue::I64(#[verifier::truncate] (n as i64)))),
        Some(SharedValue::U32(n)) => Ok(SExpr::owned_value(OwnedValue::I64(#[verifier::truncate] (n as i64)))),
        Some(SharedValue::U64(n)) => Ok(SExpr::owned_value(OwnedValue::I64(#[verifier::truncate] (n as i64)))),
        Some(SharedValue::I8(n)) => Ok(SExpr::owned_value(OwnedValue::I64(#[verifier::truncate] (n as i64)))),
        Some(SharedValue::I16(n)) => Ok(SExpr::owned_value(OwnedValue::I64(#[verifier::truncate] (n as i64)))),
        Some(SharedValue::I32(n)) => Ok(SExpr::owned_value(OwnedValue::I64(#[verifier::truncate] (n as i64)))),
        Some(SharedValue::I64(n)) => Ok(SExpr::owned_value(OwnedValue::I64(n))),
        _ => Err(EvalError::TypeMismatch),
    }
}

/// What the `f32` conversion builtin returns: this build carries floats as
/// bit patterns and performs no numeric conversion into them, so only a
/// value already of the target type passes through.
pub open spec fn spec_cast_f32(e: ExprModel) -> Result<ExprModel, EvalError> {
    match e {
        ExprModel::Value(vm) => match vm.payload() {
            ValModel::F32(n) => Ok(ExprModel::Value(ValueModel::Owned(ValModel::F32(n)))),
            _ => Err(EvalError::TypeMismatch),
        },
        _ => Err(EvalError::TypeMismatch),
    }
}

/// Pass a 32-bit float value through; no other type converts into one here.
pub fn float32(value: SExpr) -> (r: Result<SExpr, EvalError>)
    ensures
        res_model(r) == spec_cast_f32(value@),
{
    match value.val() {
        Some(SharedValue::F32(n)) => Ok(SExpr::owned_value(OwnedValue::F32(n))),
        _ => Err(EvalError::TypeMismatch),
    }
}

/// What the `f64` conversion builtin returns; see `spec_cast_f32`.
pub open spec fn spec_cast_f64(e: ExprModel) -> Result<ExprModel, EvalError> {
    match e {
        ExprModel::Value(vm) => match vm.payload() {
            ValModel::F64(n) => Ok(ExprModel::Value(ValueModel::Owned(ValModel::F64(n)))),
            _ => Err(EvalError::TypeMismatch),
        },
        _ => Err(EvalError::TypeMismatch),
    }
}

/// Pass a 64-bit float value through; no other type converts into one here.
pub fn float64(value: SExpr) -> (r: Result<SExpr, EvalError>)
    ensures
        res_model(r) == spec_cast_f64(value@),
{
    match value.val() {
        Some(SharedValue::F64(n)) => Ok(SExpr::owned_value(OwnedValue::F64(n))),
        _ => Err(EvalError::TypeMismatch),
    }
}

} // verus!
