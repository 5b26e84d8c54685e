//! Arithmetic builtins: type-homogeneous reduction where the first
//! operand's type fixes the operation's type, with explicit errors for
//! mixing types, for division by zero, and for any step that leaves the
//! operand type's range.

use vstd::prelude::*;
use crate::types::data_type::Type;
use crate::types::model::ValModel;
use crate::types::shared::SharedValue;
use crate::types::owned::OwnedValue;
use crate::expr::ast::{SExpr, ExprModel, ValueModel, res_model, models_of};
use crate::expr::error::EvalError;

verus! {

/// A reduction operator.
#[derive(Debug, Clone, Copy, PartialEq, Eq, Structural)]
pub enum ArithOp {
    Add,
    Subtract,
    Multiply,
    Divide,
}

/// The integer type and mathematical value a literal carries, if any.
/// Floats are bit patterns here and take no part in arithmetic.
pub open spec fn num_type_val(e: ExprModel) -> Option<(Type, int)> {
    match e {
        ExprModel::Value(vm) => match vm.payload() {
            ValModel::U8(n) => Some((Type::U8, n as int)),
            ValModel::U16(n) => Some((Type::U16, n as int)),
            ValModel::U32(n) => Some((Type::U32, n as int)),
            ValModel::U64(n) => Some((Type::U64, n as int)),
            ValModel::I8(n) => Some((Type::I8, n as int)),
            ValModel::I16(n) => Some((Type::I16, n as int)),
            ValModel::I32(n) => Some((Type::I32, n as int)),
            ValModel::I64(n) => Some((Type::I64, n as int)),
            _ => None,
        },
        _ => None,
    }
}

/// The smallest value an integer type holds.
pub open spec fn type_min(t: Type) -> int {
    match t {
        Type::U8 | Type::U16 | Type::U32 | Type::U64 => 0,
        Type::I8 => i8::MIN as int,
        Type::I16 => i16::MIN as int,
        Type::I32 => i32::MIN as int,
        Type::I64 => i64::MIN as int,
        _ => 0,
    }
}

/// The largest value an integer type holds.
pub open spec fn type_max(t: Type) -> int {
    match t {
        Type::U8 => u8::MAX as int,
        Type::U16 => u16::MAX as int,
        Type::U32 => u32::MAX as int,
        Type::U64 => u64::MAX as int,
        Type::I8 => i8::MAX as int,
        Type::I16 => i16::MAX as int,
        Type::I32 => i32::MAX as int,
        Type::I64 => i64::MAX as int,
        _ => 0,
    }
}

/// A value of an integer type wrapped back into the value model.
pub open spec fn make_num(t: Type, v: int) -> ValModel {
    match t {
        Type::U8 => ValModel::U8(v as u8),
        Type::U16 => ValModel::U16(v as u16),
        Type::U32 => ValModel::U32(v as u32),
        Type::U64 => ValModel::U64(v as u64),
        Type::I8 => ValModel::I8(v as i8),
        Type::I16 => ValModel::I16(v as i16),
        Type::I32 => ValModel::I32(v as i32),
        Type::I64 => ValModel::I64(v as i64),
        _ => ValModel::Null,
    }
}

/// Division truncating toward zero, as the native integer division does.
pub open spec fn trunc_div(x: int, d: int) -> int {
    if x == 0 {
        0
    } else if x > 0 && d > 0 {
        x / d
    } else if x < 0 && d < 0 {
        (x * -1) / (d * -1)
    } else if x < 0 {
        ((x * -1) / d) * -1
    } else {
        (x / (d * -1)) * -1
    }
}

/// One reduction step over mathematical integers; division by zero is the
/// one error a step itself can raise.
pub open spec fn arith_step(op: ArithOp, a: int, b: int) -> Result<int, EvalError> {
    match op {
        ArithOp::Add => Ok(a + b),
        ArithOp::Subtract => Ok(a - b),
        ArithOp::Multiply => Ok(a * b),
        ArithOp::Divide => if b == 0 {
            Err(EvalError::DivisionByZero)
        } else {
            Ok(trunc_div(a, b))
        },
    }
}

/// The reduction from operand `i` on: every operand must carry exactly the
/// type the first operand fixed, and every intermediate result must stay in
/// that type's range.
pub open spec fn spec_reduce(op: ArithOp, t: Type, vs: Seq<ExprModel>, i: int, acc: int) -> Result<
    int,
    EvalError,
>
    decreases vs.len() - i,
{
    if i < 0 || i >= vs.len() {
        Ok(acc)
    } else {
        match num_type_val(vs[i]) {
            None => Err(EvalError::TypeMismatch),
            Some((t2, v)) => if t2 != t {
                Err(EvalError::TypeMismatch)
            } else {
                match arith_step(op, acc, v) {
                    Err(e) => Err(e),
                    Ok(w) => if w < type_min(t) || w > type_max(t) {
                        Err(EvalError::ArithmeticOverflow)
                    } else {
                        spec_reduce(op, t, vs, i + 1, w)
                    },
                }
            },
        }
    }
}

/// A finished reduction wrapped back into an expression.
pub open spec fn finish_arith(t: Type, rr: Result<int, EvalError>) -> Result<
    ExprModel,
    EvalError,
> {
    match rr {
        Ok(w) => Ok(ExprModel::Value(ValueModel::Owned(make_num(t, w)))),
        Err(e) => Err(e),
    }
}

/// What a whole arithmetic call returns: the first operand fixes the type,
/// the rest fold into it.
pub open spec fn spec_arith(op: ArithOp, vs: Seq<ExprModel>) -> Result<ExprModel, EvalError> {
    if vs.len() == 0 {
        Err(EvalError::ArityMismatch)
    } else {
        match num_type_val(vs[0]) {
            None => Err(EvalError::TypeMismatch),
            Some((t, v0)) => finish_arith(t, spec_reduce(op, t, vs, 1, v0)),
        }
    }
}

/// Reduce a `u8`-typed operand list.
#[verifier::loop_isolation(false)]
fn reduce_u8(op: ArithOp, values: &Vec<SExpr>, first: u8) -> (r: Result<SExpr, EvalError>)
    requires
        values@.len() >= 1,
    ensures
        res_model(r) == finish_arith(
            Type::U8,
            spec_reduce(op, Type::U8, models_of(values), 1, first as int),
        ),
{
    proof {
        SExpr::lemma_exprs_models(values, values@.len() as nat);
    }
    let ghost ms = models_of(values);
    let mut acc: u8 = first;
    let mut i: usize = 1;
    while i < values.len()
        invariant
            1 <= i <= values@.len(),
            spec_reduce(op, Type::U8, ms, i as int, acc as int) == spec_reduce(
                op,
                Type::U8,
                ms,
                1,
                first as int,
            ),
        decreases values@.len() - i,
    {
        let sv = values[i].val();
        match sv {
            Some(SharedValue::U8(n)) => {
                match op {
                    ArithOp::Add => {
                        match acc.checked_add(n) {
                            Some(w) => {
                                acc = w;
                            },
                            None => {
                                return Err(EvalError::ArithmeticOverflow);
                            },
                        }
                    },
                    ArithOp::Subtract => {
                        match acc.checked_sub(n) {
                            Some(w) => {
                                acc = w;
                            },
                            None => {
                                return Err(EvalError::ArithmeticOverflow);
                            },
                        }
                    },
                    ArithOp::Multiply => {
                        match acc.checked_mul(n) {
                            Some(w) => {
                                acc = w;
                            },
                            None => {
                                return Err(EvalError::ArithmeticOverflow);
                            },
                        }
                    },
                    ArithOp::Divide => {
                        if n == 0 {
                            return Err(EvalError::DivisionByZero);
                        }
                        proof {
                            assert(acc as int / n as int <= acc as int) by (nonlinear_arith)
                                requires
                                    acc >= 0,
                                    n >= 1,
                            ;
                        }
                        match acc.checked_div(n) {
                            Some(w) => {
                                acc = w;
                            },
                            None => {
                                return Err(EvalError::ArithmeticOverflow);
                            },
                        }
                    },
                }
            },
            _ => {
                return Err(EvalError::TypeMismatch);
            },
        }
        i = i + 1;
    }
    Ok(SExpr::owned_value(OwnedValue::U8(acc)))
}

/// Reduce a `u16`-typed operand list.
#[verifier::loop_isolation(false)]
fn reduce_u16(op: ArithOp, values: &Vec<SExpr>, first: u16) -> (r: Result<SExpr, EvalError>)
    requires
        values@.len() >= 1,
    ensures
        res_model(r) == finish_arith(
            Type::U16,
            spec_reduce(op, Type::U16, models_of(values), 1, first as int),
        ),
{
    proof {
        SExpr::lemma_exprs_models(values, values@.len() as nat);
    }
    let ghost ms = models_of(values);
    let mut acc: u16 = first;
    let mut i: usize = 1;
    while i < values.len()
        invariant
            1 <= i <= values@.len(),
            spec_reduce(op, Type::U16, ms, i as int, acc as int) == spec_reduce(
                op,
                Type::U16,
                ms,
                1,
                first as int,
            ),
        decreases values@.len() - i,
    {
        let sv = values[i].val();
        match sv {
            Some(SharedValue::U16(n)) => {
                match op {
                    ArithOp::Add => {
                        match acc.checked_add(n) {
                            Some(w) => {
                                acc = w;
                            },
                            None => {
                                return Err(EvalError::ArithmeticOverflow);
                            },
                        }
                    },
                    ArithOp::Subtract => {
                        match acc.checked_sub(n) {
                            Some(w) => {
                                acc = w;
                            },
                            None => {
                                return Err(EvalError::ArithmeticOverflow);
                            },
                        }
                    },
                    ArithOp::Multiply => {
                        match acc.checked_mul(n) {
                            Some(w) => {
                                acc = w;
                            },
                            None => {
                                return Err(EvalError::ArithmeticOverflow);
                            },
                        }
                    },
                    ArithOp::Divide => {
                        if n == 0 {
                            return Err(EvalError::DivisionByZero);
                        }
                        proof {
                            assert(acc as int / n as int <= acc as int) by (nonlinear_arith)
                                requires
                                    acc >= 0,
                                    n >= 1,
                            ;
                        }
                        match acc.checked_div(n) {
                            Some(w) => {
                                acc = w;
                            },
                            None => {
                                return Err(EvalError::ArithmeticOverflow);
                            },
                        }
                    },
                }
            },
            _ => {
                return Err(EvalError::TypeMismatch);
            },
        }
        i = i + 1;
    }
    Ok(SExpr::owned_value(OwnedValue::U16(acc)))
}

/// Reduce a `u32`-typed operand list.
#[verifier::loop_isolation(false)]
fn reduce_u32(op: ArithOp, values: &Vec<SExpr>, first: u32) -> (r: Result<SExpr, EvalError>)
    requires
        values@.len() >= 1,
    ensures
        res_model(r) == finish_arith(
            Type::U32,
            spec_reduce(op, Type::U32, models_of(values), 1, first as int),
        ),
{
    proof {
        SExpr::lemma_exprs_models(values, values@.len() as nat);
    }
    let ghost ms = models_of(values);
    let mut acc: u32 = first;
    let mut i: usize = 1;
    while i < values.len()
        invariant
            1 <= i <= values@.len(),
            spec_reduce(op, Type::U32, ms, i as int, acc as int) == spec_reduce(
                op,
                Type::U32,
                ms,
                1,
                first as int,
            ),
        decreases values@.len() - i,
    {
        let sv = values[i].val();
        match sv {
            Some(SharedValue::U32(n)) => {
                match op {
                    ArithOp::Add => {
                        match acc.checked_add(n) {
                            Some(w) => {
                                acc = w;
                            },
                            None => {
                                return Err(EvalError::ArithmeticOverflow);
                            },
                        }
                    },
                    ArithOp::Subtract => {
                        match acc.checked_sub(n) {
                            Some(w) => {
                                acc = w;
                            },
                            None => {
                                return Err(EvalError::ArithmeticOverflow);
                            },
                        }
                    },
                    ArithOp::Multiply => {
                        match acc.checked_mul(n) {
                            Some(w) => {
                                acc = w;
                            },
                            None => {
                                return Err(EvalError::ArithmeticOverflow);
                            },
                        }
                    },
                    ArithOp::Divide => {
                        if n == 0 {
                            return Err(EvalError::DivisionByZero);
                        }
                        proof {
                            assert(acc as int / n as int <= acc as int) by (nonlinear_arith)
                                requires
                                    acc >= 0,
                                    n >= 1,
                            ;
                        }
                        match acc.checked_div(n) {
                            Some(w) => {
                                acc = w;
                            },
                            None => {
                                return Err(EvalError::ArithmeticOverflow);
                            },
                        }
                    },
                }
            },
            _ => {
                return Err(EvalError::TypeMismatch);
            },
        }
        i = i + 1;
    }
    Ok(SExpr::owned_value(OwnedValue::U32(acc)))
}

/// Reduce a `u64`-typed operand list.
#[verifier::loop_isolation(false)]
fn reduce_u64(op: ArithOp, values: &Vec<SExpr>, first: u64) -> (r: Result<SExpr, EvalError>)
    requires
        values@.len() >= 1,
    ensures
        res_model(r) == finish_arith(
            Type::U64,
            spec_reduce(op, Type::U64, models_of(values), 1, first as int),
        ),
{
    proof {
        SExpr::lemma_exprs_models(values, values@.len() as nat);
    }
    let ghost ms = models_of(values);
    let mut acc: u64 = first;
    let mut i: usize = 1;
    while i < values.len()
        invariant
            1 <= i <= values@.len(),
            spec_reduce(op, Type::U64, ms, i as int, acc as int) == spec_reduce(
                op,
                Type::U64,
                ms,
                1,
                first as int,
            ),
        decreases values@.len() - i,
    {
        let sv = values[i].val();
        match sv {
            Some(SharedValue::U64(n)) => {
                match op {
                    ArithOp::Add => {
                        match acc.checked_add(n) {
                            Some(w) => {
                                acc = w;
                            },
                            None => {
                                return Err(EvalError::ArithmeticOverflow);
                            },
                        }
                    },
                    ArithOp::Subtract => {
                        match acc.checked_sub(n) {
                            Some(w) => {
                                acc = w;
                            },
                            None => {
                                return Err(EvalError::ArithmeticOverflow);
                            },
                        }
                    },
                    ArithOp::Multiply => {
                        match acc.checked_mul(n) {
                            Some(w) => {
                                acc = w;
                            },
                            None => {
                                return Err(EvalError::ArithmeticOverflow);
                            },
                        }
                    },
                    ArithOp::Divide => {
                        if n == 0 {
                            return Err(EvalError::DivisionByZero);
                        }
                        proof {
                            assert(acc as int / n as int <= acc as int) by (nonlinear_arith)
                                requires
                                    acc >= 0,
                                    n >= 1,
                            ;
                        }
                        match acc.checked_div(n) {
                            Some(w) => {
                                acc = w;
                            },
                            None => {
                                return Err(EvalError::ArithmeticOverflow);
                            },
                        }
                    },
                }
            },
            _ => {
                return Err(EvalError::TypeMismatch);
            },
        }
        i = i + 1;
    }
    Ok(SExpr::owned_value(OwnedValue::U64(acc)))
}

/// Reduce a `i8`-typed operand list.
#[verifier::loop_isolation(false)]
fn reduce_i8(op: ArithOp, values: &Vec<SExpr>, first: i8) -> (r: Result<SExpr, EvalError>)
    requires
        values@.len() >= 1,
    ensures
        res_model(r) == finish_arith(
            Type::I8,
            spec_reduce(op, Type::I8, models_of(values), 1, first as int),
        ),
{
    proof {
        SExpr::lemma_exprs_models(values, values@.len() as nat);
    }
    let ghost ms = models_of(values);
    let mut acc: i8 = first;
    let mut i: usize = 1;
    while i < values.len()
        invariant
            1 <= i <= values@.len(),
            spec_reduce(op, Type::I8, ms, i as int, acc as int) == spec_reduce(
                op,
                Type::I8,
                ms,
                1,
                first as int,
            ),
        decreases values@.len() - i,
    {
        let sv = values[i].val();
        match sv {
            Some(SharedValue::I8(n)) => {
                match op {
                    ArithOp::Add => {
                        match acc.checked_add(n) {
                            Some(w) => {
                                acc = w;
                            },
                            None => {
                                return Err(EvalError::ArithmeticOverflow);
                            },
                        }
                    },
                    ArithOp::Subtract => {
                        match acc.checked_sub(n) {
                            Some(w) => {
                                acc = w;
                            },
                            None => {
                                return Err(EvalError::ArithmeticOverflow);
                            },
                        }
                    },
                    ArithOp::Multiply => {
                        match acc.checked_mul(n) {
                            Some(w) => {
                                acc = w;
                            },
                            None => {
                                return Err(EvalError::ArithmeticOverflow);
                            },
                        }
                    },
                    ArithOp::Divide => {
                        if n == 0 {
                            return Err(EvalError::DivisionByZero);
                        }
                        match acc.checked_div(n) {
                            Some(w) => {
                                acc = w;
                            },
                            None => {
                                return Err(EvalError::ArithmeticOverflow);
                            },
                        }
                    },
                }
            },
            _ => {
                return Err(EvalError::TypeMismatch);
            },
        }
        i = i + 1;
    }
    Ok(SExpr::owned_value(OwnedValue::I8(acc)))
}

/// Reduce a `i16`-typed operand list.
#[verifier::loop_isolation(false)]
fn reduce_i16(op: ArithOp, values: &Vec<SExpr>, first: i16) -> (r: Result<SExpr, EvalError>)
    requires
        values@.len() >= 1,
    ensures
        res_model(r) == finish_arith(
            Type::I16,
            spec_reduce(op, Type::I16, models_of(values), 1, first as int),
        ),
{
    proof {
        SExpr::lemma_exprs_models(values, values@.len() as nat);
    }
    let ghost ms = models_of(values);
    let mut acc: i16 = first;
    let mut i: usize = 1;
    while i < values.len()
        invariant
            1 <= i <= values@.len(),
            spec_reduce(op, Type::I16, ms, i as int, acc as int) == spec_reduce(
                op,
                Type::I16,
                ms,
                1,
                first as int,
            ),
        decreases values@.len() - i,
    {
        let sv = values[i].val();
        match sv {
            Some(SharedValue::I16(n)) => {
                match op {
                    ArithOp::Add => {
                        match acc.checked_add(n) {
                            Some(w) => {
                                acc = w;
                            },
                            None => {
                                return Err(EvalError::ArithmeticOverflow);
                            },
                        }
                    },
                    ArithOp::Subtract => {
                        match acc.checked_sub(n) {
                            Some(w) => {
                                acc = w;
                            },
                            None => {
                                return Err(EvalError::ArithmeticOverflow);
                            },
                        }
                    },
                    ArithOp::Multiply => {
                        match acc.checked_mul(n) {
                            Some(w) => {
                                acc = w;
                            },
                            None => {
                                return Err(EvalError::ArithmeticOverflow);
                            },
                        }
                    },
                    ArithOp::Divide => {
                        if n == 0 {
                            return Err(EvalError::DivisionByZero);
                        }
                        match acc.checked_div(n) {
                            Some(w) => {
                                acc = w;
                            },
                            None => {
                                return Err(EvalError::ArithmeticOverflow);
                            },
                        }
                    },
                }
            },
            _ => {
                return Err(EvalError::TypeMismatch);
            },
        }
        i = i + 1;
    }
    Ok(SExpr::owned_value(OwnedValue::I16(acc)))
}

/// Reduce a `i32`-typed operand list.
#[verifier::loop_isolation(false)]
fn reduce_i32(op: ArithOp, values: &Vec<SExpr>, first: i32) -> (r: Result<SExpr, EvalError>)
    requires
        values@.len() >= 1,
    ensures
        res_model(r) == finish_arith(
            Type::I32,
            spec_reduce(op, Type::I32, models_of(values), 1, first as int),
        ),
{
    proof {
        SExpr::lemma_exprs_models(values, values@.len() as nat);
    }
    let ghost ms = models_of(values);
    let mut acc: i32 = first;
    let mut i: usize = 1;
    while i < values.len()
        invariant
            1 <= i <= values@.len(),
            spec_reduce(op, Type::I32, ms, i as int, acc as int) == spec_reduce(
                op,
                Type::I32,
                ms,
                1,
                first as int,
            ),
        decreases values@.len() - i,
    {
        let sv = values[i].val();
        match sv {
            Some(SharedValue::I32(n)) => {
                match op {
                    ArithOp::Add => {
                        match acc.checked_add(n) {
                            Some(w) => {
                                acc = w;
                            },
                            None => {
                                return Err(EvalError::ArithmeticOverflow);
                            },
                        }
                    },
                    ArithOp::Subtract => {
                        match acc.checked_sub(n) {
                            Some(w) => {
                                acc = w;
                            },
                            None => {
                                return Err(EvalError::ArithmeticOverflow);
                            },
                        }
                    },
                    ArithOp::Multiply => {
                        match acc.checked_mul(n) {
                            Some(w) => {
                                acc = w;
                            },
                            None => {
                                return Err(EvalError::ArithmeticOverflow);
                            },
                        }
                    },
                    ArithOp::Divide => {
                        if n == 0 {
                            return Err(EvalError::DivisionByZero);
                        }
                        match acc.checked_div(n) {
                            Some(w) => {
                                acc = w;
                            },
                            None => {
                                return Err(EvalError::ArithmeticOverflow);
                            },
                        }
                    },
                }
            },
            _ => {
                return Err(EvalError::TypeMismatch);
            },
        }
        i = i + 1;
    }
    Ok(SExpr::owned_value(OwnedValue::I32(acc)))
}

/// Reduce a `i64`-typed operand list.
#[verifier::loop_isolation(false)]
fn reduce_i64(op: ArithOp, values: &Vec<SExpr>, first: i64) -> (r: Result<SExpr, EvalError>)
    requires
        values@.len() >= 1,
    ensures
        res_model(r) == finish_arith(
            Type::I64,
            spec_reduce(op, Type::I64, models_of(values), 1, first as int),
        ),
{
    proof {
        SExpr::lemma_exprs_models(values, values@.len() as nat);
    }
    let ghost ms = models_of(values);
    let mut acc: i64 = first;
    let mut i: usize = 1;
    while i < values.len()
        invariant
            1 <= i <= values@.len(),
            spec_reduce(op, Type::I64, ms, i as int, acc as int) == spec_reduce(
                op,
                Type::I64,
                ms,
                1,
                first as int,
            ),
        decreases values@.len() - i,
    {
        let sv = values[i].val();
        match sv {
            Some(SharedValue::I64(n)) => {
                match op {
                    ArithOp::Add => {
                        match acc.checked_add(n) {
                            Some(w) => {
                                acc = w;
                            },
                            None => {
                                return Err(EvalError::ArithmeticOverflow);
                            },
                        }
                    },
                    ArithOp::Subtract => {
                        match acc.checked_sub(n) {
                            Some(w) => {
                                acc = w;
                            },
                            None => {
                                return Err(EvalError::ArithmeticOverflow);
                            },
                        }
                    },
                    ArithOp::Multiply => {
                        match acc.checked_mul(n) {
                            Some(w) => {
                                acc = w;
                            },
                            None => {
                                return Err(EvalError::ArithmeticOverflow);
                            },
                        }
                    },
                    ArithOp::Divide => {
                        if n == 0 {
                            return Err(EvalError::DivisionByZero);
                        }
                        match acc.checked_div(n) {
                            Some(w) => {
                                acc = w;
                            },
                            None => {
                                return Err(EvalError::ArithmeticOverflow);
                            },
                        }
                    },
                }
            },
            _ => {
                return Err(EvalError::TypeMismatch);
            },
        }
        i = i + 1;
    }
    Ok(SExpr::owned_value(OwnedValue::I64(acc)))
}

/// Reduce an operand list with the operator: the first operand fixes the
/// type for the whole call.
pub fn arith(op: ArithOp, values: &Vec<SExpr>) -> (r: Result<SExpr, EvalError>)
    ensures
        res_model(r) == spec_arith(op, models_of(values)),
{
    proof {
        SExpr::lemma_exprs_models(values, values@.len() as nat);
    }
    if values.len() == 0 {
        return Err(EvalError::ArityMismatch);
    }
    match values[0].val() {
        Some(SharedValue::U8(n)) => reduce_u8(op, values, n),
        Some(SharedValue::U16(n)) => reduce_u16(op, values, n),
        Some(SharedValue::U32(n)) => reduce_u32(op, values, n),
        Some(SharedValue::U64(n)) => reduce_u64(op, values, n),
        Some(SharedValue::I8(n)) => reduce_i8(op, values, n),
        Some(SharedValue::I16(n)) => reduce_i16(op, values, n),
        Some(SharedValue::I32(n)) => reduce_i32(op, values, n),
        Some(SharedValue::I64(n)) => reduce_i64(op, values, n),
        _ => Err(EvalError::TypeMismatch),
    }
}

/// Sum the operands in the first operand's type.
pub fn add(values: Vec<SExpr>) -> (r: Result<SExpr, EvalError>)
    ensures
        res_model(r) == spec_arith(ArithOp::Add, models_of(&values)),
{
    arith(ArithOp::Add, &values)
}

/// Subtract the later operands from the first, in its type.
pub fn subtract(values: Vec<SExpr>) -> (r: Result<SExpr, EvalError>)
    ensures
        res_model(r) == spec_arith(ArithOp::Subtract, models_of(&values)),
{
    arith(ArithOp::Subtract, &values)
}

/// Multiply the operands in the first operand's type.
pub fn multiply(values: Vec<SExpr>) -> (r: Result<SExpr, EvalError>)
    ensures
        res_model(r) == spec_arith(ArithOp::Multiply, models_of(&values)),
{
    arith(ArithOp::Multiply, &values)
}

/// Divide the first operand by the later ones in turn, truncating as the
/// native integer division does; division by zero is an explicit error.
pub fn divide(values: Vec<SExpr>) -> (r: Result<SExpr, EvalError>)
    ensures
        res_model(r) == spec_arith(ArithOp::Divide, models_of(&values)),
{
    arith(ArithOp::Divide, &values)
}

/// What `inc` returns: the value plus one, in its own type.
pub open spec fn spec_inc(e: ExprModel) -> Result<ExprModel, EvalError> {
    match num_type_val(e) {
        None => Err(EvalError::TypeMismatch),
        Some((t, v)) => if v + 1 > type_max(t) {
            Err(EvalError::ArithmeticOverflow)
        } else {
            Ok(ExprModel::Value(ValueModel::Owned(make_num(t, v + 1))))
        },
    }
}

/// Increment an integer-typed value by one.
pub fn inc(value: SExpr) -> (r: Result<SExpr, EvalError>)
    ensures
        res_model(r) == spec_inc(value@),
{
    match value.val() {
        Some(SharedValue::U8(n)) => match n.checked_add(1) {
            Some(w) => Ok(SExpr::owned_value(OwnedValue::U8(w))),
            None => Err(EvalError::ArithmeticOverflow),
        },
        Some(SharedValue::U16(n)) => match n.checked_add(1) {
            Some(w) => Ok(SExpr::owned_value(OwnedValue::U16(w))),
            None => Err(EvalError::ArithmeticOverflow),
        },
        Some(SharedValue::U32(n)) => match n.checked_add(1) {
            Some(w) => Ok(SExpr::owned_value(OwnedValue::U32(w))),
            None => Err(EvalError::ArithmeticOverflow),
        },
        Some(SharedValue::U64(n)) => match n.checked_add(1) {
            Some(w) => Ok(SExpr::owned_value(OwnedValue::U64(w))),
            None => Err(EvalError::ArithmeticOverflow),
        },
        Some(SharedValue::I8(n)) => match n.checked_add(1) {
            Some(w) => Ok(SExpr::owned_value(OwnedValue::I8(w))),
            None => Err(EvalError::ArithmeticOverflow),
        },
        Some(SharedValue::I16(n)) => match n.checked_add(1) {
            Some(w) => Ok(SExpr::owned_value(OwnedValue::I16(w))),
            None => Err(EvalError::ArithmeticOverflow),
        },
        Some(SharedValue::I32(n)) => match n.checked_add(1) {
            Some(w) => Ok(SExpr::owned_value(OwnedValue::I32(w))),
            None => Err(EvalError::ArithmeticOverflow),
        },
        Some(SharedValue::I64(n)) => match n.checked_add(1) {
            Some(w) => Ok(SExpr::owned_value(OwnedValue::I64(w))),
            None => Err(EvalError::ArithmeticOverflow),
        },
        _ => Err(EvalError::TypeMismatch),
    }
}

/// Every operand a successful reduction consumed carried exactly the type
/// the first operand fixed.
pub proof fn lemma_reduce_types(op: ArithOp, t: Type, vs: Seq<ExprModel>, i: int, acc: int)
    requires
        i >= 0,
    ensures
        spec_reduce(op, t, vs, i, acc) is Ok ==> forall|j: int|
            i <= j < vs.len() ==> ((#[trigger] num_type_val(vs[j])) matches Some(p) && p.0 == t),
    decreases vs.len() - i,
{
    if 0 <= i < vs.len() {
        match num_type_val(vs[i]) {
            Some((t2, v)) => {
                if t2 == t {
                    match arith_step(op, acc, v) {
                        Ok(w) => {
                            if type_min(t) <= w <= type_max(t) {
                                lemma_reduce_types(op, t, vs, i + 1, w);
                            }
                        },
                        Err(_) => {},
                    }
                }
            },
            None => {},
        }
    }
}

/// Arithmetic type-consistency: when every operand carries the type the
/// first fixed, a successful call returns a value of exactly that type;
/// one operand of another type makes the call fail.
pub proof fn lemma_arith_type_consistency(op: ArithOp, vs: Seq<ExprModel>)
    ensures
        spec_arith(op, vs) matches Ok(e) ==> (num_type_val(vs[0]) matches Some(p) && (forall|
            j: int,
        |
            0 <= j < vs.len() ==> ((#[trigger] num_type_val(vs[j])) matches Some(q) && q.0 == p.0))
            && (e matches ExprModel::Value(ValueModel::Owned(v)) && crate::types::model::model_base_type(
            v,
        ) == p.0)),
{
    if vs.len() > 0 {
        match num_type_val(vs[0]) {
            Some((t, v0)) => {
                lemma_reduce_types(op, t, vs, 1, v0);
                match spec_reduce(op, t, vs, 1, v0) {
                    Ok(w) => {
                        lemma_reduce_in_range(op, t, vs, 1, v0);
                    },
                    Err(_) => {},
                }
            },
            None => {},
        }
    }
}

/// A successful reduction's result stays in the operand type's range.
pub proof fn lemma_reduce_in_range(op: ArithOp, t: Type, vs: Seq<ExprModel>, i: int, acc: int)
    requires
        type_min(t) <= acc <= type_max(t),
        t == Type::U8 || t == Type::U16 || t == Type::U32 || t == Type::U64 || t == Type::I8 || t
            == Type::I16 || t == Type::I32 || t == Type::I64,
    ensures
        spec_reduce(op, t, vs, i, acc) matches Ok(w) ==> (type_min(t) <= w <= type_max(t)
            && crate::types::model::model_base_type(make_num(t, w)) == t),
    decreases vs.len() - i,
{
    if 0 <= i < vs.len() {
        match num_type_val(vs[i]) {
            Some((t2, v)) => {
                if t2 == t {
                    match arith_step(op, acc, v) {
                        Ok(w) => {
                            if type_min(t) <= w <= type_max(t) {
                                lemma_reduce_in_range(op, t, vs, i + 1, w);
                            }
                        },
                        Err(_) => {},
                    }
                }
            },
            None => {},
        }
    }
}

} // verus!
