//! Comparison builtins: chained pairwise comparison over a type-homogeneous
//! operand list, short-circuiting to false on the first failed pair, plus
//! structural equality tests.

use vstd::prelude::*;
use crate::types::data_type::Type;
use crate::types::shared::SharedValue;
use crate::types::owned::OwnedValue;
use crate::expr::ast::{SExpr, ExprModel, ValueModel, res_model, models_of, sexpr_eq};
use crate::expr::error::EvalError;
use crate::expr::symbols::arithmetic::num_type_val;
use crate::types::model::ValModel;

verus! {

/// A chained comparison operator.
#[derive(Debug, Clone, Copy, PartialEq, Eq, Structural)]
pub enum CmpOp {
    Lt,
    Lte,
    Gt,
    Gte,
}

/// Whether one mathematical value stands in the operator's relation to the
/// next.
pub open spec fn cmp_holds(op: CmpOp, a: int, b: int) -> bool {
    match op {
        CmpOp::Lt => a < b,
        CmpOp::Lte => a <= b,
        CmpOp::Gt => a > b,
        CmpOp::Gte => a >= b,
    }
}

/// The chain from operand `i` on: each operand must carry the type the
/// first fixed; the first failed pair short-circuits to false.
pub open spec fn spec_chain(op: CmpOp, t: Type, vs: Seq<ExprModel>, i: int, last: int) -> Result<
    ExprModel,
    EvalError,
>
    decreases vs.len() - i,
{
    if i < 0 || i >= vs.len() {
        Ok(ExprModel::Value(ValueModel::Owned(ValModel::Bool(true))))
    } else {
        match num_type_val(vs[i]) {
            None => Err(EvalError::TypeMismatch),
            Some((t2, v)) => if t2 != t {
                Err(EvalError::TypeMismatch)
            } else if cmp_holds(op, last, v) {
                spec_chain(op, t, vs, i + 1, v)
            } else {
                Ok(ExprModel::Value(ValueModel::Owned(ValModel::Bool(false))))
            },
        }
    }
}

/// What a whole chained comparison returns.
pub open spec fn spec_cmp(op: CmpOp, vs: Seq<ExprModel>) -> Result<ExprModel, EvalError> {
    if vs.len() == 0 {
        Err(EvalError::ArityMismatch)
    } else {
        match num_type_val(vs[0]) {
            None => Err(EvalError::TypeMismatch),
            Some((t, v0)) => spec_chain(op, t, vs, 1, v0),
        }
    }
}

/// Chain a `u8`-typed operand list.
#[verifier::loop_isolation(false)]
fn chain_u8(op: CmpOp, values: &Vec<SExpr>, first: u8) -> (r: Result<SExpr, EvalError>)
    requires
        values@.len() >= 1,
    ensures
        res_model(r) == spec_chain(op, Type::U8, models_of(values), 1, first as int),
{
    proof {
        SExpr::lemma_exprs_models(values, values@.len() as nat);
    }
    let ghost ms = models_of(values);
    let mut last: u8 = first;
    let mut i: usize = 1;
    while i < values.len()
        invariant
            1 <= i <= values@.len(),
            spec_chain(op, Type::U8, ms, i as int, last as int) == spec_chain(
                op,
                Type::U8,
                ms,
                1,
                first as int,
            ),
        decreases values@.len() - i,
    {
        let sv = values[i].val();
        match sv {
            Some(SharedValue::U8(n)) => {
                let holds = match op {
                    CmpOp::Lt => last < n,
                    CmpOp::Lte => last <= n,
                    CmpOp::Gt => last > n,
                    CmpOp::Gte => last >= n,
                };
                if holds {
                    last = n;
                } else {
                    return Ok(SExpr::owned_value(OwnedValue::Bool(false)));
                }
            },
            _ => {
                return Err(EvalError::TypeMismatch);
            },
        }
        i = i + 1;
    }
    Ok(SExpr::owned_value(OwnedValue::Bool(true)))
}

/// Chain a `u16`-typed operand list.
#[verifier::loop_isolation(false)]
fn chain_u16(op: CmpOp, values: &Vec<SExpr>, first: u16) -> (r: Result<SExpr, EvalError>)
    requires
        values@.len() >= 1,
    ensures
        res_model(r) == spec_chain(op, Type::U16, models_of(values), 1, first as int),
{
    proof {
        SExpr::lemma_exprs_models(values, values@.len() as nat);
    }
    let ghost ms = models_of(values);
    let mut last: u16 = first;
    let mut i: usize = 1;
    while i < values.len()
        invariant
            1 <= i <= values@.len(),
            spec_chain(op, Type::U16, ms, i as int, last as int) == spec_chain(
                op,
                Type::U16,
                ms,
                1,
                first as int,
            ),
        decreases values@.len() - i,
    {
        let sv = values[i].val();
        match sv {
            Some(SharedValue::U16(n)) => {
                let holds = match op {
                    CmpOp::Lt => last < n,
                    CmpOp::Lte => last <= n,
                    CmpOp::Gt => last > n,
                    CmpOp::Gte => last >= n,
                };
                if holds {
                    last = n;
                } else {
                    return Ok(SExpr::owned_value(OwnedValue::Bool(false)));
                }
            },
            _ => {
                return Err(EvalError::TypeMismatch);
            },
        }
        i = i + 1;
    }
    Ok(SExpr::owned_value(OwnedValue::Bool(true)))
}

/// Chain a `u32`-typed operand list.
#[verifier::loop_isolation(false)]
fn chain_u32(op: CmpOp, values: &Vec<SExpr>, first: u32) -> (r: Result<SExpr, EvalError>)
    requires
        values@.len() >= 1,
    ensures
        res_model(r) == spec_chain(op, Type::U32, models_of(values), 1, first as int),
{
    proof {
        SExpr::lemma_exprs_models(values, values@.len() as nat);
    }
    let ghost ms = models_of(values);
    let mut last: u32 = first;
    let mut i: usize = 1;
    while i < values.len()
        invariant
            1 <= i <= values@.len(),
            spec_chain(op, Type::U32, ms, i as int, last as int) == spec_chain(
                op,
                Type::U32,
                ms,
                1,
                first as int,
            ),
        decreases values@.len() - i,
    {
        let sv = values[i].val();
        match sv {
            Some(SharedValue::U32(n)) => {
                let holds = match op {
                    CmpOp::Lt => last < n,
                    CmpOp::Lte => last <= n,
                    CmpOp::Gt => last > n,
                    CmpOp::Gte => last >= n,
                };
                if holds {
                    last = n;
                } else {
                    return Ok(SExpr::owned_value(OwnedValue::Bool(false)));
                }
            },
            _ => {
                return Err(EvalError::TypeMismatch);
            },
        }
        i = i + 1;
    }
    Ok(SExpr::owned_value(OwnedValue::Bool(true)))
}

/// Chain a `u64`-typed operand list.
#[verifier::loop_isolation(false)]
fn chain_u64(op: CmpOp, values: &Vec<SExpr>, first: u64) -> (r: Result<SExpr, EvalError>)
    requires
        values@.len() >= 1,
    ensures
        res_model(r) == spec_chain(op, Type::U64, models_of(values), 1, first as int),
{
    proof {
        SExpr::lemma_exprs_models(values, values@.len() as nat);
    }
    let ghost ms = models_of(values);
    let mut last: u64 = first;
    let mut i: usize = 1;
    while i < values.len()
        invariant
            1 <= i <= values@.len(),
            spec_chain(op, Type::U64, ms, i as int, last as int) == spec_chain(
                op,
                Type::U64,
                ms,
                1,
                first as int,
            ),
        decreases values@.len() - i,
    {
        let sv = values[i].val();
        match sv {
            Some(SharedValue::U64(n)) => {
                let holds = match op {
                    CmpOp::Lt => last < n,
                    CmpOp::Lte => last <= n,
                    CmpOp::Gt => last > n,
                    CmpOp::Gte => last >= n,
                };
                if holds {
                    last = n;
                } else {
                    return Ok(SExpr::owned_value(OwnedValue::Bool(false)));
                }
            },
            _ => {
                return Err(EvalError::TypeMismatch);
            },
        }
        i = i + 1;
    }
    Ok(SExpr::owned_value(OwnedValue::Bool(true)))
}

/// Chain a `i8`-typed operand list.
#[verifier::loop_isolation(false)]
fn chain_i8(op: CmpOp, values: &Vec<SExpr>, first: i8) -> (r: Result<SExpr, EvalError>)
    requires
        values@.len() >= 1,
    ensures
        res_model(r) == spec_chain(op, Type::I8, models_of(values), 1, first as int),
{
    proof {
        SExpr::lemma_exprs_models(values, values@.len() as nat);
    }
    let ghost ms = models_of(values);
    let mut last: i8 = first;
    let mut i: usize = 1;
    while i < values.len()
        invariant
            1 <= i <= values@.len(),
            spec_chain(op, Type::I8, ms, i as int, last as int) == spec_chain(
                op,
                Type::I8,
                ms,
                1,
                first as int,
            ),
        decreases values@.len() - i,
    {
        let sv = values[i].val();
        match sv {
            Some(SharedValue::I8(n)) => {
                let holds = match op {
                    CmpOp::Lt => last < n,
                    CmpOp::Lte => last <= n,
                    CmpOp::Gt => last > n,
                    CmpOp::Gte => last >= n,
                };
                if holds {
                    last = n;
                } else {
                    return Ok(SExpr::owned_value(OwnedValue::Bool(false)));
                }
            },
            _ => {
                return Err(EvalError::TypeMismatch);
            },
        }
        i = i + 1;
    }
    Ok(SExpr::owned_value(OwnedValue::Bool(true)))
}

/// Chain a `i16`-typed operand list.
#[verifier::loop_isolation(false)]
fn chain_i16(op: CmpOp, values: &Vec<SExpr>, first: i16) -> (r: Result<SExpr, EvalError>)
    requires
        values@.len() >= 1,
    ensures
        res_model(r) == spec_chain(op, Type::I16, models_of(values), 1, first as int),
{
    proof {
        SExpr::lemma_exprs_models(values, values@.len() as nat);
    }
    let ghost ms = models_of(values);
    let mut last: i16 = first;
    let mut i: usize = 1;
    while i < values.len()
        invariant
            1 <= i <= values@.len(),
            spec_chain(op, Type::I16, ms, i as int, last as int) == spec_chain(
                op,
                Type::I16,
                ms,
                1,
                first as int,
            ),
        decreases values@.len() - i,
    {
        let sv = values[i].val();
        match sv {
            Some(SharedValue::I16(n)) => {
                let holds = match op {
                    CmpOp::Lt => last < n,
                    CmpOp::Lte => last <= n,
                    CmpOp::Gt => last > n,
                    CmpOp::Gte => last >= n,
                };
                if holds {
                    last = n;
                } else {
                    return Ok(SExpr::owned_value(OwnedValue::Bool(false)));
                }
            },
            _ => {
                return Err(EvalError::TypeMismatch);
            },
        }
        i = i + 1;
    }
    Ok(SExpr::owned_value(OwnedValue::Bool(true)))
}

/// Chain a `i32`-typed operand list.
#[verifier::loop_isolation(false)]
fn chain_i32(op: CmpOp, values: &Vec<SExpr>, first: i32) -> (r: Result<SExpr, EvalError>)
    requires
        values@.len() >= 1,
    ensures
        res_model(r) == spec_chain(op, Type::I32, models_of(values), 1, first as int),
{
    proof {
        SExpr::lemma_exprs_models(values, values@.len() as nat);
    }
    let ghost ms = models_of(values);
    let mut last: i32 = first;
    let mut i: usize = 1;
    while i < values.len()
        invariant
            1 <= i <= values@.len(),
            spec_chain(op, Type::I32, ms, i as int, last as int) == spec_chain(
                op,
                Type::I32,
                ms,
                1,
                first as int,
            ),
        decreases values@.len() - i,
    {
        let sv = values[i].val();
        match sv {
            Some(SharedValue::I32(n)) => {
                let holds = match op {
                    CmpOp::Lt => last < n,
                    CmpOp::Lte => last <= n,
                    CmpOp::Gt => last > n,
                    CmpOp::Gte => last >= n,
                };
                if holds {
                    last = n;
                } else {
                    return Ok(SExpr::owned_value(OwnedValue::Bool(false)));
                }
            },
            _ => {
                return Err(EvalError::TypeMismatch);
            },
        }
        i = i + 1;
    }
    Ok(SExpr::owned_value(OwnedValue::Bool(true)))
}

/// Chain a `i64`-typed operand list.
#[verifier::loop_isolation(false)]
fn chain_i64(op: CmpOp, values: &Vec<SExpr>, first: i64) -> (r: Result<SExpr, EvalError>)
    requires
        values@.len() >= 1,
    ensures
        res_model(r) == spec_chain(op, Type::I64, models_of(values), 1, first as int),
{
    proof {
        SExpr::lemma_exprs_models(values, values@.len() as nat);
    }
    let ghost ms = models_of(values);
    let mut last: i64 = first;
    let mut i: usize = 1;
    while i < values.len()
        invariant
            1 <= i <= values@.len(),
            spec_chain(op, Type::I64, ms, i as int, last as int) == spec_chain(
                op,
                Type::I64,
                ms,
                1,
                first as int,
            ),
        decreases values@.len() - i,
    {
        let sv = values[i].val();
        match sv {
            Some(SharedValue::I64(n)) => {
                let holds = match op {
                    CmpOp::Lt => last < n,
                    CmpOp::Lte => last <= n,
                    CmpOp::Gt => last > n,
                    CmpOp::Gte => last >= n,
                };
                if holds {
                    last = n;
                } else {
                    return Ok(SExpr::owned_value(OwnedValue::Bool(false)));
                }
            },
            _ => {
                return Err(EvalError::TypeMismatch);
            },
        }
        i = i + 1;
    }
    Ok(SExpr::owned_value(OwnedValue::Bool(true)))
}

/// Chain an operand list with the operator: the first operand fixes the
/// type for the whole call.
pub fn cmp_chain(op: CmpOp, values: &Vec<SExpr>) -> (r: Result<SExpr, EvalError>)
    ensures
        res_model(r) == spec_cmp(op, models_of(values)),
{
    proof {
        SExpr::lemma_exprs_models(values, values@.len() as nat);
    }
    if values.len() == 0 {
        return Err(EvalError::ArityMismatch);
    }
    match values[0].val() {
        Some(SharedValue::U8(n)) => chain_u8(op, values, n),
        Some(SharedValue::U16(n)) => chain_u16(op, values, n),
        Some(SharedValue::U32(n)) => chain_u32(op, values, n),
        Some(SharedValue::U64(n)) => chain_u64(op, values, n),
        Some(SharedValue::I8(n)) => chain_i8(op, values, n),
        Some(SharedValue::I16(n)) => chain_i16(op, values, n),
        Some(SharedValue::I32(n)) => chain_i32(op, values, n),
        Some(SharedValue::I64(n)) => chain_i64(op, values, n),
        _ => Err(EvalError::TypeMismatch),
    }
}

/// Pairwise less-than, chained over the operands.
pub fn lt(values: Vec<SExpr>) -> (r: Result<SExpr, EvalError>)
    ensures
        res_model(r) == spec_cmp(CmpOp::Lt, models_of(&values)),
{
    cmp_chain(CmpOp::Lt, &values)
}

/// Pairwise less-than-or-equal, chained over the operands.
pub fn lte(values: Vec<SExpr>) -> (r: Result<SExpr, EvalError>)
    ensures
        res_model(r) == spec_cmp(CmpOp::Lte, models_of(&values)),
{
    cmp_chain(CmpOp::Lte, &values)
}

/// Pairwise greater-than, chained over the operands.
pub fn gt(values: Vec<SExpr>) -> (r: Result<SExpr, EvalError>)
    ensures
        res_model(r) == spec_cmp(CmpOp::Gt, models_of(&values)),
{
    cmp_chain(CmpOp::Gt, &values)
}

/// Pairwise greater-than-or-equal, chained over the operands.
pub fn gte(values: Vec<SExpr>) -> (r: Result<SExpr, EvalError>)
    ensures
        res_model(r) == spec_cmp(CmpOp::Gte, models_of(&values)),
{
    cmp_chain(CmpOp::Gte, &values)
}

/// Whether every operand before the last equals the last, structurally.
pub open spec fn spec_all_eq(vs: Seq<ExprModel>, i: int) -> bool
    decreases vs.len() - i,
{
    if i < 0 || i >= vs.len() - 1 {
        true
    } else {
        vs[i] == vs.last() && spec_all_eq(vs, i + 1)
    }
}

/// What `=` returns: true when all operands are structurally equal.
pub open spec fn spec_equals(vs: Seq<ExprModel>) -> Result<ExprModel, EvalError> {
    if vs.len() == 0 {
        Err(EvalError::ArityMismatch)
    } else {
        Ok(ExprModel::Value(ValueModel::Owned(ValModel::Bool(spec_all_eq(vs, 0)))))
    }
}

/// Structural equality over all operands.
#[verifier::loop_isolation(false)]
pub fn equals(exprs: Vec<SExpr>) -> (r: Result<SExpr, EvalError>)
    ensures
        res_model(r) == spec_equals(models_of(&exprs)),
{
    proof {
        SExpr::lemma_exprs_models(&exprs, exprs@.len() as nat);
    }
    if exprs.len() == 0 {
        return Err(EvalError::ArityMismatch);
    }
    let ghost ms = models_of(&exprs);
    let last_at = exprs.len() - 1;
    let mut i: usize = 0;
    while i < last_at
        invariant
            exprs@.len() >= 1,
            last_at == exprs@.len() - 1,
            i <= last_at,
            spec_all_eq(ms, i as int) == spec_all_eq(ms, 0),
        decreases last_at - i,
    {
        if !sexpr_eq(&exprs[i], &exprs[last_at]) {
            return Ok(SExpr::owned_value(OwnedValue::Bool(false)));
        }
        i = i + 1;
    }
    Ok(SExpr::owned_value(OwnedValue::Bool(true)))
}

/// What `!=` returns: with exactly two operands, true when they differ.
pub open spec fn spec_not_equals(vs: Seq<ExprModel>) -> Result<ExprModel, EvalError> {
    if vs.len() != 2 {
        Err(EvalError::ArityMismatch)
    } else {
        Ok(ExprModel::Value(ValueModel::Owned(ValModel::Bool(vs[0] != vs[1]))))
    }
}

/// Structural inequality of exactly two operands.
pub fn not_equals(exprs: Vec<SExpr>) -> (r: Result<SExpr, EvalError>)
    ensures
        res_model(r) == spec_not_equals(models_of(&exprs)),
{
    proof {
        SExpr::lemma_exprs_models(&exprs, exprs@.len() as nat);
    }
    if exprs.len() != 2 {
        return Err(EvalError::ArityMismatch);
    }
    let ne = !sexpr_eq(&exprs[0], &exprs[1]);
    Ok(SExpr::owned_value(OwnedValue::Bool(ne)))
}

/// A successful chained comparison returns a boolean, and every operand it
/// consumed carried the type the first operand fixed.
pub proof fn lemma_chain_bool(op: CmpOp, t: Type, vs: Seq<ExprModel>, i: int, last: int)
    ensures
        spec_chain(op, t, vs, i, last) matches Ok(e) ==> (e == ExprModel::Value(
            ValueModel::Owned(ValModel::Bool(true)),
        ) || e == ExprModel::Value(ValueModel::Owned(ValModel::Bool(false)))),
    decreases vs.len() - i,
{
    if 0 <= i < vs.len() {
        match num_type_val(vs[i]) {
            Some((t2, v)) => {
                if t2 == t && cmp_holds(op, last, v) {
                    lemma_chain_bool(op, t, vs, i + 1, v);
                }
            },
            None => {},
        }
    }
}

/// Comparison type-consistency: a successful chained comparison over
/// operands of one type returns a boolean.
pub proof fn lemma_cmp_returns_bool(op: CmpOp, vs: Seq<ExprModel>)
    ensures
        spec_cmp(op, vs) matches Ok(e) ==> (e == ExprModel::Value(
            ValueModel::Owned(ValModel::Bool(true)),
        ) || e == ExprModel::Value(ValueModel::Owned(ValModel::Bool(false)))),
{
    if vs.len() > 0 {
        match num_type_val(vs[0]) {
            Some((t, v0)) => {
                lemma_chain_bool(op, t, vs, 1, v0);
            },
            None => {},
        }
    }
}

} // verus!
