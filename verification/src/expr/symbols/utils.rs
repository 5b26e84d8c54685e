//! The truthiness rule: everything but a false boolean and the Null value
//! counts as yes.

use vstd::prelude::*;
use crate::types::model::ValModel;
use crate::types::shared::SharedValue;
use crate::expr::ast::{SExpr, ExprModel};

verus! {

/// Whether an expression counts as true: a literal false boolean and a
/// literal Null do not; every other expression does.
pub open spec fn spec_is_true(e: ExprModel) -> bool {
    match e {
        ExprModel::Value(vm) => match vm.payload() {
            ValModel::Bool(b) => b,
            ValModel::Null => false,
            _ => true,
        },
        _ => true,
    }
}

/// Whether an expression counts as true.
pub fn is_true(expr: &SExpr) -> (r: bool)
    ensures
        r == spec_is_true(expr@),
{
    match expr.val() {
        Some(SharedValue::Bool(b)) => b,
        Some(SharedValue::Null) => false,
        Some(_) => true,
        None => true,
    }
}

} // verus!
