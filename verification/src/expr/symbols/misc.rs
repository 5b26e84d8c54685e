//! Sequential evaluation: `do` runs its operands in order and keeps the
//! last result.

use vstd::prelude::*;
use crate::expr::ast::{SExpr, Value, ExprModel, ValueModel, res_model, models_of};
use crate::types::model::ValModel;
use crate::expr::error::EvalError;
use crate::expr::interpreter::{Envorinment, env_le, lemma_env_le_trans};
use crate::expr::semantics::{spec_do, spec_do_from};

verus! {

/// `(do e...)`: evaluate in order; the last result, or Null for no
/// operands, or the first error.
#[verifier::loop_isolation(false)]
pub fn do_(exprs: Vec<SExpr>, env: &mut Envorinment, fuel: u64) -> (r: Result<SExpr, EvalError>)
    ensures
        env_le(old(env)@, final(env)@),
        (res_model(r), final(env)@) == spec_do(models_of(&exprs), old(env)@, fuel as nat),
        exprs@.len() == 0 && fuel > 0 ==> res_is_null(r),
    decreases fuel,
{
    proof {
        SExpr::lemma_exprs_models(&exprs, exprs@.len() as nat);
    }
    let ghost ms = models_of(&exprs);
    if fuel == 0 {
        return Err(EvalError::DepthExceeded);
    }
    let ghost env0 = env@;
    let mut result = SExpr::Value(Value::null());
    let mut i: usize = 0;
    while i < exprs.len()
        invariant
            i <= exprs@.len(),
            env_le(env0, env@),
            fuel >= 1,
            i == 0 ==> result@ == ExprModel::Value(ValueModel::Owned(ValModel::Null)),
            spec_do(ms, env0, fuel as nat) == spec_do_from(
                ms,
                i as int,
                result@,
                env@,
                fuel as nat,
            ),
        decreases exprs@.len() - i,
    {
        let ghost pre = env@;
        match exprs[i].duplicate().eval(env, fuel - 1) {
            Ok(v) => {
                result = v;
            },
            Err(e) => {
                proof {
                    lemma_env_le_trans(env0, pre, env@);
                }
                return Err(e);
            },
        }
        proof {
            lemma_env_le_trans(env0, pre, env@);
        }
        i = i + 1;
    }
    Ok(result)
}

/// Whether an outcome is the canonical Null literal.
pub open spec fn res_is_null(r: Result<SExpr, EvalError>) -> bool {
    r matches Ok(e) && e.model() == ExprModel::Value(ValueModel::Owned(ValModel::Null))
}

} // verus!
