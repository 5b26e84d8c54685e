//! Short-circuit logic macros and the multi-branch conditional.

use vstd::prelude::*;
use crate::types::owned::OwnedValue;
use crate::expr::ast::{SExpr, Value, res_model, models_of};
use crate::expr::error::EvalError;
use crate::expr::interpreter::{Envorinment, env_le, lemma_env_le_trans};
use crate::expr::semantics::{spec_or, spec_or_from, spec_and, spec_and_from, spec_cond, spec_cond_from};
use crate::expr::symbols::utils::is_true;

verus! {

/// `(or e...)`: true at the first truthy operand, false when none is.
#[verifier::loop_isolation(false)]
pub fn or(exprs: Vec<SExpr>, env: &mut Envorinment, fuel: u64) -> (r: Result<SExpr, EvalError>)
    ensures
        env_le(old(env)@, final(env)@),
        (res_model(r), final(env)@) == spec_or(models_of(&exprs), old(env)@, fuel as nat),
    decreases fuel,
{
    proof {
        SExpr::lemma_exprs_models(&exprs, exprs@.len() as nat);
    }
    let ghost ms = models_of(&exprs);
    if fuel == 0 {
        return Err(EvalError::DepthExceeded);
    }
    let ghost env0 = env@;
    let mut i: usize = 0;
    while i < exprs.len()
        invariant
            i <= exprs@.len(),
            env_le(env0, env@),
            fuel >= 1,
            spec_or(ms, env0, fuel as nat) == spec_or_from(ms, i as int, env@, fuel as nat),
        decreases exprs@.len() - i,
    {
        let ghost pre = env@;
        match exprs[i].duplicate().eval(env, fuel - 1) {
            Ok(v) => {
                proof {
                    lemma_env_le_trans(env0, pre, env@);
                }
                if is_true(&v) {
                    return Ok(SExpr::owned_value(OwnedValue::Bool(true)));
                }
            },
            Err(e) => {
                proof {
                    lemma_env_le_trans(env0, pre, env@);
                }
                return Err(e);
            },
        }
        i = i + 1;
    }
    Ok(SExpr::owned_value(OwnedValue::Bool(false)))
}

/// `(and e...)`: false at the first falsy operand, true when none is.
#[verifier::loop_isolation(false)]
pub fn and(exprs: Vec<SExpr>, env: &mut Envorinment, fuel: u64) -> (r: Result<SExpr, EvalError>)
    ensures
        env_le(old(env)@, final(env)@),
        (res_model(r), final(env)@) == spec_and(models_of(&exprs), old(env)@, fuel as nat),
    decreases fuel,
{
    proof {
        SExpr::lemma_exprs_models(&exprs, exprs@.len() as nat);
    }
    let ghost ms = models_of(&exprs);
    if fuel == 0 {
        return Err(EvalError::DepthExceeded);
    }
    let ghost env0 = env@;
    let mut i: usize = 0;
    while i < exprs.len()
        invariant
            i <= exprs@.len(),
            env_le(env0, env@),
            fuel >= 1,
            spec_and(ms, env0, fuel as nat) == spec_and_from(ms, i as int, env@, fuel as nat),
        decreases exprs@.len() - i,
    {
        let ghost pre = env@;
        match exprs[i].duplicate().eval(env, fuel - 1) {
            Ok(v) => {
                proof {
                    lemma_env_le_trans(env0, pre, env@);
                }
                if !is_true(&v) {
                    return Ok(SExpr::owned_value(OwnedValue::Bool(false)));
                }
            },
            Err(e) => {
                proof {
                    lemma_env_le_trans(env0, pre, env@);
                }
                return Err(e);
            },
        }
        i = i + 1;
    }
    Ok(SExpr::owned_value(OwnedValue::Bool(true)))
}

/// `(cond test expr ...)`: evaluate the expression after the first test
/// that holds; Null when none does. An odd operand count is malformed.
#[verifier::loop_isolation(false)]
pub fn cond(exprs: Vec<SExpr>, env: &mut Envorinment, fuel: u64) -> (r: Result<SExpr, EvalError>)
    ensures
        env_le(old(env)@, final(env)@),
        (res_model(r), final(env)@) == spec_cond(models_of(&exprs), old(env)@, fuel as nat),
    decreases fuel,
{
    proof {
        SExpr::lemma_exprs_models(&exprs, exprs@.len() as nat);
    }
    let ghost ms = models_of(&exprs);
    if fuel == 0 {
        return Err(EvalError::DepthExceeded);
    }
    if exprs.len() % 2 == 1 {
        return Err(EvalError::MalformedForm);
    }
    let ghost env0 = env@;
    let mut i: usize = 0;
    while i < exprs.len()
        invariant
            i <= exprs@.len(),
            i % 2 == 0,
            exprs@.len() % 2 == 0,
            env_le(env0, env@),
            fuel >= 1,
            spec_cond(ms, env0, fuel as nat) == spec_cond_from(ms, i as int, env@, fuel as nat),
        decreases exprs@.len() - i,
    {
        proof {
            assert(i + 1 < exprs@.len());
        }
        let ghost pre = env@;
        match exprs[i].duplicate().eval(env, fuel - 1) {
            Ok(condition) => {
                proof {
                    lemma_env_le_trans(env0, pre, env@);
                }
                if is_true(&condition) {
                    let ghost pre2 = env@;
                    let r = exprs[i + 1].duplicate().eval(env, fuel - 1);
                    proof {
                        lemma_env_le_trans(env0, pre2, env@);
                    }
                    return r;
                }
            },
            Err(e) => {
                proof {
                    lemma_env_le_trans(env0, pre, env@);
                }
                return Err(e);
            },
        }
        i = i + 2;
    }
    Ok(SExpr::Value(Value::null()))
}

} // verus!
