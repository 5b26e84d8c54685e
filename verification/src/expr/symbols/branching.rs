//! Control-flow macros: the condition decides which branch is evaluated at
//! all, which is why these receive their arguments unevaluated.

use vstd::prelude::*;
use crate::expr::ast::{SExpr, Value, res_model, models_of};
use crate::expr::error::EvalError;
use crate::expr::interpreter::{Envorinment, env_le, lemma_env_le_trans};
use crate::expr::semantics::{spec_if_form, spec_when_form};
use crate::expr::symbols::utils::is_true;

verus! {

/// `(if test then else?)`: evaluate the branch the test picks.
pub fn if_(env: &mut Envorinment, exprs: Vec<SExpr>, fuel: u64) -> (r: Result<SExpr, EvalError>)
    ensures
        env_le(old(env)@, final(env)@),
        (res_model(r), final(env)@) == spec_if_form(
            models_of(&exprs),
            false,
            old(env)@,
            fuel as nat,
        ),
    decreases fuel,
{
    proof {
        SExpr::lemma_exprs_models(&exprs, exprs@.len() as nat);
    }
    if fuel == 0 {
        return Err(EvalError::DepthExceeded);
    }
    if exprs.len() < 2 {
        return Err(EvalError::ArityMismatch);
    }
    let ghost env0 = env@;
    let tester = match exprs[0].duplicate().eval(env, fuel - 1) {
        Ok(v) => v,
        Err(e) => {
            return Err(e);
        },
    };
    let ghost env1 = env@;
    let r = if is_true(&tester) {
        exprs[1].duplicate().eval(env, fuel - 1)
    } else if exprs.len() >= 3 {
        exprs[2].duplicate().eval(env, fuel - 1)
    } else {
        Ok(SExpr::Value(Value::null()))
    };
    proof {
        lemma_env_le_trans(env0, env1, env@);
    }
    r
}

/// `(if-not test then else?)`: as `if` with the test negated.
pub fn if_not(env: &mut Envorinment, exprs: Vec<SExpr>, fuel: u64) -> (r: Result<SExpr, EvalError>)
    ensures
        env_le(old(env)@, final(env)@),
        (res_model(r), final(env)@) == spec_if_form(
            models_of(&exprs),
            true,
            old(env)@,
            fuel as nat,
        ),
    decreases fuel,
{
    proof {
        SExpr::lemma_exprs_models(&exprs, exprs@.len() as nat);
    }
    if fuel == 0 {
        return Err(EvalError::DepthExceeded);
    }
    if exprs.len() < 2 {
        return Err(EvalError::ArityMismatch);
    }
    let ghost env0 = env@;
    let tester = match exprs[0].duplicate().eval(env, fuel - 1) {
        Ok(v) => v,
        Err(e) => {
            return Err(e);
        },
    };
    let ghost env1 = env@;
    let r = if !is_true(&tester) {
        exprs[1].duplicate().eval(env, fuel - 1)
    } else if exprs.len() >= 3 {
        exprs[2].duplicate().eval(env, fuel - 1)
    } else {
        Ok(SExpr::Value(Value::null()))
    };
    proof {
        lemma_env_le_trans(env0, env1, env@);
    }
    r
}

/// `(when test then)`: the branch only when the test holds, Null otherwise.
pub fn when(env: &mut Envorinment, exprs: Vec<SExpr>, fuel: u64) -> (r: Result<SExpr, EvalError>)
    ensures
        env_le(old(env)@, final(env)@),
        (res_model(r), final(env)@) == spec_when_form(
            models_of(&exprs),
            false,
            old(env)@,
            fuel as nat,
        ),
    decreases fuel,
{
    proof {
        SExpr::lemma_exprs_models(&exprs, exprs@.len() as nat);
    }
    if fuel == 0 {
        return Err(EvalError::DepthExceeded);
    }
    if exprs.len() < 2 {
        return Err(EvalError::ArityMismatch);
    }
    let ghost env0 = env@;
    let tester = match exprs[0].duplicate().eval(env, fuel - 1) {
        Ok(v) => v,
        Err(e) => {
            return Err(e);
        },
    };
    let ghost env1 = env@;
    let r = if is_true(&tester) {
        exprs[1].duplicate().eval(env, fuel - 1)
    } else {
        Ok(SExpr::Value(Value::null()))
    };
    proof {
        lemma_env_le_trans(env0, env1, env@);
    }
    r
}

/// `(when-not test then)`: the branch only when the test fails.
pub fn when_not(env: &mut Envorinment, exprs: Vec<SExpr>, fuel: u64) -> (r: Result<
    SExpr,
    EvalError,
>)
    ensures
        env_le(old(env)@, final(env)@),
        (res_model(r), final(env)@) == spec_when_form(
            models_of(&exprs),
            true,
            old(env)@,
            fuel as nat,
        ),
    decreases fuel,
{
    proof {
        SExpr::lemma_exprs_models(&exprs, exprs@.len() as nat);
    }
    if fuel == 0 {
        return Err(EvalError::DepthExceeded);
    }
    if exprs.len() < 2 {
        return Err(EvalError::ArityMismatch);
    }
    let ghost env0 = env@;
    let tester = match exprs[0].duplicate().eval(env, fuel - 1) {
        Ok(v) => v,
        Err(e) => {
            return Err(e);
        },
    };
    let ghost env1 = env@;
    let r = if !is_true(&tester) {
        exprs[1].duplicate().eval(env, fuel - 1)
    } else {
        Ok(SExpr::Value(Value::null()))
    };
    proof {
        lemma_env_le_trans(env0, env1, env@);
    }
    r
}

} // verus!
