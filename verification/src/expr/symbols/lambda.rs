//! Lambda creation and application: a lambda captures parameter symbols and
//! an unevaluated body, no environment; free variables resolve dynamically
//! at call time.

use vstd::prelude::*;
use crate::hashing::{key_hash, key_hash_of};
use crate::expr::ast::{SExpr, ExprModel, Value, res_model, models_of};
use crate::expr::error::EvalError;
use crate::expr::interpreter::{
    Envorinment, env_le, env_depth, lemma_env_bind, lemma_env_bind_other,
};
use crate::expr::semantics::{
    spec_eval_lambda, spec_eval_body, ids_of_from, env_bind_seq, env_unbind_seq, null_expr,
};
use crate::expr::symbols::bindings::{bind, count_in, unbind_all};

verus! {

/// Interning of the parameter vector: every plain symbol gains its hashed
/// id; anything that is not a symbol is a malformed lambda.
pub open spec fn spec_intern_params(ss: Seq<ExprModel>, i: int) -> Result<Seq<ExprModel>, EvalError>
    decreases ss.len() - i,
{
    if i < 0 || i >= ss.len() {
        Ok(Seq::empty())
    } else {
        let head = match ss[i] {
            ExprModel::Symbol(name) => Ok(ExprModel::ISymbol(key_hash_of(name), name)),
            ExprModel::ISymbol(id, name) => Ok(ExprModel::ISymbol(id, name)),
            _ => Err(EvalError::MalformedForm),
        };
        match head {
            Err(e) => Err(e),
            Ok(h) => match spec_intern_params(ss, i + 1) {
                Err(e) => Err(e),
                Ok(rest) => Ok(seq![h] + rest),
            },
        }
    }
}

/// What the `lambda` form builds: its parameter vector interned, its body
/// kept unevaluated.
pub open spec fn spec_lambda_placeholder(vs: Seq<ExprModel>) -> Result<ExprModel, EvalError> {
    if vs.len() == 0 {
        Err(EvalError::ArityMismatch)
    } else {
        match vs[0] {
            ExprModel::Vec(symbols) => match spec_intern_params(symbols, 0) {
                Err(e) => Err(e),
                Ok(ps) => Ok(ExprModel::LAMBDA(ps, vs.drop_first())),
            },
            _ => Err(EvalError::MalformedForm),
        }
    }
}

/// Build a lambda from a `(lambda [params...] body...)` form's arguments.
#[verifier::loop_isolation(false)]
pub fn lambda_placeholder(exprs: Vec<SExpr>) -> (r: Result<SExpr, EvalError>)
    ensures
        res_model(r) == spec_lambda_placeholder(models_of(&exprs)),
{
    proof {
        SExpr::lemma_exprs_models(&exprs, exprs@.len() as nat);
    }
    let ghost vs = models_of(&exprs);
    if exprs.len() == 0 {
        return Err(EvalError::ArityMismatch);
    }
    let mut exprs = exprs;
    let params = exprs.remove(0);
    proof {
        SExpr::lemma_exprs_models(&exprs, exprs@.len() as nat);
        assert(models_of(&exprs) =~= vs.drop_first());
    }
    let symbols = match params {
        SExpr::Vec(symbols) => symbols,
        _ => {
            return Err(EvalError::MalformedForm);
        },
    };
    proof {
        SExpr::lemma_exprs_models(&symbols, symbols@.len() as nat);
    }
    let ghost sm = models_of(&symbols);
    let mut list: Vec<SExpr> = Vec::new();
    let mut i: usize = 0;
    proof {
        assert(models_of(&list) + (match spec_intern_params(sm, 0) {
            Ok(rest) => rest,
            Err(_) => Seq::empty(),
        }) =~= (match spec_intern_params(sm, 0) {
            Ok(rest) => rest,
            Err(_) => Seq::empty(),
        }));
    }
    while i < symbols.len()
        invariant
            i <= symbols@.len(),
            spec_intern_params(sm, 0) == (match spec_intern_params(sm, i as int) {
                Ok(rest) => Ok::<Seq<ExprModel>, EvalError>(models_of(&list) + rest),
                Err(e) => Err::<Seq<ExprModel>, EvalError>(e),
            }),
            models_of(&list).len() == i,
        decreases symbols@.len() - i,
    {
        let interned = match &symbols[i] {
            SExpr::Symbol(name) => {
                let id = key_hash(name.as_str());
                SExpr::ISymbol(id, name.clone())
            },
            SExpr::ISymbol(id, name) => SExpr::ISymbol(*id, name.clone()),
            _ => {
                return Err(EvalError::MalformedForm);
            },
        };
        proof {
            SExpr::lemma_exprs_models(&list, list@.len() as nat);
        }
        let ghost old_list = models_of(&list);
        list.push(interned);
        proof {
            SExpr::lemma_exprs_models(&list, list@.len() as nat);
            assert(models_of(&list) =~= old_list.push(list@[list@.len() - 1].model()));
            match spec_intern_params(sm, i + 1) {
                Ok(rest2) => {
                    assert(models_of(&list) + rest2 =~= old_list + (seq![
                        models_of(&list)[i as int],
                    ] + rest2));
                },
                Err(_) => {},
            }
        }
        i = i + 1;
    }
    let r = SExpr::LAMBDA(list, exprs);
    proof {
        assert(r@ matches ExprModel::LAMBDA(ps, body) && ps =~= models_of(&r->LAMBDA_0) && body
            =~= models_of(&r->LAMBDA_1));
        match spec_intern_params(sm, symbols@.len() as int) {
            Ok(tail) => {
                assert(models_of(&r->LAMBDA_0) + tail =~= models_of(&r->LAMBDA_0));
            },
            Err(_) => {},
        }
    }
    Ok(r)
}

/// Apply a lambda: bind each parameter to its already-evaluated argument in
/// declaration order, evaluate the body keeping the last result, and unbind
/// every parameter, on the success path and on every error path alike. An
/// arity mismatch between parameters and arguments is a hard error. The
/// environment keeps every binding depth it started with.
#[verifier::loop_isolation(false)]
pub fn eval_lambda(lambda_expr: &SExpr, params: Vec<SExpr>, env: &mut Envorinment, fuel: u64) -> (r:
    Result<SExpr, EvalError>)
    ensures
        env_le(old(env)@, final(env)@),
        (res_model(r), final(env)@) == spec_eval_lambda(
            lambda_expr@,
            models_of(&params),
            old(env)@,
            fuel as nat,
        ),
    decreases fuel,
{
    proof {
        SExpr::lemma_exprs_models(&params, params@.len() as nat);
    }
    let ghost pm = models_of(&params);
    if fuel == 0 {
        return Err(EvalError::DepthExceeded);
    }
    let (params_list, body) = match lambda_expr {
        SExpr::LAMBDA(ps, body) => (ps, body),
        _ => {
            return Err(EvalError::NotCallable);
        },
    };
    proof {
        SExpr::lemma_exprs_models(params_list, params_list@.len() as nat);
        SExpr::lemma_exprs_models(body, body@.len() as nat);
    }
    let ghost plm = models_of(params_list);
    let ghost bm = models_of(body);
    if params.len() != params_list.len() {
        return Err(EvalError::ArityMismatch);
    }
    let mut ids: Vec<u64> = Vec::new();
    let mut i: usize = 0;
    proof {
        assert(ids@ =~= Seq::<u64>::empty());
    }
    while i < params_list.len()
        invariant
            i <= params_list@.len(),
            ids@.len() == i,
            ids_of_from(plm, 0, Seq::empty()) == ids_of_from(plm, i as int, ids@),
        decreases params_list@.len() - i,
    {
        match &params_list[i] {
            SExpr::ISymbol(id, _) => {
                proof {
                    assert(plm[i as int] is ISymbol);
                }
                ids.push(*id);
            },
            _ => {
                proof {
                    assert(!(plm[i as int] is ISymbol));
                    assert(ids_of_from(plm, 0, Seq::empty()) is None);
                }
                return Err(EvalError::MalformedForm);
            },
        }
        i = i + 1;
    }
    let ghost env0 = env@;
    let mut params = params;
    let mut bound: Vec<u64> = Vec::new();
    let mut p: usize = 0;
    proof {
        assert(count_in(bound@, 0u64) == 0);
        assert(bound@ =~= Seq::<u64>::empty());
    }
    while p < ids.len()
        invariant
            p <= ids@.len(),
            ids@.len() == params@.len(),
            models_of(&params) == pm,
            forall|id: u64| env_depth(env0, id) + count_in(bound@, id) <= env_depth(env@, id),
            bound@ == ids@.subrange(0, p as int),
            env_bind_seq(env0, ids@, pm, 0) == env_bind_seq(env@, ids@, pm, p as int),
        decreases ids@.len() - p,
    {
        let id = ids[p];
        let arg = params[p].duplicate();
        let ghost vm = arg@;
        let ghost pre_bind = env@;
        let ghost prev_bound = bound@;
        proof {
            assert(vm == pm[p as int]);
        }
        bind(env, id, arg);
        bound.push(id);
        proof {
            assert(bound@ =~= ids@.subrange(0, p + 1));
            assert forall|other: u64|
                env_depth(env0, other) + count_in(bound@, other) <= env_depth(env@, other) by {
                assert(bound@.drop_last() =~= prev_bound);
                if other == id {
                    lemma_env_bind(pre_bind, id, vm);
                    assert(count_in(bound@, other) == count_in(prev_bound, other) + 1);
                } else {
                    lemma_env_bind_other(pre_bind, id, vm, other);
                    assert(count_in(bound@, other) == count_in(prev_bound, other));
                }
            }
        }
        p = p + 1;
    }
    proof {
        assert(bound@ =~= ids@);
    }
    let mut last_result = SExpr::Value(Value::null());
    let mut b: usize = 0;
    proof {
        assert(last_result@ == null_expr());
    }
    while b < body.len()
        invariant
            b <= body@.len(),
            forall|id: u64| env_depth(env0, id) + count_in(bound@, id) <= env_depth(env@, id),
            fuel >= 1,
            bound@ == ids@,
            spec_eval_lambda(lambda_expr@, pm, env0, fuel as nat) == spec_eval_body(
                bm,
                b as int,
                last_result@,
                bound@,
                env@,
                fuel as nat,
            ),
        decreases body@.len() - b,
    {
        let ghost pre_eval = env@;
        match body[b].duplicate().eval(env, fuel - 1) {
            Ok(v) => {
                last_result = v;
            },
            Err(e) => {
                proof {
                    crate::expr::symbols::bindings::lemma_count_le_depth_still(env0, pre_eval, env@, bound@);
                }
                lambda_unbind_le(env, &bound, Ghost(env0));
                return Err(e);
            },
        }
        proof {
            crate::expr::symbols::bindings::lemma_count_le_depth_still(env0, pre_eval, env@, bound@);
        }
        b = b + 1;
    }
    lambda_unbind_le(env, &bound, Ghost(env0));
    Ok(last_result)
}

/// Unbind every bound parameter and conclude no depth fell below where it
/// started.
fn lambda_unbind_le(env: &mut Envorinment, ids: &Vec<u64>, Ghost(env0): Ghost<
    crate::expr::interpreter::EnvModel,
>)
    requires
        forall|id: u64| env_depth(env0, id) + count_in(ids@, id) <= env_depth(old(env)@, id),
    ensures
        env_le(env0, final(env)@),
        final(env)@ == env_unbind_seq(old(env)@, ids@, 0),
{
    proof {
        assert forall|id: u64| count_in(ids@, id) <= env_depth(env@, id) by {
            assert(env_depth(env0, id) + count_in(ids@, id) <= env_depth(env@, id));
        }
    }
    unbind_all(env, ids);
    proof {
        assert forall|id: u64| env_depth(env0, id) <= env_depth(env@, id) by {
            assert(env_depth(env@, id) == env_depth(old(env)@, id) - count_in(ids@, id));
        }
    }
}

} // verus!
