//! The binding forms: `let` with its symmetric bind/unbind discipline, and
//! the global `def`.

use vstd::prelude::*;
use crate::hashing::key_hash;
use crate::expr::ast::{SExpr, Value, ExprModel, res_model, models_of};
use crate::expr::error::EvalError;
use crate::expr::interpreter::{
    Envorinment, env_le, env_depth, env_bind, env_unbind, lemma_env_bind, lemma_env_bind_other,
    lemma_env_unbind, lemma_env_unbind_other, lemma_env_le_trans,
};
use crate::expr::semantics::{
    spec_let, spec_let_bind, spec_eval_body, spec_define, sym_id, env_unbind_seq, null_expr,
};

pub use crate::expr::interpreter::{bind, unbind, bind_by_name};

verus! {

/// How often an id occurs in a list of bound ids.
pub open spec fn count_in(ids: Seq<u64>, id: u64) -> nat
    decreases ids.len(),
{
    if ids.len() == 0 {
        0
    } else {
        count_in(ids.drop_last(), id) + (if ids.last() == id {
            1nat
        } else {
            0nat
        })
    }
}

/// Pop one binding for each id in the list, in order. Each id's depth drops
/// by exactly its multiplicity in the list, provided the depths cover the
/// multiplicities; no other id is touched.
#[verifier::loop_isolation(false)]
pub fn unbind_all(env: &mut Envorinment, ids: &Vec<u64>)
    requires
        forall|id: u64| count_in(ids@, id) <= env_depth(old(env)@, id),
    ensures
        forall|id: u64|
            env_depth(final(env)@, id) == env_depth(old(env)@, id) - count_in(ids@, id),
        final(env)@ == env_unbind_seq(old(env)@, ids@, 0),
{
    let mut i: usize = 0;
    proof {
        assert forall|id: u64| count_in(ids@.subrange(0, 0), id) == 0 by {
            assert(ids@.subrange(0, 0) =~= Seq::<u64>::empty());
        }
    }
    while i < ids.len()
        invariant
            i <= ids@.len(),
            forall|id: u64|
                env_depth(env@, id) == env_depth(old(env)@, id) - count_in(
                    ids@.subrange(0, i as int),
                    id,
                ),
            env_unbind_seq(old(env)@, ids@, 0) == env_unbind_seq(env@, ids@, i as int),
        decreases ids@.len() - i,
    {
        let ghost pre = env@;
        let id = ids[i];
        proof {
            lemma_count_in_prefix(ids@, i as int);
            lemma_count_in_le(ids@, i + 1);
            assert(count_in(ids@.subrange(0, i + 1), id) == count_in(ids@.subrange(0, i as int), id)
                + 1);
            assert(count_in(ids@.subrange(0, i + 1), id) <= count_in(ids@, id));
            assert(env_depth(pre, id) > 0);
        }
        unbind(env, id);
        proof {
            lemma_env_unbind(pre, id);
            assert forall|other: u64|
                env_depth(env@, other) == env_depth(old(env)@, other) - count_in(
                    ids@.subrange(0, i + 1),
                    other,
                ) by {
                lemma_count_in_prefix(ids@, i as int);
                if other != id {
                    lemma_env_unbind_other(pre, id, other);
                    assert(count_in(ids@.subrange(0, i + 1), other) == count_in(
                        ids@.subrange(0, i as int),
                        other,
                    ));
                }
            }
        }
        i = i + 1;
    }
    proof {
        assert(ids@.subrange(0, ids@.len() as int) =~= ids@);
    }
}

/// Splitting off the last element of a prefix splits its count.
proof fn lemma_count_in_prefix(ids: Seq<u64>, i: int)
    requires
        0 <= i < ids.len(),
    ensures
        forall|id: u64|
            count_in(ids.subrange(0, i + 1), id) == count_in(ids.subrange(0, i), id) + (if ids[i]
                == id {
                1nat
            } else {
                0nat
            }),
{
    assert forall|id: u64|
        count_in(ids.subrange(0, i + 1), id) == count_in(ids.subrange(0, i), id) + (if ids[i]
            == id {
            1nat
        } else {
            0nat
        }) by {
        let p = ids.subrange(0, i + 1);
        assert(p.drop_last() =~= ids.subrange(0, i));
        assert(p.last() == ids[i]);
    }
}

/// A prefix never counts an id more often than the whole list.
proof fn lemma_count_in_le(ids: Seq<u64>, i: int)
    requires
        0 <= i <= ids.len(),
    ensures
        forall|id: u64| #[trigger] count_in(ids.subrange(0, i), id) <= count_in(ids, id),
    decreases ids.len() - i,
{
    if i < ids.len() {
        lemma_count_in_prefix(ids, i);
        lemma_count_in_le(ids, i + 1);
        assert forall|id: u64| #[trigger] count_in(ids.subrange(0, i), id) <= count_in(
            ids,
            id,
        ) by {
            assert(count_in(ids.subrange(0, i), id) <= count_in(ids.subrange(0, i + 1), id));
            assert(count_in(ids.subrange(0, i + 1), id) <= count_in(ids, id));
        }
    } else {
        assert(ids.subrange(0, i) =~= ids);
    }
}

/// Evaluate a `(let [sym val ...] body...)` form: bind every symbol of the
/// binding vector, evaluate the body, and unbind exactly the symbols bound,
/// on the success path and on every error path alike. The environment keeps
/// every binding depth it started with.
#[verifier::loop_isolation(false)]
pub fn let_binding(env: &mut Envorinment, exprs: Vec<SExpr>, fuel: u64) -> (r: Result<
    SExpr,
    EvalError,
>)
    ensures
        env_le(old(env)@, final(env)@),
        (res_model(r), final(env)@) == spec_let(models_of(&exprs), old(env)@, fuel as nat),
    decreases fuel,
{
    proof {
        SExpr::lemma_exprs_models(&exprs, exprs@.len() as nat);
    }
    let ghost vs = models_of(&exprs);
    if fuel == 0 {
        return Err(EvalError::DepthExceeded);
    }
    if exprs.len() < 2 {
        return Err(EvalError::ArityMismatch);
    }
    let ghost env0 = env@;
    let mut exprs = exprs;
    let form_expr = exprs.remove(0);
    proof {
        SExpr::lemma_exprs_models(&exprs, exprs@.len() as nat);
        assert(models_of(&exprs) =~= vs.drop_first());
    }
    let ghost body = vs.drop_first();
    let form = match form_expr {
        SExpr::Vec(vec) => vec,
        _ => {
            return Err(EvalError::MalformedForm);
        },
    };
    proof {
        SExpr::lemma_exprs_models(&form, form@.len() as nat);
    }
    let ghost fm = models_of(&form);
    if form.len() % 2 == 1 {
        return Err(EvalError::MalformedForm);
    }
    let mut bound_ids: Vec<u64> = Vec::new();
    let mut k: usize = 0;
    proof {
        assert(count_in(bound_ids@, 0u64) == 0);
        assert(bound_ids@ =~= Seq::<u64>::empty());
    }
    while k < form.len()
        invariant
            k <= form@.len(),
            k % 2 == 0,
            form@.len() % 2 == 0,
            forall|id: u64|
                env_depth(env0, id) + count_in(bound_ids@, id) <= env_depth(env@, id),
            fuel >= 1,
            spec_let(vs, env0, fuel as nat) == spec_let_bind(
                fm,
                k as int,
                bound_ids@,
                body,
                env@,
                fuel as nat,
            ),
        decreases form@.len() - k,
    {
        proof {
            assert(k + 1 < form@.len());
        }
        let symbol_id: u64 = match &form[k] {
            SExpr::Symbol(s) => key_hash(s.as_str()),
            SExpr::ISymbol(id, _) => *id,
            _ => {
                unbind_all_le(env, &bound_ids, Ghost(env0));
                return Err(EvalError::MalformedForm);
            },
        };
        proof {
            assert(sym_id(fm[k as int]) == Some(symbol_id));
        }
        let val_expr = form[k + 1].duplicate();
        let ghost pre_eval = env@;
        let val = match val_expr.eval(env, fuel - 1) {
            Ok(v) => v,
            Err(e) => {
                proof {
                    lemma_count_le_depth_still(env0, pre_eval, env@, bound_ids@);
                }
                unbind_all_le(env, &bound_ids, Ghost(env0));
                return Err(e);
            },
        };
        let ghost vm = val@;
        let ghost pre_bind = env@;
        let ghost prev_bound = bound_ids@;
        proof {
            lemma_count_le_depth_still(env0, pre_eval, pre_bind, prev_bound);
        }
        bind(env, symbol_id, val);
        bound_ids.push(symbol_id);
        proof {
            assert forall|id: u64|
                env_depth(env0, id) + count_in(bound_ids@, id) <= env_depth(env@, id) by {
                assert(bound_ids@.drop_last() =~= prev_bound);
                assert(bound_ids@.last() == symbol_id);
                if id == symbol_id {
                    lemma_env_bind(pre_bind, symbol_id, vm);
                    assert(count_in(bound_ids@, id) == count_in(prev_bound, id) + 1);
                } else {
                    lemma_env_bind_other(pre_bind, symbol_id, vm, id);
                    assert(count_in(bound_ids@, id) == count_in(prev_bound, id));
                }
            }
        }
        k = k + 2;
    }
    let mut body_result = SExpr::Value(Value::null());
    let mut b: usize = 0;
    proof {
        assert(body_result@ == null_expr());
    }
    while b < exprs.len()
        invariant
            b <= exprs@.len(),
            forall|id: u64|
                env_depth(env0, id) + count_in(bound_ids@, id) <= env_depth(env@, id),
            fuel >= 1,
            spec_let(vs, env0, fuel as nat) == spec_eval_body(
                body,
                b as int,
                body_result@,
                bound_ids@,
                env@,
                fuel as nat,
            ),
            body == models_of(&exprs),
        decreases exprs@.len() - b,
    {
        let ghost pre_eval = env@;
        match exprs[b].duplicate().eval(env, fuel - 1) {
            Ok(v) => {
                body_result = v;
            },
            Err(e) => {
                proof {
                    lemma_count_le_depth_still(env0, pre_eval, env@, bound_ids@);
                }
                unbind_all_le(env, &bound_ids, Ghost(env0));
                return Err(e);
            },
        }
        proof {
            lemma_count_le_depth_still(env0, pre_eval, env@, bound_ids@);
        }
        b = b + 1;
    }
    unbind_all_le(env, &bound_ids, Ghost(env0));
    Ok(body_result)
}

/// Depth lower bounds survive an evaluation step, which never shrinks any
/// stack.
pub(crate) proof fn lemma_count_le_depth_still(env0: crate::expr::interpreter::EnvModel, a: crate::expr::interpreter::EnvModel, b: crate::expr::interpreter::EnvModel, ids: Seq<u64>)
    requires
        forall|id: u64| env_depth(env0, id) + count_in(ids, id) <= env_depth(a, id),
        env_le(a, b),
    ensures
        forall|id: u64| env_depth(env0, id) + count_in(ids, id) <= env_depth(b, id),
{
    assert forall|id: u64| env_depth(env0, id) + count_in(ids, id) <= env_depth(b, id) by {
        assert(env_depth(a, id) <= env_depth(b, id));
    }
}

/// Unbind every bound id and conclude that no depth fell below where it
/// started.
fn unbind_all_le(env: &mut Envorinment, ids: &Vec<u64>, Ghost(env0): Ghost<
    crate::expr::interpreter::EnvModel,
>)
    requires
        forall|id: u64| env_depth(env0, id) + count_in(ids@, id) <= env_depth(old(env)@, id),
    ensures
        env_le(env0, final(env)@),
        final(env)@ == env_unbind_seq(old(env)@, ids@, 0),
{
    proof {
        assert forall|id: u64| count_in(ids@, id) <= env_depth(env@, id) by {
            assert(env_depth(env0, id) + count_in(ids@, id) <= env_depth(env@, id));
        }
    }
    unbind_all(env, ids);
    proof {
        assert forall|id: u64| env_depth(env0, id) <= env_depth(env@, id) by {
            assert(env_depth(env@, id) == env_depth(old(env)@, id) - count_in(ids@, id));
        }
    }
}

/// Evaluate a `(def name value)` form: evaluate the value and push it as a
/// global binding for the name.
pub fn define(env: &mut Envorinment, exprs: Vec<SExpr>, fuel: u64) -> (r: Result<SExpr, EvalError>)
    ensures
        env_le(old(env)@, final(env)@),
        (res_model(r), final(env)@) == spec_define(models_of(&exprs), old(env)@, fuel as nat),
    decreases fuel,
{
    proof {
        SExpr::lemma_exprs_models(&exprs, exprs@.len() as nat);
    }
    let ghost vs = models_of(&exprs);
    if fuel == 0 {
        return Err(EvalError::DepthExceeded);
    }
    if exprs.len() < 2 {
        return Err(EvalError::ArityMismatch);
    }
    let mut exprs = exprs;
    let name = exprs.remove(0);
    let val_expr = exprs.remove(0);
    proof {
        assert(name@ == vs[0]);
        assert(val_expr@ == vs[1]);
    }
    let ghost env0 = env@;
    let val = match val_expr.eval(env, fuel - 1) {
        Ok(v) => v,
        Err(e) => {
            return Err(e);
        },
    };
    let ghost env1 = env@;
    let id: u64 = match &name {
        SExpr::Symbol(s) => key_hash(s.as_str()),
        SExpr::ISymbol(i, _) => *i,
        _ => {
            return Err(EvalError::MalformedForm);
        },
    };
    let ghost vm = val@;
    bind(env, id, val);
    proof {
        lemma_env_bind(env1, id, vm);
        assert forall|other: u64| env_depth(env1, other) <= env_depth(env@, other) by {
            if other != id {
                lemma_env_bind_other(env1, id, vm, other);
            }
        }
        lemma_env_le_trans(env0, env1, env@);
    }
    Ok(SExpr::Value(Value::null()))
}

} // verus!
