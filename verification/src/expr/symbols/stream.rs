//! Stream operations: conversion between literal vectors and arrays, and
//! mapping or filtering a function over a sequence.

use vstd::prelude::*;
use crate::types::model::ValModel;
use crate::types::owned::OwnedValue;
use crate::types::shared::SharedValue;
use crate::expr::ast::{SExpr, Value, ExprModel, ValueModel, res_model, models_of};
use crate::expr::error::EvalError;
use crate::expr::interpreter::{Envorinment, env_le, lemma_env_le_trans};
use crate::expr::semantics::{spec_map, spec_map_from, spec_filter, spec_filter_from};
use crate::expr::symbols::functions::eval_function;
use crate::expr::symbols::utils::is_true;

verus! {

/// What `to_vec` returns: an array value unpacked into a literal vector of
/// its elements, each keeping the array's representation; a vector passes
/// through.
pub open spec fn spec_to_vec(e: ExprModel) -> Result<ExprModel, EvalError> {
    match e {
        ExprModel::Value(ValueModel::Owned(ValModel::Array(elems))) => Ok(
            ExprModel::Vec(
                Seq::new(elems.len(), |i: int| ExprModel::Value(ValueModel::Owned(elems[i]))),
            ),
        ),
        ExprModel::Value(ValueModel::Shared(ValModel::Array(elems))) => Ok(
            ExprModel::Vec(
                Seq::new(elems.len(), |i: int| ExprModel::Value(ValueModel::Shared(elems[i]))),
            ),
        ),
        ExprModel::Vec(_) => Ok(e),
        _ => Err(EvalError::TypeMismatch),
    }
}

/// Unpack an array value into a literal vector; a vector passes through.
#[verifier::loop_isolation(false)]
pub fn to_vec(expr: SExpr) -> (r: Result<SExpr, EvalError>)
    ensures
        res_model(r) == spec_to_vec(expr@),
{
    match expr {
        SExpr::Value(Value::Owned(OwnedValue::Array(arr))) => {
            proof {
                OwnedValue::lemma_elem_models(&arr, arr@.len() as nat);
            }
            let mut out: Vec<SExpr> = Vec::new();
            let mut i: usize = 0;
            while i < arr.len()
                invariant
                    i <= arr@.len(),
                    out@.len() == i,
                    forall|j: int|
                        0 <= j < i ==> #[trigger] out@[j].model() == ExprModel::Value(
                            ValueModel::Owned(arr@[j].model()),
                        ),
                decreases arr@.len() - i,
            {
                let d = arr[i].duplicate();
                out.push(SExpr::owned_value(d));
                i = i + 1;
            }
            let r = SExpr::Vec(out);
            proof {
                SExpr::lemma_exprs_models(&r->Vec_0, r->Vec_0@.len() as nat);
                assert(r@->Vec_0 =~= spec_to_vec(ExprModel::Value(
                    ValueModel::Owned(ValModel::Array(OwnedValue::elem_models(
                        &arr,
                        arr@.len() as nat,
                    ))),
                ))->Ok_0->Vec_0);
            }
            Ok(r)
        },
        SExpr::Value(Value::Shared(SharedValue::Array(arr))) => {
            proof {
                SharedValue::lemma_elem_models(&arr, arr@.len() as nat);
            }
            let mut out: Vec<SExpr> = Vec::new();
            let mut i: usize = 0;
            while i < arr.len()
                invariant
                    i <= arr@.len(),
                    out@.len() == i,
                    forall|j: int|
                        0 <= j < i ==> #[trigger] out@[j].model() == ExprModel::Value(
                            ValueModel::Shared(arr@[j].model()),
                        ),
                decreases arr@.len() - i,
            {
                let d = arr[i].duplicate();
                out.push(SExpr::shared_value(d));
                i = i + 1;
            }
            let r = SExpr::Vec(out);
            proof {
                SExpr::lemma_exprs_models(&r->Vec_0, r->Vec_0@.len() as nat);
                assert(r@->Vec_0 =~= spec_to_vec(ExprModel::Value(
                    ValueModel::Shared(ValModel::Array(SharedValue::elem_models(
                        &arr,
                        arr@.len() as nat,
                    ))),
                ))->Ok_0->Vec_0);
            }
            Ok(r)
        },
        SExpr::Vec(v) => Ok(SExpr::Vec(v)),
        _ => Err(EvalError::TypeMismatch),
    }
}

/// What `to_array` returns: a literal vector of value literals packed into
/// a shared array of their payloads; an array value passes through.
pub open spec fn spec_to_array(e: ExprModel) -> Result<ExprModel, EvalError> {
    match e {
        ExprModel::Vec(es) => if forall|i: int| 0 <= i < es.len() ==> (#[trigger] es[i]) is Value {
            Ok(
                ExprModel::Value(
                    ValueModel::Shared(
                        ValModel::Array(Seq::new(es.len(), |i: int| es[i]->Value_0.payload())),
                    ),
                ),
            )
        } else {
            Err(EvalError::TypeMismatch)
        },
        ExprModel::Value(ValueModel::Owned(ValModel::Array(_))) => Ok(e),
        ExprModel::Value(ValueModel::Shared(ValModel::Array(_))) => Ok(e),
        _ => Err(EvalError::TypeMismatch),
    }
}

/// Pack a literal vector of values into a shared array; an array value
/// passes through.
#[verifier::loop_isolation(false)]
pub fn to_array(expr: SExpr) -> (r: Result<SExpr, EvalError>)
    ensures
        res_model(r) == spec_to_array(expr@),
{
    match expr {
        SExpr::Vec(es) => {
            proof {
                SExpr::lemma_exprs_models(&es, es@.len() as nat);
            }
            let ghost ms = models_of(&es);
            let mut out: Vec<SharedValue> = Vec::new();
            let mut i: usize = 0;
            while i < es.len()
                invariant
                    i <= es@.len(),
                    out@.len() == i,
                    forall|j: int| 0 <= j < i ==> (#[trigger] ms[j]) is Value,
                    forall|j: int|
                        0 <= j < i ==> #[trigger] out@[j].model() == ms[j]->Value_0.payload(),
                decreases es@.len() - i,
            {
                match &es[i] {
                    SExpr::Value(v) => {
                        let n = v.norm();
                        out.push(n);
                    },
                    _ => {
                        proof {
                            assert(!(ms[i as int] is Value));
                        }
                        return Err(EvalError::TypeMismatch);
                    },
                }
                i = i + 1;
            }
            let arrv = SharedValue::Array(out);
            proof {
                SharedValue::lemma_elem_models(&arrv->Array_0, arrv->Array_0@.len() as nat);
                assert(arrv@->Array_0 =~= Seq::new(ms.len(), |i: int| ms[i]->Value_0.payload()));
            }
            let r = SExpr::shared_value(arrv);
            Ok(r)
        },
        SExpr::Value(Value::Owned(OwnedValue::Array(arr))) => Ok(
            SExpr::Value(Value::Owned(OwnedValue::Array(arr))),
        ),
        SExpr::Value(Value::Shared(SharedValue::Array(arr))) => Ok(
            SExpr::Value(Value::Shared(SharedValue::Array(arr))),
        ),
        _ => Err(EvalError::TypeMismatch),
    }
}

/// `(map f data)`: apply the function to each element of the sequence in
/// order, collecting the results into a literal vector.
#[verifier::loop_isolation(false)]
pub fn map(func: SExpr, data: SExpr, env: &mut Envorinment, fuel: u64) -> (r: Result<
    SExpr,
    EvalError,
>)
    ensures
        env_le(old(env)@, final(env)@),
        (res_model(r), final(env)@) == spec_map(func@, data@, old(env)@, fuel as nat),
    decreases fuel,
{
    if fuel == 0 {
        return Err(EvalError::DepthExceeded);
    }
    let expr_list = match to_vec(data) {
        Ok(SExpr::Vec(list)) => list,
        Ok(_) => {
            return Err(EvalError::TypeMismatch);
        },
        Err(e) => {
            return Err(e);
        },
    };
    proof {
        SExpr::lemma_exprs_models(&expr_list, expr_list@.len() as nat);
    }
    let ghost lm = models_of(&expr_list);
    let ghost env0 = env@;
    let mut result: Vec<SExpr> = Vec::new();
    let mut i: usize = 0;
    proof {
        assert(models_of(&result) =~= Seq::<ExprModel>::empty());
    }
    while i < expr_list.len()
        invariant
            i <= expr_list@.len(),
            env_le(env0, env@),
            fuel >= 1,
            spec_map_from(func@, lm, i as int, models_of(&result), env@, fuel as nat)
                == spec_map_from(func@, lm, 0, Seq::empty(), env0, fuel as nat),
        decreases expr_list@.len() - i,
    {
        let ghost pre = env@;
        let ghost acc = models_of(&result);
        let evaled = match expr_list[i].duplicate().eval(env, fuel - 1) {
            Ok(v) => v,
            Err(e) => {
                proof {
                    lemma_env_le_trans(env0, pre, env@);
                }
                return Err(e);
            },
        };
        let ghost vm = evaled@;
        let mut args: Vec<SExpr> = Vec::new();
        args.push(evaled);
        proof {
            SExpr::lemma_exprs_models(&args, args@.len() as nat);
            assert(models_of(&args) =~= seq![vm]);
        }
        let ghost mid = env@;
        match eval_function(&func, args, env, fuel - 1) {
            Ok(v) => {
                let ghost rm = v@;
                proof {
                    SExpr::lemma_exprs_models(&result, result@.len() as nat);
                }
                result.push(v);
                proof {
                    SExpr::lemma_exprs_models(&result, result@.len() as nat);
                    assert(models_of(&result) =~= acc.push(rm));
                }
            },
            Err(e) => {
                proof {
                    lemma_env_le_trans(env0, pre, mid);
                    lemma_env_le_trans(env0, mid, env@);
                }
                return Err(e);
            },
        }
        proof {
            lemma_env_le_trans(env0, pre, mid);
            lemma_env_le_trans(env0, mid, env@);
        }
        i = i + 1;
    }
    Ok(SExpr::Vec(result))
}

/// `(filter f data)`: keep the elements of the sequence the predicate
/// holds for, in order, as a literal vector.
#[verifier::loop_isolation(false)]
pub fn filter(func: SExpr, data: SExpr, env: &mut Envorinment, fuel: u64) -> (r: Result<
    SExpr,
    EvalError,
>)
    ensures
        env_le(old(env)@, final(env)@),
        (res_model(r), final(env)@) == spec_filter(func@, data@, old(env)@, fuel as nat),
    decreases fuel,
{
    if fuel == 0 {
        return Err(EvalError::DepthExceeded);
    }
    let expr_list = match to_vec(data) {
        Ok(SExpr::Vec(list)) => list,
        Ok(_) => {
            return Err(EvalError::TypeMismatch);
        },
        Err(e) => {
            return Err(e);
        },
    };
    proof {
        SExpr::lemma_exprs_models(&expr_list, expr_list@.len() as nat);
    }
    let ghost lm = models_of(&expr_list);
    let ghost env0 = env@;
    let mut result: Vec<SExpr> = Vec::new();
    let mut i: usize = 0;
    proof {
        assert(models_of(&result) =~= Seq::<ExprModel>::empty());
    }
    while i < expr_list.len()
        invariant
            i <= expr_list@.len(),
            env_le(env0, env@),
            fuel >= 1,
            spec_filter_from(func@, lm, i as int, models_of(&result), env@, fuel as nat)
                == spec_filter_from(func@, lm, 0, Seq::empty(), env0, fuel as nat),
        decreases expr_list@.len() - i,
    {
        let ghost pre = env@;
        let ghost acc = models_of(&result);
        let evaled = match expr_list[i].duplicate().eval(env, fuel - 1) {
            Ok(v) => v,
            Err(e) => {
                proof {
                    lemma_env_le_trans(env0, pre, env@);
                }
                return Err(e);
            },
        };
        let ghost vm = evaled@;
        let mut args: Vec<SExpr> = Vec::new();
        args.push(evaled.duplicate());
        proof {
            SExpr::lemma_exprs_models(&args, args@.len() as nat);
            assert(models_of(&args) =~= seq![vm]);
        }
        let ghost mid = env@;
        match eval_function(&func, args, env, fuel - 1) {
            Ok(v) => {
                if is_true(&v) {
                    proof {
                        SExpr::lemma_exprs_models(&result, result@.len() as nat);
                    }
                    result.push(evaled);
                    proof {
                        SExpr::lemma_exprs_models(&result, result@.len() as nat);
                        assert(models_of(&result) =~= acc.push(vm));
                    }
                }
            },
            Err(e) => {
                proof {
                    lemma_env_le_trans(env0, pre, mid);
                    lemma_env_le_trans(env0, mid, env@);
                }
                return Err(e);
            },
        }
        proof {
            lemma_env_le_trans(env0, pre, mid);
            lemma_env_le_trans(env0, mid, env@);
        }
        i = i + 1;
    }
    Ok(SExpr::Vec(result))
}

} // verus!
