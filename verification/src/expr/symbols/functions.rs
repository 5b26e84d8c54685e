//! The dispatch protocol: evaluate the head of a call form, resolve it
//! against the environment first and the builtin table second, pass macro
//! arguments unevaluated and function arguments evaluated, and treat a
//! literal value in head position as sugared indexing.

use vstd::prelude::*;
use crate::hashing::{key_hash, key_hash_of};
use crate::types::model::ValModel;
use crate::types::shared::SharedValue;
use crate::expr::ast::{SExpr, Value, ExprModel, ValueModel, res_model, res_seq_model, models_of};
use crate::expr::error::EvalError;
use crate::expr::interpreter::{Envorinment, env_top, env_le, lemma_env_le_trans};
use crate::expr::semantics::{
    spec_eval, spec_eval_function, spec_eval_symbol_call, spec_eval_params,
    spec_eval_params_from, spec_dispatch_builtin, spec_defn,
};
use crate::expr::symbols::{
    Builtin, lookup_builtin, is_macro, check_num_params, check_params_not_empty,
    check_params_not_least_than, check_params_not_greater_than, split_pair,
};
use crate::expr::symbols::{
    arithmetic, bindings, branching, collections, comparators, lambda, logic, misc, num_types,
    stream,
};

verus! {

impl SExpr {
    /// Evaluate this expression. A list is a call form: its head is
    /// evaluated and applied to the rest. An interned symbol resolves to
    /// the binding in force, or stands for itself when unbound. Every other
    /// expression evaluates to itself. The environment never loses a
    /// binding depth it had: evaluation only pops bindings it pushed.
    pub fn eval(self, env: &mut Envorinment, fuel: u64) -> (r: Result<SExpr, EvalError>)
        ensures
            env_le(old(env)@, final(env)@),
            (res_model(r), final(env)@) == spec_eval(self@, old(env)@, fuel as nat),
            !(self@ is List) && !(self@ is ISymbol) ==> (final(env)@ == old(env)@ && (r matches Ok(
                e,
            ) && e@ == self@)),
            self@ matches ExprModel::ISymbol(id, _) ==> (final(env)@ == old(env)@ && (match
                env_top(old(env)@, id) {
                Some(b) => r matches Ok(e) && e@ == b,
                None => r matches Ok(e) && e@ == self@,
            })),
        decreases fuel,
    {
        match self {
            SExpr::List(exprs) => {
                if fuel == 0 {
                    return Err(EvalError::DepthExceeded);
                }
                proof {
                    SExpr::lemma_exprs_models(&exprs, exprs@.len() as nat);
                }
                let ghost ms = models_of(&exprs);
                if exprs.len() == 0 {
                    return Ok(SExpr::Value(Value::null()));
                }
                let mut exprs = exprs;
                let head = exprs.remove(0);
                proof {
                    SExpr::lemma_exprs_models(&exprs, exprs@.len() as nat);
                    assert(models_of(&exprs) =~= ms.drop_first());
                }
                let ghost env0 = env@;
                let func = match head.eval(env, fuel - 1) {
                    Ok(f) => f,
                    Err(e) => {
                        return Err(e);
                    },
                };
                let ghost env1 = env@;
                let r = eval_function(&func, exprs, env, fuel - 1);
                proof {
                    lemma_env_le_trans(env0, env1, env@);
                }
                r
            },
            SExpr::ISymbol(id, name) => {
                match env.lookup_top(id) {
                    Some(binding) => Ok(binding),
                    None => Ok(SExpr::ISymbol(id, name)),
                }
            },
            other => Ok(other),
        }
    }
}

/// Apply an evaluated head to its parameters: a symbol dispatches through
/// the environment and the builtin table, a lambda is applied, a literal
/// value indexes its argument.
pub fn eval_function(func_expr: &SExpr, params: Vec<SExpr>, env: &mut Envorinment, fuel: u64) -> (r:
    Result<SExpr, EvalError>)
    ensures
        env_le(old(env)@, final(env)@),
        (res_model(r), final(env)@) == spec_eval_function(
            func_expr@,
            models_of(&params),
            old(env)@,
            fuel as nat,
        ),
    decreases fuel,
{
    proof {
        SExpr::lemma_exprs_models(&params, params@.len() as nat);
    }
    if fuel == 0 {
        return Err(EvalError::DepthExceeded);
    }
    match func_expr {
        SExpr::ISymbol(id, _) => eval_symbol_call(*id, params, env, fuel - 1),
        SExpr::Symbol(name) => {
            let id = key_hash(name.as_str());
            eval_symbol_call(id, params, env, fuel - 1)
        },
        SExpr::LAMBDA(_, _) => lambda::eval_lambda(func_expr, params, env, fuel - 1),
        SExpr::Value(v) => eval_value(v, params),
        _ => Err(EvalError::NotCallable),
    }
}

/// Dispatch a call on a symbol id: a binding in the environment wins and is
/// applied as a lambda; otherwise the builtin table decides, with macro
/// arguments passed unevaluated and function arguments evaluated left to
/// right.
pub fn eval_symbol_call(id: u64, params: Vec<SExpr>, env: &mut Envorinment, fuel: u64) -> (r:
    Result<SExpr, EvalError>)
    ensures
        env_le(old(env)@, final(env)@),
        (res_model(r), final(env)@) == spec_eval_symbol_call(
            id,
            models_of(&params),
            old(env)@,
            fuel as nat,
        ),
    decreases fuel,
{
    proof {
        SExpr::lemma_exprs_models(&params, params@.len() as nat);
    }
    if fuel == 0 {
        return Err(EvalError::DepthExceeded);
    }
    match env.lookup_top(id) {
        Some(binding) => lambda::eval_lambda(&binding, params, env, fuel - 1),
        None => {
            match lookup_builtin(id) {
                None => Err(EvalError::UnknownSymbol),
                Some(b) => {
                    if is_macro(b) {
                        dispatch_builtin(b, params, env, fuel - 1)
                    } else {
                        let ghost env0 = env@;
                        let evaled = match eval_params(params, env, fuel - 1) {
                            Ok(v) => v,
                            Err(e) => {
                                return Err(e);
                            },
                        };
                        let ghost env1 = env@;
                        let r = dispatch_builtin(b, evaled, env, fuel - 1);
                        proof {
                            lemma_env_le_trans(env0, env1, env@);
                        }
                        r
                    }
                },
            }
        },
    }
}

/// Evaluate every parameter of a function call, left to right.
#[verifier::loop_isolation(false)]
pub fn eval_params(params: Vec<SExpr>, env: &mut Envorinment, fuel: u64) -> (r: Result<
    Vec<SExpr>,
    EvalError,
>)
    ensures
        env_le(old(env)@, final(env)@),
        (res_seq_model(r), final(env)@) == spec_eval_params(
            models_of(&params),
            old(env)@,
            fuel as nat,
        ),
    decreases fuel,
{
    proof {
        SExpr::lemma_exprs_models(&params, params@.len() as nat);
    }
    let ghost ms = models_of(&params);
    if fuel == 0 {
        return Err(EvalError::DepthExceeded);
    }
    let ghost env0 = env@;
    let mut out: Vec<SExpr> = Vec::new();
    let mut i: usize = 0;
    proof {
        assert(models_of(&out) =~= Seq::<ExprModel>::empty());
    }
    while i < params.len()
        invariant
            i <= params@.len(),
            env_le(env0, env@),
            fuel >= 1,
            spec_eval_params(ms, env0, fuel as nat) == spec_eval_params_from(
                ms,
                i as int,
                models_of(&out),
                env@,
                fuel as nat,
            ),
        decreases params@.len() - i,
    {
        let ghost pre = env@;
        let ghost acc = models_of(&out);
        match params[i].duplicate().eval(env, fuel - 1) {
            Ok(v) => {
                let ghost vm = v@;
                proof {
                    SExpr::lemma_exprs_models(&out, out@.len() as nat);
                }
                out.push(v);
                proof {
                    SExpr::lemma_exprs_models(&out, out@.len() as nat);
                    assert(models_of(&out) =~= acc.push(vm));
                }
            },
            Err(e) => {
                proof {
                    lemma_env_le_trans(env0, pre, env@);
                }
                return Err(e);
            },
        }
        proof {
            lemma_env_le_trans(env0, pre, env@);
        }
        i = i + 1;
    }
    Ok(out)
}

/// Hand a builtin its argument list, enforcing its arity rule first.
#[verifier::rlimit(60)]
pub fn dispatch_builtin(b: Builtin, exprs: Vec<SExpr>, env: &mut Envorinment, fuel: u64) -> (r:
    Result<SExpr, EvalError>)
    ensures
        env_le(old(env)@, final(env)@),
        (res_model(r), final(env)@) == spec_dispatch_builtin(
            b,
            models_of(&exprs),
            old(env)@,
            fuel as nat,
        ),
    decreases fuel,
{
    proof {
        SExpr::lemma_exprs_models(&exprs, exprs@.len() as nat);
    }
    if fuel == 0 {
        return Err(EvalError::DepthExceeded);
    }
    match b {
        Builtin::If => {
            if let Err(e) = check_params_not_least_than(2, &exprs) {
                return Err(e);
            }
            if let Err(e) = check_params_not_greater_than(3, &exprs) {
                return Err(e);
            }
            branching::if_(env, exprs, fuel - 1)
        },
        Builtin::IfNot => {
            if let Err(e) = check_params_not_least_than(2, &exprs) {
                return Err(e);
            }
            if let Err(e) = check_params_not_greater_than(3, &exprs) {
                return Err(e);
            }
            branching::if_not(env, exprs, fuel - 1)
        },
        Builtin::When => {
            if let Err(e) = check_num_params(2, &exprs) {
                return Err(e);
            }
            branching::when(env, exprs, fuel - 1)
        },
        Builtin::WhenNot => {
            if let Err(e) = check_num_params(2, &exprs) {
                return Err(e);
            }
            branching::when_not(env, exprs, fuel - 1)
        },
        Builtin::Let => bindings::let_binding(env, exprs, fuel - 1),
        Builtin::DefineFunc => {
            if let Err(e) = check_params_not_least_than(3, &exprs) {
                return Err(e);
            }
            defn(env, exprs, fuel - 1)
        },
        Builtin::Define => {
            if let Err(e) = check_num_params(2, &exprs) {
                return Err(e);
            }
            bindings::define(env, exprs, fuel - 1)
        },
        Builtin::MapStream => {
            if let Err(e) = check_num_params(2, &exprs) {
                return Err(e);
            }
            let (func, data) = split_pair(exprs);
            stream::map(func, data, env, fuel - 1)
        },
        Builtin::Filter => {
            if let Err(e) = check_num_params(2, &exprs) {
                return Err(e);
            }
            let (func, data) = split_pair(exprs);
            stream::filter(func, data, env, fuel - 1)
        },
        Builtin::Do => misc::do_(exprs, env, fuel - 1),
        Builtin::Or => logic::or(exprs, env, fuel - 1),
        Builtin::And => logic::and(exprs, env, fuel - 1),
        Builtin::Conditional => logic::cond(exprs, env, fuel - 1),
        other => dispatch_pure_builtin(other, exprs),
    }
}

/// Hand a builtin that never touches the environment its argument list,
/// enforcing its arity rule first: the comparison and arithmetic chains
/// here, the remaining operators behind `dispatch_value_builtin`.
#[verifier::rlimit(100)]
pub(crate) fn dispatch_pure_builtin(b: Builtin, exprs: Vec<SExpr>) -> (r: Result<SExpr, EvalError>)
    ensures
        res_model(r) == crate::expr::semantics::spec_pure_builtin(b, models_of(&exprs)),
{
    proof {
        SExpr::lemma_exprs_models(&exprs, exprs@.len() as nat);
    }
    let exprs = exprs;
    match b {
        Builtin::Equals => {
            if let Err(e) = check_params_not_least_than(2, &exprs) {
                return Err(e);
            }
            comparators::equals(exprs)
        },
        Builtin::NotEquals => {
            if let Err(e) = check_num_params(2, &exprs) {
                return Err(e);
            }
            comparators::not_equals(exprs)
        },
        Builtin::GreaterThan => {
            if let Err(e) = check_params_not_least_than(2, &exprs) {
                return Err(e);
            }
            comparators::gt(exprs)
        },
        Builtin::GreaterThanEquals => {
            if let Err(e) = check_params_not_least_than(2, &exprs) {
                return Err(e);
            }
            comparators::gte(exprs)
        },
        Builtin::LessThan => {
            if let Err(e) = check_params_not_least_than(2, &exprs) {
                return Err(e);
            }
            comparators::lt(exprs)
        },
        Builtin::LessThanEquals => {
            if let Err(e) = check_params_not_least_than(2, &exprs) {
                return Err(e);
            }
            comparators::lte(exprs)
        },
        Builtin::Add => {
            if let Err(e) = check_params_not_empty(&exprs) {
                return Err(e);
            }
            arithmetic::add(exprs)
        },
        Builtin::Subtract => {
            if let Err(e) = check_params_not_empty(&exprs) {
                return Err(e);
            }
            arithmetic::subtract(exprs)
        },
        Builtin::Multiply => {
            if let Err(e) = check_params_not_empty(&exprs) {
                return Err(e);
            }
            arithmetic::multiply(exprs)
        },
        Builtin::Divide => {
            if let Err(e) = check_params_not_empty(&exprs) {
                return Err(e);
            }
            arithmetic::divide(exprs)
        },
        other => dispatch_value_builtin(other, exprs),
    }
}

/// The pure builtins that build or take apart values: lambda construction,
/// stream conversions, collections, and the numeric casts.
#[verifier::rlimit(100)]
fn dispatch_value_builtin(b: Builtin, exprs: Vec<SExpr>) -> (r: Result<SExpr, EvalError>)
    requires
        !(b is Equals) && !(b is NotEquals) && !(b is GreaterThan) && !(b is GreaterThanEquals)
            && !(b is LessThan) && !(b is LessThanEquals) && !(b is Add) && !(b is Subtract) && !(b
            is Multiply) && !(b is Divide),
    ensures
        res_model(r) == crate::expr::semantics::spec_pure_builtin(b, models_of(&exprs)),
{
    proof {
        SExpr::lemma_exprs_models(&exprs, exprs@.len() as nat);
    }
    let mut exprs = exprs;
    match b {
        Builtin::Lambda => {
            if let Err(e) = check_params_not_least_than(2, &exprs) {
                return Err(e);
            }
            lambda::lambda_placeholder(exprs)
        },
        Builtin::ToVec => {
            if let Err(e) = check_num_params(1, &exprs) {
                return Err(e);
            }
            stream::to_vec(exprs.pop().unwrap())
        },
        Builtin::ToArray => {
            if let Err(e) = check_num_params(1, &exprs) {
                return Err(e);
            }
            stream::to_array(exprs.pop().unwrap())
        },
        Builtin::Inc => {
            if let Err(e) = check_num_params(1, &exprs) {
                return Err(e);
            }
            arithmetic::inc(exprs.pop().unwrap())
        },
        Builtin::Concat => collections::concat(exprs),
        Builtin::Size => collections::size(exprs),
        Builtin::GenHashMap => collections::hashmap(exprs),
        Builtin::MergeHashMap => collections::merge(exprs),
        Builtin::Conjuction => collections::conj(exprs),
        other => dispatch_cast_builtin(other, exprs),
    }
}

/// The numeric cast builtins, one argument each.
#[verifier::rlimit(100)]
fn dispatch_cast_builtin(b: Builtin, exprs: Vec<SExpr>) -> (r: Result<SExpr, EvalError>)
    requires
        !(b is Equals) && !(b is NotEquals) && !(b is GreaterThan) && !(b is GreaterThanEquals)
            && !(b is LessThan) && !(b is LessThanEquals) && !(b is Add) && !(b is Subtract) && !(b
            is Multiply) && !(b is Divide) && !(b is Lambda) && !(b is ToVec) && !(b is ToArray)
            && !(b is Inc) && !(b is Concat) && !(b is Size) && !(b is GenHashMap) && !(b
            is MergeHashMap) && !(b is Conjuction),
    ensures
        res_model(r) == crate::expr::semantics::spec_pure_builtin(b, models_of(&exprs)),
{
    proof {
        SExpr::lemma_exprs_models(&exprs, exprs@.len() as nat);
    }
    let mut exprs = exprs;
    match b {
        Builtin::U8 => {
            if let Err(e) = check_num_params(1, &exprs) {
                return Err(e);
            }
            num_types::u8(exprs.pop().unwrap())
        },
        Builtin::U16 => {
            if let Err(e) = check_num_params(1, &exprs) {
                return Err(e);
            }
            num_types::u16(exprs.pop().unwrap())
        },
        Builtin::U32 => {
            if let Err(e) = check_num_params(1, &exprs) {
                return Err(e);
            }
            num_types::u32(exprs.pop().unwrap())
        },
        Builtin::U64 => {
            if let Err(e) = check_num_params(1, &exprs) {
                return Err(e);
            }
            num_types::u64(exprs.pop().unwrap())
        },
        Builtin::I8 => {
            if let Err(e) = check_num_params(1, &exprs) {
                return Err(e);
            }
            num_types::i8(exprs.pop().unwrap())
        },
        Builtin::I16 => {
            if let Err(e) = check_num_params(1, &exprs) {
                return Err(e);
            }
            num_types::i16(exprs.pop().unwrap())
        },
        Builtin::I32 => {
            if let Err(e) = check_num_params(1, &exprs) {
                return Err(e);
            }
            num_types::i32(exprs.pop().unwrap())
        },
        Builtin::I64 => {
            if let Err(e) = check_num_params(1, &exprs) {
                return Err(e);
            }
            num_types::i64(exprs.pop().unwrap())
        },
        Builtin::F32 => {
            if let Err(e) = check_num_params(1, &exprs) {
                return Err(e);
            }
            num_types::float32(exprs.pop().unwrap())
        },
        Builtin::F64 => {
            if let Err(e) = check_num_params(1, &exprs) {
                return Err(e);
            }
            num_types::float64(exprs.pop().unwrap())
        },
        _ => Err(EvalError::NotCallable),
    }
}

/// `(defunc name [params...] body...)`: build the lambda and push it as a
/// global binding for the name.
pub fn defn(env: &mut Envorinment, exprs: Vec<SExpr>, fuel: u64) -> (r: Result<SExpr, EvalError>)
    ensures
        env_le(old(env)@, final(env)@),
        (res_model(r), final(env)@) == spec_defn(models_of(&exprs), old(env)@, fuel as nat),
    decreases fuel,
{
    proof {
        SExpr::lemma_exprs_models(&exprs, exprs@.len() as nat);
    }
    let ghost ms = models_of(&exprs);
    if fuel == 0 {
        return Err(EvalError::DepthExceeded);
    }
    if exprs.len() < 1 {
        return Err(EvalError::ArityMismatch);
    }
    let mut exprs = exprs;
    let name = exprs.remove(0);
    proof {
        SExpr::lemma_exprs_models(&exprs, exprs@.len() as nat);
        assert(models_of(&exprs) =~= ms.drop_first());
    }
    let lam = match lambda::lambda_placeholder(exprs) {
        Ok(l) => l,
        Err(e) => {
            return Err(e);
        },
    };
    let id: u64 = match &name {
        SExpr::Symbol(s) => key_hash(s.as_str()),
        SExpr::ISymbol(i, _) => *i,
        _ => {
            return Err(EvalError::MalformedForm);
        },
    };
    let ghost env0 = env@;
    let ghost lm = lam@;
    bindings::bind(env, id, lam);
    proof {
        crate::expr::interpreter::lemma_env_bind(env0, id, lm);
        assert forall|other: u64| crate::expr::interpreter::env_depth(env0, other)
            <= crate::expr::interpreter::env_depth(env@, other) by {
            if other != id {
                crate::expr::interpreter::lemma_env_bind_other(env0, id, lm, other);
            }
        }
    }
    Ok(SExpr::Value(Value::null()))
}

/// The sugared indexing a literal head performs: a string head reads its
/// single map argument by name; a 64-bit index reads a map by key id or an
/// array by position, Null past the end; a map or array head reads itself
/// by the single key or index argument. A map or array head keeps its
/// owned/shared representation in the result; the other forms materialize.
pub open spec fn spec_eval_value(vm: ValueModel, ps: Seq<ExprModel>) -> Result<
    ExprModel,
    EvalError,
> {
    match vm.payload() {
        ValModel::String(key) => if ps.len() > 1 {
            Err(EvalError::ArityMismatch)
        } else if ps.len() == 1 && ps[0] is Value && ps[0]->Value_0.payload() is DataMap {
            Ok(ExprModel::Value(
                ValueModel::Owned(
                    (ps[0]->Value_0.payload())->DataMap_0.lookup(key_hash_of(key)),
                ),
            ))
        } else {
            Err(EvalError::TypeMismatch)
        },
        ValModel::U64(idx) => if ps.len() > 1 {
            Err(EvalError::ArityMismatch)
        } else if ps.len() == 1 && ps[0] is Value {
            match ps[0]->Value_0.payload() {
                ValModel::DataMap(m) => Ok(ExprModel::Value(ValueModel::Owned(m.lookup(idx)))),
                ValModel::Array(elems) => Ok(
                    ExprModel::Value(
                        ValueModel::Owned(
                            if idx < elems.len() {
                                elems[idx as int]
                            } else {
                                ValModel::Null
                            },
                        ),
                    ),
                ),
                _ => Err(EvalError::TypeMismatch),
            }
        } else {
            Err(EvalError::TypeMismatch)
        },
        ValModel::DataMap(m) => if ps.len() > 1 {
            Err(EvalError::ArityMismatch)
        } else if ps.len() == 1 && ps[0] is Value {
            match ps[0]->Value_0.payload() {
                ValModel::String(k) => Ok(
                    ExprModel::Value(wrap_as(vm is Shared, m.lookup(key_hash_of(k)))),
                ),
                ValModel::U64(kid) => Ok(ExprModel::Value(wrap_as(vm is Shared, m.lookup(kid)))),
                _ => Err(EvalError::TypeMismatch),
            }
        } else {
            Err(EvalError::TypeMismatch)
        },
        ValModel::Array(elems) => if ps.len() > 1 {
            Err(EvalError::ArityMismatch)
        } else if ps.len() == 1 && ps[0] is Value && ps[0]->Value_0.payload() is U64 {
            Ok(
                ExprModel::Value(
                    wrap_as(
                        vm is Shared,
                        if (ps[0]->Value_0.payload())->U64_0 < elems.len() {
                            elems[(ps[0]->Value_0.payload())->U64_0 as int]
                        } else {
                            ValModel::Null
                        },
                    ),
                ),
            )
        } else {
            Err(EvalError::TypeMismatch)
        },
        _ => Err(EvalError::NotCallable),
    }
}

/// A payload wrapped back in the representation the head value had.
pub open spec fn wrap_as(shared: bool, v: ValModel) -> ValueModel {
    if shared {
        ValueModel::Shared(v)
    } else {
        ValueModel::Owned(v)
    }
}

/// Apply a literal value in head position as sugared indexing.
pub fn eval_value(v: &Value, params: Vec<SExpr>) -> (r: Result<SExpr, EvalError>)
    ensures
        res_model(r) == spec_eval_value(v@, models_of(&params)),
{
    proof {
        SExpr::lemma_exprs_models(&params, params@.len() as nat);
    }
    let is_shared = match v {
        Value::Shared(_) => true,
        Value::Owned(_) => false,
    };
    let sv = v.norm();
    match sv {
        SharedValue::String(key) => {
            if params.len() > 1 {
                return Err(EvalError::ArityMismatch);
            }
            if params.len() == 1 {
                match params[0].val() {
                    Some(SharedValue::DataMap(m)) => Ok(
                        SExpr::owned_value(m.get(key.as_str()).owned()),
                    ),
                    _ => Err(EvalError::TypeMismatch),
                }
            } else {
                Err(EvalError::TypeMismatch)
            }
        },
        SharedValue::U64(index) => {
            if params.len() > 1 {
                return Err(EvalError::ArityMismatch);
            }
            if params.len() == 1 {
                match params[0].val() {
                    Some(SharedValue::DataMap(m)) => Ok(
                        SExpr::owned_value(m.get_by_key_id(index).owned()),
                    ),
                    Some(SharedValue::Array(arr)) => {
                        proof {
                            SharedValue::lemma_elem_models(&arr, arr@.len() as nat);
                        }
                        if index < arr.len() as u64 {
                            Ok(SExpr::owned_value(arr[index as usize].owned()))
                        } else {
                            Ok(SExpr::owned_value(crate::types::owned::OwnedValue::Null))
                        }
                    },
                    _ => Err(EvalError::TypeMismatch),
                }
            } else {
                Err(EvalError::TypeMismatch)
            }
        },
        SharedValue::DataMap(m) => {
            if params.len() > 1 {
                return Err(EvalError::ArityMismatch);
            }
            if params.len() == 1 {
                match params[0].val() {
                    Some(SharedValue::String(k)) => {
                        let got = m.get(k.as_str());
                        if is_shared {
                            Ok(SExpr::shared_value(got))
                        } else {
                            Ok(SExpr::owned_value(got.owned()))
                        }
                    },
                    Some(SharedValue::U64(kid)) => {
                        let got = m.get_by_key_id(kid);
                        if is_shared {
                            Ok(SExpr::shared_value(got))
                        } else {
                            Ok(SExpr::owned_value(got.owned()))
                        }
                    },
                    _ => Err(EvalError::TypeMismatch),
                }
            } else {
                Err(EvalError::TypeMismatch)
            }
        },
        SharedValue::Array(arr) => {
            if params.len() > 1 {
                return Err(EvalError::ArityMismatch);
            }
            if params.len() == 1 {
                match params[0].val() {
                    Some(SharedValue::U64(kid)) => {
                        proof {
                            SharedValue::lemma_elem_models(&arr, arr@.len() as nat);
                        }
                        let got = if kid < arr.len() as u64 {
                            arr[kid as usize].duplicate()
                        } else {
                            SharedValue::Null
                        };
                        if is_shared {
                            Ok(SExpr::shared_value(got))
                        } else {
                            Ok(SExpr::owned_value(got.owned()))
                        }
                    },
                    _ => Err(EvalError::TypeMismatch),
                }
            } else {
                Err(EvalError::TypeMismatch)
            }
        },
        _ => Err(EvalError::NotCallable),
    }
}

} // verus!
