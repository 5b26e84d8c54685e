//! The meaning of evaluation: a fuel-indexed, mutually recursive
//! definition of the value every form yields and the environment it
//! leaves behind. The evaluator's contracts state that each function
//! returns and mutates exactly as this definition says, so the whole
//! evaluation family is pinned down: dispatch order, binding and
//! restoration, branch selection, short-circuiting, and every error.

use vstd::prelude::*;
use crate::hashing::key_hash_of;
use crate::types::model::ValModel;
use crate::expr::ast::ExprModel;
use crate::expr::error::EvalError;
use crate::expr::interpreter::{EnvModel, env_top, env_bind, env_unbind};
use crate::expr::symbols::{Builtin, spec_lookup_builtin, spec_is_macro};
use crate::expr::symbols::arithmetic::{ArithOp, spec_arith, spec_inc};
use crate::expr::symbols::comparators::{CmpOp, spec_cmp, spec_equals, spec_not_equals};
use crate::expr::symbols::collections::{
    spec_size_sum, spec_concat, spec_conj, spec_hashmap, spec_merge,
};
use crate::expr::symbols::functions::spec_eval_value;
use crate::expr::symbols::lambda::spec_lambda_placeholder;
use crate::expr::symbols::num_types::{
    spec_cast_u8, spec_cast_u16, spec_cast_u32, spec_cast_u64, spec_cast_i8, spec_cast_i16,
    spec_cast_i32, spec_cast_i64, spec_cast_f32, spec_cast_f64,
};
use crate::expr::symbols::stream::{spec_to_vec, spec_to_array};
use crate::expr::symbols::utils::spec_is_true;

verus! {

/// What one evaluation step yields: its outcome and the environment it
/// leaves behind.
pub type EvalStep = (Result<ExprModel, EvalError>, EnvModel);

/// The canonical Null literal an empty form or body evaluates to.
pub open spec fn null_expr() -> ExprModel {
    ExprModel::Value(crate::expr::ast::ValueModel::Owned(ValModel::Null))
}

/// The hashed id a binding target names: a plain symbol hashes its text,
/// an interned symbol carries its id, anything else is no target.
pub open spec fn sym_id(e: ExprModel) -> Option<u64> {
    match e {
        ExprModel::Symbol(name) => Some(key_hash_of(name)),
        ExprModel::ISymbol(id, _) => Some(id),
        _ => None,
    }
}

/// The ids of a lambda's parameter symbols from `i` on, appended to `acc`;
/// nothing when a parameter is not an interned symbol.
pub open spec fn ids_of_from(pl: Seq<ExprModel>, i: int, acc: Seq<u64>) -> Option<Seq<u64>>
    decreases pl.len() - i,
{
    if i < 0 || i >= pl.len() {
        Some(acc)
    } else {
        match pl[i] {
            ExprModel::ISymbol(id, _) => ids_of_from(pl, i + 1, acc.push(id)),
            _ => None,
        }
    }
}

/// Bind `ids[i]` to `vals[i]` from `i` on, in order.
pub open spec fn env_bind_seq(m: EnvModel, ids: Seq<u64>, vals: Seq<ExprModel>, i: int) -> EnvModel
    decreases ids.len() - i,
{
    if i < 0 || i >= ids.len() || i >= vals.len() {
        m
    } else {
        env_bind_seq(env_bind(m, ids[i], vals[i]), ids, vals, i + 1)
    }
}

/// Pop one binding for each id from `i` on, in order.
pub open spec fn env_unbind_seq(m: EnvModel, ids: Seq<u64>, i: int) -> EnvModel
    decreases ids.len() - i,
{
    if i < 0 || i >= ids.len() {
        m
    } else {
        env_unbind_seq(env_unbind(m, ids[i]), ids, i + 1)
    }
}

/// What evaluating one expression yields. A list is a call form: the head
/// is evaluated, then applied to the rest; the empty list is Null. An
/// interned symbol resolves to the binding in force, or stands for itself
/// when unbound. Every other expression evaluates to itself.
pub open spec fn spec_eval(e: ExprModel, env: EnvModel, fuel: nat) -> EvalStep
    decreases fuel, 0int, 0int,
{
    match e {
        ExprModel::List(es) => {
            if fuel == 0 {
                (Err(EvalError::DepthExceeded), env)
            } else if es.len() == 0 {
                (Ok(null_expr()), env)
            } else {
                let head = spec_eval(es[0], env, (fuel - 1) as nat);
                match head.0 {
                    Err(err) => (Err(err), head.1),
                    Ok(f) => spec_eval_function(f, es.drop_first(), head.1, (fuel - 1) as nat),
                }
            }
        },
        ExprModel::ISymbol(id, _) => (
            match env_top(env, id) {
                Some(b) => Ok(b),
                None => Ok(e),
            },
            env,
        ),
        _ => (Ok(e), env),
    }
}

/// What applying an evaluated head to its parameters yields: a symbol
/// dispatches through the environment and the builtin table, a lambda is
/// applied, a literal value indexes its argument, and anything else is
/// not callable.
pub open spec fn spec_eval_function(f: ExprModel, ps: Seq<ExprModel>, env: EnvModel, fuel: nat) -> EvalStep
    decreases fuel, 0int, 0int,
{
    if fuel == 0 {
        (Err(EvalError::DepthExceeded), env)
    } else {
        match f {
            ExprModel::ISymbol(id, _) => spec_eval_symbol_call(id, ps, env, (fuel - 1) as nat),
            ExprModel::Symbol(name) => spec_eval_symbol_call(
                key_hash_of(name),
                ps,
                env,
                (fuel - 1) as nat,
            ),
            ExprModel::LAMBDA(_, _) => spec_eval_lambda(f, ps, env, (fuel - 1) as nat),
            ExprModel::Value(v) => (spec_eval_value(v, ps), env),
            _ => (Err(EvalError::NotCallable), env),
        }
    }
}

/// What a call on a symbol id yields: a binding in the environment wins
/// and is applied as a lambda; otherwise the builtin table decides, with
/// macro arguments passed unevaluated and function arguments evaluated
/// left to right first; a symbol in neither is unknown.
pub open spec fn spec_eval_symbol_call(id: u64, ps: Seq<ExprModel>, env: EnvModel, fuel: nat) -> EvalStep
    decreases fuel, 0int, 0int,
{
    if fuel == 0 {
        (Err(EvalError::DepthExceeded), env)
    } else {
        match env_top(env, id) {
            Some(binding) => spec_eval_lambda(binding, ps, env, (fuel - 1) as nat),
            None => match spec_lookup_builtin(id) {
                None => (Err(EvalError::UnknownSymbol), env),
                Some(b) => {
                    if spec_is_macro(b) {
                        spec_dispatch_builtin(b, ps, env, (fuel - 1) as nat)
                    } else {
                        let evaled = spec_eval_params(ps, env, (fuel - 1) as nat);
                        match evaled.0 {
                            Err(err) => (Err(err), evaled.1),
                            Ok(vs) => spec_dispatch_builtin(b, vs, evaled.1, (fuel - 1) as nat),
                        }
                    }
                },
            },
        }
    }
}

/// Evaluate every parameter of a function call, left to right; the first
/// error wins.
pub open spec fn spec_eval_params(ps: Seq<ExprModel>, env: EnvModel, fuel: nat) -> (Result<
    Seq<ExprModel>,
    EvalError,
>, EnvModel)
    decreases fuel, 2int, 0int,
{
    if fuel == 0 {
        (Err(EvalError::DepthExceeded), env)
    } else {
        spec_eval_params_from(ps, 0, Seq::empty(), env, fuel)
    }
}

/// The parameters from `i` on evaluated in order after those already in
/// `acc`.
pub open spec fn spec_eval_params_from(
    ps: Seq<ExprModel>,
    i: int,
    acc: Seq<ExprModel>,
    env: EnvModel,
    fuel: nat,
) -> (Result<Seq<ExprModel>, EvalError>, EnvModel)
    decreases fuel, 1int, ps.len() - i,
{
    if fuel == 0 {
        (Err(EvalError::DepthExceeded), env)
    } else if i < 0 || i >= ps.len() {
        (Ok(acc), env)
    } else {
        let step = spec_eval(ps[i], env, (fuel - 1) as nat);
        match step.0 {
            Err(err) => (Err(err), step.1),
            Ok(v) => spec_eval_params_from(ps, i + 1, acc.push(v), step.1, fuel),
        }
    }
}

/// What a builtin that never touches the environment returns: its arity
/// rule is enforced first, then the operator's own rule decides.
pub open spec fn spec_pure_builtin(b: Builtin, es: Seq<ExprModel>) -> Result<
    ExprModel,
    EvalError,
> {
    match b {
        Builtin::Equals => if es.len() < 2 {
            Err(EvalError::ArityMismatch)
        } else {
            spec_equals(es)
        },
        Builtin::NotEquals => if es.len() != 2 {
            Err(EvalError::ArityMismatch)
        } else {
            spec_not_equals(es)
        },
        Builtin::GreaterThan => if es.len() < 2 {
            Err(EvalError::ArityMismatch)
        } else {
            spec_cmp(CmpOp::Gt, es)
        },
        Builtin::GreaterThanEquals => if es.len() < 2 {
            Err(EvalError::ArityMismatch)
        } else {
            spec_cmp(CmpOp::Gte, es)
        },
        Builtin::LessThan => if es.len() < 2 {
            Err(EvalError::ArityMismatch)
        } else {
            spec_cmp(CmpOp::Lt, es)
        },
        Builtin::LessThanEquals => if es.len() < 2 {
            Err(EvalError::ArityMismatch)
        } else {
            spec_cmp(CmpOp::Lte, es)
        },
        Builtin::Add => if es.len() == 0 {
            Err(EvalError::ArityMismatch)
        } else {
            spec_arith(ArithOp::Add, es)
        },
        Builtin::Subtract => if es.len() == 0 {
            Err(EvalError::ArityMismatch)
        } else {
            spec_arith(ArithOp::Subtract, es)
        },
        Builtin::Multiply => if es.len() == 0 {
            Err(EvalError::ArityMismatch)
        } else {
            spec_arith(ArithOp::Multiply, es)
        },
        Builtin::Divide => if es.len() == 0 {
            Err(EvalError::ArityMismatch)
        } else {
            spec_arith(ArithOp::Divide, es)
        },
        Builtin::Lambda => if es.len() < 2 {
            Err(EvalError::ArityMismatch)
        } else {
            spec_lambda_placeholder(es)
        },
        Builtin::ToVec => if es.len() != 1 {
            Err(EvalError::ArityMismatch)
        } else {
            spec_to_vec(es[0])
        },
        Builtin::ToArray => if es.len() != 1 {
            Err(EvalError::ArityMismatch)
        } else {
            spec_to_array(es[0])
        },
        Builtin::Inc => if es.len() != 1 {
            Err(EvalError::ArityMismatch)
        } else {
            spec_inc(es[0])
        },
        Builtin::Concat => spec_concat(es),
        Builtin::Size => spec_size(es),
        Builtin::GenHashMap => spec_hashmap(es),
        Builtin::MergeHashMap => spec_merge(es),
        Builtin::Conjuction => spec_conj(es),
        Builtin::U8 => if es.len() != 1 {
            Err(EvalError::ArityMismatch)
        } else {
            spec_cast_u8(es[0])
        },
        Builtin::U16 => if es.len() != 1 {
            Err(EvalError::ArityMismatch)
        } else {
            spec_cast_u16(es[0])
        },
        Builtin::U32 => if es.len() != 1 {
            Err(EvalError::ArityMismatch)
        } else {
            spec_cast_u32(es[0])
        },
        Builtin::U64 => if es.len() != 1 {
            Err(EvalError::ArityMismatch)
        } else {
            spec_cast_u64(es[0])
        },
        Builtin::I8 => if es.len() != 1 {
            Err(EvalError::ArityMismatch)
        } else {
            spec_cast_i8(es[0])
        },
        Builtin::I16 => if es.len() != 1 {
            Err(EvalError::ArityMismatch)
        } else {
            spec_cast_i16(es[0])
        },
        Builtin::I32 => if es.len() != 1 {
            Err(EvalError::ArityMismatch)
        } else {
            spec_cast_i32(es[0])
        },
        Builtin::I64 => if es.len() != 1 {
            Err(EvalError::ArityMismatch)
        } else {
            spec_cast_i64(es[0])
        },
        Builtin::F32 => if es.len() != 1 {
            Err(EvalError::ArityMismatch)
        } else {
            spec_cast_f32(es[0])
        },
        Builtin::F64 => if es.len() != 1 {
            Err(EvalError::ArityMismatch)
        } else {
            spec_cast_f64(es[0])
        },
        _ => Err(EvalError::NotCallable),
    }
}

/// What handing a builtin its argument list yields: its arity rule is
/// enforced first, then its own evaluation rule decides; a builtin that
/// never touches the environment leaves it exactly as it was.
pub open spec fn spec_dispatch_builtin(b: Builtin, es: Seq<ExprModel>, env: EnvModel, fuel: nat) -> EvalStep
    decreases fuel, 5int, 0int,
{
    if fuel == 0 {
        (Err(EvalError::DepthExceeded), env)
    } else {
        match b {
            Builtin::If => if es.len() < 2 || es.len() > 3 {
                (Err(EvalError::ArityMismatch), env)
            } else {
                spec_if_form(es, false, env, (fuel - 1) as nat)
            },
            Builtin::IfNot => if es.len() < 2 || es.len() > 3 {
                (Err(EvalError::ArityMismatch), env)
            } else {
                spec_if_form(es, true, env, (fuel - 1) as nat)
            },
            Builtin::When => if es.len() != 2 {
                (Err(EvalError::ArityMismatch), env)
            } else {
                spec_when_form(es, false, env, (fuel - 1) as nat)
            },
            Builtin::WhenNot => if es.len() != 2 {
                (Err(EvalError::ArityMismatch), env)
            } else {
                spec_when_form(es, true, env, (fuel - 1) as nat)
            },
            Builtin::Let => spec_let(es, env, (fuel - 1) as nat),
            Builtin::DefineFunc => if es.len() < 3 {
                (Err(EvalError::ArityMismatch), env)
            } else {
                spec_defn(es, env, (fuel - 1) as nat)
            },
            Builtin::Define => if es.len() != 2 {
                (Err(EvalError::ArityMismatch), env)
            } else {
                spec_define(es, env, (fuel - 1) as nat)
            },
            Builtin::MapStream => if es.len() != 2 {
                (Err(EvalError::ArityMismatch), env)
            } else {
                spec_map(es[0], es[1], env, (fuel - 1) as nat)
            },
            Builtin::Filter => if es.len() != 2 {
                (Err(EvalError::ArityMismatch), env)
            } else {
                spec_filter(es[0], es[1], env, (fuel - 1) as nat)
            },
            Builtin::Do => spec_do(es, env, (fuel - 1) as nat),
            Builtin::Or => spec_or(es, env, (fuel - 1) as nat),
            Builtin::And => spec_and(es, env, (fuel - 1) as nat),
            Builtin::Conditional => spec_cond(es, env, (fuel - 1) as nat),
            _ => (spec_pure_builtin(b, es), env),
        }
    }
}

/// What `size` returns: the summed sizes of the operands as a 64-bit
/// value.
pub open spec fn spec_size(es: Seq<ExprModel>) -> Result<ExprModel, EvalError> {
    match spec_size_sum(es, 0, 0) {
        Ok(n) => Ok(ExprModel::Value(crate::expr::ast::ValueModel::Owned(ValModel::U64(n as u64)))),
        Err(e) => Err(e),
    }
}

/// `(if test then else?)` and its negation: the test picks the branch that
/// is evaluated at all; a missing else branch yields Null.
pub open spec fn spec_if_form(es: Seq<ExprModel>, negate: bool, env: EnvModel, fuel: nat) -> EvalStep
    decreases fuel, 2int, 0int,
{
    if fuel == 0 {
        (Err(EvalError::DepthExceeded), env)
    } else if es.len() < 2 {
        (Err(EvalError::ArityMismatch), env)
    } else {
        let test = spec_eval(es[0], env, (fuel - 1) as nat);
        match test.0 {
            Err(err) => (Err(err), test.1),
            Ok(t) => {
                if spec_is_true(t) != negate {
                    spec_eval(es[1], test.1, (fuel - 1) as nat)
                } else if es.len() >= 3 {
                    spec_eval(es[2], test.1, (fuel - 1) as nat)
                } else {
                    (Ok(null_expr()), test.1)
                }
            },
        }
    }
}

/// `(when test then)` and its negation: the branch only when the test
/// agrees, Null otherwise.
pub open spec fn spec_when_form(es: Seq<ExprModel>, negate: bool, env: EnvModel, fuel: nat) -> EvalStep
    decreases fuel, 2int, 0int,
{
    if fuel == 0 {
        (Err(EvalError::DepthExceeded), env)
    } else if es.len() < 2 {
        (Err(EvalError::ArityMismatch), env)
    } else {
        let test = spec_eval(es[0], env, (fuel - 1) as nat);
        match test.0 {
            Err(err) => (Err(err), test.1),
            Ok(t) => {
                if spec_is_true(t) != negate {
                    spec_eval(es[1], test.1, (fuel - 1) as nat)
                } else {
                    (Ok(null_expr()), test.1)
                }
            },
        }
    }
}

/// `(or e...)`: true at the first truthy operand, false when none is.
pub open spec fn spec_or(es: Seq<ExprModel>, env: EnvModel, fuel: nat) -> EvalStep
    decreases fuel, 2int, 0int,
{
    if fuel == 0 {
        (Err(EvalError::DepthExceeded), env)
    } else {
        spec_or_from(es, 0, env, fuel)
    }
}

/// The `or` scan from operand `i` on.
pub open spec fn spec_or_from(es: Seq<ExprModel>, i: int, env: EnvModel, fuel: nat) -> EvalStep
    decreases fuel, 1int, es.len() - i,
{
    if fuel == 0 {
        (Err(EvalError::DepthExceeded), env)
    } else if i < 0 || i >= es.len() {
        (Ok(ExprModel::Value(crate::expr::ast::ValueModel::Owned(ValModel::Bool(false)))), env)
    } else {
        let step = spec_eval(es[i], env, (fuel - 1) as nat);
        match step.0 {
            Err(err) => (Err(err), step.1),
            Ok(v) => {
                if spec_is_true(v) {
                    (
                        Ok(ExprModel::Value(crate::expr::ast::ValueModel::Owned(ValModel::Bool(true)))),
                        step.1,
                    )
                } else {
                    spec_or_from(es, i + 1, step.1, fuel)
                }
            },
        }
    }
}

/// `(and e...)`: false at the first falsy operand, true when none is.
pub open spec fn spec_and(es: Seq<ExprModel>, env: EnvModel, fuel: nat) -> EvalStep
    decreases fuel, 2int, 0int,
{
    if fuel == 0 {
        (Err(EvalError::DepthExceeded), env)
    } else {
        spec_and_from(es, 0, env, fuel)
    }
}

/// The `and` scan from operand `i` on.
pub open spec fn spec_and_from(es: Seq<ExprModel>, i: int, env: EnvModel, fuel: nat) -> EvalStep
    decreases fuel, 1int, es.len() - i,
{
    if fuel == 0 {
        (Err(EvalError::DepthExceeded), env)
    } else if i < 0 || i >= es.len() {
        (Ok(ExprModel::Value(crate::expr::ast::ValueModel::Owned(ValModel::Bool(true)))), env)
    } else {
        let step = spec_eval(es[i], env, (fuel - 1) as nat);
        match step.0 {
            Err(err) => (Err(err), step.1),
            Ok(v) => {
                if !spec_is_true(v) {
                    (
                        Ok(ExprModel::Value(crate::expr::ast::ValueModel::Owned(ValModel::Bool(false)))),
                        step.1,
                    )
                } else {
                    spec_and_from(es, i + 1, step.1, fuel)
                }
            },
        }
    }
}

/// `(cond test expr ...)`: the expression after the first test that
/// holds; Null when none does; an odd operand count is malformed.
pub open spec fn spec_cond(es: Seq<ExprModel>, env: EnvModel, fuel: nat) -> EvalStep
    decreases fuel, 2int, 0int,
{
    if fuel == 0 {
        (Err(EvalError::DepthExceeded), env)
    } else if es.len() % 2 == 1 {
        (Err(EvalError::MalformedForm), env)
    } else {
        spec_cond_from(es, 0, env, fuel)
    }
}

/// The `cond` scan from pair `i` on.
pub open spec fn spec_cond_from(es: Seq<ExprModel>, i: int, env: EnvModel, fuel: nat) -> EvalStep
    decreases fuel, 1int, es.len() - i,
{
    if fuel == 0 {
        (Err(EvalError::DepthExceeded), env)
    } else if i < 0 || i + 1 >= es.len() {
        (Ok(null_expr()), env)
    } else {
        let test = spec_eval(es[i], env, (fuel - 1) as nat);
        match test.0 {
            Err(err) => (Err(err), test.1),
            Ok(t) => {
                if spec_is_true(t) {
                    spec_eval(es[i + 1], test.1, (fuel - 1) as nat)
                } else {
                    spec_cond_from(es, i + 2, test.1, fuel)
                }
            },
        }
    }
}

/// `(do e...)`: evaluate in order; the last result, or Null for no
/// operands, or the first error.
pub open spec fn spec_do(es: Seq<ExprModel>, env: EnvModel, fuel: nat) -> EvalStep
    decreases fuel, 2int, 0int,
{
    if fuel == 0 {
        (Err(EvalError::DepthExceeded), env)
    } else {
        spec_do_from(es, 0, null_expr(), env, fuel)
    }
}

/// The `do` scan from operand `i` on, `last` holding the result so far.
pub open spec fn spec_do_from(
    es: Seq<ExprModel>,
    i: int,
    last: ExprModel,
    env: EnvModel,
    fuel: nat,
) -> EvalStep
    decreases fuel, 1int, es.len() - i,
{
    if fuel == 0 {
        (Err(EvalError::DepthExceeded), env)
    } else if i < 0 || i >= es.len() {
        (Ok(last), env)
    } else {
        let step = spec_eval(es[i], env, (fuel - 1) as nat);
        match step.0 {
            Err(err) => (Err(err), step.1),
            Ok(v) => spec_do_from(es, i + 1, v, step.1, fuel),
        }
    }
}

/// `(def name value)`: the value is evaluated first, then pushed as a
/// binding for the name's id; a name that is no symbol is malformed; the
/// result is Null.
pub open spec fn spec_define(es: Seq<ExprModel>, env: EnvModel, fuel: nat) -> EvalStep
    decreases fuel, 2int, 0int,
{
    if fuel == 0 {
        (Err(EvalError::DepthExceeded), env)
    } else if es.len() < 2 {
        (Err(EvalError::ArityMismatch), env)
    } else {
        let step = spec_eval(es[1], env, (fuel - 1) as nat);
        match step.0 {
            Err(err) => (Err(err), step.1),
            Ok(v) => match sym_id(es[0]) {
                None => (Err(EvalError::MalformedForm), step.1),
                Some(id) => (Ok(null_expr()), env_bind(step.1, id, v)),
            },
        }
    }
}

/// `(defunc name [params...] body...)`: the lambda is built unevaluated
/// and pushed as a binding for the name's id; the result is Null.
pub open spec fn spec_defn(es: Seq<ExprModel>, env: EnvModel, fuel: nat) -> EvalStep
    decreases fuel, 2int, 0int,
{
    if fuel == 0 {
        (Err(EvalError::DepthExceeded), env)
    } else if es.len() < 1 {
        (Err(EvalError::ArityMismatch), env)
    } else {
        match spec_lambda_placeholder(es.drop_first()) {
            Err(err) => (Err(err), env),
            Ok(lam) => match sym_id(es[0]) {
                None => (Err(EvalError::MalformedForm), env),
                Some(id) => (Ok(null_expr()), env_bind(env, id, lam)),
            },
        }
    }
}

/// `(let [sym val ...] body...)`: bind every symbol of the binding vector
/// in order, each value seeing the bindings before it, evaluate the body
/// keeping the last result, and unbind exactly the symbols bound, on the
/// success path and on every error path alike.
pub open spec fn spec_let(es: Seq<ExprModel>, env: EnvModel, fuel: nat) -> EvalStep
    decreases fuel, 4int, 0int,
{
    if fuel == 0 {
        (Err(EvalError::DepthExceeded), env)
    } else if es.len() < 2 {
        (Err(EvalError::ArityMismatch), env)
    } else {
        match es[0] {
            ExprModel::Vec(form) => {
                if form.len() % 2 == 1 {
                    (Err(EvalError::MalformedForm), env)
                } else {
                    spec_let_bind(form, 0, Seq::empty(), es.drop_first(), env, fuel)
                }
            },
            _ => (Err(EvalError::MalformedForm), env),
        }
    }
}

/// The binding pass of `let` from pair `k` on, `bound` holding the ids
/// already bound; on an error the bound ids are unbound again.
pub open spec fn spec_let_bind(
    form: Seq<ExprModel>,
    k: int,
    bound: Seq<u64>,
    body: Seq<ExprModel>,
    env: EnvModel,
    fuel: nat,
) -> EvalStep
    decreases fuel, 3int, form.len() - k,
{
    if fuel == 0 {
        (Err(EvalError::DepthExceeded), env)
    } else if k < 0 || k + 1 >= form.len() {
        spec_eval_body(body, 0, null_expr(), bound, env, fuel)
    } else {
        match sym_id(form[k]) {
            None => (Err(EvalError::MalformedForm), env_unbind_seq(env, bound, 0)),
            Some(id) => {
                let step = spec_eval(form[k + 1], env, (fuel - 1) as nat);
                match step.0 {
                    Err(err) => (Err(err), env_unbind_seq(step.1, bound, 0)),
                    Ok(v) => spec_let_bind(
                        form,
                        k + 2,
                        bound.push(id),
                        body,
                        env_bind(step.1, id, v),
                        fuel,
                    ),
                }
            },
        }
    }
}

/// A body evaluated in order from expression `b` on, keeping the last
/// result, with the `bound` ids unbound again at every exit: the shared
/// tail of `let` and lambda application.
pub open spec fn spec_eval_body(
    body: Seq<ExprModel>,
    b: int,
    last: ExprModel,
    bound: Seq<u64>,
    env: EnvModel,
    fuel: nat,
) -> EvalStep
    decreases fuel, 1int, body.len() - b,
{
    if fuel == 0 {
        (Err(EvalError::DepthExceeded), env)
    } else if b < 0 || b >= body.len() {
        (Ok(last), env_unbind_seq(env, bound, 0))
    } else {
        let step = spec_eval(body[b], env, (fuel - 1) as nat);
        match step.0 {
            Err(err) => (Err(err), env_unbind_seq(step.1, bound, 0)),
            Ok(v) => spec_eval_body(body, b + 1, v, bound, step.1, fuel),
        }
    }
}

/// What applying a lambda yields: with matching arity, each parameter is
/// bound to its already-evaluated argument in declaration order, the body
/// is evaluated keeping the last result, and every parameter is unbound
/// again, on the success path and on every error path alike. An arity
/// mismatch is a hard error, and a head that is no lambda is not callable.
pub open spec fn spec_eval_lambda(f: ExprModel, ps: Seq<ExprModel>, env: EnvModel, fuel: nat) -> EvalStep
    decreases fuel, 2int, 0int,
{
    if fuel == 0 {
        (Err(EvalError::DepthExceeded), env)
    } else {
        match f {
            ExprModel::LAMBDA(pl, body) => {
                if ps.len() != pl.len() {
                    (Err(EvalError::ArityMismatch), env)
                } else {
                    match ids_of_from(pl, 0, Seq::empty()) {
                        None => (Err(EvalError::MalformedForm), env),
                        Some(ids) => spec_eval_body(
                            body,
                            0,
                            null_expr(),
                            ids,
                            env_bind_seq(env, ids, ps, 0),
                            fuel,
                        ),
                    }
                }
            },
            _ => (Err(EvalError::NotCallable), env),
        }
    }
}

/// `(map f data)`: the data unpacked as a vector, each element evaluated
/// then handed to the function, the results collected in order.
pub open spec fn spec_map(f: ExprModel, data: ExprModel, env: EnvModel, fuel: nat) -> EvalStep
    decreases fuel, 2int, 0int,
{
    if fuel == 0 {
        (Err(EvalError::DepthExceeded), env)
    } else {
        match spec_to_vec(data) {
            Err(err) => (Err(err), env),
            Ok(unpacked) => match unpacked {
                ExprModel::Vec(list) => {
                    let run = spec_map_from(f, list, 0, Seq::empty(), env, fuel);
                    match run.0 {
                        Err(err) => (Err(err), run.1),
                        Ok(rs) => (Ok(ExprModel::Vec(rs)), run.1),
                    }
                },
                _ => (Err(EvalError::TypeMismatch), env),
            },
        }
    }
}

/// The `map` pass from element `i` on, `acc` holding the results so far.
pub open spec fn spec_map_from(
    f: ExprModel,
    list: Seq<ExprModel>,
    i: int,
    acc: Seq<ExprModel>,
    env: EnvModel,
    fuel: nat,
) -> (Result<Seq<ExprModel>, EvalError>, EnvModel)
    decreases fuel, 1int, list.len() - i,
{
    if fuel == 0 {
        (Err(EvalError::DepthExceeded), env)
    } else if i < 0 || i >= list.len() {
        (Ok(acc), env)
    } else {
        let step = spec_eval(list[i], env, (fuel - 1) as nat);
        match step.0 {
            Err(err) => (Err(err), step.1),
            Ok(v) => {
                let applied = spec_eval_function(f, seq![v], step.1, (fuel - 1) as nat);
                match applied.0 {
                    Err(err) => (Err(err), applied.1),
                    Ok(rv) => spec_map_from(f, list, i + 1, acc.push(rv), applied.1, fuel),
                }
            },
        }
    }
}

/// `(filter f data)`: the data unpacked as a vector, each element
/// evaluated, and the evaluated elements the predicate holds for kept in
/// order.
pub open spec fn spec_filter(f: ExprModel, data: ExprModel, env: EnvModel, fuel: nat) -> EvalStep
    decreases fuel, 2int, 0int,
{
    if fuel == 0 {
        (Err(EvalError::DepthExceeded), env)
    } else {
        match spec_to_vec(data) {
            Err(err) => (Err(err), env),
            Ok(unpacked) => match unpacked {
                ExprModel::Vec(list) => {
                    let run = spec_filter_from(f, list, 0, Seq::empty(), env, fuel);
                    match run.0 {
                        Err(err) => (Err(err), run.1),
                        Ok(rs) => (Ok(ExprModel::Vec(rs)), run.1),
                    }
                },
                _ => (Err(EvalError::TypeMismatch), env),
            },
        }
    }
}

/// The `filter` pass from element `i` on, `acc` holding the kept
/// elements so far.
pub open spec fn spec_filter_from(
    f: ExprModel,
    list: Seq<ExprModel>,
    i: int,
    acc: Seq<ExprModel>,
    env: EnvModel,
    fuel: nat,
) -> (Result<Seq<ExprModel>, EvalError>, EnvModel)
    decreases fuel, 1int, list.len() - i,
{
    if fuel == 0 {
        (Err(EvalError::DepthExceeded), env)
    } else if i < 0 || i >= list.len() {
        (Ok(acc), env)
    } else {
        let step = spec_eval(list[i], env, (fuel - 1) as nat);
        match step.0 {
            Err(err) => (Err(err), step.1),
            Ok(v) => {
                let applied = spec_eval_function(f, seq![v], step.1, (fuel - 1) as nat);
                match applied.0 {
                    Err(err) => (Err(err), applied.1),
                    Ok(rv) => spec_filter_from(
                        f,
                        list,
                        i + 1,
                        if spec_is_true(rv) {
                            acc.push(v)
                        } else {
                            acc
                        },
                        applied.1,
                        fuel,
                    ),
                }
            },
        }
    }
}

/// A sequence of top-level forms evaluated in order with the standing
/// depth budget, all results collected; the first error wins.
pub open spec fn spec_run_all(
    es: Seq<ExprModel>,
    i: int,
    acc: Seq<ExprModel>,
    env: EnvModel,
    fuel: nat,
) -> (Result<Seq<ExprModel>, EvalError>, EnvModel)
    decreases es.len() - i,
{
    if i < 0 || i >= es.len() {
        (Ok(acc), env)
    } else {
        let step = spec_eval(es[i], env, fuel);
        match step.0 {
            Err(err) => (Err(err), step.1),
            Ok(v) => spec_run_all(es, i + 1, acc.push(v), step.1, fuel),
        }
    }
}

} // verus!
