//! The embedding API: construct an interpreter, parse source text, and
//! evaluate it.

use vstd::prelude::*;
use crate::lexer::lisp::{tokenize_str, spec_tokenize, token_models, LexError};
use crate::parser::lisp::{Parser, spec_parse_all, ParseError};
use crate::expr::ast::{SExpr, ExprModel, models_of};
use crate::expr::error::EvalError;
use crate::expr::interpreter::{Interpreter, env_le};
use crate::expr::mirror::{Expr, spec_from_sexpr};

verus! {

/// Why a source-to-result run failed: in the tokenizer, the parser, or the
/// evaluator.
#[derive(Debug, Clone, Copy, PartialEq, Eq, Structural)]
pub enum LispError {
    Lex(LexError),
    Parse(ParseError),
    Eval(EvalError),
}

/// What parsing source text yields: the tokenizer's error, the parser's
/// error, or the parsed top-level forms.
pub open spec fn spec_parse_source(code: Seq<char>) -> Result<Seq<ExprModel>, LispError> {
    match spec_tokenize(code, 0) {
        Err(e) => Err(LispError::Lex(e)),
        Ok(ts) => match spec_parse_all(ts, 0) {
            Err(e) => Err(LispError::Parse(e)),
            Ok(es) => Ok(es),
        },
    }
}

/// Tokenize and parse source text into its top-level forms.
pub fn parse_to_sexpr(code: &str) -> (r: Result<Vec<SExpr>, LispError>)
    ensures
        spec_parse_source(code@) matches Ok(es) ==> (r matches Ok(v) && models_of(&v) == es),
        spec_parse_source(code@) matches Err(x) ==> r == Err::<Vec<SExpr>, LispError>(x),
{
    let tokens = match tokenize_str(code) {
        Err(e) => {
            return Err(LispError::Lex(e));
        },
        Ok(ts) => ts,
    };
    match Parser::parse_to_expr(tokens) {
        Err(e) => Err(LispError::Parse(e)),
        Ok(v) => Ok(v),
    }
}

/// Tokenize and parse source text into stored-form (mirror) trees, fit
/// for durable storage.
pub fn parse_to_serde_expr(code: &str) -> (r: Result<Vec<Expr>, LispError>)
    ensures
        spec_parse_source(code@) matches Ok(es) ==> (r matches Ok(v) && v@.len() == es.len() && (
        forall|i: int| 0 <= i < es.len() ==> (#[trigger] v@[i]).model() == spec_from_sexpr(es[i]))),
        spec_parse_source(code@) matches Err(x) ==> r == Err::<Vec<Expr>, LispError>(x),
{
    let parsed = match parse_to_sexpr(code) {
        Err(e) => {
            return Err(e);
        },
        Ok(v) => v,
    };
    proof {
        SExpr::lemma_exprs_models(&parsed, parsed@.len() as nat);
    }
    let mut out: Vec<Expr> = Vec::new();
    let mut i: usize = 0;
    let n = parsed.len();
    while i < n
        invariant
            n == parsed@.len(),
            i <= n,
            out@.len() == i,
            forall|j: int|
                0 <= j < i ==> (#[trigger] out@[j]).model() == spec_from_sexpr(
                    parsed@[j].model(),
                ),
            forall|j: int|
                0 <= j < parsed@.len() ==> #[trigger] models_of(&parsed)[j] == parsed@[j].model(),
        decreases n - i,
    {
        out.push(Expr::from_sexpr_ref(&parsed[i]));
        i = i + 1;
    }
    Ok(out)
}

/// A fresh interpreter with an empty environment.
pub fn get_interpreter() -> (r: Interpreter)
    ensures
        r.env@ == Seq::<(u64, Seq<crate::expr::ast::ExprModel>)>::empty(),
{
    Interpreter::new()
}

/// Evaluate a sequence of forms against an interpreter, keeping the last
/// result, exactly as a `do` form over them with the standing depth
/// budget. No binding depth of the interpreter's environment shrinks.
pub fn eval(interpreter: &mut Interpreter, exprs: Vec<SExpr>) -> (r: Result<SExpr, EvalError>)
    ensures
        env_le(old(interpreter).env@, final(interpreter).env@),
        (crate::expr::ast::res_model(r), final(interpreter).env@)
            == crate::expr::semantics::spec_do(
            models_of(&exprs),
            old(interpreter).env@,
            crate::expr::interpreter::DEFAULT_EVAL_FUEL as nat,
        ),
{
    interpreter.eval(exprs)
}

/// What evaluating parsed source against an environment yields: the parsed
/// top-level forms run as a `do` form with the standing depth budget.
pub open spec fn spec_eval_source(es: Seq<ExprModel>, env: crate::expr::interpreter::EnvModel) -> (
    Result<ExprModel, crate::expr::error::EvalError>,
    crate::expr::interpreter::EnvModel,
) {
    crate::expr::semantics::spec_do(
        es,
        env,
        crate::expr::interpreter::DEFAULT_EVAL_FUEL as nat,
    )
}

/// Parse and evaluate source text against an interpreter: a tokenizer or
/// parser error is returned as such and leaves the environment untouched;
/// source that parses is evaluated exactly as its forms run as a `do`
/// form, an evaluation error wrapped as such.
pub fn eval_string(interpreter: &mut Interpreter, code: &str) -> (r: Result<SExpr, LispError>)
    ensures
        env_le(old(interpreter).env@, final(interpreter).env@),
        spec_parse_source(code@) matches Err(x) ==> r == Err::<SExpr, LispError>(x)
            && final(interpreter).env@ == old(interpreter).env@,
        spec_parse_source(code@) matches Ok(es) ==> {
            let run = spec_eval_source(es, old(interpreter).env@);
            final(interpreter).env@ == run.1 && (match run.0 {
                Ok(v) => r matches Ok(e) && e@ == v,
                Err(err) => r == Err::<SExpr, LispError>(LispError::Eval(err)),
            })
        },
{
    let exprs = match parse_to_sexpr(code) {
        Err(e) => {
            return Err(e);
        },
        Ok(v) => v,
    };
    match eval(interpreter, exprs) {
        Err(e) => Err(LispError::Eval(e)),
        Ok(v) => Ok(v),
    }
}

} // verus!
