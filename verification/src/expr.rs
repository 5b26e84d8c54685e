//! The expression evaluator: the S-expression tree, the dynamically scoped
//! binding environment, builtin symbol dispatch, and lambda application.

pub mod ast;
pub mod error;
pub mod interpreter;
pub mod semantics;
pub mod symbols;
pub mod mirror;

pub use ast::{Value, SExpr, ValueModel, ExprModel, sexpr_eq, value_eq, res_model};
pub use error::EvalError;
pub use mirror::{Expr, MirrorModel};
