//! The evaluator's error taxonomy: every failure an evaluation can report,
//! as a value the host can inspect.

use vstd::prelude::*;

verus! {

/// Why an evaluation failed.
#[derive(Debug, Clone, Copy, PartialEq, Eq, Structural)]
pub enum EvalError {
    /// A builtin or lambda received the wrong number of arguments.
    ArityMismatch,
    /// An operand's type does not fit the operation, or a later operand
    /// departs from the type the first operand fixed.
    TypeMismatch,
    /// The head of a call resolves to no binding and no builtin.
    UnknownSymbol,
    /// The head of a call is a value that cannot be applied.
    NotCallable,
    /// A malformed special form: a binding form that is not a vector, an
    /// odd key/value count, or a lambda parameter that is not a symbol.
    MalformedForm,
    /// Integer division by zero.
    DivisionByZero,
    /// An arithmetic step left the operand type's range.
    ArithmeticOverflow,
    /// The evaluation depth budget ran out before the expression finished.
    DepthExceeded,
}

} // verus!
