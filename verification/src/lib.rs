//! An embeddable dynamically-typed value engine with a small Lisp-like
//! expression evaluator operating directly on that value representation.
//!
//! The value engine offers a closed type registry, owned and shared (borrowed)
//! value representations that stay semantically interchangeable, binary
//! encode/decode routines over byte buffers, order-preserving feature keys and
//! content hashes, and a field-name-to-hashed-key map. The evaluator walks an
//! S-expression tree with dynamically scoped bindings, builtin macros and
//! functions, and lambda application.

pub mod hashing;
pub mod types;
pub mod expr;
pub mod lexer;
pub mod parser;
pub mod integrated;
