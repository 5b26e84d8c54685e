//! The thin embedding bootstrap: source text in, results out.

pub mod lisp;
