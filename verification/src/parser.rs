//! The token-to-tree parser.

pub mod lisp;
