//! The character-level tokenizer.

pub mod lisp;
