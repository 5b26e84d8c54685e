//! The symbol table of builtin operations, each flagged macro or function,
//! and the dispatch helpers the evaluator shares.

use vstd::prelude::*;
use crate::hashing::{key_hash, key_hash_of};
use crate::expr::ast::SExpr;
use crate::expr::error::EvalError;

pub mod arithmetic;
pub mod bindings;
pub mod branching;
pub mod collections;
pub mod comparators;
pub mod functions;
pub mod lambda;
pub mod logic;
pub mod misc;
pub mod num_types;
pub mod stream;
pub mod utils;

verus! {

/// Every builtin operation, one variant per registered symbol.
#[derive(Debug, Clone, Copy, PartialEq, Eq, Structural)]
pub enum Builtin {
    If,
    IfNot,
    When,
    WhenNot,
    Equals,
    NotEquals,
    GreaterThan,
    GreaterThanEquals,
    LessThan,
    LessThanEquals,
    Add,
    Subtract,
    Multiply,
    Divide,
    Let,
    Lambda,
    DefineFunc,
    Define,
    MapStream,
    Filter,
    Do,
    ToVec,
    ToArray,
    Inc,
    Concat,
    Size,
    GenHashMap,
    MergeHashMap,
    Conjuction,
    Or,
    And,
    Conditional,
    U8,
    U16,
    U32,
    U64,
    I8,
    I16,
    I32,
    I64,
    F32,
    F64,
}

/// The builtin a hashed symbol id names, if any. The table is fixed at
/// startup and shared read-only.
pub open spec fn spec_lookup_builtin(id: u64) -> Option<Builtin> {
    if false {
        None
    } else if id == key_hash_of("if"@) {
        Some(Builtin::If)
    } else if id == key_hash_of("if-not"@) {
        Some(Builtin::IfNot)
    } else if id == key_hash_of("when"@) {
        Some(Builtin::When)
    } else if id == key_hash_of("when-not"@) {
        Some(Builtin::WhenNot)
    } else if id == key_hash_of("="@) {
        Some(Builtin::Equals)
    } else if id == key_hash_of("!="@) {
        Some(Builtin::NotEquals)
    } else if id == key_hash_of(">"@) {
        Some(Builtin::GreaterThan)
    } else if id == key_hash_of(">="@) {
        Some(Builtin::GreaterThanEquals)
    } else if id == key_hash_of("<"@) {
        Some(Builtin::LessThan)
    } else if id == key_hash_of("<="@) {
        Some(Builtin::LessThanEquals)
    } else if id == key_hash_of("+"@) {
        Some(Builtin::Add)
    } else if id == key_hash_of("-"@) {
        Some(Builtin::Subtract)
    } else if id == key_hash_of("*"@) {
        Some(Builtin::Multiply)
    } else if id == key_hash_of("/"@) {
        Some(Builtin::Divide)
    } else if id == key_hash_of("let"@) {
        Some(Builtin::Let)
    } else if id == key_hash_of("lambda"@) {
        Some(Builtin::Lambda)
    } else if id == key_hash_of("defunc"@) {
        Some(Builtin::DefineFunc)
    } else if id == key_hash_of("def"@) {
        Some(Builtin::Define)
    } else if id == key_hash_of("map"@) {
        Some(Builtin::MapStream)
    } else if id == key_hash_of("filter"@) {
        Some(Builtin::Filter)
    } else if id == key_hash_of("do"@) {
        Some(Builtin::Do)
    } else if id == key_hash_of("to_vec"@) {
        Some(Builtin::ToVec)
    } else if id == key_hash_of("to_array"@) {
        Some(Builtin::ToArray)
    } else if id == key_hash_of("inc"@) {
        Some(Builtin::Inc)
    } else if id == key_hash_of("concat"@) {
        Some(Builtin::Concat)
    } else if id == key_hash_of("size"@) {
        Some(Builtin::Size)
    } else if id == key_hash_of("hash-map"@) {
        Some(Builtin::GenHashMap)
    } else if id == key_hash_of("merge"@) {
        Some(Builtin::MergeHashMap)
    } else if id == key_hash_of("conj"@) {
        Some(Builtin::Conjuction)
    } else if id == key_hash_of("or"@) {
        Some(Builtin::Or)
    } else if id == key_hash_of("and"@) {
        Some(Builtin::And)
    } else if id == key_hash_of("cond"@) {
        Some(Builtin::Conditional)
    } else if id == key_hash_of("u8"@) {
        Some(Builtin::U8)
    } else if id == key_hash_of("u16"@) {
        Some(Builtin::U16)
    } else if id == key_hash_of("u32"@) {
        Some(Builtin::U32)
    } else if id == key_hash_of("u64"@) {
        Some(Builtin::U64)
    } else if id == key_hash_of("i8"@) {
        Some(Builtin::I8)
    } else if id == key_hash_of("i16"@) {
        Some(Builtin::I16)
    } else if id == key_hash_of("i32"@) {
        Some(Builtin::I32)
    } else if id == key_hash_of("i64"@) {
        Some(Builtin::I64)
    } else if id == key_hash_of("f32"@) {
        Some(Builtin::F32)
    } else if id == key_hash_of("f64"@) {
        Some(Builtin::F64)
    } else {
        None
    }
}

/// Look a hashed symbol id up in the builtin table.
pub fn lookup_builtin(id: u64) -> (r: Option<Builtin>)
    ensures
        r == spec_lookup_builtin(id),
{
    if false {
        None
    } else if id == key_hash("if") {
        Some(Builtin::If)
    } else if id == key_hash("if-not") {
        Some(Builtin::IfNot)
    } else if id == key_hash("when") {
        Some(Builtin::When)
    } else if id == key_hash("when-not") {
        Some(Builtin::WhenNot)
    } else if id == key_hash("=") {
        Some(Builtin::Equals)
    } else if id == key_hash("!=") {
        Some(Builtin::NotEquals)
    } else if id == key_hash(">") {
        Some(Builtin::GreaterThan)
    } else if id == key_hash(">=") {
        Some(Builtin::GreaterThanEquals)
    } else if id == key_hash("<") {
        Some(Builtin::LessThan)
    } else if id == key_hash("<=") {
        Some(Builtin::LessThanEquals)
    } else if id == key_hash("+") {
        Some(Builtin::Add)
    } else if id == key_hash("-") {
        Some(Builtin::Subtract)
    } else if id == key_hash("*") {
        Some(Builtin::Multiply)
    } else if id == key_hash("/") {
        Some(Builtin::Divide)
    } else if id == key_hash("let") {
        Some(Builtin::Let)
    } else if id == key_hash("lambda") {
        Some(Builtin::Lambda)
    } else if id == key_hash("defunc") {
        Some(Builtin::DefineFunc)
    } else if id == key_hash("def") {
        Some(Builtin::Define)
    } else if id == key_hash("map") {
        Some(Builtin::MapStream)
    } else if id == key_hash("filter") {
        Some(Builtin::Filter)
    } else if id == key_hash("do") {
        Some(Builtin::Do)
    } else if id == key_hash("to_vec") {
        Some(Builtin::ToVec)
    } else if id == key_hash("to_array") {
        Some(Builtin::ToArray)
    } else if id == key_hash("inc") {
        Some(Builtin::Inc)
    } else if id == key_hash("concat") {
        Some(Builtin::Concat)
    } else if id == key_hash("size") {
        Some(Builtin::Size)
    } else if id == key_hash("hash-map") {
        Some(Builtin::GenHashMap)
    } else if id == key_hash("merge") {
        Some(Builtin::MergeHashMap)
    } else if id == key_hash("conj") {
        Some(Builtin::Conjuction)
    } else if id == key_hash("or") {
        Some(Builtin::Or)
    } else if id == key_hash("and") {
        Some(Builtin::And)
    } else if id == key_hash("cond") {
        Some(Builtin::Conditional)
    } else if id == key_hash("u8") {
        Some(Builtin::U8)
    } else if id == key_hash("u16") {
        Some(Builtin::U16)
    } else if id == key_hash("u32") {
        Some(Builtin::U32)
    } else if id == key_hash("u64") {
        Some(Builtin::U64)
    } else if id == key_hash("i8") {
        Some(Builtin::I8)
    } else if id == key_hash("i16") {
        Some(Builtin::I16)
    } else if id == key_hash("i32") {
        Some(Builtin::I32)
    } else if id == key_hash("i64") {
        Some(Builtin::I64)
    } else if id == key_hash("f32") {
        Some(Builtin::F32)
    } else if id == key_hash("f64") {
        Some(Builtin::F64)
    } else {
        None
    }
}

/// Whether a builtin is a macro: its arguments are passed unevaluated and
/// its handler controls evaluation order itself.
pub open spec fn spec_is_macro(b: Builtin) -> bool {
    match b {
        Builtin::If => true,
        Builtin::IfNot => true,
        Builtin::When => true,
        Builtin::WhenNot => true,
        Builtin::Equals => false,
        Builtin::NotEquals => false,
        Builtin::GreaterThan => false,
        Builtin::GreaterThanEquals => false,
        Builtin::LessThan => false,
        Builtin::LessThanEquals => false,
        Builtin::Add => false,
        Builtin::Subtract => false,
        Builtin::Multiply => false,
        Builtin::Divide => false,
        Builtin::Let => true,
        Builtin::Lambda => true,
        Builtin::DefineFunc => true,
        Builtin::Define => true,
        Builtin::MapStream => false,
        Builtin::Filter => false,
        Builtin::Do => false,
        Builtin::ToVec => false,
        Builtin::ToArray => false,
        Builtin::Inc => false,
        Builtin::Concat => false,
        Builtin::Size => false,
        Builtin::GenHashMap => false,
        Builtin::MergeHashMap => false,
        Builtin::Conjuction => false,
        Builtin::Or => true,
        Builtin::And => true,
        Builtin::Conditional => true,
        Builtin::U8 => false,
        Builtin::U16 => false,
        Builtin::U32 => false,
        Builtin::U64 => false,
        Builtin::I8 => false,
        Builtin::I16 => false,
        Builtin::I32 => false,
        Builtin::I64 => false,
        Builtin::F32 => false,
        Builtin::F64 => false,
    }
}

/// Whether a builtin is a macro.
pub fn is_macro(b: Builtin) -> (r: bool)
    ensures
        r == spec_is_macro(b),
{
    match b {
        Builtin::If => true,
        Builtin::IfNot => true,
        Builtin::When => true,
        Builtin::WhenNot => true,
        Builtin::Equals => false,
        Builtin::NotEquals => false,
        Builtin::GreaterThan => false,
        Builtin::GreaterThanEquals => false,
        Builtin::LessThan => false,
        Builtin::LessThanEquals => false,
        Builtin::Add => false,
        Builtin::Subtract => false,
        Builtin::Multiply => false,
        Builtin::Divide => false,
        Builtin::Let => true,
        Builtin::Lambda => true,
        Builtin::DefineFunc => true,
        Builtin::Define => true,
        Builtin::MapStream => false,
        Builtin::Filter => false,
        Builtin::Do => false,
        Builtin::ToVec => false,
        Builtin::ToArray => false,
        Builtin::Inc => false,
        Builtin::Concat => false,
        Builtin::Size => false,
        Builtin::GenHashMap => false,
        Builtin::MergeHashMap => false,
        Builtin::Conjuction => false,
        Builtin::Or => true,
        Builtin::And => true,
        Builtin::Conditional => true,
        Builtin::U8 => false,
        Builtin::U16 => false,
        Builtin::U32 => false,
        Builtin::U64 => false,
        Builtin::I8 => false,
        Builtin::I16 => false,
        Builtin::I32 => false,
        Builtin::I64 => false,
        Builtin::F32 => false,
        Builtin::F64 => false,
    }
}

/// Fail unless the parameter count is exactly `num`.
pub fn check_num_params(num: usize, params: &Vec<SExpr>) -> (r: Result<(), EvalError>)
    ensures
        r is Ok <==> params@.len() == num,
        r is Err ==> r == Err::<(), EvalError>(EvalError::ArityMismatch),
{
    if num != params.len() {
        Err(EvalError::ArityMismatch)
    } else {
        Ok(())
    }
}

/// Fail on an empty parameter list.
pub fn check_params_not_empty(params: &Vec<SExpr>) -> (r: Result<(), EvalError>)
    ensures
        r is Ok <==> params@.len() > 0,
        r is Err ==> r == Err::<(), EvalError>(EvalError::ArityMismatch),
{
    if params.len() == 0 {
        Err(EvalError::ArityMismatch)
    } else {
        Ok(())
    }
}

/// Fail unless at least `num` parameters were given.
pub fn check_params_not_least_than(num: usize, params: &Vec<SExpr>) -> (r: Result<(), EvalError>)
    ensures
        r is Ok <==> params@.len() >= num,
        r is Err ==> r == Err::<(), EvalError>(EvalError::ArityMismatch),
{
    if params.len() < num {
        Err(EvalError::ArityMismatch)
    } else {
        Ok(())
    }
}

/// Fail unless at most `num` parameters were given.
pub fn check_params_not_greater_than(num: usize, params: &Vec<SExpr>) -> (r: Result<(), EvalError>)
    ensures
        r is Ok <==> params@.len() <= num,
        r is Err ==> r == Err::<(), EvalError>(EvalError::ArityMismatch),
{
    if params.len() > num {
        Err(EvalError::ArityMismatch)
    } else {
        Ok(())
    }
}

/// Split a two-element parameter list into its pair.
pub fn split_pair(mut exprs: Vec<SExpr>) -> (r: (SExpr, SExpr))
    requires
        exprs@.len() == 2,
    ensures
        r.0@ == crate::expr::ast::models_of(&exprs)[0],
        r.1@ == crate::expr::ast::models_of(&exprs)[1],
{
    proof {
        SExpr::lemma_exprs_models(&exprs, 2);
    }
    let e2 = exprs.pop().unwrap();
    let e1 = exprs.pop().unwrap();
    (e1, e2)
}

} // verus!
