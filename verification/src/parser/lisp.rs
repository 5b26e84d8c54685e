//! The parser: a token stream to a sequence of S-expression trees. Symbols
//! are interned to their hashed ids at parse time.

use vstd::prelude::*;
use vstd::string::StrSliceExecFns;
use crate::hashing::{key_hash, key_hash_of};
use crate::lexer::lisp::{Token, TokenModel, token_models};
use crate::types::model::ValModel;
use crate::types::owned::OwnedValue;
use crate::expr::ast::{SExpr, ExprModel, ValueModel, models_of};

verus! {

/// Why parsing failed.
#[derive(Debug, Clone, Copy, PartialEq, Eq, Structural)]
pub enum ParseError {
    /// A closing delimiter where a form was expected.
    UnexpectedToken,
    /// The input ended inside a list.
    UnterminatedList,
    /// The input ended inside a vector.
    UnterminatedVec,
    /// An integer literal that is empty, non-decimal, or out of its unit's
    /// range.
    BadIntLiteral,
    /// An integer unit outside the registry.
    UnknownIntUnit,
    /// A float literal: this build carries floats as bit patterns and
    /// parses no textual form of them.
    FloatUnsupported,
}

/// A decimal digit's value.
pub open spec fn digit_value(c: char) -> u64 {
    ((c as u32) - ('0' as u32)) as u64
}

/// Fold decimal digits into a 64-bit magnitude; a non-digit or an overflow
/// gives nothing.
pub open spec fn dec_fold(ds: Seq<char>, i: int, acc: u64) -> Option<u64>
    decreases ds.len() - i,
{
    if i < 0 || i >= ds.len() {
        Some(acc)
    } else if !crate::lexer::lisp::is_digit(ds[i]) {
        None
    } else if acc > 0x1999_9999_9999_9999 || (acc == 0x1999_9999_9999_9999 && digit_value(ds[i])
        > 5) {
        None
    } else {
        dec_fold(ds, i + 1, (acc * 10 + digit_value(ds[i])) as u64)
    }
}

/// The value an integer literal denotes in its unit's type: sign and
/// magnitude parsed in decimal, then checked against the unit's range.
pub open spec fn spec_parse_int(ds: Seq<char>, unit: Seq<char>) -> Result<ValModel, ParseError> {
    let neg = ds.len() > 0 && ds[0] == '-';
    let start: int = if neg {
        1
    } else {
        0
    };
    if ds.len() <= start {
        Err(ParseError::BadIntLiteral)
    } else {
        match dec_fold(ds, start, 0) {
            None => Err(ParseError::BadIntLiteral),
            Some(mag) => if unit == seq!['u', '8'] {
                if !neg && mag <= u8::MAX {
                    Ok(ValModel::U8(mag as u8))
                } else {
                    Err(ParseError::BadIntLiteral)
                }
            } else if unit == seq!['u', '1', '6'] {
                if !neg && mag <= u16::MAX {
                    Ok(ValModel::U16(mag as u16))
                } else {
                    Err(ParseError::BadIntLiteral)
                }
            } else if unit == seq!['u', '3', '2'] {
                if !neg && mag <= u32::MAX {
                    Ok(ValModel::U32(mag as u32))
                } else {
                    Err(ParseError::BadIntLiteral)
                }
            } else if unit == seq!['u', '6', '4'] {
                if !neg {
                    Ok(ValModel::U64(mag))
                } else {
                    Err(ParseError::BadIntLiteral)
                }
            } else if unit == seq!['i', '8'] {
                if neg && mag <= 128 {
                    Ok(ValModel::I8((-(mag as int)) as i8))
                } else if !neg && mag <= i8::MAX {
                    Ok(ValModel::I8(mag as i8))
                } else {
                    Err(ParseError::BadIntLiteral)
                }
            } else if unit == seq!['i', '1', '6'] {
                if neg && mag <= 32768 {
                    Ok(ValModel::I16((-(mag as int)) as i16))
                } else if !neg && mag <= i16::MAX {
                    Ok(ValModel::I16(mag as i16))
                } else {
                    Err(ParseError::BadIntLiteral)
                }
            } else if unit == seq!['i', '3', '2'] {
                if neg && mag <= 0x8000_0000 {
                    Ok(ValModel::I32((-(mag as int)) as i32))
                } else if !neg && mag <= i32::MAX {
                    Ok(ValModel::I32(mag as i32))
                } else {
                    Err(ParseError::BadIntLiteral)
                }
            } else if unit == seq!['i', '6', '4'] {
                if neg && mag <= 0x8000_0000_0000_0000 {
                    Ok(ValModel::I64((-(mag as int)) as i64))
                } else if !neg && mag <= i64::MAX {
                    Ok(ValModel::I64(mag as i64))
                } else {
                    Err(ParseError::BadIntLiteral)
                }
            } else {
                Err(ParseError::UnknownIntUnit)
            },
        }
    }
}

/// The form one token position starts, and the position after it.
pub open spec fn spec_parse_token(ts: Seq<TokenModel>, pos: int) -> Result<
    (ExprModel, int),
    ParseError,
>
    decreases ts.len() - pos, 1int,
    via spec_parse_token_decreases
{
    if pos < 0 || pos >= ts.len() {
        Err(ParseError::UnexpectedToken)
    } else {
        match ts[pos] {
            TokenModel::LeftParentheses => match spec_parse_items(ts, pos + 1, true) {
                Err(e) => Err(e),
                Ok((items, np)) => Ok((ExprModel::List(items), np)),
            },
            TokenModel::LeftVecParentheses => match spec_parse_items(ts, pos + 1, false) {
                Err(e) => Err(e),
                Ok((items, np)) => Ok((ExprModel::Vec(items), np)),
            },
            TokenModel::Symbol(name) => Ok(
                (ExprModel::ISymbol(key_hash_of(name), name), pos + 1),
            ),
            TokenModel::IntNumber(d, u) => match spec_parse_int(d, u) {
                Err(e) => Err(e),
                Ok(v) => Ok((ExprModel::Value(ValueModel::Owned(v)), pos + 1)),
            },
            TokenModel::FloatNumber(_, _) => Err(ParseError::FloatUnsupported),
            TokenModel::String(s) => Ok(
                (ExprModel::Value(ValueModel::Owned(ValModel::String(s))), pos + 1),
            ),
            TokenModel::RightParentheses => Err(ParseError::UnexpectedToken),
            TokenModel::RightVecParentheses => Err(ParseError::UnexpectedToken),
        }
    }
}

/// The members of a list or vector from `pos` until its closing delimiter,
/// and the position after the delimiter.
pub open spec fn spec_parse_items(ts: Seq<TokenModel>, pos: int, list: bool) -> Result<
    (Seq<ExprModel>, int),
    ParseError,
>
    decreases ts.len() - pos, 2int,
    via spec_parse_items_decreases
{
    if pos < 0 || pos >= ts.len() {
        if list {
            Err(ParseError::UnterminatedList)
        } else {
            Err(ParseError::UnterminatedVec)
        }
    } else if list && ts[pos] is RightParentheses {
        Ok((Seq::empty(), pos + 1))
    } else if !list && ts[pos] is RightVecParentheses {
        Ok((Seq::empty(), pos + 1))
    } else {
        match spec_parse_token(ts, pos) {
            Err(e) => Err(e),
            Ok((e, np)) => match spec_parse_items(ts, advanced(ts.len() as int, pos, np), list) {
                Err(e2) => Err(e2),
                Ok((rest, np2)) => Ok((seq![e] + rest, np2)),
            },
        }
    }
}

/// The position a sub-parse hands back; reading it as at least one token
/// forward and at most the end is what every successful sub-parse
/// guarantees.
pub open spec fn advanced(len: int, pos: int, np: int) -> int {
    if np > pos && np <= len {
        np
    } else {
        pos + 1
    }
}

#[via_fn]
proof fn spec_parse_token_decreases(ts: Seq<TokenModel>, pos: int) {
}

#[via_fn]
proof fn spec_parse_items_decreases(ts: Seq<TokenModel>, pos: int, list: bool) {
}

/// Parsing one form moves the position strictly forward, within the end.
pub proof fn lemma_parse_token_advances(ts: Seq<TokenModel>, pos: int)
    requires
        0 <= pos < ts.len(),
    ensures
        spec_parse_token(ts, pos) matches Ok((_, np)) ==> pos < np <= ts.len(),
    decreases ts.len() - pos, 1int,
{
    match ts[pos] {
        TokenModel::LeftParentheses => {
            lemma_parse_items_advances(ts, pos + 1, true);
        },
        TokenModel::LeftVecParentheses => {
            lemma_parse_items_advances(ts, pos + 1, false);
        },
        _ => {},
    }
}

/// Parsing members moves the position forward past the closer, within the
/// end.
pub proof fn lemma_parse_items_advances(ts: Seq<TokenModel>, pos: int, list: bool)
    requires
        0 <= pos <= ts.len(),
    ensures
        spec_parse_items(ts, pos, list) matches Ok((_, np)) ==> pos < np <= ts.len(),
    decreases ts.len() - pos, 2int,
{
    if pos < ts.len() {
        let closer = (list && ts[pos] is RightParentheses) || (!list
            && ts[pos] is RightVecParentheses);
        if !closer {
            lemma_parse_token_advances(ts, pos);
            match spec_parse_token(ts, pos) {
                Ok((e, np)) => {
                    lemma_parse_items_advances(ts, advanced(ts.len() as int, pos, np), list);
                },
                Err(_) => {},
            }
        }
    }
}

/// The top-level sequence of forms from `pos` on.
pub open spec fn spec_parse_all(ts: Seq<TokenModel>, pos: int) -> Result<Seq<ExprModel>, ParseError>
    decreases ts.len() - pos,
    via spec_parse_all_decreases
{
    if pos < 0 || pos >= ts.len() {
        Ok(Seq::empty())
    } else {
        match spec_parse_token(ts, pos) {
            Err(e) => Err(e),
            Ok((e, np)) => match spec_parse_all(ts, advanced(ts.len() as int, pos, np)) {
                Err(e2) => Err(e2),
                Ok(rest) => Ok(seq![e] + rest),
            },
        }
    }
}

#[via_fn]
proof fn spec_parse_all_decreases(ts: Seq<TokenModel>, pos: int) {
}

/// Parse the decimal magnitude of an integer literal's digits.
fn parse_magnitude(ds: &Vec<char>, start: usize) -> (r: Option<u64>)
    requires
        start <= ds@.len(),
    ensures
        r == dec_fold(ds@, start as int, 0),
{
    parse_magnitude_from(ds, start, 0)
}

/// Fold the digits from `i` on into the accumulator.
fn parse_magnitude_from(ds: &Vec<char>, i: usize, acc: u64) -> (r: Option<u64>)
    requires
        i <= ds@.len(),
    ensures
        r == dec_fold(ds@, i as int, acc),
    decreases ds@.len() - i,
{
    if i >= ds.len() {
        return Some(acc);
    }
    let c = ds[i];
    if !('0' <= c && c <= '9') {
        return None;
    }
    let d: u64 = ((c as u32) - ('0' as u32)) as u64;
    if acc > 0x1999_9999_9999_9999 || (acc == 0x1999_9999_9999_9999 && d > 5) {
        return None;
    }
    parse_magnitude_from(ds, i + 1, acc * 10 + d)
}

/// Parse an integer literal's digit text in its unit's type.
pub fn parse_int(digits: &str, unit: &str) -> (r: Result<OwnedValue, ParseError>)
    ensures
        spec_parse_int(digits@, unit@) matches Ok(v) ==> (r matches Ok(ov) && ov@ == v),
        spec_parse_int(digits@, unit@) matches Err(e) ==> r == Err::<OwnedValue, ParseError>(e),
{
    let n = digits.unicode_len();
    let mut ds: Vec<char> = Vec::new();
    let mut i: usize = 0;
    while i < n
        invariant
            n == digits@.len(),
            i <= n,
            ds@ =~= digits@.subrange(0, i as int),
        decreases n - i,
    {
        ds.push(digits.get_char(i));
        proof {
            assert(ds@ =~= digits@.subrange(0, i + 1));
        }
        i = i + 1;
    }
    proof {
        assert(ds@ =~= digits@);
    }
    let neg = ds.len() > 0 && ds[0] == '-';
    let start: usize = if neg {
        1
    } else {
        0
    };
    if ds.len() <= start {
        return Err(ParseError::BadIntLiteral);
    }
    let mag = match parse_magnitude(&ds, start) {
        None => {
            return Err(ParseError::BadIntLiteral);
        },
        Some(m) => m,
    };
    let mut u: Vec<char> = Vec::new();
    let un = unit.unicode_len();
    let mut j: usize = 0;
    while j < un
        invariant
            un == unit@.len(),
            j <= un,
            u@ =~= unit@.subrange(0, j as int),
        decreases un - j,
    {
        u.push(unit.get_char(j));
        proof {
            assert(u@ =~= unit@.subrange(0, j + 1));
        }
        j = j + 1;
    }
    proof {
        assert(u@ =~= unit@);
    }
    if u.len() == 2 && u[0] == 'u' && u[1] == '8' {
        proof {
            assert(u@ =~= seq!['u', '8']);
        }
        if !neg && mag <= u8::MAX as u64 {
            Ok(OwnedValue::U8(mag as u8))
        } else {
            Err(ParseError::BadIntLiteral)
        }
    } else if u.len() == 3 && u[0] == 'u' && u[1] == '1' && u[2] == '6' {
        proof {
            assert(u@ =~= seq!['u', '1', '6']);
        }
        if !neg && mag <= u16::MAX as u64 {
            Ok(OwnedValue::U16(mag as u16))
        } else {
            Err(ParseError::BadIntLiteral)
        }
    } else if u.len() == 3 && u[0] == 'u' && u[1] == '3' && u[2] == '2' {
        proof {
            assert(u@ =~= seq!['u', '3', '2']);
        }
        if !neg && mag <= u32::MAX as u64 {
            Ok(OwnedValue::U32(mag as u32))
        } else {
            Err(ParseError::BadIntLiteral)
        }
    } else if u.len() == 3 && u[0] == 'u' && u[1] == '6' && u[2] == '4' {
        proof {
            assert(u@ =~= seq!['u', '6', '4']);
        }
        if !neg {
            Ok(OwnedValue::U64(mag))
        } else {
            Err(ParseError::BadIntLiteral)
        }
    } else if u.len() == 2 && u[0] == 'i' && u[1] == '8' {
        proof {
            assert(u@ =~= seq!['i', '8']);
        }
        if neg && mag <= 128 {
            Ok(OwnedValue::I8((-(mag as i64)) as i8))
        } else if !neg && mag <= i8::MAX as u64 {
            Ok(OwnedValue::I8(mag as i8))
        } else {
            Err(ParseError::BadIntLiteral)
        }
    } else if u.len() == 3 && u[0] == 'i' && u[1] == '1' && u[2] == '6' {
        proof {
            assert(u@ =~= seq!['i', '1', '6']);
        }
        if neg && mag <= 32768 {
            Ok(OwnedValue::I16((-(mag as i64)) as i16))
        } else if !neg && mag <= i16::MAX as u64 {
            Ok(OwnedValue::I16(mag as i16))
        } else {
            Err(ParseError::BadIntLiteral)
        }
    } else if u.len() == 3 && u[0] == 'i' && u[1] == '3' && u[2] == '2' {
        proof {
            assert(u@ =~= seq!['i', '3', '2']);
        }
        if neg && mag <= 0x8000_0000 {
            Ok(OwnedValue::I32((-(mag as i64)) as i32))
        } else if !neg && mag <= i32::MAX as u64 {
            Ok(OwnedValue::I32(mag as i32))
        } else {
            Err(ParseError::BadIntLiteral)
        }
    } else if u.len() == 3 && u[0] == 'i' && u[1] == '6' && u[2] == '4' {
        proof {
            assert(u@ =~= seq!['i', '6', '4']);
        }
        if neg && mag <= 0x8000_0000_0000_0000 {
            let r: i64 = if mag == 0x8000_0000_0000_0000 {
                i64::MIN
            } else {
                -(mag as i64)
            };
            proof {
                assert(r as int == -(mag as int));
            }
            Ok(OwnedValue::I64(r))
        } else if !neg && mag <= i64::MAX as u64 {
            Ok(OwnedValue::I64(mag as i64))
        } else {
            Err(ParseError::BadIntLiteral)
        }
    } else {
        proof {
            assert(!is_known_unit(u@));
        }
        Err(ParseError::UnknownIntUnit)
    }
}

/// A unit suffix the integer parser knows.
pub open spec fn is_known_unit(u: Seq<char>) -> bool {
    crate::lexer::lisp::is_int_unit(u)
}

/// Parse one form starting at token `pos`.
fn parse_token_at(tokens: &Vec<Token>, pos: usize) -> (r: Result<(SExpr, usize), ParseError>)
    requires
        pos < tokens@.len(),
    ensures
        spec_parse_token(token_models(tokens@), pos as int) matches Ok((e, np)) ==> (r matches Ok(
            p,
        ) && p.0@ == e && p.1 == np),
        spec_parse_token(token_models(tokens@), pos as int) matches Err(x) ==> r == Err::<
            (SExpr, usize),
            ParseError,
        >(x),
    decreases tokens@.len() - pos, 1int,
{
    let ghost ts = token_models(tokens@);
    let n = tokens.len();
    match &tokens[pos] {
        Token::LeftParentheses => {
            match parse_items_at(tokens, pos + 1, true) {
                Err(e) => Err(e),
                Ok((items, np)) => {
                    let r = SExpr::List(items);
                    proof {
                        SExpr::lemma_exprs_models(&r->List_0, r->List_0@.len() as nat);
                    }
                    Ok((r, np))
                },
            }
        },
        Token::LeftVecParentheses => {
            match parse_items_at(tokens, pos + 1, false) {
                Err(e) => Err(e),
                Ok((items, np)) => {
                    let r = SExpr::Vec(items);
                    proof {
                        SExpr::lemma_exprs_models(&r->Vec_0, r->Vec_0@.len() as nat);
                    }
                    Ok((r, np))
                },
            }
        },
        Token::Symbol(name) => {
            let id = key_hash(name.as_str());
            Ok((SExpr::ISymbol(id, name.clone()), pos + 1))
        },
        Token::IntNumber(d, u) => {
            match parse_int(d.as_str(), u.as_str()) {
                Err(e) => Err(e),
                Ok(v) => Ok((SExpr::owned_value(v), pos + 1)),
            }
        },
        Token::FloatNumber(_, _) => Err(ParseError::FloatUnsupported),
        Token::String(s) => Ok((SExpr::owned_value(OwnedValue::String(s.clone())), pos + 1)),
        Token::RightParentheses => Err(ParseError::UnexpectedToken),
        Token::RightVecParentheses => Err(ParseError::UnexpectedToken),
    }
}

/// Parse members until the closing delimiter.
fn parse_items_at(tokens: &Vec<Token>, pos: usize, list: bool) -> (r: Result<
    (Vec<SExpr>, usize),
    ParseError,
>)
    requires
        pos <= tokens@.len(),
    ensures
        spec_parse_items(token_models(tokens@), pos as int, list) matches Ok((items, np)) ==> (r
            matches Ok(p) && models_of(&p.0) == items && p.1 == np),
        spec_parse_items(token_models(tokens@), pos as int, list) matches Err(x) ==> r == Err::<
            (Vec<SExpr>, usize),
            ParseError,
        >(x),
    decreases tokens@.len() - pos, 2int,
{
    let ghost ts = token_models(tokens@);
    if pos >= tokens.len() {
        if list {
            return Err(ParseError::UnterminatedList);
        } else {
            return Err(ParseError::UnterminatedVec);
        }
    }
    let closer = match &tokens[pos] {
        Token::RightParentheses => list,
        Token::RightVecParentheses => !list,
        _ => false,
    };
    if closer {
        let empty: Vec<SExpr> = Vec::new();
        proof {
            SExpr::lemma_exprs_models(&empty, 0);
            assert(models_of(&empty) =~= Seq::<ExprModel>::empty());
        }
        return Ok((empty, pos + 1));
    }
    match parse_token_at(tokens, pos) {
        Err(e) => Err(e),
        Ok((e, np)) => {
            proof {
                lemma_parse_token_advances(ts, pos as int);
                assert(advanced(ts.len() as int, pos as int, np as int) == np as int);
            }
            match parse_items_at(tokens, np, list) {
                Err(e2) => Err(e2),
                Ok((rest, np2)) => {
                    let mut out = rest;
                    proof {
                        SExpr::lemma_exprs_models(&out, out@.len() as nat);
                    }
                    out.insert(0, e);
                    proof {
                        SExpr::lemma_exprs_models(&out, out@.len() as nat);
                        match spec_parse_items(ts, np as int, list) {
                            Ok((rest_m, _)) => {
                                assert(models_of(&out) =~= seq![out@[0].model()] + rest_m);
                            },
                            Err(_) => {},
                        }
                    }
                    Ok((out, np2))
                },
            }
        },
    }
}

/// The parser over the token stream.
pub struct Parser;

impl Parser {
    /// Parse a token stream into the sequence of top-level forms.
    pub fn parse_to_expr(tokens: Vec<Token>) -> (r: Result<Vec<SExpr>, ParseError>)
        ensures
            spec_parse_all(token_models(tokens@), 0) matches Ok(es) ==> (r matches Ok(v)
                && models_of(&v) == es),
            spec_parse_all(token_models(tokens@), 0) matches Err(x) ==> r == Err::<
                Vec<SExpr>,
                ParseError,
            >(x),
    {
        parse_all_from(&tokens, 0)
    }
}

/// Parse every top-level form from `pos` on.
fn parse_all_from(tokens: &Vec<Token>, pos: usize) -> (r: Result<Vec<SExpr>, ParseError>)
    requires
        pos <= tokens@.len(),
    ensures
        spec_parse_all(token_models(tokens@), pos as int) matches Ok(es) ==> (r matches Ok(v)
            && models_of(&v) == es),
        spec_parse_all(token_models(tokens@), pos as int) matches Err(x) ==> r == Err::<
            Vec<SExpr>,
            ParseError,
        >(x),
    decreases tokens@.len() - pos,
{
    let ghost ts = token_models(tokens@);
    if pos >= tokens.len() {
        let empty: Vec<SExpr> = Vec::new();
        proof {
            SExpr::lemma_exprs_models(&empty, 0);
            assert(models_of(&empty) =~= Seq::<ExprModel>::empty());
        }
        return Ok(empty);
    }
    match parse_token_at(tokens, pos) {
        Err(e) => Err(e),
        Ok((e, np)) => {
            proof {
                lemma_parse_token_advances(ts, pos as int);
                assert(advanced(ts.len() as int, pos as int, np as int) == np as int);
            }
            match parse_all_from(tokens, np) {
                Err(e2) => Err(e2),
                Ok(rest) => {
                    let mut out = rest;
                    proof {
                        SExpr::lemma_exprs_models(&out, out@.len() as nat);
                    }
                    out.insert(0, e);
                    proof {
                        SExpr::lemma_exprs_models(&out, out@.len() as nat);
                        match spec_parse_all(ts, np as int) {
                            Ok(rest_m) => {
                                assert(models_of(&out) =~= seq![out@[0].model()] + rest_m);
                            },
                            Err(_) => {},
                        }
                    }
                    Ok(out)
                },
            }
        },
    }
}

} // verus!
