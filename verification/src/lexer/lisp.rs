//! The tokenizer: source text to a token stream of delimiters, symbols,
//! unit-suffixed numbers and strings with escape sequences.

use vstd::prelude::*;
use vstd::string::StrSliceExecFns;

verus! {

/// A lexed token. Numbers carry their digit text and unit suffix
/// separately.
#[derive(Debug)]
pub enum Token {
    LeftParentheses,
    RightParentheses,
    Symbol(String),
    IntNumber(String, String),
    FloatNumber(String, String),
    String(String),
    LeftVecParentheses,
    RightVecParentheses,
}

/// The model of a token.
#[verifier::ext_equal]
pub enum TokenModel {
    LeftParentheses,
    RightParentheses,
    Symbol(Seq<char>),
    IntNumber(Seq<char>, Seq<char>),
    FloatNumber(Seq<char>, Seq<char>),
    String(Seq<char>),
    LeftVecParentheses,
    RightVecParentheses,
}

impl Token {
    /// The model of this token.
    pub open spec fn model(&self) -> TokenModel {
        match self {
            Token::LeftParentheses => TokenModel::LeftParentheses,
            Token::RightParentheses => TokenModel::RightParentheses,
            Token::Symbol(s) => TokenModel::Symbol(s@),
            Token::IntNumber(d, u) => TokenModel::IntNumber(d@, u@),
            Token::FloatNumber(d, u) => TokenModel::FloatNumber(d@, u@),
            Token::String(s) => TokenModel::String(s@),
            Token::LeftVecParentheses => TokenModel::LeftVecParentheses,
            Token::RightVecParentheses => TokenModel::RightVecParentheses,
        }
    }
}

impl View for Token {
    type V = TokenModel;

    open spec fn view(&self) -> TokenModel {
        self.model()
    }
}

/// The models of a token list.
pub open spec fn token_models(ts: Seq<Token>) -> Seq<TokenModel> {
    Seq::new(ts.len(), |i: int| ts[i].model())
}

/// Why lexing failed.
#[derive(Debug, Clone, Copy, PartialEq, Eq, Structural)]
pub enum LexError {
    /// A digit continued a unit suffix no unit has.
    UnexpectedUnitChar,
    /// A character no number may contain.
    UnexpectedNumberChar,
    /// A second decimal point in one number.
    DuplicateFloatPoint,
    /// An integer's unit suffix is not one of the integer units.
    InvalidIntUnit,
    /// A float's unit suffix is not one of the float units.
    InvalidFloatUnit,
    /// A unicode escape with no hex digits.
    BadEscapeHex,
    /// A unicode escape naming no valid code point.
    BadEscapeCodePoint,
    /// An escape character outside the recognized set.
    UnknownEscape,
    /// The input ended inside an escape sequence.
    UnexpectedEndOfInput,
}

/// Whitespace, as the tokenizer skips it.
pub open spec fn is_ws(c: char) -> bool {
    c == ' ' || c == '\t' || c == '\r' || c == '\n'
}

/// A decimal digit.
pub open spec fn is_digit(c: char) -> bool {
    '0' <= c && c <= '9'
}

/// A lower-case hexadecimal digit.
pub open spec fn is_hex(c: char) -> bool {
    is_digit(c) || ('a' <= c && c <= 'f')
}

/// One position forward, capped at the input's end; every position at or
/// past the end reads as end-of-input.
pub open spec fn step(len: nat, q: nat) -> nat {
    if q + 1 >= len {
        len
    } else {
        q + 1
    }
}

/// The cursor after skipping whitespace from the character after `pos` on.
pub open spec fn spec_skip_ws(cs: Seq<char>, pos: nat) -> nat
    decreases cs.len() - pos,
{
    if pos + 1 >= cs.len() {
        cs.len()
    } else if is_ws(cs[pos + 1 as int]) {
        spec_skip_ws(cs, pos + 1)
    } else {
        pos + 1
    }
}

/// The number state machine from cursor `p` on: the digit text, unit text
/// and float flag collected so far, and where the cursor ends.
pub open spec fn spec_num_loop(
    cs: Seq<char>,
    p: nat,
    digits: Seq<char>,
    unit: Seq<char>,
    is_float: bool,
) -> Result<(Seq<char>, Seq<char>, bool, nat), LexError>
    decreases cs.len() - p,
{
    if p + 1 >= cs.len() {
        Ok((digits, unit, is_float, cs.len()))
    } else {
        let q = p + 1;
        let c = cs[q as int];
        if is_digit(c) {
            if unit.len() == 1 && ((unit[0] == 'u' && c == '8') || (unit[0] == 'i' && c == '8')) {
                Ok((digits, unit.push(c), is_float, step(cs.len(), q)))
            } else if unit.len() == 2 && ((unit[0] == 'u' || unit[0] == 'i') && ((unit[1] == '1'
                && c == '6') || (unit[1] == '3' && c == '2') || (unit[1] == '6' && c == '4'))) {
                Ok((digits, unit.push(c), is_float, step(cs.len(), q)))
            } else if unit.len() == 2 && unit[0] == 'f' && ((unit[1] == '3' && c == '2') || (
            unit[1] == '6' && c == '4')) {
                Ok((digits, unit.push(c), is_float, step(cs.len(), q)))
            } else if unit.len() == 1 && (unit[0] == 'u' || unit[0] == 'i') && (c == '1' || c == '3'
                || c == '6') {
                spec_num_loop(cs, q, digits, unit.push(c), is_float)
            } else if unit.len() == 1 && unit[0] == 'f' && (c == '3' || c == '6') {
                spec_num_loop(cs, q, digits, unit.push(c), is_float)
            } else if unit.len() == 0 {
                spec_num_loop(cs, q, digits.push(c), unit, is_float)
            } else {
                Err(LexError::UnexpectedUnitChar)
            }
        } else if c == '.' {
            if !is_float {
                spec_num_loop(cs, q, digits.push(c), unit, true)
            } else {
                Err(LexError::DuplicateFloatPoint)
            }
        } else if c == 'u' || c == 'i' || c == 'f' {
            spec_num_loop(cs, q, digits, unit.push(c), is_float)
        } else if is_ws(c) {
            Ok((digits, unit, is_float, step(cs.len(), q)))
        } else {
            Err(LexError::UnexpectedNumberChar)
        }
    }
}

/// An integer unit suffix.
pub open spec fn is_int_unit(u: Seq<char>) -> bool {
    u == seq!['u', '8'] || u == seq!['u', '1', '6'] || u == seq!['u', '3', '2'] || u == seq![
        'u',
        '6',
        '4',
    ] || u == seq!['i', '8'] || u == seq!['i', '1', '6'] || u == seq!['i', '3', '2'] || u == seq![
        'i',
        '6',
        '4',
    ]
}

/// A float unit suffix.
pub open spec fn is_float_unit(u: Seq<char>) -> bool {
    u == seq!['f', '3', '2'] || u == seq!['f', '6', '4']
}

/// The token a number starting at `pos` lexes to, and the cursor after it.
pub open spec fn spec_read_number(cs: Seq<char>, pos: nat) -> Result<(TokenModel, nat), LexError> {
    match spec_num_loop(cs, pos, seq![cs[pos as int]], Seq::empty(), false) {
        Err(e) => Err(e),
        Ok((digits, unit, is_float, np)) => if is_float {
            if is_float_unit(unit) {
                Ok((TokenModel::FloatNumber(digits, unit), np))
            } else {
                Err(LexError::InvalidFloatUnit)
            }
        } else {
            if is_int_unit(unit) {
                Ok((TokenModel::IntNumber(digits, unit), np))
            } else {
                Err(LexError::InvalidIntUnit)
            }
        },
    }
}

/// A hexadecimal digit's value.
pub open spec fn hex_val(c: char) -> u32 {
    if is_digit(c) {
        ((c as u32) - ('0' as u32)) as u32
    } else {
        ((c as u32) - ('a' as u32) + 10) as u32
    }
}

/// The lower-case form of an upper-case hex letter.
pub open spec fn spec_hex_lower(c: char) -> char {
    if c == 'A' {
        'a'
    } else if c == 'B' {
        'b'
    } else if c == 'C' {
        'c'
    } else if c == 'D' {
        'd'
    } else if c == 'E' {
        'e'
    } else if c == 'F' {
        'f'
    } else {
        c
    }
}

/// The hex collector of a unicode escape: up to `left` more digits from
/// cursor `p`, accumulating the code point; a non-hex character or the end
/// of input stops it. Gives the value, how many digits were read, and the
/// final cursor.
pub open spec fn spec_hex_loop(cs: Seq<char>, p: nat, left: nat, acc: u32, got: nat) -> (
    u32,
    nat,
    nat,
)
    decreases left,
{
    if left == 0 {
        (acc, got, p)
    } else if p + 1 >= cs.len() {
        (acc, got, cs.len())
    } else {
        let c = spec_hex_lower(cs[p + 1 as int]);
        if is_hex(c) {
            spec_hex_loop(cs, p + 1, (left - 1) as nat, mul16_add(acc, hex_val(c)), got + 1)
        } else {
            (acc, got, p + 1)
        }
    }
}

/// Sixteen times the accumulator plus a digit, as the hex parse steps. Six
/// digits never overflow 32 bits.
pub open spec fn mul16_add(acc: u32, d: u32) -> u32 {
    (((acc as int) * 16 + d) % 0x1_0000_0000) as u32
}

/// A valid unicode scalar value.
pub open spec fn valid_scalar(v: u32) -> bool {
    v < 0xD800 || (0xE000 <= v && v <= 0x10FFFF)
}

/// The character a backslash escape at cursor `p` denotes, and the cursor
/// after it.
pub open spec fn spec_read_escaped(cs: Seq<char>, p: nat) -> Result<(char, nat), LexError> {
    if p + 1 >= cs.len() {
        Err(LexError::UnexpectedEndOfInput)
    } else {
        let c = cs[p + 1 as int];
        if c == 'u' || c == 'U' {
            let (v, got, np) = spec_hex_loop(cs, p + 1, 6, 0, 0);
            if got == 0 {
                Err(LexError::BadEscapeHex)
            } else if valid_scalar(v) {
                Ok((v as char, np))
            } else {
                Err(LexError::BadEscapeCodePoint)
            }
        } else if c == 't' {
            Ok(('\t', p + 1))
        } else if c == 'n' {
            Ok(('\n', p + 1))
        } else if c == 'r' {
            Ok(('\r', p + 1))
        } else if c == '\'' {
            Ok(('\'', p + 1))
        } else if c == '"' {
            Ok(('"', p + 1))
        } else if c == '\\' {
            Ok(('\\', p + 1))
        } else {
            Err(LexError::UnknownEscape)
        }
    }
}

/// The string collector from cursor `p` on: characters until the closing
/// quote, with escapes resolved; an unterminated string ends at the input's
/// end. Gives the text and the cursor after the string.
pub open spec fn spec_string_loop(cs: Seq<char>, p: nat, acc: Seq<char>) -> Result<
    (Seq<char>, nat),
    LexError,
>
    decreases cs.len() - p,
    via spec_string_loop_decreases
{
    if p + 1 >= cs.len() {
        Ok((acc, cs.len()))
    } else {
        let q = p + 1;
        let c = cs[q as int];
        if c == '\\' {
            match spec_read_escaped(cs, q) {
                Err(e) => Err(e),
                Ok((ch, np)) => spec_string_loop(cs, np, acc.push(ch)),
            }
        } else if c == '"' {
            Ok((acc, step(cs.len(), q)))
        } else {
            spec_string_loop(cs, q, acc.push(c))
        }
    }
}

#[via_fn]
proof fn spec_string_loop_decreases(cs: Seq<char>, p: nat, acc: Seq<char>) {
    if p + 1 < cs.len() {
        lemma_escape_advances(cs, p + 1);
    }
}

/// An escape leaves the cursor strictly past where it began, within the
/// input.
pub proof fn lemma_escape_advances(cs: Seq<char>, p: nat)
    requires
        p < cs.len(),
    ensures
        spec_read_escaped(cs, p) matches Ok((_, np)) ==> p < np <= cs.len(),
{
    if p + 1 < cs.len() {
        lemma_hex_loop_advances(cs, p + 1, 6, 0, 0);
    }
}

/// The hex collector never moves the cursor backward or past the end.
proof fn lemma_hex_loop_advances(cs: Seq<char>, p: nat, left: nat, acc: u32, got: nat)
    requires
        p <= cs.len(),
    ensures
        p <= spec_hex_loop(cs, p, left, acc, got).2 <= cs.len(),
    decreases left,
{
    if left > 0 && p + 1 < cs.len() {
        let c = spec_hex_lower(cs[p + 1 as int]);
        if is_hex(c) {
            lemma_hex_loop_advances(cs, p + 1, (left - 1) as nat, mul16_add(acc, hex_val(c)), got
                + 1);
        }
    }
}

/// The symbol collector from cursor `p` on: characters until whitespace, a
/// delimiter or the end. Gives the text and the stopping cursor, which
/// stays on the delimiter.
pub open spec fn spec_symbol_loop(cs: Seq<char>, p: nat, acc: Seq<char>) -> (Seq<char>, nat)
    decreases cs.len() - p,
{
    if p + 1 >= cs.len() {
        (acc, cs.len())
    } else {
        let q = p + 1;
        let c = cs[q as int];
        if is_ws(c) || c == '(' || c == ')' || c == '[' || c == ']' || c == '\'' {
            (acc, q)
        } else {
            spec_symbol_loop(cs, q, acc.push(c))
        }
    }
}

/// The token stream of the input from position `pos` on.
pub open spec fn spec_tokenize(cs: Seq<char>, pos: nat) -> Result<Seq<TokenModel>, LexError>
    decreases cs.len() - pos,
    via spec_tokenize_decreases
{
    if pos >= cs.len() {
        Ok(Seq::empty())
    } else {
        let c = cs[pos as int];
        if is_ws(c) {
            spec_tokenize(cs, spec_skip_ws(cs, pos))
        } else if c == '(' {
            match spec_tokenize(cs, pos + 1) {
                Err(e) => Err(e),
                Ok(rest) => Ok(seq![TokenModel::LeftParentheses] + rest),
            }
        } else if c == ')' {
            match spec_tokenize(cs, pos + 1) {
                Err(e) => Err(e),
                Ok(rest) => Ok(seq![TokenModel::RightParentheses] + rest),
            }
        } else if c == '[' {
            match spec_tokenize(cs, pos + 1) {
                Err(e) => Err(e),
                Ok(rest) => Ok(seq![TokenModel::LeftVecParentheses] + rest),
            }
        } else if c == ']' {
            match spec_tokenize(cs, pos + 1) {
                Err(e) => Err(e),
                Ok(rest) => Ok(seq![TokenModel::RightVecParentheses] + rest),
            }
        } else if is_digit(c) || (c == '-' && pos + 1 < cs.len() && is_digit(cs[pos + 1 as int])) {
            match spec_read_number(cs, pos) {
                Err(e) => Err(e),
                Ok((t, np)) => match spec_tokenize(cs, np) {
                    Err(e) => Err(e),
                    Ok(rest) => Ok(seq![t] + rest),
                },
            }
        } else if c == '"' {
            match spec_string_loop(cs, pos, Seq::empty()) {
                Err(e) => Err(e),
                Ok((text, np)) => match spec_tokenize(cs, np) {
                    Err(e) => Err(e),
                    Ok(rest) => Ok(seq![TokenModel::String(text)] + rest),
                },
            }
        } else {
            let (text, np) = spec_symbol_loop(cs, pos, seq![c]);
            match spec_tokenize(cs, np) {
                Err(e) => Err(e),
                Ok(rest) => Ok(seq![TokenModel::Symbol(text)] + rest),
            }
        }
    }
}

#[via_fn]
proof fn spec_tokenize_decreases(cs: Seq<char>, pos: nat) {
    if pos < cs.len() {
        lemma_skip_ws_advances(cs, pos);
        lemma_num_loop_advances(cs, pos, seq![cs[pos as int]], Seq::empty(), false);
        lemma_string_loop_advances(cs, pos, Seq::empty());
        lemma_symbol_loop_advances(cs, pos, seq![cs[pos as int]]);
    }
}

/// Skipping whitespace moves the cursor strictly forward, within the
/// input's end.
pub proof fn lemma_skip_ws_advances(cs: Seq<char>, pos: nat)
    requires
        pos < cs.len(),
    ensures
        pos < spec_skip_ws(cs, pos) <= cs.len(),
    decreases cs.len() - pos,
{
    if pos + 1 < cs.len() && is_ws(cs[pos + 1 as int]) {
        lemma_skip_ws_advances(cs, pos + 1);
    }
}

/// The number machine moves the cursor strictly forward, within the
/// input's end.
pub proof fn lemma_num_loop_advances(
    cs: Seq<char>,
    p: nat,
    digits: Seq<char>,
    unit: Seq<char>,
    is_float: bool,
)
    requires
        p < cs.len(),
    ensures
        spec_num_loop(cs, p, digits, unit, is_float) matches Ok((_, _, _, np)) ==> p < np
            <= cs.len(),
    decreases cs.len() - p,
{
    if p + 1 < cs.len() {
        let q = p + 1;
        let c = cs[q as int];
        if is_digit(c) {
            lemma_num_loop_advances(cs, q, digits, unit.push(c), is_float);
            lemma_num_loop_advances(cs, q, digits.push(c), unit, is_float);
        } else if c == '.' {
            lemma_num_loop_advances(cs, q, digits.push(c), unit, true);
        } else if c == 'u' || c == 'i' || c == 'f' {
            lemma_num_loop_advances(cs, q, digits, unit.push(c), is_float);
        }
    }
}

/// The string collector moves the cursor strictly forward, within the
/// input's end.
pub proof fn lemma_string_loop_advances(cs: Seq<char>, p: nat, acc: Seq<char>)
    requires
        p < cs.len(),
    ensures
        spec_string_loop(cs, p, acc) matches Ok((_, np)) ==> p < np <= cs.len(),
    decreases cs.len() - p,
{
    if p + 1 < cs.len() {
        let q = p + 1;
        let c = cs[q as int];
        if c == '\\' {
            lemma_escape_advances(cs, q);
            match spec_read_escaped(cs, q) {
                Ok((ch, np)) => {
                    if np < cs.len() {
                        lemma_string_loop_advances(cs, np, acc.push(ch));
                    }
                },
                Err(_) => {},
            }
        } else if c != '"' {
            lemma_string_loop_advances(cs, q, acc.push(c));
        }
    }
}

/// The symbol collector moves the cursor strictly forward, within the
/// input's end.
pub proof fn lemma_symbol_loop_advances(cs: Seq<char>, p: nat, acc: Seq<char>)
    requires
        p < cs.len(),
    ensures
        p < spec_symbol_loop(cs, p, acc).1 <= cs.len(),
    decreases cs.len() - p,
{
    if p + 1 < cs.len() {
        let q = p + 1;
        let c = cs[q as int];
        if !(is_ws(c) || c == '(' || c == ')' || c == '[' || c == ']' || c == '\'') {
            lemma_symbol_loop_advances(cs, q, acc.push(c));
        }
    }
}

} // verus!

verus! {

/// Relies on char::from_u32 of std: every valid unicode scalar value
/// converts to the character with that code point.
#[verifier::external_body]
pub(crate) fn char_from_u32(v: u32) -> (r: char)
    requires
        valid_scalar(v),
    ensures
        r == (v as char),
{
    char::from_u32(v).unwrap()
}

/// Relies on std's FromIterator for String: collecting characters yields
/// the string of exactly those characters.
#[verifier::external_body]
fn chars_to_string(cs: &Vec<char>) -> (r: String)
    ensures
        r@ == cs@,
{
    cs.iter().collect()
}

/// Skip whitespace from the character after `pos` on.
fn skip_ws(chars: &Vec<char>, pos: usize) -> (r: usize)
    requires
        pos < chars@.len(),
    ensures
        r == spec_skip_ws(chars@, pos as nat),
        pos < r <= chars@.len(),
    decreases chars@.len() - pos,
{
    proof {
        lemma_skip_ws_advances(chars@, pos as nat);
    }
    let n = chars.len();
    if pos + 1 >= n {
        n
    } else if is_ws_exec(chars[pos + 1]) {
        skip_ws(chars, pos + 1)
    } else {
        pos + 1
    }
}

/// Whitespace test.
fn is_ws_exec(c: char) -> (r: bool)
    ensures
        r == is_ws(c),
{
    c == ' ' || c == '\t' || c == '\r' || c == '\n'
}

/// Decimal digit test.
fn is_digit_exec(c: char) -> (r: bool)
    ensures
        r == is_digit(c),
{
    '0' <= c && c <= '9'
}

/// Run the number state machine from cursor `p` on.
fn num_loop(chars: &Vec<char>, p: usize, digits: Vec<char>, unit: Vec<char>, is_float: bool) -> (r:
    Result<(Vec<char>, Vec<char>, bool, usize), LexError>)
    requires
        p < chars@.len(),
    ensures
        spec_num_loop(chars@, p as nat, digits@, unit@, is_float) matches Ok((d, u, f, np)) ==> (
        r matches Ok(e) && e.0@ == d && e.1@ == u && e.2 == f && e.3 == np),
        spec_num_loop(chars@, p as nat, digits@, unit@, is_float) matches Err(x) ==> r == Err::<
            (Vec<char>, Vec<char>, bool, usize),
            LexError,
        >(x),
    decreases chars@.len() - p,
{
    let n = chars.len();
    let mut digits = digits;
    let mut unit = unit;
    if p + 1 >= n {
        return Ok((digits, unit, is_float, n));
    }
    let q = p + 1;
    let c = chars[q];
    if is_digit_exec(c) {
        if unit.len() == 1 && ((unit[0] == 'u' && c == '8') || (unit[0] == 'i' && c == '8')) {
            unit.push(c);
            Ok((digits, unit, is_float, if q + 1 >= n {
                n
            } else {
                q + 1
            }))
        } else if unit.len() == 2 && ((unit[0] == 'u' || unit[0] == 'i') && ((unit[1] == '1' && c
            == '6') || (unit[1] == '3' && c == '2') || (unit[1] == '6' && c == '4'))) {
            unit.push(c);
            Ok((digits, unit, is_float, if q + 1 >= n {
                n
            } else {
                q + 1
            }))
        } else if unit.len() == 2 && unit[0] == 'f' && ((unit[1] == '3' && c == '2') || (unit[1]
            == '6' && c == '4')) {
            unit.push(c);
            Ok((digits, unit, is_float, if q + 1 >= n {
                n
            } else {
                q + 1
            }))
        } else if unit.len() == 1 && (unit[0] == 'u' || unit[0] == 'i') && (c == '1' || c == '3'
            || c == '6') {
            unit.push(c);
            num_loop(chars, q, digits, unit, is_float)
        } else if unit.len() == 1 && unit[0] == 'f' && (c == '3' || c == '6') {
            unit.push(c);
            num_loop(chars, q, digits, unit, is_float)
        } else if unit.len() == 0 {
            digits.push(c);
            num_loop(chars, q, digits, unit, is_float)
        } else {
            Err(LexError::UnexpectedUnitChar)
        }
    } else if c == '.' {
        if !is_float {
            digits.push(c);
            num_loop(chars, q, digits, unit, true)
        } else {
            Err(LexError::DuplicateFloatPoint)
        }
    } else if c == 'u' || c == 'i' || c == 'f' {
        unit.push(c);
        num_loop(chars, q, digits, unit, is_float)
    } else if is_ws_exec(c) {
        Ok((digits, unit, is_float, if q + 1 >= n {
            n
        } else {
            q + 1
        }))
    } else {
        Err(LexError::UnexpectedNumberChar)
    }
}

/// Whether a collected unit suffix is an integer unit.
fn is_int_unit_exec(u: &Vec<char>) -> (r: bool)
    ensures
        r == is_int_unit(u@),
{
    let r = (u.len() == 2 && (u[0] == 'u' || u[0] == 'i') && u[1] == '8') || (u.len() == 3 && (u[0]
        == 'u' || u[0] == 'i') && ((u[1] == '1' && u[2] == '6') || (u[1] == '3' && u[2] == '2') || (
    u[1] == '6' && u[2] == '4')));
    proof {
        if r {
            assert(u@ =~= seq![u@[0], u@[1]] || u@ =~= seq![u@[0], u@[1], u@[2]]);
        }
        if is_int_unit(u@) {
            assert(u@.len() == 2 || u@.len() == 3);
        }
    }
    r
}

/// Whether a collected unit suffix is a float unit.
fn is_float_unit_exec(u: &Vec<char>) -> (r: bool)
    ensures
        r == is_float_unit(u@),
{
    let r = u.len() == 3 && u[0] == 'f' && ((u[1] == '3' && u[2] == '2') || (u[1] == '6' && u[2]
        == '4'));
    proof {
        if r {
            assert(u@ =~= seq![u@[0], u@[1], u@[2]]);
        }
        if is_float_unit(u@) {
            assert(u@.len() == 3);
        }
    }
    r
}

/// Lex a number starting at `pos`.
fn read_number(chars: &Vec<char>, pos: usize) -> (r: Result<(Token, usize), LexError>)
    requires
        pos < chars@.len(),
    ensures
        spec_read_number(chars@, pos as nat) matches Ok((t, np)) ==> (r matches Ok(e) && e.0@ == t
            && e.1 == np),
        spec_read_number(chars@, pos as nat) matches Err(x) ==> r == Err::<
            (Token, usize),
            LexError,
        >(x),
{
    let mut digits: Vec<char> = Vec::new();
    digits.push(chars[pos]);
    proof {
        assert(digits@ =~= seq![chars@[pos as int]]);
    }
    let unit: Vec<char> = Vec::new();
    proof {
        assert(unit@ =~= Seq::<char>::empty());
    }
    match num_loop(chars, pos, digits, unit, false) {
        Err(e) => Err(e),
        Ok((d, u, f, np)) => {
            if f {
                if is_float_unit_exec(&u) {
                    Ok((Token::FloatNumber(chars_to_string(&d), chars_to_string(&u)), np))
                } else {
                    Err(LexError::InvalidFloatUnit)
                }
            } else {
                if is_int_unit_exec(&u) {
                    Ok((Token::IntNumber(chars_to_string(&d), chars_to_string(&u)), np))
                } else {
                    Err(LexError::InvalidIntUnit)
                }
            }
        },
    }
}

/// The lower-case form of an upper-case hex letter.
fn hex_lower(c: char) -> (r: char)
    ensures
        r == spec_hex_lower(c),
{
    match c {
        'A' => 'a',
        'B' => 'b',
        'C' => 'c',
        'D' => 'd',
        'E' => 'e',
        'F' => 'f',
        other => other,
    }
}

/// Collect up to `left` more hex digits of a unicode escape.
fn read_hex_loop(chars: &Vec<char>, p: usize, left: usize, acc: u32, got: usize) -> (r: (
    u32,
    usize,
    usize,
))
    requires
        p <= chars@.len(),
        got + left <= 6,
    ensures
        (r.0, r.1 as nat, r.2 as nat) == spec_hex_loop(
            chars@,
            p as nat,
            left as nat,
            acc,
            got as nat,
        ),
        p <= r.2 <= chars@.len(),
        got <= r.1,
    decreases left,
{
    if left == 0 {
        return (acc, got, p);
    }
    let n = chars.len();
    if p >= n {
        return (acc, got, n);
    }
    if p + 1 >= n {
        return (acc, got, n);
    }
    let c = hex_lower(chars[p + 1]);
    if is_digit_exec(c) || ('a' <= c && c <= 'f') {
        let hv: u32 = if is_digit_exec(c) {
            (c as u32) - ('0' as u32)
        } else {
            (c as u32) - ('a' as u32) + 10
        };
        proof {
            assert(hv == hex_val(c));
        }
        let acc2: u32 = #[verifier::truncate] ((((acc as u64) * 16 + (hv as u64)) % 0x1_0000_0000)
            as u32);
        proof {
            assert(acc2 == mul16_add(acc, hv)) by {
                assert((((acc as u64) * 16 + (hv as u64)) % 0x1_0000_0000) == (((acc as int) * 16
                    + hv) % 0x1_0000_0000));
            }
        }
        read_hex_loop(chars, p + 1, left - 1, acc2, got + 1)
    } else {
        (acc, got, p + 1)
    }
}

/// Resolve a backslash escape at cursor `p`.
fn read_escaped_char(chars: &Vec<char>, p: usize) -> (r: Result<(char, usize), LexError>)
    requires
        p < chars@.len(),
    ensures
        spec_read_escaped(chars@, p as nat) matches Ok((ch, np)) ==> (r matches Ok(e) && e.0 == ch
            && e.1 == np),
        spec_read_escaped(chars@, p as nat) matches Err(x) ==> r == Err::<
            (char, usize),
            LexError,
        >(x),
{
    let n = chars.len();
    if p + 1 >= n {
        return Err(LexError::UnexpectedEndOfInput);
    }
    let c = chars[p + 1];
    if c == 'u' || c == 'U' {
        let (v, got, np) = read_hex_loop(chars, p + 1, 6, 0, 0);
        if got == 0 {
            Err(LexError::BadEscapeHex)
        } else if v < 0xD800 || (0xE000 <= v && v <= 0x10FFFF) {
            Ok((char_from_u32(v), np))
        } else {
            Err(LexError::BadEscapeCodePoint)
        }
    } else if c == 't' {
        Ok(('\t', p + 1))
    } else if c == 'n' {
        Ok(('\n', p + 1))
    } else if c == 'r' {
        Ok(('\r', p + 1))
    } else if c == '\'' {
        Ok(('\'', p + 1))
    } else if c == '"' {
        Ok(('"', p + 1))
    } else if c == '\\' {
        Ok(('\\', p + 1))
    } else {
        Err(LexError::UnknownEscape)
    }
}

/// Collect a string literal's characters from cursor `p` on.
fn string_loop(chars: &Vec<char>, p: usize, acc: Vec<char>) -> (r: Result<
    (Vec<char>, usize),
    LexError,
>)
    requires
        p < chars@.len(),
    ensures
        spec_string_loop(chars@, p as nat, acc@) matches Ok((text, np)) ==> (r matches Ok(e)
            && e.0@ == text && e.1 == np),
        spec_string_loop(chars@, p as nat, acc@) matches Err(x) ==> r == Err::<
            (Vec<char>, usize),
            LexError,
        >(x),
    decreases chars@.len() - p,
{
    let n = chars.len();
    let mut acc = acc;
    if p + 1 >= n {
        return Ok((acc, n));
    }
    let q = p + 1;
    let c = chars[q];
    if c == '\\' {
        match read_escaped_char(chars, q) {
            Err(e) => Err(e),
            Ok((ch, np)) => {
                proof {
                    lemma_escape_advances(chars@, q as nat);
                }
                acc.push(ch);
                if np >= n {
                    proof {
                        assert(spec_string_loop(chars@, np as nat, acc@) == Ok::<
                            (Seq<char>, nat),
                            LexError,
                        >((acc@, chars@.len())));
                    }
                    Ok((acc, n))
                } else {
                    string_loop(chars, np, acc)
                }
            },
        }
    } else if c == '"' {
        Ok((acc, if q + 1 >= n {
            n
        } else {
            q + 1
        }))
    } else {
        acc.push(c);
        string_loop(chars, q, acc)
    }
}

/// Collect a symbol's characters from cursor `p` on.
fn symbol_loop(chars: &Vec<char>, p: usize, acc: Vec<char>) -> (r: (Vec<char>, usize))
    requires
        p < chars@.len(),
    ensures
        (r.0@, r.1 as nat) == spec_symbol_loop(chars@, p as nat, acc@),
        p < r.1 <= chars@.len(),
    decreases chars@.len() - p,
{
    proof {
        lemma_symbol_loop_advances(chars@, p as nat, acc@);
    }
    let n = chars.len();
    let mut acc = acc;
    if p + 1 >= n {
        return (acc, n);
    }
    let q = p + 1;
    let c = chars[q];
    if is_ws_exec(c) || c == '(' || c == ')' || c == '[' || c == ']' || c == '\'' {
        (acc, q)
    } else {
        acc.push(c);
        symbol_loop(chars, q, acc)
    }
}

/// Tokenize the input from position `pos` on.
fn tokenize_from(chars: &Vec<char>, pos: usize) -> (r: Result<Vec<Token>, LexError>)
    requires
        pos <= chars@.len(),
    ensures
        spec_tokenize(chars@, pos as nat) matches Ok(ts) ==> (r matches Ok(v) && token_models(v@)
            == ts),
        spec_tokenize(chars@, pos as nat) matches Err(x) ==> r == Err::<Vec<Token>, LexError>(x),
    decreases chars@.len() - pos,
{
    let n = chars.len();
    if pos >= n {
        let empty: Vec<Token> = Vec::new();
        proof {
            assert(token_models(empty@) =~= Seq::<TokenModel>::empty());
        }
        return Ok(empty);
    }
    let c = chars[pos];
    if is_ws_exec(c) {
        let np = skip_ws(chars, pos);
        tokenize_from(chars, np)
    } else if c == '(' {
        prepend_token(Token::LeftParentheses, tokenize_from(chars, pos + 1))
    } else if c == ')' {
        prepend_token(Token::RightParentheses, tokenize_from(chars, pos + 1))
    } else if c == '[' {
        prepend_token(Token::LeftVecParentheses, tokenize_from(chars, pos + 1))
    } else if c == ']' {
        prepend_token(Token::RightVecParentheses, tokenize_from(chars, pos + 1))
    } else if is_digit_exec(c) || (c == '-' && pos + 1 < n && is_digit_exec(chars[pos + 1])) {
        match read_number(chars, pos) {
            Err(e) => Err(e),
            Ok((t, np)) => {
                proof {
                    lemma_num_loop_advances(
                        chars@,
                        pos as nat,
                        seq![chars@[pos as int]],
                        Seq::empty(),
                        false,
                    );
                }
                prepend_token(t, tokenize_from(chars, np))
            },
        }
    } else if c == '"' {
        let empty_acc: Vec<char> = Vec::new();
        proof {
            assert(empty_acc@ =~= Seq::<char>::empty());
        }
        match string_loop(chars, pos, empty_acc) {
            Err(e) => Err(e),
            Ok((text, np)) => {
                proof {
                    lemma_string_loop_advances(chars@, pos as nat, Seq::empty());
                }
                prepend_token(Token::String(chars_to_string(&text)), tokenize_from(chars, np))
            },
        }
    } else {
        let mut first_acc: Vec<char> = Vec::new();
        first_acc.push(c);
        proof {
            assert(first_acc@ =~= seq![chars@[pos as int]]);
        }
        let (text, np) = symbol_loop(chars, pos, first_acc);
        prepend_token(Token::Symbol(chars_to_string(&text)), tokenize_from(chars, np))
    }
}

/// Put a token in front of a lexed tail.
fn prepend_token(t: Token, rest: Result<Vec<Token>, LexError>) -> (r: Result<Vec<Token>, LexError>)
    ensures
        rest matches Ok(v) ==> (r matches Ok(v2) && token_models(v2@) == seq![t@] + token_models(
            v@,
        )),
        rest matches Err(x) ==> r == Err::<Vec<Token>, LexError>(x),
{
    match rest {
        Err(e) => Err(e),
        Ok(mut v) => {
            let ghost oldv = v@;
            v.insert(0, t);
            proof {
                assert(token_models(v@) =~= seq![t@] + token_models(oldv));
            }
            Ok(v)
        },
    }
}

/// A cursor over the input characters, as the embedding hands it to the
/// tokenizer.
pub struct CharIter {
    pub chars: Vec<char>,
    pub current_pos: usize,
}

impl CharIter {
    /// A cursor at the start of the input.
    pub fn new(data: Vec<char>) -> (r: CharIter)
        ensures
            r.chars@ == data@,
            r.current_pos == 0,
    {
        CharIter { chars: data, current_pos: 0 }
    }

    /// Advance, then read the character under the cursor.
    pub fn next(&mut self) -> (r: Option<char>)
        ensures
            final(self).chars@ == old(self).chars@,
            old(self).current_pos < old(self).chars@.len() ==> final(self).current_pos == old(
                self,
            ).current_pos + 1,
            final(self).current_pos < final(self).chars@.len() ==> r == Some(
                final(self).chars@[final(self).current_pos as int],
            ),
            final(self).current_pos >= final(self).chars@.len() ==> r is None,
    {
        if self.current_pos < self.chars.len() {
            self.current_pos = self.current_pos + 1;
        }
        if self.current_pos < self.chars.len() {
            Some(self.chars[self.current_pos])
        } else {
            None
        }
    }

    /// Read the character after the cursor without moving.
    pub fn peek_next(&self) -> (r: Option<char>)
        ensures
            self.current_pos + 1 < self.chars@.len() ==> r == Some(
                self.chars@[self.current_pos + 1],
            ),
            self.current_pos + 1 >= self.chars@.len() ==> r is None,
    {
        let n = self.chars.len();
        if self.current_pos < n {
            if self.current_pos + 1 < n {
                Some(self.chars[self.current_pos + 1])
            } else {
                None
            }
        } else {
            None
        }
    }

    /// Read the character under the cursor.
    pub fn current(&self) -> (r: Option<char>)
        ensures
            self.current_pos < self.chars@.len() ==> r == Some(
                self.chars@[self.current_pos as int],
            ),
            self.current_pos >= self.chars@.len() ==> r is None,
    {
        if self.current_pos < self.chars.len() {
            Some(self.chars[self.current_pos])
        } else {
            None
        }
    }
}

/// Tokenize from a character cursor's position on.
pub fn tokenize_chars_iter(iter: &mut CharIter) -> (r: Result<Vec<Token>, LexError>)
    ensures
        spec_tokenize(old(iter).chars@, old(iter).current_pos as nat) matches Ok(ts) ==> (r
            matches Ok(v) && token_models(v@) == ts),
        spec_tokenize(old(iter).chars@, old(iter).current_pos as nat) matches Err(x) ==> r
            == Err::<Vec<Token>, LexError>(x),
        final(iter).chars@ == old(iter).chars@,
{
    if iter.current_pos > iter.chars.len() {
        let empty: Vec<Token> = Vec::new();
        proof {
            assert(token_models(empty@) =~= Seq::<TokenModel>::empty());
        }
        return Ok(empty);
    }
    tokenize_from(&iter.chars, iter.current_pos)
}

/// Tokenize source text.
pub fn tokenize_str(text: &str) -> (r: Result<Vec<Token>, LexError>)
    ensures
        spec_tokenize(text@, 0) matches Ok(ts) ==> (r matches Ok(v) && token_models(v@) == ts),
        spec_tokenize(text@, 0) matches Err(x) ==> r == Err::<Vec<Token>, LexError>(x),
{
    let n = text.unicode_len();
    let mut chars: Vec<char> = Vec::new();
    let mut i: usize = 0;
    while i < n
        invariant
            n == text@.len(),
            i <= n,
            chars@ =~= text@.subrange(0, i as int),
        decreases n - i,
    {
        chars.push(text.get_char(i));
        proof {
            assert(chars@ =~= text@.subrange(0, i + 1));
        }
        i = i + 1;
    }
    proof {
        assert(chars@ =~= text@);
    }
    tokenize_from(&chars, 0)
}

} // verus!
