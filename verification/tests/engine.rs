use dovahkiin::expr::error::EvalError;
use dovahkiin::expr::interpreter::Envorinment;
use dovahkiin::expr::symbols::bindings::let_binding;
use dovahkiin::expr::symbols::misc::do_;
use dovahkiin::expr::SExpr;
use dovahkiin::hashing::key_hash;
use dovahkiin::integrated::lisp;
use dovahkiin::integrated::lisp::LispError;
use dovahkiin::types::{get_owned_val, get_size, get_vsize, set_val, Id, OwnedMap, OwnedValue, SharedValue, Type};

fn eval_one(code: &str) -> Result<SExpr, LispError> {
    let mut interpreter = lisp::get_interpreter();
    lisp::eval_string(&mut interpreter, code)
}

#[test]
fn arithmetic_keeps_the_first_operand_type() {
    assert_eq!(
        eval_one("(+ 1u8 2u8)").unwrap(),
        SExpr::owned_value(OwnedValue::U8(3))
    );
    assert_eq!(
        eval_one("(* 6i64 7i64)").unwrap(),
        SExpr::owned_value(OwnedValue::I64(42))
    );
    assert_eq!(
        eval_one("(- 10u16 3u16 2u16)").unwrap(),
        SExpr::owned_value(OwnedValue::U16(5))
    );
    assert_eq!(
        eval_one("(/ -7i32 2i32)").unwrap(),
        SExpr::owned_value(OwnedValue::I32(-3))
    );
}

#[test]
fn arithmetic_rejects_mixed_types() {
    assert_eq!(
        eval_one("(+ 1u32 2u64)"),
        Err(LispError::Eval(EvalError::TypeMismatch))
    );
}

#[test]
fn arithmetic_overflow_is_an_error() {
    assert_eq!(
        eval_one("(+ 255u8 1u8)"),
        Err(LispError::Eval(EvalError::ArithmeticOverflow))
    );
    assert_eq!(
        eval_one("(inc 255u8)"),
        Err(LispError::Eval(EvalError::ArithmeticOverflow))
    );
}

#[test]
fn division_by_zero_is_an_error() {
    assert_eq!(
        eval_one("(/ 1u32 0u32)"),
        Err(LispError::Eval(EvalError::DivisionByZero))
    );
}

#[test]
fn unknown_symbol_is_an_error() {
    assert_eq!(
        eval_one("(no-such-operation 1u32)"),
        Err(LispError::Eval(EvalError::UnknownSymbol))
    );
}

#[test]
fn arity_mismatch_is_an_error() {
    assert_eq!(
        eval_one("(when 1u32)"),
        Err(LispError::Eval(EvalError::ArityMismatch))
    );
}

#[test]
fn lambda_arity_mismatch_fails() {
    assert_eq!(
        eval_one("((lambda [x] x) 1u32 2u32)"),
        Err(LispError::Eval(EvalError::ArityMismatch))
    );
}

#[test]
fn depth_budget_is_reported() {
    let mut env = Envorinment::new();
    assert_eq!(do_(vec![], &mut env, 0), Err(EvalError::DepthExceeded));
}

#[test]
fn host_chosen_budget_bounds_evaluation() {
    let mut interp = lisp::get_interpreter();
    let parsed = lisp::parse_to_sexpr("(+ 1u32 (+ 2u32 3u32))").unwrap();
    // A generous budget evaluates; a starved one stops with the depth error.
    assert_eq!(
        interp.eval_with_budget(parsed, 16),
        Ok(SExpr::owned_value(OwnedValue::U32(6)))
    );
    let parsed = lisp::parse_to_sexpr("(+ 1u32 (+ 2u32 3u32))").unwrap();
    assert_eq!(
        interp.eval_with_budget(parsed, 3),
        Err(EvalError::DepthExceeded)
    );
}

#[test]
fn chained_comparisons_short_circuit() {
    assert_eq!(
        eval_one("(< 1u32 2u32 3u32)").unwrap(),
        SExpr::owned_value(OwnedValue::Bool(true))
    );
    assert_eq!(
        eval_one("(< 1u32 3u32 2u32)").unwrap(),
        SExpr::owned_value(OwnedValue::Bool(false))
    );
    assert_eq!(
        eval_one("(>= 3i8 3i8 2i8)").unwrap(),
        SExpr::owned_value(OwnedValue::Bool(true))
    );
}

#[test]
fn equality_is_structural() {
    assert_eq!(
        eval_one("(= 2u32 2u32 2u32)").unwrap(),
        SExpr::owned_value(OwnedValue::Bool(true))
    );
    assert_eq!(
        eval_one("(!= 2u32 3u32)").unwrap(),
        SExpr::owned_value(OwnedValue::Bool(true))
    );
    assert_eq!(
        eval_one("(!= 2u32 2u32)").unwrap(),
        SExpr::owned_value(OwnedValue::Bool(false))
    );
}

#[test]
fn branching_and_logic() {
    assert_eq!(
        eval_one("(if (> 2u32 1u32) 5u32 6u32)").unwrap(),
        SExpr::owned_value(OwnedValue::U32(5))
    );
    assert_eq!(
        eval_one("(cond (< 2u32 1u32) 1u32 (> 2u32 1u32) 7u32)").unwrap(),
        SExpr::owned_value(OwnedValue::U32(7))
    );
    assert_eq!(
        eval_one("(and (> 2u32 1u32) (< 1u32 2u32))").unwrap(),
        SExpr::owned_value(OwnedValue::Bool(true))
    );
    assert_eq!(
        eval_one("(or (> 1u32 2u32) (> 1u32 3u32))").unwrap(),
        SExpr::owned_value(OwnedValue::Bool(false))
    );
}

#[test]
fn numeric_casts_truncate() {
    assert_eq!(
        eval_one("(u8 300u32)").unwrap(),
        SExpr::owned_value(OwnedValue::U8(44))
    );
    assert_eq!(
        eval_one("(u64 7u8)").unwrap(),
        SExpr::owned_value(OwnedValue::U64(7))
    );
    assert_eq!(
        eval_one("(i8 -1i32)").unwrap(),
        SExpr::owned_value(OwnedValue::I8(-1))
    );
}

#[test]
fn collection_builtins() {
    assert_eq!(
        eval_one("(size [1u32 2u32 3u32])").unwrap(),
        SExpr::owned_value(OwnedValue::U64(3))
    );
    assert_eq!(
        eval_one("(concat [1u32] [2u32 3u32])").unwrap(),
        SExpr::Vec(vec![
            SExpr::owned_value(OwnedValue::U32(1)),
            SExpr::owned_value(OwnedValue::U32(2)),
            SExpr::owned_value(OwnedValue::U32(3)),
        ])
    );
    assert_eq!(
        eval_one("(conj [1u32] 2u32)").unwrap(),
        SExpr::Vec(vec![
            SExpr::owned_value(OwnedValue::U32(1)),
            SExpr::owned_value(OwnedValue::U32(2)),
        ])
    );
    assert_eq!(
        eval_one("(filter (lambda [x] (> x 2u32)) [1u32 2u32 3u32 4u32])").unwrap(),
        SExpr::Vec(vec![
            SExpr::owned_value(OwnedValue::U32(3)),
            SExpr::owned_value(OwnedValue::U32(4)),
        ])
    );
}

#[test]
fn hash_map_builds_and_indexes() {
    // A string head indexes its single (already evaluated) map argument by
    // name; the stream operators supply evaluated arguments.
    assert_eq!(
        eval_one("(map \"a\" [(hash-map \"a\" 5u32 \"b\" 6u32)])").unwrap(),
        SExpr::Vec(vec![SExpr::owned_value(OwnedValue::U32(5))])
    );
    // An odd number of key/value items is a malformed form.
    assert_eq!(
        eval_one("(hash-map \"a\" 5u32 \"b\")"),
        Err(LispError::Eval(EvalError::MalformedForm))
    );
}

#[test]
fn merge_dedups_fields_and_later_value_wins() {
    let merged = eval_one("(merge (hash-map \"a\" 1u32) (hash-map \"a\" 2u32))")
        .unwrap()
        .owned_val()
        .unwrap();
    match merged {
        OwnedValue::DataMap(m) => {
            assert_eq!(m.fields.len(), 1);
            assert_eq!(m.fields[0], "a");
            assert_eq!(m.get("a"), OwnedValue::U32(2));
            assert_eq!(m.len(), 1);
        }
        other => panic!("expected a map, got {:?}", other),
    }
}

#[test]
fn map_lookup_is_total() {
    let mut m = OwnedMap::new();
    m.insert("present", OwnedValue::U64(1));
    assert_eq!(m.get("present"), OwnedValue::U64(1));
    // A key id never inserted reads as Null, never as an error.
    assert_eq!(m.get_by_key_id(12345), OwnedValue::Null);
    assert_eq!(m.get("absent"), OwnedValue::Null);
}

#[test]
fn map_nested_paths() {
    let mut inner = OwnedMap::new();
    inner.insert("x", OwnedValue::U32(9));
    let mut outer = OwnedMap::new();
    outer.insert("in", OwnedValue::DataMap(inner));
    assert_eq!(outer.get_in(&["in", "x"]), OwnedValue::U32(9));
    // The moment an intermediate is not a map the lookup is Null.
    assert_eq!(outer.get_in(&["in", "x", "y"]), OwnedValue::Null);
    assert_eq!(
        outer.set_in(&["in", "x"], OwnedValue::U32(11)),
        Some(())
    );
    assert_eq!(outer.get_in(&["in", "x"]), OwnedValue::U32(11));
    assert_eq!(outer.set_in(&["nope", "x"], OwnedValue::U32(1)), None);
}

#[test]
fn owned_shared_round_trip() {
    let mut m = OwnedMap::new();
    m.insert("k", OwnedValue::Array(vec![
        OwnedValue::U32(1),
        OwnedValue::String("s".to_string()),
    ]));
    let v = OwnedValue::DataMap(m);
    let round = v.shared().owned();
    assert_eq!(round, v);
    let sv = SharedValue::Bool(true);
    assert_eq!(sv.owned().shared(), sv);
}

#[test]
fn binding_symmetry_on_success_and_error() {
    let x_id = key_hash("x");
    let mut env = Envorinment::new();
    assert_eq!(env.depth_of(x_id), 0);
    // A successful let unbinds what it bound.
    let ok_form = lisp::parse_to_sexpr("(let [x 1u32] x)").unwrap();
    assert!(let_binding(&mut env, vec_tail(ok_form), 1000).is_ok());
    assert_eq!(env.depth_of(x_id), 0);
    // A failing body still unbinds what the let bound.
    let err_form = lisp::parse_to_sexpr("(let [x 1u32] (no-such x))").unwrap();
    assert!(let_binding(&mut env, vec_tail(err_form), 1000).is_err());
    assert_eq!(env.depth_of(x_id), 0);
}

/// The arguments of the single top-level list form.
fn vec_tail(parsed: Vec<SExpr>) -> Vec<SExpr> {
    match parsed.into_iter().next().unwrap() {
        SExpr::List(items) => items.into_iter().skip(1).collect(),
        other => panic!("expected a list form, got {:?}", other),
    }
}

#[test]
fn string_escapes_lex() {
    assert_eq!(
        eval_one("\"a\\tb\\u000041\"").unwrap(),
        SExpr::owned_value(OwnedValue::String("a\tbA".to_string()))
    );
}

#[test]
fn float_literals_are_rejected() {
    assert_eq!(
        eval_one("(+ 1.5f32 2.5f32)"),
        Err(LispError::Parse(
            dovahkiin::parser::lisp::ParseError::FloatUnsupported
        ))
    );
}

#[test]
fn bad_number_unit_is_a_lex_error() {
    assert_eq!(
        eval_one("12q3"),
        Err(LispError::Lex(
            dovahkiin::lexer::lisp::LexError::UnexpectedNumberChar
        ))
    );
}

#[test]
fn int_literal_out_of_range_is_a_parse_error() {
    assert_eq!(
        eval_one("300u8"),
        Err(LispError::Parse(
            dovahkiin::parser::lisp::ParseError::BadIntLiteral
        ))
    );
}

#[test]
fn key_hash_depends_on_the_name() {
    // Lookups distinguish names, so the hash cannot be a constant.
    let mut m = OwnedMap::new();
    m.insert("a", OwnedValue::U32(1));
    m.insert("b", OwnedValue::U32(2));
    assert_eq!(m.get("a"), OwnedValue::U32(1));
    assert_eq!(m.get("b"), OwnedValue::U32(2));
    assert_ne!(key_hash("a"), key_hash("b"));
}

#[test]
fn type_registry_round_trips() {
    assert_eq!(Type::from_id(Type::U32.id()), Type::U32);
    assert_eq!(Type::U32.size(), Some(4));
    assert_eq!(Type::String.size(), None);
    assert_eq!(dovahkiin::types::get_type_id("u64".to_string()), Type::U64.id());
    assert_eq!(dovahkiin::types::get_type(Type::Bool), "bool");
}

#[test]
fn id_binary_round_trips() {
    let id = Id::new(0x0102030405060708, 0x1112131415161718);
    let bin = id.to_binary();
    assert_eq!(bin.len(), 16);
    assert_eq!(bin[0], 0x01);
    assert_eq!(bin[15], 0x18);
    assert_eq!(Id::from_binary(bin.as_slice()), Some(id));
    assert!(Id::new(2, 3).is_greater_than(&Id::new(1, 2)));
    assert!(!Id::new(2, 2).is_greater_than(&Id::new(1, 2)));
    assert!(Id::unit_id().is_unit_id());
}

#[test]
fn values_report_type_and_len() {
    assert_eq!(OwnedValue::U32(5).base_type(), Type::U32);
    assert_eq!(OwnedValue::Null.base_type(), Type::Null);
    let arr = OwnedValue::Array(vec![OwnedValue::U8(1), OwnedValue::U8(2)]);
    assert_eq!(arr.base_type(), Type::U8);
    assert_eq!(arr.len(), Some(2));
    assert_eq!(OwnedValue::Array(vec![]).base_type(), Type::NA);
    assert_eq!(OwnedValue::Bool(true).len(), None);
}

#[test]
fn to_array_and_to_vec_convert() {
    let arr = eval_one("(to_array [1u32 2u32])").unwrap();
    match arr {
        SExpr::Value(_) => {}
        other => panic!("expected an array value, got {:?}", other),
    }
    assert_eq!(
        eval_one("(to_vec (to_array [1u32 2u32]))").unwrap(),
        SExpr::Vec(vec![
            SExpr::shared_value(SharedValue::U32(1)),
            SExpr::shared_value(SharedValue::U32(2)),
        ])
    );
}

#[test]
fn interpreter_bind_seeds_a_global() {
    let mut interpreter = lisp::get_interpreter();
    interpreter.bind("row", SExpr::owned_value(OwnedValue::U64(99)));
    assert_eq!(
        lisp::eval_string(&mut interpreter, "(+ row 1u64)").unwrap(),
        SExpr::owned_value(OwnedValue::U64(100))
    );
}

#[test]
fn codec_encodes_and_decodes() {
    let mut buf: Vec<u8> = Vec::new();
    set_val(Type::U32, &OwnedValue::U32(0x01020304), &mut buf);
    assert_eq!(buf, vec![0x04, 0x03, 0x02, 0x01]);
    assert_eq!(
        get_owned_val(Type::U32, buf.as_slice(), 0),
        Some(OwnedValue::U32(0x01020304))
    );
    assert_eq!(get_vsize(Type::U32, &OwnedValue::U32(7)), 4);
    assert_eq!(get_size(Type::U32, buf.as_slice(), 0), Some(4));

    let mut buf2: Vec<u8> = Vec::new();
    set_val(
        Type::String,
        &OwnedValue::String("hi".to_string()),
        &mut buf2,
    );
    assert_eq!(buf2, vec![2, 0, 0, 0, b'h', b'i']);
    assert_eq!(
        get_owned_val(Type::String, buf2.as_slice(), 0),
        Some(OwnedValue::String("hi".to_string()))
    );
    assert_eq!(get_size(Type::String, buf2.as_slice(), 0), Some(6));

    // Truncated input decodes to nothing.
    assert_eq!(get_owned_val(Type::U64, buf.as_slice(), 0), None);
}

#[test]
fn features_and_hashes_digest_values() {
    // The feature key is big-endian and left-aligned: order-preserving.
    assert_eq!(
        OwnedValue::U32(0x01020304).feature(),
        vec![1, 2, 3, 4, 0, 0, 0, 0]
    );
    assert_eq!(OwnedValue::U64(1).feature(), vec![0, 0, 0, 0, 0, 0, 0, 1]);
    // A string's feature is its byte prefix; its hash digests the whole
    // content, so texts with the same prefix still hash apart.
    assert_eq!(
        OwnedValue::String("abc".to_string()).feature(),
        vec![b'a', b'b', b'c', 0, 0, 0, 0, 0]
    );
    let h1 = OwnedValue::String("abcdefghXX".to_string()).hash();
    let h2 = OwnedValue::String("abcdefghYY".to_string()).hash();
    assert_ne!(h1, h2);
    // Fan-out over a heterogeneous array of scalars.
    let arr = OwnedValue::Array(vec![OwnedValue::U32(1), OwnedValue::U32(2)]);
    let fs = arr.features();
    assert_eq!(fs.len(), 2);
    assert_eq!(fs[0], vec![0, 0, 0, 1, 0, 0, 0, 0]);
}

#[test]
fn maps_build_from_pairs_and_recover_names() {
    let m = OwnedMap::from_hash_map(vec![
        ("a".to_string(), OwnedValue::U32(1)),
        ("b".to_string(), OwnedValue::U32(2)),
    ]);
    assert_eq!(m.get("a"), OwnedValue::U32(1));
    assert_eq!(m.len(), 2);
    let mut m2 = OwnedMap::new();
    m2.insert_value("k", 7u64);
    m2.insert_key_id_value(42, 9u32);
    assert_eq!(m2.get("k"), OwnedValue::U64(7));
    assert_eq!(m2.get_by_key_id(42), OwnedValue::U32(9));
    // Only keys whose name is still present come back by name.
    let pairs = m2.into_string_map();
    assert_eq!(pairs.len(), 1);
    assert_eq!(pairs[0].0, "k");
    assert_eq!(pairs[0].1, OwnedValue::U64(7));
}
