//! Collection builtins: measuring, concatenating and extending sequences,
//! constructing maps from key/value pairs, and merging maps with
//! last-writer-wins entries and first-occurrence field names.

use vstd::prelude::*;
use vstd::string::StrSliceExecFns;
use crate::types::model::{
    ValModel, MapModel, entries_insert, lookup_entries, lemma_entries_insert_lookup,
};
use crate::types::owned::{OwnedValue, OwnedMap};
use crate::types::shared::SharedValue;
use crate::types::data_type::str_eq;
use crate::expr::ast::{SExpr, Value, ExprModel, ValueModel, res_model, models_of};
use crate::expr::error::EvalError;
use crate::expr::symbols::stream::{spec_to_vec, to_vec};

verus! {

/// The number of items one operand contributes: the element count of a
/// literal vector, array or map, or the byte length of a string.
pub open spec fn spec_size_one(e: ExprModel) -> Result<int, EvalError> {
    match e {
        ExprModel::Vec(es) => Ok(es.len() as int),
        ExprModel::Value(vm) => match vm.payload() {
            ValModel::Array(elems) => Ok(elems.len() as int),
            ValModel::String(s) => Ok((vstd::utf8::encode_utf8(s).len() as usize) as int),
            ValModel::DataMap(m) => Ok(m.len() as int),
            _ => Err(EvalError::TypeMismatch),
        },
        _ => Err(EvalError::TypeMismatch),
    }
}

/// The summed sizes of the operands from `i` on, with the running total.
pub open spec fn spec_size_sum(vs: Seq<ExprModel>, i: int, acc: int) -> Result<int, EvalError>
    decreases vs.len() - i,
{
    if i < 0 || i >= vs.len() {
        Ok(acc)
    } else {
        match spec_size_one(vs[i]) {
            Err(e) => Err(e),
            Ok(n) => if acc + n > u64::MAX {
                Err(EvalError::ArithmeticOverflow)
            } else {
                spec_size_sum(vs, i + 1, acc + n)
            },
        }
    }
}

/// Sum the sizes of the operands.
#[verifier::loop_isolation(false)]
pub fn size_(vals: &Vec<SExpr>) -> (r: Result<u64, EvalError>)
    ensures
        spec_size_sum(models_of(vals), 0, 0) matches Ok(n) ==> r == Ok::<u64, EvalError>(
            n as u64,
        ),
        spec_size_sum(models_of(vals), 0, 0) matches Err(e) ==> r == Err::<u64, EvalError>(e),
{
    proof {
        SExpr::lemma_exprs_models(vals, vals@.len() as nat);
    }
    let ghost ms = models_of(vals);
    let mut result: u64 = 0;
    let mut i: usize = 0;
    while i < vals.len()
        invariant
            i <= vals@.len(),
            spec_size_sum(ms, i as int, result as int) == spec_size_sum(ms, 0, 0),
        decreases vals@.len() - i,
    {
        let n: u64 = match &vals[i] {
            SExpr::Vec(v) => {
                let nv2 = v.len() as u64;
                proof {
                    SExpr::lemma_exprs_models(v, v@.len() as nat);
                    assert(ms[i as int] == models_of(vals)[i as int]);
                    assert(ms[i as int] == vals@[i as int].model());
                    assert(spec_size_one(ms[i as int]) == Ok::<int, EvalError>(nv2 as int));
                }
                nv2
            },
            SExpr::Value(val) => {
                let nv = val.norm();
                match nv {
                    SharedValue::Array(a) => {
                        let nv2 = a.len() as u64;
                        proof {
                            SharedValue::lemma_elem_models(&a, a@.len() as nat);
                            assert(ms[i as int] == models_of(vals)[i as int]);
                            assert(ms[i as int] == vals@[i as int].model());
                            assert(spec_size_one(ms[i as int]) is Ok);
                            assert(spec_size_one(ms[i as int])->Ok_0 == nv2 as int);
                        }
                        nv2
                    },
                    SharedValue::String(s) => {
                        let nv2 = s.as_str().len() as u64;
                        proof {
                            assert(ms[i as int] == models_of(vals)[i as int]);
                            assert(ms[i as int] == vals@[i as int].model());
                            assert(spec_size_one(ms[i as int]) == Ok::<int, EvalError>(
                                nv2 as int,
                            ));
                        }
                        nv2
                    },
                    SharedValue::DataMap(m) => {
                        let nv2 = m.len() as u64;
                        proof {
                            assert(ms[i as int] == models_of(vals)[i as int]);
                            assert(ms[i as int] == vals@[i as int].model());
                            assert(spec_size_one(ms[i as int]) == Ok::<int, EvalError>(
                                nv2 as int,
                            ));
                        }
                        nv2
                    },
                    _ => {
                        proof {
                            assert(spec_size_one(ms[i as int]) is Err);
                        }
                        return Err(EvalError::TypeMismatch);
                    },
                }
            },
            _ => {
                proof {
                    assert(spec_size_one(ms[i as int]) is Err);
                }
                return Err(EvalError::TypeMismatch);
            },
        };
        proof {
            assert(spec_size_one(ms[i as int]) is Ok && spec_size_one(ms[i as int])->Ok_0 == n as int);
        }
        match result.checked_add(n) {
            Some(w) => {
                result = w;
            },
            None => {
                return Err(EvalError::ArithmeticOverflow);
            },
        }
        i = i + 1;
    }
    Ok(result)
}

/// The summed sizes of the operands, as a value.
pub fn size(vals: Vec<SExpr>) -> (r: Result<SExpr, EvalError>)
    ensures
        spec_size_sum(models_of(&vals), 0, 0) matches Ok(n) ==> res_model(r) == Ok::<
            ExprModel,
            EvalError,
        >(ExprModel::Value(ValueModel::Owned(ValModel::U64(n as u64)))),
        spec_size_sum(models_of(&vals), 0, 0) matches Err(e) ==> res_model(r) == Err::<
            ExprModel,
            EvalError,
        >(e),
{
    match size_(&vals) {
        Ok(n) => Ok(SExpr::owned_value(OwnedValue::U64(n))),
        Err(e) => Err(e),
    }
}

/// The concatenation of the operands from `i` on, each unpacked as a
/// vector.
pub open spec fn spec_concat_from(vs: Seq<ExprModel>, i: int) -> Result<Seq<ExprModel>, EvalError>
    decreases vs.len() - i,
{
    if i < 0 || i >= vs.len() {
        Ok(Seq::empty())
    } else {
        match spec_to_vec(vs[i]) {
            Ok(ExprModel::Vec(es)) => match spec_concat_from(vs, i + 1) {
                Ok(rest) => Ok(es + rest),
                Err(e) => Err(e),
            },
            Ok(_) => Err(EvalError::TypeMismatch),
            Err(_) => Err(EvalError::TypeMismatch),
        }
    }
}

/// What `concat` returns: the operands' sizes are measured first (so a
/// non-measurable operand fails), then each operand is unpacked as a
/// vector and the results are joined.
pub open spec fn spec_concat(vs: Seq<ExprModel>) -> Result<ExprModel, EvalError> {
    match spec_size_sum(vs, 0, 0) {
        Err(e) => Err(e),
        Ok(_) => match spec_concat_from(vs, 0) {
            Ok(all) => Ok(ExprModel::Vec(all)),
            Err(e) => Err(e),
        },
    }
}

/// Join the operands, each unpacked as a vector, into one vector.
#[verifier::loop_isolation(false)]
pub fn concat(lists: Vec<SExpr>) -> (r: Result<SExpr, EvalError>)
    ensures
        res_model(r) == spec_concat(models_of(&lists)),
{
    proof {
        SExpr::lemma_exprs_models(&lists, lists@.len() as nat);
    }
    let ghost ms = models_of(&lists);
    if let Err(e) = size_(&lists) {
        return Err(e);
    }
    let mut result: Vec<SExpr> = Vec::new();
    let mut i: usize = 0;
    proof {
        match spec_concat_from(ms, 0) {
            Ok(all) => {
                assert(models_of(&result) + all =~= all);
            },
            Err(_) => {},
        }
    }
    while i < lists.len()
        invariant
            i <= lists@.len(),
            spec_concat_from(ms, 0) == (match spec_concat_from(ms, i as int) {
                Ok(rest) => Ok::<Seq<ExprModel>, EvalError>(models_of(&result) + rest),
                Err(e) => Err::<Seq<ExprModel>, EvalError>(e),
            }),
        decreases lists@.len() - i,
    {
        let piece = match to_vec(lists[i].duplicate()) {
            Ok(SExpr::Vec(v)) => v,
            Ok(_) => {
                return Err(EvalError::TypeMismatch);
            },
            Err(_) => {
                return Err(EvalError::TypeMismatch);
            },
        };
        proof {
            SExpr::lemma_exprs_models(&piece, piece@.len() as nat);
        }
        let ghost old_result = models_of(&result);
        let ghost piece_m = models_of(&piece);
        let mut piece = piece;
        let mut j: usize = 0;
        while j < piece.len()
            invariant
                j <= piece@.len(),
                models_of(&result) =~= old_result + piece_m.subrange(0, j as int),
                piece_m == models_of(&piece),
            decreases piece@.len() - j,
        {
            proof {
                SExpr::lemma_exprs_models(&result, result@.len() as nat);
            }
            let ghost before = models_of(&result);
            result.push(piece[j].duplicate());
            proof {
                SExpr::lemma_exprs_models(&result, result@.len() as nat);
                SExpr::lemma_exprs_models(&piece, piece@.len() as nat);
                assert(models_of(&result) =~= before.push(piece_m[j as int]));
                assert(before.push(piece_m[j as int]) =~= old_result + piece_m.subrange(
                    0,
                    j + 1,
                ));
            }
            j = j + 1;
        }
        proof {
            assert(piece_m.subrange(0, piece_m.len() as int) =~= piece_m);
            match spec_concat_from(ms, i + 1) {
                Ok(rest2) => {
                    assert(old_result + (piece_m + rest2) =~= models_of(&result) + rest2);
                },
                Err(_) => {},
            }
        }
        i = i + 1;
    }
    proof {
        match spec_concat_from(ms, lists@.len() as int) {
            Ok(tail) => {
                assert(models_of(&result) + tail =~= models_of(&result));
            },
            Err(_) => {},
        }
    }
    Ok(SExpr::Vec(result))
}

/// What `conj` returns: the first operand unpacked as a vector, with the
/// remaining operands appended.
pub open spec fn spec_conj(vs: Seq<ExprModel>) -> Result<ExprModel, EvalError> {
    if vs.len() == 0 {
        Err(EvalError::ArityMismatch)
    } else {
        match spec_to_vec(vs[0]) {
            Ok(ExprModel::Vec(es)) => Ok(ExprModel::Vec(es + vs.drop_first())),
            _ => Err(EvalError::TypeMismatch),
        }
    }
}

/// Append the remaining operands to the first, unpacked as a vector.
#[verifier::loop_isolation(false)]
pub fn conj(exprs: Vec<SExpr>) -> (r: Result<SExpr, EvalError>)
    ensures
        res_model(r) == spec_conj(models_of(&exprs)),
{
    proof {
        SExpr::lemma_exprs_models(&exprs, exprs@.len() as nat);
    }
    let ghost ms = models_of(&exprs);
    if exprs.len() == 0 {
        return Err(EvalError::ArityMismatch);
    }
    let mut exprs = exprs;
    let head = exprs.remove(0);
    proof {
        SExpr::lemma_exprs_models(&exprs, exprs@.len() as nat);
        assert(models_of(&exprs) =~= ms.drop_first());
    }
    let mut vec = match to_vec(head) {
        Ok(SExpr::Vec(v)) => v,
        Ok(_) => {
            return Err(EvalError::TypeMismatch);
        },
        Err(_) => {
            return Err(EvalError::TypeMismatch);
        },
    };
    proof {
        SExpr::lemma_exprs_models(&vec, vec@.len() as nat);
    }
    let ghost base = models_of(&vec);
    let ghost rest = models_of(&exprs);
    let mut j: usize = 0;
    while j < exprs.len()
        invariant
            j <= exprs@.len(),
            models_of(&vec) =~= base + rest.subrange(0, j as int),
            rest == models_of(&exprs),
            base.len() + j == vec@.len(),
        decreases exprs@.len() - j,
    {
        proof {
            SExpr::lemma_exprs_models(&vec, vec@.len() as nat);
        }
        let ghost before = models_of(&vec);
        vec.push(exprs[j].duplicate());
        proof {
            SExpr::lemma_exprs_models(&vec, vec@.len() as nat);
            SExpr::lemma_exprs_models(&exprs, exprs@.len() as nat);
            assert(models_of(&vec) =~= before.push(rest[j as int]));
            assert(before.push(rest[j as int]) =~= base + rest.subrange(0, j + 1));
        }
        j = j + 1;
    }
    proof {
        assert(rest.subrange(0, rest.len() as int) =~= rest);
    }
    Ok(SExpr::Vec(vec))
}

/// The key/value pair list of a `hash-map` call: a single list or vector
/// operand supplies the pairs; otherwise the operands are the pairs.
pub open spec fn spec_hashmap_pairs(vs: Seq<ExprModel>) -> Result<Seq<ExprModel>, EvalError> {
    if vs.len() == 1 {
        match vs[0] {
            ExprModel::Vec(inner) => Ok(inner),
            ExprModel::List(inner) => Ok(inner),
            _ => Err(EvalError::MalformedForm),
        }
    } else {
        Ok(vs)
    }
}

/// Fold the pairs from `i` into the map: a key is a string value or a
/// keyword, a value is any literal; the key's name joins the field list.
pub open spec fn spec_hashmap_fold(ps: Seq<ExprModel>, i: int, m: MapModel) -> Result<
    MapModel,
    EvalError,
>
    decreases ps.len() - i,
{
    if i < 0 || i + 1 >= ps.len() {
        Ok(m)
    } else {
        let keyname = match ps[i] {
            ExprModel::Value(kv) => match kv.payload() {
                ValModel::String(s) => Ok(s),
                _ => Err(EvalError::TypeMismatch),
            },
            ExprModel::Keyword(_, name) => Ok(name),
            _ => Err(EvalError::TypeMismatch),
        };
        match keyname {
            Err(e) => Err(e),
            Ok(name) => match ps[i + 1] {
                ExprModel::Value(vv) => spec_hashmap_fold(
                    ps,
                    i + 2,
                    m.insert_named(name, crate::hashing::key_hash_of(name), vv.payload()),
                ),
                _ => Err(EvalError::TypeMismatch),
            },
        }
    }
}

/// What `hash-map` returns: its pairs folded into a fresh map; an odd
/// number of pair items is malformed.
pub open spec fn spec_hashmap(vs: Seq<ExprModel>) -> Result<ExprModel, EvalError> {
    match spec_hashmap_pairs(vs) {
        Err(e) => Err(e),
        Ok(ps) => if ps.len() % 2 == 1 {
            Err(EvalError::MalformedForm)
        } else {
            match spec_hashmap_fold(ps, 0, MapModel { entries: Seq::empty(), fields: Seq::empty() },
            ) {
                Err(e) => Err(e),
                Ok(m) => Ok(ExprModel::Value(ValueModel::Owned(ValModel::DataMap(m)))),
            }
        },
    }
}

/// Build a map from key/value pairs, requiring an even number of pair
/// items; each key is a string or keyword whose name joins the field list,
/// and a repeated key's later value wins.
#[verifier::loop_isolation(false)]
pub fn hashmap(exprs: Vec<SExpr>) -> (r: Result<SExpr, EvalError>)
    ensures
        res_model(r) == spec_hashmap(models_of(&exprs)),
{
    proof {
        SExpr::lemma_exprs_models(&exprs, exprs@.len() as nat);
    }
    let ghost vs = models_of(&exprs);
    let mut exprs = exprs;
    if exprs.len() == 1 {
        let single = exprs.pop().unwrap();
        match single {
            SExpr::Vec(inner) => {
                exprs = inner;
            },
            SExpr::List(inner) => {
                exprs = inner;
            },
            _ => {
                return Err(EvalError::MalformedForm);
            },
        }
    }
    proof {
        SExpr::lemma_exprs_models(&exprs, exprs@.len() as nat);
        assert(spec_hashmap_pairs(vs) matches Ok(ps) && ps =~= models_of(&exprs));
    }
    let ghost ps = models_of(&exprs);
    if exprs.len() % 2 == 1 {
        return Err(EvalError::MalformedForm);
    }
    let mut map = OwnedMap::new();
    proof {
        assert(map@ =~= MapModel { entries: Seq::empty(), fields: Seq::empty() });
    }
    let mut i: usize = 0;
    while i + 1 < exprs.len()
        invariant
            i <= exprs@.len(),
            ps == models_of(&exprs),
            spec_hashmap_fold(ps, i as int, map@) == spec_hashmap_fold(
                ps,
                0,
                MapModel { entries: Seq::empty(), fields: Seq::empty() },
            ),
        decreases exprs@.len() - i,
    {
        let name: String = match &exprs[i] {
            SExpr::Value(kv) => {
                let nv = kv.norm();
                match nv {
                    SharedValue::String(s) => s,
                    _ => {
                        return Err(EvalError::TypeMismatch);
                    },
                }
            },
            SExpr::Keyword(_, kw) => kw.clone(),
            _ => {
                return Err(EvalError::TypeMismatch);
            },
        };
        let value: OwnedValue = match exprs[i + 1].duplicate() {
            SExpr::Value(vv) => vv.into_owned_val(),
            _ => {
                return Err(EvalError::TypeMismatch);
            },
        };
        map.insert(name.as_str(), value);
        i = i + 2;
    }
    Ok(SExpr::owned_value(OwnedValue::DataMap(map)))
}

/// Insert every entry of a list into an accumulated entry list, in order:
/// a later entry for the same key replaces the earlier value.
pub open spec fn spec_insert_entries(
    acc: Seq<(u64, ValModel)>,
    es: Seq<(u64, ValModel)>,
    j: int,
) -> Seq<(u64, ValModel)>
    decreases es.len() - j,
{
    if j < 0 || j >= es.len() {
        acc
    } else {
        spec_insert_entries(entries_insert(acc, es[j].0, es[j].1), es, j + 1)
    }
}

/// Fold the maps from `i` on into the accumulated entries and field list.
pub open spec fn spec_merge_fold(
    vs: Seq<ExprModel>,
    i: int,
    acc: Seq<(u64, ValModel)>,
    fields: Seq<Seq<char>>,
) -> Result<(Seq<(u64, ValModel)>, Seq<Seq<char>>), EvalError>
    decreases vs.len() - i,
{
    if i < 0 || i >= vs.len() {
        Ok((acc, fields))
    } else {
        match vs[i] {
            ExprModel::Value(vm) => match vm.payload() {
                ValModel::DataMap(m) => spec_merge_fold(
                    vs,
                    i + 1,
                    spec_insert_entries(acc, m.entries, 0),
                    fields + m.fields,
                ),
                _ => Err(EvalError::TypeMismatch),
            },
            _ => Err(EvalError::TypeMismatch),
        }
    }
}

/// Whether a name occurs in a field list.
pub open spec fn contains_name(fields: Seq<Seq<char>>, name: Seq<char>) -> bool {
    exists|i: int| 0 <= i < fields.len() && fields[i] == name
}

/// A field list with later duplicates dropped, keeping each name's first
/// occurrence in order.
pub open spec fn dedup_first(fields: Seq<Seq<char>>) -> Seq<Seq<char>>
    decreases fields.len(),
{
    if fields.len() == 0 {
        Seq::empty()
    } else {
        let rest = dedup_first(fields.drop_last());
        if contains_name(fields.drop_last(), fields.last()) {
            rest
        } else {
            rest.push(fields.last())
        }
    }
}

/// What `merge` returns: every operand must be a map; entries fold left to
/// right with the last writer winning for a key id, and the concatenated
/// field lists are deduplicated keeping first occurrences.
pub open spec fn spec_merge(vs: Seq<ExprModel>) -> Result<ExprModel, EvalError> {
    match spec_merge_fold(vs, 0, Seq::empty(), Seq::empty()) {
        Err(e) => Err(e),
        Ok((entries, fields)) => Ok(
            ExprModel::Value(
                ValueModel::Owned(
                    ValModel::DataMap(MapModel { entries, fields: dedup_first(fields) }),
                ),
            ),
        ),
    }
}

/// Merge maps: the union of their entries with the last writer winning,
/// and their field names concatenated then deduplicated keeping first
/// occurrences.
#[verifier::loop_isolation(false)]
pub fn merge(exprs: Vec<SExpr>) -> (r: Result<SExpr, EvalError>)
    ensures
        res_model(r) == spec_merge(models_of(&exprs)),
{
    proof {
        SExpr::lemma_exprs_models(&exprs, exprs@.len() as nat);
    }
    let ghost vs = models_of(&exprs);
    let mut acc = OwnedMap::new();
    let mut all_fields: Vec<String> = Vec::new();
    proof {
        assert(acc@.entries =~= Seq::<(u64, ValModel)>::empty());
        assert(Seq::new(all_fields@.len(), |k: int| all_fields@[k]@) =~= Seq::<Seq<char>>::empty());
    }
    let mut i: usize = 0;
    while i < exprs.len()
        invariant
            i <= exprs@.len(),
            vs == models_of(&exprs),
            acc@.fields == Seq::<Seq<char>>::empty(),
            spec_merge_fold(vs, i as int, acc@.entries, Seq::new(all_fields@.len(), |k: int| all_fields@[k]@))
                == spec_merge_fold(vs, 0, Seq::empty(), Seq::empty()),
        decreases exprs@.len() - i,
    {
        let m: crate::types::shared::SharedMap = match &exprs[i] {
            SExpr::Value(v) => {
                let nv = v.norm();
                match nv {
                    SharedValue::DataMap(m) => m,
                    _ => {
                        return Err(EvalError::TypeMismatch);
                    },
                }
            },
            _ => {
                return Err(EvalError::TypeMismatch);
            },
        };
        proof {
            SharedValue::lemma_entry_models(&m.map, m.map@.len() as nat);
        }
        let ghost mm = m@;
        let ghost acc0 = acc@.entries;
        let mut j: usize = 0;
        while j < m.map.len()
            invariant
                j <= m.map@.len(),
                mm == m@,
                acc@.entries == spec_insert_entries_upto(acc0, mm.entries, 0, j as int),
                acc@.fields == Seq::<Seq<char>>::empty(),
            decreases m.map@.len() - j,
        {
            let key = m.map[j].0;
            let val = m.map[j].1.duplicate().owned();
            proof {
                lemma_upto_step(acc0, mm.entries, 0, j as int);
            }
            acc.insert_key_id(key, val);
            j = j + 1;
        }
        proof {
            lemma_upto_full(acc0, mm.entries, 0);
        }
        let ghost fields0 = Seq::new(all_fields@.len(), |k: int| all_fields@[k]@);
        let mut f: usize = 0;
        while f < m.fields.len()
            invariant
                f <= m.fields@.len(),
                mm == m@,
                Seq::new(all_fields@.len(), |k: int| all_fields@[k]@) =~= fields0
                    + mm.fields.subrange(0, f as int),
            decreases m.fields@.len() - f,
        {
            let ghost before = Seq::new(all_fields@.len(), |k: int| all_fields@[k]@);
            all_fields.push(m.fields[f].clone());
            proof {
                assert(Seq::new(all_fields@.len(), |k: int| all_fields@[k]@) =~= before.push(
                    mm.fields[f as int],
                ));
                assert(before.push(mm.fields[f as int]) =~= fields0 + mm.fields.subrange(
                    0,
                    f + 1,
                ));
            }
            f = f + 1;
        }
        proof {
            assert(mm.fields.subrange(0, mm.fields.len() as int) =~= mm.fields);
        }
        i = i + 1;
    }
    let deduped = dedup_fields(&all_fields);
    let result = OwnedMap { map: acc.map, fields: deduped };
    proof {
        OwnedValue::lemma_entry_models(&result.map, result.map@.len() as nat);
        OwnedValue::lemma_entry_models(&acc.map, acc.map@.len() as nat);
        assert(result@.entries =~= acc@.entries);
        assert(result@.fields =~= dedup_first(Seq::new(all_fields@.len(), |k: int| all_fields@[k]@)));
    }
    Ok(SExpr::owned_value(OwnedValue::DataMap(result)))
}

/// The entry fold limited to entries before `k`.
pub open spec fn spec_insert_entries_upto(
    acc: Seq<(u64, ValModel)>,
    es: Seq<(u64, ValModel)>,
    j: int,
    k: int,
) -> Seq<(u64, ValModel)>
    decreases k - j,
{
    if j < 0 || j >= k || j >= es.len() {
        acc
    } else {
        spec_insert_entries_upto(entries_insert(acc, es[j].0, es[j].1), es, j + 1, k)
    }
}

/// Extending the bounded fold by one entry inserts that entry.
proof fn lemma_upto_step(acc: Seq<(u64, ValModel)>, es: Seq<(u64, ValModel)>, a: int, b: int)
    requires
        0 <= a <= b < es.len(),
    ensures
        spec_insert_entries_upto(acc, es, a, b + 1) == entries_insert(
            spec_insert_entries_upto(acc, es, a, b),
            es[b].0,
            es[b].1,
        ),
    decreases b - a,
{
    if a == b {
        assert(spec_insert_entries_upto(acc, es, a, a + 1) == spec_insert_entries_upto(
            entries_insert(acc, es[a].0, es[a].1),
            es,
            a + 1,
            a + 1,
        ));
    } else {
        lemma_upto_step(entries_insert(acc, es[a].0, es[a].1), es, a + 1, b);
        assert(spec_insert_entries_upto(acc, es, a, b + 1) == spec_insert_entries_upto(
            entries_insert(acc, es[a].0, es[a].1),
            es,
            a + 1,
            b + 1,
        ));
        assert(spec_insert_entries_upto(acc, es, a, b) == spec_insert_entries_upto(
            entries_insert(acc, es[a].0, es[a].1),
            es,
            a + 1,
            b,
        ));
    }
}

/// The bounded fold over the whole list is the fold.
proof fn lemma_upto_full(acc: Seq<(u64, ValModel)>, es: Seq<(u64, ValModel)>, j: int)
    requires
        0 <= j <= es.len(),
    ensures
        spec_insert_entries_upto(acc, es, j, es.len() as int) == spec_insert_entries(acc, es, j),
    decreases es.len() - j,
{
    if j < es.len() {
        lemma_upto_full(entries_insert(acc, es[j].0, es[j].1), es, j + 1);
    }
}

/// Deduplicate a field-name list, keeping each name's first occurrence.
#[verifier::loop_isolation(false)]
pub fn dedup_fields(fields: &Vec<String>) -> (r: Vec<String>)
    ensures
        Seq::new(r@.len(), |k: int| r@[k]@) == dedup_first(
            Seq::new(fields@.len(), |k: int| fields@[k]@),
        ),
{
    let ghost fm = Seq::new(fields@.len(), |k: int| fields@[k]@);
    let mut out: Vec<String> = Vec::new();
    let mut i: usize = 0;
    proof {
        assert(Seq::new(out@.len(), |k: int| out@[k]@) =~= dedup_first(fm.subrange(0, 0)));
        assert(fm.subrange(0, 0) =~= Seq::<Seq<char>>::empty());
    }
    while i < fields.len()
        invariant
            i <= fields@.len(),
            fm == Seq::new(fields@.len(), |k: int| fields@[k]@),
            Seq::new(out@.len(), |k: int| out@[k]@) == dedup_first(fm.subrange(0, i as int)),
            forall|n: Seq<char>|
                #![trigger contains_name(fm.subrange(0, i as int), n)]
                contains_name(Seq::new(out@.len(), |k: int| out@[k]@), n) == contains_name(
                    fm.subrange(0, i as int),
                    n,
                ),
        decreases fields@.len() - i,
    {
        let ghost prefix = fm.subrange(0, i as int);
        let ghost outm = Seq::new(out@.len(), |k: int| out@[k]@);
        let mut seen = false;
        let mut j: usize = 0;
        while j < out.len()
            invariant
                j <= out@.len(),
                outm == Seq::new(out@.len(), |k: int| out@[k]@),
                seen == exists|k: int| 0 <= k < j && outm[k] == fields@[i as int]@,
            decreases out@.len() - j,
        {
            if str_eq(out[j].as_str(), fields[i].as_str()) {
                proof {
                    assert(outm[j as int] == fields@[i as int]@);
                }
                seen = true;
            }
            j = j + 1;
        }
        proof {
            assert(seen == contains_name(outm, fm[i as int]));
            assert(fm.subrange(0, i + 1).drop_last() =~= prefix);
            assert(fm.subrange(0, i + 1).last() == fm[i as int]);
        }
        if !seen {
            let ghost before = Seq::new(out@.len(), |k: int| out@[k]@);
            out.push(fields[i].clone());
            proof {
                assert(Seq::new(out@.len(), |k: int| out@[k]@) =~= before.push(fm[i as int]));
            }
        }
        proof {
            let newm = Seq::new(out@.len(), |k: int| out@[k]@);
            let newpre = fm.subrange(0, i + 1);
            assert(newpre =~= prefix.push(fm[i as int]));
            if seen {
                assert(newm =~= outm);
            } else {
                assert(newm =~= outm.push(fm[i as int]));
            }
            assert forall|n: Seq<char>|
                #![trigger contains_name(fm.subrange(0, i + 1), n)]
                contains_name(Seq::new(out@.len(), |k: int| out@[k]@), n) == contains_name(
                    fm.subrange(0, i + 1),
                    n,
                ) by {
                lemma_contains_push(prefix, fm[i as int], n);
                if !seen {
                    lemma_contains_push(outm, fm[i as int], n);
                }
            }
        }
        i = i + 1;
    }
    proof {
        assert(fm.subrange(0, fm.len() as int) =~= fm);
    }
    out
}

/// Merge dedup: when two merged maps both declare a field name, the result
/// declares it exactly once; and for a key the later map holds (with its
/// keys unique, as every map the engine builds has them), the value stored
/// in the merged entries is the later map's.
pub proof fn lemma_merge_dedup(m1: MapModel, m2: MapModel, name: Seq<char>, key: u64)
    requires
        contains_name(m1.fields, name) || contains_name(m2.fields, name),
        m2.contains_key(key),
        m2.keys_unique(),
    ensures
        count_name(dedup_first(m1.fields + m2.fields), name) == 1,
        lookup_entries(
            spec_insert_entries(spec_insert_entries(Seq::empty(), m1.entries, 0), m2.entries, 0),
            key,
        ) == m2.lookup(key),
{
    lemma_contains_concat(m1.fields, m2.fields, name);
    lemma_dedup_count(m1.fields + m2.fields, name);
    crate::types::model::lemma_entries_find(m2.entries, key);
    let f = crate::types::model::entries_find(m2.entries, key);
    lemma_has_key_from_find(m2.entries, 0, key);
    lemma_insert_entries_wins(
        spec_insert_entries(Seq::empty(), m1.entries, 0),
        m2.entries,
        0,
        key,
    );
    lemma_unique_last_is_first(m2.entries, 0, key);
}

/// With a find hit, the key occurs from the start on.
proof fn lemma_has_key_from_find(es: Seq<(u64, ValModel)>, j: int, key: u64)
    requires
        0 <= j <= es.len(),
    ensures
        has_key_from(es, j, key) == exists|jj: int| j <= jj < es.len() && es[jj].0 == key,
    decreases es.len() - j,
{
    if j < es.len() {
        lemma_has_key_from_find(es, j + 1, key);
        if es[j].0 == key {
            assert(exists|jj: int| j <= jj < es.len() && es[jj].0 == key);
        }
    }
}

/// With unique keys, the last occurrence is the only one, so its value is
/// the map's lookup.
proof fn lemma_unique_last_is_first(es: Seq<(u64, ValModel)>, j: int, key: u64)
    requires
        0 <= j <= es.len(),
        forall|a: int, b: int| 0 <= a < b < es.len() ==> es[a].0 != es[b].0,
    ensures
        has_key_from(es, j, key) ==> last_val_from(es, j, key) == lookup_entries(es, key),
    decreases es.len() - j,
{
    crate::types::model::lemma_entries_find(es, key);
    if j < es.len() {
        lemma_unique_last_is_first(es, j + 1, key);
        lemma_has_key_from_find(es, j + 1, key);
        if has_key_from(es, j, key) && !has_key_from(es, j + 1, key) {
            assert(es[j].0 == key);
            let f = crate::types::model::entries_find(es, key);
            if f != j {
                assert(es[f].0 == key);
                assert(false);
            }
        }
    }
}

/// How often a name occurs in a field list.
pub open spec fn count_name(fields: Seq<Seq<char>>, name: Seq<char>) -> nat
    decreases fields.len(),
{
    if fields.len() == 0 {
        0
    } else {
        count_name(fields.drop_last(), name) + (if fields.last() == name {
            1nat
        } else {
            0nat
        })
    }
}

/// Concatenation contains a name when either part does.
proof fn lemma_contains_concat(a: Seq<Seq<char>>, b: Seq<Seq<char>>, name: Seq<char>)
    ensures
        contains_name(a + b, name) == (contains_name(a, name) || contains_name(b, name)),
{
    if contains_name(a, name) {
        let w = choose|i: int| 0 <= i < a.len() && a[i] == name;
        assert((a + b)[w] == name);
    }
    if contains_name(b, name) {
        let w = choose|i: int| 0 <= i < b.len() && b[i] == name;
        assert((a + b)[a.len() + w] == name);
    }
    if contains_name(a + b, name) {
        let w = choose|i: int| 0 <= i < (a + b).len() && (a + b)[i] == name;
        if w < a.len() {
            assert(a[w] == name);
        } else {
            assert(b[w - a.len()] == name);
        }
    }
}

/// A pushed name is contained exactly when it was there or is the new one.
proof fn lemma_contains_push(fields: Seq<Seq<char>>, x: Seq<char>, n: Seq<char>)
    ensures
        contains_name(fields.push(x), n) == (contains_name(fields, n) || x == n),
{
    if contains_name(fields, n) {
        let w = choose|i: int| 0 <= i < fields.len() && fields[i] == n;
        assert(fields.push(x)[w] == n);
    }
    if x == n {
        assert(fields.push(x)[fields.len() as int] == n);
    }
    if contains_name(fields.push(x), n) {
        let w = choose|i: int| 0 <= i < fields.push(x).len() && fields.push(x)[i] == n;
        if w < fields.len() {
            assert(fields[w] == n);
        }
    }
}

/// Deduplication keeps a contained name exactly once.
proof fn lemma_dedup_count(fields: Seq<Seq<char>>, name: Seq<char>)
    ensures
        contains_name(fields, name) ==> count_name(dedup_first(fields), name) == 1,
        !contains_name(fields, name) ==> count_name(dedup_first(fields), name) == 0,
    decreases fields.len(),
{
    if fields.len() > 0 {
        let prior = fields.drop_last();
        let x = fields.last();
        lemma_dedup_count(prior, name);
        assert(fields =~= prior.push(x));
        lemma_contains_push(prior, x, name);
        assert(contains_name(fields, name) == (contains_name(prior, name) || x == name));
        if contains_name(prior, x) {
            assert(dedup_first(fields) == dedup_first(prior));
            if x == name {
                assert(contains_name(prior, name));
            }
        } else {
            assert(dedup_first(fields) == dedup_first(prior).push(x));
            assert(count_name(dedup_first(prior).push(x), name) == count_name(
                dedup_first(prior),
                name,
            ) + (if x == name {
                1nat
            } else {
                0nat
            })) by {
                assert(dedup_first(prior).push(x).drop_last() =~= dedup_first(prior));
            }
            if x == name {
                assert(!contains_name(prior, name));
            }
        }
    }
}

/// Folding an entry list over an accumulator: a key present in the list
/// ends at the list's value for it (the last occurrence wins).
proof fn lemma_insert_entries_wins(
    acc: Seq<(u64, ValModel)>,
    es: Seq<(u64, ValModel)>,
    j: int,
    key: u64,
)
    requires
        0 <= j <= es.len(),
    ensures
        has_key_from(es, j, key) ==> lookup_entries(spec_insert_entries(acc, es, j), key)
            == last_val_from(es, j, key),
        !has_key_from(es, j, key) ==> lookup_entries(spec_insert_entries(acc, es, j), key)
            == lookup_entries(acc, key),
    decreases es.len() - j,
{
    if j < es.len() {
        let acc1 = entries_insert(acc, es[j].0, es[j].1);
        lemma_entries_insert_lookup(acc, es[j].0, es[j].1);
        lemma_insert_entries_wins(acc1, es, j + 1, key);
    }
}

/// Whether any entry from `j` on carries the key.
pub open spec fn has_key_from(es: Seq<(u64, ValModel)>, j: int, key: u64) -> bool
    decreases es.len() - j,
{
    if j < 0 || j >= es.len() {
        false
    } else {
        es[j].0 == key || has_key_from(es, j + 1, key)
    }
}

/// The value of the last entry from `j` on that carries the key.
pub open spec fn last_val_from(es: Seq<(u64, ValModel)>, j: int, key: u64) -> ValModel
    decreases es.len() - j,
{
    if j < 0 || j >= es.len() {
        ValModel::Null
    } else if has_key_from(es, j + 1, key) {
        last_val_from(es, j + 1, key)
    } else if es[j].0 == key {
        es[j].1
    } else {
        ValModel::Null
    }
}

} // verus!
