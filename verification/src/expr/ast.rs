//! The S-expression tree the evaluator walks, and the value wrapper that
//! keeps a literal's owned or shared representation visible.

use vstd::prelude::*;
use crate::types::model::ValModel;
use crate::types::owned::OwnedValue;
use crate::types::shared::SharedValue;
use crate::types::data_type::str_eq;
use crate::types::value_eq::{owned_value_eq, shared_value_eq};
use crate::expr::error::EvalError;

verus! {

/// A literal value inside an expression: either owned outright or a shared
/// view of host-held memory.
#[derive(Debug)]
pub enum Value {
    Owned(OwnedValue),
    Shared(SharedValue),
}

/// An S-expression: what the parser produces and the evaluator consumes.
#[derive(Debug)]
pub enum SExpr {
    /// An unresolved name.
    Symbol(String),
    /// An interned name: its hashed id plus the original text.
    ISymbol(u64, String),
    /// A literal value.
    Value(Value),
    /// A call form, or the empty list standing for Null.
    List(Vec<SExpr>),
    /// A literal sequence: a binding form or argument vector.
    Vec(Vec<SExpr>),
    /// A keyword: its hashed id plus the original text.
    Keyword(u64, String),
    /// Metadata attached by the reader; carried through unevaluated.
    META(Vec<SExpr>),
    /// A lambda: interned parameter symbols and an unevaluated body.
    LAMBDA(Vec<SExpr>, Vec<SExpr>),
}

/// The model of a literal value, keeping the owned/shared tag.
#[verifier::ext_equal]
pub enum ValueModel {
    Owned(ValModel),
    Shared(ValModel),
}

/// The model of an S-expression.
#[verifier::ext_equal]
pub enum ExprModel {
    Symbol(Seq<char>),
    ISymbol(u64, Seq<char>),
    Value(ValueModel),
    List(Seq<ExprModel>),
    Vec(Seq<ExprModel>),
    Keyword(u64, Seq<char>),
    META(Seq<ExprModel>),
    LAMBDA(Seq<ExprModel>, Seq<ExprModel>),
}

impl ValueModel {
    /// The plain value inside, whichever representation carries it.
    pub open spec fn payload(self) -> ValModel {
        match self {
            ValueModel::Owned(v) => v,
            ValueModel::Shared(v) => v,
        }
    }
}

impl Value {
    /// The model of this literal.
    pub open spec fn model(&self) -> ValueModel {
        match self {
            Value::Owned(v) => ValueModel::Owned(v.model()),
            Value::Shared(v) => ValueModel::Shared(v.model()),
        }
    }
}

impl View for Value {
    type V = ValueModel;

    open spec fn view(&self) -> ValueModel {
        self.model()
    }
}

impl SExpr {
    /// The model of this expression.
    pub open spec fn model(&self) -> ExprModel
        decreases *self, 2int, 0int,
    {
        match self {
            SExpr::Symbol(s) => ExprModel::Symbol(s@),
            SExpr::ISymbol(id, s) => ExprModel::ISymbol(*id, s@),
            SExpr::Value(v) => ExprModel::Value(v.model()),
            SExpr::List(es) => ExprModel::List(Self::exprs_models(es, es@.len() as nat)),
            SExpr::Vec(es) => ExprModel::Vec(Self::exprs_models(es, es@.len() as nat)),
            SExpr::Keyword(id, s) => ExprModel::Keyword(*id, s@),
            SExpr::META(es) => ExprModel::META(Self::exprs_models(es, es@.len() as nat)),
            SExpr::LAMBDA(ps, body) => ExprModel::LAMBDA(
                Self::exprs_models(ps, ps@.len() as nat),
                Self::exprs_models(body, body@.len() as nat),
            ),
        }
    }

    /// The models of the first `n` expressions of a list.
    pub open spec fn exprs_models(es: &Vec<SExpr>, n: nat) -> Seq<ExprModel>
        decreases *es, 1int, n,
        via Self::exprs_models_decreases
    {
        if n == 0 || n > es@.len() {
            Seq::empty()
        } else {
            Self::exprs_models(es, (n - 1) as nat).push(es@[n - 1].model())
        }
    }

    #[via_fn]
    proof fn exprs_models_decreases(es: &Vec<SExpr>, n: nat) {
        if n > 0 && n <= es@.len() {
            vstd::std_specs::vec::axiom_vec_index_decreases(*es, n - 1);
        }
    }

    /// Expression models indexed.
    pub proof fn lemma_exprs_models(es: &Vec<SExpr>, n: nat)
        requires
            n <= es@.len(),
        ensures
            Self::exprs_models(es, n).len() == n,
            forall|i: int|
                0 <= i < n ==> #[trigger] Self::exprs_models(es, n)[i] == es@[i].model(),
        decreases n,
    {
        if n > 0 {
            Self::lemma_exprs_models(es, (n - 1) as nat);
        }
    }
}

impl View for SExpr {
    type V = ExprModel;

    open spec fn view(&self) -> ExprModel {
        self.model()
    }
}

/// The models of a whole expression list.
pub open spec fn models_of(es: &Vec<SExpr>) -> Seq<ExprModel> {
    SExpr::exprs_models(es, es@.len() as nat)
}

/// The model of an evaluation outcome.
pub open spec fn res_model(r: Result<SExpr, EvalError>) -> Result<ExprModel, EvalError> {
    match r {
        Ok(e) => Ok(e.model()),
        Err(x) => Err(x),
    }
}

/// The model of an outcome carrying a whole expression list.
pub open spec fn res_seq_model(r: Result<Vec<SExpr>, EvalError>) -> Result<
    Seq<ExprModel>,
    EvalError,
> {
    match r {
        Ok(v) => Ok(models_of(&v)),
        Err(x) => Err(x),
    }
}

impl Value {
    /// The canonical Null literal.
    pub fn null() -> (r: Value)
        ensures
            r@ == ValueModel::Owned(ValModel::Null),
    {
        Value::Owned(OwnedValue::Null)
    }

    /// Wrap an owned value.
    pub fn owned(val: OwnedValue) -> (r: Value)
        ensures
            r@ == ValueModel::Owned(val@),
    {
        Value::Owned(val)
    }

    /// The shared (normalized) form of this literal: what the operators
    /// inspect, with the same payload.
    pub fn norm(&self) -> (r: SharedValue)
        ensures
            r@ == self@.payload(),
    {
        match self {
            Value::Owned(v) => v.shared(),
            Value::Shared(v) => v.duplicate(),
        }
    }

    /// The owned form of this literal, materializing a shared one.
    pub fn into_owned_val(self) -> (r: OwnedValue)
        ensures
            r@ == self@.payload(),
    {
        match self {
            Value::Owned(v) => v,
            Value::Shared(v) => v.owned(),
        }
    }

    /// An independent copy with the same model.
    pub fn duplicate(&self) -> (r: Value)
        ensures
            r@ == self@,
    {
        match self {
            Value::Owned(v) => Value::Owned(v.duplicate()),
            Value::Shared(v) => Value::Shared(v.duplicate()),
        }
    }
}

impl SExpr {
    /// Wrap an owned value as a literal expression.
    pub fn owned_value(val: OwnedValue) -> (r: SExpr)
        ensures
            r@ == ExprModel::Value(ValueModel::Owned(val@)),
    {
        SExpr::Value(Value::Owned(val))
    }

    /// Wrap a shared value as a literal expression.
    pub fn shared_value(val: SharedValue) -> (r: SExpr)
        ensures
            r@ == ExprModel::Value(ValueModel::Shared(val@)),
    {
        SExpr::Value(Value::Shared(val))
    }

    /// The normalized payload of a literal expression; nothing for other
    /// expression kinds.
    pub fn val(&self) -> (r: Option<SharedValue>)
        ensures
            self@ matches ExprModel::Value(vm) ==> (r matches Some(sv) && sv@ == vm.payload()),
            !(self@ is Value) ==> r is None,
    {
        match self {
            SExpr::Value(v) => Some(v.norm()),
            _ => None,
        }
    }

    /// The owned payload of a literal expression; nothing for other kinds.
    pub fn owned_val(self) -> (r: Option<OwnedValue>)
        ensures
            self@ matches ExprModel::Value(vm) ==> (r matches Some(ov) && ov@ == vm.payload()),
            !(self@ is Value) ==> r is None,
    {
        match self {
            SExpr::Value(v) => Some(v.into_owned_val()),
            _ => None,
        }
    }

    /// This expression with an owned literal re-wrapped as shared; other
    /// expressions are copied unchanged.
    pub fn norm(&self) -> (r: SExpr)
        ensures
            self@ matches ExprModel::Value(ValueModel::Owned(ov)) ==> r@ == ExprModel::Value(
                ValueModel::Shared(ov),
            ),
            !(self@ matches ExprModel::Value(ValueModel::Owned(_))) ==> r@ == self@,
    {
        match self {
            SExpr::Value(Value::Owned(owned)) => SExpr::Value(Value::Shared(owned.shared())),
            _ => self.duplicate(),
        }
    }

    /// Whether this is an empty list or empty vector.
    pub fn is_empty(&self) -> (r: bool)
        ensures
            self@ matches ExprModel::List(es) ==> r == (es.len() == 0),
            self@ matches ExprModel::Vec(es) ==> r == (es.len() == 0),
            !(self@ is List) && !(self@ is Vec) ==> r == false,
    {
        proof {
            match self {
                SExpr::List(l) => SExpr::lemma_exprs_models(l, l@.len() as nat),
                SExpr::Vec(v) => SExpr::lemma_exprs_models(v, v@.len() as nat),
                _ => (),
            }
        }
        match self {
            SExpr::List(l) => l.len() == 0,
            SExpr::Vec(v) => v.len() == 0,
            _ => false,
        }
    }

    /// An independent copy with the same model.
    #[verifier::loop_isolation(false)]
    pub fn duplicate(&self) -> (r: SExpr)
        ensures
            r@ == self@,
        decreases *self, 1int,
    {
        match self {
            SExpr::Symbol(s) => SExpr::Symbol(s.clone()),
            SExpr::ISymbol(id, s) => SExpr::ISymbol(*id, s.clone()),
            SExpr::Value(v) => SExpr::Value(v.duplicate()),
            SExpr::Keyword(id, s) => SExpr::Keyword(*id, s.clone()),
            SExpr::List(es) => {
                let r = SExpr::List(Self::duplicate_vec(es));
                proof {
                    assert(r@->List_0 =~= self@->List_0);
                }
                r
            },
            SExpr::Vec(es) => {
                let r = SExpr::Vec(Self::duplicate_vec(es));
                proof {
                    assert(r@->Vec_0 =~= self@->Vec_0);
                }
                r
            },
            SExpr::META(es) => {
                let r = SExpr::META(Self::duplicate_vec(es));
                proof {
                    assert(r@->META_0 =~= self@->META_0);
                }
                r
            },
            SExpr::LAMBDA(ps, body) => {
                let r = SExpr::LAMBDA(Self::duplicate_vec(ps), Self::duplicate_vec(body));
                proof {
                    assert(r@->LAMBDA_0 =~= self@->LAMBDA_0);
                    assert(r@->LAMBDA_1 =~= self@->LAMBDA_1);
                }
                r
            },
        }
    }

    /// An independent copy of an expression list, elementwise.
    #[verifier::loop_isolation(false)]
    pub fn duplicate_vec(es: &Vec<SExpr>) -> (r: Vec<SExpr>)
        ensures
            r@.len() == es@.len(),
            forall|i: int| 0 <= i < es@.len() ==> #[trigger] r@[i].model() == es@[i].model(),
            Self::exprs_models(&r, r@.len() as nat) == Self::exprs_models(es, es@.len() as nat),
        decreases *es, 0int,
    {
        let mut out: Vec<SExpr> = Vec::new();
        let mut i: usize = 0;
        while i < es.len()
            invariant
                i <= es@.len(),
                out@.len() == i,
                forall|j: int| 0 <= j < i ==> #[trigger] out@[j].model() == es@[j].model(),
            decreases es@.len() - i,
        {
            proof {
                vstd::std_specs::vec::axiom_vec_index_decreases(*es, i as int);
            }
            let d = es[i].duplicate();
            out.push(d);
            i = i + 1;
        }
        proof {
            Self::lemma_exprs_models(&out, out@.len() as nat);
            Self::lemma_exprs_models(es, es@.len() as nat);
            assert(Self::exprs_models(&out, out@.len() as nat) =~= Self::exprs_models(
                es,
                es@.len() as nat,
            ));
        }
        out
    }
}

/// Compare two literal values by model, owned/shared tag included.
pub fn value_eq(a: &Value, b: &Value) -> (r: bool)
    ensures
        r == (a@ == b@),
{
    match (a, b) {
        (Value::Owned(x), Value::Owned(y)) => owned_value_eq(x, y),
        (Value::Shared(x), Value::Shared(y)) => shared_value_eq(x, y),
        _ => false,
    }
}

/// Compare two expressions by model: structurally, with strings compared by
/// characters and literal values by their value models.
#[verifier::loop_isolation(false)]
pub fn sexpr_eq(a: &SExpr, b: &SExpr) -> (r: bool)
    ensures
        r == (a@ == b@),
    decreases *a, 1int,
{
    match (a, b) {
        (SExpr::Symbol(x), SExpr::Symbol(y)) => str_eq(x.as_str(), y.as_str()),
        (SExpr::ISymbol(i, x), SExpr::ISymbol(j, y)) => *i == *j && str_eq(x.as_str(), y.as_str()),
        (SExpr::Keyword(i, x), SExpr::Keyword(j, y)) => *i == *j && str_eq(x.as_str(), y.as_str()),
        (SExpr::Value(x), SExpr::Value(y)) => value_eq(x, y),
        (SExpr::List(x), SExpr::List(y)) => sexpr_vec_eq(x, y),
        (SExpr::Vec(x), SExpr::Vec(y)) => sexpr_vec_eq(x, y),
        (SExpr::META(x), SExpr::META(y)) => sexpr_vec_eq(x, y),
        (SExpr::LAMBDA(px, bx), SExpr::LAMBDA(py, by)) => sexpr_vec_eq(px, py) && sexpr_vec_eq(
            bx,
            by,
        ),
        _ => false,
    }
}

/// Compare two expression lists elementwise by model.
#[verifier::loop_isolation(false)]
pub fn sexpr_vec_eq(a: &Vec<SExpr>, b: &Vec<SExpr>) -> (r: bool)
    ensures
        r == (SExpr::exprs_models(a, a@.len() as nat) == SExpr::exprs_models(
            b,
            b@.len() as nat,
        )),
    decreases *a, 0int,
{
    proof {
        SExpr::lemma_exprs_models(a, a@.len() as nat);
        SExpr::lemma_exprs_models(b, b@.len() as nat);
    }
    if a.len() != b.len() {
        return false;
    }
    let mut i: usize = 0;
    while i < a.len()
        invariant
            a@.len() == b@.len(),
            i <= a@.len(),
            forall|j: int| 0 <= j < i ==> #[trigger] a@[j].model() == b@[j].model(),
        decreases a@.len() - i,
    {
        proof {
            vstd::std_specs::vec::axiom_vec_index_decreases(*a, i as int);
        }
        if !sexpr_eq(&a[i], &b[i]) {
            proof {
                assert(SExpr::exprs_models(a, a@.len() as nat)[i as int] != SExpr::exprs_models(
                    b,
                    b@.len() as nat,
                )[i as int]);
            }
            return false;
        }
        i = i + 1;
    }
    proof {
        assert(SExpr::exprs_models(a, a@.len() as nat) =~= SExpr::exprs_models(
            b,
            b@.len() as nat,
        ));
    }
    true
}

impl PartialEq for SExpr {
    fn eq(&self, other: &SExpr) -> (r: bool) {
        sexpr_eq(self, other)
    }
}

impl Eq for SExpr {

}

impl vstd::std_specs::cmp::PartialEqSpecImpl for SExpr {
    open spec fn obeys_eq_spec() -> bool {
        true
    }

    open spec fn eq_spec(&self, other: &SExpr) -> bool {
        self@ == other@
    }
}

impl PartialEq for Value {
    fn eq(&self, other: &Value) -> (r: bool) {
        value_eq(self, other)
    }
}

impl Eq for Value {

}

impl vstd::std_specs::cmp::PartialEqSpecImpl for Value {
    open spec fn obeys_eq_spec() -> bool {
        true
    }

    open spec fn eq_spec(&self, other: &Value) -> bool {
        self@ == other@
    }
}

} // verus!
