//! The persisted-expression mirror: a structurally parallel tree for
//! durable storage of parsed programs, convertible losslessly to and from
//! the live S-expression tree. A mirror symbol always carries both the
//! hashed id and the original name.

use vstd::prelude::*;
use crate::hashing::{key_hash, key_hash_of};
use crate::types::model::ValModel;
use crate::types::owned::OwnedValue;
use crate::expr::ast::{SExpr, Value, ExprModel, ValueModel};

verus! {

/// A stored expression: the durable mirror of an S-expression. Values are
/// always owned; symbols always carry id and name.
#[derive(Debug)]
pub enum Expr {
    Symbol(u64, String),
    Value(OwnedValue),
    List(Vec<Expr>),
    Vec(Vec<Expr>),
    Keyword(u64, String),
    META(Vec<Expr>),
    LAMBDA(Vec<Expr>, Vec<Expr>),
}

/// The model of a stored expression.
#[verifier::ext_equal]
pub enum MirrorModel {
    Symbol(u64, Seq<char>),
    Value(ValModel),
    List(Seq<MirrorModel>),
    Vec(Seq<MirrorModel>),
    Keyword(u64, Seq<char>),
    META(Seq<MirrorModel>),
    LAMBDA(Seq<MirrorModel>, Seq<MirrorModel>),
}

impl Expr {
    /// The model of this stored expression.
    pub open spec fn model(&self) -> MirrorModel
        decreases *self, 2int, 0int,
    {
        match self {
            Expr::Symbol(id, s) => MirrorModel::Symbol(*id, s@),
            Expr::Value(v) => MirrorModel::Value(v.model()),
            Expr::List(es) => MirrorModel::List(Self::exprs_models(es, es@.len() as nat)),
            Expr::Vec(es) => MirrorModel::Vec(Self::exprs_models(es, es@.len() as nat)),
            Expr::Keyword(id, s) => MirrorModel::Keyword(*id, s@),
            Expr::META(es) => MirrorModel::META(Self::exprs_models(es, es@.len() as nat)),
            Expr::LAMBDA(ps, body) => MirrorModel::LAMBDA(
                Self::exprs_models(ps, ps@.len() as nat),
                Self::exprs_models(body, body@.len() as nat),
            ),
        }
    }

    /// The models of the first `n` stored expressions of a list.
    pub open spec fn exprs_models(es: &Vec<Expr>, n: nat) -> Seq<MirrorModel>
        decreases *es, 1int, n,
        via Self::exprs_models_decreases
    {
        if n == 0 || n > es@.len() {
            Seq::empty()
        } else {
            Self::exprs_models(es, (n - 1) as nat).push(es@[n - 1].model())
        }
    }

    #[via_fn]
    proof fn exprs_models_decreases(es: &Vec<Expr>, n: nat) {
        if n > 0 && n <= es@.len() {
            vstd::std_specs::vec::axiom_vec_index_decreases(*es, n - 1);
        }
    }

    /// Stored expression models indexed.
    pub proof fn lemma_exprs_models(es: &Vec<Expr>, n: nat)
        requires
            n <= es@.len(),
        ensures
            Self::exprs_models(es, n).len() == n,
            forall|i: int|
                0 <= i < n ==> #[trigger] Self::exprs_models(es, n)[i] == es@[i].model(),
        decreases n,
    {
        if n > 0 {
            Self::lemma_exprs_models(es, (n - 1) as nat);
        }
    }
}

impl View for Expr {
    type V = MirrorModel;

    open spec fn view(&self) -> MirrorModel {
        self.model()
    }
}

/// What a live expression stores as: plain symbols gain their hashed id,
/// shared values materialize, structure carries over.
pub open spec fn spec_from_sexpr(e: ExprModel) -> MirrorModel
    decreases e, 1int,
{
    match e {
        ExprModel::Symbol(s) => MirrorModel::Symbol(key_hash_of(s), s),
        ExprModel::ISymbol(id, s) => MirrorModel::Symbol(id, s),
        ExprModel::Keyword(id, s) => MirrorModel::Keyword(id, s),
        ExprModel::Value(vm) => MirrorModel::Value(vm.payload()),
        ExprModel::List(es) => MirrorModel::List(spec_from_sexpr_list(es, 0)),
        ExprModel::Vec(es) => MirrorModel::Vec(spec_from_sexpr_list(es, 0)),
        ExprModel::META(es) => MirrorModel::META(spec_from_sexpr_list(es, 0)),
        ExprModel::LAMBDA(ps, body) => MirrorModel::LAMBDA(
            spec_from_sexpr_list(ps, 0),
            spec_from_sexpr_list(body, 0),
        ),
    }
}

/// The stored forms of a live expression list from `i` on.
pub open spec fn spec_from_sexpr_list(es: Seq<ExprModel>, i: int) -> Seq<MirrorModel>
    decreases es, 0int, es.len() - i,
    via spec_from_sexpr_list_decreases
{
    if i < 0 || i >= es.len() {
        Seq::empty()
    } else {
        seq![spec_from_sexpr(es[i])] + spec_from_sexpr_list(es, i + 1)
    }
}

#[via_fn]
proof fn spec_from_sexpr_list_decreases(es: Seq<ExprModel>, i: int) {
    if 0 <= i < es.len() {
        vstd::seq::axiom_seq_index_decreases(es, i);
    }
}

/// What a stored expression revives as: symbols come back interned, values
/// come back owned, structure carries over.
pub open spec fn spec_to_sexpr(m: MirrorModel) -> ExprModel
    decreases m, 1int,
{
    match m {
        MirrorModel::Symbol(id, s) => ExprModel::ISymbol(id, s),
        MirrorModel::Keyword(id, s) => ExprModel::Keyword(id, s),
        MirrorModel::Value(v) => ExprModel::Value(ValueModel::Owned(v)),
        MirrorModel::List(es) => ExprModel::List(spec_to_sexpr_list(es, 0)),
        MirrorModel::Vec(es) => ExprModel::Vec(spec_to_sexpr_list(es, 0)),
        MirrorModel::META(es) => ExprModel::META(spec_to_sexpr_list(es, 0)),
        MirrorModel::LAMBDA(ps, body) => ExprModel::LAMBDA(
            spec_to_sexpr_list(ps, 0),
            spec_to_sexpr_list(body, 0),
        ),
    }
}

/// The revived forms of a stored expression list from `i` on.
pub open spec fn spec_to_sexpr_list(es: Seq<MirrorModel>, i: int) -> Seq<ExprModel>
    decreases es, 0int, es.len() - i,
    via spec_to_sexpr_list_decreases
{
    if i < 0 || i >= es.len() {
        Seq::empty()
    } else {
        seq![spec_to_sexpr(es[i])] + spec_to_sexpr_list(es, i + 1)
    }
}

#[via_fn]
proof fn spec_to_sexpr_list_decreases(es: Seq<MirrorModel>, i: int) {
    if 0 <= i < es.len() {
        vstd::seq::axiom_seq_index_decreases(es, i);
    }
}

/// Mirror round trip: storing a revived expression gives back exactly what
/// was stored, for every stored expression — the mirror form is canonical.
pub proof fn lemma_mirror_round_trip(m: MirrorModel)
    ensures
        spec_from_sexpr(spec_to_sexpr(m)) == m,
    decreases m, 1int, 0int,
{
    match m {
        MirrorModel::List(es) => {
            lemma_mirror_round_trip_list(es, 0);
            assert(spec_from_sexpr(spec_to_sexpr(m))->List_0 =~= es);
        },
        MirrorModel::Vec(es) => {
            lemma_mirror_round_trip_list(es, 0);
            assert(spec_from_sexpr(spec_to_sexpr(m))->Vec_0 =~= es);
        },
        MirrorModel::META(es) => {
            lemma_mirror_round_trip_list(es, 0);
            assert(spec_from_sexpr(spec_to_sexpr(m))->META_0 =~= es);
        },
        MirrorModel::LAMBDA(ps, body) => {
            lemma_mirror_round_trip_list(ps, 0);
            lemma_mirror_round_trip_list(body, 0);
            assert(spec_from_sexpr(spec_to_sexpr(m))->LAMBDA_0 =~= ps);
            assert(spec_from_sexpr(spec_to_sexpr(m))->LAMBDA_1 =~= body);
        },
        _ => {},
    }
}

/// Mirror round trip over a list.
proof fn lemma_mirror_round_trip_list(es: Seq<MirrorModel>, i: int)
    ensures
        0 <= i <= es.len() ==> spec_from_sexpr_list(spec_to_sexpr_list(es, i), 0) =~= es.skip(i),
    decreases es, 0int, es.len() - i,
{
    if 0 <= i < es.len() {
        vstd::seq::axiom_seq_index_decreases(es, i);
        lemma_mirror_round_trip(es[i]);
        lemma_mirror_round_trip_list(es, i + 1);
        let revived = spec_to_sexpr_list(es, i);
        assert(revived == seq![spec_to_sexpr(es[i])] + spec_to_sexpr_list(es, i + 1));
        lemma_from_list_cons(spec_to_sexpr(es[i]), spec_to_sexpr_list(es, i + 1));
        assert(es.skip(i) =~= seq![es[i]] + es.skip(i + 1));
    } else if i == es.len() {
        assert(spec_to_sexpr_list(es, i) =~= Seq::<ExprModel>::empty());
        assert(es.skip(i) =~= Seq::<MirrorModel>::empty());
    }
}

/// Storing a cons cell stores the head then the tail.
proof fn lemma_from_list_cons(h: ExprModel, t: Seq<ExprModel>)
    ensures
        spec_from_sexpr_list(seq![h] + t, 0) =~= seq![spec_from_sexpr(h)] + spec_from_sexpr_list(
            t,
            0,
        ),
    decreases t.len(),
{
    let joined = seq![h] + t;
    assert(joined[0] == h);
    lemma_from_list_shift(joined, t);
}

/// Storing from position one of a cons is storing the tail.
proof fn lemma_from_list_shift(joined: Seq<ExprModel>, t: Seq<ExprModel>)
    requires
        joined.len() == t.len() + 1,
        forall|j: int| 0 <= j < t.len() ==> joined[j + 1] == t[j],
    ensures
        spec_from_sexpr_list(joined, 1) =~= spec_from_sexpr_list(t, 0),
{
    lemma_from_list_offset(joined, t, 1);
}

/// Storing from an offset equals storing the shifted list.
proof fn lemma_from_list_offset(joined: Seq<ExprModel>, t: Seq<ExprModel>, i: int)
    requires
        1 <= i <= joined.len(),
        joined.len() == t.len() + 1,
        forall|j: int| 0 <= j < t.len() ==> joined[j + 1] == t[j],
    ensures
        spec_from_sexpr_list(joined, i) =~= spec_from_sexpr_list(t, i - 1),
    decreases joined.len() - i,
{
    if i < joined.len() {
        lemma_from_list_offset(joined, t, i + 1);
        assert(joined[i] == t[i - 1]);
    }
}

impl Expr {
    /// Store a live expression: plain symbols gain their hashed id, shared
    /// values materialize.
    pub fn from_sexpr(sexpr: SExpr) -> (r: Expr)
        ensures
            r@ == spec_from_sexpr(sexpr@),
    {
        Self::from_sexpr_ref(&sexpr)
    }

    /// Store a live expression, reading it in place.
    #[verifier::loop_isolation(false)]
    pub fn from_sexpr_ref(sexpr: &SExpr) -> (r: Expr)
        ensures
            r@ == spec_from_sexpr(sexpr@),
        decreases *sexpr, 1int,
    {
        match sexpr {
            SExpr::Symbol(s) => {
                let id = key_hash(s.as_str());
                Expr::Symbol(id, s.clone())
            },
            SExpr::ISymbol(id, s) => Expr::Symbol(*id, s.clone()),
            SExpr::Keyword(id, s) => Expr::Keyword(*id, s.clone()),
            SExpr::Value(v) => {
                let payload = match v {
                    Value::Owned(ov) => ov.duplicate(),
                    Value::Shared(sv) => sv.owned(),
                };
                Expr::Value(payload)
            },
            SExpr::List(es) => {
                let r = Expr::List(Self::from_sexpr_vec(es));
                proof {
                    assert(r@->List_0 =~= spec_from_sexpr(sexpr@)->List_0);
                }
                r
            },
            SExpr::Vec(es) => {
                let r = Expr::Vec(Self::from_sexpr_vec(es));
                proof {
                    assert(r@->Vec_0 =~= spec_from_sexpr(sexpr@)->Vec_0);
                }
                r
            },
            SExpr::META(es) => {
                let r = Expr::META(Self::from_sexpr_vec(es));
                proof {
                    assert(r@->META_0 =~= spec_from_sexpr(sexpr@)->META_0);
                }
                r
            },
            SExpr::LAMBDA(ps, body) => {
                let r = Expr::LAMBDA(Self::from_sexpr_vec(ps), Self::from_sexpr_vec(body));
                proof {
                    assert(r@->LAMBDA_0 =~= spec_from_sexpr(sexpr@)->LAMBDA_0);
                    assert(r@->LAMBDA_1 =~= spec_from_sexpr(sexpr@)->LAMBDA_1);
                }
                r
            },
        }
    }

    /// Store a list of live expressions, elementwise.
    #[verifier::loop_isolation(false)]
    fn from_sexpr_vec(es: &Vec<SExpr>) -> (r: Vec<Expr>)
        ensures
            Expr::exprs_models(&r, r@.len() as nat) == spec_from_sexpr_list(
                SExpr::exprs_models(es, es@.len() as nat),
                0,
            ),
        decreases *es, 0int,
    {
        proof {
            SExpr::lemma_exprs_models(es, es@.len() as nat);
        }
        let ghost ms = SExpr::exprs_models(es, es@.len() as nat);
        let mut out: Vec<Expr> = Vec::new();
        let mut i: usize = 0;
        while i < es.len()
            invariant
                i <= es@.len(),
                out@.len() == i,
                Expr::exprs_models(&out, out@.len() as nat) =~= spec_from_list_prefix(
                    ms,
                    i as int,
                ),
            decreases es@.len() - i,
        {
            proof {
                vstd::std_specs::vec::axiom_vec_index_decreases(*es, i as int);
                Expr::lemma_exprs_models(&out, out@.len() as nat);
            }
            let stored = Self::from_sexpr_ref(&es[i]);
            out.push(stored);
            proof {
                Expr::lemma_exprs_models(&out, out@.len() as nat);
                lemma_from_prefix_step(ms, i as int);
                assert(Expr::exprs_models(&out, out@.len() as nat) =~= spec_from_list_prefix(
                    ms,
                    i + 1,
                ));
            }
            i = i + 1;
        }
        proof {
            lemma_from_prefix_full(ms);
            assert(Expr::exprs_models(&out, out@.len() as nat) =~= spec_from_sexpr_list(ms, 0));
        }
        out
    }

    /// Revive a stored expression into the live tree.
    pub fn to_sexpr(self) -> (r: SExpr)
        ensures
            r@ == spec_to_sexpr(self@),
    {
        Self::to_sexpr_ref(&self)
    }

    /// Revive a stored expression, reading it in place.
    #[verifier::loop_isolation(false)]
    pub fn to_sexpr_ref(e: &Expr) -> (r: SExpr)
        ensures
            r@ == spec_to_sexpr(e@),
        decreases *e, 1int,
    {
        match e {
            Expr::Symbol(id, s) => SExpr::ISymbol(*id, s.clone()),
            Expr::Keyword(id, s) => SExpr::Keyword(*id, s.clone()),
            Expr::Value(v) => SExpr::Value(Value::Owned(v.duplicate())),
            Expr::List(es) => {
                let r = SExpr::List(Self::to_sexpr_vec(es));
                proof {
                    assert(r@->List_0 =~= spec_to_sexpr(e@)->List_0);
                }
                r
            },
            Expr::Vec(es) => {
                let r = SExpr::Vec(Self::to_sexpr_vec(es));
                proof {
                    assert(r@->Vec_0 =~= spec_to_sexpr(e@)->Vec_0);
                }
                r
            },
            Expr::META(es) => {
                let r = SExpr::META(Self::to_sexpr_vec(es));
                proof {
                    assert(r@->META_0 =~= spec_to_sexpr(e@)->META_0);
                }
                r
            },
            Expr::LAMBDA(ps, body) => {
                let r = SExpr::LAMBDA(Self::to_sexpr_vec(ps), Self::to_sexpr_vec(body));
                proof {
                    assert(r@->LAMBDA_0 =~= spec_to_sexpr(e@)->LAMBDA_0);
                    assert(r@->LAMBDA_1 =~= spec_to_sexpr(e@)->LAMBDA_1);
                }
                r
            },
        }
    }

    /// Revive a list of stored expressions, elementwise.
    #[verifier::loop_isolation(false)]
    fn to_sexpr_vec(es: &Vec<Expr>) -> (r: Vec<SExpr>)
        ensures
            SExpr::exprs_models(&r, r@.len() as nat) == spec_to_sexpr_list(
                Expr::exprs_models(es, es@.len() as nat),
                0,
            ),
        decreases *es, 0int,
    {
        proof {
            Expr::lemma_exprs_models(es, es@.len() as nat);
        }
        let ghost ms = Expr::exprs_models(es, es@.len() as nat);
        let mut out: Vec<SExpr> = Vec::new();
        let mut i: usize = 0;
        while i < es.len()
            invariant
                i <= es@.len(),
                out@.len() == i,
                SExpr::exprs_models(&out, out@.len() as nat) =~= spec_to_list_prefix(
                    ms,
                    i as int,
                ),
            decreases es@.len() - i,
        {
            proof {
                vstd::std_specs::vec::axiom_vec_index_decreases(*es, i as int);
                SExpr::lemma_exprs_models(&out, out@.len() as nat);
            }
            let revived = Self::to_sexpr_ref(&es[i]);
            out.push(revived);
            proof {
                SExpr::lemma_exprs_models(&out, out@.len() as nat);
                lemma_to_prefix_step(ms, i as int);
                assert(SExpr::exprs_models(&out, out@.len() as nat) =~= spec_to_list_prefix(
                    ms,
                    i + 1,
                ));
            }
            i = i + 1;
        }
        proof {
            lemma_to_prefix_full(ms);
            assert(SExpr::exprs_models(&out, out@.len() as nat) =~= spec_to_sexpr_list(ms, 0));
        }
        out
    }

    /// Whether this is an empty list or empty vector.
    pub fn is_empty(&self) -> (r: bool)
        ensures
            self@ matches MirrorModel::List(es) ==> r == (es.len() == 0),
            self@ matches MirrorModel::Vec(es) ==> r == (es.len() == 0),
            !(self@ is List) && !(self@ is Vec) ==> r == false,
    {
        proof {
            match self {
                Expr::List(l) => Expr::lemma_exprs_models(l, l@.len() as nat),
                Expr::Vec(v) => Expr::lemma_exprs_models(v, v@.len() as nat),
                _ => (),
            }
        }
        match self {
            Expr::List(l) => l.len() == 0,
            Expr::Vec(v) => v.len() == 0,
            _ => false,
        }
    }

    /// The empty stored expression: an empty list.
    pub fn nothing() -> (r: Expr)
        ensures
            r@ == MirrorModel::List(Seq::empty()),
    {
        let r = Expr::List(Vec::new());
        proof {
            assert(r@->List_0 =~= Seq::<MirrorModel>::empty());
        }
        r
    }
}

/// The stored forms of the first `i` elements.
pub open spec fn spec_from_list_prefix(es: Seq<ExprModel>, i: int) -> Seq<MirrorModel>
    decreases i,
{
    if i <= 0 {
        Seq::empty()
    } else {
        spec_from_list_prefix(es, i - 1).push(spec_from_sexpr(es[i - 1]))
    }
}

/// Prefix step for storing.
proof fn lemma_from_prefix_step(es: Seq<ExprModel>, i: int)
    requires
        0 <= i < es.len(),
    ensures
        spec_from_list_prefix(es, i + 1) == spec_from_list_prefix(es, i).push(
            spec_from_sexpr(es[i]),
        ),
{
}

/// The whole prefix is the full stored list.
proof fn lemma_from_prefix_full(es: Seq<ExprModel>)
    ensures
        spec_from_list_prefix(es, es.len() as int) =~= spec_from_sexpr_list(es, 0),
{
    lemma_from_prefix_full_from(es, 0);
}

proof fn lemma_from_prefix_full_from(es: Seq<ExprModel>, i: int)
    requires
        0 <= i <= es.len(),
    ensures
        spec_from_list_prefix(es, es.len() as int) =~= spec_from_list_prefix(es, i)
            + spec_from_sexpr_list(es, i),
    decreases es.len() - i,
{
    if i < es.len() {
        lemma_from_prefix_full_from(es, i + 1);
        lemma_from_prefix_step(es, i);
        assert(spec_from_list_prefix(es, i).push(spec_from_sexpr(es[i])) + spec_from_sexpr_list(
            es,
            i + 1,
        ) =~= spec_from_list_prefix(es, i) + (seq![spec_from_sexpr(es[i])]
            + spec_from_sexpr_list(es, i + 1)));
    } else {
        assert(spec_from_sexpr_list(es, i) =~= Seq::<MirrorModel>::empty());
    }
}

/// The revived forms of the first `i` elements.
pub open spec fn spec_to_list_prefix(es: Seq<MirrorModel>, i: int) -> Seq<ExprModel>
    decreases i,
{
    if i <= 0 {
        Seq::empty()
    } else {
        spec_to_list_prefix(es, i - 1).push(spec_to_sexpr(es[i - 1]))
    }
}

/// Prefix step for reviving.
proof fn lemma_to_prefix_step(es: Seq<MirrorModel>, i: int)
    requires
        0 <= i < es.len(),
    ensures
        spec_to_list_prefix(es, i + 1) == spec_to_list_prefix(es, i).push(spec_to_sexpr(es[i])),
{
}

/// The whole prefix is the full revived list.
proof fn lemma_to_prefix_full(es: Seq<MirrorModel>)
    ensures
        spec_to_list_prefix(es, es.len() as int) =~= spec_to_sexpr_list(es, 0),
{
    lemma_to_prefix_full_from(es, 0);
}

proof fn lemma_to_prefix_full_from(es: Seq<MirrorModel>, i: int)
    requires
        0 <= i <= es.len(),
    ensures
        spec_to_list_prefix(es, es.len() as int) =~= spec_to_list_prefix(es, i)
            + spec_to_sexpr_list(es, i),
    decreases es.len() - i,
{
    if i < es.len() {
        lemma_to_prefix_full_from(es, i + 1);
        lemma_to_prefix_step(es, i);
        assert(spec_to_list_prefix(es, i).push(spec_to_sexpr(es[i])) + spec_to_sexpr_list(
            es,
            i + 1,
        ) =~= spec_to_list_prefix(es, i) + (seq![spec_to_sexpr(es[i])] + spec_to_sexpr_list(
            es,
            i + 1,
        )));
    } else {
        assert(spec_to_sexpr_list(es, i) =~= Seq::<ExprModel>::empty());
    }
}

} // verus!
