//! The binding environment and the interpreter that owns one: a mapping
//! from interned symbol id to a last-in-first-out stack of bound
//! expressions, which is what gives the language dynamic scoping.

use vstd::prelude::*;
use crate::expr::ast::{SExpr, ExprModel};
use crate::expr::error::EvalError;
use crate::hashing::key_hash;

verus! {

/// The model of a binding environment: for each symbol id, its stack of
/// bindings, most recent last.
pub type EnvModel = Seq<(u64, Seq<ExprModel>)>;

/// The binding environment: one stack of bound expressions per interned
/// symbol id. The top of each stack is the binding in force.
pub struct Envorinment {
    pub bindings: Vec<(u64, Vec<SExpr>)>,
}

/// The first position holding a symbol id, or -1 when the id has no entry.
pub open spec fn env_find(m: EnvModel, id: u64) -> int
    decreases m.len(),
{
    if m.len() == 0 {
        -1
    } else if m[0].0 == id {
        0
    } else {
        let r = env_find(m.drop_first(), id);
        if r < 0 {
            -1
        } else {
            r + 1
        }
    }
}

/// Where `env_find` points: at the first entry of the id, or nowhere and
/// then no entry holds the id.
pub proof fn lemma_env_find(m: EnvModel, id: u64)
    ensures
        env_find(m, id) >= 0 ==> env_find(m, id) < m.len() && m[env_find(m, id)].0 == id && (
        forall|j: int| 0 <= j < env_find(m, id) ==> m[j].0 != id),
        env_find(m, id) < 0 ==> (forall|j: int| 0 <= j < m.len() ==> m[j].0 != id),
    decreases m.len(),
{
    if m.len() > 0 && m[0].0 != id {
        lemma_env_find(m.drop_first(), id);
        assert forall|j: int| 1 <= j < m.len() implies #[trigger] m[j] == m.drop_first()[j
            - 1] by {}
    }
}

/// How many bindings a symbol id has stacked; an id with no entry has
/// depth zero.
pub open spec fn env_depth(m: EnvModel, id: u64) -> nat {
    if env_find(m, id) >= 0 {
        m[env_find(m, id)].1.len()
    } else {
        0
    }
}

/// The binding in force for a symbol id: the top of its stack, nothing when
/// the stack is empty or absent.
pub open spec fn env_top(m: EnvModel, id: u64) -> Option<ExprModel> {
    if env_find(m, id) >= 0 && m[env_find(m, id)].1.len() > 0 {
        Some(m[env_find(m, id)].1.last())
    } else {
        None
    }
}

/// Push a binding for a symbol id: onto its stack, or as a fresh entry.
pub open spec fn env_bind(m: EnvModel, id: u64, e: ExprModel) -> EnvModel {
    let at = env_find(m, id);
    if at >= 0 {
        m.update(at, (id, m[at].1.push(e)))
    } else {
        m.push((id, seq![e]))
    }
}

/// Pop the top binding of a symbol id; popping an empty or absent stack
/// leaves its depth at zero (an absent id gains an empty entry).
pub open spec fn env_unbind(m: EnvModel, id: u64) -> EnvModel {
    let at = env_find(m, id);
    if at >= 0 {
        if m[at].1.len() > 0 {
            m.update(at, (id, m[at].1.drop_last()))
        } else {
            m
        }
    } else {
        m.push((id, Seq::empty()))
    }
}

/// No binding stack is shorter in `b` than in `a`: what every evaluation
/// guarantees of the environment it returns, since an evaluation only pops
/// bindings it pushed itself.
pub open spec fn env_le(a: EnvModel, b: EnvModel) -> bool {
    forall|id: u64| env_depth(a, id) <= env_depth(b, id)
}

/// Depth never shrinks from an environment to itself.
pub proof fn lemma_env_le_refl(a: EnvModel)
    ensures
        env_le(a, a),
{
}

/// Depth comparisons chain.
pub proof fn lemma_env_le_trans(a: EnvModel, b: EnvModel, c: EnvModel)
    requires
        env_le(a, b),
        env_le(b, c),
    ensures
        env_le(a, c),
{
    assert forall|id: u64| env_depth(a, id) <= env_depth(c, id) by {
        assert(env_depth(a, id) <= env_depth(b, id));
        assert(env_depth(b, id) <= env_depth(c, id));
    }
}

/// Binding symmetry: binding a symbol and then unbinding it restores the
/// binding depth of that symbol, and never touches the depth of any other
/// symbol.
pub proof fn lemma_binding_symmetry(m: EnvModel, id: u64, e: ExprModel)
    ensures
        env_depth(env_unbind(env_bind(m, id, e), id), id) == env_depth(m, id),
        forall|other: u64|
            other != id ==> env_depth(env_unbind(env_bind(m, id, e), id), other) == env_depth(
                m,
                other,
            ),
{
    let m1 = env_bind(m, id, e);
    let m2 = env_unbind(m1, id);
    lemma_env_find(m, id);
    lemma_env_bind(m, id, e);
    lemma_env_unbind(m1, id);
    assert forall|other: u64| other != id implies env_depth(m2, other) == env_depth(m, other) by {
        lemma_env_bind_other(m, id, e, other);
        lemma_env_unbind_other(m1, id, other);
    }
}

/// Binding raises the bound id's depth by exactly one.
pub proof fn lemma_env_bind(m: EnvModel, id: u64, e: ExprModel)
    ensures
        env_depth(env_bind(m, id, e), id) == env_depth(m, id) + 1,
        env_top(env_bind(m, id, e), id) == Some(e),
{
    let m1 = env_bind(m, id, e);
    lemma_env_find(m, id);
    lemma_env_find(m1, id);
    let at = env_find(m, id);
    if at >= 0 {
        lemma_env_find_update(m, at, (id, m[at].1.push(e)), id);
    } else {
        lemma_env_find_push(m, id, seq![e]);
    }
}

/// Unbinding lowers a positive depth by exactly one and leaves zero at
/// zero.
pub proof fn lemma_env_unbind(m: EnvModel, id: u64)
    ensures
        env_depth(m, id) > 0 ==> env_depth(env_unbind(m, id), id) == env_depth(m, id) - 1,
        env_depth(m, id) == 0 ==> env_depth(env_unbind(m, id), id) == 0,
{
    let m1 = env_unbind(m, id);
    lemma_env_find(m, id);
    lemma_env_find(m1, id);
    let at = env_find(m, id);
    if at >= 0 {
        if m[at].1.len() > 0 {
            lemma_env_find_update(m, at, (id, m[at].1.drop_last()), id);
        }
    } else {
        lemma_env_find_push(m, id, Seq::empty());
    }
}

/// Binding one id leaves every other id's depth and top alone.
pub proof fn lemma_env_bind_other(m: EnvModel, id: u64, e: ExprModel, other: u64)
    requires
        other != id,
    ensures
        env_depth(env_bind(m, id, e), other) == env_depth(m, other),
        env_top(env_bind(m, id, e), other) == env_top(m, other),
{
    let at = env_find(m, id);
    lemma_env_find(m, id);
    if at >= 0 {
        lemma_env_find_update_other(m, at, (id, m[at].1.push(e)), other);
    } else {
        lemma_env_find_push_other(m, id, seq![e], other);
    }
}

/// Unbinding one id leaves every other id's depth and top alone.
pub proof fn lemma_env_unbind_other(m: EnvModel, id: u64, other: u64)
    requires
        other != id,
    ensures
        env_depth(env_unbind(m, id), other) == env_depth(m, other),
        env_top(env_unbind(m, id), other) == env_top(m, other),
{
    let at = env_find(m, id);
    lemma_env_find(m, id);
    if at >= 0 {
        if m[at].1.len() > 0 {
            lemma_env_find_update_other(m, at, (id, m[at].1.drop_last()), other);
        }
    } else {
        lemma_env_find_push_other(m, id, Seq::empty(), other);
    }
}

proof fn lemma_env_find_update(m: EnvModel, at: int, entry: (u64, Seq<ExprModel>), id: u64)
    requires
        0 <= at < m.len(),
        m[at].0 == id,
        entry.0 == id,
        forall|j: int| 0 <= j < at ==> m[j].0 != id,
    ensures
        env_find(m.update(at, entry), id) == at,
    decreases m.len(),
{
    let m1 = m.update(at, entry);
    lemma_env_find(m1, id);
    if env_find(m1, id) < 0 {
        assert(m1[at].0 == id);
        assert(false);
    }
    let f = env_find(m1, id);
    if f < at {
        assert(m1[f].0 == id);
        assert(m[f].0 == id);
        assert(false);
    }
    if f > at {
        assert(m1[at].0 != id);
        assert(false);
    }
}

proof fn lemma_env_find_update_other(m: EnvModel, at: int, entry: (u64, Seq<ExprModel>), other: u64)
    requires
        0 <= at < m.len(),
        entry.0 == m[at].0,
        other != entry.0,
    ensures
        env_find(m.update(at, entry), other) == env_find(m, other),
        env_find(m, other) >= 0 ==> m.update(at, entry)[env_find(m, other)].1 == m[env_find(
            m,
            other,
        )].1,
{
    let m1 = m.update(at, entry);
    lemma_env_find(m, other);
    lemma_env_find(m1, other);
    let f = env_find(m, other);
    let f1 = env_find(m1, other);
    if f >= 0 {
        assert(f != at);
        assert(m1[f].0 == other);
        if f1 < 0 {
            assert(false);
        }
        if f1 < f {
            assert(m1[f1].0 == other);
            assert(m[f1].0 == other);
            assert(false);
        }
        if f1 > f {
            assert(m1[f].0 != other);
            assert(false);
        }
    } else {
        if f1 >= 0 {
            assert(m1[f1].0 == other);
            assert(m[f1].0 == other);
            assert(false);
        }
    }
}

proof fn lemma_env_find_push(m: EnvModel, id: u64, stack: Seq<ExprModel>)
    requires
        env_find(m, id) < 0,
    ensures
        env_find(m.push((id, stack)), id) == m.len(),
        m.push((id, stack))[m.len() as int].1 == stack,
    decreases m.len(),
{
    let m1 = m.push((id, stack));
    lemma_env_find(m, id);
    lemma_env_find(m1, id);
    let f1 = env_find(m1, id);
    if f1 < 0 {
        assert(m1[m.len() as int].0 == id);
        assert(false);
    }
    if f1 < m.len() {
        assert(m1[f1].0 == id);
        assert(m[f1].0 == id);
        assert(false);
    }
}

proof fn lemma_env_find_push_other(m: EnvModel, id: u64, stack: Seq<ExprModel>, other: u64)
    requires
        other != id,
    ensures
        env_find(m.push((id, stack)), other) == env_find(m, other),
        env_find(m, other) >= 0 ==> m.push((id, stack))[env_find(m, other)].1 == m[env_find(
            m,
            other,
        )].1,
{
    let m1 = m.push((id, stack));
    lemma_env_find(m, other);
    lemma_env_find(m1, other);
    let f = env_find(m, other);
    let f1 = env_find(m1, other);
    if f >= 0 {
        assert(m1[f].0 == other);
        if f1 < 0 {
            assert(false);
        }
        if f1 < f {
            assert(m1[f1].0 == other);
            assert(m[f1].0 == other);
            assert(false);
        }
        if f1 > f {
            assert(m1[f].0 != other);
            assert(false);
        }
    } else {
        if f1 >= 0 && f1 < m.len() {
            assert(m1[f1].0 == other);
            assert(m[f1].0 == other);
            assert(false);
        }
        if f1 == m.len() {
            assert(m1[f1].0 == id);
            assert(false);
        }
    }
}

impl Envorinment {
    /// The model of this environment.
    pub open spec fn model(&self) -> EnvModel
        decreases *self, 2int, 0int,
    {
        Self::entry_stacks(&self.bindings, self.bindings@.len() as nat)
    }

    /// The models of the first `n` entries of the binding table.
    pub open spec fn entry_stacks(bs: &Vec<(u64, Vec<SExpr>)>, n: nat) -> EnvModel
        decreases *bs, 1int, n,
        via Self::entry_stacks_decreases
    {
        if n == 0 || n > bs@.len() {
            Seq::empty()
        } else {
            Self::entry_stacks(bs, (n - 1) as nat).push(
                (bs@[n - 1].0, SExpr::exprs_models(&bs@[n - 1].1, bs@[n - 1].1@.len() as nat)),
            )
        }
    }

    #[via_fn]
    proof fn entry_stacks_decreases(bs: &Vec<(u64, Vec<SExpr>)>, n: nat) {
        if n > 0 && n <= bs@.len() {
            vstd::std_specs::vec::axiom_vec_index_decreases(*bs, n - 1);
            assert(decreases_to!(bs@[n - 1] => bs@[n - 1].1));
        }
    }

    /// Entry models indexed.
    pub proof fn lemma_entry_stacks(bs: &Vec<(u64, Vec<SExpr>)>, n: nat)
        requires
            n <= bs@.len(),
        ensures
            Self::entry_stacks(bs, n).len() == n,
            forall|i: int|
                0 <= i < n ==> #[trigger] Self::entry_stacks(bs, n)[i] == (
                bs@[i].0,
                SExpr::exprs_models(&bs@[i].1, bs@[i].1@.len() as nat),
                ),
        decreases n,
    {
        if n > 0 {
            Self::lemma_entry_stacks(bs, (n - 1) as nat);
        }
    }

    /// A fresh environment with no bindings.
    pub fn new() -> (r: Envorinment)
        ensures
            r@ == Seq::<(u64, Seq<ExprModel>)>::empty(),
    {
        let r = Envorinment { bindings: Vec::new() };
        proof {
            assert(r@ =~= Seq::<(u64, Seq<ExprModel>)>::empty());
        }
        r
    }

    /// The first position of a symbol id's entry: the exec side of
    /// `env_find`.
    fn find_entry(&self, id: u64) -> (r: Option<usize>)
        ensures
            r matches Some(pos) ==> env_find(self@, id) == pos as int,
            r is None ==> env_find(self@, id) < 0,
    {
        proof {
            Self::lemma_entry_stacks(&self.bindings, self.bindings@.len() as nat);
            lemma_env_find(self@, id);
        }
        let mut i: usize = 0;
        while i < self.bindings.len()
            invariant
                i <= self.bindings@.len(),
                self@.len() == self.bindings@.len(),
                forall|j: int|
                    0 <= j < self.bindings@.len() ==> (#[trigger] self@[j]).0
                        == self.bindings@[j].0,
                forall|j: int| 0 <= j < i ==> (#[trigger] self@[j]).0 != id,
            decreases self.bindings@.len() - i,
        {
            if self.bindings[i].0 == id {
                proof {
                    assert(self@[i as int].0 == id);
                    lemma_env_find(self@, id);
                    assert(env_find(self@, id) == i as int);
                }
                return Some(i);
            }
            i = i + 1;
        }
        proof {
            lemma_env_find(self@, id);
        }
        None
    }

    /// The binding in force for a symbol id: a copy of the top of its
    /// stack, or nothing when the id is unbound.
    pub fn lookup_top(&self, id: u64) -> (r: Option<SExpr>)
        ensures
            env_top(self@, id) matches Some(e) ==> (r matches Some(b) && b@ == e),
            env_top(self@, id) is None ==> r is None,
    {
        proof {
            Self::lemma_entry_stacks(&self.bindings, self.bindings@.len() as nat);
        }
        match self.find_entry(id) {
            None => None,
            Some(pos) => {
                proof {
                    lemma_env_find(self@, id);
                    Self::lemma_entry_stacks(&self.bindings, self.bindings@.len() as nat);
                }
                let stack = &self.bindings[pos].1;
                proof {
                    SExpr::lemma_exprs_models(stack, stack@.len() as nat);
                }
                if stack.len() == 0 {
                    None
                } else {
                    Some(stack[stack.len() - 1].duplicate())
                }
            },
        }
    }

    /// How many bindings a symbol id has stacked.
    pub fn depth_of(&self, id: u64) -> (r: usize)
        ensures
            r == env_depth(self@, id),
    {
        proof {
            Self::lemma_entry_stacks(&self.bindings, self.bindings@.len() as nat);
        }
        match self.find_entry(id) {
            None => 0,
            Some(pos) => {
                proof {
                    lemma_env_find(self@, id);
                    Self::lemma_entry_stacks(&self.bindings, self.bindings@.len() as nat);
                }
                let stack = &self.bindings[pos].1;
                proof {
                    SExpr::lemma_exprs_models(stack, stack@.len() as nat);
                }
                stack.len()
            },
        }
    }
}

impl View for Envorinment {
    type V = EnvModel;

    open spec fn view(&self) -> EnvModel {
        self.model()
    }
}

/// Push a binding for a symbol id.
pub fn bind(env: &mut Envorinment, id: u64, val: SExpr)
    ensures
        final(env)@ == env_bind(old(env)@, id, val@),
{
    proof {
        Envorinment::lemma_entry_stacks(&env.bindings, env.bindings@.len() as nat);
        lemma_env_find(env@, id);
    }
    let ghost old_model = env@;
    match env.find_entry(id) {
        Some(pos) => {
            let ghost old_stack = env.bindings@[pos as int].1;
            let mut entry = env.bindings.remove(pos);
            let ghost val_model = val@;
            proof {
                SExpr::lemma_exprs_models(&entry.1, entry.1@.len() as nat);
            }
            entry.1.push(val);
            proof {
                SExpr::lemma_exprs_models(&entry.1, entry.1@.len() as nat);
            }
            env.bindings.insert(pos, entry);
            proof {
                Envorinment::lemma_entry_stacks(&env.bindings, env.bindings@.len() as nat);
                assert(SExpr::exprs_models(&env.bindings@[pos as int].1, env.bindings@[pos as int].1@.len() as nat)
                    =~= old_model[pos as int].1.push(val_model));
                assert(env@ =~= env_bind(old_model, id, val_model));
            }
        },
        None => {
            let ghost val_model = val@;
            let mut stack: Vec<SExpr> = Vec::new();
            stack.push(val);
            proof {
                SExpr::lemma_exprs_models(&stack, stack@.len() as nat);
            }
            env.bindings.push((id, stack));
            proof {
                Envorinment::lemma_entry_stacks(&env.bindings, env.bindings@.len() as nat);
                let n = env.bindings@.len() as int;
                assert(SExpr::exprs_models(&env.bindings@[n - 1].1, env.bindings@[n - 1].1@.len() as nat)
                    =~= seq![val_model]);
                assert(env@ =~= env_bind(old_model, id, val_model));
            }
        },
    }
}

/// Pop the top binding of a symbol id; an empty or absent stack stays at
/// depth zero.
pub fn unbind(env: &mut Envorinment, id: u64)
    ensures
        final(env)@ == env_unbind(old(env)@, id),
{
    proof {
        Envorinment::lemma_entry_stacks(&env.bindings, env.bindings@.len() as nat);
        lemma_env_find(env@, id);
    }
    let ghost old_model = env@;
    match env.find_entry(id) {
        Some(pos) => {
            let mut entry = env.bindings.remove(pos);
            proof {
                SExpr::lemma_exprs_models(&entry.1, entry.1@.len() as nat);
            }
            if entry.1.len() > 0 {
                let ghost stack_model = SExpr::exprs_models(&entry.1, entry.1@.len() as nat);
                entry.1.pop();
                proof {
                    SExpr::lemma_exprs_models(&entry.1, entry.1@.len() as nat);
                    assert(SExpr::exprs_models(&entry.1, entry.1@.len() as nat)
                        =~= stack_model.drop_last());
                }
            }
            env.bindings.insert(pos, entry);
            proof {
                Envorinment::lemma_entry_stacks(&env.bindings, env.bindings@.len() as nat);
                assert(env@ =~= env_unbind(old_model, id));
            }
        },
        None => {
            let stack: Vec<SExpr> = Vec::new();
            proof {
                SExpr::lemma_exprs_models(&stack, 0);
            }
            env.bindings.push((id, stack));
            proof {
                Envorinment::lemma_entry_stacks(&env.bindings, env.bindings@.len() as nat);
                let n = env.bindings@.len() as int;
                assert(SExpr::exprs_models(&env.bindings@[n - 1].1, 0)
                    =~= Seq::<ExprModel>::empty());
                assert(env@ =~= env_unbind(old_model, id));
            }
        },
    }
}

/// Push a binding under a symbol's name, hashing it to its id.
pub fn bind_by_name(env: &mut Envorinment, name: &str, expr: SExpr)
    ensures
        final(env)@ == env_bind(old(env)@, crate::hashing::key_hash_of(name@), expr@),
{
    let id = key_hash(name);
    bind(env, id, expr);
}

/// The evaluation depth budget an interpreter grants each call: evaluation
/// is a plain recursive tree walk, and bounding it is the embedder's
/// responsibility, discharged here with a fixed generous budget.
pub const DEFAULT_EVAL_FUEL: u64 = 1000000;

/// Evaluate a sequence of expressions, collecting every result.
#[verifier::loop_isolation(false)]
pub fn eval_all(exprs: Vec<SExpr>, env: &mut Envorinment) -> (r: Result<Vec<SExpr>, EvalError>)
    ensures
        env_le(old(env)@, final(env)@),
        (crate::expr::ast::res_seq_model(r), final(env)@) == crate::expr::semantics::spec_run_all(
            crate::expr::ast::models_of(&exprs),
            0,
            Seq::empty(),
            old(env)@,
            DEFAULT_EVAL_FUEL as nat,
        ),
{
    proof {
        SExpr::lemma_exprs_models(&exprs, exprs@.len() as nat);
    }
    let ghost ms = crate::expr::ast::models_of(&exprs);
    let ghost env0 = env@;
    let mut result: Vec<SExpr> = Vec::new();
    let mut i: usize = 0;
    proof {
        assert(crate::expr::ast::models_of(&result) =~= Seq::<ExprModel>::empty());
    }
    while i < exprs.len()
        invariant
            i <= exprs@.len(),
            env_le(env0, env@),
            crate::expr::semantics::spec_run_all(
                ms,
                i as int,
                crate::expr::ast::models_of(&result),
                env@,
                DEFAULT_EVAL_FUEL as nat,
            ) == crate::expr::semantics::spec_run_all(
                ms,
                0,
                Seq::empty(),
                env0,
                DEFAULT_EVAL_FUEL as nat,
            ),
        decreases exprs@.len() - i,
    {
        let ghost pre = env@;
        let ghost acc = crate::expr::ast::models_of(&result);
        match exprs[i].duplicate().eval(env, DEFAULT_EVAL_FUEL) {
            Ok(v) => {
                let ghost vm = v@;
                proof {
                    SExpr::lemma_exprs_models(&result, result@.len() as nat);
                }
                result.push(v);
                proof {
                    SExpr::lemma_exprs_models(&result, result@.len() as nat);
                    assert(crate::expr::ast::models_of(&result) =~= acc.push(vm));
                }
            },
            Err(e) => {
                proof {
                    lemma_env_le_trans(env0, pre, env@);
                }
                return Err(e);
            },
        }
        proof {
            lemma_env_le_trans(env0, pre, env@);
        }
        i = i + 1;
    }
    Ok(result)
}

/// Evaluate a sequence of expressions, keeping the last result.
pub fn do_eval(exprs: Vec<SExpr>, env: &mut Envorinment) -> (r: Result<SExpr, EvalError>)
    ensures
        env_le(old(env)@, final(env)@),
        (crate::expr::ast::res_model(r), final(env)@) == crate::expr::semantics::spec_do(
            crate::expr::ast::models_of(&exprs),
            old(env)@,
            DEFAULT_EVAL_FUEL as nat,
        ),
{
    crate::expr::symbols::misc::do_(exprs, env, DEFAULT_EVAL_FUEL)
}

/// An interpreter: the exclusive owner of one binding environment. No
/// implicit global state is shared; several interpreters evaluate
/// independently.
pub struct Interpreter {
    pub env: Envorinment,
}

impl Interpreter {
    /// A fresh interpreter with an empty environment.
    pub fn new() -> (r: Interpreter)
        ensures
            r.env@ == Seq::<(u64, Seq<ExprModel>)>::empty(),
    {
        Interpreter { env: Envorinment::new() }
    }

    /// Evaluate a sequence of expressions against this interpreter's
    /// environment, keeping the last result, exactly as a `do` form over
    /// them with the standing depth budget. No binding depth shrinks.
    pub fn eval(&mut self, exprs: Vec<SExpr>) -> (r: Result<SExpr, EvalError>)
        ensures
            env_le(old(self).env@, final(self).env@),
            (crate::expr::ast::res_model(r), final(self).env@) == crate::expr::semantics::spec_do(
                crate::expr::ast::models_of(&exprs),
                old(self).env@,
                DEFAULT_EVAL_FUEL as nat,
            ),
    {
        do_eval(exprs, &mut self.env)
    }

    /// Evaluate a sequence of expressions under a depth budget the host
    /// chooses: bounding a runaway user program is the embedder's
    /// responsibility, discharged here per call.
    pub fn eval_with_budget(&mut self, exprs: Vec<SExpr>, budget: u64) -> (r: Result<
        SExpr,
        EvalError,
    >)
        ensures
            env_le(old(self).env@, final(self).env@),
            (crate::expr::ast::res_model(r), final(self).env@) == crate::expr::semantics::spec_do(
                crate::expr::ast::models_of(&exprs),
                old(self).env@,
                budget as nat,
            ),
    {
        crate::expr::symbols::misc::do_(exprs, &mut self.env, budget)
    }

    /// Pre-seed a global binding, as a host does with row data before
    /// evaluating a user expression against it.
    pub fn bind(&mut self, name: &str, expr: SExpr)
        ensures
            final(self).env@ == env_bind(old(self).env@, crate::hashing::key_hash_of(name@), expr@),
    {
        bind_by_name(&mut self.env, name, expr)
    }
}

} // verus!
