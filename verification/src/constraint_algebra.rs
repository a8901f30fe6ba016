//! Symbolic constraint expressions over Q × Σ and the rule algebra built on them.
//!
//! A [`ConstraintExpr`] is a predicate over (phase, input); evaluation is by
//! exhaustive enumeration of the 522 cells. A [`RuleSet`] is an ordered list of
//! (name, guard, target) rules whose first match defines δ.

use vstd::prelude::*;
use crate::kernel_state::{
    phase_index, KernelInputKind, KernelPhase, NUM_CELLS,
};

use crate::cells::{
    all_cells, cell, cell_at, cell_index, lemma_cell_index, lemma_filter_cells_contains, lemma_filter_take_succ, Cell,
};

verus! {

// ─── ConstraintExpr ──────────────────────────────────────────────────────────

/// The mathematical value of a [`ConstraintExpr`].
pub enum ExprView {
    True,
    False,
    PhaseEq(KernelPhase),
    PhaseIn(Seq<KernelPhase>),
    PhaseIsProcessing,
    PhaseIsTerminal,
    PhaseIsReplaying,
    InputEq(KernelInputKind),
    InputIn(Seq<KernelInputKind>),
    And(Box<ExprView>, Box<ExprView>),
    Or(Box<ExprView>, Box<ExprView>),
    Not(Box<ExprView>),
}

impl ExprView {
    /// Does the predicate hold on (phase, input)?
    pub open spec fn eval(self, p: KernelPhase, i: KernelInputKind) -> bool
        decreases self,
    {
        match self {
            ExprView::True => true,
            ExprView::False => false,
            ExprView::PhaseEq(q) => p == q,
            ExprView::PhaseIn(ps) => ps.contains(p),
            ExprView::PhaseIsProcessing => p.spec_is_processing(),
            ExprView::PhaseIsTerminal => p.spec_is_terminal(),
            ExprView::PhaseIsReplaying => p.spec_is_replaying(),
            ExprView::InputEq(s) => i == s,
            ExprView::InputIn(ss) => ss.contains(i),
            ExprView::And(a, b) => a.eval(p, i) && b.eval(p, i),
            ExprView::Or(a, b) => a.eval(p, i) || b.eval(p, i),
            ExprView::Not(e) => !e.eval(p, i),
        }
    }

    /// The predicate as a function of cells.
    pub open spec fn holds(self) -> spec_fn(Cell) -> bool {
        |c: Cell| self.eval(c.0, c.1)
    }

    /// The extension: every cell where the predicate holds, in phase-major order.
    pub open spec fn extension(self) -> Seq<Cell> {
        all_cells().filter(self.holds())
    }
}

/// A symbolic predicate over (KernelPhase, KernelInputKind).
#[derive(Debug)]
pub enum ConstraintExpr {
    /// Always true.
    True,
    /// Always false.
    False,
    /// phase == p
    PhaseEq(KernelPhase),
    /// phase ∈ {p₁, p₂, ...}
    PhaseIn(Vec<KernelPhase>),
    /// phase.is_processing()
    PhaseIsProcessing,
    /// phase.is_terminal()
    PhaseIsTerminal,
    /// phase.is_replaying()
    PhaseIsReplaying,
    /// input == σ
    InputEq(KernelInputKind),
    /// input ∈ {σ₁, σ₂, ...}
    InputIn(Vec<KernelInputKind>),
    /// e₁ ∧ e₂
    And(Box<ConstraintExpr>, Box<ConstraintExpr>),
    /// e₁ ∨ e₂
    Or(Box<ConstraintExpr>, Box<ConstraintExpr>),
    /// ¬e
    Not(Box<ConstraintExpr>),
}

/// The view of an expression, structurally.
pub open spec fn expr_view(e: &ConstraintExpr) -> ExprView
    decreases e,
{
    match e {
        ConstraintExpr::True => ExprView::True,
        ConstraintExpr::False => ExprView::False,
        ConstraintExpr::PhaseEq(p) => ExprView::PhaseEq(*p),
        ConstraintExpr::PhaseIn(ps) => ExprView::PhaseIn(ps@),
        ConstraintExpr::PhaseIsProcessing => ExprView::PhaseIsProcessing,
        ConstraintExpr::PhaseIsTerminal => ExprView::PhaseIsTerminal,
        ConstraintExpr::PhaseIsReplaying => ExprView::PhaseIsReplaying,
        ConstraintExpr::InputEq(s) => ExprView::InputEq(*s),
        ConstraintExpr::InputIn(ss) => ExprView::InputIn(ss@),
        ConstraintExpr::And(a, b) => ExprView::And(Box::new(expr_view(a)), Box::new(expr_view(b))),
        ConstraintExpr::Or(a, b) => ExprView::Or(Box::new(expr_view(a)), Box::new(expr_view(b))),
        ConstraintExpr::Not(x) => ExprView::Not(Box::new(expr_view(x))),
    }
}

impl View for ConstraintExpr {
    type V = ExprView;

    open spec fn view(&self) -> ExprView {
        expr_view(self)
    }
}

/// What each predicate means on a cell (phase `p`, input `i`): `True`
/// everywhere, `False` nowhere, `PhaseEq(q)` where the phase is `q`,
/// `PhaseIn(ps)` where it is one of `ps`, `InputEq(s)` and `InputIn(ss)`
/// likewise for the input; `PhaseIsProcessing` on the nine pipeline phases
/// from `ValidatingAbi` to `Emitting`, `PhaseIsTerminal` on `Sealed` and
/// `Faulted`, `PhaseIsReplaying` on `ReplayPending`, `Replaying` and
/// `VerifyingIdentity`; `And`, `Or` and `Not` as in logic.
pub proof fn lemma_predicate_meaning(
    p: KernelPhase,
    i: KernelInputKind,
    q: KernelPhase,
    s: KernelInputKind,
    ps: Vec<KernelPhase>,
    ss: Vec<KernelInputKind>,
    a: ConstraintExpr,
    b: ConstraintExpr,
)
    ensures
        ConstraintExpr::True@.eval(p, i),
        !ConstraintExpr::False@.eval(p, i),
        ConstraintExpr::PhaseEq(q)@.eval(p, i) == (p == q),
        ConstraintExpr::PhaseIn(ps)@.eval(p, i) == (exists|k: int| 0 <= k < ps@.len() && ps@[k] == p),
        ConstraintExpr::InputEq(s)@.eval(p, i) == (i == s),
        ConstraintExpr::InputIn(ss)@.eval(p, i) == (exists|k: int| 0 <= k < ss@.len() && ss@[k] == i),
        ConstraintExpr::PhaseIsProcessing@.eval(p, i) == (p == KernelPhase::ValidatingAbi || p == KernelPhase::ValidatingSchema
            || p == KernelPhase::ValidatingClock || p == KernelPhase::ValidatingCapability || p == KernelPhase::ValidatingCausal
            || p == KernelPhase::Deciding || p == KernelPhase::Applying || p == KernelPhase::Stamping
            || p == KernelPhase::Emitting),
        ConstraintExpr::PhaseIsTerminal@.eval(p, i) == (p == KernelPhase::Sealed || p == KernelPhase::Faulted),
        ConstraintExpr::PhaseIsReplaying@.eval(p, i) == (p == KernelPhase::ReplayPending || p == KernelPhase::Replaying
            || p == KernelPhase::VerifyingIdentity),
        ConstraintExpr::And(Box::new(a), Box::new(b))@.eval(p, i) == (a@.eval(p, i) && b@.eval(p, i)),
        ConstraintExpr::Or(Box::new(a), Box::new(b))@.eval(p, i) == (a@.eval(p, i) || b@.eval(p, i)),
        ConstraintExpr::Not(Box::new(a))@.eval(p, i) == !a@.eval(p, i),
{
}

fn phases_contain(ps: &Vec<KernelPhase>, p: KernelPhase) -> (r: bool)
    ensures
        r == ps@.contains(p),
{
    let mut k: usize = 0;
    while k < ps.len()
        invariant
            k <= ps@.len(),
            forall|j: int| 0 <= j < k ==> ps@[j] != p,
        decreases ps@.len() - k,
    {
        if ps[k] == p {
            return true;
        }
        k = k + 1;
    }
    false
}

fn inputs_contain(ss: &Vec<KernelInputKind>, s: KernelInputKind) -> (r: bool)
    ensures
        r == ss@.contains(s),
{
    let mut k: usize = 0;
    while k < ss.len()
        invariant
            k <= ss@.len(),
            forall|j: int| 0 <= j < k ==> ss@[j] != s,
        decreases ss@.len() - k,
    {
        if ss[k] == s {
            return true;
        }
        k = k + 1;
    }
    false
}

pub(crate) fn copy_phases(ps: &Vec<KernelPhase>) -> (r: Vec<KernelPhase>)
    ensures
        r@ == ps@,
{
    let mut v: Vec<KernelPhase> = Vec::new();
    let mut k: usize = 0;
    while k < ps.len()
        invariant
            k <= ps@.len(),
            v@ == ps@.take(k as int),
        decreases ps@.len() - k,
    {
        v.push(ps[k]);
        k = k + 1;
        assert(v@ =~= ps@.take(k as int));
    }
    assert(v@ =~= ps@);
    v
}

pub(crate) fn copy_inputs(ss: &Vec<KernelInputKind>) -> (r: Vec<KernelInputKind>)
    ensures
        r@ == ss@,
{
    let mut v: Vec<KernelInputKind> = Vec::new();
    let mut k: usize = 0;
    while k < ss.len()
        invariant
            k <= ss@.len(),
            v@ == ss@.take(k as int),
        decreases ss@.len() - k,
    {
        v.push(ss[k]);
        k = k + 1;
        assert(v@ =~= ss@.take(k as int));
    }
    assert(v@ =~= ss@);
    v
}

/// A copy of an expression, with the same view.
pub fn copy_expr(e: &ConstraintExpr) -> (r: ConstraintExpr)
    ensures
        r@ == e@,
    decreases e,
{
    match e {
        ConstraintExpr::True => ConstraintExpr::True,
        ConstraintExpr::False => ConstraintExpr::False,
        ConstraintExpr::PhaseEq(p) => ConstraintExpr::PhaseEq(*p),
        ConstraintExpr::PhaseIn(ps) => ConstraintExpr::PhaseIn(copy_phases(ps)),
        ConstraintExpr::PhaseIsProcessing => ConstraintExpr::PhaseIsProcessing,
        ConstraintExpr::PhaseIsTerminal => ConstraintExpr::PhaseIsTerminal,
        ConstraintExpr::PhaseIsReplaying => ConstraintExpr::PhaseIsReplaying,
        ConstraintExpr::InputEq(s) => ConstraintExpr::InputEq(*s),
        ConstraintExpr::InputIn(ss) => ConstraintExpr::InputIn(copy_inputs(ss)),
        ConstraintExpr::And(a, b) => ConstraintExpr::And(
            Box::new(copy_expr(a)),
            Box::new(copy_expr(b)),
        ),
        ConstraintExpr::Or(a, b) => ConstraintExpr::Or(
            Box::new(copy_expr(a)),
            Box::new(copy_expr(b)),
        ),
        ConstraintExpr::Not(x) => ConstraintExpr::Not(Box::new(copy_expr(x))),
    }
}

impl Clone for ConstraintExpr {
    fn clone(&self) -> (r: Self)
        ensures
            r@ == self@,
    {
        copy_expr(self)
    }
}

impl ConstraintExpr {
    /// Evaluate the predicate for a specific (phase, input) pair.
    pub fn eval(&self, phase: KernelPhase, input: KernelInputKind) -> (r: bool)
        ensures
            r == self@.eval(phase, input),
        decreases self,
    {
        match self {
            ConstraintExpr::True => true,
            ConstraintExpr::False => false,
            ConstraintExpr::PhaseEq(p) => phase == *p,
            ConstraintExpr::PhaseIn(ps) => phases_contain(ps, phase),
            ConstraintExpr::PhaseIsProcessing => phase.is_processing(),
            ConstraintExpr::PhaseIsTerminal => phase.is_terminal(),
            ConstraintExpr::PhaseIsReplaying => phase.is_replaying(),
            ConstraintExpr::InputEq(s) => input == *s,
            ConstraintExpr::InputIn(ss) => inputs_contain(ss, input),
            ConstraintExpr::And(a, b) => a.eval(phase, input) && b.eval(phase, input),
            ConstraintExpr::Or(a, b) => a.eval(phase, input) || b.eval(phase, input),
            ConstraintExpr::Not(x) => !x.eval(phase, input),
        }
    }

    /// Compute the extension: all (phase, input) pairs where the predicate
    /// holds, in phase-major order.
    pub fn extension(&self) -> (r: Vec<Cell>)
        ensures
            r@ == self@.extension(),
    {
        let ghost pred = self@.holds();
        let mut result: Vec<Cell> = Vec::new();
        let mut c: usize = 0;
        while c < NUM_CELLS
            invariant
                c <= NUM_CELLS,
                pred == self@.holds(),
                result@ == all_cells().take(c as int).filter(pred),
            decreases NUM_CELLS - c,
        {
            let (phase, input) = cell(c);
            proof {
                lemma_filter_take_succ(all_cells(), c as int, pred);
            }
            if self.eval(phase, input) {
                result.push((phase, input));
            }
            c = c + 1;
        }
        assert(all_cells().take(NUM_CELLS as int) =~= all_cells());
        result
    }

    /// Cardinality of the extension (how many cells this covers).
    pub fn cardinality(&self) -> (r: usize)
        ensures
            r == self@.extension().len(),
    {
        self.extension().len()
    }

    /// Is this predicate a tautology (always true)?
    pub fn is_tautology(&self) -> (r: bool)
        ensures
            r == (forall|p: KernelPhase, i: KernelInputKind| #[trigger] self@.eval(p, i)),
    {
        let mut c: usize = 0;
        while c < NUM_CELLS
            invariant
                c <= NUM_CELLS,
                forall|d: int| 0 <= d < c ==> #[trigger] self@.holds()(cell_at(d)),
            decreases NUM_CELLS - c,
        {
            let (phase, input) = cell(c);
            if !self.eval(phase, input) {
                return false;
            }
            c = c + 1;
        }
        assert forall|p: KernelPhase, i: KernelInputKind| #[trigger] self@.eval(p, i) by {
            lemma_cell_index(p, i);
            assert(self@.holds()(cell_at(cell_index(p, i))));
        }
        true
    }

    /// Is this predicate a contradiction (always false)?
    pub fn is_contradiction(&self) -> (r: bool)
        ensures
            r == (forall|p: KernelPhase, i: KernelInputKind| !#[trigger] self@.eval(p, i)),
    {
        let mut c: usize = 0;
        while c < NUM_CELLS
            invariant
                c <= NUM_CELLS,
                forall|d: int| 0 <= d < c ==> !#[trigger] self@.holds()(cell_at(d)),
            decreases NUM_CELLS - c,
        {
            let (phase, input) = cell(c);
            if self.eval(phase, input) {
                return false;
            }
            c = c + 1;
        }
        assert forall|p: KernelPhase, i: KernelInputKind| !#[trigger] self@.eval(p, i) by {
            lemma_cell_index(p, i);
            assert(!self@.holds()(cell_at(cell_index(p, i))));
        }
        true
    }

    /// e₁ ∧ e₂
    pub fn and(self, other: ConstraintExpr) -> (r: ConstraintExpr)
        ensures
            r@ == ExprView::And(Box::new(self@), Box::new(other@)),
            forall|p: KernelPhase, i: KernelInputKind| #[trigger] r@.eval(p, i)
                == (self@.eval(p, i) && other@.eval(p, i)),
    {
        ConstraintExpr::And(Box::new(self), Box::new(other))
    }

    /// e₁ ∨ e₂
    pub fn or(self, other: ConstraintExpr) -> (r: ConstraintExpr)
        ensures
            r@ == ExprView::Or(Box::new(self@), Box::new(other@)),
            forall|p: KernelPhase, i: KernelInputKind| #[trigger] r@.eval(p, i)
                == (self@.eval(p, i) || other@.eval(p, i)),
    {
        ConstraintExpr::Or(Box::new(self), Box::new(other))
    }

    /// ¬e
    pub fn negate(self) -> (r: ConstraintExpr)
        ensures
            r@ == ExprView::Not(Box::new(self@)),
            forall|p: KernelPhase, i: KernelInputKind| #[trigger] r@.eval(p, i) == !self@.eval(p, i),
    {
        ConstraintExpr::Not(Box::new(self))
    }

    /// Does this predicate's extension include `other`'s?
    /// R₁ subsumes R₂ iff ∀x: R₂(x) → R₁(x).
    pub fn subsumes(&self, other: &ConstraintExpr) -> (r: bool)
        ensures
            r == (forall|p: KernelPhase, i: KernelInputKind| #[trigger] other@.eval(p, i)
                ==> self@.eval(p, i)),
    {
        let mut c: usize = 0;
        while c < NUM_CELLS
            invariant
                c <= NUM_CELLS,
                forall|d: int| 0 <= d < c ==> #[trigger] other@.holds()(cell_at(d))
                    ==> self@.holds()(cell_at(d)),
            decreases NUM_CELLS - c,
        {
            let (phase, input) = cell(c);
            if other.eval(phase, input) && !self.eval(phase, input) {
                return false;
            }
            c = c + 1;
        }
        assert forall|p: KernelPhase, i: KernelInputKind| #[trigger] other@.eval(p, i)
            implies self@.eval(p, i) by {
            lemma_cell_index(p, i);
            assert(other@.holds()(cell_at(cell_index(p, i))));
        }
        true
    }

    /// Does this predicate share at least one cell with `other`?
    pub fn intersects(&self, other: &ConstraintExpr) -> (r: bool)
        ensures
            r == (exists|p: KernelPhase, i: KernelInputKind| #[trigger] self@.eval(p, i)
                && other@.eval(p, i)),
    {
        let mut c: usize = 0;
        while c < NUM_CELLS
            invariant
                c <= NUM_CELLS,
                forall|d: int| 0 <= d < c ==> !(#[trigger] self@.holds()(cell_at(d))
                    && other@.holds()(cell_at(d))),
            decreases NUM_CELLS - c,
        {
            let (phase, input) = cell(c);
            if self.eval(phase, input) && other.eval(phase, input) {
                return true;
            }
            c = c + 1;
        }
        assert forall|p: KernelPhase, i: KernelInputKind| !(#[trigger] self@.eval(p, i)
            && other@.eval(p, i)) by {
            lemma_cell_index(p, i);
            assert(!(self@.holds()(cell_at(cell_index(p, i))) && other@.holds()(
                cell_at(cell_index(p, i)),
            )));
        }
        false
    }
}

// ─── Laws of the predicate algebra ──────────────────────────────────────────

/// Subsumption is reflexive and transitive (a preorder on predicates).
pub proof fn lemma_subsumption_preorder(a: ExprView, b: ExprView, c: ExprView)
    ensures
        forall|p: KernelPhase, i: KernelInputKind| #[trigger] a.eval(p, i) ==> a.eval(p, i),
        (forall|p: KernelPhase, i: KernelInputKind| #[trigger] b.eval(p, i) ==> a.eval(p, i))
            && (forall|p: KernelPhase, i: KernelInputKind| #[trigger] c.eval(p, i) ==> b.eval(p, i))
            ==> (forall|p: KernelPhase, i: KernelInputKind| #[trigger] c.eval(p, i) ==> a.eval(p, i)),
{
}

/// A predicate holds on a cell exactly when the cell is in its extension.
pub proof fn lemma_extension_membership(e: ExprView, p: KernelPhase, i: KernelInputKind)
    ensures
        e.extension().contains((p, i)) <==> e.eval(p, i),
{
    crate::cells::lemma_filter_cells_contains(e.holds(), p, i);
}

// ─── ConstraintTarget ────────────────────────────────────────────────────────

/// The target of a constraint rule — what phase to transition to.
#[derive(Debug, Clone, Copy, PartialEq, Eq, Structural)]
pub enum ConstraintTarget {
    /// A specific target phase.
    Phase(KernelPhase),
    /// Self-loop: stay in the same phase.
    Self_,
    /// `next_processing_phase()` — the next step in the ordered pipeline.
    NextInPipeline,
}

impl ConstraintTarget {
    pub open spec fn spec_resolve(self, current: KernelPhase) -> KernelPhase {
        match self {
            ConstraintTarget::Phase(p) => p,
            ConstraintTarget::Self_ => current,
            ConstraintTarget::NextInPipeline => match current.spec_next_processing_phase() {
                Some(n) => n,
                None => KernelPhase::Faulted,
            },
        }
    }

    /// The phase this target names when the rule fires at `current_phase`;
    /// `NextInPipeline` outside the pipeline resolves to `Faulted`.
    #[verifier::when_used_as_spec(spec_resolve)]
    pub fn resolve(self, current_phase: KernelPhase) -> (r: KernelPhase)
        ensures
            r == self.spec_resolve(current_phase),
    {
        match self {
            ConstraintTarget::Phase(p) => p,
            ConstraintTarget::Self_ => current_phase,
            ConstraintTarget::NextInPipeline => match current_phase.next_processing_phase() {
                Some(n) => n,
                None => KernelPhase::Faulted,
            },
        }
    }
}

// ─── ConstraintRule ──────────────────────────────────────────────────────────

/// The mathematical value of a [`ConstraintRule`].
pub struct RuleView {
    pub name: Seq<char>,
    pub guard: ExprView,
    pub target: ConstraintTarget,
}

impl RuleView {
    /// Does the rule fire on (phase, input)?
    pub open spec fn fires(self, p: KernelPhase, i: KernelInputKind) -> bool {
        self.guard.eval(p, i)
    }

    /// The (phase, input, target) triple the rule generates for a cell.
    pub open spec fn entry_of(self) -> spec_fn(Cell) -> (KernelPhase, KernelInputKind, KernelPhase) {
        |c: Cell| (c.0, c.1, self.target.spec_resolve(c.0))
    }

    /// Cells where both rules fire but resolve to different targets.
    pub open spec fn conflict_pred(self, other: RuleView) -> spec_fn(Cell) -> bool {
        |c: Cell| self.fires(c.0, c.1) && other.fires(c.0, c.1)
            && self.target.spec_resolve(c.0) != other.target.spec_resolve(c.0)
    }

    /// The conflicting cells of two rules, in phase-major order.
    pub open spec fn conflicts(self, other: RuleView) -> Seq<Cell> {
        all_cells().filter(self.conflict_pred(other))
    }
}

/// A rule expressed as (name, guard, target).
#[derive(Debug)]
pub struct ConstraintRule {
    pub name: &'static str,
    /// When this rule fires: the (phase, input) predicate.
    pub guard: ConstraintExpr,
    /// What target phase to produce.
    pub target: ConstraintTarget,
}

impl View for ConstraintRule {
    type V = RuleView;

    open spec fn view(&self) -> RuleView {
        RuleView { name: self.name@, guard: self.guard@, target: self.target }
    }
}

impl Clone for ConstraintRule {
    fn clone(&self) -> (r: Self)
        ensures
            r@ == self@,
    {
        ConstraintRule { name: self.name, guard: copy_expr(&self.guard), target: self.target }
    }
}

impl ConstraintRule {
    pub fn new(name: &'static str, guard: ConstraintExpr, target: ConstraintTarget) -> (r: Self)
        ensures
            r.name == name,
            r.guard == guard,
            r.target == target,
    {
        ConstraintRule { name, guard, target }
    }

    /// All (phase, input, target_phase) triples this rule generates, in phase-major order.
    pub fn entries(&self) -> (r: Vec<(KernelPhase, KernelInputKind, KernelPhase)>)
        ensures
            r@ == self@.guard.extension().map_values(self@.entry_of()),
    {
        let ext = self.guard.extension();
        let ghost f = self@.entry_of();
        let mut out: Vec<(KernelPhase, KernelInputKind, KernelPhase)> = Vec::new();
        let mut k: usize = 0;
        while k < ext.len()
            invariant
                k <= ext@.len(),
                f == self@.entry_of(),
                out@ == ext@.take(k as int).map_values(f),
            decreases ext@.len() - k,
        {
            let (phase, input) = ext[k];
            out.push((phase, input, self.target.resolve(phase)));
            assert(ext@.take(k + 1) =~= ext@.take(k as int).push(ext@[k as int]));
            k = k + 1;
            assert(out@ =~= ext@.take(k as int).map_values(f));
        }
        assert(ext@.take(ext@.len() as int) =~= ext@);
        out
    }

    /// The domain of this rule: cells where the guard holds.
    pub fn domain(&self) -> (r: Vec<Cell>)
        ensures
            r@ == self@.guard.extension(),
    {
        self.guard.extension()
    }

    /// Does this rule fire everywhere `other` fires?
    pub fn subsumes_guard_of(&self, other: &ConstraintRule) -> (r: bool)
        ensures
            r == (forall|p: KernelPhase, i: KernelInputKind| #[trigger] other@.guard.eval(p, i)
                ==> self@.guard.eval(p, i)),
    {
        self.guard.subsumes(&other.guard)
    }

    /// Cells where both rules fire but produce different targets, in phase-major order.
    pub fn conflicts_with(&self, other: &ConstraintRule) -> (r: Vec<Cell>)
        ensures
            r@ == self@.conflicts(other@),
    {
        let ghost pred = self@.conflict_pred(other@);
        let mut conflicts: Vec<Cell> = Vec::new();
        let mut c: usize = 0;
        while c < NUM_CELLS
            invariant
                c <= NUM_CELLS,
                pred == self@.conflict_pred(other@),
                conflicts@ == all_cells().take(c as int).filter(pred),
            decreases NUM_CELLS - c,
        {
            let (phase, input) = cell(c);
            proof {
                lemma_filter_take_succ(all_cells(), c as int, pred);
            }
            if self.guard.eval(phase, input) && other.guard.eval(phase, input) {
                let my_target = self.target.resolve(phase);
                let other_target = other.target.resolve(phase);
                if my_target != other_target {
                    conflicts.push((phase, input));
                }
            }
            c = c + 1;
        }
        assert(all_cells().take(NUM_CELLS as int) =~= all_cells());
        conflicts
    }
}

// ─── RuleSet semantics ───────────────────────────────────────────────────────

/// Index of the first rule at or after `k` that fires on (phase, input).
pub open spec fn first_match_from(rules: Seq<RuleView>, k: int, p: KernelPhase, i: KernelInputKind) -> Option<int>
    decreases rules.len() - k,
{
    if k < 0 || k >= rules.len() {
        None
    } else if rules[k].fires(p, i) {
        Some(k)
    } else {
        first_match_from(rules, k + 1, p, i)
    }
}

/// Index of the first rule that fires on (phase, input).
pub open spec fn first_match(rules: Seq<RuleView>, p: KernelPhase, i: KernelInputKind) -> Option<int> {
    first_match_from(rules, 0, p, i)
}

/// δ as a rule set defines it: the first firing rule's target, else `Faulted`.
pub open spec fn rules_delta(rules: Seq<RuleView>, p: KernelPhase, i: KernelInputKind) -> KernelPhase {
    match first_match(rules, p, i) {
        Some(k) => rules[k].target.spec_resolve(p),
        None => KernelPhase::Faulted,
    }
}

/// Does some rule fire on the cell?
pub open spec fn rules_cover(rules: Seq<RuleView>) -> spec_fn(Cell) -> bool {
    |c: Cell| first_match(rules, c.0, c.1) is Some
}

/// The synthesized table: every covered cell with its δ, in phase-major order.
pub open spec fn rules_table(rules: Seq<RuleView>) -> Seq<(Cell, KernelPhase)> {
    all_cells().filter(rules_cover(rules)).map_values(
        |c: Cell| (c, rules_delta(rules, c.0, c.1)),
    )
}

/// `first_match_from` finds the first firing index at or after `k`.
pub proof fn lemma_first_match_from(rules: Seq<RuleView>, k: int, p: KernelPhase, i: KernelInputKind)
    requires
        0 <= k <= rules.len(),
    ensures
        match first_match_from(rules, k, p, i) {
            Some(j) => k <= j < rules.len() && rules[j].fires(p, i) && forall|m: int|
                k <= m < j ==> !#[trigger] rules[m].fires(p, i),
            None => forall|m: int| k <= m < rules.len() ==> !#[trigger] rules[m].fires(p, i),
        },
    decreases rules.len() - k,
{
    if k < rules.len() && !rules[k].fires(p, i) {
        lemma_first_match_from(rules, k + 1, p, i);
    }
}

/// The synthesized table holds exactly the cells some rule fires on, each
/// with the first firing rule's target; δ sends every other cell to
/// `Faulted`.
pub proof fn lemma_synthesized_table(rules: Seq<RuleView>, p: KernelPhase, i: KernelInputKind)
    ensures
        rules_table(rules).map_values(|e: (Cell, KernelPhase)| e.0).contains((p, i))
            <==> (exists|k: int| 0 <= k < rules.len() && #[trigger] rules[k].fires(p, i)),
        forall|j: int| 0 <= j < rules_table(rules).len() ==> (#[trigger] rules_table(rules)[j]).1 == rules_delta(
            rules,
            rules_table(rules)[j].0.0,
            rules_table(rules)[j].0.1,
        ),
        !(exists|k: int| 0 <= k < rules.len() && #[trigger] rules[k].fires(p, i)) ==> rules_delta(rules, p, i)
            == KernelPhase::Faulted,
{
    lemma_first_match_from(rules, 0, p, i);
    lemma_filter_cells_contains(rules_cover(rules), p, i);
    let covered = all_cells().filter(rules_cover(rules));
    let keys = rules_table(rules).map_values(|e: (Cell, KernelPhase)| e.0);
    assert(keys =~= covered);
    match first_match_from(rules, 0, p, i) {
        Some(j) => {
            assert(rules[j].fires(p, i));
        },
        None => {},
    }
}

/// A set of constraint rules forming a specification of δ.
pub struct RuleSet {
    pub rules: Vec<ConstraintRule>,
}

impl View for RuleSet {
    type V = Seq<RuleView>;

    open spec fn view(&self) -> Seq<RuleView> {
        self.rules@.map_values(|r: ConstraintRule| r@)
    }
}

impl RuleSet {
    pub fn new(rules: Vec<ConstraintRule>) -> (r: Self)
        ensures
            r.rules == rules,
    {
        RuleSet { rules }
    }

    pub fn rule_count(&self) -> (r: usize)
        ensures
            r == self@.len(),
    {
        self.rules.len()
    }

    /// Index of the first rule that fires on (phase, input).
    pub fn first_match(&self, phase: KernelPhase, input: KernelInputKind) -> (r: Option<usize>)
        ensures
            match r {
                Some(k) => k < self@.len() && first_match(self@, phase, input) == Some(k as int),
                None => first_match(self@, phase, input) is None,
            },
    {
        let mut k: usize = 0;
        while k < self.rules.len()
            invariant
                k <= self@.len(),
                self@.len() == self.rules@.len(),
                first_match_from(self@, 0, phase, input) == first_match_from(self@, k as int, phase, input),
            decreases self@.len() - k,
        {
            assert(self@[k as int] == self.rules@[k as int]@);
            if self.rules[k].guard.eval(phase, input) {
                return Some(k);
            }
            k = k + 1;
        }
        None
    }

    /// Evaluate δ(phase, input) using this rule set: first matching rule
    /// wins; undefined → `Faulted`.
    pub fn delta(&self, phase: KernelPhase, input: KernelInputKind) -> (r: KernelPhase)
        ensures
            r == rules_delta(self@, phase, input),
    {
        match self.first_match(phase, input) {
            Some(k) => {
                assert(self@[k as int] == self.rules@[k as int]@);
                self.rules[k].target.resolve(phase)
            },
            None => KernelPhase::Faulted,
        }
    }

    /// Synthesize the transition table from this rule set: every cell some
    /// rule covers, with the first matching rule's target, in key order.
    pub fn synthesize(&self) -> (r: Vec<(Cell, KernelPhase)>)
        ensures
            r@ == rules_table(self@),
    {
        let ghost pred = rules_cover(self@);
        let ghost f = |c: Cell| (c, rules_delta(self@, c.0, c.1));
        let mut table: Vec<(Cell, KernelPhase)> = Vec::new();
        let mut c: usize = 0;
        while c < NUM_CELLS
            invariant
                c <= NUM_CELLS,
                pred == rules_cover(self@),
                f == (|c: Cell| (c, rules_delta(self@, c.0, c.1))),
                table@ == all_cells().take(c as int).filter(pred).map_values(f),
            decreases NUM_CELLS - c,
        {
            let (phase, input) = cell(c);
            proof {
                lemma_filter_take_succ(all_cells(), c as int, pred);
            }
            let m = self.first_match(phase, input);
            match m {
                Some(k) => {
                    assert(self@[k as int] == self.rules@[k as int]@);
                    let t = self.rules[k].target.resolve(phase);
                    table.push(((phase, input), t));
                },
                None => {},
            }
            c = c + 1;
            assert(table@ =~= all_cells().take(c as int).filter(pred).map_values(f));
        }
        assert(all_cells().take(NUM_CELLS as int) =~= all_cells());
        table
    }
}

// ─── Consistency and acyclicity reports ─────────────────────────────────────

/// Ordered pairs (a, b), a < b, of rules with at least one conflicting cell,
/// in lexicographic order, enumerated from (a, b) on.
pub open spec fn conflict_pairs_from(rules: Seq<RuleView>, a: int, b: int) -> Seq<(int, int)>
    decreases rules.len() - a, rules.len() - b,
{
    if a < 0 || a >= rules.len() {
        Seq::empty()
    } else if b >= rules.len() {
        conflict_pairs_from(rules, a + 1, a + 2)
    } else if b < 0 {
        Seq::empty()
    } else {
        (if rules[a].conflicts(rules[b]).len() > 0 {
            seq![(a, b)]
        } else {
            Seq::empty()
        }) + conflict_pairs_from(rules, a, b + 1)
    }
}

/// Rule `a` is redundant given rule `b`: `b` fires wherever `a` fires and
/// resolves to the same target on all of `a`'s domain.
pub open spec fn redundant_pair(rules: Seq<RuleView>, a: int, b: int) -> bool {
    &&& a != b
    &&& forall|p: KernelPhase, i: KernelInputKind| #[trigger] rules[a].guard.eval(p, i)
        ==> rules[b].guard.eval(p, i)
    &&& forall|p: KernelPhase, i: KernelInputKind| #[trigger] rules[a].guard.eval(p, i)
        ==> rules[a].target.spec_resolve(p) == rules[b].target.spec_resolve(p)
}

/// Ordered pairs (subsumed, subsuming) of redundant rules, in lexicographic
/// order, enumerated from (a, b) on.
pub open spec fn redundant_pairs_from(rules: Seq<RuleView>, a: int, b: int) -> Seq<(int, int)>
    decreases rules.len() - a, rules.len() - b,
{
    if a < 0 || a >= rules.len() {
        Seq::empty()
    } else if b >= rules.len() {
        redundant_pairs_from(rules, a + 1, 0)
    } else if b < 0 {
        Seq::empty()
    } else {
        (if redundant_pair(rules, a, b) {
            seq![(a, b)]
        } else {
            Seq::empty()
        }) + redundant_pairs_from(rules, a, b + 1)
    }
}

/// Two rules that produce different targets on some cells.
#[derive(Debug)]
pub struct ConflictReport {
    pub rule_a: &'static str,
    pub rule_b: &'static str,
    pub conflicting_cells: Vec<Cell>,
}

/// The outcome of a rule-set consistency check.
#[derive(Debug)]
pub struct ConsistencyReport {
    pub rule_count: usize,
    pub conflicts: Vec<ConflictReport>,
    /// (subsumed, subsuming) rule names.
    pub redundant_rules: Vec<(&'static str, &'static str)>,
    /// Distinct cells covered by some rule.
    pub coverage: usize,
    pub total_cells: usize,
    pub is_consistent: bool,
}

/// The report at position `k` describes the conflicting pair `pair`.
pub open spec fn conflict_report_describes(r: ConflictReport, rules: Seq<RuleView>, pair: (int, int)) -> bool {
    &&& r.rule_a@ == rules[pair.0].name
    &&& r.rule_b@ == rules[pair.1].name
    &&& r.conflicting_cells@ == rules[pair.0].conflicts(rules[pair.1])
}

/// A backward pipeline arc: a processing phase moving to an earlier processing phase.
pub open spec fn backward_arc(rules: Seq<RuleView>) -> spec_fn(Cell) -> bool {
    |c: Cell| c.0.spec_is_processing() && rules_delta(rules, c.0, c.1).spec_is_processing()
        && phase_index(rules_delta(rules, c.0, c.1)) < phase_index(c.0)
}

/// Every backward arc as the pair [from, to], in phase-major order.
pub open spec fn backward_arcs(rules: Seq<RuleView>) -> Seq<Seq<KernelPhase>> {
    all_cells().filter(backward_arc(rules)).map_values(
        |c: Cell| seq![c.0, rules_delta(rules, c.0, c.1)],
    )
}

/// The nine processing phases, in pipeline order.
pub open spec fn processing_phases() -> Seq<KernelPhase> {
    seq![
        KernelPhase::ValidatingAbi, KernelPhase::ValidatingSchema, KernelPhase::ValidatingClock,
        KernelPhase::ValidatingCapability, KernelPhase::ValidatingCausal, KernelPhase::Deciding,
        KernelPhase::Applying, KernelPhase::Stamping, KernelPhase::Emitting,
    ]
}

/// Processing phases from which no input leads backward.
pub open spec fn forward_only(rules: Seq<RuleView>) -> Seq<KernelPhase> {
    processing_phases().filter(
        |p: KernelPhase| forall|i: KernelInputKind| !#[trigger] backward_arc(rules)((p, i)),
    )
}

/// Result of the pipeline acyclicity check.
#[derive(Debug)]
pub struct AcyclicityProof {
    pub is_acyclic: bool,
    /// Backward arcs found, each as [from, to].
    pub cycles: Vec<Vec<KernelPhase>>,
    pub forward_only_phases: Vec<KernelPhase>,
}

fn processing_phase_list() -> (r: Vec<KernelPhase>)
    ensures
        r@ == processing_phases(),
{
    let v = vec![
        KernelPhase::ValidatingAbi, KernelPhase::ValidatingSchema, KernelPhase::ValidatingClock,
        KernelPhase::ValidatingCapability, KernelPhase::ValidatingCausal, KernelPhase::Deciding,
        KernelPhase::Applying, KernelPhase::Stamping, KernelPhase::Emitting,
    ];
    assert(v@ =~= processing_phases());
    v
}

impl RuleSet {
    /// Check consistency: which rule pairs produce different targets on a
    /// shared cell, which rules are subsumed by another with the same targets,
    /// and how many cells the set covers.
    pub fn verify_consistency(&self) -> (r: ConsistencyReport)
        ensures
            r.rule_count == self@.len(),
            r.conflicts@.len() == conflict_pairs_from(self@, 0, 1).len(),
            forall|k: int| 0 <= k < r.conflicts@.len() ==> conflict_report_describes(
                #[trigger] r.conflicts@[k], self@, conflict_pairs_from(self@, 0, 1)[k]),
            r.redundant_rules@.len() == redundant_pairs_from(self@, 0, 0).len(),
            forall|k: int| 0 <= k < r.redundant_rules@.len() ==> {
                let pair = redundant_pairs_from(self@, 0, 0)[k];
                &&& (#[trigger] r.redundant_rules@[k]).0@ == self@[pair.0].name
                &&& r.redundant_rules@[k].1@ == self@[pair.1].name
            },
            r.coverage == rules_table(self@).len(),
            r.total_cells == NUM_CELLS,
            r.is_consistent == (conflict_pairs_from(self@, 0, 1).len() == 0),
    {
        let n = self.rules.len();
        let ghost v = self@;
        let ghost total = conflict_pairs_from(v, 0, 1);
        let ghost mut gp: Seq<(int, int)> = Seq::empty();
        let mut conflicts: Vec<ConflictReport> = Vec::new();
        let mut a: usize = 0;
        while a < n
            invariant
                n == self.rules@.len(),
                v == self@,
                v.len() == n,
                total == conflict_pairs_from(v, 0, 1),
                a <= n,
                gp + conflict_pairs_from(v, a as int, a + 1) == total,
                conflicts@.len() == gp.len(),
                forall|k: int| 0 <= k < gp.len() ==> conflict_report_describes(
                    #[trigger] conflicts@[k], v, gp[k]),
            decreases n - a,
        {
            let mut b: usize = a + 1;
            while b < n
                invariant
                    n == self.rules@.len(),
                    v == self@,
                    v.len() == n,
                    total == conflict_pairs_from(v, 0, 1),
                    a < n,
                    a + 1 <= b <= n,
                    gp + conflict_pairs_from(v, a as int, b as int) == total,
                    conflicts@.len() == gp.len(),
                    forall|k: int| 0 <= k < gp.len() ==> conflict_report_describes(
                        #[trigger] conflicts@[k], v, gp[k]),
                decreases n - b,
            {
                assert(v[a as int] == self.rules@[a as int]@);
                assert(v[b as int] == self.rules@[b as int]@);
                let conflicting_cells = self.rules[a].conflicts_with(&self.rules[b]);
                let ghost rest = conflict_pairs_from(v, a as int, b + 1);
                if conflicting_cells.len() > 0 {
                    let ghost old_gp = gp;
                    conflicts.push(ConflictReport {
                        rule_a: self.rules[a].name,
                        rule_b: self.rules[b].name,
                        conflicting_cells,
                    });
                    proof {
                        gp = gp.push((a as int, b as int));
                        assert(conflict_pairs_from(v, a as int, b as int) == seq![(a as int, b as int)] + rest);
                        assert(old_gp + (seq![(a as int, b as int)] + rest) =~= gp + rest);
                    }
                } else {
                    proof {
                        assert(conflict_pairs_from(v, a as int, b as int) == Seq::<(int, int)>::empty() + rest);
                        assert(Seq::<(int, int)>::empty() + rest =~= rest);
                    }
                }
                b = b + 1;
            }
            assert(conflict_pairs_from(v, a as int, n as int) == conflict_pairs_from(v, a + 1, a + 2));
            a = a + 1;
        }
        assert(conflict_pairs_from(v, n as int, n + 1) == Seq::<(int, int)>::empty());
        assert(gp =~= total);

        let ghost rtotal = redundant_pairs_from(v, 0, 0);
        let ghost mut rp: Seq<(int, int)> = Seq::empty();
        let mut redundant: Vec<(&'static str, &'static str)> = Vec::new();
        let mut a: usize = 0;
        while a < n
            invariant
                n == self.rules@.len(),
                v == self@,
                v.len() == n,
                rtotal == redundant_pairs_from(v, 0, 0),
                a <= n,
                rp + redundant_pairs_from(v, a as int, 0) == rtotal,
                redundant@.len() == rp.len(),
                forall|k: int| 0 <= k < rp.len() ==> {
                    &&& (#[trigger] redundant@[k]).0@ == v[rp[k].0].name
                    &&& redundant@[k].1@ == v[rp[k].1].name
                },
            decreases n - a,
        {
            let mut b: usize = 0;
            while b < n
                invariant
                    n == self.rules@.len(),
                    v == self@,
                    v.len() == n,
                    rtotal == redundant_pairs_from(v, 0, 0),
                    a < n,
                    b <= n,
                    rp + redundant_pairs_from(v, a as int, b as int) == rtotal,
                    redundant@.len() == rp.len(),
                    forall|k: int| 0 <= k < rp.len() ==> {
                        &&& (#[trigger] redundant@[k]).0@ == v[rp[k].0].name
                        &&& redundant@[k].1@ == v[rp[k].1].name
                    },
                decreases n - b,
            {
                assert(v[a as int] == self.rules@[a as int]@);
                assert(v[b as int] == self.rules@[b as int]@);
                let ghost rest = redundant_pairs_from(v, a as int, b + 1);
                let mut is_redundant = false;
                if a != b && self.rules[b].subsumes_guard_of(&self.rules[a]) {
                    let domain = self.rules[a].domain();
                    let mut same = true;
                    let mut k: usize = 0;
                    while k < domain.len()
                        invariant
                            n == self.rules@.len(),
                            a < n,
                            b < n,
                            k <= domain@.len(),
                            domain@ == v[a as int].guard.extension(),
                            v[a as int] == self.rules@[a as int]@,
                            v[b as int] == self.rules@[b as int]@,
                            same ==> forall|j: int| 0 <= j < k ==> #[trigger] v[a as int].target.spec_resolve(domain@[j].0)
                                == v[b as int].target.spec_resolve(domain@[j].0),
                            !same ==> exists|j: int| 0 <= j < domain@.len() && #[trigger] v[a as int].target.spec_resolve(domain@[j].0)
                                != v[b as int].target.spec_resolve(domain@[j].0),
                        decreases domain@.len() - k,
                    {
                        let (phase, _input) = domain[k];
                        if self.rules[a].target.resolve(phase) != self.rules[b].target.resolve(phase) {
                            same = false;
                        }
                        k = k + 1;
                    }
                    proof {
                        if same {
                            assert forall|p: KernelPhase, i: KernelInputKind| #[trigger] v[a as int].guard.eval(p, i)
                                implies v[a as int].target.spec_resolve(p) == v[b as int].target.spec_resolve(p) by {
                                lemma_extension_membership(v[a as int].guard, p, i);
                                let j = choose|j: int| 0 <= j < domain@.len() && domain@[j] == (p, i);
                            }
                        } else {
                            let j = choose|j: int| 0 <= j < domain@.len() && #[trigger] v[a as int].target.spec_resolve(domain@[j].0)
                                != v[b as int].target.spec_resolve(domain@[j].0);
                            let c = domain@[j];
                            lemma_extension_membership(v[a as int].guard, c.0, c.1);
                            assert(v[a as int].guard.eval(c.0, c.1));
                        }
                    }
                    is_redundant = same;
                }
                assert(is_redundant == redundant_pair(v, a as int, b as int));
                if is_redundant {
                    let ghost old_rp = rp;
                    redundant.push((self.rules[a].name, self.rules[b].name));
                    proof {
                        rp = rp.push((a as int, b as int));
                        assert(redundant_pairs_from(v, a as int, b as int) == seq![(a as int, b as int)] + rest);
                        assert(old_rp + (seq![(a as int, b as int)] + rest) =~= rp + rest);
                    }
                } else {
                    proof {
                        assert(redundant_pairs_from(v, a as int, b as int) == Seq::<(int, int)>::empty() + rest);
                        assert(Seq::<(int, int)>::empty() + rest =~= rest);
                    }
                }
                b = b + 1;
            }
            assert(redundant_pairs_from(v, a as int, n as int) == redundant_pairs_from(v, a + 1, 0));
            a = a + 1;
        }
        assert(redundant_pairs_from(v, n as int, 0) == Seq::<(int, int)>::empty());
        assert(rp =~= rtotal);

        let coverage = self.synthesize().len();
        let is_consistent = conflicts.len() == 0;
        ConsistencyReport {
            rule_count: n,
            conflicts,
            redundant_rules: redundant,
            coverage,
            total_cells: NUM_CELLS,
            is_consistent,
        }
    }

    /// Prove the processing pipeline acyclic: list every arc from a
    /// processing phase to an earlier processing phase (the Emitting → Idle
    /// reset leaves the pipeline and is not one).
    pub fn prove_pipeline_acyclic(&self) -> (r: AcyclicityProof)
        ensures
            r.cycles@.map_values(|c: Vec<KernelPhase>| c@) == backward_arcs(self@),
            r.forward_only_phases@ == forward_only(self@),
            r.is_acyclic == (backward_arcs(self@).len() == 0),
    {
        let ghost pred = backward_arc(self@);
        let ghost f = |c: Cell| seq![c.0, rules_delta(self@, c.0, c.1)];
        let mut cycles: Vec<Vec<KernelPhase>> = Vec::new();
        let mut c: usize = 0;
        while c < NUM_CELLS
            invariant
                c <= NUM_CELLS,
                pred == backward_arc(self@),
                f == (|c: Cell| seq![c.0, rules_delta(self@, c.0, c.1)]),
                cycles@.len() == all_cells().take(c as int).filter(pred).len(),
                forall|j: int| 0 <= j < cycles@.len() ==> (#[trigger] cycles@[j])@ == f(
                    all_cells().take(c as int).filter(pred)[j],
                ),
            decreases NUM_CELLS - c,
        {
            let (phase, input) = cell(c);
            proof {
                lemma_filter_take_succ(all_cells(), c as int, pred);
            }
            let ghost prev = all_cells().take(c as int).filter(pred);
            if phase.is_processing() {
                let target = self.delta(phase, input);
                if target.is_processing() && target.index() < phase.index() {
                    let arc = vec![phase, target];
                    assert(arc@ =~= seq![phase, target]);
                    cycles.push(arc);
                }
            }
            c = c + 1;
            assert(all_cells().take(c as int).filter(pred) == if pred((phase, input)) {
                prev.push((phase, input))
            } else {
                prev
            });
        }
        assert(all_cells().take(NUM_CELLS as int) =~= all_cells());
        let ghost arcs = all_cells().filter(pred);
        assert(cycles@.map_values(|c: Vec<KernelPhase>| c@) =~= arcs.map_values(f));
        let processing = processing_phase_list();
        let ghost fpred = |p: KernelPhase| forall|i: KernelInputKind| !#[trigger] backward_arc(self@)((p, i));
        let mut forward: Vec<KernelPhase> = Vec::new();
        let mut k: usize = 0;
        while k < processing.len()
            invariant
                k <= processing@.len(),
                processing@ == processing_phases(),
                pred == backward_arc(self@),
                fpred == (|p: KernelPhase| forall|i: KernelInputKind| !#[trigger] backward_arc(self@)((p, i))),
                arcs == all_cells().filter(pred),
                cycles@.len() == arcs.len(),
                forall|j: int| 0 <= j < cycles@.len() ==> (#[trigger] cycles@[j])@ == seq![arcs[j].0, rules_delta(self@, arcs[j].0, arcs[j].1)],
                forward@ == processing@.take(k as int).filter(fpred),
            decreases processing@.len() - k,
        {
            let p = processing[k];
            proof {
                lemma_filter_take_succ(processing@, k as int, fpred);
            }
            let mut found = false;
            let mut j: usize = 0;
            while j < cycles.len()
                invariant
                    j <= cycles@.len(),
                    cycles@.len() == arcs.len(),
                    forall|m: int| 0 <= m < cycles@.len() ==> (#[trigger] cycles@[m])@ == seq![arcs[m].0, rules_delta(self@, arcs[m].0, arcs[m].1)],
                    found == exists|m: int| 0 <= m < j && (#[trigger] arcs[m]).0 == p,
                decreases cycles@.len() - j,
            {
                assert(cycles@[j as int]@[0] == arcs[j as int].0);
                if cycles[j][0] == p {
                    found = true;
                }
                j = j + 1;
            }
            proof {
                if found {
                    let m = choose|m: int| 0 <= m < arcs.len() && (#[trigger] arcs[m]).0 == p;
                    all_cells().lemma_filter_pred(pred, m);
                    assert(pred(arcs[m]));
                    assert(!fpred(p));
                } else {
                    assert forall|i: KernelInputKind| !#[trigger] backward_arc(self@)((p, i)) by {
                        if backward_arc(self@)((p, i)) {
                            crate::cells::lemma_filter_cells_contains(pred, p, i);
                            let m = choose|m: int| 0 <= m < arcs.len() && arcs[m] == (p, i);
                            assert(arcs[m].0 == p);
                        }
                    }
                    assert(fpred(p));
                }
            }
            if !found {
                forward.push(p);
            }
            k = k + 1;
        }
        assert(processing@.take(processing@.len() as int) =~= processing@);
        let is_acyclic = cycles.len() == 0;
        AcyclicityProof { is_acyclic, cycles, forward_only_phases: forward }
    }
}

// ─── Canonical constraint rule set ───────────────────────────────────────────

/// phase == p ∧ input == σ
pub open spec fn pair_view(p: KernelPhase, i: KernelInputKind) -> ExprView {
    ExprView::And(Box::new(ExprView::PhaseEq(p)), Box::new(ExprView::InputEq(i)))
}

/// The disjunction of exact pairs, folded left from `False`.
pub open spec fn pairs_guard(pairs: Seq<Cell>) -> ExprView
    decreases pairs.len(),
{
    if pairs.len() == 0 {
        ExprView::False
    } else {
        ExprView::Or(
            Box::new(pairs_guard(pairs.drop_last())),
            Box::new(pair_view(pairs.last().0, pairs.last().1)),
        )
    }
}

/// A disjunction of exact pairs holds exactly on those pairs.
pub proof fn lemma_pairs_guard_eval(pairs: Seq<Cell>, p: KernelPhase, i: KernelInputKind)
    ensures
        pairs_guard(pairs).eval(p, i) <==> pairs.contains((p, i)),
    decreases pairs.len(),
{
    if pairs.len() > 0 {
        lemma_pairs_guard_eval(pairs.drop_last(), p, i);
        let last = pairs.last();
        assert(ExprView::PhaseEq(last.0).eval(p, i) == (p == last.0));
        assert(ExprView::InputEq(last.1).eval(p, i) == (i == last.1));
        assert(pair_view(last.0, last.1).eval(p, i) == (p == last.0 && i == last.1));
        assert(pairs_guard(pairs).eval(p, i) == (pairs_guard(pairs.drop_last()).eval(p, i)
            || pair_view(last.0, last.1).eval(p, i)));
        if pairs.last() == (p, i) {
            assert(pairs[pairs.len() - 1] == (p, i));
        }
        if pairs.drop_last().contains((p, i)) {
            let j = choose|j: int| 0 <= j < pairs.drop_last().len() && pairs.drop_last()[j] == (p, i);
            assert(pairs[j] == (p, i));
        }
        if pairs.contains((p, i)) {
            let j = choose|j: int| 0 <= j < pairs.len() && pairs[j] == (p, i);
            if j < pairs.len() - 1 {
                assert(pairs.drop_last()[j] == (p, i));
            }
        }
    }
}

pub open spec fn rule_view(name: Seq<char>, guard: ExprView, target: ConstraintTarget) -> RuleView {
    RuleView { name, guard, target }
}

/// The exact (phase, input) steps that advance the pipeline.
pub open spec fn pipeline_advance_pairs() -> Seq<Cell> {
    seq![
            (KernelPhase::Idle, KernelInputKind::EventArrived),
            (KernelPhase::ValidatingAbi, KernelInputKind::AbiValid),
            (KernelPhase::ValidatingSchema, KernelInputKind::SchemaValid),
            (KernelPhase::ValidatingClock, KernelInputKind::ClockValid),
            (KernelPhase::ValidatingCapability, KernelInputKind::CapabilityGranted),
            (KernelPhase::ValidatingCausal, KernelInputKind::CausalValid),
            (KernelPhase::Deciding, KernelInputKind::DecisionAllow),
            (KernelPhase::Deciding, KernelInputKind::DecisionTransform),
            (KernelPhase::Applying, KernelInputKind::TransitionApplied),
            (KernelPhase::Stamping, KernelInputKind::ProjectionStamped),
            (KernelPhase::Emitting, KernelInputKind::EmitComplete),
        ]
}

/// The exact (phase, failure) pairs that reject an event.
pub open spec fn validation_rejection_pairs() -> Seq<Cell> {
    seq![
            (KernelPhase::ValidatingAbi, KernelInputKind::AbiFailed),
            (KernelPhase::ValidatingSchema, KernelInputKind::SchemaFailed),
            (KernelPhase::ValidatingClock, KernelInputKind::ClockFailed),
            (KernelPhase::ValidatingCapability, KernelInputKind::CapabilityDenied),
            (KernelPhase::ValidatingCausal, KernelInputKind::CausalFailed),
            (KernelPhase::Deciding, KernelInputKind::DecisionReject),
        ]
}

/// The canonical rule set, rule by rule.
pub open spec fn canonical_rules_view() -> Seq<RuleView> {
    seq![
        rule_view("sealed-absorbs-all"@, ExprView::PhaseEq(KernelPhase::Sealed), ConstraintTarget::Self_),
        rule_view("faulted-absorbs-non-recovery"@, ExprView::And(Box::new(ExprView::PhaseEq(KernelPhase::Faulted)), Box::new(ExprView::Not(Box::new(ExprView::InputEq(KernelInputKind::RecoveryAttempted))))), ConstraintTarget::Self_),
        rule_view("faulted-recovery-escape"@, pair_view(KernelPhase::Faulted, KernelInputKind::RecoveryAttempted), ConstraintTarget::Phase(KernelPhase::Recovering)),
        rule_view("universal-fault"@, ExprView::And(Box::new(ExprView::Not(Box::new(ExprView::PhaseIsTerminal))), Box::new(ExprView::InputEq(KernelInputKind::FaultDetected))), ConstraintTarget::Phase(KernelPhase::Faulted)),
        rule_view("pipeline-advance"@, pairs_guard(pipeline_advance_pairs()), ConstraintTarget::NextInPipeline),
        rule_view("validation-rejection"@, pairs_guard(validation_rejection_pairs()), ConstraintTarget::Phase(KernelPhase::Idle)),
        rule_view("transition-failed-to-recovering"@, pair_view(KernelPhase::Applying, KernelInputKind::TransitionFailed), ConstraintTarget::Phase(KernelPhase::Recovering)),
        rule_view("recovery-self-loop"@, pair_view(KernelPhase::Recovering, KernelInputKind::RecoveryAttempted), ConstraintTarget::Self_),
        rule_view("recovery-success"@, pair_view(KernelPhase::Recovering, KernelInputKind::RecoverySucceeded), ConstraintTarget::Phase(KernelPhase::Idle)),
        rule_view("replay-request"@, pair_view(KernelPhase::Idle, KernelInputKind::ReplayRequested), ConstraintTarget::Phase(KernelPhase::ReplayPending)),
        rule_view("replay-start"@, pair_view(KernelPhase::ReplayPending, KernelInputKind::EventArrived), ConstraintTarget::Phase(KernelPhase::Replaying)),
        rule_view("replay-event-self"@, pair_view(KernelPhase::Replaying, KernelInputKind::ReplayEventApplied), ConstraintTarget::Self_),
        rule_view("replay-complete"@, pair_view(KernelPhase::Replaying, KernelInputKind::ReplayComplete), ConstraintTarget::Phase(KernelPhase::VerifyingIdentity)),
        rule_view("identity-confirmed"@, pair_view(KernelPhase::VerifyingIdentity, KernelInputKind::IdentityConfirmed), ConstraintTarget::Phase(KernelPhase::Idle)),
        rule_view("identity-diverged"@, pair_view(KernelPhase::VerifyingIdentity, KernelInputKind::IdentityDiverged), ConstraintTarget::Phase(KernelPhase::Faulted)),
        rule_view("genesis-init"@, pair_view(KernelPhase::Genesis, KernelInputKind::Initialize), ConstraintTarget::Phase(KernelPhase::Bootstrapping)),
        rule_view("bootstrap-complete"@, pair_view(KernelPhase::Bootstrapping, KernelInputKind::BootstrapComplete), ConstraintTarget::Phase(KernelPhase::Idle)),
        rule_view("seal-from-idle"@, pair_view(KernelPhase::Idle, KernelInputKind::SealRequested), ConstraintTarget::Phase(KernelPhase::Sealed)),
        rule_view("seal-from-replay"@, pair_view(KernelPhase::Replaying, KernelInputKind::SealRequested), ConstraintTarget::Phase(KernelPhase::Sealed)),
    ]
}

/// phase == p ∧ input == σ
pub fn pair_guard(p: KernelPhase, i: KernelInputKind) -> (r: ConstraintExpr)
    ensures
        r@ == pair_view(p, i),
{
    ConstraintExpr::PhaseEq(p).and(ConstraintExpr::InputEq(i))
}

/// The disjunction of exact pairs, folded left from `False`.
pub fn pairs_guard_of(pairs: &Vec<Cell>) -> (r: ConstraintExpr)
    ensures
        r@ == pairs_guard(pairs@),
{
    let mut acc = ConstraintExpr::False;
    let mut k: usize = 0;
    while k < pairs.len()
        invariant
            k <= pairs@.len(),
            acc@ == pairs_guard(pairs@.take(k as int)),
        decreases pairs@.len() - k,
    {
        let (ph, inp) = pairs[k];
        assert(pairs@.take(k + 1).drop_last() =~= pairs@.take(k as int));
        acc = acc.or(pair_guard(ph, inp));
        k = k + 1;
    }
    assert(pairs@.take(pairs@.len() as int) =~= pairs@);
    acc
}

/// The DELPHOS kernel δ expressed as a constraint rule set.
pub fn canonical_constraint_rules() -> (r: RuleSet)
    ensures
        r@ == canonical_rules_view(),
{
    let advance: Vec<Cell> = vec![
            (KernelPhase::Idle, KernelInputKind::EventArrived),
            (KernelPhase::ValidatingAbi, KernelInputKind::AbiValid),
            (KernelPhase::ValidatingSchema, KernelInputKind::SchemaValid),
            (KernelPhase::ValidatingClock, KernelInputKind::ClockValid),
            (KernelPhase::ValidatingCapability, KernelInputKind::CapabilityGranted),
            (KernelPhase::ValidatingCausal, KernelInputKind::CausalValid),
            (KernelPhase::Deciding, KernelInputKind::DecisionAllow),
            (KernelPhase::Deciding, KernelInputKind::DecisionTransform),
            (KernelPhase::Applying, KernelInputKind::TransitionApplied),
            (KernelPhase::Stamping, KernelInputKind::ProjectionStamped),
            (KernelPhase::Emitting, KernelInputKind::EmitComplete),
        ];
    assert(advance@ =~= pipeline_advance_pairs());
    let rejection: Vec<Cell> = vec![
            (KernelPhase::ValidatingAbi, KernelInputKind::AbiFailed),
            (KernelPhase::ValidatingSchema, KernelInputKind::SchemaFailed),
            (KernelPhase::ValidatingClock, KernelInputKind::ClockFailed),
            (KernelPhase::ValidatingCapability, KernelInputKind::CapabilityDenied),
            (KernelPhase::ValidatingCausal, KernelInputKind::CausalFailed),
            (KernelPhase::Deciding, KernelInputKind::DecisionReject),
        ];
    assert(rejection@ =~= validation_rejection_pairs());
    let mut rules: Vec<ConstraintRule> = Vec::new();
    rules.push(ConstraintRule::new("sealed-absorbs-all", ConstraintExpr::PhaseEq(KernelPhase::Sealed), ConstraintTarget::Self_));
    rules.push(ConstraintRule::new("faulted-absorbs-non-recovery", ConstraintExpr::PhaseEq(KernelPhase::Faulted).and(ConstraintExpr::InputEq(KernelInputKind::RecoveryAttempted).negate()), ConstraintTarget::Self_));
    rules.push(ConstraintRule::new("faulted-recovery-escape", pair_guard(KernelPhase::Faulted, KernelInputKind::RecoveryAttempted), ConstraintTarget::Phase(KernelPhase::Recovering)));
    rules.push(ConstraintRule::new("universal-fault", ConstraintExpr::PhaseIsTerminal.negate().and(ConstraintExpr::InputEq(KernelInputKind::FaultDetected)), ConstraintTarget::Phase(KernelPhase::Faulted)));
    rules.push(ConstraintRule::new("pipeline-advance", pairs_guard_of(&advance), ConstraintTarget::NextInPipeline));
    rules.push(ConstraintRule::new("validation-rejection", pairs_guard_of(&rejection), ConstraintTarget::Phase(KernelPhase::Idle)));
    rules.push(ConstraintRule::new("transition-failed-to-recovering", pair_guard(KernelPhase::Applying, KernelInputKind::TransitionFailed), ConstraintTarget::Phase(KernelPhase::Recovering)));
    rules.push(ConstraintRule::new("recovery-self-loop", pair_guard(KernelPhase::Recovering, KernelInputKind::RecoveryAttempted), ConstraintTarget::Self_));
    rules.push(ConstraintRule::new("recovery-success", pair_guard(KernelPhase::Recovering, KernelInputKind::RecoverySucceeded), ConstraintTarget::Phase(KernelPhase::Idle)));
    rules.push(ConstraintRule::new("replay-request", pair_guard(KernelPhase::Idle, KernelInputKind::ReplayRequested), ConstraintTarget::Phase(KernelPhase::ReplayPending)));
    rules.push(ConstraintRule::new("replay-start", pair_guard(KernelPhase::ReplayPending, KernelInputKind::EventArrived), ConstraintTarget::Phase(KernelPhase::Replaying)));
    rules.push(ConstraintRule::new("replay-event-self", pair_guard(KernelPhase::Replaying, KernelInputKind::ReplayEventApplied), ConstraintTarget::Self_));
    rules.push(ConstraintRule::new("replay-complete", pair_guard(KernelPhase::Replaying, KernelInputKind::ReplayComplete), ConstraintTarget::Phase(KernelPhase::VerifyingIdentity)));
    rules.push(ConstraintRule::new("identity-confirmed", pair_guard(KernelPhase::VerifyingIdentity, KernelInputKind::IdentityConfirmed), ConstraintTarget::Phase(KernelPhase::Idle)));
    rules.push(ConstraintRule::new("identity-diverged", pair_guard(KernelPhase::VerifyingIdentity, KernelInputKind::IdentityDiverged), ConstraintTarget::Phase(KernelPhase::Faulted)));
    rules.push(ConstraintRule::new("genesis-init", pair_guard(KernelPhase::Genesis, KernelInputKind::Initialize), ConstraintTarget::Phase(KernelPhase::Bootstrapping)));
    rules.push(ConstraintRule::new("bootstrap-complete", pair_guard(KernelPhase::Bootstrapping, KernelInputKind::BootstrapComplete), ConstraintTarget::Phase(KernelPhase::Idle)));
    rules.push(ConstraintRule::new("seal-from-idle", pair_guard(KernelPhase::Idle, KernelInputKind::SealRequested), ConstraintTarget::Phase(KernelPhase::Sealed)));
    rules.push(ConstraintRule::new("seal-from-replay", pair_guard(KernelPhase::Replaying, KernelInputKind::SealRequested), ConstraintTarget::Phase(KernelPhase::Sealed)));
    let rs = RuleSet::new(rules);
    assert(rs@ =~= canonical_rules_view());
    rs
}

} // verus!
