//! Inductive synthesis of constraint rules from observed execution traces,
//! and comparison of what was observed with the table and the canonical rules.

use vstd::prelude::*;
use crate::cells::{Cell, all_cells, cell, cell_index, lemma_cell_index, lemma_filter_take_succ, lemma_cell_at_injective};
use crate::constraint_algebra::{copy_inputs, copy_phases, ConstraintExpr, ConstraintRule, ConstraintTarget, ExprView, RuleSet, RuleView, rules_delta};
use crate::counterfactual::{is_edge, all_phases};
use crate::rule_engine::all_inputs;
use crate::constraint_algebra::canonical_constraint_rules;
use crate::algebra_stability::covered_entries;
use crate::kernel_state::{
    KernelInputKind, KernelPhase, NUM_CELLS, NUM_INPUTS, NUM_PHASES, TABLE_LEN, TransitionEntry, input_at,
    kernel_delta, lemma_absorbing_phases, lemma_index_bijection, phase_at, spec_kernel_delta, table_entry, transition_entry,
};
use crate::proof_certificate::{ExecutionTrace, TransitionCertificate};

verus! {

// ─── Observations ────────────────────────────────────────────────────────────

/// The certificates of a trace that fire at cell `c`.
pub open spec fn certs_at(certs: Seq<TransitionCertificate>, c: Cell) -> Seq<TransitionCertificate> {
    certs.filter(|x: TransitionCertificate| x.from_phase == c.0 && x.input == c.1)
}

/// The observation of a cell after seeing `hits` more firings there: the
/// target first seen is kept, the count grows.
pub open spec fn observe_entry(e: Option<(KernelPhase, u64)>, hits: Seq<TransitionCertificate>) -> Option<(KernelPhase, u64)> {
    if hits.len() == 0 {
        e
    } else {
        match e {
            Some(o) => Some((o.0, (o.1 + hits.len()) as u64)),
            None => Some((hits[0].to_phase, hits.len() as u64)),
        }
    }
}

/// A cell is observed after a trace when it was observed before or the
/// trace fires there; so observing the same trace again observes no new
/// cell, and the count of distinct observed cells stays the same.
pub proof fn lemma_repeated_observation_keeps_cells(e: Option<(KernelPhase, u64)>, hits: Seq<TransitionCertificate>)
    ensures
        (observe_entry(e, hits) is Some) <==> (e is Some || hits.len() > 0),
        (observe_entry(observe_entry(e, hits), hits) is Some) <==> (observe_entry(e, hits) is Some),
{
}

/// One observed transition cell: where it went and how often it fired.
#[derive(Debug, Clone, Copy, PartialEq, Eq)]
pub struct Observation {
    pub from: KernelPhase,
    pub input: KernelInputKind,
    pub to: KernelPhase,
    pub count: u64,
}

/// Observing the same firings a second time leaves the number of distinct
/// observed cells as it was after the first time.
pub proof fn lemma_repeated_observation_keeps_count(
    before: spec_fn(Cell) -> Option<(KernelPhase, u64)>,
    hits: spec_fn(Cell) -> Seq<TransitionCertificate>,
)
    ensures
        all_cells().filter(|c: Cell| observe_entry(observe_entry(before(c), hits(c)), hits(c)) is Some).len()
            == all_cells().filter(|c: Cell| observe_entry(before(c), hits(c)) is Some).len(),
{
    let once = |c: Cell| observe_entry(before(c), hits(c)) is Some;
    let twice = |c: Cell| observe_entry(observe_entry(before(c), hits(c)), hits(c)) is Some;
    assert forall|c: Cell| #[trigger] twice(c) == once(c) by {
        lemma_repeated_observation_keeps_cells(before(c), hits(c));
    }
    assert(twice =~= once);
}

/// The observation of a cell after seeing the same `hits` `n` times over.
pub open spec fn observed_times(e: Option<(KernelPhase, u64)>, hits: Seq<TransitionCertificate>, n: nat) -> Option<(KernelPhase, u64)>
    decreases n,
{
    if n == 0 {
        e
    } else {
        observe_entry(observed_times(e, hits, (n - 1) as nat), hits)
    }
}

/// The firings of `certs` at the cells of `cells`, counted cell by cell.
pub open spec fn hits_over(cells: Seq<Cell>, certs: Seq<TransitionCertificate>) -> int
    decreases cells.len(),
{
    if cells.len() == 0 {
        0
    } else {
        hits_over(cells.drop_last(), certs) + certs_at(certs, cells.last()).len()
    }
}

/// The sum of the counts that a table of observations holds at the cells of `cells`.
pub open spec fn count_over(cells: Seq<Cell>, t: spec_fn(Cell) -> Option<(KernelPhase, u64)>) -> int
    decreases cells.len(),
{
    if cells.len() == 0 {
        0
    } else {
        count_over(cells.drop_last(), t) + match t(cells.last()) {
            Some(o) => o.1 as int,
            None => 0,
        }
    }
}

/// How often `c` occurs in `cells`.
spec fn occurrences(cells: Seq<Cell>, c: Cell) -> int
    decreases cells.len(),
{
    if cells.len() == 0 {
        0
    } else {
        occurrences(cells.drop_last(), c) + if cells.last() == c { 1int } else { 0 }
    }
}

proof fn lemma_hits_push(cells: Seq<Cell>, certs: Seq<TransitionCertificate>, x: TransitionCertificate)
    ensures
        hits_over(cells, certs.push(x)) == hits_over(cells, certs) + occurrences(cells, (x.from_phase, x.input)),
    decreases cells.len(),
{
    if cells.len() > 0 {
        lemma_hits_push(cells.drop_last(), certs, x);
        let c = cells.last();
        certs.lemma_filter_push(x, |y: TransitionCertificate| y.from_phase == c.0 && y.input == c.1);
    }
}

proof fn lemma_hits_empty(cells: Seq<Cell>)
    ensures
        hits_over(cells, Seq::empty()) == 0,
    decreases cells.len(),
{
    if cells.len() > 0 {
        lemma_hits_empty(cells.drop_last());
        reveal(Seq::filter);
        let c = cells.last();
        assert(certs_at(Seq::empty(), c).len() == 0);
    }
}

proof fn lemma_occurs_once(c: Cell, k: int)
    requires
        0 <= k <= NUM_CELLS,
    ensures
        occurrences(all_cells().take(k), c) == if k > cell_index(c.0, c.1) { 1int } else { 0 },
    decreases k,
{
    lemma_cell_index(c.0, c.1);
    if k > 0 {
        lemma_occurs_once(c, k - 1);
        assert(all_cells().take(k).drop_last() =~= all_cells().take(k - 1));
        if k - 1 != cell_index(c.0, c.1) {
            lemma_cell_at_injective(k - 1, cell_index(c.0, c.1));
        }
    }
}

proof fn lemma_hits_total(certs: Seq<TransitionCertificate>)
    ensures
        hits_over(all_cells(), certs) == certs.len(),
    decreases certs.len(),
{
    if certs.len() == 0 {
        assert(certs =~= Seq::empty());
        lemma_hits_empty(all_cells());
    } else {
        let x = certs.last();
        lemma_hits_total(certs.drop_last());
        assert(certs.drop_last().push(x) =~= certs);
        lemma_hits_push(all_cells(), certs.drop_last(), x);
        lemma_occurs_once((x.from_phase, x.input), NUM_CELLS as int);
        lemma_cell_index(x.from_phase, x.input);
        assert(all_cells().take(NUM_CELLS as int) =~= all_cells());
    }
}

proof fn lemma_observed_times_from_nothing(hits: Seq<TransitionCertificate>, n: nat)
    requires
        n * hits.len() <= u64::MAX,
    ensures
        observed_times(None, hits, n) == if n == 0 || hits.len() == 0 {
            None
        } else {
            Some((hits[0].to_phase, (n * hits.len()) as u64))
        },
    decreases n,
{
    if n > 0 {
        assert((n - 1) * hits.len() <= n * hits.len()) by (nonlinear_arith);
        assert((n - 1) * hits.len() + hits.len() == n * hits.len()) by (nonlinear_arith);
        lemma_observed_times_from_nothing(hits, (n - 1) as nat);
    }
}

proof fn lemma_counts_scale(cells: Seq<Cell>, certs: Seq<TransitionCertificate>, n: nat)
    requires
        n * certs.len() <= u64::MAX,
    ensures
        count_over(cells, |c: Cell| observed_times(None, certs_at(certs, c), n)) == n * hits_over(cells, certs),
    decreases cells.len(),
{
    if cells.len() > 0 {
        lemma_counts_scale(cells.drop_last(), certs, n);
        let c = cells.last();
        let h = certs_at(certs, c);
        certs.lemma_filter_len(|y: TransitionCertificate| y.from_phase == c.0 && y.input == c.1);
        assert(n * h.len() <= n * certs.len()) by (nonlinear_arith)
            requires h.len() <= certs.len();
        lemma_observed_times_from_nothing(h, n);
        let a = hits_over(cells.drop_last(), certs);
        assert(n * (a + h.len()) == n * a + n * h.len()) by (nonlinear_arith);
    }
}

/// Observing the same trace `n` times, starting from no observation: a cell
/// is observed exactly when the trace fires there (for `n > 0`), with the
/// target of its first firing there and `n` times its firings there as its
/// count; so the number of observed cells is the number of cells the trace
/// fires at, and the counts add up to `n` times the trace's length.
pub proof fn lemma_repeated_observation_counts(certs: Seq<TransitionCertificate>, n: nat)
    requires
        n * certs.len() <= u64::MAX,
    ensures
        forall|c: Cell| #[trigger] observed_times(None, certs_at(certs, c), n) == if n == 0 || certs_at(certs, c).len() == 0 {
            None
        } else {
            Some((certs_at(certs, c)[0].to_phase, (n * certs_at(certs, c).len()) as u64))
        },
        count_over(all_cells(), |c: Cell| observed_times(None, certs_at(certs, c), n)) == n * certs.len(),
        n > 0 ==> all_cells().filter(|c: Cell| observed_times(None, certs_at(certs, c), n) is Some).len()
            == all_cells().filter(|c: Cell| certs_at(certs, c).len() > 0).len(),
{
    assert forall|c: Cell| #[trigger] observed_times(None, certs_at(certs, c), n) == if n == 0 || certs_at(certs, c).len() == 0 {
        None
    } else {
        Some((certs_at(certs, c)[0].to_phase, (n * certs_at(certs, c).len()) as u64))
    } by {
        let h = certs_at(certs, c);
        certs.lemma_filter_len(|y: TransitionCertificate| y.from_phase == c.0 && y.input == c.1);
        assert(n * h.len() <= n * certs.len()) by (nonlinear_arith)
            requires h.len() <= certs.len();
        lemma_observed_times_from_nothing(h, n);
    }
    lemma_counts_scale(all_cells(), certs, n);
    lemma_hits_total(certs);
    if n > 0 {
        let seen = |c: Cell| observed_times(None, certs_at(certs, c), n) is Some;
        let fired = |c: Cell| certs_at(certs, c).len() > 0;
        assert(seen =~= fired);
    }
}

/// The entry of cell `c` in a cell-indexed table.
pub open spec fn entry_of(t: Seq<Option<(KernelPhase, u64)>>, c: Cell) -> Option<(KernelPhase, u64)> {
    t[cell_index(c.0, c.1)]
}

/// A copy of a cell-indexed table.
fn copy_table(v: &Vec<Option<(KernelPhase, u64)>>) -> (r: Vec<Option<(KernelPhase, u64)>>)
    ensures
        r@ == v@,
{
    let mut out: Vec<Option<(KernelPhase, u64)>> = Vec::new();
    let mut k: usize = 0;
    while k < v.len()
        invariant
            k <= v@.len(),
            out@ == v@.take(k as int),
        decreases v@.len() - k,
    {
        proof {
            assert(v@.take(k + 1) =~= v@.take(k as int).push(v@[k as int]));
        }
        out.push(v[k]);
        k = k + 1;
    }
    assert(v@.take(v@.len() as int) =~= v@);
    out
}

/// Synthesizes constraint rules from observed execution traces.
pub struct TraceSynthesizer {
    /// By cell index: the target first observed there and how often the cell fired.
    observations: Vec<Option<(KernelPhase, u64)>>,
}

impl TraceSynthesizer {
    #[verifier::type_invariant]
    closed spec fn wf(&self) -> bool {
        self.observations@.len() == NUM_CELLS
    }

    /// The observation of cell `c`: (target first seen, times fired).
    pub closed spec fn spec_entry(&self, c: Cell) -> Option<(KernelPhase, u64)> {
        entry_of(self.observations@, c)
    }

    /// Nothing observed yet.
    pub fn new() -> (r: Self)
        ensures
            forall|c: Cell| #[trigger] r.spec_entry(c) is None,
    {
        let mut v: Vec<Option<(KernelPhase, u64)>> = Vec::new();
        let mut k: usize = 0;
        while k < NUM_CELLS
            invariant
                k <= NUM_CELLS,
                v@.len() == k,
                forall|j: int| 0 <= j < k ==> #[trigger] v@[j] is None,
            decreases NUM_CELLS - k,
        {
            v.push(None);
            k = k + 1;
        }
        proof {
            assert forall|c: Cell| #[trigger] v@[cell_index(c.0, c.1)] is None by {
                lemma_cell_index(c.0, c.1);
            }
        }
        TraceSynthesizer { observations: v }
    }

    /// Feed one execution trace: each certificate is one firing of its
    /// (from, input) cell, towards its `to` phase.
    pub fn observe(&mut self, trace: &ExecutionTrace)
        requires
            forall|c: Cell| #[trigger] old(self).spec_entry(c) is Some
                ==> old(self).spec_entry(c).unwrap().1 + trace.certificates@.len() <= u64::MAX,
        ensures
            forall|c: Cell| #[trigger] final(self).spec_entry(c)
                == observe_entry(old(self).spec_entry(c), certs_at(trace.certificates@, c)),
    {
        proof {
            use_type_invariant(&*self);
        }
        let ghost certs = trace.certificates@;
        let mut obs = copy_table(&self.observations);
        let ghost start = obs@;
        proof {
            assert forall|c: Cell| #[trigger] entry_of(start, c) is Some implies entry_of(start, c).unwrap().1 + certs.len() <= u64::MAX by {
                assert(old(self).spec_entry(c) == entry_of(start, c));
            }
        }
        let mut k: usize = 0;
        while k < trace.certificates.len()
            invariant
                k <= certs.len(),
                certs == trace.certificates@,
                obs@.len() == NUM_CELLS,
                start.len() == NUM_CELLS,
                forall|c: Cell| #[trigger] entry_of(start, c) is Some ==> entry_of(start, c).unwrap().1 + certs.len() <= u64::MAX,
                forall|c: Cell| #[trigger] entry_of(obs@, c) == observe_entry(entry_of(start, c), certs_at(certs.take(k as int), c)),
            decreases certs.len() - k,
        {
            let cert = &trace.certificates[k];
            let idx = cert.from_phase.index() * NUM_INPUTS + cert.input.index();
            proof {
                lemma_cell_index(cert.from_phase, cert.input);
                assert(idx == cell_index(cert.from_phase, cert.input));
            }
            let ghost before = obs@;
            let updated = match obs[idx] {
                Some((t, n)) => {
                    proof {
                        let c0 = (cert.from_phase, cert.input);
                        assert(entry_of(before, c0) == before[idx as int]);
                        certs.take(k as int).lemma_filter_len(|x: TransitionCertificate| x.from_phase == c0.0 && x.input == c0.1);
                        if entry_of(start, c0) is None {
                            assert(certs_at(certs.take(k as int), c0).len() > 0);
                        }
                    }
                    Some((t, n + 1))
                },
                None => Some((cert.to_phase, 1u64)),
            };
            obs.set(idx, updated);
            proof {
                assert forall|c: Cell| #[trigger] entry_of(obs@, c)
                    == observe_entry(entry_of(start, c), certs_at(certs.take(k + 1), c)) by {
                    let pred = |x: TransitionCertificate| x.from_phase == c.0 && x.input == c.1;
                    lemma_filter_take_succ(certs, k as int, pred);
                    lemma_cell_index(c.0, c.1);
                    lemma_cell_index(cert.from_phase, cert.input);
                    certs.take(k as int).lemma_filter_len(pred);
                    if c != (cert.from_phase, cert.input) {
                        assert(cell_index(c.0, c.1) != idx) by {
                            if cell_index(c.0, c.1) == idx as int {
                                assert(crate::cells::cell_at(cell_index(c.0, c.1)) == c);
                            }
                        }
                        assert(entry_of(obs@, c) == entry_of(before, c));
                    } else {
                        let h = certs_at(certs.take(k as int), c);
                        assert(certs_at(certs.take(k + 1), c) == h.push(*cert));
                        if h.len() > 0 {
                            assert(h.push(*cert)[0] == h[0]);
                        }
                    }
                }
            }
            k = k + 1;
        }
        assert(certs.take(certs.len() as int) =~= certs);
        self.observations = obs;
        proof {
            assert forall|c: Cell| #[trigger] self.spec_entry(c)
                == observe_entry(old(self).spec_entry(c), certs_at(trace.certificates@, c)) by {
                assert(old(self).spec_entry(c) == entry_of(start, c));
                assert(self.spec_entry(c) == entry_of(obs@, c));
            }
        }
    }

    /// The observation of (phase, input): the target first seen there and
    /// how often the cell fired, if it fired at all.
    pub fn observation(&self, phase: KernelPhase, input: KernelInputKind) -> (r: Option<(KernelPhase, u64)>)
        ensures
            r == self.spec_entry((phase, input)),
    {
        proof {
            use_type_invariant(self);
            lemma_cell_index(phase, input);
        }
        let c = phase.index() * NUM_INPUTS + input.index();
        self.observations[c]
    }

    /// The number of distinct cells observed.
    pub fn observation_count(&self) -> (r: usize)
        ensures
            r == all_cells().filter(|c: Cell| self.spec_entry(c) is Some).len(),
    {
        proof {
            use_type_invariant(self);
        }
        let ghost pred = |c: Cell| self.spec_entry(c) is Some;
        let mut n: usize = 0;
        let mut k: usize = 0;
        while k < NUM_CELLS
            invariant
                k <= NUM_CELLS,
                self.observations@.len() == NUM_CELLS,
                pred == (|c: Cell| self.spec_entry(c) is Some),
                n == all_cells().take(k as int).filter(pred).len(),
                n <= k,
            decreases NUM_CELLS - k,
        {
            proof {
                lemma_filter_take_succ(all_cells(), k as int, pred);
                let c = crate::cells::cell_at(k as int);
                lemma_cell_index(c.0, c.1);
                if k as int != cell_index(c.0, c.1) {
                    crate::cells::lemma_cell_at_injective(k as int, cell_index(c.0, c.1));
                }
            }
            if self.observations[k].is_some() {
                n = n + 1;
            }
            k = k + 1;
        }
        assert(all_cells().take(NUM_CELLS as int) =~= all_cells());
        n
    }
}

// ─── Results ─────────────────────────────────────────────────────────────────

/// How a synthesized rule generalizes beyond the exact observations.
#[derive(Debug, Clone, PartialEq, Eq)]
pub enum GeneralizationType {
    /// One cell, no generalization.
    Exact,
    /// Every input at one phase.
    AllInputsAtPhase,
    /// One input at several phases.
    PhaseGroup { phases: Vec<KernelPhase> },
    /// Several inputs at one phase.
    InputGroup { inputs: Vec<KernelInputKind> },
    /// A structural phase predicate.
    StructuralPattern { pattern: String },
    /// Several phases × several inputs.
    CrossProduct { phases: Vec<KernelPhase>, inputs: Vec<KernelInputKind> },
}

/// The mathematical value of a [`GeneralizationType`].
pub enum GeneralizationView {
    Exact,
    AllInputsAtPhase,
    PhaseGroup(Seq<KernelPhase>),
    InputGroup(Seq<KernelInputKind>),
    StructuralPattern(Seq<char>),
    CrossProduct(Seq<KernelPhase>, Seq<KernelInputKind>),
}

impl View for GeneralizationType {
    type V = GeneralizationView;

    open spec fn view(&self) -> GeneralizationView {
        match self {
            GeneralizationType::Exact => GeneralizationView::Exact,
            GeneralizationType::AllInputsAtPhase => GeneralizationView::AllInputsAtPhase,
            GeneralizationType::PhaseGroup { phases } => GeneralizationView::PhaseGroup(phases@),
            GeneralizationType::InputGroup { inputs } => GeneralizationView::InputGroup(inputs@),
            GeneralizationType::StructuralPattern { pattern } => GeneralizationView::StructuralPattern(pattern@),
            GeneralizationType::CrossProduct { phases, inputs } => GeneralizationView::CrossProduct(phases@, inputs@),
        }
    }
}

/// One step of the generalization audit trail.
#[derive(Debug, Clone)]
pub struct GeneralizationStep {
    pub rule_name: String,
    pub covers_cells: usize,
    pub generalization: GeneralizationType,
    pub is_table_consistent: bool,
}

/// The mathematical value of a synthesized rule and its audit step.
pub struct SynthView {
    pub rule: RuleView,
    pub covers_cells: nat,
    pub generalization: GeneralizationView,
}

/// The view of a synthesized rule with its step.
pub open spec fn synth_view(rule: &ConstraintRule, step: &GeneralizationStep) -> SynthView {
    SynthView { rule: rule@, covers_cells: step.covers_cells as nat, generalization: step.generalization@ }
}

/// A transition seen in the traces that the canonical rules do not produce.
#[derive(Debug, Clone, Copy, PartialEq, Eq, Structural)]
pub struct NovelTransition {
    pub from: KernelPhase,
    pub input: KernelInputKind,
    pub to: KernelPhase,
    pub count: u64,
    /// Is (from, input) → to an entry of the transition table?
    pub in_explicit_table: bool,
}

/// A transition-table entry never observed in any trace.
#[derive(Debug, Clone, Copy, PartialEq, Eq, Structural)]
pub struct UncoveredBehavior {
    pub from: KernelPhase,
    pub input: KernelInputKind,
    pub to: KernelPhase,
}

/// A cell where the canonical rules and the kernel disagree.
#[derive(Debug, Clone, Copy, PartialEq, Eq, Structural)]
pub struct AlgebraDisagreement {
    pub from: KernelPhase,
    pub input: KernelInputKind,
    pub algebra_says: KernelPhase,
    pub kernel_says: KernelPhase,
}

/// Does the kernel send every cell where `guard` holds to `target`?
pub open spec fn table_consistent(guard: ExprView, target: KernelPhase) -> bool {
    forall|p: KernelPhase, i: KernelInputKind| #[trigger] guard.eval(p, i) ==> spec_kernel_delta(p, i) == target
}

/// The novel transition an observed cell gives, if the canonical rules disagree with it.
pub open spec fn novel_at(e: Option<(KernelPhase, u64)>, canonical: Seq<RuleView>, c: Cell) -> bool {
    e is Some && rules_delta(canonical, c.0, c.1) != e.unwrap().0
}

/// Every observed cell the canonical rules disagree with, in cell order.
pub open spec fn novel_transitions(obs: Seq<Option<(KernelPhase, u64)>>, canonical: Seq<RuleView>) -> Seq<NovelTransition> {
    all_cells().filter(|c: Cell| novel_at(entry_of(obs, c), canonical, c)).map_values(|c: Cell| NovelTransition {
        from: c.0,
        input: c.1,
        to: entry_of(obs, c).unwrap().0,
        count: entry_of(obs, c).unwrap().1,
        in_explicit_table: is_edge(c.0, c.1, entry_of(obs, c).unwrap().0),
    })
}

/// Every table entry whose cell was never observed, in table order.
pub open spec fn uncovered_behaviors(obs: Seq<Option<(KernelPhase, u64)>>) -> Seq<UncoveredBehavior> {
    Seq::new(TABLE_LEN as nat, |k: int| table_entry(k)).filter(|e: TransitionEntry| entry_of(obs, (e.from, e.on)) is None)
        .map_values(|e: TransitionEntry| UncoveredBehavior { from: e.from, input: e.on, to: e.to })
}

/// Every cell where the rules and the kernel disagree, in cell order.
pub open spec fn algebra_disagreements(rules: Seq<RuleView>) -> Seq<AlgebraDisagreement> {
    all_cells().filter(|c: Cell| rules_delta(rules, c.0, c.1) != spec_kernel_delta(c.0, c.1)).map_values(
        |c: Cell| AlgebraDisagreement {
            from: c.0,
            input: c.1,
            algebra_says: rules_delta(rules, c.0, c.1),
            kernel_says: spec_kernel_delta(c.0, c.1),
        },
    )
}

/// Is (from, on) → to an entry of the transition table?
pub fn entry_in_table(from: KernelPhase, on: KernelInputKind, to: KernelPhase) -> (r: bool)
    ensures
        r == is_edge(from, on, to),
{
    let mut k: usize = 0;
    while k < TABLE_LEN
        invariant
            k <= TABLE_LEN,
            forall|j: int| 0 <= j < k ==> #[trigger] table_entry(j) != (TransitionEntry { from, on, to }),
        decreases TABLE_LEN - k,
    {
        let e = transition_entry(k);
        if e.from == from && e.on == on && e.to == to {
            return true;
        }
        k = k + 1;
    }
    false
}

impl TraceSynthesizer {
    /// The observations, by cell index.
    pub closed spec fn spec_obs(&self) -> Seq<Option<(KernelPhase, u64)>> {
        self.observations@
    }

    /// Does the kernel send every cell where `guard` holds to `target`?
    pub fn is_table_consistent(&self, guard: &ConstraintExpr, target: KernelPhase) -> (r: bool)
        ensures
            r == table_consistent(guard@, target),
    {
        let mut c: usize = 0;
        while c < NUM_CELLS
            invariant
                c <= NUM_CELLS,
                forall|j: int| 0 <= j < c ==> #[trigger] guard@.eval(crate::cells::cell_at(j).0, crate::cells::cell_at(j).1)
                    ==> spec_kernel_delta(crate::cells::cell_at(j).0, crate::cells::cell_at(j).1) == target,
            decreases NUM_CELLS - c,
        {
            let (phase, input) = cell(c);
            if guard.eval(phase, input) && kernel_delta(phase, input) != target {
                return false;
            }
            c = c + 1;
        }
        proof {
            assert forall|p: KernelPhase, i: KernelInputKind| #[trigger] guard@.eval(p, i) implies spec_kernel_delta(p, i) == target by {
                lemma_cell_index(p, i);
                let j = cell_index(p, i);
                assert(guard@.eval(crate::cells::cell_at(j).0, crate::cells::cell_at(j).1));
            }
        }
        true
    }

    /// Observed transitions the canonical rules disagree with, in cell order.
    pub fn find_novel_transitions(&self, canonical: &RuleSet) -> (r: Vec<NovelTransition>)
        ensures
            r@ == novel_transitions(self.spec_obs(), canonical@),
    {
        proof {
            use_type_invariant(self);
        }
        let ghost obs = self.spec_obs();
        let ghost pred = |c: Cell| novel_at(entry_of(obs, c), canonical@, c);
        let ghost f = |c: Cell| NovelTransition {
            from: c.0,
            input: c.1,
            to: entry_of(obs, c).unwrap().0,
            count: entry_of(obs, c).unwrap().1,
            in_explicit_table: is_edge(c.0, c.1, entry_of(obs, c).unwrap().0),
        };
        let mut out: Vec<NovelTransition> = Vec::new();
        let mut c: usize = 0;
        while c < NUM_CELLS
            invariant
                c <= NUM_CELLS,
                obs == self.spec_obs(),
                obs.len() == NUM_CELLS,
                pred == (|c: Cell| novel_at(entry_of(obs, c), canonical@, c)),
                f == (|c: Cell| NovelTransition {
                    from: c.0,
                    input: c.1,
                    to: entry_of(obs, c).unwrap().0,
                    count: entry_of(obs, c).unwrap().1,
                    in_explicit_table: is_edge(c.0, c.1, entry_of(obs, c).unwrap().0),
                }),
                out@ == all_cells().take(c as int).filter(pred).map_values(f),
            decreases NUM_CELLS - c,
        {
            proof {
                lemma_filter_take_succ(all_cells(), c as int, pred);
            }
            let (phase, input) = cell(c);
            proof {
                lemma_cell_index(phase, input);
                if c as int != cell_index(phase, input) {
                    crate::cells::lemma_cell_at_injective(c as int, cell_index(phase, input));
                }
            }
            match self.observations[c] {
                Some((to, count)) => {
                    if canonical.delta(phase, input) != to {
                        let t = NovelTransition { from: phase, input, to, count, in_explicit_table: entry_in_table(phase, input, to) };
                        let ghost before = out@;
                        out.push(t);
                        proof {
                            assert(out@ =~= before.push(f((phase, input))));
                        }
                    }
                },
                None => {},
            }
            proof {
                assert(all_cells().take(c + 1).filter(pred).map_values(f) =~= if pred((phase, input)) {
                    all_cells().take(c as int).filter(pred).map_values(f).push(f((phase, input)))
                } else {
                    all_cells().take(c as int).filter(pred).map_values(f)
                });
            }
            c = c + 1;
        }
        assert(all_cells().take(NUM_CELLS as int) =~= all_cells());
        out
    }

    /// Table entries never observed, in table order.
    pub fn find_uncovered_behaviors(&self) -> (r: Vec<UncoveredBehavior>)
        ensures
            r@ == uncovered_behaviors(self.spec_obs()),
    {
        proof {
            use_type_invariant(self);
        }
        let ghost obs = self.spec_obs();
        let ghost entries = Seq::new(TABLE_LEN as nat, |k: int| table_entry(k));
        let ghost pred = |e: TransitionEntry| entry_of(obs, (e.from, e.on)) is None;
        let ghost f = |e: TransitionEntry| UncoveredBehavior { from: e.from, input: e.on, to: e.to };
        let mut out: Vec<UncoveredBehavior> = Vec::new();
        let mut k: usize = 0;
        while k < TABLE_LEN
            invariant
                k <= TABLE_LEN,
                obs == self.spec_obs(),
                obs.len() == NUM_CELLS,
                entries == Seq::new(TABLE_LEN as nat, |k: int| table_entry(k)),
                pred == (|e: TransitionEntry| entry_of(obs, (e.from, e.on)) is None),
                f == (|e: TransitionEntry| UncoveredBehavior { from: e.from, input: e.on, to: e.to }),
                out@ == entries.take(k as int).filter(pred).map_values(f),
            decreases TABLE_LEN - k,
        {
            proof {
                lemma_filter_take_succ(entries, k as int, pred);
            }
            let e = transition_entry(k);
            let idx = e.from.index() * NUM_INPUTS + e.on.index();
            proof {
                lemma_cell_index(e.from, e.on);
            }
            if self.observations[idx].is_none() {
                out.push(UncoveredBehavior { from: e.from, input: e.on, to: e.to });
            }
            proof {
                assert(entries.take(k + 1).filter(pred).map_values(f) =~= if pred(e) {
                    entries.take(k as int).filter(pred).map_values(f).push(f(e))
                } else {
                    entries.take(k as int).filter(pred).map_values(f)
                });
            }
            k = k + 1;
        }
        assert(entries.take(TABLE_LEN as int) =~= entries);
        out
    }

    /// Cells where the canonical rules and the kernel disagree, in cell order.
    pub fn find_algebra_disagreements(&self, canonical: &RuleSet) -> (r: Vec<AlgebraDisagreement>)
        ensures
            r@ == algebra_disagreements(canonical@),
    {
        let ghost pred = |c: Cell| rules_delta(canonical@, c.0, c.1) != spec_kernel_delta(c.0, c.1);
        let ghost f = |c: Cell| AlgebraDisagreement {
            from: c.0,
            input: c.1,
            algebra_says: rules_delta(canonical@, c.0, c.1),
            kernel_says: spec_kernel_delta(c.0, c.1),
        };
        let mut out: Vec<AlgebraDisagreement> = Vec::new();
        let mut c: usize = 0;
        while c < NUM_CELLS
            invariant
                c <= NUM_CELLS,
                pred == (|c: Cell| rules_delta(canonical@, c.0, c.1) != spec_kernel_delta(c.0, c.1)),
                f == (|c: Cell| AlgebraDisagreement {
                    from: c.0,
                    input: c.1,
                    algebra_says: rules_delta(canonical@, c.0, c.1),
                    kernel_says: spec_kernel_delta(c.0, c.1),
                }),
                out@ == all_cells().take(c as int).filter(pred).map_values(f),
            decreases NUM_CELLS - c,
        {
            proof {
                lemma_filter_take_succ(all_cells(), c as int, pred);
            }
            let (phase, input) = cell(c);
            let kernel_says = kernel_delta(phase, input);
            let algebra_says = canonical.delta(phase, input);
            if kernel_says != algebra_says {
                out.push(AlgebraDisagreement { from: phase, input, algebra_says, kernel_says });
            }
            proof {
                assert(all_cells().take(c + 1).filter(pred).map_values(f) =~= if pred((phase, input)) {
                    all_cells().take(c as int).filter(pred).map_values(f).push(f((phase, input)))
                } else {
                    all_cells().take(c as int).filter(pred).map_values(f)
                });
            }
            c = c + 1;
        }
        assert(all_cells().take(NUM_CELLS as int) =~= all_cells());
        out
    }

    /// How many transition-table entries the rule set reproduces.
    pub fn compute_coverage(&self, rule_set: &RuleSet) -> (r: usize)
        ensures
            r == crate::algebra_stability::covered_entries(rule_set@).len(),
    {
        crate::algebra_stability::count_covered_entries(rule_set)
    }
}

// ─── Generalization ──────────────────────────────────────────────────────────

/// ¬terminal ∧ input = FaultDetected
pub open spec fn universal_fault_guard() -> ExprView {
    ExprView::And(
        Box::new(ExprView::Not(Box::new(ExprView::PhaseIsTerminal))),
        Box::new(ExprView::InputEq(KernelInputKind::FaultDetected)),
    )
}

/// A synthesized rule and its audit step, as values.
pub open spec fn synth_of(name: Seq<char>, guard: ExprView, target: ConstraintTarget, covers: nat, g: GeneralizationView) -> SynthView {
    SynthView { rule: RuleView { name, guard, target }, covers_cells: covers, generalization: g }
}

/// The most general rule, in the order the generalization ladder tries them,
/// that covers the cells `phases × inputs` going to `target` and that the
/// kernel agrees with on every cell it covers; an exact rule for a single
/// cell the kernel agrees with; nothing otherwise.
pub open spec fn spec_try_generalize(phases: Seq<KernelPhase>, inputs: Seq<KernelInputKind>, target: KernelPhase) -> Option<SynthView> {
    let t = ConstraintTarget::Phase(target);
    let cross = ExprView::And(Box::new(ExprView::PhaseIn(phases)), Box::new(ExprView::InputIn(inputs)));
    let phase_group = ExprView::And(Box::new(ExprView::PhaseIn(phases)), Box::new(ExprView::InputEq(inputs[0])));
    let input_group = ExprView::And(Box::new(ExprView::PhaseEq(phases[0])), Box::new(ExprView::InputIn(inputs)));
    let exact = ExprView::And(Box::new(ExprView::PhaseEq(phases[0])), Box::new(ExprView::InputEq(inputs[0])));
    let sealed = ExprView::PhaseEq(KernelPhase::Sealed);
    if target == KernelPhase::Faulted && inputs.contains(KernelInputKind::FaultDetected)
        && (forall|j: int| 0 <= j < phases.len() ==> !(#[trigger] phases[j]).spec_is_terminal())
        && table_consistent(universal_fault_guard(), target) {
        Some(synth_of("synth:universal-fault"@, universal_fault_guard(), t, universal_fault_guard().extension().len(),
            GeneralizationView::StructuralPattern("PhaseIsTerminal.negate()"@)))
    } else if phases.len() == 1 && phases[0] == KernelPhase::Sealed && target == KernelPhase::Sealed {
        Some(synth_of("synth:sealed-absorbing"@, sealed, ConstraintTarget::Self_, sealed.extension().len(),
            GeneralizationView::StructuralPattern("PhaseEq(Sealed)"@)))
    } else if phases.len() > 1 && inputs.len() > 1 && table_consistent(cross, target) {
        Some(synth_of("synth:cross-product"@, cross, t, cross.extension().len(), GeneralizationView::CrossProduct(phases, inputs)))
    } else if phases.len() > 1 && inputs.len() == 1 && table_consistent(phase_group, target) {
        Some(synth_of("synth:phase-group"@, phase_group, t, phase_group.extension().len(), GeneralizationView::PhaseGroup(phases)))
    } else if phases.len() == 1 && inputs.len() > 1 && table_consistent(input_group, target) {
        Some(synth_of("synth:input-group"@, input_group, t, input_group.extension().len(), GeneralizationView::InputGroup(inputs)))
    } else if phases.len() == 1 && inputs.len() == 1 && table_consistent(exact, target) {
        Some(synth_of("synth:exact"@, exact, t, 1, GeneralizationView::Exact))
    } else {
        None
    }
}

fn contains_input(v: &Vec<KernelInputKind>, x: KernelInputKind) -> (r: bool)
    ensures
        r == v@.contains(x),
{
    let mut k: usize = 0;
    while k < v.len()
        invariant
            k <= v@.len(),
            forall|j: int| 0 <= j < k ==> v@[j] != x,
        decreases v@.len() - k,
    {
        if v[k] == x {
            return true;
        }
        k = k + 1;
    }
    false
}

fn none_terminal(v: &Vec<KernelPhase>) -> (r: bool)
    ensures
        r == forall|j: int| 0 <= j < v@.len() ==> !(#[trigger] v@[j]).spec_is_terminal(),
{
    let mut k: usize = 0;
    while k < v.len()
        invariant
            k <= v@.len(),
            forall|j: int| 0 <= j < k ==> !(#[trigger] v@[j]).spec_is_terminal(),
        decreases v@.len() - k,
    {
        if v[k].is_terminal() {
            return false;
        }
        k = k + 1;
    }
    true
}

/// Synthesis is sound: a rule the generalization ladder gives never
/// contradicts the kernel's transition function on a cell it covers.
pub proof fn lemma_synthesized_rule_sound(
    phases: Seq<KernelPhase>,
    inputs: Seq<KernelInputKind>,
    target: KernelPhase,
    p: KernelPhase,
    i: KernelInputKind,
)
    requires
        spec_try_generalize(phases, inputs, target) is Some,
        spec_try_generalize(phases, inputs, target).unwrap().rule.guard.eval(p, i),
    ensures
        spec_kernel_delta(p, i) == spec_try_generalize(phases, inputs, target).unwrap().rule.target.spec_resolve(p),
{
    lemma_absorbing_phases(i);
}

impl TraceSynthesizer {
    /// The rule for the cells `phases × inputs` going to `target`: the most
    /// general rung of the generalization ladder the kernel agrees with. A
    /// rule it gives never contradicts the kernel on a cell it covers.
    pub fn try_generalize(
        &self,
        phases: &Vec<KernelPhase>,
        inputs: &Vec<KernelInputKind>,
        target: KernelPhase,
    ) -> (r: Option<(ConstraintRule, GeneralizationStep)>)
        ensures
            match r {
                Some(rs) => {
                    &&& spec_try_generalize(phases@, inputs@, target) == Some(synth_view(&rs.0, &rs.1))
                    &&& rs.1.rule_name@ == rs.0.name@
                    &&& rs.1.is_table_consistent
                    &&& forall|p: KernelPhase, i: KernelInputKind| #[trigger] rs.0@.guard.eval(p, i)
                        ==> spec_kernel_delta(p, i) == rs.0@.target.spec_resolve(p)
                },
                None => spec_try_generalize(phases@, inputs@, target) is None,
            },
    {
        let target_ct = ConstraintTarget::Phase(target);
        if target == KernelPhase::Faulted && contains_input(inputs, KernelInputKind::FaultDetected) && none_terminal(phases) {
            let guard = ConstraintExpr::PhaseIsTerminal.negate().and(ConstraintExpr::InputEq(KernelInputKind::FaultDetected));
            if self.is_table_consistent(&guard, target) {
                let cells = guard.cardinality();
                let rule = ConstraintRule::new("synth:universal-fault", guard, target_ct);
                let step = GeneralizationStep {
                    rule_name: String::from_str("synth:universal-fault"),
                    covers_cells: cells,
                    generalization: GeneralizationType::StructuralPattern { pattern: String::from_str("PhaseIsTerminal.negate()") },
                    is_table_consistent: true,
                };
                return Some((rule, step));
            }
        }
        if phases.len() == 1 && phases[0] == KernelPhase::Sealed && target == KernelPhase::Sealed {
            let guard = ConstraintExpr::PhaseEq(KernelPhase::Sealed);
            let cells = guard.cardinality();
            let rule = ConstraintRule::new("synth:sealed-absorbing", guard, ConstraintTarget::Self_);
            let step = GeneralizationStep {
                rule_name: String::from_str("synth:sealed-absorbing"),
                covers_cells: cells,
                generalization: GeneralizationType::StructuralPattern { pattern: String::from_str("PhaseEq(Sealed)") },
                is_table_consistent: true,
            };
            return Some((rule, step));
        }
        if phases.len() > 1 && inputs.len() > 1 {
            let guard = ConstraintExpr::PhaseIn(copy_phases(phases)).and(ConstraintExpr::InputIn(copy_inputs(inputs)));
            if self.is_table_consistent(&guard, target) {
                let cells = guard.cardinality();
                let rule = ConstraintRule::new("synth:cross-product", guard, target_ct);
                let step = GeneralizationStep {
                    rule_name: String::from_str("synth:cross-product"),
                    covers_cells: cells,
                    generalization: GeneralizationType::CrossProduct { phases: copy_phases(phases), inputs: copy_inputs(inputs) },
                    is_table_consistent: true,
                };
                return Some((rule, step));
            }
        }
        if phases.len() > 1 && inputs.len() == 1 {
            let guard = ConstraintExpr::PhaseIn(copy_phases(phases)).and(ConstraintExpr::InputEq(inputs[0]));
            if self.is_table_consistent(&guard, target) {
                let cells = guard.cardinality();
                let rule = ConstraintRule::new("synth:phase-group", guard, target_ct);
                let step = GeneralizationStep {
                    rule_name: String::from_str("synth:phase-group"),
                    covers_cells: cells,
                    generalization: GeneralizationType::PhaseGroup { phases: copy_phases(phases) },
                    is_table_consistent: true,
                };
                return Some((rule, step));
            }
        }
        if phases.len() == 1 && inputs.len() > 1 {
            let guard = ConstraintExpr::PhaseEq(phases[0]).and(ConstraintExpr::InputIn(copy_inputs(inputs)));
            if self.is_table_consistent(&guard, target) {
                let cells = guard.cardinality();
                let rule = ConstraintRule::new("synth:input-group", guard, target_ct);
                let step = GeneralizationStep {
                    rule_name: String::from_str("synth:input-group"),
                    covers_cells: cells,
                    generalization: GeneralizationType::InputGroup { inputs: copy_inputs(inputs) },
                    is_table_consistent: true,
                };
                return Some((rule, step));
            }
        }
        if phases.len() == 1 && inputs.len() == 1 {
            let guard = ConstraintExpr::PhaseEq(phases[0]).and(ConstraintExpr::InputEq(inputs[0]));
            if !self.is_table_consistent(&guard, target) {
                return None;
            }
            let rule = ConstraintRule::new("synth:exact", guard, target_ct);
            let step = GeneralizationStep {
                rule_name: String::from_str("synth:exact"),
                covers_cells: 1,
                generalization: GeneralizationType::Exact,
                is_table_consistent: true,
            };
            return Some((rule, step));
        }
        None
    }
}

// ─── Synthesis ───────────────────────────────────────────────────────────────

/// Was cell `c` observed going to `t`?
pub open spec fn in_group(obs: Seq<Option<(KernelPhase, u64)>>, t: KernelPhase, c: Cell) -> bool {
    entry_of(obs, c) is Some && entry_of(obs, c).unwrap().0 == t
}

/// The phases of the cells observed going to `t`, in definition order.
pub open spec fn group_phases(obs: Seq<Option<(KernelPhase, u64)>>, t: KernelPhase) -> Seq<KernelPhase> {
    all_phases().filter(|p: KernelPhase| exists|i: KernelInputKind| #[trigger] in_group(obs, t, (p, i)))
}

/// The inputs of the cells observed going to `t`, in definition order.
pub open spec fn group_inputs(obs: Seq<Option<(KernelPhase, u64)>>, t: KernelPhase) -> Seq<KernelInputKind> {
    all_inputs().filter(|i: KernelInputKind| exists|p: KernelPhase| #[trigger] in_group(obs, t, (p, i)))
}

/// The rule tried for each target with observations, in target order.
pub open spec fn tried(obs: Seq<Option<(KernelPhase, u64)>>) -> Seq<Option<SynthView>> {
    all_phases().filter(|t: KernelPhase| group_phases(obs, t).len() > 0).map_values(
        |t: KernelPhase| spec_try_generalize(group_phases(obs, t), group_inputs(obs, t), t),
    )
}

/// The synthesized rules, with their audit steps, in target order.
pub open spec fn synthesized(obs: Seq<Option<(KernelPhase, u64)>>) -> Seq<SynthView> {
    tried(obs).filter(|o: Option<SynthView>| o is Some).map_values(|o: Option<SynthView>| o.unwrap())
}

/// The result of a synthesis run.
pub struct SynthesisResult {
    /// The rule set inferred from the traces.
    pub rule_set: RuleSet,
    /// The audit trail, one step per rule.
    pub generalization_steps: Vec<GeneralizationStep>,
    /// How many transition-table entries the synthesized rules reproduce (of 45).
    pub table_covered: usize,
    /// Observed transitions the canonical rules disagree with.
    pub novel_transitions: Vec<NovelTransition>,
    /// Table entries never observed.
    pub uncovered_behaviors: Vec<UncoveredBehavior>,
    /// Cells where the canonical rules and the kernel disagree.
    pub algebra_disagreements: Vec<AlgebraDisagreement>,
}

impl SynthesisResult {
    pub fn is_consistent(&self) -> (r: bool)
        ensures
            r == (self.algebra_disagreements@.len() == 0),
    {
        self.algebra_disagreements.len() == 0
    }

    /// Is some novel transition an entry of the transition table?
    pub fn has_novel_valid_transitions(&self) -> (r: bool)
        ensures
            r == exists|k: int| 0 <= k < self.novel_transitions@.len() && (#[trigger] self.novel_transitions@[k]).in_explicit_table,
    {
        let mut k: usize = 0;
        while k < self.novel_transitions.len()
            invariant
                k <= self.novel_transitions@.len(),
                forall|j: int| 0 <= j < k ==> !(#[trigger] self.novel_transitions@[j]).in_explicit_table,
            decreases self.novel_transitions@.len() - k,
        {
            if self.novel_transitions[k].in_explicit_table {
                return true;
            }
            k = k + 1;
        }
        false
    }

    pub fn rule_count(&self) -> (r: usize)
        ensures
            r == self.rule_set@.len(),
    {
        self.rule_set.rule_count()
    }
}

impl TraceSynthesizer {
    /// Was some cell at phase `p` observed going to `t`?
    fn phase_in_group(&self, t: KernelPhase, p: KernelPhase) -> (r: bool)
        ensures
            r == exists|i: KernelInputKind| #[trigger] in_group(self.spec_obs(), t, (p, i)),
    {
        proof {
            use_type_invariant(self);
            lemma_index_bijection();
        }
        let mut k: usize = 0;
        while k < NUM_INPUTS
            invariant
                k <= NUM_INPUTS,
                self.observations@.len() == NUM_CELLS,
                forall|j: int| 0 <= j < k ==> !#[trigger] in_group(self.spec_obs(), t, (p, input_at(j))),
            decreases NUM_INPUTS - k,
        {
            let i = KernelInputKind::from_index(k);
            let idx = p.index() * NUM_INPUTS + i.index();
            proof {
                lemma_cell_index(p, i);
            }
            match self.observations[idx] {
                Some((to, _)) => {
                    if to == t {
                        proof {
                            assert(in_group(self.spec_obs(), t, (p, i)));
                        }
                        return true;
                    }
                },
                None => {},
            }
            k = k + 1;
        }
        proof {
            assert forall|i: KernelInputKind| !#[trigger] in_group(self.spec_obs(), t, (p, i)) by {
                lemma_index_bijection();
                assert(input_at(crate::kernel_state::input_index(i)) == i);
            }
        }
        false
    }

    /// Was some cell with input `i` observed going to `t`?
    fn input_in_group(&self, t: KernelPhase, i: KernelInputKind) -> (r: bool)
        ensures
            r == exists|p: KernelPhase| #[trigger] in_group(self.spec_obs(), t, (p, i)),
    {
        proof {
            use_type_invariant(self);
            lemma_index_bijection();
        }
        let mut k: usize = 0;
        while k < NUM_PHASES
            invariant
                k <= NUM_PHASES,
                self.observations@.len() == NUM_CELLS,
                forall|j: int| 0 <= j < k ==> !#[trigger] in_group(self.spec_obs(), t, (phase_at(j), i)),
            decreases NUM_PHASES - k,
        {
            let p = KernelPhase::from_index(k);
            let idx = p.index() * NUM_INPUTS + i.index();
            proof {
                lemma_cell_index(p, i);
            }
            match self.observations[idx] {
                Some((to, _)) => {
                    if to == t {
                        proof {
                            assert(in_group(self.spec_obs(), t, (p, i)));
                        }
                        return true;
                    }
                },
                None => {},
            }
            k = k + 1;
        }
        proof {
            assert forall|p: KernelPhase| !#[trigger] in_group(self.spec_obs(), t, (p, i)) by {
                lemma_index_bijection();
                assert(phase_at(crate::kernel_state::phase_index(p)) == p);
            }
        }
        false
    }

    /// The phases of the cells observed going to `t`, in definition order.
    fn phases_of_group(&self, t: KernelPhase) -> (r: Vec<KernelPhase>)
        ensures
            r@ == group_phases(self.spec_obs(), t),
    {
        let ghost pred = |p: KernelPhase| exists|i: KernelInputKind| #[trigger] in_group(self.spec_obs(), t, (p, i));
        let mut out: Vec<KernelPhase> = Vec::new();
        let mut k: usize = 0;
        while k < NUM_PHASES
            invariant
                k <= NUM_PHASES,
                pred == (|p: KernelPhase| exists|i: KernelInputKind| #[trigger] in_group(self.spec_obs(), t, (p, i))),
                out@ == all_phases().take(k as int).filter(pred),
            decreases NUM_PHASES - k,
        {
            proof {
                lemma_filter_take_succ(all_phases(), k as int, pred);
            }
            let p = KernelPhase::from_index(k);
            if self.phase_in_group(t, p) {
                out.push(p);
            }
            k = k + 1;
        }
        assert(all_phases().take(NUM_PHASES as int) =~= all_phases());
        out
    }

    /// The inputs of the cells observed going to `t`, in definition order.
    fn inputs_of_group(&self, t: KernelPhase) -> (r: Vec<KernelInputKind>)
        ensures
            r@ == group_inputs(self.spec_obs(), t),
    {
        let ghost pred = |i: KernelInputKind| exists|p: KernelPhase| #[trigger] in_group(self.spec_obs(), t, (p, i));
        let mut out: Vec<KernelInputKind> = Vec::new();
        let mut k: usize = 0;
        while k < NUM_INPUTS
            invariant
                k <= NUM_INPUTS,
                pred == (|i: KernelInputKind| exists|p: KernelPhase| #[trigger] in_group(self.spec_obs(), t, (p, i))),
                out@ == all_inputs().take(k as int).filter(pred),
            decreases NUM_INPUTS - k,
        {
            proof {
                lemma_filter_take_succ(all_inputs(), k as int, pred);
            }
            let i = KernelInputKind::from_index(k);
            if self.input_in_group(t, i) {
                out.push(i);
            }
            k = k + 1;
        }
        assert(all_inputs().take(NUM_INPUTS as int) =~= all_inputs());
        out
    }

    /// Synthesize rules from the observations: the cells observed going to
    /// each target phase, taken in phase order, are generalized as far as the
    /// kernel allows; the observations are then compared with the table and
    /// the canonical rules.
    pub fn synthesize(&self) -> (r: SynthesisResult)
        ensures
            r.rule_set.rules@.len() == r.generalization_steps@.len(),
            r.rule_set.rules@.len() == synthesized(self.spec_obs()).len(),
            forall|k: int| 0 <= k < r.rule_set.rules@.len() ==> synth_view(&#[trigger] r.rule_set.rules@[k], &r.generalization_steps@[k])
                == synthesized(self.spec_obs())[k],
            r.table_covered == covered_entries(r.rule_set@).len(),
            r.novel_transitions@ == novel_transitions(self.spec_obs(), crate::constraint_algebra::canonical_rules_view()),
            r.uncovered_behaviors@ == uncovered_behaviors(self.spec_obs()),
            r.algebra_disagreements@ == algebra_disagreements(crate::constraint_algebra::canonical_rules_view()),
    {
        let ghost obs = self.spec_obs();
        let ghost nonempty = |t: KernelPhase| group_phases(obs, t).len() > 0;
        let ghost attempt = |t: KernelPhase| spec_try_generalize(group_phases(obs, t), group_inputs(obs, t), t);
        let ghost is_some = |o: Option<SynthView>| o is Some;
        let ghost unwrap = |o: Option<SynthView>| o.unwrap();
        let mut rules: Vec<ConstraintRule> = Vec::new();
        let mut steps: Vec<GeneralizationStep> = Vec::new();
        let mut k: usize = 0;
        while k < NUM_PHASES
            invariant
                k <= NUM_PHASES,
                obs == self.spec_obs(),
                nonempty == (|t: KernelPhase| group_phases(obs, t).len() > 0),
                attempt == (|t: KernelPhase| spec_try_generalize(group_phases(obs, t), group_inputs(obs, t), t)),
                is_some == (|o: Option<SynthView>| o is Some),
                unwrap == (|o: Option<SynthView>| o.unwrap()),
                rules@.len() == steps@.len(),
                rules@.len() == all_phases().take(k as int).filter(nonempty).map_values(attempt).filter(is_some).len(),
                forall|j: int| 0 <= j < rules@.len() ==> synth_view(&#[trigger] rules@[j], &steps@[j])
                    == all_phases().take(k as int).filter(nonempty).map_values(attempt).filter(is_some).map_values(unwrap)[j],
            decreases NUM_PHASES - k,
        {
            let ghost prev = all_phases().take(k as int).filter(nonempty).map_values(attempt);
            proof {
                lemma_filter_take_succ(all_phases(), k as int, nonempty);
            }
            let t = KernelPhase::from_index(k);
            let phases = self.phases_of_group(t);
            if phases.len() > 0 {
                let inputs = self.inputs_of_group(t);
                let attempt_result = self.try_generalize(&phases, &inputs, t);
                proof {
                    let cur = all_phases().take(k + 1).filter(nonempty).map_values(attempt);
                    assert(cur =~= prev.push(attempt(t)));
                    prev.lemma_filter_push(attempt(t), is_some);
                }
                match attempt_result {
                    Some((rule, step)) => {
                        let ghost sv = synth_view(&rule, &step);
                        let ghost before_r = rules@;
                        let ghost before_s = steps@;
                        rules.push(rule);
                        steps.push(step);
                        proof {
                            let f = prev.filter(is_some).map_values(unwrap);
                            assert(prev.push(attempt(t)).filter(is_some).map_values(unwrap) =~= f.push(sv));
                            assert forall|j: int| 0 <= j < rules@.len() implies synth_view(&#[trigger] rules@[j], &steps@[j])
                                == f.push(sv)[j] by {
                                if j < before_r.len() {
                                    assert(rules@[j] == before_r[j] && steps@[j] == before_s[j]);
                                }
                            }
                        }
                    },
                    None => {},
                }
            } else {
                proof {
                    assert(all_phases().take(k + 1).filter(nonempty).map_values(attempt) =~= prev);
                }
            }
            k = k + 1;
        }
        proof {
            assert(all_phases().take(NUM_PHASES as int) =~= all_phases());
        }
        let canonical = canonical_constraint_rules();
        let novel = self.find_novel_transitions(&canonical);
        let uncovered = self.find_uncovered_behaviors();
        let disagreements = self.find_algebra_disagreements(&canonical);
        let synth_rs = RuleSet::new(rules);
        let table_covered = self.compute_coverage(&synth_rs);
        SynthesisResult {
            rule_set: synth_rs,
            generalization_steps: steps,
            table_covered,
            novel_transitions: novel,
            uncovered_behaviors: uncovered,
            algebra_disagreements: disagreements,
        }
    }
}

/// The certificates of the first `k` traces, in order.
pub open spec fn certs_upto(traces: Seq<ExecutionTrace>, k: int) -> Seq<TransitionCertificate>
    decreases k,
{
    if k <= 0 {
        Seq::empty()
    } else {
        certs_upto(traces, k - 1) + traces[k - 1].certificates@
    }
}

/// Observing `a` and then `b` is observing `a + b`.
proof fn lemma_observe_entry_concat(e: Option<(KernelPhase, u64)>, a: Seq<TransitionCertificate>, b: Seq<TransitionCertificate>, c: Cell)
    requires
        (match e {
            Some(o) => o.1 as int,
            None => 0,
        }) + a.len() + b.len() <= u64::MAX,
        certs_at(a, c).len() <= a.len(),
        certs_at(b, c).len() <= b.len(),
    ensures
        observe_entry(observe_entry(e, certs_at(a, c)), certs_at(b, c)) == observe_entry(e, certs_at(a + b, c)),
{
    let pred = |x: TransitionCertificate| x.from_phase == c.0 && x.input == c.1;
    Seq::filter_distributes_over_add(a, b, pred);
    let ha = certs_at(a, c);
    let hb = certs_at(b, c);
    assert(certs_at(a + b, c) == ha + hb);
    if ha.len() > 0 && hb.len() > 0 {
        assert((ha + hb)[0] == ha[0]);
    }
    if ha.len() == 0 {
        assert(ha + hb =~= hb);
    }
    if hb.len() == 0 {
        assert(ha + hb =~= ha);
    }
}

impl TraceSynthesizer {
    /// Feed several traces, in order.
    pub fn observe_all(&mut self, traces: &[ExecutionTrace])
        requires
            forall|c: Cell| (match #[trigger] old(self).spec_entry(c) {
                Some(o) => o.1 as int,
                None => 0,
            }) + certs_upto(traces@, traces@.len() as int).len() <= u64::MAX,
        ensures
            forall|c: Cell| #[trigger] final(self).spec_entry(c)
                == observe_entry(old(self).spec_entry(c), certs_at(certs_upto(traces@, traces@.len() as int), c)),
    {
        let ghost start = *self;
        let ghost total = certs_upto(traces@, traces@.len() as int);
        let mut k: usize = 0;
        while k < traces.len()
            invariant
                k <= traces@.len(),
                total == certs_upto(traces@, traces@.len() as int),
                certs_upto(traces@, k as int).len() <= total.len(),
                forall|c: Cell| (match #[trigger] start.spec_entry(c) {
                    Some(o) => o.1 as int,
                    None => 0,
                }) + total.len() <= u64::MAX,
                forall|c: Cell| #[trigger] self.spec_entry(c) == observe_entry(start.spec_entry(c), certs_at(certs_upto(traces@, k as int), c)),
            decreases traces@.len() - k,
        {
            let ghost before = *self;
            let ghost done = certs_upto(traces@, k as int);
            let ghost next = traces@[k as int].certificates@;
            proof {
                lemma_certs_upto_len(traces@, k as int + 1, traces@.len() as int);
                assert(certs_upto(traces@, k + 1) == done + next);
                assert forall|c: Cell| #[trigger] before.spec_entry(c) is Some
                    implies before.spec_entry(c).unwrap().1 + next.len() <= u64::MAX by {
                    let pred = |x: TransitionCertificate| x.from_phase == c.0 && x.input == c.1;
                    done.lemma_filter_len(pred);
                    let _ = start.spec_entry(c);
                    if start.spec_entry(c) is None {
                        assert(certs_at(done, c).len() > 0);
                    }
                }
            }
            self.observe(&traces[k]);
            proof {
                assert forall|c: Cell| #[trigger] self.spec_entry(c)
                    == observe_entry(start.spec_entry(c), certs_at(certs_upto(traces@, k + 1), c)) by {
                    let pred = |x: TransitionCertificate| x.from_phase == c.0 && x.input == c.1;
                    done.lemma_filter_len(pred);
                    next.lemma_filter_len(pred);
                    lemma_observe_entry_concat(start.spec_entry(c), done, next, c);
                }
            }
            k = k + 1;
        }
    }
}

/// The certificates of a prefix of the traces are no more than those of a longer prefix.
proof fn lemma_certs_upto_len(traces: Seq<ExecutionTrace>, j: int, k: int)
    requires
        0 <= j <= k,
    ensures
        certs_upto(traces, j).len() <= certs_upto(traces, k).len(),
    decreases k - j,
{
    if j < k {
        lemma_certs_upto_len(traces, j, k - 1);
    }
}

} // verus!
