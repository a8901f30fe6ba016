//! Semantic relevance of individual rules: whether removing a rule changes
//! a table output, and how much of the observed execution runs through it.

use vstd::prelude::*;
use crate::cells::{Cell, all_cells, cell, cell_index, lemma_cell_index, lemma_filter_take_succ};
use crate::constraint_algebra::{ConstraintRule, RuleView, first_match_from, lemma_first_match_from};
use crate::counterfactual::{cell_in_table, in_table, is_active, prior_views};
use crate::kernel_state::{KernelInputKind, KernelPhase, NUM_CELLS, NUM_INPUTS};
use crate::proof_certificate::{ExecutionTrace, TransitionCertificate};
use crate::trace_synthesizer::certs_at;

verus! {

/// How necessary a rule is to the behaviour the rule set specifies.
#[derive(Debug, Clone, Copy, PartialEq, Eq, Structural, PartialOrd, Ord, Hash)]
pub enum NecessityClass {
    /// The rule is necessary for at least one transition-table entry.
    Critical,
    /// The rule documents default behaviour or cells outside the table.
    Observational,
    /// Another explicit rule covers the same cells with the same target.
    Redundant,
}

// ─── Necessity ───────────────────────────────────────────────────────────────

/// The views of all rules.
pub open spec fn views(all: Seq<ConstraintRule>) -> Seq<RuleView> {
    all.map_values(|r: ConstraintRule| r@)
}

/// What the rules after position `idx` would produce at the cell if the rule
/// at `idx` were removed: the first later match's target, or `Faulted`.
pub open spec fn fallback(all: Seq<RuleView>, idx: int, c: Cell) -> KernelPhase {
    match first_match_from(all, idx + 1, c.0, c.1) {
        Some(j) => all[j].target.spec_resolve(c.0),
        None => KernelPhase::Faulted,
    }
}

/// The rule at an active cell is Critical there: removing it changes a table entry.
pub open spec fn critical_at(rule: RuleView, all: Seq<RuleView>, idx: int, c: Cell) -> bool {
    fallback(all, idx, c) != rule.target.spec_resolve(c.0) && in_table(c)
}

/// The rule at an active cell is Redundant there: a later explicit rule gives the same target.
pub open spec fn redundant_at(rule: RuleView, all: Seq<RuleView>, idx: int, c: Cell) -> bool {
    fallback(all, idx, c) == rule.target.spec_resolve(c.0) && first_match_from(all, idx + 1, c.0, c.1) is Some
}

/// The rule at an active cell is Observational there: neither Critical nor Redundant.
pub open spec fn observational_at(rule: RuleView, all: Seq<RuleView>, idx: int, c: Cell) -> bool {
    !critical_at(rule, all, idx, c) && !redundant_at(rule, all, idx, c)
}

/// The cells where the rule is the first match, in phase-major order.
pub open spec fn active_domain(rule: RuleView, all: Seq<RuleView>, idx: int) -> Seq<Cell> {
    all_cells().filter(|c: Cell| is_active(rule, all.take(idx), c))
}

/// The formal necessity proof of one rule.
#[derive(Debug, Clone)]
pub struct RuleNecessityProof {
    pub rule_name: String,
    pub necessity_class: NecessityClass,
    /// Active cells where removing the rule changes a table entry.
    pub critical_cells: Vec<(KernelPhase, KernelInputKind)>,
    /// Active cells where the rule documents default or non-table behaviour.
    pub observational_cells: Vec<(KernelPhase, KernelInputKind)>,
    /// Active cells a later explicit rule covers with the same target.
    pub redundant_cells: Vec<(KernelPhase, KernelInputKind)>,
    /// The number of active cells.
    pub active_domain_size: usize,
}

/// The necessity class of `rule` at position `idx` among `all`: Critical if
/// some active cell is critical, else Observational if some is
/// observational, else Redundant.
pub open spec fn class_of(rule: RuleView, all: Seq<RuleView>, idx: int) -> NecessityClass {
    let act = active_domain(rule, all, idx);
    if act.filter(|c: Cell| critical_at(rule, all, idx, c)).len() > 0 {
        NecessityClass::Critical
    } else if act.filter(|c: Cell| observational_at(rule, all, idx, c)).len() > 0 {
        NecessityClass::Observational
    } else {
        NecessityClass::Redundant
    }
}

/// `p` is the necessity proof of `rule` at position `idx` among `all`.
pub open spec fn necessity_of(p: RuleNecessityProof, rule: RuleView, all: Seq<RuleView>, idx: int) -> bool {
    let act = active_domain(rule, all, idx);
    let crit = act.filter(|c: Cell| critical_at(rule, all, idx, c));
    let obs = act.filter(|c: Cell| observational_at(rule, all, idx, c));
    let red = act.filter(|c: Cell| redundant_at(rule, all, idx, c));
    &&& p.rule_name@ == rule.name
    &&& p.critical_cells@ == crit
    &&& p.observational_cells@ == obs
    &&& p.redundant_cells@ == red
    &&& p.active_domain_size == act.len()
    &&& p.necessity_class == class_of(rule, all, idx)
}

impl RuleNecessityProof {
    pub fn is_critical(&self) -> (r: bool)
        ensures
            r == (self.necessity_class == NecessityClass::Critical),
    {
        self.necessity_class == NecessityClass::Critical
    }

    pub fn is_observational(&self) -> (r: bool)
        ensures
            r == (self.necessity_class == NecessityClass::Observational),
    {
        self.necessity_class == NecessityClass::Observational
    }

    pub fn is_redundant(&self) -> (r: bool)
        ensures
            r == (self.necessity_class == NecessityClass::Redundant),
    {
        self.necessity_class == NecessityClass::Redundant
    }
}

/// Index of the first rule after `idx` that fires at the cell.
fn later_match(all_rules: &[ConstraintRule], idx: usize, phase: KernelPhase, input: KernelInputKind) -> (r: Option<usize>)
    requires
        idx < all_rules@.len(),
    ensures
        r is None <==> first_match_from(views(all_rules@), idx + 1, phase, input) is None,
        r is Some ==> first_match_from(views(all_rules@), idx + 1, phase, input) == Some(r.unwrap() as int),
        r is Some ==> r.unwrap() < all_rules@.len(),
{
    let ghost vs = views(all_rules@);
    let n = all_rules.len();
    let mut j: usize = idx + 1;
    while j < all_rules.len()
        invariant
            idx + 1 <= j <= all_rules@.len(),
            vs == views(all_rules@),
            first_match_from(vs, idx + 1, phase, input) == first_match_from(vs, j as int, phase, input),
        decreases all_rules@.len() - j,
    {
        assert(vs[j as int] == all_rules@[j as int]@);
        if all_rules[j].guard.eval(phase, input) {
            return Some(j);
        }
        j = j + 1;
    }
    None
}

/// Rule positions never exceed the rule count.
proof fn lemma_first_match_bound(all: Seq<RuleView>, k: int, p: KernelPhase, i: KernelInputKind)
    requires
        0 <= k <= all.len(),
    ensures
        first_match_from(all, k, p, i) is Some ==> first_match_from(all, k, p, i).unwrap() < all.len(),
{
    lemma_first_match_from(all, k, p, i);
}

// ─── SemanticWeightLayer ─────────────────────────────────────────────────────

/// The sum of a sequence of counts.
pub open spec fn total_of(s: Seq<u64>) -> int
    decreases s.len(),
{
    if s.len() == 0 {
        0
    } else {
        total_of(s.drop_last()) + s.last()
    }
}

/// Raising one count by one raises the sum by one.
proof fn lemma_total_of_update(s: Seq<u64>, i: int, v: u64)
    requires
        0 <= i < s.len(),
    ensures
        total_of(s.update(i, v)) == total_of(s) - s[i] + v,
    decreases s.len(),
{
    if i < s.len() - 1 {
        lemma_total_of_update(s.drop_last(), i, v);
        assert(s.update(i, v).drop_last() =~= s.drop_last().update(i, v));
    } else {
        assert(s.update(i, v).drop_last() =~= s.drop_last());
    }
}

/// No count exceeds the sum.
proof fn lemma_total_of_bound(s: Seq<u64>, i: int)
    requires
        0 <= i < s.len(),
    ensures
        s[i] <= total_of(s),
        total_of(s) >= 0,
    decreases s.len(),
{
    lemma_total_of_nonneg(s);
    if i < s.len() - 1 {
        lemma_total_of_bound(s.drop_last(), i);
    } else {
        lemma_total_of_nonneg(s.drop_last());
    }
}

proof fn lemma_total_of_nonneg(s: Seq<u64>)
    ensures
        total_of(s) >= 0,
    decreases s.len(),
{
    if s.len() > 0 {
        lemma_total_of_nonneg(s.drop_last());
    }
}

/// Counts, per cell, how often execution traces exercised it.
pub struct SemanticWeightLayer {
    /// By cell index: how often the cell fired in observed traces.
    trace_cells: Vec<u64>,
    total_trace_observations: u64,
}

impl SemanticWeightLayer {
    #[verifier::type_invariant]
    closed spec fn wf(&self) -> bool {
        &&& self.trace_cells@.len() == NUM_CELLS
        &&& total_of(self.trace_cells@) == self.total_trace_observations
    }

    /// How often cell `c` was exercised.
    pub closed spec fn spec_count(&self, c: Cell) -> u64 {
        self.trace_cells@[cell_index(c.0, c.1)]
    }

    /// How many steps were observed in all.
    pub closed spec fn spec_total(&self) -> u64 {
        self.total_trace_observations
    }

    pub fn new() -> (r: Self)
        ensures
            r.spec_total() == 0,
            forall|c: Cell| #[trigger] r.spec_count(c) == 0,
    {
        let mut v: Vec<u64> = Vec::new();
        let mut k: usize = 0;
        while k < NUM_CELLS
            invariant
                k <= NUM_CELLS,
                v@.len() == k,
                forall|j: int| 0 <= j < k ==> #[trigger] v@[j] == 0,
                total_of(v@) == 0,
            decreases NUM_CELLS - k,
        {
            proof {
                assert(v@.push(0u64).drop_last() =~= v@);
            }
            v.push(0);
            k = k + 1;
        }
        proof {
            assert forall|c: Cell| #[trigger] v@[cell_index(c.0, c.1)] == 0 by {
                lemma_cell_index(c.0, c.1);
            }
        }
        SemanticWeightLayer { trace_cells: v, total_trace_observations: 0 }
    }

    /// Count each step of the trace at its (from, input) cell.
    pub fn observe(&mut self, trace: &ExecutionTrace)
        requires
            old(self).spec_total() + trace.certificates@.len() <= u64::MAX,
        ensures
            final(self).spec_total() == old(self).spec_total() + trace.certificates@.len(),
            forall|c: Cell| #[trigger] final(self).spec_count(c) == old(self).spec_count(c) + certs_at(trace.certificates@, c).len(),
    {
        proof {
            use_type_invariant(&*self);
        }
        let ghost certs = trace.certificates@;
        let mut counts: Vec<u64> = Vec::new();
        let mut k: usize = 0;
        while k < self.trace_cells.len()
            invariant
                k <= self.trace_cells@.len(),
                counts@ == self.trace_cells@.take(k as int),
            decreases self.trace_cells@.len() - k,
        {
            proof {
                assert(self.trace_cells@.take(k + 1) =~= self.trace_cells@.take(k as int).push(self.trace_cells@[k as int]));
            }
            counts.push(self.trace_cells[k]);
            k = k + 1;
        }
        assert(self.trace_cells@.take(self.trace_cells@.len() as int) =~= self.trace_cells@);
        let ghost start = counts@;
        let mut total = self.total_trace_observations;
        let mut j: usize = 0;
        while j < trace.certificates.len()
            invariant
                j <= certs.len(),
                certs == trace.certificates@,
                counts@.len() == NUM_CELLS,
                start.len() == NUM_CELLS,
                total_of(counts@) == total,
                total == old(self).spec_total() + j,
                old(self).spec_total() + certs.len() <= u64::MAX,
                forall|c: Cell| #[trigger] counts@[cell_index(c.0, c.1)] == start[cell_index(c.0, c.1)] + certs_at(certs.take(j as int), c).len(),
            decreases certs.len() - j,
        {
            let cert = &trace.certificates[j];
            let idx = cert.from_phase.index() * NUM_INPUTS + cert.input.index();
            proof {
                lemma_cell_index(cert.from_phase, cert.input);
                lemma_total_of_bound(counts@, idx as int);
                lemma_total_of_update(counts@, idx as int, (counts@[idx as int] + 1) as u64);
            }
            let ghost before = counts@;
            let n = counts[idx];
            counts.set(idx, n + 1);
            total = total + 1;
            proof {
                assert forall|c: Cell| #[trigger] counts@[cell_index(c.0, c.1)]
                    == start[cell_index(c.0, c.1)] + certs_at(certs.take(j + 1), c).len() by {
                    let pred = |x: TransitionCertificate| x.from_phase == c.0 && x.input == c.1;
                    lemma_filter_take_succ(certs, j as int, pred);
                    lemma_cell_index(c.0, c.1);
                    if c != (cert.from_phase, cert.input) {
                        assert(cell_index(c.0, c.1) != idx) by {
                            if cell_index(c.0, c.1) == idx as int {
                                assert(crate::cells::cell_at(cell_index(c.0, c.1)) == c);
                            }
                        }
                    }
                }
            }
            j = j + 1;
        }
        assert(certs.take(certs.len() as int) =~= certs);
        *self = SemanticWeightLayer { trace_cells: counts, total_trace_observations: total };
    }

    /// How many steps were observed in all.
    pub fn observation_count(&self) -> (r: u64)
        ensures
            r == self.spec_total(),
    {
        self.total_trace_observations
    }

    /// The formal necessity proof of the rule at `rule_index`: at each cell
    /// where it is the first match, does removing it change a table entry
    /// (Critical), leave the same target from a later explicit rule
    /// (Redundant), or otherwise change nothing the table lists (Observational)?
    pub fn necessity_proof(&self, rule: &ConstraintRule, rule_index: usize, all_rules: &[ConstraintRule]) -> (r: RuleNecessityProof)
        requires
            rule_index < all_rules@.len(),
        ensures
            necessity_of(r, rule@, views(all_rules@), rule_index as int),
    {
        let ghost all = views(all_rules@);
        let ghost idx = rule_index as int;
        let ghost act_pred = |c: Cell| is_active(rule@, all.take(idx), c);
        let ghost cp = |c: Cell| critical_at(rule@, all, idx, c);
        let ghost op = |c: Cell| observational_at(rule@, all, idx, c);
        let ghost rp = |c: Cell| redundant_at(rule@, all, idx, c);
        proof {
            assert(all.take(idx) =~= prior_views(all_rules@, idx));
        }
        let mut critical: Vec<Cell> = Vec::new();
        let mut observational: Vec<Cell> = Vec::new();
        let mut redundant: Vec<Cell> = Vec::new();
        let mut active: usize = 0;
        let mut c: usize = 0;
        while c < NUM_CELLS
            invariant
                c <= NUM_CELLS,
                rule_index < all_rules@.len(),
                all == views(all_rules@),
                idx == rule_index as int,
                all.take(idx) == prior_views(all_rules@, idx),
                act_pred == (|c: Cell| is_active(rule@, all.take(idx), c)),
                cp == (|c: Cell| critical_at(rule@, all, idx, c)),
                op == (|c: Cell| observational_at(rule@, all, idx, c)),
                rp == (|c: Cell| redundant_at(rule@, all, idx, c)),
                active == all_cells().take(c as int).filter(act_pred).len(),
                active <= c,
                critical@ == all_cells().take(c as int).filter(act_pred).filter(cp),
                observational@ == all_cells().take(c as int).filter(act_pred).filter(op),
                redundant@ == all_cells().take(c as int).filter(act_pred).filter(rp),
            decreases NUM_CELLS - c,
        {
            let ghost pre = all_cells().take(c as int).filter(act_pred);
            proof {
                lemma_filter_take_succ(all_cells(), c as int, act_pred);
            }
            let (phase, input) = cell(c);
            if crate::counterfactual::CounterfactualAnalyzer::is_active_cell(rule, all_rules, rule_index, phase, input) {
                let cl = (phase, input);
                proof {
                    pre.lemma_filter_push(cl, cp);
                    pre.lemma_filter_push(cl, op);
                    pre.lemma_filter_push(cl, rp);
                }
                active = active + 1;
                let this_target = rule.target.resolve(phase);
                let later = later_match(all_rules, rule_index, phase, input);
                let fallback_target = match later {
                    Some(j) => {
                        proof {
                            assert(all[j as int] == all_rules@[j as int]@);
                        }
                        all_rules[j].target.resolve(phase)
                    },
                    None => KernelPhase::Faulted,
                };
                let explicit = later.is_some();
                let in_tab = cell_in_table(phase, input);
                proof {
                    lemma_first_match_bound(all, idx + 1, phase, input);
                    assert(fallback_target == fallback(all, idx, cl));
                }
                if fallback_target != this_target {
                    if in_tab {
                        critical.push(cl);
                    } else {
                        observational.push(cl);
                    }
                } else if explicit {
                    redundant.push(cl);
                } else {
                    observational.push(cl);
                }
            }
            c = c + 1;
        }
        assert(all_cells().take(NUM_CELLS as int) =~= all_cells());
        let class = if critical.len() > 0 {
            NecessityClass::Critical
        } else if observational.len() > 0 {
            NecessityClass::Observational
        } else {
            NecessityClass::Redundant
        };
        RuleNecessityProof {
            rule_name: String::from_str(rule.name),
            necessity_class: class,
            critical_cells: critical,
            observational_cells: observational,
            redundant_cells: redundant,
            active_domain_size: active,
        }
    }
}

/// The prefix sums of counts never exceed the whole sum.
proof fn lemma_total_of_prefix(s: Seq<u64>, k: int)
    requires
        0 <= k <= s.len(),
    ensures
        total_of(s.take(k)) <= total_of(s),
    decreases s.len() - k,
{
    if k < s.len() {
        lemma_total_of_prefix(s, k + 1);
        assert(s.take(k + 1).drop_last() =~= s.take(k));
    } else {
        assert(s.take(k) =~= s);
    }
}

impl SemanticWeightLayer {
    /// The sum of the counts of `cells`.
    pub open spec fn count_sum(&self, cells: Seq<Cell>) -> int
        decreases cells.len(),
    {
        if cells.len() == 0 {
            0
        } else {
            self.count_sum(cells.drop_last()) + self.spec_count(cells.last())
        }
    }

    /// How many observed steps fired at cells where the rule at `rule_index`
    /// is the first match. Divided by `observation_count`, this is the rule's
    /// causal importance; over all rules of a set these sum to the total.
    pub fn causal_observations(&self, rule: &ConstraintRule, rule_index: usize, all_rules: &[ConstraintRule]) -> (r: u64)
        requires
            rule_index <= all_rules@.len(),
        ensures
            r == self.count_sum(all_cells().filter(|c: Cell| is_active(rule@, prior_views(all_rules@, rule_index as int), c))),
            r <= self.spec_total(),
    {
        proof {
            use_type_invariant(self);
        }
        let ghost act_pred = |c: Cell| is_active(rule@, prior_views(all_rules@, rule_index as int), c);
        let mut sum: u64 = 0;
        let mut c: usize = 0;
        while c < NUM_CELLS
            invariant
                c <= NUM_CELLS,
                rule_index <= all_rules@.len(),
                self.trace_cells@.len() == NUM_CELLS,
                total_of(self.trace_cells@) == self.total_trace_observations,
                act_pred == (|c: Cell| is_active(rule@, prior_views(all_rules@, rule_index as int), c)),
                sum == self.count_sum(all_cells().take(c as int).filter(act_pred)),
                sum <= total_of(self.trace_cells@.take(c as int)),
            decreases NUM_CELLS - c,
        {
            let ghost pre = all_cells().take(c as int).filter(act_pred);
            proof {
                lemma_filter_take_succ(all_cells(), c as int, act_pred);
                lemma_total_of_prefix(self.trace_cells@, c + 1);
                assert(self.trace_cells@.take(c + 1).drop_last() =~= self.trace_cells@.take(c as int));
            }
            let (phase, input) = cell(c);
            proof {
                lemma_cell_index(phase, input);
                if c as int != cell_index(phase, input) {
                    crate::cells::lemma_cell_at_injective(c as int, cell_index(phase, input));
                }
            }
            let n = self.trace_cells[c];
            if crate::counterfactual::CounterfactualAnalyzer::is_active_cell(rule, all_rules, rule_index, phase, input) {
                proof {
                    assert(pre.push((phase, input)).drop_last() =~= pre);
                }
                sum = sum + n;
            }
            c = c + 1;
        }
        proof {
            assert(all_cells().take(NUM_CELLS as int) =~= all_cells());
            assert(self.trace_cells@.take(NUM_CELLS as int) =~= self.trace_cells@);
        }
        sum
    }

    /// The rule's active cells, and how many of them the traces exercised.
    pub fn reach_counts(&self, rule: &ConstraintRule, rule_index: usize, all_rules: &[ConstraintRule]) -> (r: (usize, usize))
        requires
            rule_index <= all_rules@.len(),
        ensures
            r.0 == all_cells().filter(|c: Cell| is_active(rule@, prior_views(all_rules@, rule_index as int), c)).len(),
            r.1 == all_cells().filter(|c: Cell| is_active(rule@, prior_views(all_rules@, rule_index as int), c)
                && self.spec_count(c) > 0).len(),
    {
        proof {
            use_type_invariant(self);
        }
        let ghost act_pred = |c: Cell| is_active(rule@, prior_views(all_rules@, rule_index as int), c);
        let ghost reach_pred = |c: Cell| is_active(rule@, prior_views(all_rules@, rule_index as int), c) && self.spec_count(c) > 0;
        let mut active: usize = 0;
        let mut reached: usize = 0;
        let mut c: usize = 0;
        while c < NUM_CELLS
            invariant
                c <= NUM_CELLS,
                rule_index <= all_rules@.len(),
                self.trace_cells@.len() == NUM_CELLS,
                act_pred == (|c: Cell| is_active(rule@, prior_views(all_rules@, rule_index as int), c)),
                reach_pred == (|c: Cell| is_active(rule@, prior_views(all_rules@, rule_index as int), c) && self.spec_count(c) > 0),
                active == all_cells().take(c as int).filter(act_pred).len(),
                reached == all_cells().take(c as int).filter(reach_pred).len(),
                active <= c,
                reached <= c,
            decreases NUM_CELLS - c,
        {
            proof {
                lemma_filter_take_succ(all_cells(), c as int, act_pred);
                lemma_filter_take_succ(all_cells(), c as int, reach_pred);
            }
            let (phase, input) = cell(c);
            proof {
                lemma_cell_index(phase, input);
                if c as int != cell_index(phase, input) {
                    crate::cells::lemma_cell_at_injective(c as int, cell_index(phase, input));
                }
            }
            if crate::counterfactual::CounterfactualAnalyzer::is_active_cell(rule, all_rules, rule_index, phase, input) {
                active = active + 1;
                if self.trace_cells[c] > 0 {
                    reached = reached + 1;
                }
            }
            c = c + 1;
        }
        assert(all_cells().take(NUM_CELLS as int) =~= all_cells());
        (active, reached)
    }
}

// ─── Recommendations ─────────────────────────────────────────────────────────

/// What to do with a rule, given its necessity and causal importance.
#[derive(Debug, Clone, Copy, PartialEq, Eq, Structural)]
pub enum RuleRecommendation {
    Preserve,
    Strengthen,
    Simplifiable,
    RemoveCandidate,
    DocumentationOnly,
}

/// The recommendation for a rule of a necessity class whose causal
/// importance is or is not negligible (below 0.01).
pub open spec fn spec_recommend(class: NecessityClass, causal_negligible: bool) -> RuleRecommendation {
    match class {
        NecessityClass::Critical => if causal_negligible {
            RuleRecommendation::Strengthen
        } else {
            RuleRecommendation::Preserve
        },
        NecessityClass::Observational => RuleRecommendation::DocumentationOnly,
        NecessityClass::Redundant => if causal_negligible {
            RuleRecommendation::RemoveCandidate
        } else {
            RuleRecommendation::Simplifiable
        },
    }
}

impl RuleRecommendation {
    /// A critical rule no trace exercises should be strengthened, else kept;
    /// an observational rule only documents; a redundant rule no trace
    /// exercises is a removal candidate, else it can be simplified. Whether
    /// the causal importance is negligible (below 0.01) is decided by the
    /// caller, which measures it in floating point.
    pub fn recommend(class: NecessityClass, causal_negligible: bool) -> (r: Self)
        ensures
            r == spec_recommend(class, causal_negligible),
    {
        match class {
            NecessityClass::Critical => if causal_negligible {
                RuleRecommendation::Strengthen
            } else {
                RuleRecommendation::Preserve
            },
            NecessityClass::Observational => RuleRecommendation::DocumentationOnly,
            NecessityClass::Redundant => if causal_negligible {
                RuleRecommendation::RemoveCandidate
            } else {
                RuleRecommendation::Simplifiable
            },
        }
    }

    /// The recommendation's name.
    pub fn to_text(self) -> (r: &'static str)
        ensures
            r@ == match self {
                RuleRecommendation::Preserve => "PRESERVE"@,
                RuleRecommendation::Strengthen => "STRENGTHEN"@,
                RuleRecommendation::Simplifiable => "SIMPLIFIABLE"@,
                RuleRecommendation::RemoveCandidate => "REMOVE_CANDIDATE"@,
                RuleRecommendation::DocumentationOnly => "DOCUMENTATION_ONLY"@,
            },
    {
        match self {
            RuleRecommendation::Preserve => "PRESERVE",
            RuleRecommendation::Strengthen => "STRENGTHEN",
            RuleRecommendation::Simplifiable => "SIMPLIFIABLE",
            RuleRecommendation::RemoveCandidate => "REMOVE_CANDIDATE",
            RuleRecommendation::DocumentationOnly => "DOCUMENTATION_ONLY",
        }
    }
}

/// Only a rule that is not critical can be a removal candidate.
pub proof fn lemma_critical_never_removed(class: NecessityClass, causal_negligible: bool)
    ensures
        spec_recommend(class, causal_negligible) == RuleRecommendation::RemoveCandidate ==> class == NecessityClass::Redundant,
{
}

} // verus!
