//! Meta-invariants: rules about rule sets, checked before a synthesized rule
//! set may replace the current one.
//!
//! Hard invariants (a violation rejects the candidate): kernel alignment,
//! pipeline acyclicity, absence of conflicts. Soft invariants (a violation is
//! a warning): minimum table coverage, and the entropy floor, which is a
//! floating-point measure computed outside this crate and handed in as a result.

use vstd::prelude::*;
use crate::cells::{Cell, all_cells, cell, lemma_filter_take_succ};
use crate::constraint_algebra::{
    RuleSet, RuleView, backward_arcs, canonical_constraint_rules, canonical_rules_view, conflict_pairs_from, rules_delta,
};
use crate::kernel_state::{NUM_CELLS, TABLE_LEN, TransitionEntry, kernel_delta, spec_kernel_delta, table_entry, transition_entry};
use crate::text::{decimal, digit_char, phase_lists_text, push_decimal, push_phase_lists, same_text};

verus! {

// ─── InvariantResult ─────────────────────────────────────────────────────────

/// The outcome of one invariant check.
#[derive(Debug, Clone, PartialEq, Eq)]
pub enum InvariantResult {
    Passed,
    Failed { reason: String },
}

impl View for InvariantResult {
    /// `None` for a pass, the reason for a failure.
    type V = Option<Seq<char>>;

    open spec fn view(&self) -> Option<Seq<char>> {
        match self {
            InvariantResult::Passed => None,
            InvariantResult::Failed { reason } => Some(reason@),
        }
    }
}

impl InvariantResult {
    pub fn passed(&self) -> (r: bool)
        ensures
            r == (self@ is None),
    {
        match self {
            InvariantResult::Passed => true,
            InvariantResult::Failed { .. } => false,
        }
    }

    pub fn failed(&self) -> (r: bool)
        ensures
            r == (self@ is Some),
    {
        match self {
            InvariantResult::Passed => false,
            InvariantResult::Failed { .. } => true,
        }
    }

    pub fn ok() -> (r: Self)
        ensures
            r@ == None::<Seq<char>>,
    {
        InvariantResult::Passed
    }

    pub fn fail(reason: String) -> (r: Self)
        ensures
            r@ == Some(reason@),
    {
        InvariantResult::Failed { reason }
    }

    /// A copy with the same outcome and reason.
    pub fn copy(&self) -> (r: Self)
        ensures
            r@ == self@,
    {
        match self {
            InvariantResult::Passed => InvariantResult::Passed,
            InvariantResult::Failed { reason } => InvariantResult::Failed { reason: reason.clone() },
        }
    }
}

// ─── Invariants ──────────────────────────────────────────────────────────────

/// Whether a violation rejects the candidate or only warns.
#[derive(Debug, Clone, Copy, PartialEq, Eq, Structural, PartialOrd, Ord, Hash)]
pub enum InvariantSeverity {
    /// The violation is logged; synthesis is not blocked.
    Soft,
    /// The violation rejects the synthesis result.
    Hard,
}

/// A named meta-invariant on a rule set.
#[derive(Debug, Clone, Copy)]
pub struct AlgebraInvariant {
    pub name: &'static str,
    pub severity: InvariantSeverity,
}

/// Cells where the rule set's δ differs from the kernel's.
pub open spec fn misaligned_cells(rs: Seq<RuleView>) -> Seq<Cell> {
    all_cells().filter(|c: Cell| rules_delta(rs, c.0, c.1) != spec_kernel_delta(c.0, c.1))
}

/// Kernel alignment: the rule set agrees with the kernel's δ on all 522 cells.
pub open spec fn alignment_result(rs: Seq<RuleView>) -> Option<Seq<char>> {
    let n = misaligned_cells(rs).len();
    if n == 0 {
        None
    } else {
        Some("algebra disagrees with kernel on "@ + decimal(n) + " of 522 cells"@)
    }
}

/// Pipeline acyclicity: no processing phase moves back to an earlier one.
pub open spec fn acyclic_result(rs: Seq<RuleView>) -> Option<Seq<char>> {
    let arcs = backward_arcs(rs);
    if arcs.len() == 0 {
        None
    } else {
        Some("pipeline has "@ + decimal(arcs.len()) + " backward arcs: "@ + phase_lists_text(arcs))
    }
}

/// No conflicts: no two rules resolve a shared cell to different targets.
pub open spec fn conflicts_result(rs: Seq<RuleView>) -> Option<Seq<char>> {
    let n = conflict_pairs_from(rs, 0, 1).len();
    if n == 0 {
        None
    } else {
        Some(decimal(n) + " conflicting rule pairs detected"@)
    }
}

/// The transition-table entries the rule set reproduces.
pub open spec fn covered_entries(rs: Seq<RuleView>) -> Seq<TransitionEntry> {
    Seq::new(TABLE_LEN as nat, |k: int| table_entry(k)).filter(|e: TransitionEntry| rules_delta(rs, e.from, e.on) == e.to)
}

/// `covered / 45` as a percentage with one decimal, rounded half up.
pub open spec fn coverage_tenths(covered: nat) -> nat {
    ((covered * 2000 / 45 + 1) / 2) as nat
}

/// Minimum coverage: at least half of the table's entries are reproduced.
pub open spec fn coverage_result(rs: Seq<RuleView>) -> Option<Seq<char>> {
    let covered = covered_entries(rs).len();
    if 2 * covered >= TABLE_LEN {
        None
    } else {
        let t = coverage_tenths(covered);
        Some("coverage "@ + decimal(t / 10) + seq!['.', digit_char(t % 10)] + "% below threshold 50.0%"@)
    }
}

/// The result of the invariant named `name` on `rs`; the entropy floor's
/// result is measured outside and passed in as `floor`.
pub open spec fn check_result(name: Seq<char>, rs: Seq<RuleView>, floor: Option<Seq<char>>) -> Option<Seq<char>> {
    if name == "kernel-alignment"@ {
        alignment_result(rs)
    } else if name == "pipeline-acyclic"@ {
        acyclic_result(rs)
    } else if name == "no-conflicts"@ {
        conflicts_result(rs)
    } else if name == "minimum-coverage"@ {
        coverage_result(rs)
    } else if name == "expression-floor"@ {
        floor
    } else {
        Some("unknown invariant: "@ + name)
    }
}

impl AlgebraInvariant {
    /// Run this invariant on a rule set. `expression_floor` is the outcome of
    /// the entropy-floor check, which rests on floating-point measures.
    pub fn check(&self, rule_set: &RuleSet, expression_floor: &InvariantResult) -> (r: InvariantResult)
        ensures
            r@ == check_result(self.name@, rule_set@, expression_floor@),
    {
        if same_text(self.name, "kernel-alignment") {
            check_kernel_alignment(rule_set)
        } else if same_text(self.name, "pipeline-acyclic") {
            check_pipeline_acyclic(rule_set)
        } else if same_text(self.name, "no-conflicts") {
            check_no_conflicts(rule_set)
        } else if same_text(self.name, "minimum-coverage") {
            check_minimum_coverage(rule_set)
        } else if same_text(self.name, "expression-floor") {
            expression_floor.copy()
        } else {
            let mut s = String::from_str("unknown invariant: ");
            s.append(self.name);
            InvariantResult::fail(s)
        }
    }
}

/// The rule set agrees with the kernel on every cell.
pub fn check_kernel_alignment(rs: &RuleSet) -> (r: InvariantResult)
    ensures
        r@ == alignment_result(rs@),
{
    let ghost pred = |c: Cell| rules_delta(rs@, c.0, c.1) != spec_kernel_delta(c.0, c.1);
    let mut violations: usize = 0;
    let mut c: usize = 0;
    while c < NUM_CELLS
        invariant
            c <= NUM_CELLS,
            pred == (|c: Cell| rules_delta(rs@, c.0, c.1) != spec_kernel_delta(c.0, c.1)),
            violations == all_cells().take(c as int).filter(pred).len(),
            violations <= c,
        decreases NUM_CELLS - c,
    {
        proof {
            lemma_filter_take_succ(all_cells(), c as int, pred);
        }
        let (phase, input) = cell(c);
        if rs.delta(phase, input) != kernel_delta(phase, input) {
            violations = violations + 1;
        }
        c = c + 1;
    }
    assert(all_cells().take(NUM_CELLS as int) =~= all_cells());
    if violations == 0 {
        InvariantResult::Passed
    } else {
        let mut s = String::from_str("algebra disagrees with kernel on ");
        push_decimal(&mut s, violations);
        s.append(" of 522 cells");
        InvariantResult::fail(s)
    }
}

/// No processing phase moves back to an earlier one.
pub fn check_pipeline_acyclic(rs: &RuleSet) -> (r: InvariantResult)
    ensures
        r@ == acyclic_result(rs@),
{
    let proof_report = rs.prove_pipeline_acyclic();
    if proof_report.is_acyclic {
        InvariantResult::Passed
    } else {
        let mut s = String::from_str("pipeline has ");
        push_decimal(&mut s, proof_report.cycles.len());
        s.append(" backward arcs: ");
        push_phase_lists(&mut s, &proof_report.cycles);
        InvariantResult::fail(s)
    }
}

/// No two rules resolve a shared cell to different targets.
pub fn check_no_conflicts(rs: &RuleSet) -> (r: InvariantResult)
    ensures
        r@ == conflicts_result(rs@),
{
    let report = rs.verify_consistency();
    if report.conflicts.len() == 0 {
        InvariantResult::Passed
    } else {
        let mut s = String::new();
        push_decimal(&mut s, report.conflicts.len());
        s.append(" conflicting rule pairs detected");
        InvariantResult::fail(s)
    }
}

/// How many transition-table entries the rule set reproduces.
pub fn count_covered_entries(rs: &RuleSet) -> (r: usize)
    ensures
        r == covered_entries(rs@).len(),
        r <= TABLE_LEN,
{
    let ghost entries = Seq::new(TABLE_LEN as nat, |k: int| table_entry(k));
    let ghost pred = |e: TransitionEntry| rules_delta(rs@, e.from, e.on) == e.to;
    let mut covered: usize = 0;
    let mut k: usize = 0;
    while k < TABLE_LEN
        invariant
            k <= TABLE_LEN,
            entries == Seq::new(TABLE_LEN as nat, |k: int| table_entry(k)),
            pred == (|e: TransitionEntry| rules_delta(rs@, e.from, e.on) == e.to),
            covered == entries.take(k as int).filter(pred).len(),
            covered <= k,
        decreases TABLE_LEN - k,
    {
        proof {
            lemma_filter_take_succ(entries, k as int, pred);
        }
        let e = transition_entry(k);
        if rs.delta(e.from, e.on) == e.to {
            covered = covered + 1;
        }
        k = k + 1;
    }
    assert(entries.take(TABLE_LEN as int) =~= entries);
    covered
}

/// At least half of the transition table's entries are reproduced.
pub fn check_minimum_coverage(rs: &RuleSet) -> (r: InvariantResult)
    ensures
        r@ == coverage_result(rs@),
{
    let covered = count_covered_entries(rs);
    if 2 * covered >= TABLE_LEN {
        InvariantResult::Passed
    } else {
        let t = (covered * 2000 / 45 + 1) / 2;
        let mut s = String::from_str("coverage ");
        push_decimal(&mut s, t / 10);
        s.append(".");
        proof {
            reveal_strlit(".");
        }
        crate::text::push_digit(&mut s, t % 10);
        s.append("% below threshold 50.0%");
        proof {
            assert(s@ =~= "coverage "@ + decimal((t / 10) as nat) + seq!['.', digit_char((t % 10) as nat)] + "% below threshold 50.0%"@);
        }
        InvariantResult::fail(s)
    }
}

/// The standard invariants, in checking order.
pub open spec fn standard_invariants_view() -> Seq<(Seq<char>, InvariantSeverity)> {
    seq![
        ("kernel-alignment"@, InvariantSeverity::Hard),
        ("pipeline-acyclic"@, InvariantSeverity::Hard),
        ("no-conflicts"@, InvariantSeverity::Hard),
        ("minimum-coverage"@, InvariantSeverity::Soft),
        ("expression-floor"@, InvariantSeverity::Soft),
    ]
}

/// The standard set of algebra invariants.
pub fn standard_invariants() -> (r: Vec<AlgebraInvariant>)
    ensures
        r@.map_values(|i: AlgebraInvariant| (i.name@, i.severity)) == standard_invariants_view(),
{
    let v = vec![
        AlgebraInvariant { name: "kernel-alignment", severity: InvariantSeverity::Hard },
        AlgebraInvariant { name: "pipeline-acyclic", severity: InvariantSeverity::Hard },
        AlgebraInvariant { name: "no-conflicts", severity: InvariantSeverity::Hard },
        AlgebraInvariant { name: "minimum-coverage", severity: InvariantSeverity::Soft },
        AlgebraInvariant { name: "expression-floor", severity: InvariantSeverity::Soft },
    ];
    assert(v@.map_values(|i: AlgebraInvariant| (i.name@, i.severity)) =~= standard_invariants_view());
    v
}

// ─── InvariantCheckReport ────────────────────────────────────────────────────

/// One invariant's outcome.
#[derive(Debug, Clone)]
pub struct InvariantCheckResult {
    pub invariant_name: String,
    pub severity: InvariantSeverity,
    pub result: InvariantResult,
}

/// Outcomes of a list of invariants on one rule set.
#[derive(Debug, Clone)]
pub struct InvariantCheckReport {
    pub results: Vec<InvariantCheckResult>,
    pub hard_violations: usize,
    pub soft_violations: usize,
    /// No hard invariant failed.
    pub is_acceptable: bool,
}

/// The invariants of severity `sev` that fail on `rs`.
pub open spec fn failing(invs: Seq<AlgebraInvariant>, rs: Seq<RuleView>, floor: Option<Seq<char>>, sev: InvariantSeverity) -> Seq<AlgebraInvariant> {
    invs.filter(|i: AlgebraInvariant| i.severity == sev && check_result(i.name@, rs, floor) is Some)
}

impl InvariantCheckReport {
    /// Check every invariant, in order, on the rule set.
    pub fn run(rule_set: &RuleSet, invariants: &[AlgebraInvariant], expression_floor: &InvariantResult) -> (r: Self)
        ensures
            r.results@.len() == invariants@.len(),
            forall|k: int| 0 <= k < invariants@.len() ==> {
                &&& (#[trigger] r.results@[k]).invariant_name@ == invariants@[k].name@
                &&& r.results@[k].severity == invariants@[k].severity
                &&& r.results@[k].result@ == check_result(invariants@[k].name@, rule_set@, expression_floor@)
            },
            r.hard_violations == failing(invariants@, rule_set@, expression_floor@, InvariantSeverity::Hard).len(),
            r.soft_violations == failing(invariants@, rule_set@, expression_floor@, InvariantSeverity::Soft).len(),
            r.is_acceptable == (r.hard_violations == 0),
    {
        let ghost hard_pred = |i: AlgebraInvariant| i.severity == InvariantSeverity::Hard
            && check_result(i.name@, rule_set@, expression_floor@) is Some;
        let ghost soft_pred = |i: AlgebraInvariant| i.severity == InvariantSeverity::Soft
            && check_result(i.name@, rule_set@, expression_floor@) is Some;
        let mut results: Vec<InvariantCheckResult> = Vec::new();
        let mut hard: usize = 0;
        let mut soft: usize = 0;
        let mut k: usize = 0;
        while k < invariants.len()
            invariant
                k <= invariants@.len(),
                hard_pred == (|i: AlgebraInvariant| i.severity == InvariantSeverity::Hard
                    && check_result(i.name@, rule_set@, expression_floor@) is Some),
                soft_pred == (|i: AlgebraInvariant| i.severity == InvariantSeverity::Soft
                    && check_result(i.name@, rule_set@, expression_floor@) is Some),
                results@.len() == k,
                forall|j: int| 0 <= j < k ==> {
                    &&& (#[trigger] results@[j]).invariant_name@ == invariants@[j].name@
                    &&& results@[j].severity == invariants@[j].severity
                    &&& results@[j].result@ == check_result(invariants@[j].name@, rule_set@, expression_floor@)
                },
                hard == invariants@.take(k as int).filter(hard_pred).len(),
                soft == invariants@.take(k as int).filter(soft_pred).len(),
                hard <= k,
                soft <= k,
            decreases invariants@.len() - k,
        {
            proof {
                lemma_filter_take_succ(invariants@, k as int, hard_pred);
                lemma_filter_take_succ(invariants@, k as int, soft_pred);
            }
            let inv = invariants[k];
            let result = inv.check(rule_set, expression_floor);
            let failed = result.failed();
            match inv.severity {
                InvariantSeverity::Hard => {
                    if failed {
                        hard = hard + 1;
                    }
                },
                InvariantSeverity::Soft => {
                    if failed {
                        soft = soft + 1;
                    }
                },
            }
            results.push(InvariantCheckResult { invariant_name: String::from_str(inv.name), severity: inv.severity, result });
            k = k + 1;
        }
        assert(invariants@.take(invariants@.len() as int) =~= invariants@);
        InvariantCheckReport { results, hard_violations: hard, soft_violations: soft, is_acceptable: hard == 0 }
    }

    pub fn all_hard_passed(&self) -> (r: bool)
        ensures
            r == (self.hard_violations == 0),
    {
        self.hard_violations == 0
    }

    pub fn all_passed(&self) -> (r: bool)
        ensures
            r == (self.hard_violations == 0 && self.soft_violations == 0),
    {
        self.hard_violations == 0 && self.soft_violations == 0
    }
}

// ─── PinnedRuleSet ───────────────────────────────────────────────────────────

/// Index of the first rule at or after `k` named `name`.
pub open spec fn find_named_from(rules: Seq<RuleView>, name: Seq<char>, k: int) -> Option<int>
    decreases rules.len() - k,
{
    if k < 0 || k >= rules.len() {
        None
    } else if rules[k].name == name {
        Some(k)
    } else {
        find_named_from(rules, name, k + 1)
    }
}

/// Index of the first rule named `name`.
pub open spec fn find_named(rules: Seq<RuleView>, name: Seq<char>) -> Option<int> {
    find_named_from(rules, name, 0)
}

/// The number of cells the first rule named `name` fires on.
pub open spec fn named_coverage(rules: Seq<RuleView>, name: Seq<char>) -> nat {
    rules[find_named(rules, name).unwrap()].guard.extension().len()
}

/// Each pinned name present in `rules`, with the cells its first rule fires on.
pub open spec fn baseline(names: Seq<Seq<char>>, rules: Seq<RuleView>) -> Seq<(Seq<char>, nat)> {
    names.filter(|n: Seq<char>| find_named(rules, n) is Some).map_values(|n: Seq<char>| (n, named_coverage(rules, n)))
}

/// The recorded coverage of `name` (0 when none is recorded).
pub open spec fn required_from(cov: Seq<(Seq<char>, nat)>, name: Seq<char>, k: int) -> nat
    decreases cov.len() - k,
{
    if k < 0 || k >= cov.len() {
        0
    } else if cov[k].0 == name {
        cov[k].1
    } else {
        required_from(cov, name, k + 1)
    }
}

/// `s` without repeated elements, first occurrences kept in order.
pub open spec fn dedup(s: Seq<Seq<char>>) -> Seq<Seq<char>>
    decreases s.len(),
{
    if s.len() == 0 {
        s
    } else if dedup(s.drop_last()).contains(s.last()) {
        dedup(s.drop_last())
    } else {
        dedup(s.drop_last()).push(s.last())
    }
}

/// The default pinned rules, in name order.
pub open spec fn default_pinned() -> Seq<Seq<char>> {
    seq![
        "faulted-absorbs-non-recovery"@,
        "pipeline-advance"@,
        "sealed-absorbs-all"@,
        "universal-fault"@,
        "validation-rejection"@,
    ]
}

/// A rule set with named rules that synthesis may neither remove nor weaken.
pub struct PinnedRuleSet {
    pub rule_set: RuleSet,
    pinned_names: Vec<&'static str>,
    /// The coverage each pinned rule had when pinned.
    pinned_coverage: Vec<(&'static str, usize)>,
}

/// A pinned rule that covers fewer cells than when it was pinned.
#[derive(Debug, Clone)]
pub struct PinnedWeakening {
    pub rule_name: String,
    pub required_cells: usize,
    pub actual_cells: usize,
}

/// The outcome of checking a candidate against the pinned rules.
#[derive(Debug, Clone)]
pub struct PinnedRuleCheck {
    pub is_valid: bool,
    pub missing_rules: Vec<String>,
    pub weakened_rules: Vec<PinnedWeakening>,
}

/// Pinned names the candidate has no rule for.
pub open spec fn missing_names(names: Seq<Seq<char>>, cand: Seq<RuleView>) -> Seq<Seq<char>> {
    names.filter(|n: Seq<char>| find_named(cand, n) is None)
}

/// Pinned names whose first candidate rule covers fewer cells than recorded.
pub open spec fn weakened_names(names: Seq<Seq<char>>, cov: Seq<(Seq<char>, nat)>, cand: Seq<RuleView>) -> Seq<Seq<char>> {
    names.filter(|n: Seq<char>| find_named(cand, n) is Some && named_coverage(cand, n) < required_from(cov, n, 0))
}

/// The weakening record of a name.
pub open spec fn weakening_view(cov: Seq<(Seq<char>, nat)>, cand: Seq<RuleView>, n: Seq<char>) -> (Seq<char>, nat, nat) {
    (n, required_from(cov, n, 0), named_coverage(cand, n))
}

/// Index of the first rule named `name`.
fn find_rule(rs: &RuleSet, name: &str) -> (r: Option<usize>)
    ensures
        r is None <==> find_named(rs@, name@) is None,
        r is Some ==> find_named(rs@, name@) == Some(r.unwrap() as int),
        r is Some ==> r.unwrap() < rs.rules@.len() && rs@[r.unwrap() as int].name == name@
            && rs@[r.unwrap() as int] == rs.rules@[r.unwrap() as int]@,
{
    let mut k: usize = 0;
    while k < rs.rules.len()
        invariant
            k <= rs.rules@.len(),
            find_named(rs@, name@) == find_named_from(rs@, name@, k as int),
        decreases rs.rules@.len() - k,
    {
        assert(rs@[k as int] == rs.rules@[k as int]@);
        if same_text(rs.rules[k].name, name) {
            return Some(k);
        }
        k = k + 1;
    }
    None
}

impl PinnedRuleSet {
    /// The pinned rule set.
    pub closed spec fn spec_rule_set(&self) -> RuleSet {
        self.rule_set
    }

    /// The pinned names, in order.
    pub closed spec fn spec_pinned(&self) -> Seq<Seq<char>> {
        self.pinned_names@.map_values(|n: &'static str| n@)
    }

    /// The recorded coverage of each pinned rule present when pinned.
    pub closed spec fn spec_coverage(&self) -> Seq<(Seq<char>, nat)> {
        self.pinned_coverage@.map_values(|e: (&'static str, usize)| (e.0@, e.1 as nat))
    }

    /// The coverage each pinned name's first rule has in `rs`.
    fn record_coverage(rs: &RuleSet, names: &Vec<&'static str>) -> (r: Vec<(&'static str, usize)>)
        ensures
            r@.map_values(|e: (&'static str, usize)| (e.0@, e.1 as nat))
                == baseline(names@.map_values(|n: &'static str| n@), rs@),
    {
        let ghost nv = names@.map_values(|n: &'static str| n@);
        let ghost pred = |n: Seq<char>| find_named(rs@, n) is Some;
        let ghost f = |n: Seq<char>| (n, named_coverage(rs@, n));
        let ghost g = |e: (&'static str, usize)| (e.0@, e.1 as nat);
        let mut out: Vec<(&'static str, usize)> = Vec::new();
        let mut k: usize = 0;
        while k < names.len()
            invariant
                k <= names@.len(),
                nv == names@.map_values(|n: &'static str| n@),
                pred == (|n: Seq<char>| find_named(rs@, n) is Some),
                f == (|n: Seq<char>| (n, named_coverage(rs@, n))),
                g == (|e: (&'static str, usize)| (e.0@, e.1 as nat)),
                out@.map_values(g) == nv.take(k as int).filter(pred).map_values(f),
            decreases names@.len() - k,
        {
            proof {
                lemma_filter_take_succ(nv, k as int, pred);
            }
            let name = names[k];
            match find_rule(rs, name) {
                Some(j) => {
                    let n = rs.rules[j].domain().len();
                    proof {
                        assert(rs@[j as int] == rs.rules@[j as int]@);
                    }
                    proof {
                        assert(nv[k as int] == name@);
                        assert(n == named_coverage(rs@, name@));
                    }
                    let ghost before = out@;
                    out.push((name, n));
                    proof {
                        assert(out@.map_values(g) =~= before.map_values(g).push(g((name, n))));
                        assert(nv.take(k + 1).filter(pred).map_values(f) =~= nv.take(k as int).filter(pred).map_values(f).push(f(nv[k as int])));
                    }
                },
                None => {},
            }
            k = k + 1;
        }
        assert(nv.take(names@.len() as int) =~= nv);
        out
    }

    /// The canonical rule set with the default pinned rules, each pinned at
    /// its current coverage.
    pub fn from_canonical() -> (r: Self)
        ensures
            r.spec_rule_set()@ == canonical_rules_view(),
            r.spec_pinned() == default_pinned(),
            r.spec_coverage() == baseline(default_pinned(), canonical_rules_view()),
    {
        let rs = canonical_constraint_rules();
        let pinned = vec!["faulted-absorbs-non-recovery", "pipeline-advance", "sealed-absorbs-all", "universal-fault", "validation-rejection"];
        assert(pinned@.map_values(|n: &'static str| n@) =~= default_pinned());
        let pinned_coverage = Self::record_coverage(&rs, &pinned);
        PinnedRuleSet { rule_set: rs, pinned_names: pinned, pinned_coverage }
    }

    /// Pin the named rules of a rule set at their current coverage; a name
    /// given twice is pinned once.
    pub fn new(rule_set: RuleSet, pinned: Vec<&'static str>) -> (r: Self)
        ensures
            r.spec_rule_set() == rule_set,
            r.spec_pinned() == dedup(pinned@.map_values(|n: &'static str| n@)),
            r.spec_coverage() == baseline(r.spec_pinned(), rule_set@),
    {
        let ghost pv = pinned@.map_values(|n: &'static str| n@);
        let mut names: Vec<&'static str> = Vec::new();
        let mut k: usize = 0;
        while k < pinned.len()
            invariant
                k <= pinned@.len(),
                pv == pinned@.map_values(|n: &'static str| n@),
                names@.map_values(|n: &'static str| n@) == dedup(pv.take(k as int)),
            decreases pinned@.len() - k,
        {
            let name = pinned[k];
            let ghost cur = names@.map_values(|n: &'static str| n@);
            let mut seen = false;
            let mut j: usize = 0;
            while j < names.len()
                invariant
                    j <= names@.len(),
                    cur == names@.map_values(|n: &'static str| n@),
                    seen == cur.take(j as int).contains(name@),
                decreases names@.len() - j,
            {
                let same = same_text(names[j], name);
                proof {
                    let t = cur.take(j + 1);
                    assert(t =~= cur.take(j as int).push(cur[j as int]));
                    assert(cur[j as int] == names@[j as int]@);
                    if same {
                        assert(t[j as int] == name@);
                    }
                    if t.contains(name@) && !same {
                        let w = choose|w: int| 0 <= w < t.len() && t[w] == name@;
                        assert(cur.take(j as int)[w] == name@);
                    }
                    if cur.take(j as int).contains(name@) {
                        let w = choose|w: int| 0 <= w < j && cur.take(j as int)[w] == name@;
                        assert(t[w] == name@);
                    }
                }
                if same {
                    seen = true;
                }
                j = j + 1;
            }
            proof {
                assert(cur.take(names@.len() as int) =~= cur);
                assert(pv.take(k + 1).drop_last() =~= pv.take(k as int));
                assert(pv.take(k + 1).last() == name@);
            }
            if !seen {
                names.push(name);
                proof {
                    assert(names@.map_values(|n: &'static str| n@) =~= cur.push(name@));
                }
            }
            k = k + 1;
        }
        assert(pv.take(pinned@.len() as int) =~= pv);
        let pinned_coverage = Self::record_coverage(&rule_set, &names);
        PinnedRuleSet { rule_set, pinned_names: names, pinned_coverage }
    }

    /// The recorded coverage of `name`, 0 when none is recorded.
    fn required(&self, name: &str) -> (r: usize)
        ensures
            r == required_from(self.spec_coverage(), name@, 0),
    {
        let ghost cov = self.spec_coverage();
        let mut k: usize = 0;
        while k < self.pinned_coverage.len()
            invariant
                k <= self.pinned_coverage@.len(),
                cov == self.spec_coverage(),
                required_from(cov, name@, 0) == required_from(cov, name@, k as int),
            decreases self.pinned_coverage@.len() - k,
        {
            let (n, c) = self.pinned_coverage[k];
            if same_text(n, name) {
                return c;
            }
            k = k + 1;
        }
        0
    }

    /// Does the candidate keep every pinned rule, at no less than its pinned coverage?
    pub fn check_candidate(&self, candidate: &RuleSet) -> (r: PinnedRuleCheck)
        ensures
            r.missing_rules@.map_values(|s: String| s@) == missing_names(self.spec_pinned(), candidate@),
            r.weakened_rules@.map_values(|w: PinnedWeakening| (w.rule_name@, w.required_cells as nat, w.actual_cells as nat))
                == weakened_names(self.spec_pinned(), self.spec_coverage(), candidate@).map_values(
                |n: Seq<char>| weakening_view(self.spec_coverage(), candidate@, n)),
            r.is_valid == (missing_names(self.spec_pinned(), candidate@).len() == 0
                && weakened_names(self.spec_pinned(), self.spec_coverage(), candidate@).len() == 0),
    {
        let ghost names = self.spec_pinned();
        let ghost cov = self.spec_coverage();
        let ghost mpred = |n: Seq<char>| find_named(candidate@, n) is None;
        let ghost wpred = |n: Seq<char>| find_named(candidate@, n) is Some && named_coverage(candidate@, n) < required_from(cov, n, 0);
        let ghost wv = |n: Seq<char>| weakening_view(cov, candidate@, n);
        let ghost sv = |s: String| s@;
        let ghost pwv = |w: PinnedWeakening| (w.rule_name@, w.required_cells as nat, w.actual_cells as nat);
        let mut missing: Vec<String> = Vec::new();
        let mut weakened: Vec<PinnedWeakening> = Vec::new();
        let mut k: usize = 0;
        while k < self.pinned_names.len()
            invariant
                k <= self.pinned_names@.len(),
                names == self.spec_pinned(),
                cov == self.spec_coverage(),
                mpred == (|n: Seq<char>| find_named(candidate@, n) is None),
                wpred == (|n: Seq<char>| find_named(candidate@, n) is Some && named_coverage(candidate@, n) < required_from(cov, n, 0)),
                wv == (|n: Seq<char>| weakening_view(cov, candidate@, n)),
                sv == (|s: String| s@),
                pwv == (|w: PinnedWeakening| (w.rule_name@, w.required_cells as nat, w.actual_cells as nat)),
                missing@.map_values(sv) == names.take(k as int).filter(mpred),
                weakened@.map_values(pwv) == names.take(k as int).filter(wpred).map_values(wv),
            decreases self.pinned_names@.len() - k,
        {
            proof {
                lemma_filter_take_succ(names, k as int, mpred);
                lemma_filter_take_succ(names, k as int, wpred);
            }
            let name = self.pinned_names[k];
            assert(names[k as int] == name@);
            match find_rule(candidate, name) {
                None => {
                    let ghost before = missing@;
                    missing.push(String::from_str(name));
                    proof {
                        assert(missing@.map_values(sv) =~= before.map_values(sv).push(name@));
                    }
                },
                Some(j) => {
                    let current = candidate.rules[j].domain().len();
                    let required = self.required(name);
                    proof {
                        assert(candidate@[j as int] == candidate.rules@[j as int]@);
                    }
                    proof {
                        assert(find_named(candidate@, name@) == Some(j as int));
                        assert(current == candidate@[j as int].guard.extension().len());
                        assert(current == named_coverage(candidate@, name@));
                        assert(required == required_from(cov, name@, 0));
                    }
                    if current < required {
                        let ghost before = weakened@;
                        weakened.push(PinnedWeakening { rule_name: String::from_str(name), required_cells: required, actual_cells: current });
                        proof {
                            assert(weakened@.map_values(pwv) =~= before.map_values(pwv).push(wv(name@)));
                            assert(names.take(k + 1).filter(wpred).map_values(wv) =~= names.take(k as int).filter(wpred).map_values(wv).push(wv(name@)));
                        }
                    }
                },
            }
            k = k + 1;
        }
        assert(names.take(self.pinned_names@.len() as int) =~= names);
        let is_valid = missing.len() == 0 && weakened.len() == 0;
        PinnedRuleCheck { is_valid, missing_rules: missing, weakened_rules: weakened }
    }

    /// The pinned names, in order.
    pub fn pinned_names(&self) -> (r: &Vec<&'static str>)
        ensures
            r@.map_values(|n: &'static str| n@) == self.spec_pinned(),
    {
        &self.pinned_names
    }

    pub fn pinned_count(&self) -> (r: usize)
        ensures
            r == self.spec_pinned().len(),
    {
        self.pinned_names.len()
    }
}

// ─── Synthesis cycles ────────────────────────────────────────────────────────

/// What the floating-point entropy comparison of a candidate with the
/// previous cycle decided.
#[derive(Debug, Clone)]
pub struct EntropyComparison {
    /// Table coverage fell by no more than the tolerance.
    pub coverage_ok: bool,
    /// Expressiveness fell by no more than the tolerance.
    pub expressiveness_ok: bool,
    /// If expressiveness fell by more than 0.05: the size of the fall, as
    /// text with three decimals.
    pub degradation: Option<String>,
}

/// The record of one synthesis cycle.
#[derive(Debug, Clone, Copy)]
pub struct CycleSnapshot {
    pub cycle_index: u64,
    pub rule_count: usize,
    pub hard_violations: usize,
    pub soft_violations: usize,
    pub accepted: bool,
}

/// The decision on one candidate, with its audit trail.
#[derive(Debug, Clone)]
pub struct CycleAcceptance {
    pub accepted: bool,
    /// `[name] reason` of each failed hard invariant.
    pub hard_violations: Vec<String>,
    /// `[name] reason` of each failed soft invariant.
    pub soft_violations: Vec<String>,
    pub pinned_check: PinnedRuleCheck,
    /// The fall in expressiveness, as text, if it fell by more than 0.05.
    pub expressiveness_degradation: Option<String>,
    pub cycle_index: u64,
}

/// `"text"`, as Debug prints a string that needs no escapes.
pub open spec fn quoted(t: Seq<char>) -> Seq<char> {
    "\""@ + t + "\""@
}

/// A list of strings as `["a", "b"]`.
pub open spec fn strings_text(ss: Seq<Seq<char>>) -> Seq<char> {
    "["@ + crate::text::joined(ss.map_values(|t: Seq<char>| quoted(t))) + "]"@
}

/// A weakening as Debug prints it.
pub open spec fn weakening_text(w: (Seq<char>, nat, nat)) -> Seq<char> {
    "PinnedWeakening { rule_name: "@ + quoted(w.0) + ", required_cells: "@ + decimal(w.1) + ", actual_cells: "@
        + decimal(w.2) + " }"@
}

/// A list of weakenings as `[PinnedWeakening { .. }, ..]`.
pub open spec fn weakenings_text(ws: Seq<(Seq<char>, nat, nat)>) -> Seq<char> {
    "["@ + crate::text::joined(ws.map_values(|w: (Seq<char>, nat, nat)| weakening_text(w))) + "]"@
}

/// The views of a pinned-rule check's weakenings.
pub open spec fn weakenings_view(ws: Seq<PinnedWeakening>) -> Seq<(Seq<char>, nat, nat)> {
    ws.map_values(|w: PinnedWeakening| (w.rule_name@, w.required_cells as nat, w.actual_cells as nat))
}

/// Why a candidate was rejected: its hard violations, then a missing or
/// weakened pinned rule, then a fall in expressiveness.
pub open spec fn rejection_reasons(a: CycleAcceptance) -> Seq<Seq<char>> {
    let hard = a.hard_violations@.map_values(|t: String| t@);
    let with_pinned = if a.pinned_check.is_valid {
        hard
    } else {
        hard.push("pinned rules missing: "@ + strings_text(a.pinned_check.missing_rules@.map_values(|t: String| t@))
            + ", weakened: "@ + weakenings_text(weakenings_view(a.pinned_check.weakened_rules@)))
    };
    match a.expressiveness_degradation {
        Some(d) => with_pinned.push("expressiveness degraded by "@ + d@),
        None => with_pinned,
    }
}

/// Append `"text"`.
fn push_quoted(s: &mut String, t: &str)
    ensures
        final(s)@ == old(s)@ + quoted(t@),
{
    s.append("\"");
    s.append(t);
    s.append("\"");
    assert(s@ =~= old(s)@ + quoted(t@));
}

/// Append a list of strings as `["a", "b"]`.
fn push_strings(s: &mut String, ss: &Vec<String>)
    ensures
        final(s)@ == old(s)@ + strings_text(ss@.map_values(|t: String| t@)),
{
    let ghost views = ss@.map_values(|t: String| t@);
    let ghost texts = views.map_values(|t: Seq<char>| quoted(t));
    let ghost start = s@;
    s.append("[");
    let mut k: usize = 0;
    while k < ss.len()
        invariant
            k <= ss@.len(),
            views == ss@.map_values(|t: String| t@),
            texts == views.map_values(|t: Seq<char>| quoted(t)),
            s@ == start + "["@ + crate::text::joined(texts.take(k as int)),
        decreases ss@.len() - k,
    {
        proof {
            crate::text::lemma_joined_take(texts, k as int);
        }
        if k > 0 {
            s.append(", ");
        }
        push_quoted(s, ss[k].as_str());
        proof {
            if k > 0 {
                assert(s@ =~= start + "["@ + (crate::text::joined(texts.take(k as int)) + ", "@ + texts[k as int]));
            } else {
                assert(s@ =~= start + "["@ + texts[0]);
            }
        }
        k = k + 1;
    }
    s.append("]");
    proof {
        assert(texts.take(ss@.len() as int) =~= texts);
        assert(s@ =~= start + strings_text(views));
    }
}

/// Append a list of weakenings as Debug prints it.
fn push_weakenings(s: &mut String, ws: &Vec<PinnedWeakening>)
    ensures
        final(s)@ == old(s)@ + weakenings_text(weakenings_view(ws@)),
{
    let ghost views = weakenings_view(ws@);
    let ghost texts = views.map_values(|w: (Seq<char>, nat, nat)| weakening_text(w));
    let ghost start = s@;
    s.append("[");
    let mut k: usize = 0;
    while k < ws.len()
        invariant
            k <= ws@.len(),
            views == weakenings_view(ws@),
            texts == views.map_values(|w: (Seq<char>, nat, nat)| weakening_text(w)),
            s@ == start + "["@ + crate::text::joined(texts.take(k as int)),
        decreases ws@.len() - k,
    {
        proof {
            crate::text::lemma_joined_take(texts, k as int);
        }
        if k > 0 {
            s.append(", ");
        }
        let ghost mid = s@;
        let w = &ws[k];
        s.append("PinnedWeakening { rule_name: ");
        push_quoted(s, w.rule_name.as_str());
        s.append(", required_cells: ");
        push_decimal(s, w.required_cells);
        s.append(", actual_cells: ");
        push_decimal(s, w.actual_cells);
        s.append(" }");
        proof {
            assert(s@ =~= mid + weakening_text(views[k as int]));
            if k > 0 {
                assert(s@ =~= start + "["@ + (crate::text::joined(texts.take(k as int)) + ", "@ + texts[k as int]));
            } else {
                assert(s@ =~= start + "["@ + texts[0]);
            }
        }
        k = k + 1;
    }
    s.append("]");
    proof {
        assert(texts.take(ws@.len() as int) =~= texts);
        assert(s@ =~= start + weakenings_text(views));
    }
}

impl CycleAcceptance {
    /// Why the candidate was rejected.
    pub fn reasons_for_rejection(&self) -> (r: Vec<String>)
        ensures
            r@.map_values(|t: String| t@) == rejection_reasons(*self),
    {
        let ghost sv = |t: String| t@;
        let mut reasons: Vec<String> = Vec::new();
        let mut k: usize = 0;
        while k < self.hard_violations.len()
            invariant
                k <= self.hard_violations@.len(),
                sv == (|t: String| t@),
                reasons@.map_values(sv) == self.hard_violations@.take(k as int).map_values(sv),
            decreases self.hard_violations@.len() - k,
        {
            let ghost before = reasons@;
            reasons.push(self.hard_violations[k].clone());
            proof {
                assert(reasons@.map_values(sv) =~= before.map_values(sv).push(self.hard_violations@[k as int]@));
                assert(self.hard_violations@.take(k + 1).map_values(sv) =~= self.hard_violations@.take(k as int).map_values(sv).push(self.hard_violations@[k as int]@));
            }
            k = k + 1;
        }
        assert(self.hard_violations@.take(self.hard_violations@.len() as int) =~= self.hard_violations@);
        if !self.pinned_check.is_valid {
            let mut t = String::from_str("pinned rules missing: ");
            push_strings(&mut t, &self.pinned_check.missing_rules);
            t.append(", weakened: ");
            push_weakenings(&mut t, &self.pinned_check.weakened_rules);
            let ghost before = reasons@;
            reasons.push(t);
            proof {
                assert(reasons@.map_values(sv) =~= before.map_values(sv).push(t@));
            }
        }
        match &self.expressiveness_degradation {
            Some(d) => {
                let mut t = String::from_str("expressiveness degraded by ");
                t.append(d.as_str());
                let ghost before = reasons@;
                reasons.push(t);
                proof {
                    assert(reasons@.map_values(sv) =~= before.map_values(sv).push(t@));
                }
            },
            None => {},
        }
        reasons
    }
}

/// `[name] reason` for a failing invariant.
pub open spec fn violation_text(i: AlgebraInvariant, rs: Seq<RuleView>, floor: Option<Seq<char>>) -> Seq<char> {
    "["@ + i.name@ + "] "@ + check_result(i.name@, rs, floor).unwrap()
}

/// Enforces the stability invariants across synthesis cycles.
pub struct SynthesisCycleGuard {
    pub invariants: Vec<AlgebraInvariant>,
    pinned: PinnedRuleSet,
    history: Vec<CycleSnapshot>,
}

impl SynthesisCycleGuard {
    /// The invariants checked each cycle.
    pub closed spec fn spec_invariants(&self) -> Seq<AlgebraInvariant> {
        self.invariants@
    }

    /// The pinned rule names.
    pub closed spec fn spec_pinned(&self) -> Seq<Seq<char>> {
        self.pinned.spec_pinned()
    }

    /// The recorded coverage of the pinned rules.
    pub closed spec fn spec_coverage(&self) -> Seq<(Seq<char>, nat)> {
        self.pinned.spec_coverage()
    }

    /// The cycles evaluated so far.
    pub closed spec fn spec_history(&self) -> Seq<CycleSnapshot> {
        self.history@
    }

    /// The standard invariants, the default pinned rules of the canonical
    /// rule set, and no history.
    pub fn new() -> (r: Self)
        ensures
            r.spec_invariants().map_values(|i: AlgebraInvariant| (i.name@, i.severity)) == standard_invariants_view(),
            r.spec_pinned() == default_pinned(),
            r.spec_coverage() == baseline(default_pinned(), canonical_rules_view()),
            r.spec_history().len() == 0,
    {
        SynthesisCycleGuard { invariants: standard_invariants(), pinned: PinnedRuleSet::from_canonical(), history: Vec::new() }
    }

    /// Evaluate a candidate for the next synthesis cycle: it is accepted when
    /// no hard invariant fails, every pinned rule survives unweakened, and
    /// the entropy comparison keeps coverage and expressiveness.
    pub fn evaluate(&mut self, candidate: &RuleSet, expression_floor: &InvariantResult, entropy: &EntropyComparison) -> (r: CycleAcceptance)
        requires
            old(self).spec_history().len() < u64::MAX,
        ensures
            final(self).spec_invariants() == old(self).spec_invariants(),
            final(self).spec_pinned() == old(self).spec_pinned(),
            final(self).spec_coverage() == old(self).spec_coverage(),
            r.cycle_index == old(self).spec_history().len() + 1,
            r.hard_violations@.map_values(|t: String| t@) == failing(old(self).spec_invariants(), candidate@, expression_floor@, InvariantSeverity::Hard)
                .map_values(|i: AlgebraInvariant| violation_text(i, candidate@, expression_floor@)),
            r.soft_violations@.map_values(|t: String| t@) == failing(old(self).spec_invariants(), candidate@, expression_floor@, InvariantSeverity::Soft)
                .map_values(|i: AlgebraInvariant| violation_text(i, candidate@, expression_floor@)),
            r.pinned_check.missing_rules@.map_values(|s: String| s@) == missing_names(old(self).spec_pinned(), candidate@),
            weakenings_view(r.pinned_check.weakened_rules@)
                == weakened_names(old(self).spec_pinned(), old(self).spec_coverage(), candidate@).map_values(
                |n: Seq<char>| weakening_view(old(self).spec_coverage(), candidate@, n)),
            r.pinned_check.is_valid == (missing_names(old(self).spec_pinned(), candidate@).len() == 0
                && weakened_names(old(self).spec_pinned(), old(self).spec_coverage(), candidate@).len() == 0),
            r.accepted == (r.hard_violations@.len() == 0 && r.pinned_check.is_valid && entropy.coverage_ok && entropy.expressiveness_ok),
            match (r.expressiveness_degradation, entropy.degradation) {
                (Some(a), Some(b)) => a@ == b@,
                (None, None) => true,
                _ => false,
            },
            final(self).spec_history() == old(self).spec_history().push(CycleSnapshot {
                cycle_index: r.cycle_index,
                rule_count: candidate@.len() as usize,
                hard_violations: r.hard_violations@.len() as usize,
                soft_violations: r.soft_violations@.len() as usize,
                accepted: r.accepted,
            }),
    {
        let cycle_index = self.history.len() as u64 + 1;
        let report = InvariantCheckReport::run(candidate, self.invariants.as_slice(), expression_floor);
        let ghost invs = self.invariants@;
        let ghost hard_pred = |i: AlgebraInvariant| i.severity == InvariantSeverity::Hard
            && check_result(i.name@, candidate@, expression_floor@) is Some;
        let ghost soft_pred = |i: AlgebraInvariant| i.severity == InvariantSeverity::Soft
            && check_result(i.name@, candidate@, expression_floor@) is Some;
        let ghost msg = |i: AlgebraInvariant| violation_text(i, candidate@, expression_floor@);
        let ghost sv = |t: String| t@;
        let mut hard: Vec<String> = Vec::new();
        let mut soft: Vec<String> = Vec::new();
        let mut k: usize = 0;
        while k < self.invariants.len()
            invariant
                k <= invs.len(),
                invs == self.invariants@,
                report.results@.len() == invs.len(),
                forall|j: int| 0 <= j < invs.len() ==> {
                    &&& (#[trigger] report.results@[j]).invariant_name@ == invs[j].name@
                    &&& report.results@[j].severity == invs[j].severity
                    &&& report.results@[j].result@ == check_result(invs[j].name@, candidate@, expression_floor@)
                },
                hard_pred == (|i: AlgebraInvariant| i.severity == InvariantSeverity::Hard
                    && check_result(i.name@, candidate@, expression_floor@) is Some),
                soft_pred == (|i: AlgebraInvariant| i.severity == InvariantSeverity::Soft
                    && check_result(i.name@, candidate@, expression_floor@) is Some),
                msg == (|i: AlgebraInvariant| violation_text(i, candidate@, expression_floor@)),
                sv == (|t: String| t@),
                hard@.map_values(sv) == invs.take(k as int).filter(hard_pred).map_values(msg),
                soft@.map_values(sv) == invs.take(k as int).filter(soft_pred).map_values(msg),
            decreases invs.len() - k,
        {
            proof {
                lemma_filter_take_succ(invs, k as int, hard_pred);
                lemma_filter_take_succ(invs, k as int, soft_pred);
            }
            let res = &report.results[k];
            match &res.result {
                InvariantResult::Failed { reason } => {
                    let mut t = String::from_str("[");
                    t.append(res.invariant_name.as_str());
                    t.append("] ");
                    t.append(reason.as_str());
                    proof {
                        assert(t@ =~= msg(invs[k as int]));
                    }
                    match res.severity {
                        InvariantSeverity::Hard => {
                            let ghost before = hard@;
                            hard.push(t);
                            proof {
                                assert(hard@.map_values(sv) =~= before.map_values(sv).push(msg(invs[k as int])));
                                assert(invs.take(k + 1).filter(hard_pred).map_values(msg) =~= invs.take(k as int).filter(hard_pred).map_values(msg).push(msg(invs[k as int])));
                            }
                        },
                        InvariantSeverity::Soft => {
                            let ghost before = soft@;
                            soft.push(t);
                            proof {
                                assert(soft@.map_values(sv) =~= before.map_values(sv).push(msg(invs[k as int])));
                                assert(invs.take(k + 1).filter(soft_pred).map_values(msg) =~= invs.take(k as int).filter(soft_pred).map_values(msg).push(msg(invs[k as int])));
                            }
                        },
                    }
                },
                InvariantResult::Passed => {},
            }
            k = k + 1;
        }
        assert(invs.take(invs.len() as int) =~= invs);
        let pinned_check = self.pinned.check_candidate(candidate);
        let accepted = hard.len() == 0 && pinned_check.is_valid && entropy.coverage_ok && entropy.expressiveness_ok;
        let degradation = match &entropy.degradation {
            Some(d) => Some(d.clone()),
            None => None,
        };
        let snapshot = CycleSnapshot {
            cycle_index,
            rule_count: candidate.rule_count(),
            hard_violations: hard.len(),
            soft_violations: soft.len(),
            accepted,
        };
        self.history.push(snapshot);
        CycleAcceptance {
            accepted,
            hard_violations: hard,
            soft_violations: soft,
            pinned_check,
            expressiveness_degradation: degradation,
            cycle_index,
        }
    }

    pub fn cycle_count(&self) -> (r: usize)
        ensures
            r == self.spec_history().len(),
    {
        self.history.len()
    }

    /// The number of accepted cycles.
    pub fn accepted_count(&self) -> (r: usize)
        ensures
            r == self.spec_history().filter(|s: CycleSnapshot| s.accepted).len(),
    {
        let ghost pred = |s: CycleSnapshot| s.accepted;
        let mut n: usize = 0;
        let mut k: usize = 0;
        while k < self.history.len()
            invariant
                k <= self.history@.len(),
                pred == (|s: CycleSnapshot| s.accepted),
                n == self.history@.take(k as int).filter(pred).len(),
                n <= k,
            decreases self.history@.len() - k,
        {
            proof {
                lemma_filter_take_succ(self.history@, k as int, pred);
            }
            if self.history[k].accepted {
                n = n + 1;
            }
            k = k + 1;
        }
        assert(self.history@.take(self.history@.len() as int) =~= self.history@);
        n
    }

    /// The cycles evaluated so far, oldest first.
    pub fn history(&self) -> (r: &Vec<CycleSnapshot>)
        ensures
            r@ == self.spec_history(),
    {
        &self.history
    }
}

} // verus!
