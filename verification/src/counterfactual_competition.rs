//! Rules in competition: the domain a rule actually decides (its active
//! domain), the cells where an earlier rule shadows a later one, and the
//! table cells only one rule decides. The pressures and ratios built from
//! these counts, and the verdicts that weigh them, are floating-point and
//! are computed by the caller.

use vstd::prelude::*;
use crate::cells::{all_cells, cell, lemma_filter_take_succ, Cell};
use crate::constraint_algebra::{ConstraintRule, RuleSet, RuleView};
use crate::counterfactual::{cell_in_table, in_table, is_active, prior_views, CounterfactualAnalyzer};
use crate::kernel_state::{KernelInputKind, KernelPhase, NUM_CELLS};
use crate::semantic_weight::NecessityClass;

verus! {

// ─── Specifications ──────────────────────────────────────────────────────────

/// The views of a list of rules.
pub open spec fn views(rules: Seq<ConstraintRule>) -> Seq<RuleView> {
    rules.map_values(|r: ConstraintRule| r@)
}

/// The rule decides the cell: it fires there and no earlier rule does.
pub open spec fn active_pred(rules: Seq<RuleView>, idx: int) -> spec_fn(Cell) -> bool {
    |c: Cell| is_active(rules[idx], rules.take(idx), c)
}

/// The cells rule `idx` decides, in phase-major order.
pub open spec fn active_domain_of(rules: Seq<RuleView>, idx: int) -> Seq<Cell> {
    all_cells().filter(active_pred(rules, idx))
}

/// The first rule from `k` on, other than rule `idx`, that fires on the
/// cell.
pub open spec fn first_other_from(rules: Seq<RuleView>, idx: int, k: int, p: KernelPhase, i: KernelInputKind) -> Option<int>
    decreases rules.len() - k,
{
    if k < 0 || k >= rules.len() {
        None
    } else if k != idx && rules[k].fires(p, i) {
        Some(k)
    } else {
        first_other_from(rules, idx, k + 1, p, i)
    }
}

/// What the cell resolves to once rule `idx` is removed: the target of the
/// first remaining rule that fires there, or `Faulted` if none does.
pub open spec fn fallback_target(rules: Seq<RuleView>, idx: int, c: Cell) -> KernelPhase {
    match first_other_from(rules, idx, 0, c.0, c.1) {
        Some(m) => rules[m].target.spec_resolve(c.0),
        None => KernelPhase::Faulted,
    }
}

/// A table cell rule `idx` decides.
pub open spec fn critical_pred(rules: Seq<RuleView>, idx: int) -> spec_fn(Cell) -> bool {
    |c: Cell| is_active(rules[idx], rules.take(idx), c) && in_table(c)
}

/// A table cell rule `idx` decides whose outcome changes without it.
pub open spec fn unique_pred(rules: Seq<RuleView>, idx: int) -> spec_fn(Cell) -> bool {
    |c: Cell|
        is_active(rules[idx], rules.take(idx), c) && in_table(c) && fallback_target(rules, idx, c) != rules[idx].target.spec_resolve(
            c.0,
        )
}

/// The cells where rule `j` fires among those where rule `i` fires.
pub open spec fn shadowed_cells(rules: Seq<RuleView>, j: int, i: int) -> Seq<Cell> {
    rules[i].guard.extension().filter(rules[j].guard.holds())
}

/// The pairs (j, i), j < i, where rule `j` fires on some cell rule `i` fires
/// on, in order of `i`, then `j`, enumerated from (j, i) on.
pub open spec fn shadow_pairs_from(rules: Seq<RuleView>, i: int, j: int) -> Seq<(int, int)>
    decreases rules.len() - i, i - j,
{
    if i < 0 || i >= rules.len() {
        Seq::empty()
    } else if j >= i {
        shadow_pairs_from(rules, i + 1, 0)
    } else if j < 0 {
        Seq::empty()
    } else {
        (if shadowed_cells(rules, j, i).len() > 0 {
            seq![(j, i)]
        } else {
            Seq::empty()
        }) + shadow_pairs_from(rules, i, j + 1)
    }
}

// ─── Results ─────────────────────────────────────────────────────────────────

/// A higher-priority rule shadowing part of a later rule's domain.
#[derive(Debug, Clone)]
pub struct DomainInterference {
    /// The earlier rule, which fires first.
    pub shadowing_rule: String,
    pub shadowing_idx: usize,
    /// The later rule, whose effective domain shrinks.
    pub shadowed_rule: String,
    pub shadowed_idx: usize,
    /// Cells where both fire.
    pub interfering_cells: Vec<Cell>,
    /// How many cells the shadowed rule fires on; the pressure is
    /// `interfering_cells.len() / shadowed_domain_size`.
    pub shadowed_domain_size: usize,
}

/// Does the interference record describe the pair (j, i)?
pub open spec fn describes(d: DomainInterference, rules: Seq<RuleView>, pair: (int, int)) -> bool {
    &&& d.shadowing_idx == pair.0
    &&& d.shadowed_idx == pair.1
    &&& d.shadowing_rule@ == rules[pair.0].name
    &&& d.shadowed_rule@ == rules[pair.1].name
    &&& d.interfering_cells@ == shadowed_cells(rules, pair.0, pair.1)
    &&& d.shadowed_domain_size == rules[pair.1].guard.extension().len()
}

/// The table cells a rule decides, and those only it decides.
#[derive(Debug, Clone)]
pub struct UniqueCriticalCoverage {
    pub rule_name: String,
    /// Table cells whose outcome changes if the rule is removed.
    pub unique_cells: Vec<Cell>,
    /// Table cells in the rule's active domain.
    pub total_critical_cells: usize,
}

impl UniqueCriticalCoverage {
    pub fn has_unique_cells(&self) -> (r: bool)
        ensures
            r == (self.unique_cells@.len() > 0),
    {
        self.unique_cells.len() > 0
    }
}

// ─── Computations ────────────────────────────────────────────────────────────

/// The index of the first rule of the list, other than rule `skip`, that
/// fires on the cell.
fn first_other_firing(all_rules: &[ConstraintRule], skip: usize, phase: KernelPhase, input: KernelInputKind) -> (r: Option<usize>)
    ensures
        match r {
            Some(k) => k < all_rules@.len() && first_other_from(views(all_rules@), skip as int, 0, phase, input) == Some(k as int),
            None => first_other_from(views(all_rules@), skip as int, 0, phase, input) is None,
        },
{
    let ghost v = views(all_rules@);
    let mut k: usize = 0;
    while k < all_rules.len()
        invariant
            k <= all_rules@.len(),
            v == views(all_rules@),
            v.len() == all_rules@.len(),
            first_other_from(v, skip as int, 0, phase, input) == first_other_from(v, skip as int, k as int, phase, input),
        decreases all_rules@.len() - k,
    {
        assert(v[k as int] == all_rules@[k as int]@);
        if k != skip && all_rules[k].guard.eval(phase, input) {
            return Some(k);
        }
        k = k + 1;
    }
    None
}

/// The cells rule `rule_idx` decides: it fires and no earlier rule does.
pub fn active_domain(rule_idx: usize, all_rules: &[ConstraintRule]) -> (r: Vec<Cell>)
    requires
        rule_idx < all_rules@.len(),
    ensures
        r@ == active_domain_of(views(all_rules@), rule_idx as int),
{
    let ghost v = views(all_rules@);
    let ghost pred = active_pred(v, rule_idx as int);
    proof {
        assert(prior_views(all_rules@, rule_idx as int) =~= v.take(rule_idx as int));
    }
    let mut out: Vec<Cell> = Vec::new();
    let mut c: usize = 0;
    while c < NUM_CELLS
        invariant
            c <= NUM_CELLS,
            rule_idx < all_rules@.len(),
            v == views(all_rules@),
            v[rule_idx as int] == all_rules@[rule_idx as int]@,
            prior_views(all_rules@, rule_idx as int) == v.take(rule_idx as int),
            pred == active_pred(v, rule_idx as int),
            out@ == all_cells().take(c as int).filter(pred),
        decreases NUM_CELLS - c,
    {
        proof {
            lemma_filter_take_succ(all_cells(), c as int, pred);
        }
        let (p, i) = cell(c);
        if CounterfactualAnalyzer::is_active_cell(&all_rules[rule_idx], all_rules, rule_idx, p, i) {
            out.push((p, i));
        }
        c = c + 1;
    }
    proof {
        assert(all_cells().take(NUM_CELLS as int) =~= all_cells());
    }
    out
}

/// Every pair of rules where the earlier one fires on cells the later one
/// fires on, with those cells and the later rule's domain size, ordered by
/// the later rule, then the earlier.
pub fn interference_candidates(rule_set: &RuleSet) -> (r: Vec<DomainInterference>)
    ensures
        r@.len() == shadow_pairs_from(rule_set@, 0, 0).len(),
        forall|k: int| 0 <= k < r@.len() ==> describes(#[trigger] r@[k], rule_set@, shadow_pairs_from(rule_set@, 0, 0)[k]),
{
    let n = rule_set.rules.len();
    let ghost v = rule_set@;
    let ghost total = shadow_pairs_from(v, 0, 0);
    let ghost mut gp: Seq<(int, int)> = Seq::empty();
    let mut result: Vec<DomainInterference> = Vec::new();
    let mut i: usize = 0;
    proof {
        assert(gp + shadow_pairs_from(v, 0, 0) =~= total);
    }
    while i < n
        invariant
            n == rule_set.rules@.len(),
            v == rule_set@,
            v.len() == n,
            total == shadow_pairs_from(v, 0, 0),
            i <= n,
            gp + shadow_pairs_from(v, i as int, 0) == total,
            result@.len() == gp.len(),
            forall|k: int| 0 <= k < gp.len() ==> describes(#[trigger] result@[k], v, gp[k]),
        decreases n - i,
    {
        assert(v[i as int] == rule_set.rules@[i as int]@);
        let natural = rule_set.rules[i].guard.extension();
        let mut j: usize = 0;
        while j < i
            invariant
                n == rule_set.rules@.len(),
                v == rule_set@,
                v.len() == n,
                total == shadow_pairs_from(v, 0, 0),
                i < n,
                j <= i,
                v[i as int] == rule_set.rules@[i as int]@,
                natural@ == v[i as int].guard.extension(),
                gp + shadow_pairs_from(v, i as int, j as int) == total,
                result@.len() == gp.len(),
                forall|k: int| 0 <= k < gp.len() ==> describes(#[trigger] result@[k], v, gp[k]),
            decreases i - j,
        {
            assert(v[j as int] == rule_set.rules@[j as int]@);
            let ghost pred = v[j as int].guard.holds();
            let mut cells: Vec<Cell> = Vec::new();
            let mut m: usize = 0;
            while m < natural.len()
                invariant
                    m <= natural@.len(),
                    j < n,
                    n == rule_set.rules@.len(),
                    v.len() == n,
                    v[j as int] == rule_set.rules@[j as int]@,
                    pred == v[j as int].guard.holds(),
                    cells@ == natural@.take(m as int).filter(pred),
                decreases natural@.len() - m,
            {
                proof {
                    lemma_filter_take_succ(natural@, m as int, pred);
                }
                let (p, q) = natural[m];
                if rule_set.rules[j].guard.eval(p, q) {
                    cells.push((p, q));
                }
                m = m + 1;
            }
            proof {
                assert(natural@.take(natural@.len() as int) =~= natural@);
            }
            let ghost rest = shadow_pairs_from(v, i as int, j + 1);
            if cells.len() > 0 {
                let ghost old_gp = gp;
                let mut shadowing = String::new();
                shadowing.append(rule_set.rules[j].name);
                let mut shadowed = String::new();
                shadowed.append(rule_set.rules[i].name);
                result.push(DomainInterference {
                    shadowing_rule: shadowing,
                    shadowing_idx: j,
                    shadowed_rule: shadowed,
                    shadowed_idx: i,
                    interfering_cells: cells,
                    shadowed_domain_size: natural.len(),
                });
                proof {
                    gp = gp.push((j as int, i as int));
                    assert(shadow_pairs_from(v, i as int, j as int) == seq![(j as int, i as int)] + rest);
                    assert(old_gp + (seq![(j as int, i as int)] + rest) =~= gp + rest);
                }
            } else {
                proof {
                    assert(shadow_pairs_from(v, i as int, j as int) == Seq::<(int, int)>::empty() + rest);
                    assert(Seq::<(int, int)>::empty() + rest =~= rest);
                }
            }
            j = j + 1;
        }
        assert(shadow_pairs_from(v, i as int, i as int) == shadow_pairs_from(v, i + 1, 0));
        i = i + 1;
    }
    assert(shadow_pairs_from(v, n as int, 0) == Seq::<(int, int)>::empty());
    assert(gp =~= total);
    result
}

/// The table cells rule `rule_idx` decides, and those whose outcome changes
/// without it (the fallback differs from its target).
pub fn unique_critical_coverage(rule_idx: usize, all_rules: &[ConstraintRule]) -> (r: UniqueCriticalCoverage)
    requires
        rule_idx < all_rules@.len(),
    ensures
        r.rule_name@ == all_rules@[rule_idx as int]@.name,
        r.total_critical_cells == all_cells().filter(critical_pred(views(all_rules@), rule_idx as int)).len(),
        r.unique_cells@ == all_cells().filter(unique_pred(views(all_rules@), rule_idx as int)),
{
    let ghost v = views(all_rules@);
    let ghost crit = critical_pred(v, rule_idx as int);
    let ghost uniq = unique_pred(v, rule_idx as int);
    let rule = &all_rules[rule_idx];
    proof {
        assert(prior_views(all_rules@, rule_idx as int) =~= v.take(rule_idx as int));
        assert(v[rule_idx as int] == rule@);
    }
    let mut total: usize = 0;
    let mut unique: Vec<Cell> = Vec::new();
    let mut c: usize = 0;
    while c < NUM_CELLS
        invariant
            c <= NUM_CELLS,
            rule_idx < all_rules@.len(),
            rule == &all_rules@[rule_idx as int],
            v == views(all_rules@),
            v[rule_idx as int] == rule@,
            prior_views(all_rules@, rule_idx as int) == v.take(rule_idx as int),
            crit == critical_pred(v, rule_idx as int),
            uniq == unique_pred(v, rule_idx as int),
            total == all_cells().take(c as int).filter(crit).len(),
            total <= c,
            unique@ == all_cells().take(c as int).filter(uniq),
        decreases NUM_CELLS - c,
    {
        proof {
            lemma_filter_take_succ(all_cells(), c as int, crit);
            lemma_filter_take_succ(all_cells(), c as int, uniq);
        }
        let (p, i) = cell(c);
        if CounterfactualAnalyzer::is_active_cell(rule, all_rules, rule_idx, p, i) && cell_in_table(p, i) {
            total = total + 1;
            let this_target = rule.target.resolve(p);
            let fallback = match first_other_firing(all_rules, rule_idx, p, i) {
                Some(m) => {
                    assert(v[m as int] == all_rules@[m as int]@);
                    all_rules[m].target.resolve(p)
                },
                None => KernelPhase::Faulted,
            };
            if fallback != this_target {
                unique.push((p, i));
            }
        }
        c = c + 1;
    }
    proof {
        assert(all_cells().take(NUM_CELLS as int) =~= all_cells());
    }
    let mut name = String::new();
    name.append(rule.name);
    UniqueCriticalCoverage { rule_name: name, unique_cells: unique, total_critical_cells: total }
}

// ─── Verdicts ────────────────────────────────────────────────────────────────

/// The competition layer's verdict on a rule, without the costs it carries.
#[derive(Debug, Clone, Copy, PartialEq, Eq, Structural)]
pub enum VerdictKind {
    /// The rule has table cells only it decides: it must stay.
    Preserve,
    /// The rule has such cells but blocks much else: split it.
    Weakened,
    /// The rule has no such cells and blocks others: remove it.
    Obsolete,
    /// Neither: other measures decide.
    Neutral,
}

/// The verdict on a rule of the given necessity class, from whether it has
/// unique table cells, whether its opportunity cost reaches the obsolete and
/// the weakened thresholds, and whether its causal importance is negligible
/// (below 0.01). A critical rule is always preserved.
pub open spec fn spec_verdict_kind(
    necessity: NecessityClass,
    has_unique: bool,
    high_cost: bool,
    very_high_cost: bool,
    causal_negligible: bool,
) -> VerdictKind {
    if necessity == NecessityClass::Critical {
        VerdictKind::Preserve
    } else if !has_unique && high_cost && causal_negligible {
        VerdictKind::Obsolete
    } else if has_unique && high_cost && very_high_cost {
        VerdictKind::Weakened
    } else if has_unique {
        VerdictKind::Preserve
    } else {
        VerdictKind::Neutral
    }
}

/// Decides the verdict on a rule. The three floating-point comparisons (the
/// opportunity cost against the obsolete and weakened thresholds, the causal
/// importance against 0.01) are made by the caller, which measures them.
pub fn verdict_kind(
    necessity: NecessityClass,
    has_unique: bool,
    high_cost: bool,
    very_high_cost: bool,
    causal_negligible: bool,
) -> (r: VerdictKind)
    ensures
        r == spec_verdict_kind(necessity, has_unique, high_cost, very_high_cost, causal_negligible),
{
    if necessity == NecessityClass::Critical {
        return VerdictKind::Preserve;
    }
    if !has_unique && high_cost && causal_negligible {
        VerdictKind::Obsolete
    } else if has_unique && high_cost && very_high_cost {
        VerdictKind::Weakened
    } else if has_unique {
        VerdictKind::Preserve
    } else {
        VerdictKind::Neutral
    }
}

/// The competition layer never overrides criticality: a critical rule is
/// preserved; and a rule with table cells only it decides is never judged
/// obsolete.
pub proof fn lemma_competition_keeps_critical(
    necessity: NecessityClass,
    has_unique: bool,
    high_cost: bool,
    very_high_cost: bool,
    causal_negligible: bool,
)
    ensures
        necessity == NecessityClass::Critical ==> spec_verdict_kind(
            necessity,
            has_unique,
            high_cost,
            very_high_cost,
            causal_negligible,
        ) == VerdictKind::Preserve,
        has_unique ==> spec_verdict_kind(necessity, has_unique, high_cost, very_high_cost, causal_negligible)
            != VerdictKind::Obsolete,
{
}

} // verus!
