use delphos::constraint_algebra::{canonical_constraint_rules, ConstraintExpr, ConstraintRule, ConstraintTarget, RuleSet};
use delphos::counterfactual_competition::{active_domain, interference_candidates, unique_critical_coverage, verdict_kind, VerdictKind};
use delphos::semantic_weight::NecessityClass;
use delphos::kernel_state::{KernelInputKind, KernelPhase};
use delphos::semantic_growth::SemanticGrowthAnalyzer;

fn analyzer() -> SemanticGrowthAnalyzer {
    SemanticGrowthAnalyzer::new()
}

#[test]
fn canonical_spec_has_high_headroom() {
    let rs = canonical_constraint_rules();
    let h = analyzer().compute_headroom(&rs);
    let free_fraction = h.free_cells as f64 / h.total_cells as f64;
    assert!(free_fraction >= 0.50, "canonical spec must have >= 50% free cells: {:.1}%", free_fraction * 100.0);
    assert_eq!(h.total_cells, 18 * 29, "total cells must be |Q| × |Σ|");
}

#[test]
fn free_plus_claimed_plus_unresolved_equals_total() {
    let rs = canonical_constraint_rules();
    let h = analyzer().compute_headroom(&rs);
    let accounted = h.free_cells + h.claimed_cells + h.unresolved_table_cells;
    assert_eq!(accounted, h.total_cells);
}

#[test]
fn adding_over_generalized_rule_reduces_headroom() {
    let baseline = canonical_constraint_rules();
    let base_h = analyzer().compute_headroom(&baseline);
    let mut rules = baseline.rules.clone();
    rules.push(ConstraintRule::new(
        "over-generalize-test",
        ConstraintExpr::PhaseIn(vec![KernelPhase::Idle, KernelPhase::Genesis]),
        ConstraintTarget::Phase(KernelPhase::Faulted),
    ));
    let enlarged = RuleSet::new(rules);
    let enlarged_h = analyzer().compute_headroom(&enlarged);
    assert!(enlarged_h.free_cells < base_h.free_cells);
}

#[test]
fn canonical_growth_vector_is_non_empty() {
    let rs = canonical_constraint_rules();
    let v = analyzer().compute_growth_vector(&rs);
    assert!(!v.is_packed, "canonical spec must not be packed");
    assert!(v.max_new_exact_rules > 100);
}

#[test]
fn growth_vector_identifies_open_phase() {
    let rs = canonical_constraint_rules();
    let v = analyzer().compute_growth_vector(&rs);
    assert!(v.most_open_phase.is_some(), "must identify a phase with headroom");
}

#[test]
fn most_open_input_is_meaningful() {
    let rs = canonical_constraint_rules();
    let h = analyzer().compute_headroom(&rs);
    let most_open = h.most_open_input();
    assert!(most_open.is_some());
    let count = h.free_by_input.iter().find(|(i, _)| *i == most_open.unwrap()).unwrap().1;
    assert!(count >= 2, "most open input must have at least 2 free cells: {count}");
}

#[test]
fn phases_with_headroom_covers_multiple_phases() {
    let rs = canonical_constraint_rules();
    let h = analyzer().compute_headroom(&rs);
    let phases = h.phases_with_headroom();
    assert!(phases >= 5, "at least 5 phases must have headroom: {phases}");
}

#[test]
fn absorb_all_leaves_no_free_cells() {
    let all = RuleSet::new(vec![ConstraintRule::new("absorb-all", ConstraintExpr::True, ConstraintTarget::Phase(KernelPhase::Faulted))]);
    let h = analyzer().compute_headroom(&all);
    assert_eq!(h.free_cells, 0);
    assert_eq!(h.claimed_cells, 522);
    assert_eq!(h.unresolved_table_cells, 0);
    assert!(h.free_by_phase.is_empty());
    assert_eq!(h.most_open_phase(), None);
    let v = analyzer().compute_growth_vector(&all);
    assert!(v.is_packed);
    assert_eq!(v.total_growth_capacity, 0);
}

#[test]
fn empty_rule_set_headroom() {
    let h = analyzer().compute_headroom(&RuleSet::new(vec![]));
    assert_eq!(h.claimed_cells, 0);
    assert_eq!(h.table_cells, 45);
    assert_eq!(h.unresolved_table_cells, 45);
    assert_eq!(h.free_cells, 522 - 45);
    let per_phase: usize = h.free_by_phase.iter().map(|(_, n)| n).sum();
    let per_input: usize = h.free_by_input.iter().map(|(_, n)| n).sum();
    assert_eq!(per_phase, h.free_cells);
    assert_eq!(per_input, h.free_cells);
    assert_eq!(h.free_by_phase.len(), 18);
    assert_eq!(h.free_by_phase[0].0, KernelPhase::Genesis);
    assert_eq!(h.free_by_phase[0].1, 28);
}

#[test]
fn most_open_prefers_the_last_of_ties() {
    let rs = RuleSet::new(vec![ConstraintRule::new(
        "only-genesis-free",
        ConstraintExpr::Not(Box::new(ConstraintExpr::PhaseIn(vec![KernelPhase::Genesis, KernelPhase::Idle]))),
        ConstraintTarget::Self_,
    )]);
    let h = analyzer().compute_headroom(&rs);
    assert_eq!(h.free_by_phase.len(), 2);
    let genesis = h.free_by_phase[0].1;
    let idle = h.free_by_phase[1].1;
    let expected = if idle >= genesis { KernelPhase::Idle } else { KernelPhase::Genesis };
    assert_eq!(h.most_open_phase(), Some(expected));
    let expected_input = h.free_by_input.iter().max_by_key(|(_, n)| *n).map(|(i, _)| *i);
    assert_eq!(h.most_open_input(), expected_input);
}

#[test]
fn pipeline_advance_has_unique_critical_cells() {
    let rs = canonical_constraint_rules();
    let idx = rs.rules.iter().position(|r| r.name == "pipeline-advance").unwrap();
    let coverage = unique_critical_coverage(idx, &rs.rules);
    assert!(coverage.has_unique_cells(), "pipeline-advance must have unique critical cells");
    assert!(coverage.total_critical_cells > 0);
}

#[test]
fn all_canonical_rules_have_critical_cells() {
    let rs = canonical_constraint_rules();
    for (i, rule) in rs.rules.iter().enumerate() {
        let cov = unique_critical_coverage(i, &rs.rules);
        assert_eq!(cov.rule_name, rule.name);
        assert!(cov.unique_cells.len() <= cov.total_critical_cells);
    }
}

#[test]
fn shadowing_rule_is_always_higher_priority() {
    let rs = canonical_constraint_rules();
    for entry in &interference_candidates(&rs) {
        assert!(entry.shadowing_idx < entry.shadowed_idx);
        assert!(!entry.interfering_cells.is_empty());
        assert!(entry.interfering_cells.len() <= entry.shadowed_domain_size);
    }
}

#[test]
fn interference_of_two_overlapping_rules() {
    let rs = RuleSet::new(vec![
        ConstraintRule::new("a", ConstraintExpr::PhaseEq(KernelPhase::Idle), ConstraintTarget::Self_),
        ConstraintRule::new("b", ConstraintExpr::InputEq(KernelInputKind::EventArrived), ConstraintTarget::Self_),
        ConstraintRule::new("c", ConstraintExpr::PhaseEq(KernelPhase::Sealed), ConstraintTarget::Self_),
    ]);
    let found = interference_candidates(&rs);
    assert_eq!(found.len(), 2);
    assert_eq!(found[1].shadowing_rule, "b");
    assert_eq!(found[1].shadowed_rule, "c");
    assert_eq!(found[1].interfering_cells, vec![(KernelPhase::Sealed, KernelInputKind::EventArrived)]);
    assert_eq!(found[1].shadowed_domain_size, 29);
    assert_eq!(found[0].shadowing_rule, "a");
    assert_eq!(found[0].shadowed_rule, "b");
    assert_eq!(found[0].interfering_cells, vec![(KernelPhase::Idle, KernelInputKind::EventArrived)]);
    assert_eq!(found[0].shadowed_domain_size, 18);
    let active_b = active_domain(1, &rs.rules);
    assert_eq!(active_b.len(), 17);
    assert!(!active_b.contains(&(KernelPhase::Idle, KernelInputKind::EventArrived)));
}

#[test]
fn critical_necessity_always_preserved_by_verdict() {
    for &u in &[false, true] {
        for &h in &[false, true] {
            for &v in &[false, true] {
                for &c in &[false, true] {
                    assert_eq!(verdict_kind(NecessityClass::Critical, u, h, v, c), VerdictKind::Preserve);
                }
            }
        }
    }
}

#[test]
fn verdict_obsolete_needs_no_unique_cells_high_cost_and_no_causal_use() {
    assert_eq!(verdict_kind(NecessityClass::Redundant, false, true, false, true), VerdictKind::Obsolete);
    assert_eq!(verdict_kind(NecessityClass::Redundant, false, true, true, false), VerdictKind::Neutral);
    assert_eq!(verdict_kind(NecessityClass::Observational, false, false, false, true), VerdictKind::Neutral);
}

#[test]
fn verdict_weakened_and_preserve_for_unique_cells() {
    assert_eq!(verdict_kind(NecessityClass::Redundant, true, true, true, true), VerdictKind::Weakened);
    assert_eq!(verdict_kind(NecessityClass::Observational, true, true, false, true), VerdictKind::Preserve);
    assert_eq!(verdict_kind(NecessityClass::Observational, true, false, false, false), VerdictKind::Preserve);
}

#[test]
fn cell_shared_with_a_later_rule_is_not_unique() {
    let guard = || ConstraintExpr::PhaseEq(KernelPhase::Idle).and(ConstraintExpr::InputEq(KernelInputKind::EventArrived));
    let rules = vec![
        ConstraintRule::new("a", guard(), ConstraintTarget::Phase(KernelPhase::ValidatingAbi)),
        ConstraintRule::new("b", guard(), ConstraintTarget::Phase(KernelPhase::ValidatingAbi)),
    ];
    let u = unique_critical_coverage(0, &rules);
    assert_eq!(u.total_critical_cells, 1);
    assert!(u.unique_cells.is_empty());
    let rules = vec![
        ConstraintRule::new("a", guard(), ConstraintTarget::Phase(KernelPhase::ValidatingAbi)),
        ConstraintRule::new("b", guard(), ConstraintTarget::Phase(KernelPhase::Idle)),
    ];
    let u = unique_critical_coverage(0, &rules);
    assert_eq!(u.unique_cells.len(), 1);
}
