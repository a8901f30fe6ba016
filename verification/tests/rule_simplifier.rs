use delphos::algebra_stability::{standard_invariants, InvariantCheckReport, InvariantResult};
use delphos::constraint_algebra::{canonical_constraint_rules, ConstraintExpr, ConstraintRule, ConstraintTarget, RuleSet};
use delphos::kernel_state::{KernelInputKind, KernelPhase};
use delphos::rule_simplifier::{verify_canonical_is_minimal, RuleSimplifier, SimplificationOp, SimplificationResult};
use delphos::specification_entropy::{covered_cell_count, rule_coverages};
use std::collections::BTreeSet;

/// The development floor's Shannon condition: normalized entropy of the
/// coverage distribution at least 0.1.
fn shannon_ok(cov: &Vec<usize>) -> bool {
    let total: usize = cov.iter().sum();
    let h = if total > 0 {
        cov.iter()
            .filter(|&&c| c > 0)
            .map(|&c| {
                let p = c as f64 / total as f64;
                -p * p.log2()
            })
            .sum::<f64>()
    } else {
        0.0
    };
    let max = (cov.len() as f64).log2().max(1.0);
    (h / max).clamp(0.0, 1.0) >= 0.1
}

#[test]
fn canonical_is_minimal_no_removals() {
    let result = verify_canonical_is_minimal(&shannon_ok);
    assert_eq!(
        result.removed_count(),
        0,
        "canonical spec must have no removable rules: {:?}",
        result.ops.iter().filter(|o| matches!(o, SimplificationOp::Remove { .. })).collect::<Vec<_>>()
    );
}

#[test]
fn simplifier_preserves_invariants() {
    let rs = canonical_constraint_rules();
    let result = RuleSimplifier::new().simplify(rs, &shannon_ok);
    let invariants = standard_invariants();
    let report = InvariantCheckReport::run(&result.rule_set, &invariants, &InvariantResult::ok());
    assert!(report.all_hard_passed(), "simplified spec must pass all hard invariants");
}

#[test]
fn simplifier_converges_on_canonical() {
    let rs = canonical_constraint_rules();
    let result = RuleSimplifier::new().simplify(rs, &shannon_ok);
    assert!(result.converged, "must converge: {} iterations taken", result.iterations);
}

#[test]
fn removing_genuinely_redundant_rule_is_safe() {
    let mut rules = canonical_constraint_rules().rules;
    rules.push(ConstraintRule::new(
        "duplicate-genesis",
        ConstraintExpr::PhaseEq(KernelPhase::Genesis).and(ConstraintExpr::InputEq(KernelInputKind::Initialize)),
        ConstraintTarget::Phase(KernelPhase::Bootstrapping),
    ));
    let rs = RuleSet::new(rules);
    let before = rs.rule_count();
    let result = RuleSimplifier::new().simplify(rs, &shannon_ok);
    assert!(
        result.after_rule_count < before || result.removed_count() > 0 || result.merged_count() > 0,
        "duplicate rule must be simplified: before={before}, after={}",
        result.after_rule_count
    );
}

#[test]
fn simplifier_result_has_correct_rule_count() {
    let rs = canonical_constraint_rules();
    let n = rs.rule_count();
    let result = RuleSimplifier::new().simplify(rs, &shannon_ok);
    assert_eq!(result.before_rule_count, n);
    assert_eq!(result.after_rule_count, result.rule_set.rule_count());
}

#[test]
fn simplifier_audit_trail_is_consistent() {
    let rs = canonical_constraint_rules();
    let result = RuleSimplifier::new().simplify(rs, &shannon_ok);
    let canonical = canonical_constraint_rules();
    let original_names: BTreeSet<&str> = canonical.rules.iter().map(|r| r.name).collect();
    for op in &result.ops {
        match op {
            SimplificationOp::Remove { rule_name } => assert!(original_names.contains(rule_name.as_str()), "remove op references unknown rule: {rule_name}"),
            SimplificationOp::Merge { rule_a, rule_b, .. } => {
                assert!(original_names.contains(rule_a.as_str()) || rule_a.starts_with("merge:"), "merge source rule_a must be from original: {rule_a}");
                assert!(original_names.contains(rule_b.as_str()) || rule_b.starts_with("merge:"), "merge source rule_b must be from original: {rule_b}");
            }
            _ => {}
        }
    }
}

#[test]
fn unchanged_result_and_kinds() {
    let r = SimplificationResult::unchanged_from(canonical_constraint_rules());
    assert_eq!(r.before_rule_count, 19);
    assert_eq!(r.after_rule_count, 19);
    assert!(r.converged);
    assert_eq!(r.iterations, 0);
    assert_eq!(r.removed_count() + r.merged_count() + r.generalized_count(), 0);
    assert_eq!(SimplificationOp::Remove { rule_name: "x".into() }.kind(), "Remove");
    assert_eq!(SimplificationOp::Merge { rule_a: "a".into(), rule_b: "b".into(), result_name: "merge:a+b".into() }.kind(), "Merge");
}

#[test]
fn zero_iterations_do_nothing() {
    let mut s = RuleSimplifier::new();
    s.max_iterations = 0;
    let result = s.simplify(canonical_constraint_rules(), &shannon_ok);
    assert!(!result.converged);
    assert_eq!(result.iterations, 0);
    assert!(result.ops.is_empty());
    assert_eq!(result.after_rule_count, 19);
}

#[test]
fn duplicate_rule_is_merged_into_its_original() {
    let mut rules = canonical_constraint_rules().rules;
    rules.push(ConstraintRule::new(
        "duplicate-genesis",
        ConstraintExpr::PhaseEq(KernelPhase::Genesis).and(ConstraintExpr::InputEq(KernelInputKind::Initialize)),
        ConstraintTarget::Phase(KernelPhase::Bootstrapping),
    ));
    let result = RuleSimplifier::new().simplify(RuleSet::new(rules), &|_: &Vec<usize>| true);
    // Both copies are Redundant (each covers the other's only cell), so
    // removing both is refused; the pair is merged instead.
    assert!(
        result.ops.iter().any(|o| matches!(o, SimplificationOp::Merge { rule_a, rule_b, .. } if rule_a == "genesis-init" && rule_b == "duplicate-genesis")),
        "{:?}",
        result.ops
    );
    assert_eq!(result.removed_count(), 0);
}

#[test]
fn rejecting_gate_blocks_every_change() {
    let mut rules = canonical_constraint_rules().rules;
    rules.push(ConstraintRule::new("dup", ConstraintExpr::PhaseEq(KernelPhase::Sealed), ConstraintTarget::Phase(KernelPhase::Sealed)));
    let result = RuleSimplifier::new().simplify(RuleSet::new(rules), &|_: &Vec<usize>| false);
    assert!(result.ops.is_empty());
    assert!(result.converged);
    assert_eq!(result.iterations, 1);
    assert_eq!(result.after_rule_count, 20);
}

#[test]
fn coverages_of_canonical_rules() {
    let rs = canonical_constraint_rules();
    let cov = rule_coverages(&rs);
    assert_eq!(cov.len(), 19);
    assert_eq!(cov.iter().sum::<usize>(), covered_cell_count(&rs));
    assert!(covered_cell_count(&rs) <= 522);
}
