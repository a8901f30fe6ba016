use delphos::algebra_stability::{
    check_kernel_alignment, check_minimum_coverage, count_covered_entries, standard_invariants, AlgebraInvariant, EntropyComparison,
    InvariantCheckReport, InvariantResult, InvariantSeverity, PinnedRuleSet, SynthesisCycleGuard,
};
use delphos::constraint_algebra::{canonical_constraint_rules, RuleSet};

fn floor_ok() -> InvariantResult {
    InvariantResult::ok()
}

fn steady() -> EntropyComparison {
    EntropyComparison { coverage_ok: true, expressiveness_ok: true, degradation: None }
}

#[test]
fn canonical_passes_kernel_alignment() {
    let rs = canonical_constraint_rules();
    let inv = AlgebraInvariant { name: "kernel-alignment", severity: InvariantSeverity::Hard };
    assert!(inv.check(&rs, &floor_ok()).passed(), "canonical spec must be kernel-aligned");
}

#[test]
fn canonical_passes_pipeline_acyclic() {
    let rs = canonical_constraint_rules();
    let inv = AlgebraInvariant { name: "pipeline-acyclic", severity: InvariantSeverity::Hard };
    assert!(inv.check(&rs, &floor_ok()).passed(), "canonical spec must have acyclic pipeline");
}

#[test]
fn canonical_passes_no_conflicts() {
    let rs = canonical_constraint_rules();
    let inv = AlgebraInvariant { name: "no-conflicts", severity: InvariantSeverity::Hard };
    assert!(inv.check(&rs, &floor_ok()).passed(), "canonical spec must have no conflicts");
}

#[test]
fn canonical_passes_all_standard_invariants() {
    let rs = canonical_constraint_rules();
    let report = InvariantCheckReport::run(&rs, &standard_invariants(), &floor_ok());
    assert!(
        report.all_hard_passed(),
        "canonical spec must pass all hard invariants: {:?}",
        report.results.iter().filter(|r| r.result.failed()).map(|r| (&r.invariant_name, &r.result)).collect::<Vec<_>>()
    );
}

#[test]
fn canonical_has_all_pinned_rules() {
    let pinned = PinnedRuleSet::from_canonical();
    let check = pinned.check_candidate(&pinned.rule_set);
    assert!(check.is_valid, "canonical spec must satisfy its own pinned rules: {:?}", check);
}

#[test]
fn removing_pinned_rule_fails_check() {
    let pinned = PinnedRuleSet::from_canonical();
    let modified = RuleSet::new(canonical_constraint_rules().rules.into_iter().filter(|r| r.name != "universal-fault").collect());
    let check = pinned.check_candidate(&modified);
    assert!(!check.is_valid, "removing pinned rule must fail check");
    assert!(check.missing_rules.iter().any(|s| s == "universal-fault"));
}

#[test]
fn canonical_spec_accepted_by_guard() {
    let mut guard = SynthesisCycleGuard::new();
    let rs = canonical_constraint_rules();
    let acceptance = guard.evaluate(&rs, &floor_ok(), &steady());
    assert!(acceptance.accepted, "canonical spec must be accepted by cycle guard: {:?}", acceptance.reasons_for_rejection());
}

#[test]
fn empty_spec_rejected_by_guard() {
    let mut guard = SynthesisCycleGuard::new();
    let empty = RuleSet::new(vec![]);
    let acceptance = guard.evaluate(&empty, &floor_ok(), &steady());
    assert!(!acceptance.accepted, "empty spec must be rejected by cycle guard");
    assert!(!acceptance.hard_violations.is_empty());
}

#[test]
fn guard_tracks_history() {
    let mut guard = SynthesisCycleGuard::new();
    let rs = canonical_constraint_rules();
    for _ in 0..3 {
        guard.evaluate(&rs, &floor_ok(), &steady());
    }
    assert_eq!(guard.cycle_count(), 3);
    assert_eq!(guard.accepted_count(), guard.cycle_count());
}

#[test]
fn degraded_spec_eventually_rejected() {
    let mut guard = SynthesisCycleGuard::new();
    let rs = canonical_constraint_rules();
    let a1 = guard.evaluate(&rs, &floor_ok(), &steady());
    assert!(a1.accepted, "canonical must be accepted");
    let empty = RuleSet::new(vec![]);
    let fell = EntropyComparison { coverage_ok: false, expressiveness_ok: false, degradation: Some("1.000".to_string()) };
    let a2 = guard.evaluate(&empty, &InvariantResult::fail("too little".to_string()), &fell);
    assert!(!a2.accepted, "severely degraded spec must be rejected");
    assert_eq!(a2.cycle_index, 2);
    assert_eq!(guard.history().len(), 2);
}

#[test]
fn invariant_report_classifies_correctly() {
    let rs = canonical_constraint_rules();
    let report = InvariantCheckReport::run(&rs, &standard_invariants(), &floor_ok());
    assert_eq!(report.hard_violations, 0);
    assert!(report.is_acceptable);
    println!("Invariant report: {} hard, {} soft violations", report.hard_violations, report.soft_violations);
}

#[test]
fn empty_rule_set_fails_alignment_and_coverage() {
    let empty = RuleSet::new(vec![]);
    assert!(check_kernel_alignment(&empty).failed());
    assert!(check_minimum_coverage(&empty).failed());
    assert_eq!(count_covered_entries(&empty), 16);
    assert_eq!(count_covered_entries(&canonical_constraint_rules()), 45);
}

#[test]
fn rejection_reasons_list_violations_and_pinned_losses() {
    let mut guard = SynthesisCycleGuard::new();
    let modified = RuleSet::new(canonical_constraint_rules().rules.into_iter().filter(|r| r.name != "universal-fault").collect());
    let acceptance = guard.evaluate(&modified, &floor_ok(), &steady());
    assert!(!acceptance.accepted);
    let reasons = acceptance.reasons_for_rejection();
    assert!(reasons.iter().any(|r| r.contains("universal-fault")), "{reasons:?}");
}
