use delphos::kernel_state::{kernel_delta, transition_table, KernelInputKind, KernelPhase};
use delphos::rule_engine::{canonical_rules, RuleEngine};

fn engine() -> RuleEngine {
    RuleEngine::new()
}

#[test]
fn verification_passes() {
    let e = engine();
    let report = e.verify();
    assert!(report.is_ok(), "rule engine verification failed:\n  conflicts: {:?}\n  missing: {:?}", report.conflicts, report.missing_from_rules);
}

#[test]
fn no_rule_conflicts() {
    let report = engine().verify();
    assert!(report.conflicts.is_empty(), "conflicting rules: {:?}", report.conflicts);
}

#[test]
fn all_table_entries_covered() {
    let report = engine().verify();
    assert!(report.missing_from_rules.is_empty(), "table entries not covered by rules: {:?}", report.missing_from_rules);
}

#[test]
fn rules_are_compressed() {
    let e = engine();
    let total_cells = KernelPhase::all().len() * KernelInputKind::all().len();
    let table_len = transition_table().len();
    assert!(e.rule_count() < table_len, "rules ({}) should be fewer than explicit table entries ({})", e.rule_count(), table_len);
    let ratio = e.synthesized_entry_count() as f64 / e.rule_count() as f64;
    println!("Compression: {} rules cover {} explicit entries ({} total cells, {:.1}× ratio)", e.rule_count(), table_len, total_cells, ratio);
}

#[test]
fn synthesized_delta_matches_explicit_delta() {
    let e = engine();
    let cases = [
        (KernelPhase::Idle, KernelInputKind::EventArrived, KernelPhase::ValidatingAbi),
        (KernelPhase::ValidatingAbi, KernelInputKind::AbiValid, KernelPhase::ValidatingSchema),
        (KernelPhase::ValidatingClock, KernelInputKind::ClockFailed, KernelPhase::Idle),
        (KernelPhase::Deciding, KernelInputKind::DecisionAllow, KernelPhase::Applying),
        (KernelPhase::Emitting, KernelInputKind::EmitComplete, KernelPhase::Idle),
        (KernelPhase::Sealed, KernelInputKind::EventArrived, KernelPhase::Sealed),
        (KernelPhase::Faulted, KernelInputKind::EventArrived, KernelPhase::Faulted),
        (KernelPhase::Faulted, KernelInputKind::RecoveryAttempted, KernelPhase::Recovering),
    ];
    for (from, input, expected) in cases {
        let from_rules = e.delta(from, input);
        let from_table = kernel_delta(from, input);
        assert_eq!(from_rules, expected, "rules: {from:?} --{input:?}-->");
        assert_eq!(from_table, expected, "table: {from:?} --{input:?}-->");
        assert_eq!(from_rules, from_table, "rules and table must agree");
    }
}

#[test]
fn delta_is_total_via_rules() {
    let e = engine();
    for phase in KernelPhase::all() {
        for input in KernelInputKind::all() {
            let _ = e.delta(phase, input);
        }
    }
}

#[test]
fn rejection_rule_covers_all_validation_phases() {
    let e = engine();
    let failure_cases = [
        (KernelPhase::ValidatingAbi, KernelInputKind::AbiFailed),
        (KernelPhase::ValidatingSchema, KernelInputKind::SchemaFailed),
        (KernelPhase::ValidatingClock, KernelInputKind::ClockFailed),
        (KernelPhase::ValidatingCapability, KernelInputKind::CapabilityDenied),
        (KernelPhase::ValidatingCausal, KernelInputKind::CausalFailed),
        (KernelPhase::Deciding, KernelInputKind::DecisionReject),
    ];
    for (phase, input) in failure_cases {
        let result = e.delta(phase, input);
        assert_eq!(result, KernelPhase::Idle, "rejection from {phase:?} --{input:?}--> must go to Idle, got {result:?}");
    }
}

#[test]
fn rule_engine_delta_agrees_with_table_everywhere() {
    let e = engine();
    for phase in KernelPhase::all() {
        for input in KernelInputKind::all() {
            assert_eq!(e.delta(phase, input), kernel_delta(phase, input));
        }
    }
    assert_eq!(e.rule_count(), canonical_rules().len());
    let report = e.verify();
    assert_eq!(report.explicit_table_entries, 45);
    assert!(report.table_consistent);
}
