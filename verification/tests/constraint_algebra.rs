use delphos::constraint_algebra::{canonical_constraint_rules, ConstraintExpr, ConstraintRule, ConstraintTarget, RuleSet};
use delphos::kernel_state::{kernel_delta, transition_table, KernelInputKind, KernelPhase};

fn ruleset() -> RuleSet {
    canonical_constraint_rules()
}

#[test]
fn true_is_tautology() {
    assert!(ConstraintExpr::True.is_tautology());
}

#[test]
fn false_is_contradiction() {
    assert!(ConstraintExpr::False.is_contradiction());
}

#[test]
fn phase_eq_and_not_is_contradiction() {
    let e = ConstraintExpr::PhaseEq(KernelPhase::Idle).and(ConstraintExpr::PhaseEq(KernelPhase::Idle).negate());
    assert!(e.is_contradiction());
}

#[test]
fn terminal_subsumes_sealed() {
    let terminal = ConstraintExpr::PhaseIsTerminal;
    let sealed = ConstraintExpr::PhaseEq(KernelPhase::Sealed);
    assert!(terminal.subsumes(&sealed));
    assert!(!sealed.subsumes(&terminal));
}

#[test]
fn processing_subsumption() {
    let processing = ConstraintExpr::PhaseIsProcessing;
    let idle = ConstraintExpr::PhaseEq(KernelPhase::Idle);
    assert!(!processing.subsumes(&idle));
}

#[test]
fn cardinality_makes_sense() {
    let c = ConstraintExpr::PhaseEq(KernelPhase::Idle).cardinality();
    assert_eq!(c, KernelInputKind::all().len());
    let c = ConstraintExpr::InputEq(KernelInputKind::FaultDetected).cardinality();
    assert_eq!(c, KernelPhase::all().len());
    assert_eq!(ConstraintExpr::True.cardinality(), KernelPhase::all().len() * KernelInputKind::all().len());
}

#[test]
fn extension_intersection() {
    let a = ConstraintExpr::PhaseEq(KernelPhase::Idle);
    let b = ConstraintExpr::InputEq(KernelInputKind::EventArrived);
    let intersection = a.and(b).cardinality();
    assert_eq!(intersection, 1);
}

#[test]
fn constraint_ruleset_is_consistent() {
    let report = ruleset().verify_consistency();
    assert!(
        report.is_consistent,
        "constraint rule set has conflicts:\n{}",
        report
            .conflicts
            .iter()
            .map(|c| format!("  {} vs {}: {:?}", c.rule_a, c.rule_b, c.conflicting_cells))
            .collect::<Vec<_>>()
            .join("\n")
    );
}

#[test]
fn pipeline_is_acyclic() {
    let proof = ruleset().prove_pipeline_acyclic();
    assert!(proof.is_acyclic, "processing pipeline has cycles: {:?}", proof.cycles);
    println!("All {} processing phases are forward-only", proof.forward_only_phases.len());
}

#[test]
fn constraint_delta_matches_kernel_delta() {
    let rs = ruleset();
    let cases = [
        (KernelPhase::Genesis, KernelInputKind::Initialize, KernelPhase::Bootstrapping),
        (KernelPhase::Idle, KernelInputKind::EventArrived, KernelPhase::ValidatingAbi),
        (KernelPhase::ValidatingAbi, KernelInputKind::AbiValid, KernelPhase::ValidatingSchema),
        (KernelPhase::ValidatingAbi, KernelInputKind::AbiFailed, KernelPhase::Idle),
        (KernelPhase::Deciding, KernelInputKind::DecisionAllow, KernelPhase::Applying),
        (KernelPhase::Applying, KernelInputKind::TransitionFailed, KernelPhase::Recovering),
        (KernelPhase::Emitting, KernelInputKind::EmitComplete, KernelPhase::Idle),
        (KernelPhase::Sealed, KernelInputKind::EventArrived, KernelPhase::Sealed),
        (KernelPhase::Faulted, KernelInputKind::RecoveryAttempted, KernelPhase::Recovering),
        (KernelPhase::VerifyingIdentity, KernelInputKind::IdentityDiverged, KernelPhase::Faulted),
    ];
    for (from, input, expected) in cases {
        let from_constraints = rs.delta(from, input);
        let from_kernel = kernel_delta(from, input);
        assert_eq!(from_constraints, expected, "constraint δ({from:?}, {input:?}) = {from_constraints:?}, expected {expected:?}");
        assert_eq!(from_kernel, expected, "kernel δ({from:?}, {input:?}) = {from_kernel:?}, expected {expected:?}");
    }
}

#[test]
fn fault_rule_covers_all_non_terminal_phases() {
    let rs = ruleset();
    for phase in KernelPhase::all() {
        if !phase.is_terminal() && phase != KernelPhase::Genesis {
            let target = rs.delta(phase, KernelInputKind::FaultDetected);
            assert_eq!(target, KernelPhase::Faulted, "universal-fault rule must cover {phase:?}");
        }
    }
}

#[test]
fn delta_is_total_via_constraints() {
    let rs = ruleset();
    for phase in KernelPhase::all() {
        for input in KernelInputKind::all() {
            let _ = rs.delta(phase, input);
        }
    }
}

#[test]
fn rule_count_less_than_table_entries() {
    let rs = ruleset();
    let explicit_count = transition_table().len();
    assert!(rs.rule_count() < explicit_count, "constraint rules ({}) should be fewer than explicit entries ({})", rs.rule_count(), explicit_count);
}

#[test]
fn subsumption_detected() {
    let universal = ConstraintRule::new(
        "universal-fault",
        ConstraintExpr::PhaseIsTerminal.negate().and(ConstraintExpr::InputEq(KernelInputKind::FaultDetected)),
        ConstraintTarget::Phase(KernelPhase::Faulted),
    );
    let specific = ConstraintRule::new(
        "specific-fault",
        ConstraintExpr::PhaseEq(KernelPhase::Idle).and(ConstraintExpr::InputEq(KernelInputKind::FaultDetected)),
        ConstraintTarget::Phase(KernelPhase::Faulted),
    );
    assert!(universal.subsumes_guard_of(&specific), "universal-fault must subsume specific-fault");
    assert!(!specific.subsumes_guard_of(&universal), "specific-fault must NOT subsume universal-fault");
}

#[test]
fn constraint_delta_agrees_with_kernel_on_every_cell() {
    let rs = ruleset();
    for phase in KernelPhase::all() {
        for input in KernelInputKind::all() {
            assert_eq!(rs.delta(phase, input), kernel_delta(phase, input), "{phase:?} {input:?}");
        }
    }
}

#[test]
fn or_and_negation_cardinalities() {
    let idle = ConstraintExpr::PhaseEq(KernelPhase::Idle);
    let sealed = ConstraintExpr::PhaseEq(KernelPhase::Sealed);
    assert_eq!(idle.clone().or(sealed).cardinality(), 58);
    assert_eq!(idle.negate().cardinality(), 522 - 29);
    assert_eq!(ConstraintExpr::False.cardinality(), 0);
}

#[test]
fn conflicting_rules_are_reported() {
    let a = ConstraintRule::new("a", ConstraintExpr::PhaseEq(KernelPhase::Idle), ConstraintTarget::Phase(KernelPhase::Sealed));
    let b = ConstraintRule::new("b", ConstraintExpr::InputEq(KernelInputKind::EventArrived), ConstraintTarget::Phase(KernelPhase::Faulted));
    let cells = a.conflicts_with(&b);
    assert_eq!(cells, vec![(KernelPhase::Idle, KernelInputKind::EventArrived)]);
    let report = RuleSet::new(vec![a, b]).verify_consistency();
    assert!(!report.is_consistent);
    assert_eq!(report.conflicts.len(), 1);
    assert_eq!(report.conflicts[0].rule_a, "a");
    assert_eq!(report.conflicts[0].rule_b, "b");
}

#[test]
fn stay_target_resolves_to_current_phase() {
    assert_eq!(ConstraintTarget::Self_.resolve(KernelPhase::Replaying), KernelPhase::Replaying);
    assert_eq!(ConstraintTarget::Phase(KernelPhase::Idle).resolve(KernelPhase::Replaying), KernelPhase::Idle);
    assert_eq!(ConstraintTarget::NextInPipeline.resolve(KernelPhase::Deciding), KernelPhase::Applying);
    assert_eq!(ConstraintTarget::NextInPipeline.resolve(KernelPhase::Sealed), KernelPhase::Faulted);
}
