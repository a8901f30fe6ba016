use delphos::kernel_state::{kernel_delta, kernel_effects, transition_table, KernelEffect, KernelInputKind, KernelPhase, TransitionTableStats};

#[test]
fn delta_is_total_never_panics() {
    for phase in KernelPhase::all() {
        for input in KernelInputKind::all() {
            let result = kernel_delta(phase, input);
            let _ = result;
        }
    }
}

#[test]
fn undefined_transitions_go_to_faulted() {
    assert_eq!(kernel_delta(KernelPhase::Genesis, KernelInputKind::EventArrived), KernelPhase::Faulted);
    assert_eq!(kernel_delta(KernelPhase::Idle, KernelInputKind::AbiValid), KernelPhase::Faulted);
}

#[test]
fn delta_is_deterministic() {
    let cases = [
        (KernelPhase::Genesis, KernelInputKind::Initialize, KernelPhase::Bootstrapping),
        (KernelPhase::Idle, KernelInputKind::EventArrived, KernelPhase::ValidatingAbi),
        (KernelPhase::Faulted, KernelInputKind::EventArrived, KernelPhase::Faulted),
        (KernelPhase::Sealed, KernelInputKind::EventArrived, KernelPhase::Sealed),
    ];
    for (from, input, expected) in cases {
        for _ in 0..100 {
            assert_eq!(kernel_delta(from, input), expected);
        }
    }
}

#[test]
fn sealed_absorbs_all_inputs() {
    for input in KernelInputKind::all() {
        assert_eq!(kernel_delta(KernelPhase::Sealed, input), KernelPhase::Sealed, "Sealed must absorb {input:?}");
    }
}

#[test]
fn faulted_absorbs_non_recovery_inputs() {
    for input in KernelInputKind::all() {
        let result = kernel_delta(KernelPhase::Faulted, input);
        if input == KernelInputKind::RecoveryAttempted {
            assert_eq!(result, KernelPhase::Recovering);
        } else {
            assert_eq!(result, KernelPhase::Faulted, "Faulted must absorb {input:?}");
        }
    }
}

#[test]
fn processing_pipeline_order() {
    let happy_path = [
        (KernelPhase::Idle, KernelInputKind::EventArrived, KernelPhase::ValidatingAbi),
        (KernelPhase::ValidatingAbi, KernelInputKind::AbiValid, KernelPhase::ValidatingSchema),
        (KernelPhase::ValidatingSchema, KernelInputKind::SchemaValid, KernelPhase::ValidatingClock),
        (KernelPhase::ValidatingClock, KernelInputKind::ClockValid, KernelPhase::ValidatingCapability),
        (KernelPhase::ValidatingCapability, KernelInputKind::CapabilityGranted, KernelPhase::ValidatingCausal),
        (KernelPhase::ValidatingCausal, KernelInputKind::CausalValid, KernelPhase::Deciding),
        (KernelPhase::Deciding, KernelInputKind::DecisionAllow, KernelPhase::Applying),
        (KernelPhase::Applying, KernelInputKind::TransitionApplied, KernelPhase::Stamping),
        (KernelPhase::Stamping, KernelInputKind::ProjectionStamped, KernelPhase::Emitting),
        (KernelPhase::Emitting, KernelInputKind::EmitComplete, KernelPhase::Idle),
    ];
    for (from, input, expected) in happy_path {
        assert_eq!(kernel_delta(from, input), expected, "pipeline step {from:?} --{input:?}--> should be {expected:?}");
    }
}

#[test]
fn processing_pipeline_cycles_back_to_idle() {
    assert_eq!(kernel_delta(KernelPhase::Emitting, KernelInputKind::EmitComplete), KernelPhase::Idle);
    assert!(!KernelPhase::Idle.is_terminal());
}

#[test]
fn fault_from_any_processing_phase() {
    for phase in KernelPhase::all() {
        if !phase.is_terminal() && phase != KernelPhase::Genesis {
            let result = kernel_delta(phase, KernelInputKind::FaultDetected);
            assert_eq!(result, KernelPhase::Faulted, "FaultDetected from {phase:?} must → Faulted");
        }
    }
}

#[test]
fn replay_arc_complete() {
    assert_eq!(kernel_delta(KernelPhase::Idle, KernelInputKind::ReplayRequested), KernelPhase::ReplayPending);
    assert_eq!(kernel_delta(KernelPhase::ReplayPending, KernelInputKind::EventArrived), KernelPhase::Replaying);
    assert_eq!(kernel_delta(KernelPhase::Replaying, KernelInputKind::ReplayEventApplied), KernelPhase::Replaying);
    assert_eq!(kernel_delta(KernelPhase::Replaying, KernelInputKind::ReplayComplete), KernelPhase::VerifyingIdentity);
    assert_eq!(kernel_delta(KernelPhase::VerifyingIdentity, KernelInputKind::IdentityConfirmed), KernelPhase::Idle);
    assert_eq!(kernel_delta(KernelPhase::VerifyingIdentity, KernelInputKind::IdentityDiverged), KernelPhase::Faulted);
}

#[test]
fn recovery_arc() {
    assert_eq!(kernel_delta(KernelPhase::Applying, KernelInputKind::TransitionFailed), KernelPhase::Recovering);
    assert_eq!(kernel_delta(KernelPhase::Recovering, KernelInputKind::RecoverySucceeded), KernelPhase::Idle);
    assert_eq!(kernel_delta(KernelPhase::Recovering, KernelInputKind::FaultDetected), KernelPhase::Faulted);
}

#[test]
fn next_processing_phase_consistent() {
    let steps: &[(KernelPhase, KernelInputKind)] = &[
        (KernelPhase::Idle, KernelInputKind::EventArrived),
        (KernelPhase::ValidatingAbi, KernelInputKind::AbiValid),
        (KernelPhase::ValidatingSchema, KernelInputKind::SchemaValid),
        (KernelPhase::ValidatingClock, KernelInputKind::ClockValid),
        (KernelPhase::ValidatingCapability, KernelInputKind::CapabilityGranted),
        (KernelPhase::ValidatingCausal, KernelInputKind::CausalValid),
        (KernelPhase::Deciding, KernelInputKind::DecisionAllow),
        (KernelPhase::Applying, KernelInputKind::TransitionApplied),
        (KernelPhase::Stamping, KernelInputKind::ProjectionStamped),
        (KernelPhase::Emitting, KernelInputKind::EmitComplete),
    ];
    for &(phase, input) in steps {
        let from_table = kernel_delta(phase, input);
        let from_helper = phase.next_processing_phase().unwrap();
        assert_eq!(from_table, from_helper, "table and next_processing_phase must agree for {phase:?}");
    }
}

#[test]
fn transition_table_stats() {
    let stats = TransitionTableStats::compute();
    assert_eq!(stats.phase_count, KernelPhase::all().len());
    assert_eq!(stats.input_count, KernelInputKind::all().len());
    let total = stats.phase_count * stats.input_count;
    let pct = stats.defined_transitions as f64 / total as f64 * 100.0;
    println!("Transition table: {} phases × {} inputs = {} total, {} defined ({:.1}%)",
        stats.phase_count, stats.input_count, total, stats.defined_transitions, pct);
    assert!(stats.defined_transitions > 0);
}

#[test]
fn no_duplicate_table_entries() {
    let mut seen = std::collections::HashSet::new();
    for entry in transition_table() {
        let key = (entry.from, entry.on);
        assert!(seen.insert(key), "duplicate entry for ({:?}, {:?})", entry.from, entry.on);
    }
}

#[test]
fn table_has_forty_five_entries_and_stats_add_up() {
    assert_eq!(transition_table().len(), 45);
    let stats = TransitionTableStats::compute();
    assert_eq!(stats.defined_transitions + stats.undefined_transitions, 18 * 29);
}

#[test]
fn index_roundtrip_for_every_phase_and_input() {
    for p in KernelPhase::all() {
        assert_eq!(KernelPhase::from_index(p.index()), p);
    }
    for i in KernelInputKind::all() {
        assert_eq!(KernelInputKind::from_index(i.index()), i);
    }
    assert_eq!(KernelPhase::all().len(), 18);
    assert_eq!(KernelInputKind::all().len(), 29);
}

#[test]
fn effects_of_rejection_and_fault_name_the_phase() {
    let effects = kernel_effects(KernelPhase::ValidatingClock, KernelInputKind::ClockFailed);
    assert_eq!(effects, vec![KernelEffect::EventRejected("rejected at ValidatingClock".to_string())]);
    let effects = kernel_effects(KernelPhase::Deciding, KernelInputKind::FaultDetected);
    assert_eq!(effects, vec![KernelEffect::FaultRecorded("fault at Deciding".to_string())]);
    assert!(kernel_effects(KernelPhase::Genesis, KernelInputKind::EventArrived).is_empty());
    assert_eq!(kernel_effects(KernelPhase::Idle, KernelInputKind::SealRequested), vec![KernelEffect::Sealed]);
}
