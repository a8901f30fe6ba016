use delphos::effect_contract::{lambda, EffectVerifier, EffectViolation, EffectViolationKind, KernelEffectIsolated};
use delphos::kernel_state::{KernelInputKind, KernelPhase};

#[test]
fn lambda_satisfies_all_contracts() {
    let result = EffectVerifier::verify_lambda();
    assert!(result.is_ok(), "λ contract violations:\n{}", result.unwrap_err().iter().map(|v| v.to_string()).collect::<Vec<_>>().join("\n"));
}

#[test]
fn lambda_is_deterministic() {
    assert!(EffectVerifier::verify_determinism(), "λ is non-deterministic: same (phase, input) produced different outputs");
}

#[test]
fn lambda_carries_no_runtime_data() {
    fn requires_copy<T: Copy>(_: T) {}
    requires_copy(KernelEffectIsolated::EventAccepted);
    requires_copy(KernelEffectIsolated::KernelReady);
    requires_copy(KernelEffectIsolated::Sealed);
}

#[test]
fn rejection_at_each_validation_phase() {
    let cases = [
        (KernelPhase::ValidatingAbi, KernelInputKind::AbiFailed),
        (KernelPhase::ValidatingSchema, KernelInputKind::SchemaFailed),
        (KernelPhase::ValidatingClock, KernelInputKind::ClockFailed),
        (KernelPhase::ValidatingCapability, KernelInputKind::CapabilityDenied),
        (KernelPhase::ValidatingCausal, KernelInputKind::CausalFailed),
        (KernelPhase::Deciding, KernelInputKind::DecisionReject),
    ];
    for (phase, input) in cases {
        let effects = lambda(phase, input);
        assert!(effects.iter().any(|e| matches!(e, KernelEffectIsolated::EventRejected { .. })), "λ({phase:?}, {input:?}) must produce EventRejected");
        assert!(!effects.iter().any(|e| *e == KernelEffectIsolated::EventAccepted), "λ({phase:?}, {input:?}) must not produce EventAccepted");
    }
}

#[test]
fn emit_complete_produces_accepted() {
    let effects = lambda(KernelPhase::Emitting, KernelInputKind::EmitComplete);
    assert!(effects.contains(&KernelEffectIsolated::EventAccepted));
    assert!(!effects.iter().any(|e| matches!(e, KernelEffectIsolated::EventRejected { .. })));
}

#[test]
fn divergence_produces_violation_effect() {
    let effects = lambda(KernelPhase::VerifyingIdentity, KernelInputKind::IdentityDiverged);
    assert!(effects.iter().any(|e| matches!(e, KernelEffectIsolated::DeterminismViolation { .. })));
    assert!(!effects.contains(&KernelEffectIsolated::IdentityConfirmed));
}

#[test]
fn fault_recorded_at_every_non_terminal_phase() {
    for phase in KernelPhase::all() {
        if !phase.is_terminal() && phase != KernelPhase::Genesis {
            let effects = lambda(phase, KernelInputKind::FaultDetected);
            assert!(effects.iter().any(|e| matches!(e, KernelEffectIsolated::FaultRecorded { .. })), "λ({phase:?}, I::FaultDetected) must produce FaultRecorded");
        }
    }
}

#[test]
fn application_visible_effects() {
    assert!(KernelEffectIsolated::EventAccepted.is_application_visible());
    assert!(KernelEffectIsolated::EventRejected { at_phase: KernelPhase::Idle }.is_application_visible());
    assert!(!KernelEffectIsolated::KernelReady.is_application_visible());
}

#[test]
fn violation_message_names_cell_and_effect() {
    let v = EffectViolation {
        phase: KernelPhase::Emitting,
        input: KernelInputKind::EmitComplete,
        kind: EffectViolationKind::RequiredMissing(KernelEffectIsolated::EventAccepted),
    };
    assert_eq!(v.to_string(), "λ(Emitting, EmitComplete) contract violated: required effect missing: EventAccepted");
    let w = EffectViolation {
        phase: KernelPhase::Deciding,
        input: KernelInputKind::DecisionReject,
        kind: EffectViolationKind::ForbiddenPresent(KernelEffectIsolated::EventAccepted),
    };
    assert_eq!(w.to_string(), "λ(Deciding, DecisionReject) contract violated: forbidden effect present: EventAccepted");
}

#[test]
fn error_effects_and_names() {
    assert!(KernelEffectIsolated::FaultRecorded { at_phase: KernelPhase::Idle }.is_error());
    assert!(KernelEffectIsolated::DeterminismViolation { at_phase: KernelPhase::VerifyingIdentity }.is_error());
    assert!(!KernelEffectIsolated::EventAccepted.is_error());
    assert_eq!(KernelEffectIsolated::Recovered.as_str(), "Recovered");
    assert_eq!(EffectVerifier::contracts().len() > 0, true);
    assert!(lambda(KernelPhase::Genesis, KernelInputKind::EventArrived).is_empty());
}
