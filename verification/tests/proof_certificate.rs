use delphos::kernel_state::{KernelInputKind, KernelPhase};
use delphos::proof_certificate::{CertificateBuilder, ExecutionTrace, InvalidReason, ProofCheckResult, ProofChecker, TransitionCertificate};
use delphos::realm_id::RealmId;
use delphos::rule_engine::canonical_rules;

fn builder() -> CertificateBuilder {
    CertificateBuilder::new()
}

fn valid_cert(b: &mut CertificateBuilder, from: KernelPhase, input: KernelInputKind, to: KernelPhase) -> TransitionCertificate {
    b.build(from, input, to).expect(&format!("no rule for {from:?} --{input:?}--> {to:?}"))
}

#[test]
fn valid_cert_verifies() {
    let cert = builder().build(KernelPhase::Idle, KernelInputKind::EventArrived, KernelPhase::ValidatingAbi).unwrap();
    assert!(ProofChecker::verify_certificate(&cert));
}

#[test]
fn invalid_transition_has_no_cert() {
    let cert = builder().build(KernelPhase::Genesis, KernelInputKind::EventArrived, KernelPhase::ValidatingAbi);
    assert!(cert.is_none(), "invalid transition must not produce a certificate");
}

#[test]
fn tampered_cert_fails_verification() {
    let mut cert = builder().build(KernelPhase::Idle, KernelInputKind::EventArrived, KernelPhase::ValidatingAbi).unwrap();
    cert.to_phase = KernelPhase::Faulted;
    assert!(!ProofChecker::verify_certificate(&cert), "tampered certificate must fail verification");
}

#[test]
fn empty_trace_is_valid() {
    let trace = ExecutionTrace::new(RealmId::Telum, KernelPhase::Idle);
    assert!(ProofChecker::verify_trace(&trace).is_valid());
}

#[test]
fn valid_full_pipeline_trace() {
    let mut b = builder();
    let mut trace = ExecutionTrace::new(RealmId::Telum, KernelPhase::Idle);
    let steps = [
        (KernelPhase::Idle, KernelInputKind::EventArrived, KernelPhase::ValidatingAbi),
        (KernelPhase::ValidatingAbi, KernelInputKind::AbiValid, KernelPhase::ValidatingSchema),
        (KernelPhase::ValidatingSchema, KernelInputKind::SchemaValid, KernelPhase::ValidatingClock),
        (KernelPhase::ValidatingClock, KernelInputKind::ClockValid, KernelPhase::ValidatingCapability),
        (KernelPhase::ValidatingCapability, KernelInputKind::CapabilityGranted, KernelPhase::ValidatingCausal),
        (KernelPhase::ValidatingCausal, KernelInputKind::CausalValid, KernelPhase::Deciding),
        (KernelPhase::Deciding, KernelInputKind::DecisionAllow, KernelPhase::Applying),
        (KernelPhase::Applying, KernelInputKind::TransitionApplied, KernelPhase::Stamping),
        (KernelPhase::Stamping, KernelInputKind::ProjectionStamped, KernelPhase::Emitting),
        (KernelPhase::Emitting, KernelInputKind::EmitComplete, KernelPhase::Idle),
    ];
    for (from, input, to) in steps {
        trace.push(valid_cert(&mut b, from, input, to));
    }
    let result = ProofChecker::verify_trace(&trace);
    assert!(result.is_valid(), "full pipeline trace must verify: {:?}", result);
    assert_eq!(trace.final_phase(), KernelPhase::Idle);
}

#[test]
fn broken_chain_fails() {
    let mut b = builder();
    let mut trace = ExecutionTrace::new(RealmId::Telum, KernelPhase::Idle);
    trace.push(valid_cert(&mut b, KernelPhase::Idle, KernelInputKind::EventArrived, KernelPhase::ValidatingAbi));
    trace.push(valid_cert(&mut b, KernelPhase::Idle, KernelInputKind::EventArrived, KernelPhase::ValidatingAbi));
    let result = ProofChecker::verify_trace(&trace);
    assert!(!result.is_valid(), "broken chain must fail");
    assert!(matches!(result, ProofCheckResult::Invalid { reason: InvalidReason::ChainBroken { .. }, .. }));
}

#[test]
fn wrong_initial_phase_fails() {
    let mut b = builder();
    let mut trace = ExecutionTrace::new(RealmId::Telum, KernelPhase::Genesis);
    trace.push(valid_cert(&mut b, KernelPhase::Idle, KernelInputKind::EventArrived, KernelPhase::ValidatingAbi));
    let result = ProofChecker::verify_trace(&trace);
    assert!(matches!(result, ProofCheckResult::Invalid { reason: InvalidReason::WrongInitialPhase { .. }, .. }));
}

#[test]
fn rejection_arc_has_certificate() {
    let cert = builder().build(KernelPhase::ValidatingAbi, KernelInputKind::AbiFailed, KernelPhase::Idle).unwrap();
    assert!(ProofChecker::verify_certificate(&cert));
    assert_eq!(cert.to_phase, KernelPhase::Idle);
}

#[test]
fn fault_arc_has_certificate() {
    let cert = builder().build(KernelPhase::Deciding, KernelInputKind::FaultDetected, KernelPhase::Faulted).unwrap();
    assert!(ProofChecker::verify_certificate(&cert));
    assert_eq!(cert.to_phase, KernelPhase::Faulted);
}

#[test]
fn sealed_self_loop_has_certificate() {
    let cert = builder().build(KernelPhase::Sealed, KernelInputKind::EventArrived, KernelPhase::Sealed).unwrap();
    assert!(ProofChecker::verify_certificate(&cert));
}

#[test]
fn proof_checker_is_independent_of_kernel_machine() {
    let rules = canonical_rules();
    assert!(!rules.is_empty());
}

#[test]
fn replay_trace_verified() {
    let mut b = builder();
    let mut trace = ExecutionTrace::new(RealmId::Causa, KernelPhase::Idle);
    trace.push(valid_cert(&mut b, KernelPhase::Idle, KernelInputKind::ReplayRequested, KernelPhase::ReplayPending));
    trace.push(valid_cert(&mut b, KernelPhase::ReplayPending, KernelInputKind::EventArrived, KernelPhase::Replaying));
    trace.push(valid_cert(&mut b, KernelPhase::Replaying, KernelInputKind::ReplayEventApplied, KernelPhase::Replaying));
    trace.push(valid_cert(&mut b, KernelPhase::Replaying, KernelInputKind::ReplayComplete, KernelPhase::VerifyingIdentity));
    trace.push(valid_cert(&mut b, KernelPhase::VerifyingIdentity, KernelInputKind::IdentityConfirmed, KernelPhase::Idle));
    let result = ProofChecker::verify_trace(&trace);
    assert!(result.is_valid());
    assert_eq!(trace.final_phase(), KernelPhase::Idle);
}

#[test]
fn sequence_numbers_advance_and_lamport_is_stamped() {
    let mut b = builder();
    b.set_lamport(7);
    let c1 = valid_cert(&mut b, KernelPhase::Idle, KernelInputKind::EventArrived, KernelPhase::ValidatingAbi);
    let c2 = valid_cert(&mut b, KernelPhase::ValidatingAbi, KernelInputKind::AbiValid, KernelPhase::ValidatingSchema);
    assert_eq!(c1.seq, 1);
    assert_eq!(c2.seq, 2);
    assert_eq!(c1.lamport, 7);
    assert!(c1.proof.verify());
}

#[test]
fn non_monotone_sequence_is_rejected() {
    let mut b = builder();
    let c1 = valid_cert(&mut b, KernelPhase::Idle, KernelInputKind::EventArrived, KernelPhase::ValidatingAbi);
    let mut c2 = valid_cert(&mut b, KernelPhase::ValidatingAbi, KernelInputKind::AbiValid, KernelPhase::ValidatingSchema);
    c2.seq = c1.seq;
    let mut trace = ExecutionTrace::new(RealmId::Telum, KernelPhase::Idle);
    trace.push(c1);
    trace.push(c2);
    let result = ProofChecker::verify_trace(&trace);
    assert!(matches!(result, ProofCheckResult::Invalid { at_step: 1, reason: InvalidReason::NonMonotoneSeq { prev_seq: 1, next_seq: 1 } }));
}

#[test]
fn trace_counts_faults_and_phases() {
    let mut b = builder();
    let mut trace = ExecutionTrace::new(RealmId::Telum, KernelPhase::Idle);
    trace.push(valid_cert(&mut b, KernelPhase::Idle, KernelInputKind::EventArrived, KernelPhase::ValidatingAbi));
    trace.push(valid_cert(&mut b, KernelPhase::ValidatingAbi, KernelInputKind::FaultDetected, KernelPhase::Faulted));
    assert_eq!(trace.len(), 2);
    assert_eq!(trace.fault_count(), 1);
    assert_eq!(trace.phases_visited(), vec![KernelPhase::Idle, KernelPhase::ValidatingAbi, KernelPhase::Faulted]);
    assert!(ProofChecker::verify_trace(&trace).is_valid());
}
