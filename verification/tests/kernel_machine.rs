use delphos::kernel_machine::{KernelFaultKind, KernelInitError, KernelMachine};
use delphos::kernel_state::{KernelInputKind, KernelPhase, TransitionTableStats};
use delphos::realm_id::RealmId;

fn initialized_machine() -> KernelMachine {
    let mut m = KernelMachine::new(RealmId::Telum);
    m.initialize().unwrap();
    m
}

#[test]
fn initialize_reaches_idle() {
    let mut m = KernelMachine::new(RealmId::Telum);
    assert_eq!(m.phase, KernelPhase::Genesis);
    m.initialize().unwrap();
    assert_eq!(m.phase, KernelPhase::Idle);
    assert!(m.is_healthy());
}

#[test]
fn double_initialize_fails() {
    let mut m = KernelMachine::new(RealmId::Telum);
    m.initialize().unwrap();
    assert!(m.initialize().is_err());
}

#[test]
fn happy_path_returns_to_idle() {
    let mut m = initialized_machine();
    m.simulate_happy_path_event();
    assert_eq!(m.phase, KernelPhase::Idle, "full happy path must end at Idle");
}

#[test]
fn happy_path_visits_all_pipeline_phases() {
    let mut m = initialized_machine();
    m.simulate_happy_path_event();
    let phases = m.phases_visited();
    let required = [
        KernelPhase::ValidatingAbi,
        KernelPhase::ValidatingSchema,
        KernelPhase::ValidatingClock,
        KernelPhase::ValidatingCapability,
        KernelPhase::ValidatingCausal,
        KernelPhase::Deciding,
        KernelPhase::Applying,
        KernelPhase::Stamping,
        KernelPhase::Emitting,
    ];
    for phase in required {
        assert!(phases.contains(&phase), "happy path must visit {phase:?}");
    }
}

#[test]
fn abi_failure_returns_to_idle() {
    let mut m = initialized_machine();
    m.step(KernelInputKind::EventArrived);
    assert_eq!(m.phase, KernelPhase::ValidatingAbi);
    m.step(KernelInputKind::AbiFailed);
    assert_eq!(m.phase, KernelPhase::Idle);
}

#[test]
fn capability_denied_returns_to_idle() {
    let mut m = initialized_machine();
    m.run(&[
        KernelInputKind::EventArrived,
        KernelInputKind::AbiValid,
        KernelInputKind::SchemaValid,
        KernelInputKind::ClockValid,
        KernelInputKind::CapabilityDenied,
    ]);
    assert_eq!(m.phase, KernelPhase::Idle);
}

#[test]
fn fault_from_processing_phase() {
    let mut m = initialized_machine();
    m.step(KernelInputKind::EventArrived);
    m.step(KernelInputKind::FaultDetected);
    assert_eq!(m.phase, KernelPhase::Faulted);
    assert!(!m.is_healthy());
    assert_eq!(m.fault_count(), 1);
}

#[test]
fn faulted_absorbs_all_normal_inputs() {
    let mut m = initialized_machine();
    m.step(KernelInputKind::FaultDetected);
    assert_eq!(m.phase, KernelPhase::Faulted);
    m.step(KernelInputKind::EventArrived);
    m.step(KernelInputKind::AbiValid);
    assert_eq!(m.phase, KernelPhase::Faulted);
}

#[test]
fn recovery_path() {
    let mut m = initialized_machine();
    m.step(KernelInputKind::FaultDetected);
    assert_eq!(m.phase, KernelPhase::Faulted);
    m.step(KernelInputKind::RecoveryAttempted);
    assert_eq!(m.phase, KernelPhase::Recovering);
    m.step(KernelInputKind::RecoverySucceeded);
    assert_eq!(m.phase, KernelPhase::Idle);
    assert!(m.is_healthy());
}

#[test]
fn replay_confirms_identity() {
    let mut m = initialized_machine();
    m.step(KernelInputKind::ReplayRequested);
    m.step(KernelInputKind::EventArrived);
    for _ in 0..5 {
        m.step(KernelInputKind::ReplayEventApplied);
    }
    m.step(KernelInputKind::ReplayComplete);
    assert_eq!(m.phase, KernelPhase::VerifyingIdentity);
    m.step(KernelInputKind::IdentityConfirmed);
    assert_eq!(m.phase, KernelPhase::Idle);
}

#[test]
fn replay_diverged_faults_kernel() {
    let mut m = initialized_machine();
    m.step(KernelInputKind::ReplayRequested);
    m.step(KernelInputKind::EventArrived);
    m.step(KernelInputKind::ReplayComplete);
    m.step(KernelInputKind::IdentityDiverged);
    assert_eq!(m.phase, KernelPhase::Faulted);
}

#[test]
fn seal_is_terminal() {
    let mut m = initialized_machine();
    m.step(KernelInputKind::SealRequested);
    assert_eq!(m.phase, KernelPhase::Sealed);
    assert!(m.is_sealed());
    m.step(KernelInputKind::EventArrived);
    assert_eq!(m.phase, KernelPhase::Sealed);
}

#[test]
fn invalid_transition_goes_to_faulted_and_records() {
    let mut m = initialized_machine();
    let (phase, _effects) = m.step(KernelInputKind::AbiValid);
    assert_eq!(phase, KernelPhase::Faulted);
    assert!(!m.invalid_transitions().is_empty());
}

#[test]
fn history_is_append_only() {
    let mut m = initialized_machine();
    m.simulate_happy_path_event();
    let len_before = m.history_len();
    m.simulate_happy_path_event();
    let len_after = m.history_len();
    assert!(len_after > len_before, "history must grow");
    let seqs: Vec<u64> = m.history().iter().map(|r| r.seq).collect();
    for w in seqs.windows(2) {
        assert!(w[1] > w[0], "seq must be monotone");
    }
}

#[test]
fn three_events_processed_sequentially() {
    let mut m = initialized_machine();
    for _ in 0..3 {
        m.simulate_happy_path_event();
        assert_eq!(m.phase, KernelPhase::Idle, "must return to Idle after each event");
    }
}

#[test]
fn transition_table_is_consistent() {
    let stats = TransitionTableStats::compute();
    assert!(stats.phase_count > 0);
    assert!(stats.input_count > 0);
    let coverage = stats.defined_transitions as f64 / (stats.phase_count * stats.input_count) as f64 * 100.0;
    assert!(coverage > 0.0);
}

#[test]
fn counters_follow_accepted_and_rejected_events() {
    let mut m = initialized_machine();
    m.simulate_happy_path_event();
    m.simulate_happy_path_event();
    m.run(&[KernelInputKind::EventArrived, KernelInputKind::AbiFailed]);
    assert_eq!(m.processed_count(), 2);
    assert_eq!(m.rejected_count(), 1);
    assert_eq!(m.history_len(), 2 + 10 + 10 + 2);
    assert_eq!(m.fault_count(), 0);
}

#[test]
fn invalid_step_records_an_invalid_transition_fault() {
    let mut m = initialized_machine();
    m.step(KernelInputKind::AbiValid);
    assert_eq!(m.fault_count(), 1);
    assert_eq!(m.faults[0].kind, KernelFaultKind::InvalidTransition);
    assert_eq!(m.faults[0].phase_at_fault, KernelPhase::Idle);
    assert_eq!(m.faults[0].id.len(), 36);
    assert_eq!(&m.faults[0].id[14..15], "4");
    assert!(m.is_faulted());
}

#[test]
fn initialize_error_names_the_phase() {
    let mut m = initialized_machine();
    assert_eq!(m.initialize(), Err(KernelInitError::AlreadyInitialized { current: KernelPhase::Idle }));
}

#[test]
fn recovery_clears_active_faults() {
    let mut m = initialized_machine();
    m.step(KernelInputKind::FaultDetected);
    assert_eq!(m.fault_count(), 1);
    m.step(KernelInputKind::RecoveryAttempted);
    assert_eq!(m.fault_count(), 1);
    m.step(KernelInputKind::RecoverySucceeded);
    assert_eq!(m.phase, KernelPhase::Idle);
    assert_eq!(m.fault_count(), 0);
}
