use delphos::kernel_state::KernelPhase;
use delphos::pipeline::PipelineEvent;
use delphos::realm::{Realm, RealmSubmitResult, SubmitOutcome};
use delphos::realm_id::RealmId;
use delphos::realm_state::RealmState;
use delphos::transition::TransitionError;

fn kv_reducer(state: &RealmState, (key, val): (&str, &str)) -> Result<RealmState, TransitionError> {
    let mut next = state.clone().next_version(None, None);
    next.set_entity("kv", key, serde_json::Value::String(val.to_string()));
    Ok(next)
}

fn failing_reducer(_: &RealmState, _: (&str, &str)) -> Result<RealmState, TransitionError> {
    Err(TransitionError::CausalityViolation("refused".into()))
}

fn skipping_reducer(state: &RealmState, _: (&str, &str)) -> Result<RealmState, TransitionError> {
    let mut next = state.clone().next_version(None, None);
    next.version = next.version + 5;
    Ok(next)
}

fn event(id: &str, lamport: u64) -> PipelineEvent {
    let payload = serde_json::from_str(&format!("{{\"key\": \"{id}\"}}")).unwrap();
    PipelineEvent::new(id, "kv.set", RealmId::Telum, RealmId::Telum, lamport, payload)
}

fn submit(realm: &mut Realm, id: &str, lamport: u64, key: &'static str, val: &'static str) -> RealmSubmitResult {
    realm.submit_event(&event(id, lamport), kv_reducer, (key, val))
}

#[test]
fn realm_initializes_idle() {
    let r = Realm::open(RealmId::Telum, "test");
    assert_eq!(r.current_phase(), KernelPhase::Idle);
    assert_eq!(r.current_version(), 0);
    assert!(r.is_healthy());
}

#[test]
fn single_event_commits() {
    let mut r = Realm::open(RealmId::Telum, "test");
    let result = submit(&mut r, "e1", 1, "status", "active");
    assert!(result.outcome.is_committed(), "{:?}", result.outcome);
    assert_eq!(r.current_version(), 1);
    assert_eq!(r.ledger().len(), 1);
}

#[test]
fn three_events_sequential() {
    let mut r = Realm::open(RealmId::Telum, "test");
    for i in 1..=3u64 {
        let res = submit(&mut r, &format!("e{i}"), i, "k", "v");
        assert!(res.outcome.is_committed(), "e{i} must commit: {:?}", res.outcome);
    }
    assert_eq!(r.current_version(), 3);
    assert_eq!(r.ledger().len(), 3);
}

#[test]
fn consistency_invariants_hold() {
    let mut r = Realm::open(RealmId::Telum, "test");
    submit(&mut r, "e1", 1, "a", "1");
    submit(&mut r, "e2", 2, "b", "2");
    let proof = r.verify_consistency();
    assert!(proof.consistent, "violations: {:?}", proof.violations);
}

#[test]
fn chain_verification_valid_after_commits() {
    let mut r = Realm::open(RealmId::Telum, "test");
    for i in 1..=5u64 {
        submit(&mut r, &format!("e{i}"), i, "k", "v");
    }
    assert!(r.ledger().verify_chain().is_valid());
}

#[test]
fn realm_pipeline_rejects_duplicate_lamport() {
    let mut r = Realm::open(RealmId::Telum, "test");
    submit(&mut r, "e1", 10, "k", "v1");
    let result = submit(&mut r, "e2", 10, "k", "v2");
    assert!(result.outcome.is_rejected(), "{:?}", result.outcome);
    assert_eq!(r.current_version(), 1);
    assert_eq!(r.ledger().len(), 1);
}

#[test]
fn state_unchanged_after_rejection() {
    let mut r = Realm::open(RealmId::Telum, "test");
    submit(&mut r, "e1", 1, "status", "ok");
    let v_before = r.current_version();
    let tip_before = r.ledger().chain_tip().to_string();
    let dup = PipelineEvent::new("e1", "kv.set", RealmId::Telum, RealmId::Telum, 2, serde_json::from_str("{}").unwrap());
    let res = r.submit_event(&dup, kv_reducer, ("status", "broken"));
    assert!(res.outcome.is_rejected());
    assert_eq!(r.current_version(), v_before, "state must not change on rejection");
    assert_eq!(r.ledger().chain_tip(), tip_before, "ledger must not change on rejection");
}

#[test]
fn seal_blocks_further_events() {
    let mut r = Realm::open(RealmId::Telum, "test");
    submit(&mut r, "e1", 1, "k", "v");
    r.seal();
    assert!(r.ledger().sealed);
    assert_eq!(r.current_phase(), KernelPhase::Sealed);
}

#[test]
fn realm_returns_to_idle_after_each_event() {
    let mut r = Realm::open(RealmId::Telum, "test");
    for i in 1..=3u64 {
        submit(&mut r, &format!("e{i}"), i, "k", "v");
        assert_eq!(r.current_phase(), KernelPhase::Idle, "must return to Idle after event {i}");
    }
}

#[test]
fn rule_engine_verified_at_construction() {
    let _ = Realm::open(RealmId::Causa, "verify");
}

#[test]
fn rejection_reports_reason_phases_and_effects() {
    let mut r = Realm::open(RealmId::Telum, "test");
    submit(&mut r, "e1", 10, "k", "v1");
    let result = submit(&mut r, "e2", 10, "k", "v2");
    assert_eq!(result.outcome, SubmitOutcome::Rejected("clock violation in realm telum at lamport 10".into()));
    assert_eq!(result.phases_traversed, vec![KernelPhase::ValidatingAbi, KernelPhase::Idle]);
    assert_eq!(result.effects_emitted, vec!["EventRejected".to_string()]);
    assert_eq!(result.new_version, None);
    assert_eq!(r.reject_count(), 1);
    assert_eq!(r.submit_count(), 2);
    assert_eq!(r.current_phase(), KernelPhase::Idle);
}

#[test]
fn commit_reports_effects_and_version() {
    let mut r = Realm::open(RealmId::Telum, "test");
    let result = submit(&mut r, "e1", 1, "status", "active");
    assert_eq!(result.outcome, SubmitOutcome::Committed);
    assert_eq!(result.new_version, Some(1));
    assert_eq!(result.effects_emitted, vec!["EventAccepted { event_id: \"\" }".to_string()]);
    assert_eq!(result.event_id, "e1");
    assert_eq!(result.lamport, 1);
    assert_eq!(r.state().get_entity("kv", "status"), Some(&serde_json::Value::String("active".into())));
    assert_eq!(*result.phases_traversed.last().unwrap(), KernelPhase::Idle);
}

#[test]
fn failing_reducer_changes_nothing_and_recovers() {
    let mut r = Realm::open(RealmId::Telum, "test");
    let result = r.submit_event(&event("e1", 1), failing_reducer, ("k", "v"));
    assert_eq!(result.outcome, SubmitOutcome::Failed("causality violation: refused".into()));
    assert_eq!(result.effects_emitted, vec!["TransitionFailed".to_string()]);
    assert_eq!(r.current_version(), 0);
    assert_eq!(r.ledger().len(), 0);
    assert_eq!(r.current_phase(), KernelPhase::Idle);
    assert!(r.verify_consistency().consistent);
}

#[test]
fn invariant_breaking_reducer_faults_the_kernel() {
    let mut r = Realm::open(RealmId::Telum, "test");
    let result = r.submit_event(&event("e1", 1), skipping_reducer, ("k", "v"));
    assert_eq!(
        result.outcome,
        SubmitOutcome::Failed("transition record failed: causality violation: version not monotone: expected 1, got 6".into())
    );
    assert_eq!(r.current_version(), 0);
    assert_eq!(r.ledger().len(), 0);
    assert_eq!(r.current_phase(), KernelPhase::Faulted);
    assert!(!r.is_healthy());
}

#[test]
fn consistency_report_names_violations() {
    let mut r = Realm::open(RealmId::Telum, "test");
    submit(&mut r, "e1", 1, "k", "v");
    r.seal();
    let proof = r.verify_consistency();
    assert!(proof.consistent);
    assert_eq!(proof.ledger_len, 1);
    assert_eq!(proof.state_version, 1);
    assert!(proof.violations.is_empty());
}

#[test]
fn replay_identity_of_a_realm() {
    let mut r = Realm::open(RealmId::Telum, "test");
    submit(&mut r, "e1", 1, "a", "1");
    submit(&mut r, "e2", 2, "a", "2");
    let proof = r.verify_replay_identity(kv_reducer, |_, lamport, _| if lamport == 1 { ("a", "1") } else { ("a", "2") });
    assert!(proof.is_confirmed(), "{proof:?}");
    let proof = r.verify_replay_identity(kv_reducer, |_, _, _| ("a", "other"));
    assert!(proof.is_diverged());
    let proof = r.verify_replay_identity(failing_reducer, |_, _, _| ("a", "1"));
    match proof {
        delphos::state_transition::ReplayIdentityProof::Diverged { rebuilt_checksum, diverged_at_lamport, .. } => {
            assert_eq!(rebuilt_checksum, "REPLAY_FAILED");
            assert_eq!(diverged_at_lamport, Some(1));
        },
        other => panic!("expected divergence, got {other:?}"),
    }
}

#[test]
fn refused_ledger_append_changes_nothing() {
    let mut r = Realm::open(RealmId::Telum, "test");
    let first = submit(&mut r, "e1", 1, "k", "v");
    assert!(first.outcome.is_committed(), "{:?}", first.outcome);
    let checksum = r.state().checksum();
    r.seal();
    let result = submit(&mut r, "e2", 2, "k", "w");
    assert!(!result.outcome.is_committed());
    assert_eq!(result.new_version, None);
    assert_eq!(r.current_version(), 1);
    assert_eq!(r.state().checksum(), checksum);
    assert_eq!(r.ledger().len(), 1);
}

#[test]
fn committed_entry_keeps_the_payload() {
    let mut r = Realm::open(RealmId::Telum, "test");
    let ev = event("e1", 1);
    let result = r.submit_event(&ev, kv_reducer, ("k", "v"));
    assert!(result.outcome.is_committed());
    assert_eq!(r.ledger().entries()[0].payload, ev.payload);
}
