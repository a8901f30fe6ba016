use delphos::realm_id::RealmId;
use delphos::realm_state::RealmState;
use delphos::state_transition::{ReplayIdentityProof, ReplaySession, StateTransition, TransitionLog};
use delphos::transition::TransitionError;

fn test_reducer(state: &RealmState, (key, val): (&str, &str)) -> Result<RealmState, TransitionError> {
    let mut next = state.clone().next_version(None, None);
    next.set_entity("kv", key, serde_json::Value::String(val.to_string()));
    Ok(next)
}

fn apply_typed(session: &mut ReplaySession, event_id: &str, lamport: u64, key: &'static str, val: &'static str) -> Result<(), TransitionError> {
    session.apply(test_reducer, event_id, "kv.set", lamport, (key, val))
}

#[test]
fn transition_enforces_version_monotone() {
    let s0 = RealmState::empty(RealmId::Telum);
    let s1 = s0.clone().next_version(None, None);
    let t = StateTransition::record("e1", "kv.set", 1, &s0, &s1);
    assert!(t.is_ok());
    let t = t.unwrap();
    assert_eq!(t.version_delta(), 1);
}

#[test]
fn transition_rejects_version_skip() {
    let s0 = RealmState::empty(RealmId::Telum);
    let mut s_skip = s0.clone().next_version(None, None);
    s_skip.version = 99;
    let t = StateTransition::record("e1", "kv.set", 1, &s0, &s_skip);
    assert!(t.is_err());
}

#[test]
fn transition_rejects_realm_change() {
    let s_tel = RealmState::empty(RealmId::Telum);
    let mut s_styx = s_tel.clone().next_version(None, None);
    s_styx.realm_id = RealmId::Styx;
    let t = StateTransition::record("e1", "kv.set", 1, &s_tel, &s_styx);
    assert!(t.is_err());
}

#[test]
fn replay_identity_confirmed() {
    let s0 = RealmState::empty(RealmId::Telum);
    let mut original = ReplaySession::from(s0.clone());
    apply_typed(&mut original, "e1", 1, "status", "todo").unwrap();
    apply_typed(&mut original, "e2", 2, "status", "in_progress").unwrap();
    apply_typed(&mut original, "e3", 3, "status", "done").unwrap();
    let mut rebuilt = ReplaySession::from(s0);
    apply_typed(&mut rebuilt, "e1", 1, "status", "todo").unwrap();
    apply_typed(&mut rebuilt, "e2", 2, "status", "in_progress").unwrap();
    apply_typed(&mut rebuilt, "e3", 3, "status", "done").unwrap();
    let proof = rebuilt.verify_identity(&original.log);
    assert!(proof.is_confirmed(), "replay identity must hold: {proof:?}");
}

#[test]
fn replay_identity_diverged() {
    let s0 = RealmState::empty(RealmId::Telum);
    let mut original = ReplaySession::from(s0.clone());
    apply_typed(&mut original, "e1", 1, "status", "todo").unwrap();
    let mut rebuilt = ReplaySession::from(s0);
    apply_typed(&mut rebuilt, "e1", 1, "status", "DIFFERENT_VALUE").unwrap();
    let proof = rebuilt.verify_identity(&original.log);
    assert!(proof.is_diverged(), "should detect divergence");
}

#[test]
fn log_enforces_lamport_monotone() {
    let s0 = RealmState::empty(RealmId::Causa);
    let mut session = ReplaySession::from(s0);
    apply_typed(&mut session, "e1", 5, "k", "v1").unwrap();
    let result = apply_typed(&mut session, "e2", 5, "k", "v2");
    assert!(result.is_err());
}

#[test]
fn log_event_range() {
    let s0 = RealmState::empty(RealmId::Telum);
    let mut s = ReplaySession::from(s0);
    apply_typed(&mut s, "e1", 10, "a", "1").unwrap();
    apply_typed(&mut s, "e2", 20, "b", "2").unwrap();
    apply_typed(&mut s, "e3", 30, "c", "3").unwrap();
    let range = s.log.event_range();
    assert_eq!(range.from_lamport, 10);
    assert_eq!(range.to_lamport, 30);
    assert_eq!(range.event_count, 3);
}

#[test]
fn empty_replay_identity() {
    let s0 = RealmState::empty(RealmId::Katoptron);
    let original = ReplaySession::from(s0.clone());
    let rebuilt = ReplaySession::from(s0);
    let proof = rebuilt.verify_identity(&original.log);
    assert!(proof.is_confirmed());
}

#[test]
fn state_changed_detection() {
    let s0 = RealmState::empty(RealmId::Telum);
    let s1 = {
        let mut s = s0.clone().next_version(None, None);
        s.set_entity("t", "T-1", serde_json::from_str(r#"{"status":"todo"}"#).unwrap());
        s
    };
    let t = StateTransition::record("e1", "task.created", 1, &s0, &s1).unwrap();
    assert!(t.state_changed());
}

#[test]
fn failed_apply_changes_nothing() {
    let mut s = ReplaySession::from(RealmState::empty(RealmId::Telum));
    apply_typed(&mut s, "e1", 5, "k", "v").unwrap();
    let before = s.current_state.checksum();
    let err = apply_typed(&mut s, "e2", 3, "k", "w").unwrap_err();
    assert_eq!(err, TransitionError::DuplicateLamport(3));
    assert_eq!(s.current_version(), 1);
    assert_eq!(s.current_state.checksum(), before);
    assert_eq!(s.log.len(), 1);
}

fn failing(_: &RealmState, _: ()) -> Result<RealmState, TransitionError> {
    Err(TransitionError::CausalityViolation("nope".into()))
}

#[test]
fn reducer_error_is_returned() {
    let mut s = ReplaySession::from(RealmState::empty(RealmId::Telum));
    let err = s.apply(failing, "e1", "x", 1, ()).unwrap_err();
    assert_eq!(err, TransitionError::CausalityViolation("nope".into()));
    assert!(s.log.is_empty());
}

#[test]
fn record_error_text_and_log_gap() {
    let s0 = RealmState::empty(RealmId::Telum);
    let mut skip = s0.clone().next_version(None, None);
    skip.version = 3;
    let err = StateTransition::record("e1", "s", 1, &s0, &skip).unwrap_err();
    assert_eq!(err.to_text(), "causality violation: version not monotone: expected 1, got 3");
    let mut log = TransitionLog::new(RealmId::Telum);
    let s1 = s0.clone().next_version(None, None);
    log.record(StateTransition::record("e1", "s", 1, &s0, &s1).unwrap()).unwrap();
    let t = StateTransition::record("e2", "s", 2, &s0, &s1).unwrap();
    let err = log.record(t).unwrap_err();
    assert_eq!(err, TransitionError::CausalityViolation("version gap: expected from=1, got 0".into()));
    assert_eq!(log.current_version(), 1);
    assert_eq!(log.tip_checksum(), Some(s1.checksum().as_str()));
    assert_eq!(log.latest().unwrap().event_id, "e1");
}

#[test]
fn diverged_names_the_last_lamport() {
    let s0 = RealmState::empty(RealmId::Telum);
    let mut original = ReplaySession::from(s0.clone());
    apply_typed(&mut original, "e1", 4, "x", "a").unwrap();
    let rebuilt = ReplaySession::from(s0);
    match rebuilt.verify_identity(&original.log) {
        ReplayIdentityProof::Diverged { diverged_at_lamport, .. } => assert_eq!(diverged_at_lamport, Some(4)),
        other => panic!("expected divergence, got {other:?}"),
    }
}
