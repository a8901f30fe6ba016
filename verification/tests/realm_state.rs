use delphos::invariants::{InvariantViolation, StateInvariants};
use delphos::mutation::{MutationLog, StateMutation};
use delphos::projection::{EntityListProjection, Projection, ProjectionId};
use delphos::realm_id::RealmId;
use delphos::realm_state::RealmState;
use delphos::reconciliation::{ReconciliationContext, ReconciliationOutcome};
use delphos::reducer::{IdentityReducer, Reducer, ReducerId};
use delphos::snapshot::StateSnapshot;
use delphos::transition::{StateTransition, TransitionError};

fn json(text: &str) -> serde_json::Value {
    serde_json::from_str(text).unwrap()
}

#[test]
fn empty() {
    let s = RealmState::empty(RealmId::Telum);
    assert_eq!(s.version, 0);
    assert_eq!(s.entity_count(), 0);
    assert!(s.metadata.is_null());
}

#[test]
fn version_bump() {
    let s = RealmState::empty(RealmId::Telum).next_version(None, None);
    assert_eq!(s.version, 1);
}

#[test]
fn entities() {
    let mut s = RealmState::empty(RealmId::Telum);
    s.set_entity("task", "T-1", json(r#"{"title":"write bkg-state"}"#));
    assert!(s.get_entity("task", "T-1").is_some());
    assert_eq!(s.entity_count(), 1);
    s.remove_entity("task", "T-1");
    assert_eq!(s.entity_count(), 0);
}

#[test]
fn checksum_stable() {
    let mut s = RealmState::empty(RealmId::Causa);
    s.set_entity("x", "1", json("42"));
    let c1 = s.checksum();
    let c2 = s.checksum();
    assert_eq!(c1, c2);
}

#[test]
fn checksum_changes() {
    let mut s = RealmState::empty(RealmId::Causa);
    s.set_entity("x", "1", json("42"));
    let c1 = s.checksum();
    s.set_entity("x", "1", json("43"));
    assert_ne!(c1, s.checksum());
}

#[test]
fn entities_are_kept_in_key_order() {
    let mut s = RealmState::empty(RealmId::Telum);
    s.set_entity("task", "T-2", json("2"));
    s.set_entity("agent", "A-1", json("1"));
    s.set_entity("task", "T-1", json("3"));
    let keys: Vec<&str> = s.entities.entries().iter().map(|(k, _)| k.as_str()).collect();
    assert_eq!(keys, vec!["agent/A-1", "task/T-1", "task/T-2"]);
    assert_eq!(s.get_entity("task", "T-2"), Some(&json("2")));
    assert_eq!(s.remove_entity("agent", "A-1"), Some(json("1")));
    assert_eq!(s.remove_entity("agent", "A-1"), None);
    assert_eq!(s.entity_count(), 2);
}

#[test]
fn checksum_ignores_insertion_order() {
    let mut a = RealmState::empty(RealmId::Telum);
    a.set_entity("k", "1", json("1"));
    a.set_entity("k", "2", json("2"));
    let mut b = RealmState::empty(RealmId::Telum);
    b.set_entity("k", "2", json("2"));
    b.set_entity("k", "1", json("1"));
    assert_eq!(a.checksum(), b.checksum());
    assert!(a.checksum().chars().all(|c| c.is_ascii_hexdigit()));
}

#[test]
fn next_version_keeps_entities() {
    let mut s = RealmState::empty(RealmId::Styx);
    s.set_entity("k", "1", json("true"));
    let n = s.clone().next_version(Some(7), Some("h".to_string()));
    assert_eq!(n.version, 1);
    assert_eq!(n.timestamp, Some(7));
    assert_eq!(n.event_hash.as_deref(), Some("h"));
    assert_eq!(n.checksum(), s.checksum());
}

#[test]
fn valid_transition() {
    let from = RealmState::empty(RealmId::Telum);
    let to = from.clone().next_version(None, None);
    assert!(StateInvariants::check_transition(&from, &to).is_ok());
    assert!(StateInvariants::check(&to).is_ok());
}

#[test]
fn version_skip_fails() {
    let from = RealmState::empty(RealmId::Telum);
    let mut to = from.clone().next_version(None, None);
    to.version = 99;
    assert!(StateInvariants::check_transition(&from, &to).is_err());
}

#[test]
fn realm_change_fails() {
    let from = RealmState::empty(RealmId::Telum);
    let mut to = from.clone().next_version(None, None);
    to.realm_id = RealmId::Styx;
    assert!(StateInvariants::check_transition(&from, &to).is_err());
}

#[test]
fn violation_texts() {
    let from = RealmState::empty(RealmId::Telum);
    let mut to = from.clone().next_version(None, None);
    to.version = 5;
    let v = StateInvariants::check_transition(&from, &to).unwrap_err();
    assert_eq!(v, InvariantViolation::VersionNotMonotone { expected: 1, actual: 5 });
    assert_eq!(v.to_text(), "version not monotone: expected 1, got 5");
    let e = TransitionError::from_violation(v);
    assert_eq!(e.to_text(), "causality violation: version not monotone: expected 1, got 5");
    let v = InvariantViolation::RealmIdChanged { from: RealmId::Telum, to: RealmId::Styx };
    assert_eq!(v.to_text(), "realm_id changed during transition: telum → styx");
    assert_eq!(InvariantViolation::UnexplainedEntityLoss { was: 3, now: 1 }.to_text(), "entity count decreased without Delete mutation: was 3, now 1");
}

#[test]
fn transition_error_texts() {
    assert_eq!(TransitionError::DuplicateLamport(4).to_text(), "duplicate lamport 4 in realm — concurrent events are forbidden");
    let e = TransitionError::InvalidTransition { realm: RealmId::Mensa, reason: "r".into() };
    assert_eq!(e.to_text(), "invalid transition in realm mensa: r");
    let e = TransitionError::DeterminismFailure { expected: "a".into(), actual: "b".into() };
    assert_eq!(e.to_text(), "replay determinism failure: expected hash a, got b");
}

#[test]
fn transition_records() {
    let ok = StateTransition::ok(1, 2, "kv.set", "h");
    assert!(ok.valid && ok.error.is_none() && ok.to_version == 2);
    let failed = StateTransition::failed(3, "kv.set", "boom");
    assert!(!failed.valid);
    assert_eq!(failed.to_version, 3);
    assert_eq!(failed.event_hash, "");
    assert_eq!(failed.error.as_deref(), Some("boom"));
}

#[test]
fn identity() {
    let r = IdentityReducer::new("test");
    let s = RealmState::empty(RealmId::Telum);
    let s2 = r.apply(s.clone(), json("{}")).unwrap();
    assert_eq!(s.version, s2.version);
    assert_eq!(r.reducer_id(), ReducerId::new("test"));
    assert_eq!(r.reducer_id().to_text(), "reducer:test");
}

#[test]
fn insert_mutation() {
    let m = StateMutation::insert(RealmId::Telum, "task", "T-1", "evt-1", 0, json(r#"{"title":"x"}"#));
    assert!(!m.is_reversible());
    assert_eq!(m.to_version, 1);
}

#[test]
fn update_reversible() {
    let m = StateMutation::update(RealmId::Telum, "task", "T-1", "evt-2", 1, json(r#"{"status":"todo"}"#), json(r#"{"status":"in-progress"}"#));
    assert!(m.is_reversible());
}

#[test]
fn mutation_log() {
    let mut log = MutationLog::new();
    log.push(StateMutation::insert(RealmId::Causa, "agent", "A-1", "e1", 0, json("{}")));
    log.push(StateMutation::insert(RealmId::Causa, "task", "T-1", "e1", 0, json("{}")));
    assert_eq!(log.len(), 2);
    assert_eq!(log.touched_entity_types().len(), 2);
}

#[test]
fn touched_types_collapse_runs_only() {
    let mut log = MutationLog::new();
    log.push(StateMutation::insert(RealmId::Causa, "task", "T-1", "e1", 0, json("{}")));
    log.push(StateMutation::delete(RealmId::Causa, "task", "T-2", "e1", 0, json("{}")));
    log.push(StateMutation::insert(RealmId::Causa, "agent", "A-1", "e1", 0, json("{}")));
    log.push(StateMutation::insert(RealmId::Causa, "task", "T-3", "e1", 0, json("{}")));
    assert_eq!(log.touched_entity_types(), vec!["task".to_string(), "agent".to_string(), "task".to_string()]);
    assert_eq!(log.mutations().len(), 4);
}

#[test]
fn build_and_stale() {
    let mut s = RealmState::empty(RealmId::Telum);
    s.set_entity("task", "T-1", json(r#"{"title":"x"}"#));
    let p = EntityListProjection::build(&s);
    assert!(!p.is_stale(&s.checksum()));
    s.set_entity("task", "T-2", json(r#"{"title":"y"}"#));
    assert!(p.is_stale(&s.checksum()));
}

#[test]
fn disposable() {
    let s = RealmState::empty(RealmId::Styx);
    let p = EntityListProjection::build(&s);
    let p2 = EntityListProjection::build(&s);
    assert_eq!(p.checksum(), p2.checksum());
    assert_eq!(EntityListProjection::projection_id().to_text(), "projection:entity-list");
    assert_eq!(ProjectionId::new("x").0, "x");
}

#[test]
fn consistent_state() {
    let s = RealmState::empty(RealmId::Telum);
    let ctx = ReconciliationContext::new(s, None);
    assert_eq!(ctx.reconcile(), ReconciliationOutcome::AlreadyConsistent);
}

#[test]
fn repair_from_snapshot() {
    let s = RealmState::empty(RealmId::Causa);
    let snap = StateSnapshot::seal(s.clone());
    let mut diverged = s;
    diverged.set_entity("ghost", "G-1", json("{}"));
    let ctx = ReconciliationContext::new(diverged, Some(snap.clone()));
    let outcome = ctx.reconcile();
    assert!(matches!(outcome, ReconciliationOutcome::RepairedFromSnapshot { .. }));
}

#[test]
fn broken_snapshot_fails_reconciliation() {
    let s = RealmState::empty(RealmId::Causa);
    let mut snap = StateSnapshot::seal(s.clone());
    snap.checksum = "bogus".into();
    let ctx = ReconciliationContext::new(s, Some(snap));
    let outcome = ctx.reconcile();
    assert_eq!(outcome, ReconciliationOutcome::Failed { reason: "no valid snapshot available; full ledger replay required".into() });
    assert!(!outcome.is_ok());
}

#[test]
fn snapshot_seal_and_verify() {
    let mut s = RealmState::empty(RealmId::Mensa);
    s.set_entity("a", "b", json("1"));
    let mut snap = StateSnapshot::seal(s.clone());
    assert!(snap.verify());
    assert_eq!(snap.checksum, s.checksum());
    assert_eq!(snap.id.len(), 36);
    assert!(!snap.gc_eligible);
    snap.mark_gc_eligible();
    assert!(snap.gc_eligible);
}
