use delphos::arbitrator::{ArbitrationDecision, ArbitrationError, KernelArbitrator};
use delphos::realm_id::RealmId;

#[test]
fn allow_valid() {
    let mut a = KernelArbitrator::new();
    assert!(matches!(a.validate_event("e1", RealmId::Telum, 1, None), Ok(ArbitrationDecision::Allow)));
}

#[test]
fn duplicate_lamport() {
    let mut a = KernelArbitrator::new();
    a.validate_event("e1", RealmId::Telum, 1, None).unwrap();
    assert!(matches!(a.validate_event("e2", RealmId::Telum, 1, None), Err(ArbitrationError::DuplicateLamport { .. })));
}

#[test]
fn replay_paradox_duplicate_event() {
    let mut a = KernelArbitrator::new();
    a.validate_event("e1", RealmId::Telum, 1, None).unwrap();
    assert!(matches!(a.validate_event("e1", RealmId::Styx, 2, None), Err(ArbitrationError::ReplayParadox { .. })));
}

#[test]
fn causal_parent_missing() {
    let mut a = KernelArbitrator::new();
    let r = a.validate_event("e2", RealmId::Telum, 2, Some("e1-not-processed"));
    assert!(r.is_err());
}

#[test]
fn arbitrator_reset_allows_replay() {
    let mut a = KernelArbitrator::new();
    a.validate_event("e1", RealmId::Telum, 1, None).unwrap();
    a.reset_for_replay();
    assert!(a.validate_event("e1", RealmId::Telum, 1, None).is_ok());
}

#[test]
fn different_realms_same_lamport_ok() {
    let mut a = KernelArbitrator::new();
    a.validate_event("e1", RealmId::Telum, 1, None).unwrap();
    assert!(a.validate_event("e2", RealmId::Styx, 1, None).is_ok());
}

#[test]
fn processed_parent_is_accepted() {
    let mut a = KernelArbitrator::new();
    a.validate_event("e1", RealmId::Telum, 1, None).unwrap();
    assert!(a.validate_event("e2", RealmId::Telum, 2, Some("e1")).is_ok());
    assert!(a.validate_event("e3", RealmId::Telum, 3, Some("")).is_ok());
    assert_eq!(a.event_count(), 3);
}

#[test]
fn missing_parent_message() {
    let mut a = KernelArbitrator::new();
    let err = a.validate_event("e2", RealmId::Telum, 2, Some("p")).unwrap_err();
    assert_eq!(err, ArbitrationError::ReplayParadox { id: "parent p not yet processed".to_string() });
    assert_eq!(err.to_text(), "replay paradox: event parent p not yet processed processed out of causal order");
    assert_eq!(a.event_count(), 0);
}

#[test]
fn arbitration_error_texts() {
    let e = ArbitrationError::DuplicateLamport { realm: RealmId::Telum, lamport: 7 };
    assert_eq!(e.to_text(), "duplicate lamport 7 in realm telum");
    let e = ArbitrationError::CyclicApproval("r1".to_string());
    assert_eq!(e.to_text(), "cyclic approval: request r1 is its own dependency");
    let e = ArbitrationError::InvalidRealmTransition { from: RealmId::Styx, to: RealmId::Mensa, reason: "no".to_string() };
    assert_eq!(e.to_text(), "invalid realm transition: styx → mensa: no");
}
