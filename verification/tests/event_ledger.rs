use delphos::event_ledger::{EventLedger, LedgerAppendError, LedgerEntry};
use delphos::realm_id::RealmId;

fn json(text: &str) -> serde_json::Value {
    serde_json::from_str(text).unwrap()
}

fn ledger() -> EventLedger {
    EventLedger::new(RealmId::Telum)
}

fn append_n(l: &mut EventLedger, n: u64) {
    for i in 1..=n {
        l.append(
            &format!("evt-{i}"),
            "kv.set",
            i * 10,
            &format!("hash-{i}"),
            json(&format!("{{\"seq\": {i}}}")),
            "test",
            None,
        )
        .unwrap();
    }
}

#[test]
fn append_and_verify() {
    let mut l = ledger();
    append_n(&mut l, 3);
    assert_eq!(l.len(), 3);
    assert!(l.verify_chain().is_valid());
}

#[test]
fn chain_tip_advances() {
    let mut l = ledger();
    let before = l.chain_tip().to_string();
    append_n(&mut l, 1);
    assert_ne!(l.chain_tip(), before);
}

#[test]
fn lamport_monotone_enforced() {
    let mut l = ledger();
    l.append("e1", "s", 10, "h", json("{}"), "t", None).unwrap();
    let err = l.append("e2", "s", 5, "h", json("{}"), "t", None);
    assert!(matches!(err, Err(LedgerAppendError::LamportNotMonotone { .. })));
}

#[test]
fn duplicate_event_id_rejected() {
    let mut l = ledger();
    l.append("evt-dup", "s", 1, "h", json("{}"), "t", None).unwrap();
    let err = l.append("evt-dup", "s", 2, "h", json("{}"), "t", None);
    assert!(matches!(err, Err(LedgerAppendError::DuplicateEventId { .. })));
}

#[test]
fn sealed_blocks_append() {
    let mut l = ledger();
    l.seal();
    let err = l.append("e1", "s", 1, "h", json("{}"), "t", None);
    assert!(matches!(err, Err(LedgerAppendError::Sealed)));
}

#[test]
fn range_query() {
    let mut l = ledger();
    append_n(&mut l, 5);
    let r = l.range(20, 40);
    assert_eq!(r.len(), 3);
    assert_eq!(r[0].lamport, 20);
    assert_eq!(r[2].lamport, 40);
}

#[test]
fn empty_ledger_verifies() {
    let l = ledger();
    assert!(l.verify_chain().is_valid());
    assert_eq!(l.lamport_range(), None);
}

#[test]
fn deterministic_chain() {
    let mut l1 = ledger();
    let mut l2 = ledger();
    let events = vec![("e1", "s", 1u64, "h1"), ("e2", "s", 2, "h2"), ("e3", "s", 3, "h3")];
    for &(id, schema, lam, ph) in &events {
        l1.append(id, schema, lam, ph, json("{}"), "t", None).unwrap();
        l2.append(id, schema, lam, ph, json("{}"), "t", None).unwrap();
    }
    assert_eq!(l1.chain_tip(), l2.chain_tip(), "determinism: same events → same chain tip");
}

#[test]
fn chain_hash_links_entries() {
    let mut l = ledger();
    append_n(&mut l, 2);
    let first = l.get(0).unwrap();
    let second = l.get(1).unwrap();
    assert_eq!(second.chain_hash, LedgerEntry::compute_chain_hash(&second.event_id, &second.payload_hash, &first.chain_hash));
    assert!(second.verify_chain_hash(&first.chain_hash));
    assert!(!second.verify_chain_hash("something else"));
    assert_eq!(l.chain_tip(), second.chain_hash);
}

#[test]
fn different_payload_hash_changes_tip() {
    let mut l1 = ledger();
    let mut l2 = ledger();
    l1.append("e1", "s", 1, "h1", json("{}"), "t", None).unwrap();
    l2.append("e1", "s", 1, "h2", json("{}"), "t", None).unwrap();
    assert_ne!(l1.chain_tip(), l2.chain_tip());
}

#[test]
fn lamport_range_and_get() {
    let mut l = ledger();
    append_n(&mut l, 4);
    assert_eq!(l.lamport_range(), Some((10, 40)));
    assert_eq!(l.get(2).unwrap().seq, 2);
    assert!(l.get(4).is_none());
    assert!(!l.is_empty());
    assert_eq!(l.entries().len(), 4);
}

#[test]
fn equal_lamport_is_refused() {
    let mut l = ledger();
    l.append("e1", "s", 10, "h", json("{}"), "t", None).unwrap();
    let err = l.append("e2", "s", 10, "h", json("{}"), "t", None);
    assert_eq!(err.unwrap_err(), LedgerAppendError::LamportNotMonotone { tip: 10, new: 10 });
    assert_eq!(l.len(), 1);
}
