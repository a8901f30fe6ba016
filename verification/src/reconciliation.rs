//! Repair after a partial write or a replay mismatch: check the state
//! against the last known-good snapshot and say how to repair it.

use vstd::prelude::*;
use crate::realm_state::RealmState;
use crate::snapshot::StateSnapshot;
use crate::text::same_text;

verus! {

/// The outcome of a reconciliation attempt.
#[derive(Debug, Clone, PartialEq, Eq)]
pub enum ReconciliationOutcome {
    /// The state was already consistent.
    AlreadyConsistent,
    /// The state was repaired from a snapshot.
    RepairedFromSnapshot { snapshot_id: String },
    /// The state was rebuilt by replaying the ledger from genesis.
    RebuiltFromLedger { events_replayed: u64 },
    /// Manual intervention is needed.
    Failed { reason: String },
}

impl ReconciliationOutcome {
    pub fn is_ok(&self) -> (r: bool)
        ensures
            r == !(*self is Failed),
    {
        match self {
            ReconciliationOutcome::Failed { .. } => false,
            _ => true,
        }
    }
}

/// The current state and the last known-good snapshot.
pub struct ReconciliationContext {
    pub current_state: RealmState,
    pub last_snapshot: Option<StateSnapshot>,
}

impl ReconciliationContext {
    pub fn new(state: RealmState, snapshot: Option<StateSnapshot>) -> (r: Self)
        ensures
            r.current_state == state,
            r.last_snapshot == snapshot,
    {
        ReconciliationContext { current_state: state, last_snapshot: snapshot }
    }

    /// The state agrees with the snapshot's checksum (or there is no snapshot).
    pub open spec fn consistent(&self) -> bool {
        match self.last_snapshot {
            None => true,
            Some(snap) => self.current_state.spec_checksum() == snap.checksum@,
        }
    }

    /// Does the state's checksum match the snapshot's? True without a snapshot.
    pub fn verify(&self) -> (r: bool)
        ensures
            r == self.consistent(),
    {
        match &self.last_snapshot {
            None => true,
            Some(snap) => {
                let now = self.current_state.checksum();
                same_text(now.as_str(), snap.checksum.as_str())
            },
        }
    }

    /// Consistent: nothing to do. Otherwise roll back to the snapshot when it
    /// verifies, else report that a full ledger replay is needed.
    pub fn reconcile(&self) -> (r: ReconciliationOutcome)
        ensures
            self.consistent() ==> r == ReconciliationOutcome::AlreadyConsistent,
            !self.consistent() && self.last_snapshot.unwrap().state.spec_checksum() == self.last_snapshot.unwrap().checksum@
                ==> (r matches ReconciliationOutcome::RepairedFromSnapshot { snapshot_id } && snapshot_id@
                == self.last_snapshot.unwrap().id@),
            !self.consistent() && self.last_snapshot.unwrap().state.spec_checksum() != self.last_snapshot.unwrap().checksum@
                ==> (r matches ReconciliationOutcome::Failed { reason } && reason@
                == "no valid snapshot available; full ledger replay required"@),
    {
        if self.verify() {
            return ReconciliationOutcome::AlreadyConsistent;
        }
        match &self.last_snapshot {
            Some(snap) => {
                if snap.verify() {
                    return ReconciliationOutcome::RepairedFromSnapshot { snapshot_id: snap.id.clone() };
                }
            },
            None => {},
        }
        proof {
            reveal_strlit("no valid snapshot available; full ledger replay required");
        }
        ReconciliationOutcome::Failed { reason: String::from_str("no valid snapshot available; full ledger replay required") }
    }
}

} // verus!
