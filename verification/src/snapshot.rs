//! A frozen copy of a realm's state, kept for archival and restoration.

use vstd::prelude::*;
use crate::ids::fresh_uuid;
use crate::kernel_machine::{now_utc, Timestamp};
use crate::realm_state::RealmState;
use crate::text::same_text;

verus! {

/// An immutable snapshot of a state, with the checksum it had when sealed.
#[derive(Debug, Clone)]
pub struct StateSnapshot {
    /// A fresh random UUID.
    pub id: String,
    pub state: RealmState,
    pub checksum: String,
    pub sealed_at: Timestamp,
    pub gc_eligible: bool,
}

impl StateSnapshot {
    /// Freeze a state with its current checksum.
    pub fn seal(state: RealmState) -> (r: Self)
        ensures
            r.state == state,
            r.checksum@ == state.spec_checksum(),
            !r.gc_eligible,
            r.id@.len() == 36,
    {
        let checksum = state.checksum();
        StateSnapshot { id: fresh_uuid(), state, checksum, sealed_at: now_utc(), gc_eligible: false }
    }

    pub fn mark_gc_eligible(&mut self)
        ensures
            final(self).gc_eligible,
            final(self).id == old(self).id,
            final(self).state == old(self).state,
            final(self).checksum == old(self).checksum,
            final(self).sealed_at == old(self).sealed_at,
    {
        self.gc_eligible = true;
    }

    /// Does the state still have the checksum it was sealed with?
    pub fn verify(&self) -> (r: bool)
        ensures
            r == (self.state.spec_checksum() == self.checksum@),
    {
        let now = self.state.checksum();
        same_text(now.as_str(), self.checksum.as_str())
    }
}

/// A snapshot verifies right after it is sealed.
pub proof fn lemma_sealed_snapshot_verifies(state: RealmState, snap: StateSnapshot)
    requires
        snap.state == state,
        snap.checksum@ == state.spec_checksum(),
    ensures
        snap.state.spec_checksum() == snap.checksum@,
{
}

} // verus!
