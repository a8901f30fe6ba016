//! Projections: disposable read models built from a realm's state, never
//! the source of truth.

use vstd::prelude::*;
use crate::realm_id::RealmId;
use crate::realm_state::RealmState;
use crate::text::same_text;

verus! {

/// A stable identifier for a projection type.
#[derive(Debug, Clone, PartialEq, Eq, Hash)]
pub struct ProjectionId(pub String);

impl ProjectionId {
    pub fn new(id: &str) -> (r: Self)
        ensures
            r.0@ == id@,
    {
        ProjectionId(id.to_owned())
    }

    /// `projection:` and the identifier.
    pub fn to_text(&self) -> (r: String)
        ensures
            r@ == "projection:"@ + self.0@,
    {
        let mut s = String::from_str("projection:");
        s.append(self.0.as_str());
        proof {
            reveal_strlit("projection:");
        }
        s
    }
}

/// A read model built from a realm's state. If stale, it is discarded and
/// built again.
pub trait Projection: Sized + Send + Sync {
    /// The projection type's identifier.
    fn projection_id() -> ProjectionId;

    /// Build from the current state.
    fn build(state: &RealmState) -> Self;

    /// A deterministic checksum, for staleness detection.
    fn checksum(&self) -> String;

    /// Is the projection stale, given the state's current checksum?
    fn is_stale(&self, state_checksum: &str) -> bool;
}

/// The state's entities as a list: the default projection.
#[derive(Debug, Clone)]
pub struct EntityListProjection {
    pub realm_id: RealmId,
    /// The entity keys and values, in key order.
    pub entities: Vec<(String, serde_json::Value)>,
    /// The checksum of the state it was built from.
    pub state_checksum: String,
    pub version: u64,
}

impl Projection for EntityListProjection {
    fn projection_id() -> (r: ProjectionId)
        ensures
            r.0@ == "entity-list"@,
    {
        proof {
            reveal_strlit("entity-list");
        }
        ProjectionId::new("entity-list")
    }

    /// The state's keys in order, a copy of each value, and its checksum.
    fn build(state: &RealmState) -> (r: Self)
        ensures
            r.realm_id == state.realm_id,
            r.version == state.version,
            r.state_checksum@ == state.spec_checksum(),
            r.entities@.len() == state.entities.spec_entries().len(),
            forall|i: int| 0 <= i < r.entities@.len() ==> (#[trigger] r.entities@[i]).0@ == state.entities.spec_entries()[i].0,
    {
        let src = state.entities.entries();
        let ghost es = state.entities.spec_entries();
        let mut out: Vec<(String, serde_json::Value)> = Vec::new();
        let mut k: usize = 0;
        while k < src.len()
            invariant
                k <= src@.len(),
                src@.map_values(|e: (String, serde_json::Value)| (e.0@, e.1)) == es,
                out@.len() == k,
                forall|i: int| 0 <= i < k ==> (#[trigger] out@[i]).0@ == es[i].0,
            decreases src@.len() - k,
        {
            assert(es[k as int].0 == src@[k as int].0@);
            out.push((src[k].0.clone(), src[k].1.clone()));
            k = k + 1;
        }
        EntityListProjection { realm_id: state.realm_id, entities: out, state_checksum: state.checksum(), version: state.version }
    }

    fn checksum(&self) -> (r: String)
        ensures
            r@ == self.state_checksum@,
    {
        self.state_checksum.clone()
    }

    fn is_stale(&self, state_checksum: &str) -> (r: bool)
        ensures
            r == (self.state_checksum@ != state_checksum@),
    {
        !same_text(self.state_checksum.as_str(), state_checksum)
    }
}

/// A projection just built from a state is not stale for that state.
pub proof fn lemma_fresh_projection_not_stale(p: EntityListProjection, state: RealmState)
    requires
        p.state_checksum@ == state.spec_checksum(),
    ensures
        !(p.state_checksum@ != state.spec_checksum()),
{
}

} // verus!
