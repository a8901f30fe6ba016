//! Typed records of what changed in a realm's state, with the event that
//! caused each change.

use vstd::prelude::*;
use crate::kernel_machine::{now_utc, Timestamp};
use crate::realm_id::RealmId;
use crate::text::same_text;

verus! {

/// The kind of a change to a realm's state.
#[derive(Debug, Clone, PartialEq, Eq)]
pub enum MutationKind {
    /// An entity was created.
    Insert { entity_type: String, entity_id: String },
    /// An entity was updated.
    Update { entity_type: String, entity_id: String, field: Option<String> },
    /// An entity was removed.
    Delete { entity_type: String, entity_id: String },
    /// Realm-level metadata changed.
    MetadataChange { key: String },
}

/// The entity type a change touches, if it touches an entity.
pub open spec fn touched_type(k: MutationKind) -> Option<Seq<char>> {
    match k {
        MutationKind::Insert { entity_type, .. } => Some(entity_type@),
        MutationKind::Update { entity_type, .. } => Some(entity_type@),
        MutationKind::Delete { entity_type, .. } => Some(entity_type@),
        MutationKind::MetadataChange { .. } => None,
    }
}

/// One change, with what it replaced and what it put in place.
#[derive(Debug, Clone)]
pub struct StateMutation {
    pub realm_id: RealmId,
    pub kind: MutationKind,
    pub caused_by_event_id: String,
    pub from_version: u64,
    pub to_version: u64,
    pub timestamp: Timestamp,
    /// The value before the change, for rollback.
    pub prev_value: Option<serde_json::Value>,
    /// The value after the change.
    pub new_value: Option<serde_json::Value>,
}

impl StateMutation {
    /// An entity was created at the next version.
    pub fn insert(realm: RealmId, entity_type: &str, entity_id: &str, event_id: &str, from: u64, value: serde_json::Value) -> (r: Self)
        requires
            from < u64::MAX,
        ensures
            r.realm_id == realm,
            r.kind matches MutationKind::Insert { entity_type: t, entity_id: i } && t@ == entity_type@ && i@ == entity_id@,
            r.caused_by_event_id@ == event_id@,
            r.from_version == from,
            r.to_version == from + 1,
            r.prev_value is None,
            r.new_value == Some(value),
    {
        StateMutation {
            realm_id: realm,
            kind: MutationKind::Insert { entity_type: entity_type.to_owned(), entity_id: entity_id.to_owned() },
            caused_by_event_id: event_id.to_owned(),
            from_version: from,
            to_version: from + 1,
            timestamp: now_utc(),
            prev_value: None,
            new_value: Some(value),
        }
    }

    /// An entity was updated at the next version.
    pub fn update(
        realm: RealmId,
        entity_type: &str,
        entity_id: &str,
        event_id: &str,
        from: u64,
        prev: serde_json::Value,
        next: serde_json::Value,
    ) -> (r: Self)
        requires
            from < u64::MAX,
        ensures
            r.realm_id == realm,
            r.kind matches MutationKind::Update { entity_type: t, entity_id: i, field: f } && t@ == entity_type@ && i@
                == entity_id@ && f is None,
            r.caused_by_event_id@ == event_id@,
            r.from_version == from,
            r.to_version == from + 1,
            r.prev_value == Some(prev),
            r.new_value == Some(next),
    {
        StateMutation {
            realm_id: realm,
            kind: MutationKind::Update { entity_type: entity_type.to_owned(), entity_id: entity_id.to_owned(), field: None },
            caused_by_event_id: event_id.to_owned(),
            from_version: from,
            to_version: from + 1,
            timestamp: now_utc(),
            prev_value: Some(prev),
            new_value: Some(next),
        }
    }

    /// An entity was removed at the next version.
    pub fn delete(realm: RealmId, entity_type: &str, entity_id: &str, event_id: &str, from: u64, prev: serde_json::Value) -> (r: Self)
        requires
            from < u64::MAX,
        ensures
            r.realm_id == realm,
            r.kind matches MutationKind::Delete { entity_type: t, entity_id: i } && t@ == entity_type@ && i@ == entity_id@,
            r.caused_by_event_id@ == event_id@,
            r.from_version == from,
            r.to_version == from + 1,
            r.prev_value == Some(prev),
            r.new_value is None,
    {
        StateMutation {
            realm_id: realm,
            kind: MutationKind::Delete { entity_type: entity_type.to_owned(), entity_id: entity_id.to_owned() },
            caused_by_event_id: event_id.to_owned(),
            from_version: from,
            to_version: from + 1,
            timestamp: now_utc(),
            prev_value: Some(prev),
            new_value: None,
        }
    }

    /// Can the change be rolled back (is the previous value kept)?
    pub fn is_reversible(&self) -> (r: bool)
        ensures
            r == (self.prev_value is Some),
    {
        self.prev_value.is_some()
    }
}

/// The entity types touched by a list of changes, in order, with runs of
/// the same type collapsed to one.
pub open spec fn touched_types(ms: Seq<StateMutation>) -> Seq<Seq<char>>
    decreases ms.len(),
{
    if ms.len() == 0 {
        Seq::empty()
    } else {
        let before = touched_types(ms.drop_last());
        match touched_type(ms.last().kind) {
            Some(t) => if before.len() > 0 && before.last() == t {
                before
            } else {
                before.push(t)
            },
            None => before,
        }
    }
}

/// The ordered changes of one reducer application.
#[derive(Debug, Clone)]
pub struct MutationLog(Vec<StateMutation>);

impl MutationLog {
    pub closed spec fn spec_mutations(&self) -> Seq<StateMutation> {
        self.0@
    }

    pub fn new() -> (r: Self)
        ensures
            r.spec_mutations().len() == 0,
    {
        MutationLog(Vec::new())
    }

    pub fn push(&mut self, m: StateMutation)
        ensures
            final(self).spec_mutations() == old(self).spec_mutations().push(m),
    {
        self.0.push(m);
    }

    pub fn len(&self) -> (r: usize)
        ensures
            r == self.spec_mutations().len(),
    {
        self.0.len()
    }

    pub fn is_empty(&self) -> (r: bool)
        ensures
            r == (self.spec_mutations().len() == 0),
    {
        self.0.len() == 0
    }

    pub fn mutations(&self) -> (r: &[StateMutation])
        ensures
            r@ == self.spec_mutations(),
    {
        self.0.as_slice()
    }

    /// The entity types touched, in order, consecutive repeats collapsed.
    pub fn touched_entity_types(&self) -> (r: Vec<String>)
        ensures
            r@.map_values(|s: String| s@) == touched_types(self.spec_mutations()),
    {
        let ghost ms = self.0@;
        let mut out: Vec<String> = Vec::new();
        let mut k: usize = 0;
        while k < self.0.len()
            invariant
                k <= ms.len(),
                ms == self.0@,
                out@.map_values(|s: String| s@) == touched_types(ms.take(k as int)),
            decreases ms.len() - k,
        {
            let ghost before = out@.map_values(|s: String| s@);
            proof {
                assert(ms.take(k + 1).drop_last() =~= ms.take(k as int));
                assert(ms.take(k + 1).last() == ms[k as int]);
            }
            let t: Option<&String> = match &self.0[k].kind {
                MutationKind::Insert { entity_type, .. } => Some(entity_type),
                MutationKind::Update { entity_type, .. } => Some(entity_type),
                MutationKind::Delete { entity_type, .. } => Some(entity_type),
                MutationKind::MetadataChange { .. } => None,
            };
            match t {
                Some(ty) => {
                    let n = out.len();
                    let repeat = n > 0 && same_text(out[n - 1].as_str(), ty.as_str());
                    if !repeat {
                        out.push(ty.clone());
                        proof {
                            assert(out@.map_values(|s: String| s@) =~= before.push(ty@));
                        }
                    } else {
                        assert(before.last() == out@[n - 1]@);
                    }
                },
                None => {},
            }
            k = k + 1;
        }
        proof {
            assert(ms.take(ms.len() as int) =~= ms);
        }
        out
    }
}

impl Default for MutationLog {
    fn default() -> (r: Self)
        ensures
            r.spec_mutations().len() == 0,
    {
        MutationLog::new()
    }
}

} // verus!
