//! The state of one realm: a versioned snapshot, replaced (never edited in
//! place) by each event, and always rebuildable from the event ledger.

use vstd::prelude::*;
use crate::projection_contract::{json_text, json_to_text};
use crate::realm_id::RealmId;
use crate::text::{hash_str_into, hex, push_hex, str_hashed};
use std::collections::hash_map::DefaultHasher;
use std::hash::Hasher;
use vstd::std_specs::hash::DefaultHasherAdditionalSpecFns;
use crate::text_map::TextMap;

verus! {

// ─── Outside items ───────────────────────────────────────────────────────────

/// The hasher state after hashing each key and each text of `pairs`, in
/// order, from `state`.
pub open spec fn pairs_hashed(state: Seq<Seq<u8>>, pairs: Seq<(Seq<char>, Seq<char>)>) -> Seq<Seq<u8>>
    decreases pairs.len(),
{
    if pairs.len() == 0 {
        state
    } else {
        let last = pairs.last();
        str_hashed(str_hashed(pairs_hashed(state, pairs.drop_last()), last.0), last.1)
    }
}

/// What a new `DefaultHasher` gives after hashing each key and each text of
/// `pairs`, in order.
pub open spec fn entries_hash(pairs: Seq<(Seq<char>, Seq<char>)>) -> u64 {
    DefaultHasher::spec_finish(pairs_hashed(Seq::empty(), pairs))
}

/// Hash each key and each text of the pairs, in order, with a new
/// `DefaultHasher`.
fn hash_entries(pairs: &Vec<(String, String)>) -> (h: u64)
    ensures
        h == entries_hash(pairs@.map_values(|p: (String, String)| (p.0@, p.1@))),
{
    let ghost views = pairs@.map_values(|p: (String, String)| (p.0@, p.1@));
    let mut hasher = DefaultHasher::new();
    let mut k: usize = 0;
    while k < pairs.len()
        invariant
            k <= pairs@.len(),
            views == pairs@.map_values(|p: (String, String)| (p.0@, p.1@)),
            hasher@ == pairs_hashed(Seq::empty(), views.take(k as int)),
        decreases pairs@.len() - k,
    {
        hash_str_into(&mut hasher, pairs[k].0.as_str());
        hash_str_into(&mut hasher, pairs[k].1.as_str());
        proof {
            assert(views.take(k + 1).drop_last() =~= views.take(k as int));
            assert(views.take(k + 1).last() == views[k as int]);
        }
        k = k + 1;
    }
    assert(views.take(pairs@.len() as int) =~= views);
    hasher.finish()
}

/// `serde_json::Value::Null`, whose JSON text is `null`.
#[verifier::external_body]
pub(crate) fn json_null() -> (r: serde_json::Value)
    ensures
        json_text(r) == "null"@,
{
    serde_json::Value::Null
}

// ─── RealmState ──────────────────────────────────────────────────────────────

/// The key under which an entity is kept: `type/id`.
pub open spec fn entity_key(entity_type: Seq<char>, entity_id: Seq<char>) -> Seq<char> {
    entity_type + "/"@ + entity_id
}

/// The checksum of a state's entities: the hex digest of each key and each
/// value's JSON text, in key order.
pub open spec fn state_checksum(entries: Seq<(Seq<char>, serde_json::Value)>) -> Seq<char> {
    hex(entries_hash(entries.map_values(|e: (Seq<char>, serde_json::Value)| (e.0, json_text(e.1)))) as nat)
}

/// The reconstructed state of one realm.
#[derive(Debug, Clone)]
pub struct RealmState {
    pub realm_id: RealmId,
    /// Increases by one with each event applied.
    pub version: u64,
    /// The Lamport tick at which this state was produced, if known.
    pub timestamp: Option<u64>,
    /// The hash of the event that produced this state.
    pub event_hash: Option<String>,
    /// Entity data keyed by `type/id`, in key order.
    pub entities: TextMap<serde_json::Value>,
    /// Realm-level metadata.
    pub metadata: serde_json::Value,
}

impl RealmState {
    /// The checksum of this state, as `checksum` gives it.
    pub open spec fn spec_checksum(&self) -> Seq<char> {
        state_checksum(self.entities.spec_entries())
    }

    /// Version 0 of a realm: no entities, no timestamp or event hash, null
    /// metadata.
    pub fn empty(realm_id: RealmId) -> (r: Self)
        ensures
            r.realm_id == realm_id,
            r.version == 0,
            r.timestamp is None,
            r.event_hash is None,
            r.entities.spec_entries().len() == 0,
            forall|x: Seq<char>| #[trigger] r.entities.lookup(x) is None,
            json_text(r.metadata) == "null"@,
    {
        RealmState {
            realm_id,
            version: 0,
            timestamp: None,
            event_hash: None,
            entities: TextMap::new(),
            metadata: json_null(),
        }
    }

    /// The next version of this state, with the given timestamp and event
    /// hash; the entities and metadata carry over.
    pub fn next_version(self, timestamp: Option<u64>, event_hash: Option<String>) -> (r: Self)
        requires
            self.version < u64::MAX,
        ensures
            r.version == self.version + 1,
            r.realm_id == self.realm_id,
            r.timestamp == timestamp,
            r.event_hash == event_hash,
            r.entities == self.entities,
            r.metadata == self.metadata,
    {
        let mut s = self;
        s.version = s.version + 1;
        s.timestamp = timestamp;
        s.event_hash = event_hash;
        s
    }

    /// Put an entity under `type/id`, replacing any there.
    pub fn set_entity(&mut self, entity_type: &str, entity_id: &str, value: serde_json::Value)
        ensures
            forall|x: Seq<char>| #[trigger] final(self).entities.lookup(x) == if x == entity_key(entity_type@, entity_id@) {
                Some(value)
            } else {
                old(self).entities.lookup(x)
            },
            final(self).realm_id == old(self).realm_id,
            final(self).version == old(self).version,
            final(self).timestamp == old(self).timestamp,
            final(self).event_hash == old(self).event_hash,
            final(self).metadata == old(self).metadata,
    {
        let key = entity_key_of(entity_type, entity_id);
        self.entities.insert(key, value);
    }

    /// The entity under `type/id`.
    pub fn get_entity(&self, entity_type: &str, entity_id: &str) -> (r: Option<&serde_json::Value>)
        ensures
            match r {
                Some(v) => self.entities.lookup(entity_key(entity_type@, entity_id@)) == Some(*v),
                None => self.entities.lookup(entity_key(entity_type@, entity_id@)) is None,
            },
    {
        let key = entity_key_of(entity_type, entity_id);
        self.entities.get(key.as_str())
    }

    /// Take the entity under `type/id` out of the state.
    pub fn remove_entity(&mut self, entity_type: &str, entity_id: &str) -> (r: Option<serde_json::Value>)
        ensures
            r == old(self).entities.lookup(entity_key(entity_type@, entity_id@)),
            forall|x: Seq<char>| #[trigger] final(self).entities.lookup(x) == if x == entity_key(entity_type@, entity_id@) {
                None
            } else {
                old(self).entities.lookup(x)
            },
            final(self).realm_id == old(self).realm_id,
            final(self).version == old(self).version,
            final(self).timestamp == old(self).timestamp,
            final(self).event_hash == old(self).event_hash,
            final(self).metadata == old(self).metadata,
    {
        let key = entity_key_of(entity_type, entity_id);
        self.entities.remove(key.as_str())
    }

    pub fn entity_count(&self) -> (r: usize)
        ensures
            r == self.entities.spec_entries().len(),
    {
        self.entities.len()
    }

    /// A deterministic checksum of the entities, for drift detection.
    pub fn checksum(&self) -> (r: String)
        ensures
            r@ == self.spec_checksum(),
    {
        let entries = self.entities.entries();
        let ghost es = self.entities.spec_entries();
        let mut pairs: Vec<(String, String)> = Vec::new();
        let mut k: usize = 0;
        while k < entries.len()
            invariant
                k <= entries@.len(),
                entries@.map_values(|e: (String, serde_json::Value)| (e.0@, e.1)) == es,
                pairs@.map_values(|p: (String, String)| (p.0@, p.1@)) == es.take(k as int).map_values(
                    |e: (Seq<char>, serde_json::Value)| (e.0, json_text(e.1)),
                ),
            decreases entries@.len() - k,
        {
            let ghost before = pairs@;
            let key = entries[k].0.clone();
            let text = json_to_text(&entries[k].1);
            pairs.push((key, text));
            proof {
                assert(es[k as int] == (entries@[k as int].0@, entries@[k as int].1));
                assert(pairs@.map_values(|p: (String, String)| (p.0@, p.1@)) =~= before.map_values(
                    |p: (String, String)| (p.0@, p.1@),
                ).push((es[k as int].0, json_text(es[k as int].1))));
                assert(es.take(k + 1) =~= es.take(k as int).push(es[k as int]));
                assert(es.take(k + 1).map_values(|e: (Seq<char>, serde_json::Value)| (e.0, json_text(e.1))) =~= es.take(
                    k as int,
                ).map_values(|e: (Seq<char>, serde_json::Value)| (e.0, json_text(e.1))).push((es[k as int].0, json_text(es[k as int].1))));
            }
            k = k + 1;
        }
        proof {
            assert(es.take(es.len() as int) =~= es);
        }
        let digest = hash_entries(&pairs);
        let mut s = String::new();
        push_hex(&mut s, digest);
        s
    }
}

/// The key `type/id`.
fn entity_key_of(entity_type: &str, entity_id: &str) -> (r: String)
    ensures
        r@ == entity_key(entity_type@, entity_id@),
{
    let mut s = String::from_str(entity_type);
    s.append("/");
    s.append(entity_id);
    proof {
        reveal_strlit("/");
    }
    s
}

/// States with the same entities, in the same order, have the same checksum.
pub proof fn lemma_checksum_of_entities(a: RealmState, b: RealmState)
    requires
        a.entities.spec_entries() == b.entities.spec_entries(),
    ensures
        a.spec_checksum() == b.spec_checksum(),
{
}

} // verus!
