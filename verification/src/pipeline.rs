//! The event pipeline every event passes through: ABI version, schema,
//! clock and causality (by arbitration), and capability checks, in that
//! order; the first that fails rejects the event.

use vstd::prelude::*;
use crate::arbitrator::{arbitration, arbitration_text, opt_text, ArbitrationError, ArbitrationErrorView, KernelArbitrator};
use crate::projection_contract::{checksum_of, ProjectionChecksum};
use crate::realm_id::{realm_name, RealmId};
use crate::query_parser::{parse_u16, spec_parse_u16};
use crate::text::{before_char, decimal, same_text, text_before};
use crate::text_map::{find_key, lemma_find_key_at, lemma_find_key_push, lemma_find_key_skip, lemma_find_key_update};

verus! {

// ─── Decisions and reasons ───────────────────────────────────────────────────

/// Why the kernel rejected an event.
#[derive(Debug, Clone, PartialEq, Eq)]
pub enum RejectionReason {
    AbiBadVersion { expected: String, got: String },
    SchemaUnknown { schema_id: String },
    ClockViolation { realm: String, lamport: u64 },
    CapabilityDenied { required: String, actor: String },
    CausalParentMissing { parent_event_id: String },
    ReplayParadox { event_id: String },
    UnauthorizedCrossRealm { source: String, target: String },
    ValidationFailed(String),
}

/// The mathematical value of a [`RejectionReason`].
pub enum RejectionView {
    AbiBadVersion { expected: Seq<char>, got: Seq<char> },
    SchemaUnknown { schema_id: Seq<char> },
    ClockViolation { realm: Seq<char>, lamport: u64 },
    CapabilityDenied { required: Seq<char>, actor: Seq<char> },
    CausalParentMissing { parent_event_id: Seq<char> },
    ReplayParadox { event_id: Seq<char> },
    UnauthorizedCrossRealm { source: Seq<char>, target: Seq<char> },
    ValidationFailed(Seq<char>),
}

impl View for RejectionReason {
    type V = RejectionView;

    open spec fn view(&self) -> RejectionView {
        match self {
            RejectionReason::AbiBadVersion { expected, got } => RejectionView::AbiBadVersion { expected: expected@, got: got@ },
            RejectionReason::SchemaUnknown { schema_id } => RejectionView::SchemaUnknown { schema_id: schema_id@ },
            RejectionReason::ClockViolation { realm, lamport } => RejectionView::ClockViolation { realm: realm@, lamport: *lamport },
            RejectionReason::CapabilityDenied { required, actor } => RejectionView::CapabilityDenied { required: required@, actor: actor@ },
            RejectionReason::CausalParentMissing { parent_event_id } => RejectionView::CausalParentMissing {
                parent_event_id: parent_event_id@,
            },
            RejectionReason::ReplayParadox { event_id } => RejectionView::ReplayParadox { event_id: event_id@ },
            RejectionReason::UnauthorizedCrossRealm { source, target } => RejectionView::UnauthorizedCrossRealm {
                source: source@,
                target: target@,
            },
            RejectionReason::ValidationFailed(m) => RejectionView::ValidationFailed(m@),
        }
    }
}

/// The message a rejection prints.
pub open spec fn rejection_text(r: RejectionView) -> Seq<char> {
    match r {
        RejectionView::AbiBadVersion { expected, got } => "ABI version mismatch: expected "@ + expected + ", got "@ + got,
        RejectionView::SchemaUnknown { schema_id } => "schema '"@ + schema_id + "' not registered"@,
        RejectionView::ClockViolation { realm, lamport } => "clock violation in realm "@ + realm + " at lamport "@ + decimal(
            lamport as nat,
        ),
        RejectionView::CapabilityDenied { required, actor } => "capability '"@ + required + "' denied for actor '"@ + actor + "'"@,
        RejectionView::CausalParentMissing { parent_event_id } => "causal parent '"@ + parent_event_id + "' not yet processed"@,
        RejectionView::ReplayParadox { event_id } => "replay paradox: event '"@ + event_id + "' already processed"@,
        RejectionView::UnauthorizedCrossRealm { source, target } => "unauthorized cross-realm: "@ + source + " → "@ + target,
        RejectionView::ValidationFailed(m) => "validation failed: "@ + m,
    }
}

impl RejectionReason {
    /// The message, as the rejection prints it.
    pub fn to_text(&self) -> (r: String)
        ensures
            r@ == rejection_text(self@),
    {
        proof {
            reveal_strlit("ABI version mismatch: expected ");
            reveal_strlit(", got ");
            reveal_strlit("schema '");
            reveal_strlit("' not registered");
            reveal_strlit("clock violation in realm ");
            reveal_strlit(" at lamport ");
            reveal_strlit("capability '");
            reveal_strlit("' denied for actor '");
            reveal_strlit("'");
            reveal_strlit("causal parent '");
            reveal_strlit("' not yet processed");
            reveal_strlit("replay paradox: event '");
            reveal_strlit("' already processed");
            reveal_strlit("unauthorized cross-realm: ");
            reveal_strlit(" → ");
            reveal_strlit("validation failed: ");
        }
        match self {
            RejectionReason::AbiBadVersion { expected, got } => {
                let mut s = String::from_str("ABI version mismatch: expected ");
                s.append(expected.as_str());
                s.append(", got ");
                s.append(got.as_str());
                s
            },
            RejectionReason::SchemaUnknown { schema_id } => {
                let mut s = String::from_str("schema '");
                s.append(schema_id.as_str());
                s.append("' not registered");
                s
            },
            RejectionReason::ClockViolation { realm, lamport } => {
                let mut s = String::from_str("clock violation in realm ");
                s.append(realm.as_str());
                s.append(" at lamport ");
                crate::text::push_decimal_u64(&mut s, *lamport);
                s
            },
            RejectionReason::CapabilityDenied { required, actor } => {
                let mut s = String::from_str("capability '");
                s.append(required.as_str());
                s.append("' denied for actor '");
                s.append(actor.as_str());
                s.append("'");
                s
            },
            RejectionReason::CausalParentMissing { parent_event_id } => {
                let mut s = String::from_str("causal parent '");
                s.append(parent_event_id.as_str());
                s.append("' not yet processed");
                s
            },
            RejectionReason::ReplayParadox { event_id } => {
                let mut s = String::from_str("replay paradox: event '");
                s.append(event_id.as_str());
                s.append("' already processed");
                s
            },
            RejectionReason::UnauthorizedCrossRealm { source, target } => {
                let mut s = String::from_str("unauthorized cross-realm: ");
                s.append(source.as_str());
                s.append(" → ");
                s.append(target.as_str());
                s
            },
            RejectionReason::ValidationFailed(m) => {
                let mut s = String::from_str("validation failed: ");
                s.append(m.as_str());
                s
            },
        }
    }
}

/// The kernel's verdict on one event.
#[derive(Debug, Clone, PartialEq, Eq)]
pub enum KernelDecision {
    Allow,
    Reject(RejectionReason),
    /// Allowed after the payload was transformed (e.g. migrated).
    Transform { transformer_id: String },
}

impl KernelDecision {
    pub fn is_allow(&self) -> (r: bool)
        ensures
            r == (*self is Allow || *self is Transform),
    {
        match self {
            KernelDecision::Reject(_) => false,
            _ => true,
        }
    }

    pub fn is_reject(&self) -> (r: bool)
        ensures
            r == (*self is Reject),
    {
        match self {
            KernelDecision::Reject(_) => true,
            _ => false,
        }
    }
}

// ─── PipelineEvent ───────────────────────────────────────────────────────────

/// An event as it enters the pipeline.
#[derive(Debug, Clone)]
pub struct PipelineEvent {
    pub event_id: String,
    pub schema_id: String,
    pub schema_version_major: u16,
    pub schema_version_minor: u16,
    pub source_realm: RealmId,
    pub target_realm: RealmId,
    pub lamport: u64,
    pub producer: String,
    pub causal_parent: Option<String>,
    pub payload: serde_json::Value,
    /// The checksum of the payload's JSON text.
    pub payload_hash: String,
    /// Whose capability is checked.
    pub actor: String,
    /// The capability the event needs, if any.
    pub required_capability: Option<String>,
    pub abi_version: String,
}

impl PipelineEvent {
    /// An event from `system`, schema version 1.0, ABI 1.0.0, no parent and
    /// no capability needed; its payload hash is the payload's checksum.
    pub fn new(event_id: &str, schema_id: &str, source: RealmId, target: RealmId, lamport: u64, payload: serde_json::Value) -> (r: Self)
        ensures
            r.event_id@ == event_id@,
            r.schema_id@ == schema_id@,
            r.schema_version_major == 1,
            r.schema_version_minor == 0,
            r.source_realm == source,
            r.target_realm == target,
            r.lamport == lamport,
            r.producer@ == "system"@,
            r.causal_parent is None,
            r.payload == payload,
            r.payload_hash@ == checksum_of(payload),
            r.actor@ == "system"@,
            r.required_capability is None,
            r.abi_version@ == "1.0.0"@,
    {
        let hash = ProjectionChecksum::compute(&payload);
        PipelineEvent {
            event_id: event_id.to_owned(),
            schema_id: schema_id.to_owned(),
            schema_version_major: 1,
            schema_version_minor: 0,
            source_realm: source,
            target_realm: target,
            lamport,
            producer: String::from_str("system"),
            causal_parent: None,
            payload,
            payload_hash: hash.0,
            actor: String::from_str("system"),
            required_capability: None,
            abi_version: String::from_str("1.0.0"),
        }
    }

    pub fn with_actor(self, actor: &str) -> (r: Self)
        ensures
            r.actor@ == actor@,
            r.event_id == self.event_id && r.lamport == self.lamport && r.source_realm == self.source_realm,
            r.schema_id == self.schema_id && r.causal_parent == self.causal_parent,
            r.required_capability == self.required_capability && r.abi_version == self.abi_version,
            r.producer == self.producer && r.payload == self.payload && r.payload_hash == self.payload_hash,
            r.target_realm == self.target_realm,
    {
        let mut e = self;
        e.actor = actor.to_owned();
        e
    }

    pub fn with_producer(self, producer: &str) -> (r: Self)
        ensures
            r.producer@ == producer@,
            r.event_id == self.event_id && r.lamport == self.lamport && r.source_realm == self.source_realm,
            r.schema_id == self.schema_id && r.causal_parent == self.causal_parent,
            r.required_capability == self.required_capability && r.abi_version == self.abi_version,
            r.actor == self.actor && r.payload == self.payload && r.payload_hash == self.payload_hash,
            r.target_realm == self.target_realm,
    {
        let mut e = self;
        e.producer = producer.to_owned();
        e
    }

    pub fn with_causal_parent(self, parent: &str) -> (r: Self)
        ensures
            r.causal_parent matches Some(p) && p@ == parent@,
            r.event_id == self.event_id && r.lamport == self.lamport && r.source_realm == self.source_realm,
            r.schema_id == self.schema_id && r.producer == self.producer,
            r.required_capability == self.required_capability && r.abi_version == self.abi_version,
            r.actor == self.actor && r.payload == self.payload && r.payload_hash == self.payload_hash,
            r.target_realm == self.target_realm,
    {
        let mut e = self;
        e.causal_parent = Some(parent.to_owned());
        e
    }

    pub fn require_capability(self, cap: &str) -> (r: Self)
        ensures
            r.required_capability matches Some(c) && c@ == cap@,
            r.event_id == self.event_id && r.lamport == self.lamport && r.source_realm == self.source_realm,
            r.schema_id == self.schema_id && r.producer == self.producer && r.causal_parent == self.causal_parent,
            r.abi_version == self.abi_version,
            r.actor == self.actor && r.payload == self.payload && r.payload_hash == self.payload_hash,
            r.target_realm == self.target_realm,
    {
        let mut e = self;
        e.required_capability = Some(cap.to_owned());
        e
    }
}


// ─── Key lists ───────────────────────────────────────────────────────────────

/// The texts of a list of strings.
pub open spec fn texts_of(v: Seq<String>) -> Seq<Seq<char>> {
    v.map_values(|s: String| s@)
}

/// Does the actor hold the capability, or the wildcard `*`?
pub open spec fn has_cap(caps: Seq<(Seq<char>, Seq<Seq<char>>)>, actor: Seq<char>, cap: Seq<char>) -> bool {
    match find_key(caps, actor) {
        Some(l) => l.contains(cap) || l.contains("*"@),
        None => false,
    }
}

// ─── PipelineConfig ──────────────────────────────────────────────────────────

/// The registered schemas, the granted capabilities and the ABI version the
/// pipeline checks against.
#[derive(Debug, Clone)]
pub struct PipelineConfig {
    /// Schema id → (major, minor).
    known_schemas: Vec<(String, (u16, u16))>,
    /// Actor → capabilities.
    granted_capabilities: Vec<(String, Vec<String>)>,
    /// Whether cross-realm events need a registered contract.
    pub enforce_cross_realm_contracts: bool,
    /// Events with another ABI major version are rejected.
    pub abi_major: u16,
}

impl PipelineConfig {
    pub closed spec fn spec_schemas(&self) -> Seq<(Seq<char>, (u16, u16))> {
        self.known_schemas@.map_values(|e: (String, (u16, u16))| (e.0@, e.1))
    }

    pub closed spec fn spec_caps(&self) -> Seq<(Seq<char>, Seq<Seq<char>>)> {
        self.granted_capabilities@.map_values(|e: (String, Vec<String>)| (e.0@, texts_of(e.1@)))
    }

    pub closed spec fn spec_abi_major(&self) -> u16 {
        self.abi_major
    }

    pub closed spec fn spec_enforce(&self) -> bool {
        self.enforce_cross_realm_contracts
    }

    /// No schemas, no capabilities, contracts enforced, ABI major 1.
    pub fn new() -> (r: Self)
        ensures
            r.spec_schemas().len() == 0,
            r.spec_caps().len() == 0,
            r.spec_enforce(),
            r.spec_abi_major() == 1,
    {
        PipelineConfig { known_schemas: Vec::new(), granted_capabilities: Vec::new(), enforce_cross_realm_contracts: true, abi_major: 1 }
    }

    /// Register a schema version, replacing any earlier registration of the id.
    pub fn register_schema(&mut self, id: &str, major: u16, minor: u16)
        ensures
            forall|x: Seq<char>| #[trigger] find_key(final(self).spec_schemas(), x) == if x == id@ {
                Some((major, minor))
            } else {
                find_key(old(self).spec_schemas(), x)
            },
            final(self).spec_schemas().len() > 0,
            final(self).spec_caps() == old(self).spec_caps(),
            final(self).spec_abi_major() == old(self).spec_abi_major(),
            final(self).spec_enforce() == old(self).spec_enforce(),
    {
        let ghost s = self.spec_schemas();
        let mut i: usize = 0;
        assert(s.skip(0) =~= s);
        while i < self.known_schemas.len()
            invariant
                i <= self.known_schemas@.len(),
                s == old(self).spec_schemas(),
                self.granted_capabilities@ == old(self).granted_capabilities@,
                self.abi_major == old(self).abi_major,
                self.enforce_cross_realm_contracts == old(self).enforce_cross_realm_contracts,
                s == self.spec_schemas(),
                s.len() == self.known_schemas@.len(),
                find_key(s, id@) == find_key(s.skip(i as int), id@),
                forall|j: int| 0 <= j < i ==> (#[trigger] s[j]).0 != id@,
            decreases self.known_schemas@.len() - i,
        {
            assert(s[i as int].0 == self.known_schemas@[i as int].0@);
            if same_text(self.known_schemas[i].0.as_str(), id) {
                self.known_schemas.set(i, (id.to_owned(), (major, minor)));
                proof {
                    assert(self.spec_schemas() =~= s.update(i as int, (id@, (major, minor))));
                    assert forall|x: Seq<char>| #[trigger] find_key(self.spec_schemas(), x) == if x == id@ {
                        Some((major, minor))
                    } else {
                        find_key(s, x)
                    } by {
                        lemma_find_key_update(s, i as int, id@, (major, minor), x);
                    }
                }
                return;
            }
            proof {
                lemma_find_key_skip(s, i as int, id@);
            }
            i = i + 1;
        }
        proof {
            assert(s.skip(s.len() as int) =~= Seq::<(Seq<char>, (u16, u16))>::empty());
        }
        self.known_schemas.push((id.to_owned(), (major, minor)));
        proof {
            assert(self.spec_schemas() =~= s.push((id@, (major, minor))));
            assert forall|x: Seq<char>| #[trigger] find_key(self.spec_schemas(), x) == if x == id@ {
                Some((major, minor))
            } else {
                find_key(s, x)
            } by {
                lemma_find_key_push(s, id@, (major, minor), x);
            }
        }
    }

    /// Grant a capability to an actor, after those it already holds.
    pub fn grant_capability(&mut self, actor: &str, capability: &str)
        ensures
            forall|x: Seq<char>| #[trigger] find_key(final(self).spec_caps(), x) == if x == actor@ {
                Some(
                    match find_key(old(self).spec_caps(), x) {
                        Some(l) => l,
                        None => Seq::<Seq<char>>::empty(),
                    }.push(capability@),
                )
            } else {
                find_key(old(self).spec_caps(), x)
            },
            final(self).spec_schemas() == old(self).spec_schemas(),
            final(self).spec_abi_major() == old(self).spec_abi_major(),
            final(self).spec_enforce() == old(self).spec_enforce(),
    {
        let ghost s = self.spec_caps();
        let mut i: usize = 0;
        assert(s.skip(0) =~= s);
        while i < self.granted_capabilities.len()
            invariant
                i <= self.granted_capabilities@.len(),
                s == old(self).spec_caps(),
                self.known_schemas@ == old(self).known_schemas@,
                self.abi_major == old(self).abi_major,
                self.enforce_cross_realm_contracts == old(self).enforce_cross_realm_contracts,
                s == self.spec_caps(),
                s.len() == self.granted_capabilities@.len(),
                find_key(s, actor@) == find_key(s.skip(i as int), actor@),
                forall|j: int| 0 <= j < i ==> (#[trigger] s[j]).0 != actor@,
            decreases self.granted_capabilities@.len() - i,
        {
            assert(s[i as int] == (self.granted_capabilities@[i as int].0@, texts_of(self.granted_capabilities@[i as int].1@)));
            if same_text(self.granted_capabilities[i].0.as_str(), actor) {
                let mut caps: Vec<String> = Vec::new();
                let mut k: usize = 0;
                while k < self.granted_capabilities[i].1.len()
                    invariant
                        i < self.granted_capabilities@.len(),
                        k <= self.granted_capabilities@[i as int].1@.len(),
                        texts_of(caps@) == texts_of(self.granted_capabilities@[i as int].1@).take(k as int),
                    decreases self.granted_capabilities@[i as int].1@.len() - k,
                {
                    let ghost before = texts_of(caps@);
                    caps.push(self.granted_capabilities[i].1[k].clone());
                    proof {
                        assert(texts_of(caps@) =~= before.push(self.granted_capabilities@[i as int].1@[k as int]@));
                        assert(texts_of(self.granted_capabilities@[i as int].1@).take(k + 1) =~= texts_of(
                            self.granted_capabilities@[i as int].1@,
                        ).take(k as int).push(self.granted_capabilities@[i as int].1@[k as int]@));
                    }
                    k = k + 1;
                }
                proof {
                    assert(texts_of(self.granted_capabilities@[i as int].1@).take(
                        self.granted_capabilities@[i as int].1@.len() as int,
                    ) =~= texts_of(self.granted_capabilities@[i as int].1@));
                    lemma_find_key_at(s, i as int, actor@);
                }
                let ghost old_list = texts_of(caps@);
                caps.push(capability.to_owned());
                let ghost new_list = texts_of(caps@);
                assert(new_list =~= old_list.push(capability@));
                self.granted_capabilities.set(i, (actor.to_owned(), caps));
                proof {
                    assert(self.spec_caps() =~= s.update(i as int, (actor@, new_list)));
                    assert forall|x: Seq<char>| #[trigger] find_key(self.spec_caps(), x) == if x == actor@ {
                        Some(new_list)
                    } else {
                        find_key(s, x)
                    } by {
                        lemma_find_key_update(s, i as int, actor@, new_list, x);
                    }
                }
                return;
            }
            proof {
                lemma_find_key_skip(s, i as int, actor@);
            }
            i = i + 1;
        }
        proof {
            assert(s.skip(s.len() as int) =~= Seq::<(Seq<char>, Seq<Seq<char>>)>::empty());
        }
        let mut caps: Vec<String> = Vec::new();
        caps.push(capability.to_owned());
        let ghost new_list = texts_of(caps@);
        assert(new_list =~= Seq::<Seq<char>>::empty().push(capability@));
        self.granted_capabilities.push((actor.to_owned(), caps));
        proof {
            assert(self.spec_caps() =~= s.push((actor@, new_list)));
            assert forall|x: Seq<char>| #[trigger] find_key(self.spec_caps(), x) == if x == actor@ {
                Some(new_list)
            } else {
                find_key(s, x)
            } by {
                lemma_find_key_push(s, actor@, new_list, x);
            }
        }
    }

    /// Is a schema with this id registered?
    fn schema_known(&self, id: &str) -> (r: bool)
        ensures
            r == (find_key(self.spec_schemas(), id@) is Some),
    {
        let ghost s = self.spec_schemas();
        let mut i: usize = 0;
        assert(s.skip(0) =~= s);
        while i < self.known_schemas.len()
            invariant
                i <= self.known_schemas@.len(),
                s == self.spec_schemas(),
                s.len() == self.known_schemas@.len(),
                find_key(s, id@) == find_key(s.skip(i as int), id@),
            decreases self.known_schemas@.len() - i,
        {
            assert(s[i as int].0 == self.known_schemas@[i as int].0@);
            if same_text(self.known_schemas[i].0.as_str(), id) {
                proof {
                    lemma_find_key_at(s, i as int, id@);
                }
                return true;
            }
            proof {
                lemma_find_key_skip(s, i as int, id@);
            }
            i = i + 1;
        }
        proof {
            assert(s.skip(s.len() as int) =~= Seq::<(Seq<char>, (u16, u16))>::empty());
        }
        false
    }

    /// Does the actor hold the capability, or the wildcard `*`?
    pub fn has_capability(&self, actor: &str, cap: &str) -> (r: bool)
        ensures
            r == has_cap(self.spec_caps(), actor@, cap@),
    {
        let ghost s = self.spec_caps();
        let mut i: usize = 0;
        assert(s.skip(0) =~= s);
        while i < self.granted_capabilities.len()
            invariant
                i <= self.granted_capabilities@.len(),
                s == self.spec_caps(),
                s.len() == self.granted_capabilities@.len(),
                find_key(s, actor@) == find_key(s.skip(i as int), actor@),
            decreases self.granted_capabilities@.len() - i,
        {
            assert(s[i as int] == (self.granted_capabilities@[i as int].0@, texts_of(self.granted_capabilities@[i as int].1@)));
            if same_text(self.granted_capabilities[i].0.as_str(), actor) {
                proof {
                    lemma_find_key_at(s, i as int, actor@);
                    reveal_strlit("*");
                }
                let ghost l = texts_of(self.granted_capabilities@[i as int].1@);
                let mut k: usize = 0;
                while k < self.granted_capabilities[i].1.len()
                    invariant
                        i < self.granted_capabilities@.len(),
                        l == texts_of(self.granted_capabilities@[i as int].1@),
                        s == self.spec_caps(),
                        find_key(s, actor@) == Some(l),
                        k <= l.len(),
                        forall|j: int| 0 <= j < k ==> l[j] != cap@ && l[j] != "*"@,
                    decreases l.len() - k,
                {
                    let c = self.granted_capabilities[i].1[k].as_str();
                    assert(l[k as int] == c@);
                    if same_text(c, cap) || same_text(c, "*") {
                        assert(l.contains(cap@) || l.contains("*"@)) by {
                            assert(l[k as int] == cap@ || l[k as int] == "*"@);
                        }
                        return true;
                    }
                    k = k + 1;
                }
                return false;
            }
            proof {
                lemma_find_key_skip(s, i as int, actor@);
            }
            i = i + 1;
        }
        proof {
            assert(s.skip(s.len() as int) =~= Seq::<(Seq<char>, Seq<Seq<char>>)>::empty());
        }
        false
    }
}

impl Default for PipelineConfig {
    fn default() -> (r: Self)
        ensures
            r.spec_schemas().len() == 0,
            r.spec_caps().len() == 0,
            r.spec_enforce(),
            r.spec_abi_major() == 1,
    {
        Self::new()
    }
}

// ─── PipelineResult ──────────────────────────────────────────────────────────

/// The outcome of one event's pass through the pipeline.
#[derive(Debug, Clone)]
pub struct PipelineResult {
    pub event_id: String,
    pub decision: KernelDecision,
    /// Follow-on events emitted as a consequence.
    pub emitted_events: Vec<String>,
    /// The stage that produced this result.
    pub stage: PipelineStage,
}

/// The stages of the pipeline.
#[derive(Debug, Clone, Copy, PartialEq, Eq, Structural)]
pub enum PipelineStage {
    AbiValidation,
    SchemaValidation,
    ClockValidation,
    CapabilityValidation,
    CausalValidation,
    Decision,
    Apply,
    Emit,
}

// ─── The pipeline's rules ────────────────────────────────────────────────────

/// The ABI major version an event carries: the number before the first
/// `.` of its ABI version, or 0 when that is no number.
pub open spec fn event_abi_major(abi_version: Seq<char>) -> u16 {
    match spec_parse_u16(text_before(abi_version, '.')) {
        Some(m) => m,
        None => 0,
    }
}

/// The view of an optional owned text.
pub open spec fn opt_string(o: Option<String>) -> Option<Seq<char>> {
    match o {
        Some(s) => Some(s@),
        None => None,
    }
}

/// How a refusal by arbitration is reported.
pub open spec fn clock_rejection(e: ArbitrationErrorView) -> RejectionView {
    match e {
        ArbitrationErrorView::DuplicateLamport { realm, lamport } => RejectionView::ClockViolation {
            realm: realm_name(realm),
            lamport,
        },
        ArbitrationErrorView::ReplayParadox { id } => RejectionView::ReplayParadox { event_id: id },
        other => RejectionView::ValidationFailed(arbitration_text(other)),
    }
}

/// What the pipeline makes of an event, given the configuration and what
/// arbitration has seen and processed: the stage and reason of a rejection
/// (none when the event is allowed), and the seen pairs and processed ids
/// afterwards. The checks run in order: ABI major version, schema (an empty
/// registry accepts every schema), clock and causality by arbitration, then
/// the required capability.
pub open spec fn pipeline_outcome(
    schemas: Seq<(Seq<char>, (u16, u16))>,
    caps: Seq<(Seq<char>, Seq<Seq<char>>)>,
    abi_major: u16,
    seen: Seq<(RealmId, u64)>,
    done: Seq<Seq<char>>,
    e: PipelineEvent,
) -> (Option<(PipelineStage, RejectionView)>, Seq<(RealmId, u64)>, Seq<Seq<char>>) {
    let major = event_abi_major(e.abi_version@);
    if major != abi_major {
        (
            Some(
                (
                    PipelineStage::AbiValidation,
                    RejectionView::AbiBadVersion { expected: decimal(abi_major as nat), got: decimal(major as nat) },
                ),
            ),
            seen,
            done,
        )
    } else if schemas.len() > 0 && find_key(schemas, e.schema_id@) is None {
        (Some((PipelineStage::SchemaValidation, RejectionView::SchemaUnknown { schema_id: e.schema_id@ })), seen, done)
    } else {
        let arb = arbitration(seen, done, e.event_id@, e.source_realm, e.lamport, opt_string(e.causal_parent));
        match arb.0 {
            Err(err) => (Some((PipelineStage::ClockValidation, clock_rejection(err))), arb.1, arb.2),
            Ok(_) => {
                if e.required_capability is Some && !has_cap(caps, e.actor@, e.required_capability.unwrap()@) {
                    (
                        Some(
                            (
                                PipelineStage::CapabilityValidation,
                                RejectionView::CapabilityDenied {
                                    required: e.required_capability.unwrap()@,
                                    actor: e.actor@,
                                },
                            ),
                        ),
                        arb.1,
                        arb.2,
                    )
                } else {
                    (None, arb.1, arb.2)
                }
            },
        }
    }
}

// ─── EventPipeline ───────────────────────────────────────────────────────────

/// The kernel arbitration layer every event passes through.
pub struct EventPipeline {
    config: PipelineConfig,
    arbitrator: KernelArbitrator,
    processed_count: u64,
    rejected_count: u64,
}

impl EventPipeline {
    pub closed spec fn spec_config(&self) -> PipelineConfig {
        self.config
    }

    pub closed spec fn spec_seen(&self) -> Seq<(RealmId, u64)> {
        self.arbitrator.spec_seen()
    }

    pub closed spec fn spec_done(&self) -> Seq<Seq<char>> {
        self.arbitrator.spec_processed()
    }

    pub closed spec fn spec_processed_count(&self) -> u64 {
        self.processed_count
    }

    pub closed spec fn spec_rejected_count(&self) -> u64 {
        self.rejected_count
    }

    /// A pipeline with the given configuration, nothing seen yet.
    pub fn new(config: PipelineConfig) -> (r: Self)
        ensures
            r.spec_config() == config,
            r.spec_seen().len() == 0,
            r.spec_done().len() == 0,
            r.spec_processed_count() == 0,
            r.spec_rejected_count() == 0,
    {
        EventPipeline { config, arbitrator: KernelArbitrator::new(), processed_count: 0, rejected_count: 0 }
    }

    /// Process one event through the full pipeline. A rejected event is
    /// counted as rejected, an allowed one as processed; the result names the
    /// stage that decided.
    pub fn process(&mut self, event: &PipelineEvent) -> (r: PipelineResult)
        requires
            old(self).spec_processed_count() < u64::MAX,
            old(self).spec_rejected_count() < u64::MAX,
        ensures
            ({
                let out = pipeline_outcome(
                    old(self).spec_config().spec_schemas(),
                    old(self).spec_config().spec_caps(),
                    old(self).spec_config().spec_abi_major(),
                    old(self).spec_seen(),
                    old(self).spec_done(),
                    *event,
                );
                &&& r.event_id@ == event.event_id@
                &&& r.emitted_events@.len() == 0
                &&& match out.0 {
                    Some((stage, reason)) => {
                        &&& r.stage == stage
                        &&& r.decision matches KernelDecision::Reject(why) && why@ == reason
                        &&& final(self).spec_rejected_count() == old(self).spec_rejected_count() + 1
                        &&& final(self).spec_processed_count() == old(self).spec_processed_count()
                    },
                    None => {
                        &&& r.stage == PipelineStage::Apply
                        &&& r.decision is Allow
                        &&& final(self).spec_processed_count() == old(self).spec_processed_count() + 1
                        &&& final(self).spec_rejected_count() == old(self).spec_rejected_count()
                    },
                }
                &&& final(self).spec_seen() == out.1
                &&& final(self).spec_done() == out.2
                &&& final(self).spec_config() == old(self).spec_config()
            }),
    {
        // 1. ABI major version.
        let major_txt = before_char(event.abi_version.as_str(), '.');
        let major: u16 = match parse_u16(major_txt.as_str()) {
            Some(m) => m,
            None => 0,
        };
        if major != self.config.abi_major {
            let mut expected = String::new();
            crate::text::push_decimal_u64(&mut expected, self.config.abi_major as u64);
            let mut got = String::new();
            crate::text::push_decimal_u64(&mut got, major as u64);
            proof {
                assert(expected@ =~= decimal(self.config.abi_major as nat));
                assert(got@ =~= decimal(major as nat));
            }
            self.rejected_count = self.rejected_count + 1;
            return Self::reject(event, RejectionReason::AbiBadVersion { expected, got }, PipelineStage::AbiValidation);
        }
        // 2. Schema, unless the registry is empty.
        if self.config.known_schemas.len() > 0 && !self.config.schema_known(event.schema_id.as_str()) {
            self.rejected_count = self.rejected_count + 1;
            return Self::reject(
                event,
                RejectionReason::SchemaUnknown { schema_id: event.schema_id.clone() },
                PipelineStage::SchemaValidation,
            );
        }
        // 3. Clock and causality.
        let parent: Option<&str> = match &event.causal_parent {
            Some(p) => Some(p.as_str()),
            None => None,
        };
        assert(opt_text(parent) == opt_string(event.causal_parent));
        match self.arbitrator.validate_event(event.event_id.as_str(), event.source_realm, event.lamport, parent) {
            Err(e) => {
                let reason = match e {
                    ArbitrationError::DuplicateLamport { realm, lamport } => {
                        let mut name = String::new();
                        name.append(realm.as_str());
                        RejectionReason::ClockViolation { realm: name, lamport }
                    },
                    ArbitrationError::ReplayParadox { id } => RejectionReason::ReplayParadox { event_id: id },
                    other => RejectionReason::ValidationFailed(other.to_text()),
                };
                self.rejected_count = self.rejected_count + 1;
                return Self::reject(event, reason, PipelineStage::ClockValidation);
            },
            Ok(_) => {},
        }
        // 4. Capability.
        match &event.required_capability {
            Some(required) => {
                if !self.config.has_capability(event.actor.as_str(), required.as_str()) {
                    self.rejected_count = self.rejected_count + 1;
                    return Self::reject(
                        event,
                        RejectionReason::CapabilityDenied { required: required.clone(), actor: event.actor.clone() },
                        PipelineStage::CapabilityValidation,
                    );
                }
            },
            None => {},
        }
        // 5. Causal validation lets every event through; 6. apply.
        self.processed_count = self.processed_count + 1;
        PipelineResult {
            event_id: event.event_id.clone(),
            decision: KernelDecision::Allow,
            emitted_events: Vec::new(),
            stage: PipelineStage::Apply,
        }
    }

    fn reject(event: &PipelineEvent, reason: RejectionReason, stage: PipelineStage) -> (r: PipelineResult)
        ensures
            r.event_id@ == event.event_id@,
            r.emitted_events@.len() == 0,
            r.stage == stage,
            r.decision == KernelDecision::Reject(reason),
    {
        PipelineResult {
            event_id: event.event_id.clone(),
            decision: KernelDecision::Reject(reason),
            emitted_events: Vec::new(),
            stage,
        }
    }

    /// Forget what arbitration has seen, and the counts, for a full replay.
    pub fn reset_for_replay(&mut self)
        ensures
            final(self).spec_seen().len() == 0,
            final(self).spec_done().len() == 0,
            final(self).spec_processed_count() == 0,
            final(self).spec_rejected_count() == 0,
            final(self).spec_config() == old(self).spec_config(),
    {
        self.arbitrator.reset_for_replay();
        self.processed_count = 0;
        self.rejected_count = 0;
    }

    pub fn processed_count(&self) -> (r: u64)
        ensures
            r == self.spec_processed_count(),
    {
        self.processed_count
    }

    pub fn rejected_count(&self) -> (r: u64)
        ensures
            r == self.spec_rejected_count(),
    {
        self.rejected_count
    }
}

} // verus!
