//! Event schemas: versions and their compatibility, migration strategies for
//! replay, and the registry of schemas by identifier.

use vstd::prelude::*;
use crate::realm_id::RealmId;
use crate::json::{json_map_insert, json_object, json_string, object_fields, object_value, string_value, take_object};
use crate::text::{bytes_eq, bytes_lt, decimal, lemma_lex_irreflexive, lemma_lex_total, lemma_lex_transitive, lex_lt, push_decimal};

verus! {

// ─── Versions ────────────────────────────────────────────────────────────────

/// Schema version (major.minor).
#[derive(Debug, Clone, Copy, PartialEq, Eq, Structural, PartialOrd, Ord, Hash)]
pub struct SchemaVersion {
    pub major: u16,
    pub minor: u16,
}

impl SchemaVersion {
    /// Version 1.0.
    pub fn v1() -> (r: Self)
        ensures
            r.major == 1,
            r.minor == 0,
    {
        SchemaVersion { major: 1, minor: 0 }
    }

    pub fn new(major: u16, minor: u16) -> (r: Self)
        ensures
            r.major == major,
            r.minor == minor,
    {
        SchemaVersion { major, minor }
    }

    /// Same major version.
    pub fn is_compatible_with(&self, other: &Self) -> (r: bool)
        ensures
            r == (self.major == other.major),
    {
        self.major == other.major
    }

    /// The version as `major.minor`.
    pub fn to_text(&self) -> (r: String)
        ensures
            r@ == decimal(self.major as nat) + "."@ + decimal(self.minor as nat),
    {
        let mut s = String::new();
        push_decimal(&mut s, self.major as usize);
        s.append(".");
        push_decimal(&mut s, self.minor as usize);
        s
    }
}

/// Can data written at `old` be read by code expecting `new`? Same major,
/// and no newer minor.
pub fn is_forward_compatible(old: SchemaVersion, new: SchemaVersion) -> (r: bool)
    ensures
        r == (old.major == new.major && old.minor <= new.minor),
{
    old.major == new.major && old.minor <= new.minor
}

/// Can `new` read data written at `old`? Same major.
pub fn is_backward_compatible(new: SchemaVersion, old: SchemaVersion) -> (r: bool)
    ensures
        r == (new.major == old.major),
{
    new.major == old.major
}

/// The latest known schema version.
pub fn latest_known() -> (r: SchemaVersion)
    ensures
        r == (SchemaVersion { major: 1, minor: 0 }),
{
    SchemaVersion::v1()
}

/// Forward compatibility is a preorder: every version reads its own data,
/// and it chains.
pub proof fn lemma_forward_compat_preorder(a: SchemaVersion, b: SchemaVersion, c: SchemaVersion)
    ensures
        a.major == a.major && a.minor <= a.minor,
        (a.major == b.major && a.minor <= b.minor) && (b.major == c.major && b.minor <= c.minor)
            ==> (a.major == c.major && a.minor <= c.minor),
{
}

/// Forward compatibility implies backward compatibility in the other direction.
pub proof fn lemma_forward_implies_backward(old: SchemaVersion, new: SchemaVersion)
    ensures
        (old.major == new.major && old.minor <= new.minor) ==> new.major == old.major,
{
}

// ─── Schemas ─────────────────────────────────────────────────────────────────

/// Stable identifier of an event schema.
#[derive(Debug, Clone, PartialEq, Eq, Hash)]
pub struct EventSchemaId(pub String);

impl EventSchemaId {
    pub fn new(s: &str) -> (r: Self)
        ensures
            r.0@ == s@,
    {
        EventSchemaId(String::from_str(s))
    }
}

/// How old schema versions are handled during replay.
#[derive(Debug, Clone, PartialEq, Eq)]
pub enum MigrationStrategy {
    /// Replay as-is.
    Passthrough,
    /// Transform the payload before the reducer sees it.
    Transform { transformer_id: String },
    /// Skip events with the old version.
    Skip,
    /// Stop replay at events with the old version.
    Reject { reason: String },
}

impl Default for MigrationStrategy {
    fn default() -> (r: Self)
        ensures
            r is Passthrough,
    {
        MigrationStrategy::Passthrough
    }
}

/// The contract of one event type.
#[derive(Debug, Clone)]
pub struct EventSchema {
    /// Stable event type identifier (e.g. "task.created").
    pub id: EventSchemaId,
    pub version: SchemaVersion,
    /// The realm that produces the event.
    pub producer_realm: RealmId,
    pub description: String,
    /// The realms that receive the event.
    pub projection_targets: Vec<RealmId>,
    /// Schemas whose events must be processed before this one.
    pub causal_requirements: Vec<EventSchemaId>,
    pub migration_strategy: MigrationStrategy,
    pub deprecated: bool,
}

impl EventSchema {
    pub fn new(id: &str, version: SchemaVersion, producer: RealmId, desc: &str) -> (r: Self)
        ensures
            r.id.0@ == id@,
            r.version == version,
            r.producer_realm == producer,
            r.description@ == desc@,
            r.projection_targets@.len() == 0,
            r.causal_requirements@.len() == 0,
            r.migration_strategy is Passthrough,
            !r.deprecated,
    {
        EventSchema {
            id: EventSchemaId::new(id),
            version,
            producer_realm: producer,
            description: String::from_str(desc),
            projection_targets: Vec::new(),
            causal_requirements: Vec::new(),
            migration_strategy: MigrationStrategy::Passthrough,
            deprecated: false,
        }
    }

    pub fn with_targets(self, targets: Vec<RealmId>) -> (r: Self)
        ensures
            r.projection_targets == targets,
            r.id == self.id,
            r.version == self.version,
            r.producer_realm == self.producer_realm,
            r.description == self.description,
            r.causal_requirements == self.causal_requirements,
            r.migration_strategy == self.migration_strategy,
            r.deprecated == self.deprecated,
    {
        let mut s = self;
        s.projection_targets = targets;
        s
    }

    pub fn with_requirements(self, reqs: Vec<EventSchemaId>) -> (r: Self)
        ensures
            r.causal_requirements == reqs,
            r.id == self.id,
            r.version == self.version,
            r.producer_realm == self.producer_realm,
            r.description == self.description,
            r.projection_targets == self.projection_targets,
            r.migration_strategy == self.migration_strategy,
            r.deprecated == self.deprecated,
    {
        let mut s = self;
        s.causal_requirements = reqs;
        s
    }
}

// ─── Migration ───────────────────────────────────────────────────────────────

/// The outcome of migrating one event payload.
#[derive(Debug, Clone)]
pub enum MigrationResult {
    /// The payload was transformed.
    Transformed(serde_json::Value),
    /// The payload passes unchanged.
    Passthrough(serde_json::Value),
    /// The event is skipped.
    Skipped,
    /// Replay must stop.
    Rejected(String),
}

impl MigrationResult {
    pub fn is_fatal(&self) -> (r: bool)
        ensures
            r == (*self is Rejected),
    {
        match self {
            MigrationResult::Rejected(_) => true,
            _ => false,
        }
    }

    /// The payload to replay, if any.
    pub fn payload(self) -> (r: Option<serde_json::Value>)
        ensures
            match self {
                MigrationResult::Transformed(v) => r == Some(v),
                MigrationResult::Passthrough(v) => r == Some(v),
                _ => r is None,
            },
    {
        match self {
            MigrationResult::Transformed(v) => Some(v),
            MigrationResult::Passthrough(v) => Some(v),
            _ => None,
        }
    }
}

/// The payload after a transform: a JSON object gets the keys
/// `_migrated_from` and `_transformer` with the given texts as JSON strings;
/// any other value stays as it was.
pub open spec fn migration_annotated(payload: serde_json::Value, migrated_from: Seq<char>, transformer_id: Seq<char>) -> serde_json::Value {
    match object_fields(payload) {
        Some(f) => json_object(
            f.insert("_migrated_from"@, json_string(migrated_from)).insert("_transformer"@, json_string(transformer_id)),
        ),
        None => payload,
    }
}

/// Add the migration keys to an object payload.
fn annotate_migration(payload: serde_json::Value, migrated_from: String, transformer_id: String) -> (r: serde_json::Value)
    ensures
        r == migration_annotated(payload, migrated_from@, transformer_id@),
{
    match take_object(payload) {
        Ok(mut m) => {
            let from_key = String::from_str("_migrated_from");
            let transformer_key = String::from_str("_transformer");
            proof {
                reveal_strlit("_migrated_from");
                reveal_strlit("_transformer");
            }
            json_map_insert(&mut m, from_key, string_value(migrated_from.as_str()));
            json_map_insert(&mut m, transformer_key, string_value(transformer_id.as_str()));
            object_value(m)
        },
        Err(v) => v,
    }
}

/// Migrate an event payload stored at `stored_version` for code at
/// `current_version`: the same version passes as it is; otherwise the
/// strategy decides.
pub fn apply_migration(
    payload: serde_json::Value,
    stored_version: SchemaVersion,
    current_version: SchemaVersion,
    strategy: &MigrationStrategy,
) -> (r: MigrationResult)
    ensures
        stored_version == current_version ==> r == MigrationResult::Passthrough(payload),
        stored_version != current_version ==> match strategy {
            MigrationStrategy::Passthrough => r == MigrationResult::Passthrough(payload),
            MigrationStrategy::Skip => r is Skipped,
            MigrationStrategy::Reject { reason } => r matches MigrationResult::Rejected(x) && x@ == reason@,
            MigrationStrategy::Transform { transformer_id } => r == MigrationResult::Transformed(
                migration_annotated(
                    payload,
                    decimal(stored_version.major as nat) + "."@ + decimal(stored_version.minor as nat),
                    transformer_id@,
                ),
            ),
        },
{
    if stored_version == current_version {
        return MigrationResult::Passthrough(payload);
    }
    match strategy {
        MigrationStrategy::Passthrough => MigrationResult::Passthrough(payload),
        MigrationStrategy::Skip => MigrationResult::Skipped,
        MigrationStrategy::Reject { reason } => MigrationResult::Rejected(reason.clone()),
        MigrationStrategy::Transform { transformer_id } => {
            let from = stored_version.to_text();
            MigrationResult::Transformed(annotate_migration(payload, from, transformer_id.clone()))
        },
    }
}

// ─── Registry ────────────────────────────────────────────────────────────────

/// The bytes of an identifier.
pub open spec fn id_bytes(id: EventSchemaId) -> Seq<u8> {
    vstd::utf8::encode_utf8(id.0@)
}

/// Why a registry operation failed.
#[derive(Debug, Clone)]
pub enum SchemaRegistryError {
    NotFound(EventSchemaId),
    AlreadyRegistered { id: EventSchemaId, existing: SchemaVersion, attempted: SchemaVersion },
    Incompatible { id: EventSchemaId, version: SchemaVersion, reason: String },
}

/// Is some schema of `s` identified by the bytes `b`?
pub open spec fn has_id(s: Seq<EventSchema>, b: Seq<u8>) -> bool {
    exists|i: int| 0 <= i < s.len() && id_bytes(#[trigger] s[i].id) == b
}

/// The schema of `s` identified by the bytes `b`, if any.
pub open spec fn schema_for(s: Seq<EventSchema>, b: Seq<u8>) -> Option<EventSchema> {
    if has_id(s, b) {
        Some(s[choose|i: int| 0 <= i < s.len() && id_bytes(#[trigger] s[i].id) == b])
    } else {
        None
    }
}

/// The schemas are in strictly increasing identifier order.
pub open spec fn sorted_ids(s: Seq<EventSchema>) -> bool {
    forall|i: int, j: int| 0 <= i < j < s.len() ==> lex_lt(id_bytes(#[trigger] s[i].id), id_bytes(#[trigger] s[j].id))
}

/// In a sorted sequence the schema identified by `b` is the one at any index with those bytes.
proof fn lemma_schema_for_at(s: Seq<EventSchema>, b: Seq<u8>, i: int)
    requires
        sorted_ids(s),
        0 <= i < s.len(),
        id_bytes(s[i].id) == b,
    ensures
        schema_for(s, b) == Some(s[i]),
{
    let j = choose|j: int| 0 <= j < s.len() && id_bytes(#[trigger] s[j].id) == b;
    if j < i {
        lemma_lex_irreflexive(b);
    } else if j > i {
        lemma_lex_irreflexive(b);
    }
}

/// The central registry of event schemas, by identifier.
#[derive(Debug)]
pub struct EventSchemaRegistry {
    /// In strictly increasing identifier order.
    schemas: Vec<EventSchema>,
}

impl EventSchemaRegistry {
    #[verifier::type_invariant]
    closed spec fn wf(&self) -> bool {
        sorted_ids(self.schemas@)
    }

    /// The registered schemas, in identifier order.
    pub closed spec fn spec_schemas(&self) -> Seq<EventSchema> {
        self.schemas@
    }

    pub fn new() -> (r: Self)
        ensures
            r.spec_schemas().len() == 0,
    {
        EventSchemaRegistry { schemas: Vec::new() }
    }

    /// The first position whose identifier is not before `id`, and whether it is `id`.
    fn locate(&self, id: &EventSchemaId) -> (r: (usize, bool))
        ensures
            r.0 <= self.spec_schemas().len(),
            forall|j: int| 0 <= j < r.0 ==> lex_lt(id_bytes(#[trigger] self.spec_schemas()[j].id), id_bytes(*id)),
            r.0 < self.spec_schemas().len() ==> !lex_lt(id_bytes(self.spec_schemas()[r.0 as int].id), id_bytes(*id)),
            r.1 == (r.0 < self.spec_schemas().len() && id_bytes(self.spec_schemas()[r.0 as int].id) == id_bytes(*id)),
            r.1 ==> schema_for(self.spec_schemas(), id_bytes(*id)) == Some(self.spec_schemas()[r.0 as int]),
            !r.1 ==> !has_id(self.spec_schemas(), id_bytes(*id)),
    {
        proof {
            use_type_invariant(self);
        }
        let key = id.0.as_str().as_bytes();
        let mut k: usize = 0;
        while k < self.schemas.len()
            invariant
                k <= self.schemas@.len(),
                sorted_ids(self.schemas@),
                key@ == id_bytes(*id),
                forall|j: int| 0 <= j < k ==> lex_lt(id_bytes(#[trigger] self.schemas@[j].id), id_bytes(*id)),
            decreases self.schemas@.len() - k,
        {
            let cur = self.schemas[k].id.0.as_str().as_bytes();
            if !bytes_lt(cur, key) {
                let same = bytes_eq(cur, key);
                proof {
                    let s = self.schemas@;
                    if same {
                        lemma_schema_for_at(s, id_bytes(*id), k as int);
                    } else {
                        lemma_lex_total(id_bytes(s[k as int].id), id_bytes(*id));
                        assert forall|j: int| 0 <= j < s.len() implies id_bytes(#[trigger] s[j].id) != id_bytes(*id) by {
                            lemma_lex_irreflexive(id_bytes(*id));
                            if j > k {
                                lemma_lex_transitive(id_bytes(*id), id_bytes(s[k as int].id), id_bytes(s[j].id));
                            }
                        }
                    }
                }
                return (k, same);
            }
            k = k + 1;
        }
        proof {
            assert forall|j: int| 0 <= j < self.schemas@.len() implies id_bytes(#[trigger] self.schemas@[j].id) != id_bytes(*id) by {
                lemma_lex_irreflexive(id_bytes(*id));
            }
        }
        (k, false)
    }

    /// Register a schema, replacing one with the same identifier unless the
    /// new version differs from it in major version.
    pub fn register(&mut self, schema: EventSchema) -> (r: Result<(), SchemaRegistryError>)
        ensures
            ({
                let b = id_bytes(schema.id);
                let prior = schema_for(old(self).spec_schemas(), b);
                let refused = prior is Some && prior.unwrap().version != schema.version
                    && schema.version.major != prior.unwrap().version.major;
                &&& refused ==> (r matches Err(SchemaRegistryError::Incompatible { id, version, reason })
                    && id.0@ == schema.id.0@ && version == schema.version && reason@ == "major version mismatch"@)
                    && final(self).spec_schemas() == old(self).spec_schemas()
                &&& !refused ==> r is Ok
                    && (forall|x: Seq<u8>| #[trigger] schema_for(final(self).spec_schemas(), x)
                        == if x == b { Some(schema) } else { schema_for(old(self).spec_schemas(), x) })
                    && final(self).spec_schemas().len() == old(self).spec_schemas().len() + (if prior is Some { 0int } else { 1int })
            }),
    {
        proof {
            use_type_invariant(&*self);
        }
        let (k, found) = self.locate(&schema.id);
        if found {
            let existing = self.schemas[k].version;
            if existing != schema.version && !schema.version.is_compatible_with(&existing) {
                let id = EventSchemaId(schema.id.0.clone());
                return Err(SchemaRegistryError::Incompatible {
                    id,
                    version: schema.version,
                    reason: String::from_str("major version mismatch"),
                });
            }
        }
        let ghost old_s = self.schemas@;
        let ghost b = id_bytes(schema.id);
        let mut v = Vec::new();
        std::mem::swap(&mut v, &mut self.schemas);
        if found {
            v.set(k, schema);
            proof {
                assert forall|i: int, j: int| 0 <= i < j < v@.len() implies lex_lt(id_bytes(#[trigger] v@[i].id), id_bytes(#[trigger] v@[j].id)) by {
                    assert(old_s[i] == v@[i] || i == k);
                    assert(old_s[j] == v@[j] || j == k);
                }
                assert forall|x: Seq<u8>| #[trigger] schema_for(v@, x) == if x == b { Some(v@[k as int]) } else { schema_for(old_s, x) } by {
                    if x == b {
                        lemma_schema_for_at(v@, x, k as int);
                    } else if has_id(old_s, x) {
                        let i = choose|i: int| 0 <= i < old_s.len() && id_bytes(#[trigger] old_s[i].id) == x;
                        lemma_schema_for_at(old_s, x, i);
                        assert(i != k);
                        lemma_schema_for_at(v@, x, i);
                    } else {
                        if has_id(v@, x) {
                            let i = choose|i: int| 0 <= i < v@.len() && id_bytes(#[trigger] v@[i].id) == x;
                            assert(id_bytes(old_s[i].id) == x);
                        }
                    }
                }
            }
        } else {
            v.insert(k, schema);
            proof {
                let n = v@;
                assert forall|i: int, j: int| 0 <= i < j < n.len() implies lex_lt(id_bytes(#[trigger] n[i].id), id_bytes(#[trigger] n[j].id)) by {
                    if j < k {
                    } else if j == k {
                    } else if i < k {
                        lemma_lex_total(id_bytes(old_s[k as int].id), b);
                        lemma_lex_transitive(id_bytes(n[i].id), b, id_bytes(old_s[k as int].id));
                        if j - 1 > k {
                            lemma_lex_transitive(id_bytes(n[i].id), id_bytes(old_s[k as int].id), id_bytes(n[j].id));
                        }
                    } else if i == k {
                        lemma_lex_total(id_bytes(old_s[k as int].id), b);
                        if j - 1 > k {
                            lemma_lex_transitive(b, id_bytes(old_s[k as int].id), id_bytes(n[j].id));
                        }
                    }
                }
                assert forall|x: Seq<u8>| #[trigger] schema_for(n, x) == if x == b { Some(n[k as int]) } else { schema_for(old_s, x) } by {
                    if x == b {
                        lemma_schema_for_at(n, x, k as int);
                    } else if has_id(old_s, x) {
                        let i = choose|i: int| 0 <= i < old_s.len() && id_bytes(#[trigger] old_s[i].id) == x;
                        lemma_schema_for_at(old_s, x, i);
                        if i < k {
                            lemma_schema_for_at(n, x, i);
                        } else {
                            assert(n[i + 1] == old_s[i]);
                            lemma_schema_for_at(n, x, i + 1);
                        }
                    } else {
                        if has_id(n, x) {
                            let i = choose|i: int| 0 <= i < n.len() && id_bytes(#[trigger] n[i].id) == x;
                            if i < k {
                                assert(id_bytes(old_s[i].id) == x);
                            } else if i > k {
                                assert(id_bytes(old_s[i - 1].id) == x);
                            }
                        }
                    }
                }
            }
        }
        self.schemas = v;
        Ok(())
    }

    /// The schema registered under `id`.
    pub fn get(&self, id: &EventSchemaId) -> (r: Result<&EventSchema, SchemaRegistryError>)
        ensures
            match r {
                Ok(s) => schema_for(self.spec_schemas(), id_bytes(*id)) == Some(*s),
                Err(e) => schema_for(self.spec_schemas(), id_bytes(*id)) is None
                    && (e matches SchemaRegistryError::NotFound(x) && x.0@ == id.0@),
            },
    {
        let (k, found) = self.locate(id);
        if found {
            Ok(&self.schemas[k])
        } else {
            Err(SchemaRegistryError::NotFound(EventSchemaId(id.0.clone())))
        }
    }

    pub fn is_registered(&self, id: &EventSchemaId) -> (r: bool)
        ensures
            r == has_id(self.spec_schemas(), id_bytes(*id)),
    {
        let (_, found) = self.locate(id);
        proof {
            if found {
                let s = self.spec_schemas();
            }
        }
        found
    }

    pub fn count(&self) -> (r: usize)
        ensures
            r == self.spec_schemas().len(),
    {
        self.schemas.len()
    }

    /// Every registered schema, in identifier order.
    pub fn all(&self) -> (r: Vec<&EventSchema>)
        ensures
            r@.map_values(|s: &EventSchema| *s) == self.spec_schemas(),
            sorted_ids(self.spec_schemas()),
    {
        proof {
            use_type_invariant(self);
        }
        let mut out: Vec<&EventSchema> = Vec::new();
        let mut k: usize = 0;
        while k < self.schemas.len()
            invariant
                k <= self.schemas@.len(),
                out@.map_values(|s: &EventSchema| *s) == self.schemas@.take(k as int),
            decreases self.schemas@.len() - k,
        {
            let ghost before = out@;
            out.push(&self.schemas[k]);
            proof {
                assert(out@.map_values(|s: &EventSchema| *s) =~= before.map_values(|s: &EventSchema| *s).push(self.schemas@[k as int]));
                assert(self.schemas@.take(k + 1) =~= self.schemas@.take(k as int).push(self.schemas@[k as int]));
            }
            k = k + 1;
        }
        assert(self.schemas@.take(self.schemas@.len() as int) =~= self.schemas@);
        out
    }
}

} // verus!
