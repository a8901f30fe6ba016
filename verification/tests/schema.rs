use delphos::realm_id::RealmId;
use delphos::schema::{
    apply_migration, is_backward_compatible, is_forward_compatible, latest_known, EventSchema, EventSchemaId, EventSchemaRegistry, MigrationResult,
    MigrationStrategy, SchemaRegistryError, SchemaVersion,
};

fn task_created() -> EventSchema {
    EventSchema::new("task.created", SchemaVersion::v1(), RealmId::Telum, "A task was created").with_targets(vec![RealmId::Katoptron])
}

fn json(text: &str) -> serde_json::Value {
    serde_json::from_str(text).unwrap()
}

#[test]
fn forward_compat() {
    assert!(is_forward_compatible(SchemaVersion::new(1, 0), SchemaVersion::new(1, 5)));
}

#[test]
fn not_forward_compat() {
    assert!(!is_forward_compatible(SchemaVersion::new(1, 5), SchemaVersion::new(1, 0)));
}

#[test]
fn backward_compat_same_major() {
    assert!(is_backward_compatible(SchemaVersion::new(1, 2), SchemaVersion::new(1, 0)));
}

#[test]
fn not_backward_compat_diff_major() {
    assert!(!is_backward_compatible(SchemaVersion::new(2, 0), SchemaVersion::new(1, 0)));
}

#[test]
fn register_and_get() {
    let mut r = EventSchemaRegistry::new();
    r.register(task_created()).unwrap();
    assert!(r.is_registered(&EventSchemaId::new("task.created")));
    assert_eq!(r.count(), 1);
}

#[test]
fn not_found() {
    let r = EventSchemaRegistry::new();
    assert!(r.get(&EventSchemaId::new("nonexistent")).is_err());
}

#[test]
fn sorted_list() {
    let mut r = EventSchemaRegistry::new();
    r.register(EventSchema::new("z.event", SchemaVersion::v1(), RealmId::Styx, "")).unwrap();
    r.register(EventSchema::new("a.event", SchemaVersion::v1(), RealmId::Styx, "")).unwrap();
    let all = r.all();
    assert_eq!(all[0].id.0, "a.event");
    assert_eq!(all[1].id.0, "z.event");
}

#[test]
fn schema_version_compat() {
    assert!(SchemaVersion::v1().is_compatible_with(&SchemaVersion::new(1, 5)));
    assert!(!SchemaVersion::v1().is_compatible_with(&SchemaVersion::new(2, 0)));
}

#[test]
fn same_version_passthrough() {
    let r = apply_migration(json(r#"{"x":1}"#), SchemaVersion::v1(), SchemaVersion::v1(), &MigrationStrategy::Passthrough);
    assert!(matches!(r, MigrationResult::Passthrough(_)));
}

#[test]
fn skip_strategy() {
    let r = apply_migration(json("{}"), SchemaVersion::new(1, 0), SchemaVersion::new(1, 1), &MigrationStrategy::Skip);
    assert!(matches!(r, MigrationResult::Skipped));
}

#[test]
fn reject_strategy() {
    let r = apply_migration(json("{}"), SchemaVersion::new(1, 0), SchemaVersion::new(1, 1), &MigrationStrategy::Reject { reason: "deprecated".into() });
    assert!(r.is_fatal());
}

#[test]
fn transform_adds_metadata() {
    let r = apply_migration(json(r#"{"title":"x"}"#), SchemaVersion::new(1, 0), SchemaVersion::new(1, 1), &MigrationStrategy::Transform { transformer_id: "t1".into() });
    let payload = r.payload().unwrap();
    assert!(payload.get("_migrated_from").is_some());
    assert_eq!(payload.get("_migrated_from").unwrap(), "1.0");
    assert_eq!(payload.get("_transformer").unwrap(), "t1");
    assert_eq!(payload.get("title").unwrap(), "x");
}

#[test]
fn reregistration_replaces_unless_major_differs() {
    let mut r = EventSchemaRegistry::new();
    r.register(task_created()).unwrap();
    r.register(EventSchema::new("task.created", SchemaVersion::new(1, 3), RealmId::Telum, "newer")).unwrap();
    assert_eq!(r.count(), 1);
    assert_eq!(r.get(&EventSchemaId::new("task.created")).unwrap().version, SchemaVersion::new(1, 3));
    let clash = r.register(EventSchema::new("task.created", SchemaVersion::new(2, 0), RealmId::Telum, "breaking"));
    match clash {
        Err(SchemaRegistryError::Incompatible { version, reason, .. }) => {
            assert_eq!(version, SchemaVersion::new(2, 0));
            assert_eq!(reason, "major version mismatch");
        }
        other => panic!("expected Incompatible, got {other:?}"),
    }
    assert_eq!(r.get(&EventSchemaId::new("task.created")).unwrap().description, "newer");
}

#[test]
fn get_returns_the_registered_schema() {
    let mut r = EventSchemaRegistry::new();
    r.register(task_created()).unwrap();
    let s = r.get(&EventSchemaId::new("task.created")).unwrap();
    assert_eq!(s.description, "A task was created");
    assert_eq!(s.projection_targets, vec![RealmId::Katoptron]);
    assert!(matches!(r.get(&EventSchemaId::new("task.deleted")), Err(SchemaRegistryError::NotFound(_))));
}

#[test]
fn version_text_and_latest() {
    assert_eq!(SchemaVersion::new(12, 3).to_text(), "12.3");
    assert_eq!(latest_known(), SchemaVersion::v1());
    assert_eq!(SchemaVersion::v1(), SchemaVersion::new(1, 0));
}

#[test]
fn transform_leaves_non_object_payload_alone() {
    let r = apply_migration(json("[1, 2]"), SchemaVersion::new(1, 0), SchemaVersion::new(1, 1), &MigrationStrategy::Transform { transformer_id: "t1".into() });
    assert_eq!(r.payload().unwrap(), json("[1, 2]"));
}
