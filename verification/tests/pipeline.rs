use delphos::pipeline::{EventPipeline, KernelDecision, PipelineConfig, PipelineEvent, PipelineStage, RejectionReason};
use delphos::realm_id::RealmId;

fn empty_payload() -> serde_json::Value {
    serde_json::from_str("{}").unwrap()
}

fn event(id: &str, schema: &str, lamport: u64) -> PipelineEvent {
    PipelineEvent::new(id, schema, RealmId::Telum, RealmId::Telum, lamport, empty_payload())
}

fn open_pipeline() -> EventPipeline {
    EventPipeline::new(PipelineConfig::default())
}

#[test]
fn allow_valid_event() {
    let mut p = open_pipeline();
    let r = p.process(&event("e1", "task.created", 1));
    assert!(r.decision.is_allow());
    assert_eq!(p.processed_count(), 1);
}

#[test]
fn reject_duplicate_lamport() {
    let mut p = open_pipeline();
    p.process(&event("e1", "task.created", 1));
    let r = p.process(&event("e2", "task.created", 1));
    assert!(r.decision.is_reject());
    assert_eq!(p.rejected_count(), 1);
    assert!(matches!(r.decision, KernelDecision::Reject(RejectionReason::ClockViolation { .. })));
}

#[test]
fn reject_replay_paradox() {
    let mut p = open_pipeline();
    p.process(&event("e1", "task.created", 1));
    let r = p.process(&event("e1", "task.created", 2));
    assert!(r.decision.is_reject());
    assert!(matches!(r.decision, KernelDecision::Reject(RejectionReason::ReplayParadox { .. })));
}

#[test]
fn reject_unknown_schema() {
    let mut config = PipelineConfig::default();
    config.register_schema("known.event", 1, 0);
    let mut p = EventPipeline::new(config);
    let r = p.process(&event("e1", "unknown.schema", 1));
    assert!(matches!(r.decision, KernelDecision::Reject(RejectionReason::SchemaUnknown { .. })));
}

#[test]
fn allow_known_schema() {
    let mut config = PipelineConfig::default();
    config.register_schema("task.created", 1, 0);
    let mut p = EventPipeline::new(config);
    let r = p.process(&event("e1", "task.created", 1));
    assert!(r.decision.is_allow());
}

#[test]
fn reject_missing_capability() {
    let mut p = open_pipeline();
    let ev = event("e1", "s", 1).require_capability("bash:execute");
    let r = p.process(&ev);
    assert!(matches!(r.decision, KernelDecision::Reject(RejectionReason::CapabilityDenied { .. })));
}

#[test]
fn allow_with_capability() {
    let mut config = PipelineConfig::default();
    config.grant_capability("system", "bash:execute");
    let mut p = EventPipeline::new(config);
    let ev = PipelineEvent::new("e1", "s", RealmId::Telum, RealmId::Telum, 1, empty_payload()).require_capability("bash:execute");
    let r = p.process(&ev);
    assert!(r.decision.is_allow());
}

#[test]
fn reject_abi_version_mismatch() {
    let mut p = open_pipeline();
    let mut ev = event("e1", "s", 1);
    ev.abi_version = "2.0.0".into();
    let r = p.process(&ev);
    assert!(matches!(r.decision, KernelDecision::Reject(RejectionReason::AbiBadVersion { .. })));
}

#[test]
fn pipeline_reset_allows_replay() {
    let mut p = open_pipeline();
    p.process(&event("e1", "s", 1));
    p.reset_for_replay();
    let r = p.process(&event("e1", "s", 1));
    assert!(r.decision.is_allow());
}

#[test]
fn monotone_lamport_works() {
    let mut p = open_pipeline();
    assert!(p.process(&event("e1", "s", 1)).decision.is_allow());
    assert!(p.process(&event("e2", "s", 2)).decision.is_allow());
    assert!(p.process(&event("e3", "s", 3)).decision.is_allow());
    assert_eq!(p.processed_count(), 3);
}

#[test]
fn abi_rejection_names_both_versions_and_stage() {
    let mut p = open_pipeline();
    let mut ev = event("e1", "s", 1);
    ev.abi_version = "x.1".into();
    let r = p.process(&ev);
    assert_eq!(r.stage, PipelineStage::AbiValidation);
    assert_eq!(r.event_id, "e1");
    assert!(r.emitted_events.is_empty());
    assert_eq!(r.decision, KernelDecision::Reject(RejectionReason::AbiBadVersion { expected: "1".into(), got: "0".into() }));
    let mut ev = event("e2", "s", 2);
    ev.abi_version = "1".into();
    assert_eq!(p.process(&ev).decision, KernelDecision::Allow);
}

#[test]
fn clock_violation_names_realm_and_stage() {
    let mut p = open_pipeline();
    p.process(&event("e1", "s", 4));
    let r = p.process(&event("e2", "s", 4));
    assert_eq!(r.stage, PipelineStage::ClockValidation);
    assert_eq!(r.decision, KernelDecision::Reject(RejectionReason::ClockViolation { realm: "telum".into(), lamport: 4 }));
    if let KernelDecision::Reject(reason) = &r.decision {
        assert_eq!(reason.to_text(), "clock violation in realm telum at lamport 4");
    }
}

#[test]
fn wildcard_capability_and_stage() {
    let mut config = PipelineConfig::default();
    config.grant_capability("ops", "*");
    assert!(config.has_capability("ops", "anything"));
    assert!(!config.has_capability("other", "anything"));
    let mut p = EventPipeline::new(config);
    let r = p.process(&event("e1", "s", 1).with_actor("ops").require_capability("deploy"));
    assert_eq!(r.stage, PipelineStage::Apply);
    let r = p.process(&event("e2", "s", 2).with_actor("dev").require_capability("deploy"));
    assert_eq!(r.stage, PipelineStage::CapabilityValidation);
    assert_eq!(
        r.decision,
        KernelDecision::Reject(RejectionReason::CapabilityDenied { required: "deploy".into(), actor: "dev".into() })
    );
}

#[test]
fn missing_parent_is_a_clock_rejection() {
    let mut p = open_pipeline();
    let r = p.process(&event("e2", "s", 2).with_causal_parent("e1"));
    assert_eq!(
        r.decision,
        KernelDecision::Reject(RejectionReason::ReplayParadox { event_id: "parent e1 not yet processed".into() })
    );
    assert_eq!(p.rejected_count(), 1);
    assert_eq!(p.processed_count(), 0);
}

#[test]
fn rejection_texts() {
    let r = RejectionReason::SchemaUnknown { schema_id: "x".into() };
    assert_eq!(r.to_text(), "schema 'x' not registered");
    let r = RejectionReason::AbiBadVersion { expected: "1".into(), got: "2".into() };
    assert_eq!(r.to_text(), "ABI version mismatch: expected 1, got 2");
}
