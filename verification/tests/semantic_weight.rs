use delphos::constraint_algebra::canonical_constraint_rules;
use delphos::kernel_state::{transition_table, KernelInputKind, KernelPhase};
use delphos::proof_certificate::{CertificateBuilder, ExecutionTrace};
use delphos::realm_id::RealmId;
use delphos::semantic_weight::{NecessityClass, SemanticWeightLayer};

fn pipeline_trace() -> ExecutionTrace {
    let mut b = CertificateBuilder::new();
    let mut t = ExecutionTrace::new(RealmId::Telum, KernelPhase::Idle);
    let steps = [
        (KernelPhase::Idle, KernelInputKind::EventArrived, KernelPhase::ValidatingAbi),
        (KernelPhase::ValidatingAbi, KernelInputKind::AbiValid, KernelPhase::ValidatingSchema),
        (KernelPhase::ValidatingSchema, KernelInputKind::SchemaValid, KernelPhase::ValidatingClock),
        (KernelPhase::ValidatingClock, KernelInputKind::ClockValid, KernelPhase::ValidatingCapability),
        (KernelPhase::ValidatingCapability, KernelInputKind::CapabilityGranted, KernelPhase::ValidatingCausal),
        (KernelPhase::ValidatingCausal, KernelInputKind::CausalValid, KernelPhase::Deciding),
        (KernelPhase::Deciding, KernelInputKind::DecisionAllow, KernelPhase::Applying),
        (KernelPhase::Applying, KernelInputKind::TransitionApplied, KernelPhase::Stamping),
        (KernelPhase::Stamping, KernelInputKind::ProjectionStamped, KernelPhase::Emitting),
        (KernelPhase::Emitting, KernelInputKind::EmitComplete, KernelPhase::Idle),
    ];
    for (from, input, to) in steps {
        if let Some(c) = b.build(from, input, to) {
            t.push(c);
        }
    }
    t
}

fn layer_with_pipeline() -> SemanticWeightLayer {
    let mut l = SemanticWeightLayer::new();
    l.observe(&pipeline_trace());
    l
}

fn causal_importance(layer: &SemanticWeightLayer, idx: usize) -> f64 {
    let rs = canonical_constraint_rules();
    let total = layer.observation_count();
    if total == 0 {
        return 0.0;
    }
    layer.causal_observations(&rs.rules[idx], idx, &rs.rules) as f64 / total as f64
}

#[test]
fn pipeline_advance_is_critical() {
    let rs = canonical_constraint_rules();
    let layer = SemanticWeightLayer::new();
    let idx = rs.rules.iter().position(|r| r.name == "pipeline-advance").unwrap();
    let proof = layer.necessity_proof(&rs.rules[idx], idx, &rs.rules);
    assert!(proof.is_critical(), "pipeline-advance must be Critical: {:?}", proof.necessity_class);
    assert!(!proof.critical_cells.is_empty());
}

#[test]
fn no_rule_is_globally_redundant_in_canonical() {
    let rs = canonical_constraint_rules();
    let layer = SemanticWeightLayer::new();
    let mut redundant = Vec::new();
    for (i, rule) in rs.rules.iter().enumerate() {
        let proof = layer.necessity_proof(rule, i, &rs.rules);
        if proof.is_redundant() {
            redundant.push(rule.name);
        }
    }
    assert!(redundant.is_empty(), "canonical rules must not be redundant: {redundant:?}");
}

#[test]
fn sealed_absorbing_is_not_redundant() {
    let rs = canonical_constraint_rules();
    let layer = SemanticWeightLayer::new();
    let idx = rs.rules.iter().position(|r| r.name == "sealed-absorbs-all").unwrap();
    let proof = layer.necessity_proof(&rs.rules[idx], idx, &rs.rules);
    assert_ne!(proof.necessity_class, NecessityClass::Redundant);
}

#[test]
fn pipeline_advance_has_high_causal_importance() {
    let rs = canonical_constraint_rules();
    let layer = layer_with_pipeline();
    let idx = rs.rules.iter().position(|r| r.name == "pipeline-advance").unwrap();
    let c = causal_importance(&layer, idx);
    assert!(c > 0.5, "pipeline-advance must explain >50% of trace: {c:.3}");
}

#[test]
fn faulted_absorbing_zero_causal_for_happy_path() {
    let rs = canonical_constraint_rules();
    let layer = layer_with_pipeline();
    let idx = rs.rules.iter().position(|r| r.name == "faulted-absorbs-non-recovery").unwrap();
    let c = causal_importance(&layer, idx);
    assert_eq!(c, 0.0, "faulted-absorbing must have 0 causal for fault-free trace: {c}");
}

#[test]
fn critical_rules_anchored_in_transition_table() {
    let rs = canonical_constraint_rules();
    let layer = SemanticWeightLayer::new();
    let table = transition_table();
    for (i, rule) in rs.rules.iter().enumerate() {
        let proof = layer.necessity_proof(rule, i, &rs.rules);
        if proof.is_critical() {
            let has_table_cell = proof.critical_cells.iter().any(|&(ph, inp)| table.iter().any(|e| e.from == ph && e.on == inp));
            assert!(has_table_cell, "critical rule '{}' must cover a table entry", rule.name);
        }
    }
}

#[test]
fn causal_importance_sums_to_one() {
    let rs = canonical_constraint_rules();
    let mut layer = SemanticWeightLayer::new();
    layer.observe(&pipeline_trace());
    let total: f64 = (0..rs.rules.len()).map(|i| causal_importance(&layer, i)).sum();
    assert!((total - 1.0).abs() < 0.001, "causal importances must sum to 1.0: {total:.4}");
}

#[test]
fn observation_count_counts_every_step() {
    let mut layer = SemanticWeightLayer::new();
    assert_eq!(layer.observation_count(), 0);
    layer.observe(&pipeline_trace());
    layer.observe(&pipeline_trace());
    assert_eq!(layer.observation_count(), 20);
    let rs = canonical_constraint_rules();
    let sum: u64 = rs.rules.iter().enumerate().map(|(i, r)| layer.causal_observations(r, i, &rs.rules)).sum();
    assert_eq!(sum, 20);
}

#[test]
fn reach_counts_of_pipeline_advance() {
    let rs = canonical_constraint_rules();
    let layer = SemanticWeightLayer::new();
    let idx = rs.rules.iter().position(|r| r.name == "pipeline-advance").unwrap();
    let (active, reached) = layer.reach_counts(&rs.rules[idx], idx, &rs.rules);
    assert!(active > 0);
    assert!(reached <= active);
    let proof = layer.necessity_proof(&rs.rules[idx], idx, &rs.rules);
    assert_eq!(proof.active_domain_size, active);
}
