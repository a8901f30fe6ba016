use delphos::constraint_algebra::canonical_constraint_rules;
use delphos::kernel_state::{KernelInputKind, KernelPhase};
use delphos::proof_certificate::{CertificateBuilder, ExecutionTrace};
use delphos::realm_id::RealmId;
use delphos::trace_synthesizer::TraceSynthesizer;

fn build_trace(steps: &[(KernelPhase, KernelInputKind, KernelPhase)]) -> ExecutionTrace {
    let mut b = CertificateBuilder::new();
    let mut trace = ExecutionTrace::new(RealmId::Telum, steps[0].0);
    for &(from, input, to) in steps {
        if let Some(cert) = b.build(from, input, to) {
            trace.push(cert);
        }
    }
    trace
}

fn pipeline_trace() -> ExecutionTrace {
    build_trace(&[
        (KernelPhase::Idle, KernelInputKind::EventArrived, KernelPhase::ValidatingAbi),
        (KernelPhase::ValidatingAbi, KernelInputKind::AbiValid, KernelPhase::ValidatingSchema),
        (KernelPhase::ValidatingSchema, KernelInputKind::SchemaValid, KernelPhase::ValidatingClock),
        (KernelPhase::ValidatingClock, KernelInputKind::ClockValid, KernelPhase::ValidatingCapability),
        (KernelPhase::ValidatingCapability, KernelInputKind::CapabilityGranted, KernelPhase::ValidatingCausal),
        (KernelPhase::ValidatingCausal, KernelInputKind::CausalValid, KernelPhase::Deciding),
        (KernelPhase::Deciding, KernelInputKind::DecisionAllow, KernelPhase::Applying),
        (KernelPhase::Applying, KernelInputKind::TransitionApplied, KernelPhase::Stamping),
        (KernelPhase::Stamping, KernelInputKind::ProjectionStamped, KernelPhase::Emitting),
        (KernelPhase::Emitting, KernelInputKind::EmitComplete, KernelPhase::Idle),
    ])
}

#[test]
fn synthesize_from_single_trace() {
    let mut s = TraceSynthesizer::new();
    s.observe(&pipeline_trace());
    let result = s.synthesize();
    assert!(result.rule_count() > 0, "synthesis must produce rules from observed trace");
    assert!(result.table_covered > 0, "synthesized rules must cover some table entries");
}

#[test]
fn algebra_has_no_disagreements_with_kernel() {
    let s = TraceSynthesizer::new();
    let canonical = canonical_constraint_rules();
    let disagreements = s.find_algebra_disagreements(&canonical);
    assert!(
        disagreements.is_empty(),
        "canonical algebra disagrees with kernel on {} cells:\n{}",
        disagreements.len(),
        disagreements
            .iter()
            .map(|d| format!("  δ({:?}, {:?}): algebra={:?}, kernel={:?}", d.from, d.input, d.algebra_says, d.kernel_says))
            .collect::<Vec<_>>()
            .join("\n")
    );
}

#[test]
fn synthesizer_detects_uncovered_behaviors() {
    let mut s = TraceSynthesizer::new();
    s.observe(&pipeline_trace());
    let result = s.synthesize();
    assert!(!result.uncovered_behaviors.is_empty(), "uncovered behaviors must be detected when only happy path is observed");
}

#[test]
fn full_coverage_with_all_arcs() {
    let mut s = TraceSynthesizer::new();
    s.observe(&pipeline_trace());
    s.observe(&build_trace(&[
        (KernelPhase::Idle, KernelInputKind::EventArrived, KernelPhase::ValidatingAbi),
        (KernelPhase::ValidatingAbi, KernelInputKind::AbiFailed, KernelPhase::Idle),
    ]));
    s.observe(&build_trace(&[
        (KernelPhase::Idle, KernelInputKind::EventArrived, KernelPhase::ValidatingAbi),
        (KernelPhase::ValidatingAbi, KernelInputKind::FaultDetected, KernelPhase::Faulted),
    ]));
    let result = s.synthesize();
    let coverage = result.table_covered as f64 / 45.0;
    assert!(coverage > 0.1, "coverage should increase with more observations");
}

#[test]
fn repeated_observation_counts() {
    let mut s = TraceSynthesizer::new();
    for _ in 0..10 {
        s.observe(&pipeline_trace());
    }
    let mut count: u64 = 0;
    for p in KernelPhase::all() {
        for i in KernelInputKind::all() {
            if let Some((_, c)) = s.observation(p, i) {
                count += c;
            }
        }
    }
    assert_eq!(count, 10 * 10, "observation counts must accumulate across repeated traces");
}

#[test]
fn observing_a_trace_three_times_triples_each_count() {
    let mut once = TraceSynthesizer::new();
    once.observe(&pipeline_trace());
    let mut thrice = TraceSynthesizer::new();
    for _ in 0..3 {
        thrice.observe(&pipeline_trace());
    }
    assert_eq!(thrice.observation_count(), once.observation_count());
    for p in KernelPhase::all() {
        for i in KernelInputKind::all() {
            match (once.observation(p, i), thrice.observation(p, i)) {
                (Some((t1, c1)), Some((t3, c3))) => {
                    assert_eq!(t1, t3);
                    assert_eq!(c3, 3 * c1);
                }
                (None, None) => {}
                _ => panic!("observed cells differ"),
            }
        }
    }
}

#[test]
fn synthesized_rules_are_table_consistent() {
    let mut s = TraceSynthesizer::new();
    s.observe(&pipeline_trace());
    let result = s.synthesize();
    for step in &result.generalization_steps {
        assert!(step.is_table_consistent, "synthesized rule '{}' is not table-consistent", step.rule_name);
    }
}

#[test]
fn no_novel_transitions_in_valid_traces() {
    let mut s = TraceSynthesizer::new();
    s.observe(&pipeline_trace());
    let result = s.synthesize();
    let invalid_novel: Vec<_> = result.novel_transitions.iter().filter(|t| !t.in_explicit_table).collect();
    assert!(invalid_novel.is_empty(), "valid traces must not produce invalid novel transitions: {:?}", invalid_novel);
}

#[test]
fn observation_records_first_target_and_count() {
    let mut s = TraceSynthesizer::new();
    assert_eq!(s.observation(KernelPhase::Idle, KernelInputKind::EventArrived), None);
    s.observe(&pipeline_trace());
    s.observe(&pipeline_trace());
    assert_eq!(s.observation(KernelPhase::Idle, KernelInputKind::EventArrived), Some((KernelPhase::ValidatingAbi, 2)));
    assert_eq!(s.observation_count(), 10);
    s.observe_all(&[pipeline_trace()]);
    assert_eq!(s.observation(KernelPhase::Emitting, KernelInputKind::EmitComplete), Some((KernelPhase::Idle, 3)));
}

#[test]
fn exact_rule_is_refused_where_the_kernel_disagrees() {
    let s = TraceSynthesizer::new();
    let wrong = s.try_generalize(&vec![KernelPhase::Idle], &vec![KernelInputKind::EventArrived], KernelPhase::Faulted);
    assert!(wrong.is_none());
    let right = s.try_generalize(&vec![KernelPhase::Idle], &vec![KernelInputKind::EventArrived], KernelPhase::ValidatingAbi);
    let (rule, step) = right.expect("the kernel agrees with this cell");
    assert_eq!(rule.name, "synth:exact");
    assert!(step.is_table_consistent);
    assert_eq!(step.covers_cells, 1);
}
