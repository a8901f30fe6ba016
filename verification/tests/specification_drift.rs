use delphos::constraint_algebra::{canonical_constraint_rules, ConstraintExpr, ConstraintRule, ConstraintTarget, RuleSet};
use delphos::kernel_state::{KernelInputKind, KernelPhase};
use delphos::proof_certificate::{CertificateBuilder, ExecutionTrace};
use delphos::realm_id::RealmId;
use delphos::specification_drift::{DriftDetector, DriftEvent, DriftMonitor, DriftReport, DriftSeverity};

fn pipeline_trace() -> ExecutionTrace {
    let mut b = CertificateBuilder::new();
    let mut t = ExecutionTrace::new(RealmId::Telum, KernelPhase::Idle);
    let steps = [
        (KernelPhase::Idle, KernelInputKind::EventArrived, KernelPhase::ValidatingAbi),
        (KernelPhase::ValidatingAbi, KernelInputKind::AbiValid, KernelPhase::ValidatingSchema),
        (KernelPhase::ValidatingSchema, KernelInputKind::SchemaValid, KernelPhase::ValidatingClock),
        (KernelPhase::ValidatingClock, KernelInputKind::ClockValid, KernelPhase::ValidatingCapability),
        (KernelPhase::ValidatingCapability, KernelInputKind::CapabilityGranted, KernelPhase::ValidatingCausal),
        (KernelPhase::ValidatingCausal, KernelInputKind::CausalValid, KernelPhase::Deciding),
        (KernelPhase::Deciding, KernelInputKind::DecisionAllow, KernelPhase::Applying),
        (KernelPhase::Applying, KernelInputKind::TransitionApplied, KernelPhase::Stamping),
        (KernelPhase::Stamping, KernelInputKind::ProjectionStamped, KernelPhase::Emitting),
        (KernelPhase::Emitting, KernelInputKind::EmitComplete, KernelPhase::Idle),
    ];
    for (from, input, to) in steps {
        if let Some(cert) = b.build(from, input, to) {
            t.push(cert);
        }
    }
    t
}

#[test]
fn canonical_algebra_agrees_with_kernel_everywhere() {
    let algebra = canonical_constraint_rules();
    let events = DriftDetector::check_algebra_vs_kernel(&algebra);
    let critical: Vec<_> = events.iter().filter(|e| e.severity() == DriftSeverity::Critical).collect();
    assert!(
        critical.is_empty(),
        "CRITICAL: canonical algebra disagrees with kernel on {} cells:\n{}",
        critical.len(),
        critical.iter().map(|e| format!("  {e:?}")).collect::<Vec<_>>().join("\n")
    );
}

#[test]
fn quick_critical_check_is_clean() {
    let monitor = DriftMonitor::new();
    let report = monitor.quick_critical_check();
    assert!(report.is_clean(), "algebra-kernel critical check failed: severity={:?}, {} critical events", report.severity, report.stats.critical_count);
}

#[test]
fn algebra_kernel_agreement_is_100_percent() {
    let algebra = canonical_constraint_rules();
    let events = DriftDetector::check_algebra_vs_kernel(&algebra);
    let conflict_count = events.iter().filter(|e| matches!(e, DriftEvent::AlgebraKernelConflict { .. })).count();
    assert_eq!(conflict_count, 0, "algebra and kernel must agree on all 522 cells");
}

#[test]
fn valid_trace_has_no_kernel_contradictions() {
    let trace = pipeline_trace();
    let events = DriftDetector::check_traces_vs_kernel(&[trace]);
    let contradictions: Vec<_> = events.iter().filter(|e| matches!(e, DriftEvent::TraceContradicsKernel { .. })).collect();
    assert!(contradictions.is_empty(), "valid pipeline trace must not contradict kernel: {:?}", contradictions);
}

#[test]
fn tampered_trace_detected() {
    let mut trace = pipeline_trace();
    if let Some(cert) = trace.certificates.first_mut() {
        cert.to_phase = KernelPhase::Faulted;
    }
    let events = DriftDetector::check_traces_vs_kernel(&[trace]);
    let contradictions: Vec<_> = events.iter().filter(|e| matches!(e, DriftEvent::TraceContradicsKernel { .. })).collect();
    assert!(!contradictions.is_empty(), "tampered trace must be detected");
}

#[test]
fn happy_path_leaves_untraced_entries() {
    let trace = pipeline_trace();
    let untraced = DriftDetector::find_untraced_entries(&[trace]);
    assert!(!untraced.is_empty(), "single happy-path trace must leave some table entries untraced");
}

#[test]
fn full_report_on_valid_traces() {
    let trace = pipeline_trace();
    let algebra = canonical_constraint_rules();
    let report = DriftDetector::full_report(&algebra, &[trace]);
    assert_eq!(report.stats.critical_count, 0, "valid traces must not produce critical drift events");
    let coverage_pct = report.stats.observed_cells as f64 / 45.0 * 100.0;
    assert!(coverage_pct > 0.0);
    println!("Drift report: severity={}, coverage={:.1}%", report.severity.label(), coverage_pct);
}

#[test]
fn monitor_accumulates_traces() {
    let mut monitor = DriftMonitor::new();
    for _ in 0..5 {
        monitor.record(&pipeline_trace());
    }
    assert_eq!(monitor.trace_count(), 5);
}

#[test]
fn monitor_detects_no_critical_drift_on_valid_system() {
    let mut monitor = DriftMonitor::new();
    let traces: Vec<_> = (0..3).map(|_| pipeline_trace()).collect();
    for t in &traces {
        monitor.record(t);
    }
    let report = monitor.analyze(&traces);
    assert_eq!(report.stats.critical_count, 0, "valid system must have zero critical drift events");
}

#[test]
fn severity_ordering() {
    assert!(DriftSeverity::Critical > DriftSeverity::Warning);
    assert!(DriftSeverity::Warning > DriftSeverity::Informational);
    assert!(DriftSeverity::Informational > DriftSeverity::Clean);
}

#[test]
fn wrong_algebra_is_critical_drift() {
    let wrong = RuleSet::new(vec![ConstraintRule::new("everything-seals", ConstraintExpr::True, ConstraintTarget::Phase(KernelPhase::Sealed))]);
    let report = DriftDetector::check_critical_only(&wrong);
    assert!(report.has_critical());
    assert!(!report.is_clean());
    assert_eq!(report.severity, DriftSeverity::Critical);
    assert_eq!(report.severity.label(), "CRITICAL");
}

#[test]
fn report_of_no_events_is_clean() {
    let report = DriftReport::build(vec![], 0);
    assert!(report.is_clean());
    assert_eq!(report.severity, DriftSeverity::Clean);
    assert_eq!(report.stats.total_events, 0);
    assert_eq!(DriftDetector::count_traced_cells(&[pipeline_trace()]), 10);
}
