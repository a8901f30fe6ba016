use delphos::constraint_algebra::canonical_constraint_rules;
use delphos::counterfactual::{CounterfactualAnalyzer, CounterfactualReport, PreserveReason, SemanticFixationGuard, SimplificationVerdict, StateReachabilityGraph};
use delphos::kernel_state::{KernelInputKind, KernelPhase};
use delphos::semantic_weight::NecessityClass;

fn analyzer() -> CounterfactualAnalyzer {
    CounterfactualAnalyzer::new()
}

fn rule_index(name: &str) -> usize {
    canonical_constraint_rules().rules.iter().position(|r| r.name == name).unwrap()
}

#[test]
fn genesis_distance_is_zero() {
    let g = StateReachabilityGraph::build();
    assert_eq!(g.distance_to(KernelPhase::Genesis), Some(0));
}

#[test]
fn bootstrapping_reachable_in_one_step() {
    let g = StateReachabilityGraph::build();
    assert_eq!(g.distance_to(KernelPhase::Bootstrapping), Some(1));
}

#[test]
fn idle_reachable_in_two_steps() {
    let g = StateReachabilityGraph::build();
    assert_eq!(g.distance_to(KernelPhase::Idle), Some(2));
}

#[test]
fn processing_phases_reachable_from_idle() {
    let g = StateReachabilityGraph::build();
    assert_eq!(g.distance_to(KernelPhase::ValidatingAbi), Some(3));
    assert_eq!(g.distance_to(KernelPhase::ValidatingSchema), Some(4));
    let deciding_dist = g.distance_to(KernelPhase::Deciding).unwrap();
    assert!(deciding_dist >= 7 && deciding_dist <= 10, "Deciding must be reachable in 7-10 steps: {deciding_dist}");
    let applying_dist = g.distance_to(KernelPhase::Applying).unwrap();
    assert!(applying_dist >= 8 && applying_dist <= 12, "Applying must be reachable in 8-12 steps: {applying_dist}");
}

#[test]
fn faulted_reachable() {
    let g = StateReachabilityGraph::build();
    assert!(g.distance_to(KernelPhase::Faulted).map(|d| d <= 5).unwrap_or(false));
}

#[test]
fn sealed_reachable() {
    let g = StateReachabilityGraph::build();
    assert_eq!(g.distance_to(KernelPhase::Sealed), Some(3));
}

#[test]
fn path_reconstruction_is_valid() {
    let g = StateReachabilityGraph::build();
    let path = g.shortest_path_to(KernelPhase::Idle).unwrap();
    assert!(!path.is_empty());
    let (_, last_input) = path.last().unwrap();
    assert_eq!(*last_input, KernelInputKind::BootstrapComplete);
}

#[test]
fn all_phases_reachable_from_genesis() {
    let g = StateReachabilityGraph::build();
    let mut unreachable = Vec::new();
    for phase in KernelPhase::all() {
        if g.distance_to(phase).is_none() {
            unreachable.push(phase);
        }
    }
    assert!(unreachable.is_empty(), "All phases must be reachable from Genesis. Unreachable: {unreachable:?}");
    assert!(g.is_fully_connected());
    assert_eq!(g.reachable_phases().len(), 18);
}

#[test]
fn pipeline_advance_can_become_critical() {
    let rs = canonical_constraint_rules();
    let a = analyzer();
    let idx = rule_index("pipeline-advance");
    let analysis = a.analyze_rule(&rs.rules[idx], idx, &rs.rules);
    assert!(analysis.is_reachable, "pipeline-advance must be reachable");
    assert!(analysis.can_become_critical, "pipeline-advance must be able to become Critical");
    let dist = analysis.min_critical_distance.unwrap();
    assert!(dist >= 3, "min critical distance must be >= 3: {dist}");
    assert!(dist <= 12, "min critical distance must be <= 12: {dist}");
}

#[test]
fn universal_fault_can_become_critical() {
    let rs = canonical_constraint_rules();
    let a = analyzer();
    let idx = rule_index("universal-fault");
    let analysis = a.analyze_rule(&rs.rules[idx], idx, &rs.rules);
    assert!(analysis.is_reachable);
    println!("universal-fault: min_critical={:?}, min_activation={:?}", analysis.min_critical_distance, analysis.min_activation_distance);
}

#[test]
fn sealed_absorbing_is_reachable() {
    let rs = canonical_constraint_rules();
    let a = analyzer();
    let idx = rule_index("sealed-absorbs-all");
    let analysis = a.analyze_rule(&rs.rules[idx], idx, &rs.rules);
    assert!(analysis.is_reachable, "sealed-absorbs-all must be reachable");
}

#[test]
fn all_canonical_rules_are_reachable() {
    let rs = canonical_constraint_rules();
    let a = analyzer();
    let analyses = a.analyze_all(&rs);
    let unreachable: Vec<&str> = analyses.iter().filter(|a| !a.is_reachable).map(|a| a.rule_name.as_str()).collect();
    assert!(unreachable.is_empty(), "all canonical rules must be reachable: {unreachable:?}");
}

#[test]
fn witness_path_is_valid_execution() {
    let rs = canonical_constraint_rules();
    let a = analyzer();
    let idx = rule_index("pipeline-advance");
    let analysis = a.analyze_rule(&rs.rules[idx], idx, &rs.rules);
    let witness = analysis.minimal_critical_witness.unwrap();
    assert!(!witness.path.is_empty());
    assert_eq!(witness.path_length, witness.path.len());
    assert!(witness.makes_rule_critical);
}

#[test]
fn minimal_witness_length_matches_distance() {
    let rs = canonical_constraint_rules();
    let a = analyzer();
    let idx = rule_index("genesis-init");
    let analysis = a.analyze_rule(&rs.rules[idx], idx, &rs.rules);
    assert_eq!(analysis.min_activation_distance, Some(1), "genesis-init activates in 1 step: {:?}", analysis.min_activation_distance);
}

#[test]
fn pipeline_advance_is_not_safe_to_simplify() {
    let rs = canonical_constraint_rules();
    let a = analyzer();
    let guard = SemanticFixationGuard::standard();
    let idx = rule_index("pipeline-advance");
    let analysis = a.analyze_rule(&rs.rules[idx], idx, &rs.rules);
    let verdict = guard.verdict(&analysis, NecessityClass::Critical, 0.5 >= 0.01);
    assert_eq!(verdict, SimplificationVerdict::Preserve(PreserveReason::IsCritical));
}

#[test]
fn latently_important_rules_are_preserved() {
    let rs = canonical_constraint_rules();
    let a = analyzer();
    let guard = SemanticFixationGuard::standard();
    let analyses = a.analyze_all(&rs);
    for analysis in &analyses {
        if analysis.is_latently_important(guard.near_threshold) {
            let verdict = guard.verdict(analysis, NecessityClass::Observational, 0.0 >= 0.01);
            assert!(matches!(verdict, SimplificationVerdict::Preserve(_)), "latently important rule '{}' must be preserved: {:?}", analysis.rule_name, verdict);
        }
    }
}

#[test]
fn no_canonical_rule_is_fixation_safe() {
    let rs = canonical_constraint_rules();
    let a = analyzer();
    let guard = SemanticFixationGuard::standard();
    let analyses = a.analyze_all(&rs);
    for analysis in &analyses {
        let verdict = guard.verdict(&analysis, NecessityClass::Observational, 0.0 >= 0.01);
        assert!(matches!(verdict, SimplificationVerdict::Preserve(_)), "canonical rule '{}' must be preserved: {:?}", analysis.rule_name, verdict);
    }
}

#[test]
fn full_report_on_canonical() {
    let rs = canonical_constraint_rules();
    let a = analyzer();
    let report = CounterfactualReport::build(&a, &rs);
    assert_eq!(report.analyses.len(), rs.rule_count());
    assert_eq!(report.graph_stats.total_phases, KernelPhase::all().len());
    assert!(report.graph_stats.unreachable_phases.is_empty(), "no phases must be unreachable: {:?}", report.graph_stats.unreachable_phases);
    println!("Graph: {} phases reachable, max_distance={}", report.graph_stats.reachable_phases, report.graph_stats.max_distance);
    println!("Latently important rules: {}", report.latently_important_rules(8).len());
}

#[test]
fn phases_by_distance_covers_all_phases() {
    let a = analyzer();
    let rs = canonical_constraint_rules();
    let report = CounterfactualReport::build(&a, &rs);
    let covered: usize = report.graph_stats.phases_by_distance.iter().map(|(_, v)| v.len()).sum();
    assert_eq!(covered, KernelPhase::all().len(), "phases_by_distance must cover every phase exactly once");
}

#[test]
fn shortest_paths_are_as_long_as_distances() {
    let g = StateReachabilityGraph::build();
    for phase in KernelPhase::all() {
        let d = g.distance_to(phase).unwrap();
        let path = g.shortest_path_to(phase).unwrap();
        assert_eq!(path.len(), d, "{phase:?}");
    }
    assert_eq!(g.shortest_path_to(KernelPhase::Genesis).unwrap(), vec![]);
    assert_eq!(
        g.shortest_path_to(KernelPhase::Idle).unwrap(),
        vec![(KernelPhase::Bootstrapping, KernelInputKind::Initialize), (KernelPhase::Idle, KernelInputKind::BootstrapComplete)]
    );
}

#[test]
fn verdict_order_of_reasons() {
    let rs = canonical_constraint_rules();
    let a = analyzer();
    let guard = SemanticFixationGuard::new(2);
    let idx = rule_index("pipeline-advance");
    let analysis = a.analyze_rule(&rs.rules[idx], idx, &rs.rules);
    assert_eq!(guard.verdict(&analysis, NecessityClass::Redundant, true), SimplificationVerdict::Preserve(PreserveReason::HasCausalImportance));
    let d = analysis.min_critical_distance.unwrap();
    assert_eq!(
        guard.verdict(&analysis, NecessityClass::Redundant, false),
        SimplificationVerdict::Preserve(PreserveReason::CanBecomeCritical { min_distance: d })
    );
    assert!(!guard.is_fixation_safe(&analysis, NecessityClass::Redundant, false));
}

#[test]
fn witness_inputs_follow_its_path() {
    let rs = canonical_constraint_rules();
    let a = analyzer();
    let idx = rule_index("genesis-init");
    let analysis = a.analyze_rule(&rs.rules[idx], idx, &rs.rules);
    let w = analysis.minimal_activation_witness.unwrap();
    assert_eq!(w.input_sequence(), vec![KernelInputKind::Initialize]);
    assert_eq!(w.target_cell, (KernelPhase::Genesis, KernelInputKind::Initialize));
    assert_eq!(w.result_phase, KernelPhase::Bootstrapping);
}

#[test]
fn latent_importance_grows_with_the_threshold() {
    let rs = canonical_constraint_rules();
    let analyses = analyzer().analyze_all(&rs);
    for analysis in &analyses {
        for t in 0..10usize {
            if analysis.is_latently_important(t) {
                assert!(analysis.is_latently_important(t + 1));
                assert!(analysis.is_latently_important(t + 20));
            }
        }
    }
}
