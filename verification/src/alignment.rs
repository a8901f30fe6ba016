//! The canonical rules reproduce the kernel: on every (phase, input) cell
//! the constraint rule set and the rule engine's table give δ.

use vstd::prelude::*;
use crate::constraint_algebra::{
    canonical_rules_view, first_match_from, lemma_pairs_guard_eval, pipeline_advance_pairs, rules_delta,
    validation_rejection_pairs, ExprView,
};
use crate::kernel_state::{
    input_at, input_index, lemma_index_bijection, spec_kernel_delta, table_lookup_from, KernelInputKind, KernelPhase,
};
use crate::rule_engine::{
    all_inputs, best_claim, canonical_rules_view as engine_rules_view, claim_from, engine_delta, rejection_arcs,
    universal_fault_phases, PatternView, rule_claim, TransitionRuleView,
};
use crate::cells::Cell;

verus! {

/// The canonical constraint rules give δ on every cell of phase `Genesis`.
proof fn lemma_constraint_rules_genesis(i: KernelInputKind)
    ensures
        rules_delta(canonical_rules_view(), KernelPhase::Genesis, i) == spec_kernel_delta(KernelPhase::Genesis, i),
{
    lemma_pairs_guard_eval(pipeline_advance_pairs(), KernelPhase::Genesis, i);
    lemma_pairs_guard_eval(validation_rejection_pairs(), KernelPhase::Genesis, i);
    reveal_with_fuel(first_match_from, 20);
    reveal_with_fuel(ExprView::eval, 4);
    reveal_with_fuel(table_lookup_from, 46);
    match i {
        KernelInputKind::Initialize => {},
        KernelInputKind::BootstrapComplete => {},
        KernelInputKind::EventArrived => {},
        KernelInputKind::AbiValid => {},
        KernelInputKind::AbiFailed => {},
        KernelInputKind::SchemaValid => {},
        KernelInputKind::SchemaFailed => {},
        KernelInputKind::ClockValid => {},
        KernelInputKind::ClockFailed => {},
        KernelInputKind::CapabilityGranted => {},
        KernelInputKind::CapabilityDenied => {},
        KernelInputKind::CausalValid => {},
        KernelInputKind::CausalFailed => {},
        KernelInputKind::DecisionAllow => {},
        KernelInputKind::DecisionReject => {},
        KernelInputKind::DecisionTransform => {},
        KernelInputKind::TransitionApplied => {},
        KernelInputKind::TransitionFailed => {},
        KernelInputKind::ProjectionStamped => {},
        KernelInputKind::EmitComplete => {},
        KernelInputKind::ReplayRequested => {},
        KernelInputKind::ReplayEventApplied => {},
        KernelInputKind::ReplayComplete => {},
        KernelInputKind::IdentityConfirmed => {},
        KernelInputKind::IdentityDiverged => {},
        KernelInputKind::SealRequested => {},
        KernelInputKind::FaultDetected => {},
        KernelInputKind::RecoveryAttempted => {},
        KernelInputKind::RecoverySucceeded => {},
    }
}

/// The canonical constraint rules give δ on every cell of phase `Bootstrapping`.
proof fn lemma_constraint_rules_bootstrapping(i: KernelInputKind)
    ensures
        rules_delta(canonical_rules_view(), KernelPhase::Bootstrapping, i) == spec_kernel_delta(KernelPhase::Bootstrapping, i),
{
    lemma_pairs_guard_eval(pipeline_advance_pairs(), KernelPhase::Bootstrapping, i);
    lemma_pairs_guard_eval(validation_rejection_pairs(), KernelPhase::Bootstrapping, i);
    reveal_with_fuel(first_match_from, 20);
    reveal_with_fuel(ExprView::eval, 4);
    reveal_with_fuel(table_lookup_from, 46);
    match i {
        KernelInputKind::Initialize => {},
        KernelInputKind::BootstrapComplete => {},
        KernelInputKind::EventArrived => {},
        KernelInputKind::AbiValid => {},
        KernelInputKind::AbiFailed => {},
        KernelInputKind::SchemaValid => {},
        KernelInputKind::SchemaFailed => {},
        KernelInputKind::ClockValid => {},
        KernelInputKind::ClockFailed => {},
        KernelInputKind::CapabilityGranted => {},
        KernelInputKind::CapabilityDenied => {},
        KernelInputKind::CausalValid => {},
        KernelInputKind::CausalFailed => {},
        KernelInputKind::DecisionAllow => {},
        KernelInputKind::DecisionReject => {},
        KernelInputKind::DecisionTransform => {},
        KernelInputKind::TransitionApplied => {},
        KernelInputKind::TransitionFailed => {},
        KernelInputKind::ProjectionStamped => {},
        KernelInputKind::EmitComplete => {},
        KernelInputKind::ReplayRequested => {},
        KernelInputKind::ReplayEventApplied => {},
        KernelInputKind::ReplayComplete => {},
        KernelInputKind::IdentityConfirmed => {},
        KernelInputKind::IdentityDiverged => {},
        KernelInputKind::SealRequested => {},
        KernelInputKind::FaultDetected => {},
        KernelInputKind::RecoveryAttempted => {},
        KernelInputKind::RecoverySucceeded => {},
    }
}

/// The canonical constraint rules give δ on every cell of phase `Idle`.
proof fn lemma_constraint_rules_idle(i: KernelInputKind)
    ensures
        rules_delta(canonical_rules_view(), KernelPhase::Idle, i) == spec_kernel_delta(KernelPhase::Idle, i),
{
    lemma_pairs_guard_eval(pipeline_advance_pairs(), KernelPhase::Idle, i);
    lemma_pairs_guard_eval(validation_rejection_pairs(), KernelPhase::Idle, i);
    reveal_with_fuel(first_match_from, 20);
    reveal_with_fuel(ExprView::eval, 4);
    reveal_with_fuel(table_lookup_from, 46);
    match i {
        KernelInputKind::Initialize => {},
        KernelInputKind::BootstrapComplete => {},
        KernelInputKind::EventArrived => {},
        KernelInputKind::AbiValid => {},
        KernelInputKind::AbiFailed => {},
        KernelInputKind::SchemaValid => {},
        KernelInputKind::SchemaFailed => {},
        KernelInputKind::ClockValid => {},
        KernelInputKind::ClockFailed => {},
        KernelInputKind::CapabilityGranted => {},
        KernelInputKind::CapabilityDenied => {},
        KernelInputKind::CausalValid => {},
        KernelInputKind::CausalFailed => {},
        KernelInputKind::DecisionAllow => {},
        KernelInputKind::DecisionReject => {},
        KernelInputKind::DecisionTransform => {},
        KernelInputKind::TransitionApplied => {},
        KernelInputKind::TransitionFailed => {},
        KernelInputKind::ProjectionStamped => {},
        KernelInputKind::EmitComplete => {},
        KernelInputKind::ReplayRequested => {},
        KernelInputKind::ReplayEventApplied => {},
        KernelInputKind::ReplayComplete => {},
        KernelInputKind::IdentityConfirmed => {},
        KernelInputKind::IdentityDiverged => {},
        KernelInputKind::SealRequested => {},
        KernelInputKind::FaultDetected => {},
        KernelInputKind::RecoveryAttempted => {},
        KernelInputKind::RecoverySucceeded => {},
    }
}

/// The canonical constraint rules give δ on every cell of phase `ValidatingAbi`.
proof fn lemma_constraint_rules_validating_abi(i: KernelInputKind)
    ensures
        rules_delta(canonical_rules_view(), KernelPhase::ValidatingAbi, i) == spec_kernel_delta(KernelPhase::ValidatingAbi, i),
{
    lemma_pairs_guard_eval(pipeline_advance_pairs(), KernelPhase::ValidatingAbi, i);
    lemma_pairs_guard_eval(validation_rejection_pairs(), KernelPhase::ValidatingAbi, i);
    reveal_with_fuel(first_match_from, 20);
    reveal_with_fuel(ExprView::eval, 4);
    reveal_with_fuel(table_lookup_from, 46);
    match i {
        KernelInputKind::Initialize => {},
        KernelInputKind::BootstrapComplete => {},
        KernelInputKind::EventArrived => {},
        KernelInputKind::AbiValid => {},
        KernelInputKind::AbiFailed => {},
        KernelInputKind::SchemaValid => {},
        KernelInputKind::SchemaFailed => {},
        KernelInputKind::ClockValid => {},
        KernelInputKind::ClockFailed => {},
        KernelInputKind::CapabilityGranted => {},
        KernelInputKind::CapabilityDenied => {},
        KernelInputKind::CausalValid => {},
        KernelInputKind::CausalFailed => {},
        KernelInputKind::DecisionAllow => {},
        KernelInputKind::DecisionReject => {},
        KernelInputKind::DecisionTransform => {},
        KernelInputKind::TransitionApplied => {},
        KernelInputKind::TransitionFailed => {},
        KernelInputKind::ProjectionStamped => {},
        KernelInputKind::EmitComplete => {},
        KernelInputKind::ReplayRequested => {},
        KernelInputKind::ReplayEventApplied => {},
        KernelInputKind::ReplayComplete => {},
        KernelInputKind::IdentityConfirmed => {},
        KernelInputKind::IdentityDiverged => {},
        KernelInputKind::SealRequested => {},
        KernelInputKind::FaultDetected => {},
        KernelInputKind::RecoveryAttempted => {},
        KernelInputKind::RecoverySucceeded => {},
    }
}

/// The canonical constraint rules give δ on every cell of phase `ValidatingSchema`.
proof fn lemma_constraint_rules_validating_schema(i: KernelInputKind)
    ensures
        rules_delta(canonical_rules_view(), KernelPhase::ValidatingSchema, i) == spec_kernel_delta(KernelPhase::ValidatingSchema, i),
{
    lemma_pairs_guard_eval(pipeline_advance_pairs(), KernelPhase::ValidatingSchema, i);
    lemma_pairs_guard_eval(validation_rejection_pairs(), KernelPhase::ValidatingSchema, i);
    reveal_with_fuel(first_match_from, 20);
    reveal_with_fuel(ExprView::eval, 4);
    reveal_with_fuel(table_lookup_from, 46);
    match i {
        KernelInputKind::Initialize => {},
        KernelInputKind::BootstrapComplete => {},
        KernelInputKind::EventArrived => {},
        KernelInputKind::AbiValid => {},
        KernelInputKind::AbiFailed => {},
        KernelInputKind::SchemaValid => {},
        KernelInputKind::SchemaFailed => {},
        KernelInputKind::ClockValid => {},
        KernelInputKind::ClockFailed => {},
        KernelInputKind::CapabilityGranted => {},
        KernelInputKind::CapabilityDenied => {},
        KernelInputKind::CausalValid => {},
        KernelInputKind::CausalFailed => {},
        KernelInputKind::DecisionAllow => {},
        KernelInputKind::DecisionReject => {},
        KernelInputKind::DecisionTransform => {},
        KernelInputKind::TransitionApplied => {},
        KernelInputKind::TransitionFailed => {},
        KernelInputKind::ProjectionStamped => {},
        KernelInputKind::EmitComplete => {},
        KernelInputKind::ReplayRequested => {},
        KernelInputKind::ReplayEventApplied => {},
        KernelInputKind::ReplayComplete => {},
        KernelInputKind::IdentityConfirmed => {},
        KernelInputKind::IdentityDiverged => {},
        KernelInputKind::SealRequested => {},
        KernelInputKind::FaultDetected => {},
        KernelInputKind::RecoveryAttempted => {},
        KernelInputKind::RecoverySucceeded => {},
    }
}

/// The canonical constraint rules give δ on every cell of phase `ValidatingClock`.
proof fn lemma_constraint_rules_validating_clock(i: KernelInputKind)
    ensures
        rules_delta(canonical_rules_view(), KernelPhase::ValidatingClock, i) == spec_kernel_delta(KernelPhase::ValidatingClock, i),
{
    lemma_pairs_guard_eval(pipeline_advance_pairs(), KernelPhase::ValidatingClock, i);
    lemma_pairs_guard_eval(validation_rejection_pairs(), KernelPhase::ValidatingClock, i);
    reveal_with_fuel(first_match_from, 20);
    reveal_with_fuel(ExprView::eval, 4);
    reveal_with_fuel(table_lookup_from, 46);
    match i {
        KernelInputKind::Initialize => {},
        KernelInputKind::BootstrapComplete => {},
        KernelInputKind::EventArrived => {},
        KernelInputKind::AbiValid => {},
        KernelInputKind::AbiFailed => {},
        KernelInputKind::SchemaValid => {},
        KernelInputKind::SchemaFailed => {},
        KernelInputKind::ClockValid => {},
        KernelInputKind::ClockFailed => {},
        KernelInputKind::CapabilityGranted => {},
        KernelInputKind::CapabilityDenied => {},
        KernelInputKind::CausalValid => {},
        KernelInputKind::CausalFailed => {},
        KernelInputKind::DecisionAllow => {},
        KernelInputKind::DecisionReject => {},
        KernelInputKind::DecisionTransform => {},
        KernelInputKind::TransitionApplied => {},
        KernelInputKind::TransitionFailed => {},
        KernelInputKind::ProjectionStamped => {},
        KernelInputKind::EmitComplete => {},
        KernelInputKind::ReplayRequested => {},
        KernelInputKind::ReplayEventApplied => {},
        KernelInputKind::ReplayComplete => {},
        KernelInputKind::IdentityConfirmed => {},
        KernelInputKind::IdentityDiverged => {},
        KernelInputKind::SealRequested => {},
        KernelInputKind::FaultDetected => {},
        KernelInputKind::RecoveryAttempted => {},
        KernelInputKind::RecoverySucceeded => {},
    }
}

/// The canonical constraint rules give δ on every cell of phase `ValidatingCapability`.
proof fn lemma_constraint_rules_validating_capability(i: KernelInputKind)
    ensures
        rules_delta(canonical_rules_view(), KernelPhase::ValidatingCapability, i) == spec_kernel_delta(KernelPhase::ValidatingCapability, i),
{
    lemma_pairs_guard_eval(pipeline_advance_pairs(), KernelPhase::ValidatingCapability, i);
    lemma_pairs_guard_eval(validation_rejection_pairs(), KernelPhase::ValidatingCapability, i);
    reveal_with_fuel(first_match_from, 20);
    reveal_with_fuel(ExprView::eval, 4);
    reveal_with_fuel(table_lookup_from, 46);
    match i {
        KernelInputKind::Initialize => {},
        KernelInputKind::BootstrapComplete => {},
        KernelInputKind::EventArrived => {},
        KernelInputKind::AbiValid => {},
        KernelInputKind::AbiFailed => {},
        KernelInputKind::SchemaValid => {},
        KernelInputKind::SchemaFailed => {},
        KernelInputKind::ClockValid => {},
        KernelInputKind::ClockFailed => {},
        KernelInputKind::CapabilityGranted => {},
        KernelInputKind::CapabilityDenied => {},
        KernelInputKind::CausalValid => {},
        KernelInputKind::CausalFailed => {},
        KernelInputKind::DecisionAllow => {},
        KernelInputKind::DecisionReject => {},
        KernelInputKind::DecisionTransform => {},
        KernelInputKind::TransitionApplied => {},
        KernelInputKind::TransitionFailed => {},
        KernelInputKind::ProjectionStamped => {},
        KernelInputKind::EmitComplete => {},
        KernelInputKind::ReplayRequested => {},
        KernelInputKind::ReplayEventApplied => {},
        KernelInputKind::ReplayComplete => {},
        KernelInputKind::IdentityConfirmed => {},
        KernelInputKind::IdentityDiverged => {},
        KernelInputKind::SealRequested => {},
        KernelInputKind::FaultDetected => {},
        KernelInputKind::RecoveryAttempted => {},
        KernelInputKind::RecoverySucceeded => {},
    }
}

/// The canonical constraint rules give δ on every cell of phase `ValidatingCausal`.
proof fn lemma_constraint_rules_validating_causal(i: KernelInputKind)
    ensures
        rules_delta(canonical_rules_view(), KernelPhase::ValidatingCausal, i) == spec_kernel_delta(KernelPhase::ValidatingCausal, i),
{
    lemma_pairs_guard_eval(pipeline_advance_pairs(), KernelPhase::ValidatingCausal, i);
    lemma_pairs_guard_eval(validation_rejection_pairs(), KernelPhase::ValidatingCausal, i);
    reveal_with_fuel(first_match_from, 20);
    reveal_with_fuel(ExprView::eval, 4);
    reveal_with_fuel(table_lookup_from, 46);
    match i {
        KernelInputKind::Initialize => {},
        KernelInputKind::BootstrapComplete => {},
        KernelInputKind::EventArrived => {},
        KernelInputKind::AbiValid => {},
        KernelInputKind::AbiFailed => {},
        KernelInputKind::SchemaValid => {},
        KernelInputKind::SchemaFailed => {},
        KernelInputKind::ClockValid => {},
        KernelInputKind::ClockFailed => {},
        KernelInputKind::CapabilityGranted => {},
        KernelInputKind::CapabilityDenied => {},
        KernelInputKind::CausalValid => {},
        KernelInputKind::CausalFailed => {},
        KernelInputKind::DecisionAllow => {},
        KernelInputKind::DecisionReject => {},
        KernelInputKind::DecisionTransform => {},
        KernelInputKind::TransitionApplied => {},
        KernelInputKind::TransitionFailed => {},
        KernelInputKind::ProjectionStamped => {},
        KernelInputKind::EmitComplete => {},
        KernelInputKind::ReplayRequested => {},
        KernelInputKind::ReplayEventApplied => {},
        KernelInputKind::ReplayComplete => {},
        KernelInputKind::IdentityConfirmed => {},
        KernelInputKind::IdentityDiverged => {},
        KernelInputKind::SealRequested => {},
        KernelInputKind::FaultDetected => {},
        KernelInputKind::RecoveryAttempted => {},
        KernelInputKind::RecoverySucceeded => {},
    }
}

/// The canonical constraint rules give δ on every cell of phase `Deciding`.
proof fn lemma_constraint_rules_deciding(i: KernelInputKind)
    ensures
        rules_delta(canonical_rules_view(), KernelPhase::Deciding, i) == spec_kernel_delta(KernelPhase::Deciding, i),
{
    lemma_pairs_guard_eval(pipeline_advance_pairs(), KernelPhase::Deciding, i);
    lemma_pairs_guard_eval(validation_rejection_pairs(), KernelPhase::Deciding, i);
    reveal_with_fuel(first_match_from, 20);
    reveal_with_fuel(ExprView::eval, 4);
    reveal_with_fuel(table_lookup_from, 46);
    match i {
        KernelInputKind::Initialize => {},
        KernelInputKind::BootstrapComplete => {},
        KernelInputKind::EventArrived => {},
        KernelInputKind::AbiValid => {},
        KernelInputKind::AbiFailed => {},
        KernelInputKind::SchemaValid => {},
        KernelInputKind::SchemaFailed => {},
        KernelInputKind::ClockValid => {},
        KernelInputKind::ClockFailed => {},
        KernelInputKind::CapabilityGranted => {},
        KernelInputKind::CapabilityDenied => {},
        KernelInputKind::CausalValid => {},
        KernelInputKind::CausalFailed => {},
        KernelInputKind::DecisionAllow => {},
        KernelInputKind::DecisionReject => {},
        KernelInputKind::DecisionTransform => {},
        KernelInputKind::TransitionApplied => {},
        KernelInputKind::TransitionFailed => {},
        KernelInputKind::ProjectionStamped => {},
        KernelInputKind::EmitComplete => {},
        KernelInputKind::ReplayRequested => {},
        KernelInputKind::ReplayEventApplied => {},
        KernelInputKind::ReplayComplete => {},
        KernelInputKind::IdentityConfirmed => {},
        KernelInputKind::IdentityDiverged => {},
        KernelInputKind::SealRequested => {},
        KernelInputKind::FaultDetected => {},
        KernelInputKind::RecoveryAttempted => {},
        KernelInputKind::RecoverySucceeded => {},
    }
}

/// The canonical constraint rules give δ on every cell of phase `Applying`.
proof fn lemma_constraint_rules_applying(i: KernelInputKind)
    ensures
        rules_delta(canonical_rules_view(), KernelPhase::Applying, i) == spec_kernel_delta(KernelPhase::Applying, i),
{
    lemma_pairs_guard_eval(pipeline_advance_pairs(), KernelPhase::Applying, i);
    lemma_pairs_guard_eval(validation_rejection_pairs(), KernelPhase::Applying, i);
    reveal_with_fuel(first_match_from, 20);
    reveal_with_fuel(ExprView::eval, 4);
    reveal_with_fuel(table_lookup_from, 46);
    match i {
        KernelInputKind::Initialize => {},
        KernelInputKind::BootstrapComplete => {},
        KernelInputKind::EventArrived => {},
        KernelInputKind::AbiValid => {},
        KernelInputKind::AbiFailed => {},
        KernelInputKind::SchemaValid => {},
        KernelInputKind::SchemaFailed => {},
        KernelInputKind::ClockValid => {},
        KernelInputKind::ClockFailed => {},
        KernelInputKind::CapabilityGranted => {},
        KernelInputKind::CapabilityDenied => {},
        KernelInputKind::CausalValid => {},
        KernelInputKind::CausalFailed => {},
        KernelInputKind::DecisionAllow => {},
        KernelInputKind::DecisionReject => {},
        KernelInputKind::DecisionTransform => {},
        KernelInputKind::TransitionApplied => {},
        KernelInputKind::TransitionFailed => {},
        KernelInputKind::ProjectionStamped => {},
        KernelInputKind::EmitComplete => {},
        KernelInputKind::ReplayRequested => {},
        KernelInputKind::ReplayEventApplied => {},
        KernelInputKind::ReplayComplete => {},
        KernelInputKind::IdentityConfirmed => {},
        KernelInputKind::IdentityDiverged => {},
        KernelInputKind::SealRequested => {},
        KernelInputKind::FaultDetected => {},
        KernelInputKind::RecoveryAttempted => {},
        KernelInputKind::RecoverySucceeded => {},
    }
}

/// The canonical constraint rules give δ on every cell of phase `Stamping`.
proof fn lemma_constraint_rules_stamping(i: KernelInputKind)
    ensures
        rules_delta(canonical_rules_view(), KernelPhase::Stamping, i) == spec_kernel_delta(KernelPhase::Stamping, i),
{
    lemma_pairs_guard_eval(pipeline_advance_pairs(), KernelPhase::Stamping, i);
    lemma_pairs_guard_eval(validation_rejection_pairs(), KernelPhase::Stamping, i);
    reveal_with_fuel(first_match_from, 20);
    reveal_with_fuel(ExprView::eval, 4);
    reveal_with_fuel(table_lookup_from, 46);
    match i {
        KernelInputKind::Initialize => {},
        KernelInputKind::BootstrapComplete => {},
        KernelInputKind::EventArrived => {},
        KernelInputKind::AbiValid => {},
        KernelInputKind::AbiFailed => {},
        KernelInputKind::SchemaValid => {},
        KernelInputKind::SchemaFailed => {},
        KernelInputKind::ClockValid => {},
        KernelInputKind::ClockFailed => {},
        KernelInputKind::CapabilityGranted => {},
        KernelInputKind::CapabilityDenied => {},
        KernelInputKind::CausalValid => {},
        KernelInputKind::CausalFailed => {},
        KernelInputKind::DecisionAllow => {},
        KernelInputKind::DecisionReject => {},
        KernelInputKind::DecisionTransform => {},
        KernelInputKind::TransitionApplied => {},
        KernelInputKind::TransitionFailed => {},
        KernelInputKind::ProjectionStamped => {},
        KernelInputKind::EmitComplete => {},
        KernelInputKind::ReplayRequested => {},
        KernelInputKind::ReplayEventApplied => {},
        KernelInputKind::ReplayComplete => {},
        KernelInputKind::IdentityConfirmed => {},
        KernelInputKind::IdentityDiverged => {},
        KernelInputKind::SealRequested => {},
        KernelInputKind::FaultDetected => {},
        KernelInputKind::RecoveryAttempted => {},
        KernelInputKind::RecoverySucceeded => {},
    }
}

/// The canonical constraint rules give δ on every cell of phase `Emitting`.
proof fn lemma_constraint_rules_emitting(i: KernelInputKind)
    ensures
        rules_delta(canonical_rules_view(), KernelPhase::Emitting, i) == spec_kernel_delta(KernelPhase::Emitting, i),
{
    lemma_pairs_guard_eval(pipeline_advance_pairs(), KernelPhase::Emitting, i);
    lemma_pairs_guard_eval(validation_rejection_pairs(), KernelPhase::Emitting, i);
    reveal_with_fuel(first_match_from, 20);
    reveal_with_fuel(ExprView::eval, 4);
    reveal_with_fuel(table_lookup_from, 46);
    match i {
        KernelInputKind::Initialize => {},
        KernelInputKind::BootstrapComplete => {},
        KernelInputKind::EventArrived => {},
        KernelInputKind::AbiValid => {},
        KernelInputKind::AbiFailed => {},
        KernelInputKind::SchemaValid => {},
        KernelInputKind::SchemaFailed => {},
        KernelInputKind::ClockValid => {},
        KernelInputKind::ClockFailed => {},
        KernelInputKind::CapabilityGranted => {},
        KernelInputKind::CapabilityDenied => {},
        KernelInputKind::CausalValid => {},
        KernelInputKind::CausalFailed => {},
        KernelInputKind::DecisionAllow => {},
        KernelInputKind::DecisionReject => {},
        KernelInputKind::DecisionTransform => {},
        KernelInputKind::TransitionApplied => {},
        KernelInputKind::TransitionFailed => {},
        KernelInputKind::ProjectionStamped => {},
        KernelInputKind::EmitComplete => {},
        KernelInputKind::ReplayRequested => {},
        KernelInputKind::ReplayEventApplied => {},
        KernelInputKind::ReplayComplete => {},
        KernelInputKind::IdentityConfirmed => {},
        KernelInputKind::IdentityDiverged => {},
        KernelInputKind::SealRequested => {},
        KernelInputKind::FaultDetected => {},
        KernelInputKind::RecoveryAttempted => {},
        KernelInputKind::RecoverySucceeded => {},
    }
}

/// The canonical constraint rules give δ on every cell of phase `ReplayPending`.
proof fn lemma_constraint_rules_replay_pending(i: KernelInputKind)
    ensures
        rules_delta(canonical_rules_view(), KernelPhase::ReplayPending, i) == spec_kernel_delta(KernelPhase::ReplayPending, i),
{
    lemma_pairs_guard_eval(pipeline_advance_pairs(), KernelPhase::ReplayPending, i);
    lemma_pairs_guard_eval(validation_rejection_pairs(), KernelPhase::ReplayPending, i);
    reveal_with_fuel(first_match_from, 20);
    reveal_with_fuel(ExprView::eval, 4);
    reveal_with_fuel(table_lookup_from, 46);
    match i {
        KernelInputKind::Initialize => {},
        KernelInputKind::BootstrapComplete => {},
        KernelInputKind::EventArrived => {},
        KernelInputKind::AbiValid => {},
        KernelInputKind::AbiFailed => {},
        KernelInputKind::SchemaValid => {},
        KernelInputKind::SchemaFailed => {},
        KernelInputKind::ClockValid => {},
        KernelInputKind::ClockFailed => {},
        KernelInputKind::CapabilityGranted => {},
        KernelInputKind::CapabilityDenied => {},
        KernelInputKind::CausalValid => {},
        KernelInputKind::CausalFailed => {},
        KernelInputKind::DecisionAllow => {},
        KernelInputKind::DecisionReject => {},
        KernelInputKind::DecisionTransform => {},
        KernelInputKind::TransitionApplied => {},
        KernelInputKind::TransitionFailed => {},
        KernelInputKind::ProjectionStamped => {},
        KernelInputKind::EmitComplete => {},
        KernelInputKind::ReplayRequested => {},
        KernelInputKind::ReplayEventApplied => {},
        KernelInputKind::ReplayComplete => {},
        KernelInputKind::IdentityConfirmed => {},
        KernelInputKind::IdentityDiverged => {},
        KernelInputKind::SealRequested => {},
        KernelInputKind::FaultDetected => {},
        KernelInputKind::RecoveryAttempted => {},
        KernelInputKind::RecoverySucceeded => {},
    }
}

/// The canonical constraint rules give δ on every cell of phase `Replaying`.
proof fn lemma_constraint_rules_replaying(i: KernelInputKind)
    ensures
        rules_delta(canonical_rules_view(), KernelPhase::Replaying, i) == spec_kernel_delta(KernelPhase::Replaying, i),
{
    lemma_pairs_guard_eval(pipeline_advance_pairs(), KernelPhase::Replaying, i);
    lemma_pairs_guard_eval(validation_rejection_pairs(), KernelPhase::Replaying, i);
    reveal_with_fuel(first_match_from, 20);
    reveal_with_fuel(ExprView::eval, 4);
    reveal_with_fuel(table_lookup_from, 46);
    match i {
        KernelInputKind::Initialize => {},
        KernelInputKind::BootstrapComplete => {},
        KernelInputKind::EventArrived => {},
        KernelInputKind::AbiValid => {},
        KernelInputKind::AbiFailed => {},
        KernelInputKind::SchemaValid => {},
        KernelInputKind::SchemaFailed => {},
        KernelInputKind::ClockValid => {},
        KernelInputKind::ClockFailed => {},
        KernelInputKind::CapabilityGranted => {},
        KernelInputKind::CapabilityDenied => {},
        KernelInputKind::CausalValid => {},
        KernelInputKind::CausalFailed => {},
        KernelInputKind::DecisionAllow => {},
        KernelInputKind::DecisionReject => {},
        KernelInputKind::DecisionTransform => {},
        KernelInputKind::TransitionApplied => {},
        KernelInputKind::TransitionFailed => {},
        KernelInputKind::ProjectionStamped => {},
        KernelInputKind::EmitComplete => {},
        KernelInputKind::ReplayRequested => {},
        KernelInputKind::ReplayEventApplied => {},
        KernelInputKind::ReplayComplete => {},
        KernelInputKind::IdentityConfirmed => {},
        KernelInputKind::IdentityDiverged => {},
        KernelInputKind::SealRequested => {},
        KernelInputKind::FaultDetected => {},
        KernelInputKind::RecoveryAttempted => {},
        KernelInputKind::RecoverySucceeded => {},
    }
}

/// The canonical constraint rules give δ on every cell of phase `VerifyingIdentity`.
proof fn lemma_constraint_rules_verifying_identity(i: KernelInputKind)
    ensures
        rules_delta(canonical_rules_view(), KernelPhase::VerifyingIdentity, i) == spec_kernel_delta(KernelPhase::VerifyingIdentity, i),
{
    lemma_pairs_guard_eval(pipeline_advance_pairs(), KernelPhase::VerifyingIdentity, i);
    lemma_pairs_guard_eval(validation_rejection_pairs(), KernelPhase::VerifyingIdentity, i);
    reveal_with_fuel(first_match_from, 20);
    reveal_with_fuel(ExprView::eval, 4);
    reveal_with_fuel(table_lookup_from, 46);
    match i {
        KernelInputKind::Initialize => {},
        KernelInputKind::BootstrapComplete => {},
        KernelInputKind::EventArrived => {},
        KernelInputKind::AbiValid => {},
        KernelInputKind::AbiFailed => {},
        KernelInputKind::SchemaValid => {},
        KernelInputKind::SchemaFailed => {},
        KernelInputKind::ClockValid => {},
        KernelInputKind::ClockFailed => {},
        KernelInputKind::CapabilityGranted => {},
        KernelInputKind::CapabilityDenied => {},
        KernelInputKind::CausalValid => {},
        KernelInputKind::CausalFailed => {},
        KernelInputKind::DecisionAllow => {},
        KernelInputKind::DecisionReject => {},
        KernelInputKind::DecisionTransform => {},
        KernelInputKind::TransitionApplied => {},
        KernelInputKind::TransitionFailed => {},
        KernelInputKind::ProjectionStamped => {},
        KernelInputKind::EmitComplete => {},
        KernelInputKind::ReplayRequested => {},
        KernelInputKind::ReplayEventApplied => {},
        KernelInputKind::ReplayComplete => {},
        KernelInputKind::IdentityConfirmed => {},
        KernelInputKind::IdentityDiverged => {},
        KernelInputKind::SealRequested => {},
        KernelInputKind::FaultDetected => {},
        KernelInputKind::RecoveryAttempted => {},
        KernelInputKind::RecoverySucceeded => {},
    }
}

/// The canonical constraint rules give δ on every cell of phase `Recovering`.
proof fn lemma_constraint_rules_recovering(i: KernelInputKind)
    ensures
        rules_delta(canonical_rules_view(), KernelPhase::Recovering, i) == spec_kernel_delta(KernelPhase::Recovering, i),
{
    lemma_pairs_guard_eval(pipeline_advance_pairs(), KernelPhase::Recovering, i);
    lemma_pairs_guard_eval(validation_rejection_pairs(), KernelPhase::Recovering, i);
    reveal_with_fuel(first_match_from, 20);
    reveal_with_fuel(ExprView::eval, 4);
    reveal_with_fuel(table_lookup_from, 46);
    match i {
        KernelInputKind::Initialize => {},
        KernelInputKind::BootstrapComplete => {},
        KernelInputKind::EventArrived => {},
        KernelInputKind::AbiValid => {},
        KernelInputKind::AbiFailed => {},
        KernelInputKind::SchemaValid => {},
        KernelInputKind::SchemaFailed => {},
        KernelInputKind::ClockValid => {},
        KernelInputKind::ClockFailed => {},
        KernelInputKind::CapabilityGranted => {},
        KernelInputKind::CapabilityDenied => {},
        KernelInputKind::CausalValid => {},
        KernelInputKind::CausalFailed => {},
        KernelInputKind::DecisionAllow => {},
        KernelInputKind::DecisionReject => {},
        KernelInputKind::DecisionTransform => {},
        KernelInputKind::TransitionApplied => {},
        KernelInputKind::TransitionFailed => {},
        KernelInputKind::ProjectionStamped => {},
        KernelInputKind::EmitComplete => {},
        KernelInputKind::ReplayRequested => {},
        KernelInputKind::ReplayEventApplied => {},
        KernelInputKind::ReplayComplete => {},
        KernelInputKind::IdentityConfirmed => {},
        KernelInputKind::IdentityDiverged => {},
        KernelInputKind::SealRequested => {},
        KernelInputKind::FaultDetected => {},
        KernelInputKind::RecoveryAttempted => {},
        KernelInputKind::RecoverySucceeded => {},
    }
}

/// The canonical constraint rules give δ on every cell of phase `Sealed`.
proof fn lemma_constraint_rules_sealed(i: KernelInputKind)
    ensures
        rules_delta(canonical_rules_view(), KernelPhase::Sealed, i) == spec_kernel_delta(KernelPhase::Sealed, i),
{
    lemma_pairs_guard_eval(pipeline_advance_pairs(), KernelPhase::Sealed, i);
    lemma_pairs_guard_eval(validation_rejection_pairs(), KernelPhase::Sealed, i);
    reveal_with_fuel(first_match_from, 20);
    reveal_with_fuel(ExprView::eval, 4);
    reveal_with_fuel(table_lookup_from, 46);
    match i {
        KernelInputKind::Initialize => {},
        KernelInputKind::BootstrapComplete => {},
        KernelInputKind::EventArrived => {},
        KernelInputKind::AbiValid => {},
        KernelInputKind::AbiFailed => {},
        KernelInputKind::SchemaValid => {},
        KernelInputKind::SchemaFailed => {},
        KernelInputKind::ClockValid => {},
        KernelInputKind::ClockFailed => {},
        KernelInputKind::CapabilityGranted => {},
        KernelInputKind::CapabilityDenied => {},
        KernelInputKind::CausalValid => {},
        KernelInputKind::CausalFailed => {},
        KernelInputKind::DecisionAllow => {},
        KernelInputKind::DecisionReject => {},
        KernelInputKind::DecisionTransform => {},
        KernelInputKind::TransitionApplied => {},
        KernelInputKind::TransitionFailed => {},
        KernelInputKind::ProjectionStamped => {},
        KernelInputKind::EmitComplete => {},
        KernelInputKind::ReplayRequested => {},
        KernelInputKind::ReplayEventApplied => {},
        KernelInputKind::ReplayComplete => {},
        KernelInputKind::IdentityConfirmed => {},
        KernelInputKind::IdentityDiverged => {},
        KernelInputKind::SealRequested => {},
        KernelInputKind::FaultDetected => {},
        KernelInputKind::RecoveryAttempted => {},
        KernelInputKind::RecoverySucceeded => {},
    }
}

/// The canonical constraint rules give δ on every cell of phase `Faulted`.
proof fn lemma_constraint_rules_faulted(i: KernelInputKind)
    ensures
        rules_delta(canonical_rules_view(), KernelPhase::Faulted, i) == spec_kernel_delta(KernelPhase::Faulted, i),
{
    lemma_pairs_guard_eval(pipeline_advance_pairs(), KernelPhase::Faulted, i);
    lemma_pairs_guard_eval(validation_rejection_pairs(), KernelPhase::Faulted, i);
    reveal_with_fuel(first_match_from, 20);
    reveal_with_fuel(ExprView::eval, 4);
    reveal_with_fuel(table_lookup_from, 46);
    match i {
        KernelInputKind::Initialize => {},
        KernelInputKind::BootstrapComplete => {},
        KernelInputKind::EventArrived => {},
        KernelInputKind::AbiValid => {},
        KernelInputKind::AbiFailed => {},
        KernelInputKind::SchemaValid => {},
        KernelInputKind::SchemaFailed => {},
        KernelInputKind::ClockValid => {},
        KernelInputKind::ClockFailed => {},
        KernelInputKind::CapabilityGranted => {},
        KernelInputKind::CapabilityDenied => {},
        KernelInputKind::CausalValid => {},
        KernelInputKind::CausalFailed => {},
        KernelInputKind::DecisionAllow => {},
        KernelInputKind::DecisionReject => {},
        KernelInputKind::DecisionTransform => {},
        KernelInputKind::TransitionApplied => {},
        KernelInputKind::TransitionFailed => {},
        KernelInputKind::ProjectionStamped => {},
        KernelInputKind::EmitComplete => {},
        KernelInputKind::ReplayRequested => {},
        KernelInputKind::ReplayEventApplied => {},
        KernelInputKind::ReplayComplete => {},
        KernelInputKind::IdentityConfirmed => {},
        KernelInputKind::IdentityDiverged => {},
        KernelInputKind::SealRequested => {},
        KernelInputKind::FaultDetected => {},
        KernelInputKind::RecoveryAttempted => {},
        KernelInputKind::RecoverySucceeded => {},
    }
}

/// The canonical constraint rules reproduce the kernel's transition
/// function: on every (phase, input) cell, the first rule that fires gives
/// δ's target, and a cell no rule claims is one δ sends to `Faulted`.
pub proof fn lemma_canonical_rules_match_kernel(p: KernelPhase, i: KernelInputKind)
    ensures
        rules_delta(canonical_rules_view(), p, i) == spec_kernel_delta(p, i),
{
    match p {
        KernelPhase::Genesis => lemma_constraint_rules_genesis(i),
        KernelPhase::Bootstrapping => lemma_constraint_rules_bootstrapping(i),
        KernelPhase::Idle => lemma_constraint_rules_idle(i),
        KernelPhase::ValidatingAbi => lemma_constraint_rules_validating_abi(i),
        KernelPhase::ValidatingSchema => lemma_constraint_rules_validating_schema(i),
        KernelPhase::ValidatingClock => lemma_constraint_rules_validating_clock(i),
        KernelPhase::ValidatingCapability => lemma_constraint_rules_validating_capability(i),
        KernelPhase::ValidatingCausal => lemma_constraint_rules_validating_causal(i),
        KernelPhase::Deciding => lemma_constraint_rules_deciding(i),
        KernelPhase::Applying => lemma_constraint_rules_applying(i),
        KernelPhase::Stamping => lemma_constraint_rules_stamping(i),
        KernelPhase::Emitting => lemma_constraint_rules_emitting(i),
        KernelPhase::ReplayPending => lemma_constraint_rules_replay_pending(i),
        KernelPhase::Replaying => lemma_constraint_rules_replaying(i),
        KernelPhase::VerifyingIdentity => lemma_constraint_rules_verifying_identity(i),
        KernelPhase::Recovering => lemma_constraint_rules_recovering(i),
        KernelPhase::Sealed => lemma_constraint_rules_sealed(i),
        KernelPhase::Faulted => lemma_constraint_rules_faulted(i),
    }
}

// ─── The rule engine's patterns ─────────────────────────────────────────────

/// `claim_from` finds an entry for the cell exactly when one exists, and
/// what it finds is such an entry's target.
proof fn lemma_claim_from(es: Seq<(KernelPhase, KernelInputKind, KernelPhase)>, k: int, p: KernelPhase, i: KernelInputKind)
    requires
        0 <= k,
    ensures
        (claim_from(es, k, p, i) is Some) <==> (exists|j: int| k <= j < es.len() && #[trigger] es[j].0 == p && es[j].1 == i),
        claim_from(es, k, p, i) is Some ==> exists|j: int| k <= j < es.len() && #[trigger] es[j] == (p, i, claim_from(es, k, p, i).unwrap()),
    decreases es.len() - k,
{
    if k < es.len() {
        lemma_claim_from(es, k + 1, p, i);
        if es[k].0 == p && es[k].1 == i {
            assert(es[k] == (p, i, es[k].2));
        }
    }
}

/// What a pattern claims for a cell, in closed form.
pub open spec fn pattern_claim(pv: PatternView, p: KernelPhase, i: KernelInputKind) -> Option<KernelPhase> {
    match pv {
        PatternView::Absorbing { phase, except } => if p == phase && !except.contains(i) { Some(phase) } else { None },
        PatternView::Escape { from, on, to } => if p == from && i == on { Some(to) } else { None },
        PatternView::UniversalFault { from_phases } => if from_phases.contains(p) && i == KernelInputKind::FaultDetected {
            Some(KernelPhase::Faulted)
        } else {
            None
        },
        PatternView::PipelineAdvance { steps } => claim_from(steps, 0, p, i),
        PatternView::RejectionToIdle { phases_and_inputs } => if phases_and_inputs.contains((p, i)) {
            Some(KernelPhase::Idle)
        } else {
            None
        },
        PatternView::Explicit { from, on, to } => if p == from && i == on { Some(to) } else { None },
    }
}

/// The entries a pattern generates claim what its closed form says.
proof fn lemma_pattern_claim(pv: PatternView, p: KernelPhase, i: KernelInputKind)
    ensures
        claim_from(pv.entries(), 0, p, i) == pattern_claim(pv, p, i),
{
    let es = pv.entries();
    lemma_claim_from(es, 0, p, i);
    match pv {
        PatternView::Absorbing { phase, except } => {
            let pred = |x: KernelInputKind| !except.contains(x);
            let f = all_inputs().filter(pred);
            assert(es == f.map_values(|x: KernelInputKind| (phase, x, phase)));
            assert forall|j: int| 0 <= j < es.len() implies (#[trigger] es[j]) == (phase, f[j], phase) by {}
            if p == phase && !except.contains(i) {
                lemma_index_bijection();
                let idx = input_index(i);
                assert(all_inputs()[idx] == i);
                all_inputs().lemma_filter_contains(pred, idx);
                assert(f.contains(i));
                let j = choose|j: int| 0 <= j < f.len() && f[j] == i;
                assert(0 <= j < es.len());
                assert(es[j] == (phase, i, phase));
                assert(es[j].0 == p && es[j].1 == i);
                assert(claim_from(es, 0, p, i) is Some);
                let t = claim_from(es, 0, p, i).unwrap();
                let j2 = choose|j2: int| 0 <= j2 < es.len() && #[trigger] es[j2] == (p, i, t);
                assert(es[j2] == (phase, f[j2], phase));
                assert(t == phase);
                assert(claim_from(es, 0, p, i) == Some(phase));
                assert(pattern_claim(pv, p, i) == Some(phase));
            } else {
                assert forall|j: int| 0 <= j < es.len() implies !(#[trigger] es[j].0 == p && es[j].1 == i) by {
                    all_inputs().lemma_filter_pred(pred, j);
                    assert(pred(f[j]));
                    assert(!except.contains(f[j]));
                    assert(es[j] == (phase, f[j], phase));
                }
                assert(claim_from(es, 0, p, i) is None);
                assert(pattern_claim(pv, p, i) is None);
            }
            assert(es == pv.entries());
            assert(claim_from(pv.entries(), 0, p, i) == pattern_claim(pv, p, i));
        },
        PatternView::UniversalFault { from_phases } => {
            assert forall|j: int| 0 <= j < es.len() implies (#[trigger] es[j]) == (from_phases[j], KernelInputKind::FaultDetected, KernelPhase::Faulted) by {}
            if from_phases.contains(p) && i == KernelInputKind::FaultDetected {
                let j = choose|j: int| 0 <= j < from_phases.len() && from_phases[j] == p;
                assert(es[j] == (p, i, KernelPhase::Faulted));
                assert(es[j].0 == p && es[j].1 == i);
                let t = claim_from(es, 0, p, i).unwrap();
                let j2 = choose|j2: int| 0 <= j2 < es.len() && #[trigger] es[j2] == (p, i, t);
                assert(es[j2].2 == KernelPhase::Faulted);
            } else {
                assert forall|j: int| 0 <= j < es.len() implies !(#[trigger] es[j].0 == p && es[j].1 == i) by {
                    if es[j].0 == p && es[j].1 == i {
                        assert(from_phases[j] == p);
                    }
                }
            }
            assert(claim_from(pv.entries(), 0, p, i) == pattern_claim(pv, p, i));
        },
        PatternView::RejectionToIdle { phases_and_inputs } => {
            assert forall|j: int| 0 <= j < es.len() implies (#[trigger] es[j]) == (phases_and_inputs[j].0, phases_and_inputs[j].1, KernelPhase::Idle) by {}
            if phases_and_inputs.contains((p, i)) {
                let j = choose|j: int| 0 <= j < phases_and_inputs.len() && phases_and_inputs[j] == (p, i);
                assert(es[j] == (p, i, KernelPhase::Idle));
                assert(es[j].0 == p && es[j].1 == i);
                let t = claim_from(es, 0, p, i).unwrap();
                let j2 = choose|j2: int| 0 <= j2 < es.len() && #[trigger] es[j2] == (p, i, t);
                assert(es[j2].2 == KernelPhase::Idle);
            } else {
                assert forall|j: int| 0 <= j < es.len() implies !(#[trigger] es[j].0 == p && es[j].1 == i) by {
                    if es[j].0 == p && es[j].1 == i {
                        assert(phases_and_inputs[j] == (p, i));
                    }
                }
            }
            assert(claim_from(pv.entries(), 0, p, i) == pattern_claim(pv, p, i));
        },
        PatternView::Escape { from, on, to } => {
            assert(es[0] == (from, on, to));
            assert(claim_from(pv.entries(), 0, p, i) == pattern_claim(pv, p, i));
        },
        PatternView::Explicit { from, on, to } => {
            assert(es[0] == (from, on, to));
            assert(claim_from(pv.entries(), 0, p, i) == pattern_claim(pv, p, i));
        },
        PatternView::PipelineAdvance { steps } => {
            assert(claim_from(pv.entries(), 0, p, i) == pattern_claim(pv, p, i));
        },
    }
}

/// The phases the universal-fault pattern lists: every phase but `Genesis`
/// and the two terminal ones.
proof fn lemma_universal_fault_phases(p: KernelPhase)
    ensures
        universal_fault_phases().contains(p) <==> (p != KernelPhase::Genesis && p != KernelPhase::Sealed && p != KernelPhase::Faulted),
{
    let s = universal_fault_phases();
    assert forall|j: int| 0 <= j < s.len() implies (#[trigger] s[j]) != KernelPhase::Genesis && s[j] != KernelPhase::Sealed
        && s[j] != KernelPhase::Faulted by {
        assert(j == 0 || j == 1 || j == 2 || j == 3 || j == 4 || j == 5 || j == 6 || j == 7 || j == 8 || j == 9 || j == 10 || j == 11 || j == 12 || j == 13 || j == 14);
    }
    match p {
        KernelPhase::Bootstrapping => { assert(s[0] == p); },
        KernelPhase::Idle => { assert(s[1] == p); },
        KernelPhase::ValidatingAbi => { assert(s[2] == p); },
        KernelPhase::ValidatingSchema => { assert(s[3] == p); },
        KernelPhase::ValidatingClock => { assert(s[4] == p); },
        KernelPhase::ValidatingCapability => { assert(s[5] == p); },
        KernelPhase::ValidatingCausal => { assert(s[6] == p); },
        KernelPhase::Deciding => { assert(s[7] == p); },
        KernelPhase::Applying => { assert(s[8] == p); },
        KernelPhase::Stamping => { assert(s[9] == p); },
        KernelPhase::Emitting => { assert(s[10] == p); },
        KernelPhase::ReplayPending => { assert(s[11] == p); },
        KernelPhase::Replaying => { assert(s[12] == p); },
        KernelPhase::VerifyingIdentity => { assert(s[13] == p); },
        KernelPhase::Recovering => { assert(s[14] == p); },
        _ => {},
    }
}

/// The one input the faulted-absorbing pattern excepts.
proof fn lemma_single_except(i: KernelInputKind)
    ensures
        seq![KernelInputKind::RecoveryAttempted].contains(i) <==> i == KernelInputKind::RecoveryAttempted,
{
    let s = seq![KernelInputKind::RecoveryAttempted];
    if i == KernelInputKind::RecoveryAttempted {
        assert(s[0] == i);
    }
}

/// Among the first `n` rules, the first that claims the cell, with its
/// target.
pub open spec fn first_claim(rules: Seq<TransitionRuleView>, n: int, p: KernelPhase, i: KernelInputKind) -> Option<(int, KernelPhase)>
    decreases n,
{
    if n <= 0 {
        None
    } else {
        match first_claim(rules, n - 1, p, i) {
            Some(x) => Some(x),
            None => match rule_claim(rules[n - 1], p, i) {
                Some(t) => Some((n - 1, t)),
                None => None,
            },
        }
    }
}

/// With priorities that never decrease along the list, the claim of least
/// priority number (earliest on ties) is the first claim.
proof fn lemma_best_is_first(rules: Seq<TransitionRuleView>, n: int, p: KernelPhase, i: KernelInputKind)
    requires
        0 <= n <= rules.len(),
        forall|a: int, b: int| 0 <= a < b < n ==> #[trigger] rules[a].priority <= #[trigger] rules[b].priority,
    ensures
        best_claim(rules, n, p, i) == first_claim(rules, n, p, i),
        first_claim(rules, n, p, i) matches Some(x) ==> 0 <= x.0 < n,
    decreases n,
{
    if n > 0 {
        lemma_best_is_first(rules, n - 1, p, i);
    }
}

/// The canonical patterns' priorities never decrease along the list.
proof fn lemma_engine_priorities()
    ensures
        forall|a: int, b: int| 0 <= a < b < 19 ==> #[trigger] engine_rules_view()[a].priority <= #[trigger] engine_rules_view()[b].priority,
{
    let v = engine_rules_view();
        assert(v[0].priority == 0);
        assert(v[1].priority == 0);
        assert(v[2].priority == 1);
        assert(v[3].priority == 2);
        assert(v[4].priority == 3);
        assert(v[5].priority == 3);
        assert(v[6].priority == 3);
        assert(v[7].priority == 3);
        assert(v[8].priority == 3);
        assert(v[9].priority == 3);
        assert(v[10].priority == 3);
        assert(v[11].priority == 3);
        assert(v[12].priority == 3);
        assert(v[13].priority == 3);
        assert(v[14].priority == 3);
        assert(v[15].priority == 3);
        assert(v[16].priority == 3);
        assert(v[17].priority == 3);
        assert(v[18].priority == 3);
    assert forall|a: int, b: int| 0 <= a < b < 19 implies #[trigger] v[a].priority <= #[trigger] v[b].priority by {
        if b >= 4 {
            assert(v[b].priority == 3) by {
                assert(b == 4 || b == 5 || b == 6 || b == 7 || b == 8 || b == 9 || b == 10 || b == 11 || b == 12 || b == 13
                    || b == 14 || b == 15 || b == 16 || b == 17 || b == 18);
            }
        } else {
            assert(b == 1 || b == 2 || b == 3);
            assert(a == 0 || a == 1 || a == 2);
        }
    }
}

/// The rule engine's table gives δ on every cell of phase `Genesis`.
#[verifier::rlimit(100)]
#[verifier::spinoff_prover]
proof fn lemma_engine_genesis(i: KernelInputKind)
    ensures
        engine_delta(engine_rules_view(), KernelPhase::Genesis, i) == spec_kernel_delta(KernelPhase::Genesis, i),
{
    let p = KernelPhase::Genesis;
    let v = engine_rules_view();
    lemma_engine_priorities();
    lemma_best_is_first(v, 19, p, i);
    lemma_pattern_claim(v[0].pattern, p, i);
    lemma_pattern_claim(v[1].pattern, p, i);
    lemma_pattern_claim(v[2].pattern, p, i);
    lemma_pattern_claim(v[3].pattern, p, i);
    lemma_pattern_claim(v[4].pattern, p, i);
    lemma_pattern_claim(v[5].pattern, p, i);
    lemma_pattern_claim(v[6].pattern, p, i);
    lemma_pattern_claim(v[7].pattern, p, i);
    lemma_pattern_claim(v[8].pattern, p, i);
    lemma_pattern_claim(v[9].pattern, p, i);
    lemma_pattern_claim(v[10].pattern, p, i);
    lemma_pattern_claim(v[11].pattern, p, i);
    lemma_pattern_claim(v[12].pattern, p, i);
    lemma_pattern_claim(v[13].pattern, p, i);
    lemma_pattern_claim(v[14].pattern, p, i);
    lemma_pattern_claim(v[15].pattern, p, i);
    lemma_pattern_claim(v[16].pattern, p, i);
    lemma_pattern_claim(v[17].pattern, p, i);
    lemma_pattern_claim(v[18].pattern, p, i);
    lemma_universal_fault_phases(p);
    lemma_single_except(i);
    lemma_pairs_guard_eval(validation_rejection_pairs(), p, i);
    assert(rejection_arcs() =~= validation_rejection_pairs());
    assert(!Seq::<KernelInputKind>::empty().contains(i));
    reveal_with_fuel(first_claim, 20);
    reveal_with_fuel(claim_from, 12);
    reveal_with_fuel(ExprView::eval, 4);
    reveal_with_fuel(table_lookup_from, 46);
    match i {
        KernelInputKind::Initialize => {},
        KernelInputKind::BootstrapComplete => {},
        KernelInputKind::EventArrived => {},
        KernelInputKind::AbiValid => {},
        KernelInputKind::AbiFailed => {},
        KernelInputKind::SchemaValid => {},
        KernelInputKind::SchemaFailed => {},
        KernelInputKind::ClockValid => {},
        KernelInputKind::ClockFailed => {},
        KernelInputKind::CapabilityGranted => {},
        KernelInputKind::CapabilityDenied => {},
        KernelInputKind::CausalValid => {},
        KernelInputKind::CausalFailed => {},
        KernelInputKind::DecisionAllow => {},
        KernelInputKind::DecisionReject => {},
        KernelInputKind::DecisionTransform => {},
        KernelInputKind::TransitionApplied => {},
        KernelInputKind::TransitionFailed => {},
        KernelInputKind::ProjectionStamped => {},
        KernelInputKind::EmitComplete => {},
        KernelInputKind::ReplayRequested => {},
        KernelInputKind::ReplayEventApplied => {},
        KernelInputKind::ReplayComplete => {},
        KernelInputKind::IdentityConfirmed => {},
        KernelInputKind::IdentityDiverged => {},
        KernelInputKind::SealRequested => {},
        KernelInputKind::FaultDetected => {},
        KernelInputKind::RecoveryAttempted => {},
        KernelInputKind::RecoverySucceeded => {},
    }
}

/// The rule engine's table gives δ on every cell of phase `Bootstrapping`.
#[verifier::rlimit(100)]
#[verifier::spinoff_prover]
proof fn lemma_engine_bootstrapping(i: KernelInputKind)
    ensures
        engine_delta(engine_rules_view(), KernelPhase::Bootstrapping, i) == spec_kernel_delta(KernelPhase::Bootstrapping, i),
{
    let p = KernelPhase::Bootstrapping;
    let v = engine_rules_view();
    lemma_engine_priorities();
    lemma_best_is_first(v, 19, p, i);
    lemma_pattern_claim(v[0].pattern, p, i);
    lemma_pattern_claim(v[1].pattern, p, i);
    lemma_pattern_claim(v[2].pattern, p, i);
    lemma_pattern_claim(v[3].pattern, p, i);
    lemma_pattern_claim(v[4].pattern, p, i);
    lemma_pattern_claim(v[5].pattern, p, i);
    lemma_pattern_claim(v[6].pattern, p, i);
    lemma_pattern_claim(v[7].pattern, p, i);
    lemma_pattern_claim(v[8].pattern, p, i);
    lemma_pattern_claim(v[9].pattern, p, i);
    lemma_pattern_claim(v[10].pattern, p, i);
    lemma_pattern_claim(v[11].pattern, p, i);
    lemma_pattern_claim(v[12].pattern, p, i);
    lemma_pattern_claim(v[13].pattern, p, i);
    lemma_pattern_claim(v[14].pattern, p, i);
    lemma_pattern_claim(v[15].pattern, p, i);
    lemma_pattern_claim(v[16].pattern, p, i);
    lemma_pattern_claim(v[17].pattern, p, i);
    lemma_pattern_claim(v[18].pattern, p, i);
    lemma_universal_fault_phases(p);
    lemma_single_except(i);
    lemma_pairs_guard_eval(validation_rejection_pairs(), p, i);
    assert(rejection_arcs() =~= validation_rejection_pairs());
    assert(!Seq::<KernelInputKind>::empty().contains(i));
    reveal_with_fuel(first_claim, 20);
    reveal_with_fuel(claim_from, 12);
    reveal_with_fuel(ExprView::eval, 4);
    reveal_with_fuel(table_lookup_from, 46);
    match i {
        KernelInputKind::Initialize => {},
        KernelInputKind::BootstrapComplete => {},
        KernelInputKind::EventArrived => {},
        KernelInputKind::AbiValid => {},
        KernelInputKind::AbiFailed => {},
        KernelInputKind::SchemaValid => {},
        KernelInputKind::SchemaFailed => {},
        KernelInputKind::ClockValid => {},
        KernelInputKind::ClockFailed => {},
        KernelInputKind::CapabilityGranted => {},
        KernelInputKind::CapabilityDenied => {},
        KernelInputKind::CausalValid => {},
        KernelInputKind::CausalFailed => {},
        KernelInputKind::DecisionAllow => {},
        KernelInputKind::DecisionReject => {},
        KernelInputKind::DecisionTransform => {},
        KernelInputKind::TransitionApplied => {},
        KernelInputKind::TransitionFailed => {},
        KernelInputKind::ProjectionStamped => {},
        KernelInputKind::EmitComplete => {},
        KernelInputKind::ReplayRequested => {},
        KernelInputKind::ReplayEventApplied => {},
        KernelInputKind::ReplayComplete => {},
        KernelInputKind::IdentityConfirmed => {},
        KernelInputKind::IdentityDiverged => {},
        KernelInputKind::SealRequested => {},
        KernelInputKind::FaultDetected => {},
        KernelInputKind::RecoveryAttempted => {},
        KernelInputKind::RecoverySucceeded => {},
    }
}

/// The rule engine's table gives δ on every cell of phase `Idle`.
#[verifier::rlimit(100)]
#[verifier::spinoff_prover]
proof fn lemma_engine_idle(i: KernelInputKind)
    ensures
        engine_delta(engine_rules_view(), KernelPhase::Idle, i) == spec_kernel_delta(KernelPhase::Idle, i),
{
    let p = KernelPhase::Idle;
    let v = engine_rules_view();
    lemma_engine_priorities();
    lemma_best_is_first(v, 19, p, i);
    lemma_pattern_claim(v[0].pattern, p, i);
    lemma_pattern_claim(v[1].pattern, p, i);
    lemma_pattern_claim(v[2].pattern, p, i);
    lemma_pattern_claim(v[3].pattern, p, i);
    lemma_pattern_claim(v[4].pattern, p, i);
    lemma_pattern_claim(v[5].pattern, p, i);
    lemma_pattern_claim(v[6].pattern, p, i);
    lemma_pattern_claim(v[7].pattern, p, i);
    lemma_pattern_claim(v[8].pattern, p, i);
    lemma_pattern_claim(v[9].pattern, p, i);
    lemma_pattern_claim(v[10].pattern, p, i);
    lemma_pattern_claim(v[11].pattern, p, i);
    lemma_pattern_claim(v[12].pattern, p, i);
    lemma_pattern_claim(v[13].pattern, p, i);
    lemma_pattern_claim(v[14].pattern, p, i);
    lemma_pattern_claim(v[15].pattern, p, i);
    lemma_pattern_claim(v[16].pattern, p, i);
    lemma_pattern_claim(v[17].pattern, p, i);
    lemma_pattern_claim(v[18].pattern, p, i);
    lemma_universal_fault_phases(p);
    lemma_single_except(i);
    lemma_pairs_guard_eval(validation_rejection_pairs(), p, i);
    assert(rejection_arcs() =~= validation_rejection_pairs());
    assert(!Seq::<KernelInputKind>::empty().contains(i));
    reveal_with_fuel(first_claim, 20);
    reveal_with_fuel(claim_from, 12);
    reveal_with_fuel(ExprView::eval, 4);
    reveal_with_fuel(table_lookup_from, 46);
    match i {
        KernelInputKind::Initialize => {},
        KernelInputKind::BootstrapComplete => {},
        KernelInputKind::EventArrived => {},
        KernelInputKind::AbiValid => {},
        KernelInputKind::AbiFailed => {},
        KernelInputKind::SchemaValid => {},
        KernelInputKind::SchemaFailed => {},
        KernelInputKind::ClockValid => {},
        KernelInputKind::ClockFailed => {},
        KernelInputKind::CapabilityGranted => {},
        KernelInputKind::CapabilityDenied => {},
        KernelInputKind::CausalValid => {},
        KernelInputKind::CausalFailed => {},
        KernelInputKind::DecisionAllow => {},
        KernelInputKind::DecisionReject => {},
        KernelInputKind::DecisionTransform => {},
        KernelInputKind::TransitionApplied => {},
        KernelInputKind::TransitionFailed => {},
        KernelInputKind::ProjectionStamped => {},
        KernelInputKind::EmitComplete => {},
        KernelInputKind::ReplayRequested => {},
        KernelInputKind::ReplayEventApplied => {},
        KernelInputKind::ReplayComplete => {},
        KernelInputKind::IdentityConfirmed => {},
        KernelInputKind::IdentityDiverged => {},
        KernelInputKind::SealRequested => {},
        KernelInputKind::FaultDetected => {},
        KernelInputKind::RecoveryAttempted => {},
        KernelInputKind::RecoverySucceeded => {},
    }
}

/// The rule engine's table gives δ on every cell of phase `ValidatingAbi`.
#[verifier::rlimit(100)]
#[verifier::spinoff_prover]
proof fn lemma_engine_validating_abi(i: KernelInputKind)
    ensures
        engine_delta(engine_rules_view(), KernelPhase::ValidatingAbi, i) == spec_kernel_delta(KernelPhase::ValidatingAbi, i),
{
    let p = KernelPhase::ValidatingAbi;
    let v = engine_rules_view();
    lemma_engine_priorities();
    lemma_best_is_first(v, 19, p, i);
    lemma_pattern_claim(v[0].pattern, p, i);
    lemma_pattern_claim(v[1].pattern, p, i);
    lemma_pattern_claim(v[2].pattern, p, i);
    lemma_pattern_claim(v[3].pattern, p, i);
    lemma_pattern_claim(v[4].pattern, p, i);
    lemma_pattern_claim(v[5].pattern, p, i);
    lemma_pattern_claim(v[6].pattern, p, i);
    lemma_pattern_claim(v[7].pattern, p, i);
    lemma_pattern_claim(v[8].pattern, p, i);
    lemma_pattern_claim(v[9].pattern, p, i);
    lemma_pattern_claim(v[10].pattern, p, i);
    lemma_pattern_claim(v[11].pattern, p, i);
    lemma_pattern_claim(v[12].pattern, p, i);
    lemma_pattern_claim(v[13].pattern, p, i);
    lemma_pattern_claim(v[14].pattern, p, i);
    lemma_pattern_claim(v[15].pattern, p, i);
    lemma_pattern_claim(v[16].pattern, p, i);
    lemma_pattern_claim(v[17].pattern, p, i);
    lemma_pattern_claim(v[18].pattern, p, i);
    lemma_universal_fault_phases(p);
    lemma_single_except(i);
    lemma_pairs_guard_eval(validation_rejection_pairs(), p, i);
    assert(rejection_arcs() =~= validation_rejection_pairs());
    assert(!Seq::<KernelInputKind>::empty().contains(i));
    reveal_with_fuel(first_claim, 20);
    reveal_with_fuel(claim_from, 12);
    reveal_with_fuel(ExprView::eval, 4);
    reveal_with_fuel(table_lookup_from, 46);
    match i {
        KernelInputKind::Initialize => {},
        KernelInputKind::BootstrapComplete => {},
        KernelInputKind::EventArrived => {},
        KernelInputKind::AbiValid => {},
        KernelInputKind::AbiFailed => {},
        KernelInputKind::SchemaValid => {},
        KernelInputKind::SchemaFailed => {},
        KernelInputKind::ClockValid => {},
        KernelInputKind::ClockFailed => {},
        KernelInputKind::CapabilityGranted => {},
        KernelInputKind::CapabilityDenied => {},
        KernelInputKind::CausalValid => {},
        KernelInputKind::CausalFailed => {},
        KernelInputKind::DecisionAllow => {},
        KernelInputKind::DecisionReject => {},
        KernelInputKind::DecisionTransform => {},
        KernelInputKind::TransitionApplied => {},
        KernelInputKind::TransitionFailed => {},
        KernelInputKind::ProjectionStamped => {},
        KernelInputKind::EmitComplete => {},
        KernelInputKind::ReplayRequested => {},
        KernelInputKind::ReplayEventApplied => {},
        KernelInputKind::ReplayComplete => {},
        KernelInputKind::IdentityConfirmed => {},
        KernelInputKind::IdentityDiverged => {},
        KernelInputKind::SealRequested => {},
        KernelInputKind::FaultDetected => {},
        KernelInputKind::RecoveryAttempted => {},
        KernelInputKind::RecoverySucceeded => {},
    }
}

/// The rule engine's table gives δ on every cell of phase `ValidatingSchema`.
#[verifier::rlimit(100)]
#[verifier::spinoff_prover]
proof fn lemma_engine_validating_schema(i: KernelInputKind)
    ensures
        engine_delta(engine_rules_view(), KernelPhase::ValidatingSchema, i) == spec_kernel_delta(KernelPhase::ValidatingSchema, i),
{
    let p = KernelPhase::ValidatingSchema;
    let v = engine_rules_view();
    lemma_engine_priorities();
    lemma_best_is_first(v, 19, p, i);
    lemma_pattern_claim(v[0].pattern, p, i);
    lemma_pattern_claim(v[1].pattern, p, i);
    lemma_pattern_claim(v[2].pattern, p, i);
    lemma_pattern_claim(v[3].pattern, p, i);
    lemma_pattern_claim(v[4].pattern, p, i);
    lemma_pattern_claim(v[5].pattern, p, i);
    lemma_pattern_claim(v[6].pattern, p, i);
    lemma_pattern_claim(v[7].pattern, p, i);
    lemma_pattern_claim(v[8].pattern, p, i);
    lemma_pattern_claim(v[9].pattern, p, i);
    lemma_pattern_claim(v[10].pattern, p, i);
    lemma_pattern_claim(v[11].pattern, p, i);
    lemma_pattern_claim(v[12].pattern, p, i);
    lemma_pattern_claim(v[13].pattern, p, i);
    lemma_pattern_claim(v[14].pattern, p, i);
    lemma_pattern_claim(v[15].pattern, p, i);
    lemma_pattern_claim(v[16].pattern, p, i);
    lemma_pattern_claim(v[17].pattern, p, i);
    lemma_pattern_claim(v[18].pattern, p, i);
    lemma_universal_fault_phases(p);
    lemma_single_except(i);
    lemma_pairs_guard_eval(validation_rejection_pairs(), p, i);
    assert(rejection_arcs() =~= validation_rejection_pairs());
    assert(!Seq::<KernelInputKind>::empty().contains(i));
    reveal_with_fuel(first_claim, 20);
    reveal_with_fuel(claim_from, 12);
    reveal_with_fuel(ExprView::eval, 4);
    reveal_with_fuel(table_lookup_from, 46);
    match i {
        KernelInputKind::Initialize => {},
        KernelInputKind::BootstrapComplete => {},
        KernelInputKind::EventArrived => {},
        KernelInputKind::AbiValid => {},
        KernelInputKind::AbiFailed => {},
        KernelInputKind::SchemaValid => {},
        KernelInputKind::SchemaFailed => {},
        KernelInputKind::ClockValid => {},
        KernelInputKind::ClockFailed => {},
        KernelInputKind::CapabilityGranted => {},
        KernelInputKind::CapabilityDenied => {},
        KernelInputKind::CausalValid => {},
        KernelInputKind::CausalFailed => {},
        KernelInputKind::DecisionAllow => {},
        KernelInputKind::DecisionReject => {},
        KernelInputKind::DecisionTransform => {},
        KernelInputKind::TransitionApplied => {},
        KernelInputKind::TransitionFailed => {},
        KernelInputKind::ProjectionStamped => {},
        KernelInputKind::EmitComplete => {},
        KernelInputKind::ReplayRequested => {},
        KernelInputKind::ReplayEventApplied => {},
        KernelInputKind::ReplayComplete => {},
        KernelInputKind::IdentityConfirmed => {},
        KernelInputKind::IdentityDiverged => {},
        KernelInputKind::SealRequested => {},
        KernelInputKind::FaultDetected => {},
        KernelInputKind::RecoveryAttempted => {},
        KernelInputKind::RecoverySucceeded => {},
    }
}

/// The rule engine's table gives δ on every cell of phase `ValidatingClock`.
#[verifier::rlimit(100)]
#[verifier::spinoff_prover]
proof fn lemma_engine_validating_clock(i: KernelInputKind)
    ensures
        engine_delta(engine_rules_view(), KernelPhase::ValidatingClock, i) == spec_kernel_delta(KernelPhase::ValidatingClock, i),
{
    let p = KernelPhase::ValidatingClock;
    let v = engine_rules_view();
    lemma_engine_priorities();
    lemma_best_is_first(v, 19, p, i);
    lemma_pattern_claim(v[0].pattern, p, i);
    lemma_pattern_claim(v[1].pattern, p, i);
    lemma_pattern_claim(v[2].pattern, p, i);
    lemma_pattern_claim(v[3].pattern, p, i);
    lemma_pattern_claim(v[4].pattern, p, i);
    lemma_pattern_claim(v[5].pattern, p, i);
    lemma_pattern_claim(v[6].pattern, p, i);
    lemma_pattern_claim(v[7].pattern, p, i);
    lemma_pattern_claim(v[8].pattern, p, i);
    lemma_pattern_claim(v[9].pattern, p, i);
    lemma_pattern_claim(v[10].pattern, p, i);
    lemma_pattern_claim(v[11].pattern, p, i);
    lemma_pattern_claim(v[12].pattern, p, i);
    lemma_pattern_claim(v[13].pattern, p, i);
    lemma_pattern_claim(v[14].pattern, p, i);
    lemma_pattern_claim(v[15].pattern, p, i);
    lemma_pattern_claim(v[16].pattern, p, i);
    lemma_pattern_claim(v[17].pattern, p, i);
    lemma_pattern_claim(v[18].pattern, p, i);
    lemma_universal_fault_phases(p);
    lemma_single_except(i);
    lemma_pairs_guard_eval(validation_rejection_pairs(), p, i);
    assert(rejection_arcs() =~= validation_rejection_pairs());
    assert(!Seq::<KernelInputKind>::empty().contains(i));
    reveal_with_fuel(first_claim, 20);
    reveal_with_fuel(claim_from, 12);
    reveal_with_fuel(ExprView::eval, 4);
    reveal_with_fuel(table_lookup_from, 46);
    match i {
        KernelInputKind::Initialize => {},
        KernelInputKind::BootstrapComplete => {},
        KernelInputKind::EventArrived => {},
        KernelInputKind::AbiValid => {},
        KernelInputKind::AbiFailed => {},
        KernelInputKind::SchemaValid => {},
        KernelInputKind::SchemaFailed => {},
        KernelInputKind::ClockValid => {},
        KernelInputKind::ClockFailed => {},
        KernelInputKind::CapabilityGranted => {},
        KernelInputKind::CapabilityDenied => {},
        KernelInputKind::CausalValid => {},
        KernelInputKind::CausalFailed => {},
        KernelInputKind::DecisionAllow => {},
        KernelInputKind::DecisionReject => {},
        KernelInputKind::DecisionTransform => {},
        KernelInputKind::TransitionApplied => {},
        KernelInputKind::TransitionFailed => {},
        KernelInputKind::ProjectionStamped => {},
        KernelInputKind::EmitComplete => {},
        KernelInputKind::ReplayRequested => {},
        KernelInputKind::ReplayEventApplied => {},
        KernelInputKind::ReplayComplete => {},
        KernelInputKind::IdentityConfirmed => {},
        KernelInputKind::IdentityDiverged => {},
        KernelInputKind::SealRequested => {},
        KernelInputKind::FaultDetected => {},
        KernelInputKind::RecoveryAttempted => {},
        KernelInputKind::RecoverySucceeded => {},
    }
}

/// The rule engine's table gives δ on every cell of phase `ValidatingCapability`.
#[verifier::rlimit(100)]
#[verifier::spinoff_prover]
proof fn lemma_engine_validating_capability(i: KernelInputKind)
    ensures
        engine_delta(engine_rules_view(), KernelPhase::ValidatingCapability, i) == spec_kernel_delta(KernelPhase::ValidatingCapability, i),
{
    let p = KernelPhase::ValidatingCapability;
    let v = engine_rules_view();
    lemma_engine_priorities();
    lemma_best_is_first(v, 19, p, i);
    lemma_pattern_claim(v[0].pattern, p, i);
    lemma_pattern_claim(v[1].pattern, p, i);
    lemma_pattern_claim(v[2].pattern, p, i);
    lemma_pattern_claim(v[3].pattern, p, i);
    lemma_pattern_claim(v[4].pattern, p, i);
    lemma_pattern_claim(v[5].pattern, p, i);
    lemma_pattern_claim(v[6].pattern, p, i);
    lemma_pattern_claim(v[7].pattern, p, i);
    lemma_pattern_claim(v[8].pattern, p, i);
    lemma_pattern_claim(v[9].pattern, p, i);
    lemma_pattern_claim(v[10].pattern, p, i);
    lemma_pattern_claim(v[11].pattern, p, i);
    lemma_pattern_claim(v[12].pattern, p, i);
    lemma_pattern_claim(v[13].pattern, p, i);
    lemma_pattern_claim(v[14].pattern, p, i);
    lemma_pattern_claim(v[15].pattern, p, i);
    lemma_pattern_claim(v[16].pattern, p, i);
    lemma_pattern_claim(v[17].pattern, p, i);
    lemma_pattern_claim(v[18].pattern, p, i);
    lemma_universal_fault_phases(p);
    lemma_single_except(i);
    lemma_pairs_guard_eval(validation_rejection_pairs(), p, i);
    assert(rejection_arcs() =~= validation_rejection_pairs());
    assert(!Seq::<KernelInputKind>::empty().contains(i));
    reveal_with_fuel(first_claim, 20);
    reveal_with_fuel(claim_from, 12);
    reveal_with_fuel(ExprView::eval, 4);
    reveal_with_fuel(table_lookup_from, 46);
    match i {
        KernelInputKind::Initialize => {},
        KernelInputKind::BootstrapComplete => {},
        KernelInputKind::EventArrived => {},
        KernelInputKind::AbiValid => {},
        KernelInputKind::AbiFailed => {},
        KernelInputKind::SchemaValid => {},
        KernelInputKind::SchemaFailed => {},
        KernelInputKind::ClockValid => {},
        KernelInputKind::ClockFailed => {},
        KernelInputKind::CapabilityGranted => {},
        KernelInputKind::CapabilityDenied => {},
        KernelInputKind::CausalValid => {},
        KernelInputKind::CausalFailed => {},
        KernelInputKind::DecisionAllow => {},
        KernelInputKind::DecisionReject => {},
        KernelInputKind::DecisionTransform => {},
        KernelInputKind::TransitionApplied => {},
        KernelInputKind::TransitionFailed => {},
        KernelInputKind::ProjectionStamped => {},
        KernelInputKind::EmitComplete => {},
        KernelInputKind::ReplayRequested => {},
        KernelInputKind::ReplayEventApplied => {},
        KernelInputKind::ReplayComplete => {},
        KernelInputKind::IdentityConfirmed => {},
        KernelInputKind::IdentityDiverged => {},
        KernelInputKind::SealRequested => {},
        KernelInputKind::FaultDetected => {},
        KernelInputKind::RecoveryAttempted => {},
        KernelInputKind::RecoverySucceeded => {},
    }
}

/// The rule engine's table gives δ on every cell of phase `ValidatingCausal`.
#[verifier::rlimit(100)]
#[verifier::spinoff_prover]
proof fn lemma_engine_validating_causal(i: KernelInputKind)
    ensures
        engine_delta(engine_rules_view(), KernelPhase::ValidatingCausal, i) == spec_kernel_delta(KernelPhase::ValidatingCausal, i),
{
    let p = KernelPhase::ValidatingCausal;
    let v = engine_rules_view();
    lemma_engine_priorities();
    lemma_best_is_first(v, 19, p, i);
    lemma_pattern_claim(v[0].pattern, p, i);
    lemma_pattern_claim(v[1].pattern, p, i);
    lemma_pattern_claim(v[2].pattern, p, i);
    lemma_pattern_claim(v[3].pattern, p, i);
    lemma_pattern_claim(v[4].pattern, p, i);
    lemma_pattern_claim(v[5].pattern, p, i);
    lemma_pattern_claim(v[6].pattern, p, i);
    lemma_pattern_claim(v[7].pattern, p, i);
    lemma_pattern_claim(v[8].pattern, p, i);
    lemma_pattern_claim(v[9].pattern, p, i);
    lemma_pattern_claim(v[10].pattern, p, i);
    lemma_pattern_claim(v[11].pattern, p, i);
    lemma_pattern_claim(v[12].pattern, p, i);
    lemma_pattern_claim(v[13].pattern, p, i);
    lemma_pattern_claim(v[14].pattern, p, i);
    lemma_pattern_claim(v[15].pattern, p, i);
    lemma_pattern_claim(v[16].pattern, p, i);
    lemma_pattern_claim(v[17].pattern, p, i);
    lemma_pattern_claim(v[18].pattern, p, i);
    lemma_universal_fault_phases(p);
    lemma_single_except(i);
    lemma_pairs_guard_eval(validation_rejection_pairs(), p, i);
    assert(rejection_arcs() =~= validation_rejection_pairs());
    assert(!Seq::<KernelInputKind>::empty().contains(i));
    reveal_with_fuel(first_claim, 20);
    reveal_with_fuel(claim_from, 12);
    reveal_with_fuel(ExprView::eval, 4);
    reveal_with_fuel(table_lookup_from, 46);
    match i {
        KernelInputKind::Initialize => {},
        KernelInputKind::BootstrapComplete => {},
        KernelInputKind::EventArrived => {},
        KernelInputKind::AbiValid => {},
        KernelInputKind::AbiFailed => {},
        KernelInputKind::SchemaValid => {},
        KernelInputKind::SchemaFailed => {},
        KernelInputKind::ClockValid => {},
        KernelInputKind::ClockFailed => {},
        KernelInputKind::CapabilityGranted => {},
        KernelInputKind::CapabilityDenied => {},
        KernelInputKind::CausalValid => {},
        KernelInputKind::CausalFailed => {},
        KernelInputKind::DecisionAllow => {},
        KernelInputKind::DecisionReject => {},
        KernelInputKind::DecisionTransform => {},
        KernelInputKind::TransitionApplied => {},
        KernelInputKind::TransitionFailed => {},
        KernelInputKind::ProjectionStamped => {},
        KernelInputKind::EmitComplete => {},
        KernelInputKind::ReplayRequested => {},
        KernelInputKind::ReplayEventApplied => {},
        KernelInputKind::ReplayComplete => {},
        KernelInputKind::IdentityConfirmed => {},
        KernelInputKind::IdentityDiverged => {},
        KernelInputKind::SealRequested => {},
        KernelInputKind::FaultDetected => {},
        KernelInputKind::RecoveryAttempted => {},
        KernelInputKind::RecoverySucceeded => {},
    }
}

/// The rule engine's table gives δ on every cell of phase `Deciding`.
#[verifier::rlimit(100)]
#[verifier::spinoff_prover]
proof fn lemma_engine_deciding(i: KernelInputKind)
    ensures
        engine_delta(engine_rules_view(), KernelPhase::Deciding, i) == spec_kernel_delta(KernelPhase::Deciding, i),
{
    let p = KernelPhase::Deciding;
    let v = engine_rules_view();
    lemma_engine_priorities();
    lemma_best_is_first(v, 19, p, i);
    lemma_pattern_claim(v[0].pattern, p, i);
    lemma_pattern_claim(v[1].pattern, p, i);
    lemma_pattern_claim(v[2].pattern, p, i);
    lemma_pattern_claim(v[3].pattern, p, i);
    lemma_pattern_claim(v[4].pattern, p, i);
    lemma_pattern_claim(v[5].pattern, p, i);
    lemma_pattern_claim(v[6].pattern, p, i);
    lemma_pattern_claim(v[7].pattern, p, i);
    lemma_pattern_claim(v[8].pattern, p, i);
    lemma_pattern_claim(v[9].pattern, p, i);
    lemma_pattern_claim(v[10].pattern, p, i);
    lemma_pattern_claim(v[11].pattern, p, i);
    lemma_pattern_claim(v[12].pattern, p, i);
    lemma_pattern_claim(v[13].pattern, p, i);
    lemma_pattern_claim(v[14].pattern, p, i);
    lemma_pattern_claim(v[15].pattern, p, i);
    lemma_pattern_claim(v[16].pattern, p, i);
    lemma_pattern_claim(v[17].pattern, p, i);
    lemma_pattern_claim(v[18].pattern, p, i);
    lemma_universal_fault_phases(p);
    lemma_single_except(i);
    lemma_pairs_guard_eval(validation_rejection_pairs(), p, i);
    assert(rejection_arcs() =~= validation_rejection_pairs());
    assert(!Seq::<KernelInputKind>::empty().contains(i));
    reveal_with_fuel(first_claim, 20);
    reveal_with_fuel(claim_from, 12);
    reveal_with_fuel(ExprView::eval, 4);
    reveal_with_fuel(table_lookup_from, 46);
    match i {
        KernelInputKind::Initialize => {},
        KernelInputKind::BootstrapComplete => {},
        KernelInputKind::EventArrived => {},
        KernelInputKind::AbiValid => {},
        KernelInputKind::AbiFailed => {},
        KernelInputKind::SchemaValid => {},
        KernelInputKind::SchemaFailed => {},
        KernelInputKind::ClockValid => {},
        KernelInputKind::ClockFailed => {},
        KernelInputKind::CapabilityGranted => {},
        KernelInputKind::CapabilityDenied => {},
        KernelInputKind::CausalValid => {},
        KernelInputKind::CausalFailed => {},
        KernelInputKind::DecisionAllow => {},
        KernelInputKind::DecisionReject => {},
        KernelInputKind::DecisionTransform => {},
        KernelInputKind::TransitionApplied => {},
        KernelInputKind::TransitionFailed => {},
        KernelInputKind::ProjectionStamped => {},
        KernelInputKind::EmitComplete => {},
        KernelInputKind::ReplayRequested => {},
        KernelInputKind::ReplayEventApplied => {},
        KernelInputKind::ReplayComplete => {},
        KernelInputKind::IdentityConfirmed => {},
        KernelInputKind::IdentityDiverged => {},
        KernelInputKind::SealRequested => {},
        KernelInputKind::FaultDetected => {},
        KernelInputKind::RecoveryAttempted => {},
        KernelInputKind::RecoverySucceeded => {},
    }
}

/// The rule engine's table gives δ on every cell of phase `Applying`.
#[verifier::rlimit(100)]
#[verifier::spinoff_prover]
proof fn lemma_engine_applying(i: KernelInputKind)
    ensures
        engine_delta(engine_rules_view(), KernelPhase::Applying, i) == spec_kernel_delta(KernelPhase::Applying, i),
{
    let p = KernelPhase::Applying;
    let v = engine_rules_view();
    lemma_engine_priorities();
    lemma_best_is_first(v, 19, p, i);
    lemma_pattern_claim(v[0].pattern, p, i);
    lemma_pattern_claim(v[1].pattern, p, i);
    lemma_pattern_claim(v[2].pattern, p, i);
    lemma_pattern_claim(v[3].pattern, p, i);
    lemma_pattern_claim(v[4].pattern, p, i);
    lemma_pattern_claim(v[5].pattern, p, i);
    lemma_pattern_claim(v[6].pattern, p, i);
    lemma_pattern_claim(v[7].pattern, p, i);
    lemma_pattern_claim(v[8].pattern, p, i);
    lemma_pattern_claim(v[9].pattern, p, i);
    lemma_pattern_claim(v[10].pattern, p, i);
    lemma_pattern_claim(v[11].pattern, p, i);
    lemma_pattern_claim(v[12].pattern, p, i);
    lemma_pattern_claim(v[13].pattern, p, i);
    lemma_pattern_claim(v[14].pattern, p, i);
    lemma_pattern_claim(v[15].pattern, p, i);
    lemma_pattern_claim(v[16].pattern, p, i);
    lemma_pattern_claim(v[17].pattern, p, i);
    lemma_pattern_claim(v[18].pattern, p, i);
    lemma_universal_fault_phases(p);
    lemma_single_except(i);
    lemma_pairs_guard_eval(validation_rejection_pairs(), p, i);
    assert(rejection_arcs() =~= validation_rejection_pairs());
    assert(!Seq::<KernelInputKind>::empty().contains(i));
    reveal_with_fuel(first_claim, 20);
    reveal_with_fuel(claim_from, 12);
    reveal_with_fuel(ExprView::eval, 4);
    reveal_with_fuel(table_lookup_from, 46);
    match i {
        KernelInputKind::Initialize => {},
        KernelInputKind::BootstrapComplete => {},
        KernelInputKind::EventArrived => {},
        KernelInputKind::AbiValid => {},
        KernelInputKind::AbiFailed => {},
        KernelInputKind::SchemaValid => {},
        KernelInputKind::SchemaFailed => {},
        KernelInputKind::ClockValid => {},
        KernelInputKind::ClockFailed => {},
        KernelInputKind::CapabilityGranted => {},
        KernelInputKind::CapabilityDenied => {},
        KernelInputKind::CausalValid => {},
        KernelInputKind::CausalFailed => {},
        KernelInputKind::DecisionAllow => {},
        KernelInputKind::DecisionReject => {},
        KernelInputKind::DecisionTransform => {},
        KernelInputKind::TransitionApplied => {},
        KernelInputKind::TransitionFailed => {},
        KernelInputKind::ProjectionStamped => {},
        KernelInputKind::EmitComplete => {},
        KernelInputKind::ReplayRequested => {},
        KernelInputKind::ReplayEventApplied => {},
        KernelInputKind::ReplayComplete => {},
        KernelInputKind::IdentityConfirmed => {},
        KernelInputKind::IdentityDiverged => {},
        KernelInputKind::SealRequested => {},
        KernelInputKind::FaultDetected => {},
        KernelInputKind::RecoveryAttempted => {},
        KernelInputKind::RecoverySucceeded => {},
    }
}

/// The rule engine's table gives δ on every cell of phase `Stamping`.
#[verifier::rlimit(100)]
#[verifier::spinoff_prover]
proof fn lemma_engine_stamping(i: KernelInputKind)
    ensures
        engine_delta(engine_rules_view(), KernelPhase::Stamping, i) == spec_kernel_delta(KernelPhase::Stamping, i),
{
    let p = KernelPhase::Stamping;
    let v = engine_rules_view();
    lemma_engine_priorities();
    lemma_best_is_first(v, 19, p, i);
    lemma_pattern_claim(v[0].pattern, p, i);
    lemma_pattern_claim(v[1].pattern, p, i);
    lemma_pattern_claim(v[2].pattern, p, i);
    lemma_pattern_claim(v[3].pattern, p, i);
    lemma_pattern_claim(v[4].pattern, p, i);
    lemma_pattern_claim(v[5].pattern, p, i);
    lemma_pattern_claim(v[6].pattern, p, i);
    lemma_pattern_claim(v[7].pattern, p, i);
    lemma_pattern_claim(v[8].pattern, p, i);
    lemma_pattern_claim(v[9].pattern, p, i);
    lemma_pattern_claim(v[10].pattern, p, i);
    lemma_pattern_claim(v[11].pattern, p, i);
    lemma_pattern_claim(v[12].pattern, p, i);
    lemma_pattern_claim(v[13].pattern, p, i);
    lemma_pattern_claim(v[14].pattern, p, i);
    lemma_pattern_claim(v[15].pattern, p, i);
    lemma_pattern_claim(v[16].pattern, p, i);
    lemma_pattern_claim(v[17].pattern, p, i);
    lemma_pattern_claim(v[18].pattern, p, i);
    lemma_universal_fault_phases(p);
    lemma_single_except(i);
    lemma_pairs_guard_eval(validation_rejection_pairs(), p, i);
    assert(rejection_arcs() =~= validation_rejection_pairs());
    assert(!Seq::<KernelInputKind>::empty().contains(i));
    reveal_with_fuel(first_claim, 20);
    reveal_with_fuel(claim_from, 12);
    reveal_with_fuel(ExprView::eval, 4);
    reveal_with_fuel(table_lookup_from, 46);
    match i {
        KernelInputKind::Initialize => {},
        KernelInputKind::BootstrapComplete => {},
        KernelInputKind::EventArrived => {},
        KernelInputKind::AbiValid => {},
        KernelInputKind::AbiFailed => {},
        KernelInputKind::SchemaValid => {},
        KernelInputKind::SchemaFailed => {},
        KernelInputKind::ClockValid => {},
        KernelInputKind::ClockFailed => {},
        KernelInputKind::CapabilityGranted => {},
        KernelInputKind::CapabilityDenied => {},
        KernelInputKind::CausalValid => {},
        KernelInputKind::CausalFailed => {},
        KernelInputKind::DecisionAllow => {},
        KernelInputKind::DecisionReject => {},
        KernelInputKind::DecisionTransform => {},
        KernelInputKind::TransitionApplied => {},
        KernelInputKind::TransitionFailed => {},
        KernelInputKind::ProjectionStamped => {},
        KernelInputKind::EmitComplete => {},
        KernelInputKind::ReplayRequested => {},
        KernelInputKind::ReplayEventApplied => {},
        KernelInputKind::ReplayComplete => {},
        KernelInputKind::IdentityConfirmed => {},
        KernelInputKind::IdentityDiverged => {},
        KernelInputKind::SealRequested => {},
        KernelInputKind::FaultDetected => {},
        KernelInputKind::RecoveryAttempted => {},
        KernelInputKind::RecoverySucceeded => {},
    }
}

/// The rule engine's table gives δ on every cell of phase `Emitting`.
#[verifier::rlimit(100)]
#[verifier::spinoff_prover]
proof fn lemma_engine_emitting(i: KernelInputKind)
    ensures
        engine_delta(engine_rules_view(), KernelPhase::Emitting, i) == spec_kernel_delta(KernelPhase::Emitting, i),
{
    let p = KernelPhase::Emitting;
    let v = engine_rules_view();
    lemma_engine_priorities();
    lemma_best_is_first(v, 19, p, i);
    lemma_pattern_claim(v[0].pattern, p, i);
    lemma_pattern_claim(v[1].pattern, p, i);
    lemma_pattern_claim(v[2].pattern, p, i);
    lemma_pattern_claim(v[3].pattern, p, i);
    lemma_pattern_claim(v[4].pattern, p, i);
    lemma_pattern_claim(v[5].pattern, p, i);
    lemma_pattern_claim(v[6].pattern, p, i);
    lemma_pattern_claim(v[7].pattern, p, i);
    lemma_pattern_claim(v[8].pattern, p, i);
    lemma_pattern_claim(v[9].pattern, p, i);
    lemma_pattern_claim(v[10].pattern, p, i);
    lemma_pattern_claim(v[11].pattern, p, i);
    lemma_pattern_claim(v[12].pattern, p, i);
    lemma_pattern_claim(v[13].pattern, p, i);
    lemma_pattern_claim(v[14].pattern, p, i);
    lemma_pattern_claim(v[15].pattern, p, i);
    lemma_pattern_claim(v[16].pattern, p, i);
    lemma_pattern_claim(v[17].pattern, p, i);
    lemma_pattern_claim(v[18].pattern, p, i);
    lemma_universal_fault_phases(p);
    lemma_single_except(i);
    lemma_pairs_guard_eval(validation_rejection_pairs(), p, i);
    assert(rejection_arcs() =~= validation_rejection_pairs());
    assert(!Seq::<KernelInputKind>::empty().contains(i));
    reveal_with_fuel(first_claim, 20);
    reveal_with_fuel(claim_from, 12);
    reveal_with_fuel(ExprView::eval, 4);
    reveal_with_fuel(table_lookup_from, 46);
    match i {
        KernelInputKind::Initialize => {},
        KernelInputKind::BootstrapComplete => {},
        KernelInputKind::EventArrived => {},
        KernelInputKind::AbiValid => {},
        KernelInputKind::AbiFailed => {},
        KernelInputKind::SchemaValid => {},
        KernelInputKind::SchemaFailed => {},
        KernelInputKind::ClockValid => {},
        KernelInputKind::ClockFailed => {},
        KernelInputKind::CapabilityGranted => {},
        KernelInputKind::CapabilityDenied => {},
        KernelInputKind::CausalValid => {},
        KernelInputKind::CausalFailed => {},
        KernelInputKind::DecisionAllow => {},
        KernelInputKind::DecisionReject => {},
        KernelInputKind::DecisionTransform => {},
        KernelInputKind::TransitionApplied => {},
        KernelInputKind::TransitionFailed => {},
        KernelInputKind::ProjectionStamped => {},
        KernelInputKind::EmitComplete => {},
        KernelInputKind::ReplayRequested => {},
        KernelInputKind::ReplayEventApplied => {},
        KernelInputKind::ReplayComplete => {},
        KernelInputKind::IdentityConfirmed => {},
        KernelInputKind::IdentityDiverged => {},
        KernelInputKind::SealRequested => {},
        KernelInputKind::FaultDetected => {},
        KernelInputKind::RecoveryAttempted => {},
        KernelInputKind::RecoverySucceeded => {},
    }
}

/// The rule engine's table gives δ on every cell of phase `ReplayPending`.
#[verifier::rlimit(100)]
#[verifier::spinoff_prover]
proof fn lemma_engine_replay_pending(i: KernelInputKind)
    ensures
        engine_delta(engine_rules_view(), KernelPhase::ReplayPending, i) == spec_kernel_delta(KernelPhase::ReplayPending, i),
{
    let p = KernelPhase::ReplayPending;
    let v = engine_rules_view();
    lemma_engine_priorities();
    lemma_best_is_first(v, 19, p, i);
    lemma_pattern_claim(v[0].pattern, p, i);
    lemma_pattern_claim(v[1].pattern, p, i);
    lemma_pattern_claim(v[2].pattern, p, i);
    lemma_pattern_claim(v[3].pattern, p, i);
    lemma_pattern_claim(v[4].pattern, p, i);
    lemma_pattern_claim(v[5].pattern, p, i);
    lemma_pattern_claim(v[6].pattern, p, i);
    lemma_pattern_claim(v[7].pattern, p, i);
    lemma_pattern_claim(v[8].pattern, p, i);
    lemma_pattern_claim(v[9].pattern, p, i);
    lemma_pattern_claim(v[10].pattern, p, i);
    lemma_pattern_claim(v[11].pattern, p, i);
    lemma_pattern_claim(v[12].pattern, p, i);
    lemma_pattern_claim(v[13].pattern, p, i);
    lemma_pattern_claim(v[14].pattern, p, i);
    lemma_pattern_claim(v[15].pattern, p, i);
    lemma_pattern_claim(v[16].pattern, p, i);
    lemma_pattern_claim(v[17].pattern, p, i);
    lemma_pattern_claim(v[18].pattern, p, i);
    lemma_universal_fault_phases(p);
    lemma_single_except(i);
    lemma_pairs_guard_eval(validation_rejection_pairs(), p, i);
    assert(rejection_arcs() =~= validation_rejection_pairs());
    assert(!Seq::<KernelInputKind>::empty().contains(i));
    reveal_with_fuel(first_claim, 20);
    reveal_with_fuel(claim_from, 12);
    reveal_with_fuel(ExprView::eval, 4);
    reveal_with_fuel(table_lookup_from, 46);
    match i {
        KernelInputKind::Initialize => {},
        KernelInputKind::BootstrapComplete => {},
        KernelInputKind::EventArrived => {},
        KernelInputKind::AbiValid => {},
        KernelInputKind::AbiFailed => {},
        KernelInputKind::SchemaValid => {},
        KernelInputKind::SchemaFailed => {},
        KernelInputKind::ClockValid => {},
        KernelInputKind::ClockFailed => {},
        KernelInputKind::CapabilityGranted => {},
        KernelInputKind::CapabilityDenied => {},
        KernelInputKind::CausalValid => {},
        KernelInputKind::CausalFailed => {},
        KernelInputKind::DecisionAllow => {},
        KernelInputKind::DecisionReject => {},
        KernelInputKind::DecisionTransform => {},
        KernelInputKind::TransitionApplied => {},
        KernelInputKind::TransitionFailed => {},
        KernelInputKind::ProjectionStamped => {},
        KernelInputKind::EmitComplete => {},
        KernelInputKind::ReplayRequested => {},
        KernelInputKind::ReplayEventApplied => {},
        KernelInputKind::ReplayComplete => {},
        KernelInputKind::IdentityConfirmed => {},
        KernelInputKind::IdentityDiverged => {},
        KernelInputKind::SealRequested => {},
        KernelInputKind::FaultDetected => {},
        KernelInputKind::RecoveryAttempted => {},
        KernelInputKind::RecoverySucceeded => {},
    }
}

/// The rule engine's table gives δ on every cell of phase `Replaying`.
#[verifier::rlimit(100)]
#[verifier::spinoff_prover]
proof fn lemma_engine_replaying(i: KernelInputKind)
    ensures
        engine_delta(engine_rules_view(), KernelPhase::Replaying, i) == spec_kernel_delta(KernelPhase::Replaying, i),
{
    let p = KernelPhase::Replaying;
    let v = engine_rules_view();
    lemma_engine_priorities();
    lemma_best_is_first(v, 19, p, i);
    lemma_pattern_claim(v[0].pattern, p, i);
    lemma_pattern_claim(v[1].pattern, p, i);
    lemma_pattern_claim(v[2].pattern, p, i);
    lemma_pattern_claim(v[3].pattern, p, i);
    lemma_pattern_claim(v[4].pattern, p, i);
    lemma_pattern_claim(v[5].pattern, p, i);
    lemma_pattern_claim(v[6].pattern, p, i);
    lemma_pattern_claim(v[7].pattern, p, i);
    lemma_pattern_claim(v[8].pattern, p, i);
    lemma_pattern_claim(v[9].pattern, p, i);
    lemma_pattern_claim(v[10].pattern, p, i);
    lemma_pattern_claim(v[11].pattern, p, i);
    lemma_pattern_claim(v[12].pattern, p, i);
    lemma_pattern_claim(v[13].pattern, p, i);
    lemma_pattern_claim(v[14].pattern, p, i);
    lemma_pattern_claim(v[15].pattern, p, i);
    lemma_pattern_claim(v[16].pattern, p, i);
    lemma_pattern_claim(v[17].pattern, p, i);
    lemma_pattern_claim(v[18].pattern, p, i);
    lemma_universal_fault_phases(p);
    lemma_single_except(i);
    lemma_pairs_guard_eval(validation_rejection_pairs(), p, i);
    assert(rejection_arcs() =~= validation_rejection_pairs());
    assert(!Seq::<KernelInputKind>::empty().contains(i));
    reveal_with_fuel(first_claim, 20);
    reveal_with_fuel(claim_from, 12);
    reveal_with_fuel(ExprView::eval, 4);
    reveal_with_fuel(table_lookup_from, 46);
    match i {
        KernelInputKind::Initialize => {},
        KernelInputKind::BootstrapComplete => {},
        KernelInputKind::EventArrived => {},
        KernelInputKind::AbiValid => {},
        KernelInputKind::AbiFailed => {},
        KernelInputKind::SchemaValid => {},
        KernelInputKind::SchemaFailed => {},
        KernelInputKind::ClockValid => {},
        KernelInputKind::ClockFailed => {},
        KernelInputKind::CapabilityGranted => {},
        KernelInputKind::CapabilityDenied => {},
        KernelInputKind::CausalValid => {},
        KernelInputKind::CausalFailed => {},
        KernelInputKind::DecisionAllow => {},
        KernelInputKind::DecisionReject => {},
        KernelInputKind::DecisionTransform => {},
        KernelInputKind::TransitionApplied => {},
        KernelInputKind::TransitionFailed => {},
        KernelInputKind::ProjectionStamped => {},
        KernelInputKind::EmitComplete => {},
        KernelInputKind::ReplayRequested => {},
        KernelInputKind::ReplayEventApplied => {},
        KernelInputKind::ReplayComplete => {},
        KernelInputKind::IdentityConfirmed => {},
        KernelInputKind::IdentityDiverged => {},
        KernelInputKind::SealRequested => {},
        KernelInputKind::FaultDetected => {},
        KernelInputKind::RecoveryAttempted => {},
        KernelInputKind::RecoverySucceeded => {},
    }
}

/// The rule engine's table gives δ on every cell of phase `VerifyingIdentity`.
#[verifier::rlimit(100)]
#[verifier::spinoff_prover]
proof fn lemma_engine_verifying_identity(i: KernelInputKind)
    ensures
        engine_delta(engine_rules_view(), KernelPhase::VerifyingIdentity, i) == spec_kernel_delta(KernelPhase::VerifyingIdentity, i),
{
    let p = KernelPhase::VerifyingIdentity;
    let v = engine_rules_view();
    lemma_engine_priorities();
    lemma_best_is_first(v, 19, p, i);
    lemma_pattern_claim(v[0].pattern, p, i);
    lemma_pattern_claim(v[1].pattern, p, i);
    lemma_pattern_claim(v[2].pattern, p, i);
    lemma_pattern_claim(v[3].pattern, p, i);
    lemma_pattern_claim(v[4].pattern, p, i);
    lemma_pattern_claim(v[5].pattern, p, i);
    lemma_pattern_claim(v[6].pattern, p, i);
    lemma_pattern_claim(v[7].pattern, p, i);
    lemma_pattern_claim(v[8].pattern, p, i);
    lemma_pattern_claim(v[9].pattern, p, i);
    lemma_pattern_claim(v[10].pattern, p, i);
    lemma_pattern_claim(v[11].pattern, p, i);
    lemma_pattern_claim(v[12].pattern, p, i);
    lemma_pattern_claim(v[13].pattern, p, i);
    lemma_pattern_claim(v[14].pattern, p, i);
    lemma_pattern_claim(v[15].pattern, p, i);
    lemma_pattern_claim(v[16].pattern, p, i);
    lemma_pattern_claim(v[17].pattern, p, i);
    lemma_pattern_claim(v[18].pattern, p, i);
    lemma_universal_fault_phases(p);
    lemma_single_except(i);
    lemma_pairs_guard_eval(validation_rejection_pairs(), p, i);
    assert(rejection_arcs() =~= validation_rejection_pairs());
    assert(!Seq::<KernelInputKind>::empty().contains(i));
    reveal_with_fuel(first_claim, 20);
    reveal_with_fuel(claim_from, 12);
    reveal_with_fuel(ExprView::eval, 4);
    reveal_with_fuel(table_lookup_from, 46);
    match i {
        KernelInputKind::Initialize => {},
        KernelInputKind::BootstrapComplete => {},
        KernelInputKind::EventArrived => {},
        KernelInputKind::AbiValid => {},
        KernelInputKind::AbiFailed => {},
        KernelInputKind::SchemaValid => {},
        KernelInputKind::SchemaFailed => {},
        KernelInputKind::ClockValid => {},
        KernelInputKind::ClockFailed => {},
        KernelInputKind::CapabilityGranted => {},
        KernelInputKind::CapabilityDenied => {},
        KernelInputKind::CausalValid => {},
        KernelInputKind::CausalFailed => {},
        KernelInputKind::DecisionAllow => {},
        KernelInputKind::DecisionReject => {},
        KernelInputKind::DecisionTransform => {},
        KernelInputKind::TransitionApplied => {},
        KernelInputKind::TransitionFailed => {},
        KernelInputKind::ProjectionStamped => {},
        KernelInputKind::EmitComplete => {},
        KernelInputKind::ReplayRequested => {},
        KernelInputKind::ReplayEventApplied => {},
        KernelInputKind::ReplayComplete => {},
        KernelInputKind::IdentityConfirmed => {},
        KernelInputKind::IdentityDiverged => {},
        KernelInputKind::SealRequested => {},
        KernelInputKind::FaultDetected => {},
        KernelInputKind::RecoveryAttempted => {},
        KernelInputKind::RecoverySucceeded => {},
    }
}

/// The rule engine's table gives δ on every cell of phase `Recovering`.
#[verifier::rlimit(100)]
#[verifier::spinoff_prover]
proof fn lemma_engine_recovering(i: KernelInputKind)
    ensures
        engine_delta(engine_rules_view(), KernelPhase::Recovering, i) == spec_kernel_delta(KernelPhase::Recovering, i),
{
    let p = KernelPhase::Recovering;
    let v = engine_rules_view();
    lemma_engine_priorities();
    lemma_best_is_first(v, 19, p, i);
    lemma_pattern_claim(v[0].pattern, p, i);
    lemma_pattern_claim(v[1].pattern, p, i);
    lemma_pattern_claim(v[2].pattern, p, i);
    lemma_pattern_claim(v[3].pattern, p, i);
    lemma_pattern_claim(v[4].pattern, p, i);
    lemma_pattern_claim(v[5].pattern, p, i);
    lemma_pattern_claim(v[6].pattern, p, i);
    lemma_pattern_claim(v[7].pattern, p, i);
    lemma_pattern_claim(v[8].pattern, p, i);
    lemma_pattern_claim(v[9].pattern, p, i);
    lemma_pattern_claim(v[10].pattern, p, i);
    lemma_pattern_claim(v[11].pattern, p, i);
    lemma_pattern_claim(v[12].pattern, p, i);
    lemma_pattern_claim(v[13].pattern, p, i);
    lemma_pattern_claim(v[14].pattern, p, i);
    lemma_pattern_claim(v[15].pattern, p, i);
    lemma_pattern_claim(v[16].pattern, p, i);
    lemma_pattern_claim(v[17].pattern, p, i);
    lemma_pattern_claim(v[18].pattern, p, i);
    lemma_universal_fault_phases(p);
    lemma_single_except(i);
    lemma_pairs_guard_eval(validation_rejection_pairs(), p, i);
    assert(rejection_arcs() =~= validation_rejection_pairs());
    assert(!Seq::<KernelInputKind>::empty().contains(i));
    reveal_with_fuel(first_claim, 20);
    reveal_with_fuel(claim_from, 12);
    reveal_with_fuel(ExprView::eval, 4);
    reveal_with_fuel(table_lookup_from, 46);
    match i {
        KernelInputKind::Initialize => {},
        KernelInputKind::BootstrapComplete => {},
        KernelInputKind::EventArrived => {},
        KernelInputKind::AbiValid => {},
        KernelInputKind::AbiFailed => {},
        KernelInputKind::SchemaValid => {},
        KernelInputKind::SchemaFailed => {},
        KernelInputKind::ClockValid => {},
        KernelInputKind::ClockFailed => {},
        KernelInputKind::CapabilityGranted => {},
        KernelInputKind::CapabilityDenied => {},
        KernelInputKind::CausalValid => {},
        KernelInputKind::CausalFailed => {},
        KernelInputKind::DecisionAllow => {},
        KernelInputKind::DecisionReject => {},
        KernelInputKind::DecisionTransform => {},
        KernelInputKind::TransitionApplied => {},
        KernelInputKind::TransitionFailed => {},
        KernelInputKind::ProjectionStamped => {},
        KernelInputKind::EmitComplete => {},
        KernelInputKind::ReplayRequested => {},
        KernelInputKind::ReplayEventApplied => {},
        KernelInputKind::ReplayComplete => {},
        KernelInputKind::IdentityConfirmed => {},
        KernelInputKind::IdentityDiverged => {},
        KernelInputKind::SealRequested => {},
        KernelInputKind::FaultDetected => {},
        KernelInputKind::RecoveryAttempted => {},
        KernelInputKind::RecoverySucceeded => {},
    }
}

/// The rule engine's table gives δ on every cell of phase `Sealed`.
#[verifier::rlimit(100)]
#[verifier::spinoff_prover]
proof fn lemma_engine_sealed(i: KernelInputKind)
    ensures
        engine_delta(engine_rules_view(), KernelPhase::Sealed, i) == spec_kernel_delta(KernelPhase::Sealed, i),
{
    let p = KernelPhase::Sealed;
    let v = engine_rules_view();
    lemma_engine_priorities();
    lemma_best_is_first(v, 19, p, i);
    lemma_pattern_claim(v[0].pattern, p, i);
    lemma_pattern_claim(v[1].pattern, p, i);
    lemma_pattern_claim(v[2].pattern, p, i);
    lemma_pattern_claim(v[3].pattern, p, i);
    lemma_pattern_claim(v[4].pattern, p, i);
    lemma_pattern_claim(v[5].pattern, p, i);
    lemma_pattern_claim(v[6].pattern, p, i);
    lemma_pattern_claim(v[7].pattern, p, i);
    lemma_pattern_claim(v[8].pattern, p, i);
    lemma_pattern_claim(v[9].pattern, p, i);
    lemma_pattern_claim(v[10].pattern, p, i);
    lemma_pattern_claim(v[11].pattern, p, i);
    lemma_pattern_claim(v[12].pattern, p, i);
    lemma_pattern_claim(v[13].pattern, p, i);
    lemma_pattern_claim(v[14].pattern, p, i);
    lemma_pattern_claim(v[15].pattern, p, i);
    lemma_pattern_claim(v[16].pattern, p, i);
    lemma_pattern_claim(v[17].pattern, p, i);
    lemma_pattern_claim(v[18].pattern, p, i);
    lemma_universal_fault_phases(p);
    lemma_single_except(i);
    lemma_pairs_guard_eval(validation_rejection_pairs(), p, i);
    assert(rejection_arcs() =~= validation_rejection_pairs());
    assert(!Seq::<KernelInputKind>::empty().contains(i));
    reveal_with_fuel(first_claim, 20);
    reveal_with_fuel(claim_from, 12);
    reveal_with_fuel(ExprView::eval, 4);
    reveal_with_fuel(table_lookup_from, 46);
    match i {
        KernelInputKind::Initialize => {},
        KernelInputKind::BootstrapComplete => {},
        KernelInputKind::EventArrived => {},
        KernelInputKind::AbiValid => {},
        KernelInputKind::AbiFailed => {},
        KernelInputKind::SchemaValid => {},
        KernelInputKind::SchemaFailed => {},
        KernelInputKind::ClockValid => {},
        KernelInputKind::ClockFailed => {},
        KernelInputKind::CapabilityGranted => {},
        KernelInputKind::CapabilityDenied => {},
        KernelInputKind::CausalValid => {},
        KernelInputKind::CausalFailed => {},
        KernelInputKind::DecisionAllow => {},
        KernelInputKind::DecisionReject => {},
        KernelInputKind::DecisionTransform => {},
        KernelInputKind::TransitionApplied => {},
        KernelInputKind::TransitionFailed => {},
        KernelInputKind::ProjectionStamped => {},
        KernelInputKind::EmitComplete => {},
        KernelInputKind::ReplayRequested => {},
        KernelInputKind::ReplayEventApplied => {},
        KernelInputKind::ReplayComplete => {},
        KernelInputKind::IdentityConfirmed => {},
        KernelInputKind::IdentityDiverged => {},
        KernelInputKind::SealRequested => {},
        KernelInputKind::FaultDetected => {},
        KernelInputKind::RecoveryAttempted => {},
        KernelInputKind::RecoverySucceeded => {},
    }
}

/// The rule engine's table gives δ on every cell of phase `Faulted`.
#[verifier::rlimit(100)]
#[verifier::spinoff_prover]
proof fn lemma_engine_faulted(i: KernelInputKind)
    ensures
        engine_delta(engine_rules_view(), KernelPhase::Faulted, i) == spec_kernel_delta(KernelPhase::Faulted, i),
{
    let p = KernelPhase::Faulted;
    let v = engine_rules_view();
    lemma_engine_priorities();
    lemma_best_is_first(v, 19, p, i);
    lemma_pattern_claim(v[0].pattern, p, i);
    lemma_pattern_claim(v[1].pattern, p, i);
    lemma_pattern_claim(v[2].pattern, p, i);
    lemma_pattern_claim(v[3].pattern, p, i);
    lemma_pattern_claim(v[4].pattern, p, i);
    lemma_pattern_claim(v[5].pattern, p, i);
    lemma_pattern_claim(v[6].pattern, p, i);
    lemma_pattern_claim(v[7].pattern, p, i);
    lemma_pattern_claim(v[8].pattern, p, i);
    lemma_pattern_claim(v[9].pattern, p, i);
    lemma_pattern_claim(v[10].pattern, p, i);
    lemma_pattern_claim(v[11].pattern, p, i);
    lemma_pattern_claim(v[12].pattern, p, i);
    lemma_pattern_claim(v[13].pattern, p, i);
    lemma_pattern_claim(v[14].pattern, p, i);
    lemma_pattern_claim(v[15].pattern, p, i);
    lemma_pattern_claim(v[16].pattern, p, i);
    lemma_pattern_claim(v[17].pattern, p, i);
    lemma_pattern_claim(v[18].pattern, p, i);
    lemma_universal_fault_phases(p);
    lemma_single_except(i);
    lemma_pairs_guard_eval(validation_rejection_pairs(), p, i);
    assert(rejection_arcs() =~= validation_rejection_pairs());
    assert(!Seq::<KernelInputKind>::empty().contains(i));
    reveal_with_fuel(first_claim, 20);
    reveal_with_fuel(claim_from, 12);
    reveal_with_fuel(ExprView::eval, 4);
    reveal_with_fuel(table_lookup_from, 46);
    match i {
        KernelInputKind::Initialize => {},
        KernelInputKind::BootstrapComplete => {},
        KernelInputKind::EventArrived => {},
        KernelInputKind::AbiValid => {},
        KernelInputKind::AbiFailed => {},
        KernelInputKind::SchemaValid => {},
        KernelInputKind::SchemaFailed => {},
        KernelInputKind::ClockValid => {},
        KernelInputKind::ClockFailed => {},
        KernelInputKind::CapabilityGranted => {},
        KernelInputKind::CapabilityDenied => {},
        KernelInputKind::CausalValid => {},
        KernelInputKind::CausalFailed => {},
        KernelInputKind::DecisionAllow => {},
        KernelInputKind::DecisionReject => {},
        KernelInputKind::DecisionTransform => {},
        KernelInputKind::TransitionApplied => {},
        KernelInputKind::TransitionFailed => {},
        KernelInputKind::ProjectionStamped => {},
        KernelInputKind::EmitComplete => {},
        KernelInputKind::ReplayRequested => {},
        KernelInputKind::ReplayEventApplied => {},
        KernelInputKind::ReplayComplete => {},
        KernelInputKind::IdentityConfirmed => {},
        KernelInputKind::IdentityDiverged => {},
        KernelInputKind::SealRequested => {},
        KernelInputKind::FaultDetected => {},
        KernelInputKind::RecoveryAttempted => {},
        KernelInputKind::RecoverySucceeded => {},
    }
}

/// The rule engine built from the canonical patterns reproduces the
/// kernel's transition function: on every (phase, input) cell its
/// synthesized table gives δ's target, and a cell it leaves out is one δ
/// sends to `Faulted`.
pub proof fn lemma_engine_matches_kernel(p: KernelPhase, i: KernelInputKind)
    ensures
        engine_delta(engine_rules_view(), p, i) == spec_kernel_delta(p, i),
{
    match p {
        KernelPhase::Genesis => lemma_engine_genesis(i),
        KernelPhase::Bootstrapping => lemma_engine_bootstrapping(i),
        KernelPhase::Idle => lemma_engine_idle(i),
        KernelPhase::ValidatingAbi => lemma_engine_validating_abi(i),
        KernelPhase::ValidatingSchema => lemma_engine_validating_schema(i),
        KernelPhase::ValidatingClock => lemma_engine_validating_clock(i),
        KernelPhase::ValidatingCapability => lemma_engine_validating_capability(i),
        KernelPhase::ValidatingCausal => lemma_engine_validating_causal(i),
        KernelPhase::Deciding => lemma_engine_deciding(i),
        KernelPhase::Applying => lemma_engine_applying(i),
        KernelPhase::Stamping => lemma_engine_stamping(i),
        KernelPhase::Emitting => lemma_engine_emitting(i),
        KernelPhase::ReplayPending => lemma_engine_replay_pending(i),
        KernelPhase::Replaying => lemma_engine_replaying(i),
        KernelPhase::VerifyingIdentity => lemma_engine_verifying_identity(i),
        KernelPhase::Recovering => lemma_engine_recovering(i),
        KernelPhase::Sealed => lemma_engine_sealed(i),
        KernelPhase::Faulted => lemma_engine_faulted(i),
    }
}

} // verus!
