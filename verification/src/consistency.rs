//! The canonical constraint rules are consistent (no two rules fire on one
//! cell with different targets) and acyclic (no input takes a processing
//! phase back to an earlier one).

use vstd::prelude::*;
use crate::alignment::lemma_canonical_rules_match_kernel;
use crate::cells::{all_cells, Cell};
use crate::constraint_algebra::{
    backward_arc, backward_arcs, canonical_rules_view, conflict_pairs_from, first_match, first_match_from,
    lemma_first_match_from, lemma_pairs_guard_eval, pipeline_advance_pairs, validation_rejection_pairs, ExprView,
};
use crate::kernel_state::{lemma_pipeline_monotone, KernelInputKind, KernelPhase};

verus! {

/// On a cell, no rule after the first firing one fires.
pub open spec fn single_firing(p: KernelPhase, i: KernelInputKind) -> bool {
    match first_match(canonical_rules_view(), p, i) {
        Some(k) => first_match_from(canonical_rules_view(), k + 1, p, i) is None,
        None => true,
    }
}

/// At most one canonical rule fires on each cell of phase `Genesis`.
proof fn lemma_single_firing_genesis(i: KernelInputKind)
    ensures
        single_firing(KernelPhase::Genesis, i),
{
    lemma_pairs_guard_eval(pipeline_advance_pairs(), KernelPhase::Genesis, i);
    lemma_pairs_guard_eval(validation_rejection_pairs(), KernelPhase::Genesis, i);
    reveal_with_fuel(first_match_from, 20);
    reveal_with_fuel(ExprView::eval, 4);
    match i {
        KernelInputKind::Initialize => {},
        KernelInputKind::BootstrapComplete => {},
        KernelInputKind::EventArrived => {},
        KernelInputKind::AbiValid => {},
        KernelInputKind::AbiFailed => {},
        KernelInputKind::SchemaValid => {},
        KernelInputKind::SchemaFailed => {},
        KernelInputKind::ClockValid => {},
        KernelInputKind::ClockFailed => {},
        KernelInputKind::CapabilityGranted => {},
        KernelInputKind::CapabilityDenied => {},
        KernelInputKind::CausalValid => {},
        KernelInputKind::CausalFailed => {},
        KernelInputKind::DecisionAllow => {},
        KernelInputKind::DecisionReject => {},
        KernelInputKind::DecisionTransform => {},
        KernelInputKind::TransitionApplied => {},
        KernelInputKind::TransitionFailed => {},
        KernelInputKind::ProjectionStamped => {},
        KernelInputKind::EmitComplete => {},
        KernelInputKind::ReplayRequested => {},
        KernelInputKind::ReplayEventApplied => {},
        KernelInputKind::ReplayComplete => {},
        KernelInputKind::IdentityConfirmed => {},
        KernelInputKind::IdentityDiverged => {},
        KernelInputKind::SealRequested => {},
        KernelInputKind::FaultDetected => {},
        KernelInputKind::RecoveryAttempted => {},
        KernelInputKind::RecoverySucceeded => {},
    }
}

/// At most one canonical rule fires on each cell of phase `Bootstrapping`.
proof fn lemma_single_firing_bootstrapping(i: KernelInputKind)
    ensures
        single_firing(KernelPhase::Bootstrapping, i),
{
    lemma_pairs_guard_eval(pipeline_advance_pairs(), KernelPhase::Bootstrapping, i);
    lemma_pairs_guard_eval(validation_rejection_pairs(), KernelPhase::Bootstrapping, i);
    reveal_with_fuel(first_match_from, 20);
    reveal_with_fuel(ExprView::eval, 4);
    match i {
        KernelInputKind::Initialize => {},
        KernelInputKind::BootstrapComplete => {},
        KernelInputKind::EventArrived => {},
        KernelInputKind::AbiValid => {},
        KernelInputKind::AbiFailed => {},
        KernelInputKind::SchemaValid => {},
        KernelInputKind::SchemaFailed => {},
        KernelInputKind::ClockValid => {},
        KernelInputKind::ClockFailed => {},
        KernelInputKind::CapabilityGranted => {},
        KernelInputKind::CapabilityDenied => {},
        KernelInputKind::CausalValid => {},
        KernelInputKind::CausalFailed => {},
        KernelInputKind::DecisionAllow => {},
        KernelInputKind::DecisionReject => {},
        KernelInputKind::DecisionTransform => {},
        KernelInputKind::TransitionApplied => {},
        KernelInputKind::TransitionFailed => {},
        KernelInputKind::ProjectionStamped => {},
        KernelInputKind::EmitComplete => {},
        KernelInputKind::ReplayRequested => {},
        KernelInputKind::ReplayEventApplied => {},
        KernelInputKind::ReplayComplete => {},
        KernelInputKind::IdentityConfirmed => {},
        KernelInputKind::IdentityDiverged => {},
        KernelInputKind::SealRequested => {},
        KernelInputKind::FaultDetected => {},
        KernelInputKind::RecoveryAttempted => {},
        KernelInputKind::RecoverySucceeded => {},
    }
}

/// At most one canonical rule fires on each cell of phase `Idle`.
proof fn lemma_single_firing_idle(i: KernelInputKind)
    ensures
        single_firing(KernelPhase::Idle, i),
{
    lemma_pairs_guard_eval(pipeline_advance_pairs(), KernelPhase::Idle, i);
    lemma_pairs_guard_eval(validation_rejection_pairs(), KernelPhase::Idle, i);
    reveal_with_fuel(first_match_from, 20);
    reveal_with_fuel(ExprView::eval, 4);
    match i {
        KernelInputKind::Initialize => {},
        KernelInputKind::BootstrapComplete => {},
        KernelInputKind::EventArrived => {},
        KernelInputKind::AbiValid => {},
        KernelInputKind::AbiFailed => {},
        KernelInputKind::SchemaValid => {},
        KernelInputKind::SchemaFailed => {},
        KernelInputKind::ClockValid => {},
        KernelInputKind::ClockFailed => {},
        KernelInputKind::CapabilityGranted => {},
        KernelInputKind::CapabilityDenied => {},
        KernelInputKind::CausalValid => {},
        KernelInputKind::CausalFailed => {},
        KernelInputKind::DecisionAllow => {},
        KernelInputKind::DecisionReject => {},
        KernelInputKind::DecisionTransform => {},
        KernelInputKind::TransitionApplied => {},
        KernelInputKind::TransitionFailed => {},
        KernelInputKind::ProjectionStamped => {},
        KernelInputKind::EmitComplete => {},
        KernelInputKind::ReplayRequested => {},
        KernelInputKind::ReplayEventApplied => {},
        KernelInputKind::ReplayComplete => {},
        KernelInputKind::IdentityConfirmed => {},
        KernelInputKind::IdentityDiverged => {},
        KernelInputKind::SealRequested => {},
        KernelInputKind::FaultDetected => {},
        KernelInputKind::RecoveryAttempted => {},
        KernelInputKind::RecoverySucceeded => {},
    }
}

/// At most one canonical rule fires on each cell of phase `ValidatingAbi`.
proof fn lemma_single_firing_validating_abi(i: KernelInputKind)
    ensures
        single_firing(KernelPhase::ValidatingAbi, i),
{
    lemma_pairs_guard_eval(pipeline_advance_pairs(), KernelPhase::ValidatingAbi, i);
    lemma_pairs_guard_eval(validation_rejection_pairs(), KernelPhase::ValidatingAbi, i);
    reveal_with_fuel(first_match_from, 20);
    reveal_with_fuel(ExprView::eval, 4);
    match i {
        KernelInputKind::Initialize => {},
        KernelInputKind::BootstrapComplete => {},
        KernelInputKind::EventArrived => {},
        KernelInputKind::AbiValid => {},
        KernelInputKind::AbiFailed => {},
        KernelInputKind::SchemaValid => {},
        KernelInputKind::SchemaFailed => {},
        KernelInputKind::ClockValid => {},
        KernelInputKind::ClockFailed => {},
        KernelInputKind::CapabilityGranted => {},
        KernelInputKind::CapabilityDenied => {},
        KernelInputKind::CausalValid => {},
        KernelInputKind::CausalFailed => {},
        KernelInputKind::DecisionAllow => {},
        KernelInputKind::DecisionReject => {},
        KernelInputKind::DecisionTransform => {},
        KernelInputKind::TransitionApplied => {},
        KernelInputKind::TransitionFailed => {},
        KernelInputKind::ProjectionStamped => {},
        KernelInputKind::EmitComplete => {},
        KernelInputKind::ReplayRequested => {},
        KernelInputKind::ReplayEventApplied => {},
        KernelInputKind::ReplayComplete => {},
        KernelInputKind::IdentityConfirmed => {},
        KernelInputKind::IdentityDiverged => {},
        KernelInputKind::SealRequested => {},
        KernelInputKind::FaultDetected => {},
        KernelInputKind::RecoveryAttempted => {},
        KernelInputKind::RecoverySucceeded => {},
    }
}

/// At most one canonical rule fires on each cell of phase `ValidatingSchema`.
proof fn lemma_single_firing_validating_schema(i: KernelInputKind)
    ensures
        single_firing(KernelPhase::ValidatingSchema, i),
{
    lemma_pairs_guard_eval(pipeline_advance_pairs(), KernelPhase::ValidatingSchema, i);
    lemma_pairs_guard_eval(validation_rejection_pairs(), KernelPhase::ValidatingSchema, i);
    reveal_with_fuel(first_match_from, 20);
    reveal_with_fuel(ExprView::eval, 4);
    match i {
        KernelInputKind::Initialize => {},
        KernelInputKind::BootstrapComplete => {},
        KernelInputKind::EventArrived => {},
        KernelInputKind::AbiValid => {},
        KernelInputKind::AbiFailed => {},
        KernelInputKind::SchemaValid => {},
        KernelInputKind::SchemaFailed => {},
        KernelInputKind::ClockValid => {},
        KernelInputKind::ClockFailed => {},
        KernelInputKind::CapabilityGranted => {},
        KernelInputKind::CapabilityDenied => {},
        KernelInputKind::CausalValid => {},
        KernelInputKind::CausalFailed => {},
        KernelInputKind::DecisionAllow => {},
        KernelInputKind::DecisionReject => {},
        KernelInputKind::DecisionTransform => {},
        KernelInputKind::TransitionApplied => {},
        KernelInputKind::TransitionFailed => {},
        KernelInputKind::ProjectionStamped => {},
        KernelInputKind::EmitComplete => {},
        KernelInputKind::ReplayRequested => {},
        KernelInputKind::ReplayEventApplied => {},
        KernelInputKind::ReplayComplete => {},
        KernelInputKind::IdentityConfirmed => {},
        KernelInputKind::IdentityDiverged => {},
        KernelInputKind::SealRequested => {},
        KernelInputKind::FaultDetected => {},
        KernelInputKind::RecoveryAttempted => {},
        KernelInputKind::RecoverySucceeded => {},
    }
}

/// At most one canonical rule fires on each cell of phase `ValidatingClock`.
proof fn lemma_single_firing_validating_clock(i: KernelInputKind)
    ensures
        single_firing(KernelPhase::ValidatingClock, i),
{
    lemma_pairs_guard_eval(pipeline_advance_pairs(), KernelPhase::ValidatingClock, i);
    lemma_pairs_guard_eval(validation_rejection_pairs(), KernelPhase::ValidatingClock, i);
    reveal_with_fuel(first_match_from, 20);
    reveal_with_fuel(ExprView::eval, 4);
    match i {
        KernelInputKind::Initialize => {},
        KernelInputKind::BootstrapComplete => {},
        KernelInputKind::EventArrived => {},
        KernelInputKind::AbiValid => {},
        KernelInputKind::AbiFailed => {},
        KernelInputKind::SchemaValid => {},
        KernelInputKind::SchemaFailed => {},
        KernelInputKind::ClockValid => {},
        KernelInputKind::ClockFailed => {},
        KernelInputKind::CapabilityGranted => {},
        KernelInputKind::CapabilityDenied => {},
        KernelInputKind::CausalValid => {},
        KernelInputKind::CausalFailed => {},
        KernelInputKind::DecisionAllow => {},
        KernelInputKind::DecisionReject => {},
        KernelInputKind::DecisionTransform => {},
        KernelInputKind::TransitionApplied => {},
        KernelInputKind::TransitionFailed => {},
        KernelInputKind::ProjectionStamped => {},
        KernelInputKind::EmitComplete => {},
        KernelInputKind::ReplayRequested => {},
        KernelInputKind::ReplayEventApplied => {},
        KernelInputKind::ReplayComplete => {},
        KernelInputKind::IdentityConfirmed => {},
        KernelInputKind::IdentityDiverged => {},
        KernelInputKind::SealRequested => {},
        KernelInputKind::FaultDetected => {},
        KernelInputKind::RecoveryAttempted => {},
        KernelInputKind::RecoverySucceeded => {},
    }
}

/// At most one canonical rule fires on each cell of phase `ValidatingCapability`.
proof fn lemma_single_firing_validating_capability(i: KernelInputKind)
    ensures
        single_firing(KernelPhase::ValidatingCapability, i),
{
    lemma_pairs_guard_eval(pipeline_advance_pairs(), KernelPhase::ValidatingCapability, i);
    lemma_pairs_guard_eval(validation_rejection_pairs(), KernelPhase::ValidatingCapability, i);
    reveal_with_fuel(first_match_from, 20);
    reveal_with_fuel(ExprView::eval, 4);
    match i {
        KernelInputKind::Initialize => {},
        KernelInputKind::BootstrapComplete => {},
        KernelInputKind::EventArrived => {},
        KernelInputKind::AbiValid => {},
        KernelInputKind::AbiFailed => {},
        KernelInputKind::SchemaValid => {},
        KernelInputKind::SchemaFailed => {},
        KernelInputKind::ClockValid => {},
        KernelInputKind::ClockFailed => {},
        KernelInputKind::CapabilityGranted => {},
        KernelInputKind::CapabilityDenied => {},
        KernelInputKind::CausalValid => {},
        KernelInputKind::CausalFailed => {},
        KernelInputKind::DecisionAllow => {},
        KernelInputKind::DecisionReject => {},
        KernelInputKind::DecisionTransform => {},
        KernelInputKind::TransitionApplied => {},
        KernelInputKind::TransitionFailed => {},
        KernelInputKind::ProjectionStamped => {},
        KernelInputKind::EmitComplete => {},
        KernelInputKind::ReplayRequested => {},
        KernelInputKind::ReplayEventApplied => {},
        KernelInputKind::ReplayComplete => {},
        KernelInputKind::IdentityConfirmed => {},
        KernelInputKind::IdentityDiverged => {},
        KernelInputKind::SealRequested => {},
        KernelInputKind::FaultDetected => {},
        KernelInputKind::RecoveryAttempted => {},
        KernelInputKind::RecoverySucceeded => {},
    }
}

/// At most one canonical rule fires on each cell of phase `ValidatingCausal`.
proof fn lemma_single_firing_validating_causal(i: KernelInputKind)
    ensures
        single_firing(KernelPhase::ValidatingCausal, i),
{
    lemma_pairs_guard_eval(pipeline_advance_pairs(), KernelPhase::ValidatingCausal, i);
    lemma_pairs_guard_eval(validation_rejection_pairs(), KernelPhase::ValidatingCausal, i);
    reveal_with_fuel(first_match_from, 20);
    reveal_with_fuel(ExprView::eval, 4);
    match i {
        KernelInputKind::Initialize => {},
        KernelInputKind::BootstrapComplete => {},
        KernelInputKind::EventArrived => {},
        KernelInputKind::AbiValid => {},
        KernelInputKind::AbiFailed => {},
        KernelInputKind::SchemaValid => {},
        KernelInputKind::SchemaFailed => {},
        KernelInputKind::ClockValid => {},
        KernelInputKind::ClockFailed => {},
        KernelInputKind::CapabilityGranted => {},
        KernelInputKind::CapabilityDenied => {},
        KernelInputKind::CausalValid => {},
        KernelInputKind::CausalFailed => {},
        KernelInputKind::DecisionAllow => {},
        KernelInputKind::DecisionReject => {},
        KernelInputKind::DecisionTransform => {},
        KernelInputKind::TransitionApplied => {},
        KernelInputKind::TransitionFailed => {},
        KernelInputKind::ProjectionStamped => {},
        KernelInputKind::EmitComplete => {},
        KernelInputKind::ReplayRequested => {},
        KernelInputKind::ReplayEventApplied => {},
        KernelInputKind::ReplayComplete => {},
        KernelInputKind::IdentityConfirmed => {},
        KernelInputKind::IdentityDiverged => {},
        KernelInputKind::SealRequested => {},
        KernelInputKind::FaultDetected => {},
        KernelInputKind::RecoveryAttempted => {},
        KernelInputKind::RecoverySucceeded => {},
    }
}

/// At most one canonical rule fires on each cell of phase `Deciding`.
proof fn lemma_single_firing_deciding(i: KernelInputKind)
    ensures
        single_firing(KernelPhase::Deciding, i),
{
    lemma_pairs_guard_eval(pipeline_advance_pairs(), KernelPhase::Deciding, i);
    lemma_pairs_guard_eval(validation_rejection_pairs(), KernelPhase::Deciding, i);
    reveal_with_fuel(first_match_from, 20);
    reveal_with_fuel(ExprView::eval, 4);
    match i {
        KernelInputKind::Initialize => {},
        KernelInputKind::BootstrapComplete => {},
        KernelInputKind::EventArrived => {},
        KernelInputKind::AbiValid => {},
        KernelInputKind::AbiFailed => {},
        KernelInputKind::SchemaValid => {},
        KernelInputKind::SchemaFailed => {},
        KernelInputKind::ClockValid => {},
        KernelInputKind::ClockFailed => {},
        KernelInputKind::CapabilityGranted => {},
        KernelInputKind::CapabilityDenied => {},
        KernelInputKind::CausalValid => {},
        KernelInputKind::CausalFailed => {},
        KernelInputKind::DecisionAllow => {},
        KernelInputKind::DecisionReject => {},
        KernelInputKind::DecisionTransform => {},
        KernelInputKind::TransitionApplied => {},
        KernelInputKind::TransitionFailed => {},
        KernelInputKind::ProjectionStamped => {},
        KernelInputKind::EmitComplete => {},
        KernelInputKind::ReplayRequested => {},
        KernelInputKind::ReplayEventApplied => {},
        KernelInputKind::ReplayComplete => {},
        KernelInputKind::IdentityConfirmed => {},
        KernelInputKind::IdentityDiverged => {},
        KernelInputKind::SealRequested => {},
        KernelInputKind::FaultDetected => {},
        KernelInputKind::RecoveryAttempted => {},
        KernelInputKind::RecoverySucceeded => {},
    }
}

/// At most one canonical rule fires on each cell of phase `Applying`.
proof fn lemma_single_firing_applying(i: KernelInputKind)
    ensures
        single_firing(KernelPhase::Applying, i),
{
    lemma_pairs_guard_eval(pipeline_advance_pairs(), KernelPhase::Applying, i);
    lemma_pairs_guard_eval(validation_rejection_pairs(), KernelPhase::Applying, i);
    reveal_with_fuel(first_match_from, 20);
    reveal_with_fuel(ExprView::eval, 4);
    match i {
        KernelInputKind::Initialize => {},
        KernelInputKind::BootstrapComplete => {},
        KernelInputKind::EventArrived => {},
        KernelInputKind::AbiValid => {},
        KernelInputKind::AbiFailed => {},
        KernelInputKind::SchemaValid => {},
        KernelInputKind::SchemaFailed => {},
        KernelInputKind::ClockValid => {},
        KernelInputKind::ClockFailed => {},
        KernelInputKind::CapabilityGranted => {},
        KernelInputKind::CapabilityDenied => {},
        KernelInputKind::CausalValid => {},
        KernelInputKind::CausalFailed => {},
        KernelInputKind::DecisionAllow => {},
        KernelInputKind::DecisionReject => {},
        KernelInputKind::DecisionTransform => {},
        KernelInputKind::TransitionApplied => {},
        KernelInputKind::TransitionFailed => {},
        KernelInputKind::ProjectionStamped => {},
        KernelInputKind::EmitComplete => {},
        KernelInputKind::ReplayRequested => {},
        KernelInputKind::ReplayEventApplied => {},
        KernelInputKind::ReplayComplete => {},
        KernelInputKind::IdentityConfirmed => {},
        KernelInputKind::IdentityDiverged => {},
        KernelInputKind::SealRequested => {},
        KernelInputKind::FaultDetected => {},
        KernelInputKind::RecoveryAttempted => {},
        KernelInputKind::RecoverySucceeded => {},
    }
}

/// At most one canonical rule fires on each cell of phase `Stamping`.
proof fn lemma_single_firing_stamping(i: KernelInputKind)
    ensures
        single_firing(KernelPhase::Stamping, i),
{
    lemma_pairs_guard_eval(pipeline_advance_pairs(), KernelPhase::Stamping, i);
    lemma_pairs_guard_eval(validation_rejection_pairs(), KernelPhase::Stamping, i);
    reveal_with_fuel(first_match_from, 20);
    reveal_with_fuel(ExprView::eval, 4);
    match i {
        KernelInputKind::Initialize => {},
        KernelInputKind::BootstrapComplete => {},
        KernelInputKind::EventArrived => {},
        KernelInputKind::AbiValid => {},
        KernelInputKind::AbiFailed => {},
        KernelInputKind::SchemaValid => {},
        KernelInputKind::SchemaFailed => {},
        KernelInputKind::ClockValid => {},
        KernelInputKind::ClockFailed => {},
        KernelInputKind::CapabilityGranted => {},
        KernelInputKind::CapabilityDenied => {},
        KernelInputKind::CausalValid => {},
        KernelInputKind::CausalFailed => {},
        KernelInputKind::DecisionAllow => {},
        KernelInputKind::DecisionReject => {},
        KernelInputKind::DecisionTransform => {},
        KernelInputKind::TransitionApplied => {},
        KernelInputKind::TransitionFailed => {},
        KernelInputKind::ProjectionStamped => {},
        KernelInputKind::EmitComplete => {},
        KernelInputKind::ReplayRequested => {},
        KernelInputKind::ReplayEventApplied => {},
        KernelInputKind::ReplayComplete => {},
        KernelInputKind::IdentityConfirmed => {},
        KernelInputKind::IdentityDiverged => {},
        KernelInputKind::SealRequested => {},
        KernelInputKind::FaultDetected => {},
        KernelInputKind::RecoveryAttempted => {},
        KernelInputKind::RecoverySucceeded => {},
    }
}

/// At most one canonical rule fires on each cell of phase `Emitting`.
proof fn lemma_single_firing_emitting(i: KernelInputKind)
    ensures
        single_firing(KernelPhase::Emitting, i),
{
    lemma_pairs_guard_eval(pipeline_advance_pairs(), KernelPhase::Emitting, i);
    lemma_pairs_guard_eval(validation_rejection_pairs(), KernelPhase::Emitting, i);
    reveal_with_fuel(first_match_from, 20);
    reveal_with_fuel(ExprView::eval, 4);
    match i {
        KernelInputKind::Initialize => {},
        KernelInputKind::BootstrapComplete => {},
        KernelInputKind::EventArrived => {},
        KernelInputKind::AbiValid => {},
        KernelInputKind::AbiFailed => {},
        KernelInputKind::SchemaValid => {},
        KernelInputKind::SchemaFailed => {},
        KernelInputKind::ClockValid => {},
        KernelInputKind::ClockFailed => {},
        KernelInputKind::CapabilityGranted => {},
        KernelInputKind::CapabilityDenied => {},
        KernelInputKind::CausalValid => {},
        KernelInputKind::CausalFailed => {},
        KernelInputKind::DecisionAllow => {},
        KernelInputKind::DecisionReject => {},
        KernelInputKind::DecisionTransform => {},
        KernelInputKind::TransitionApplied => {},
        KernelInputKind::TransitionFailed => {},
        KernelInputKind::ProjectionStamped => {},
        KernelInputKind::EmitComplete => {},
        KernelInputKind::ReplayRequested => {},
        KernelInputKind::ReplayEventApplied => {},
        KernelInputKind::ReplayComplete => {},
        KernelInputKind::IdentityConfirmed => {},
        KernelInputKind::IdentityDiverged => {},
        KernelInputKind::SealRequested => {},
        KernelInputKind::FaultDetected => {},
        KernelInputKind::RecoveryAttempted => {},
        KernelInputKind::RecoverySucceeded => {},
    }
}

/// At most one canonical rule fires on each cell of phase `ReplayPending`.
proof fn lemma_single_firing_replay_pending(i: KernelInputKind)
    ensures
        single_firing(KernelPhase::ReplayPending, i),
{
    lemma_pairs_guard_eval(pipeline_advance_pairs(), KernelPhase::ReplayPending, i);
    lemma_pairs_guard_eval(validation_rejection_pairs(), KernelPhase::ReplayPending, i);
    reveal_with_fuel(first_match_from, 20);
    reveal_with_fuel(ExprView::eval, 4);
    match i {
        KernelInputKind::Initialize => {},
        KernelInputKind::BootstrapComplete => {},
        KernelInputKind::EventArrived => {},
        KernelInputKind::AbiValid => {},
        KernelInputKind::AbiFailed => {},
        KernelInputKind::SchemaValid => {},
        KernelInputKind::SchemaFailed => {},
        KernelInputKind::ClockValid => {},
        KernelInputKind::ClockFailed => {},
        KernelInputKind::CapabilityGranted => {},
        KernelInputKind::CapabilityDenied => {},
        KernelInputKind::CausalValid => {},
        KernelInputKind::CausalFailed => {},
        KernelInputKind::DecisionAllow => {},
        KernelInputKind::DecisionReject => {},
        KernelInputKind::DecisionTransform => {},
        KernelInputKind::TransitionApplied => {},
        KernelInputKind::TransitionFailed => {},
        KernelInputKind::ProjectionStamped => {},
        KernelInputKind::EmitComplete => {},
        KernelInputKind::ReplayRequested => {},
        KernelInputKind::ReplayEventApplied => {},
        KernelInputKind::ReplayComplete => {},
        KernelInputKind::IdentityConfirmed => {},
        KernelInputKind::IdentityDiverged => {},
        KernelInputKind::SealRequested => {},
        KernelInputKind::FaultDetected => {},
        KernelInputKind::RecoveryAttempted => {},
        KernelInputKind::RecoverySucceeded => {},
    }
}

/// At most one canonical rule fires on each cell of phase `Replaying`.
proof fn lemma_single_firing_replaying(i: KernelInputKind)
    ensures
        single_firing(KernelPhase::Replaying, i),
{
    lemma_pairs_guard_eval(pipeline_advance_pairs(), KernelPhase::Replaying, i);
    lemma_pairs_guard_eval(validation_rejection_pairs(), KernelPhase::Replaying, i);
    reveal_with_fuel(first_match_from, 20);
    reveal_with_fuel(ExprView::eval, 4);
    match i {
        KernelInputKind::Initialize => {},
        KernelInputKind::BootstrapComplete => {},
        KernelInputKind::EventArrived => {},
        KernelInputKind::AbiValid => {},
        KernelInputKind::AbiFailed => {},
        KernelInputKind::SchemaValid => {},
        KernelInputKind::SchemaFailed => {},
        KernelInputKind::ClockValid => {},
        KernelInputKind::ClockFailed => {},
        KernelInputKind::CapabilityGranted => {},
        KernelInputKind::CapabilityDenied => {},
        KernelInputKind::CausalValid => {},
        KernelInputKind::CausalFailed => {},
        KernelInputKind::DecisionAllow => {},
        KernelInputKind::DecisionReject => {},
        KernelInputKind::DecisionTransform => {},
        KernelInputKind::TransitionApplied => {},
        KernelInputKind::TransitionFailed => {},
        KernelInputKind::ProjectionStamped => {},
        KernelInputKind::EmitComplete => {},
        KernelInputKind::ReplayRequested => {},
        KernelInputKind::ReplayEventApplied => {},
        KernelInputKind::ReplayComplete => {},
        KernelInputKind::IdentityConfirmed => {},
        KernelInputKind::IdentityDiverged => {},
        KernelInputKind::SealRequested => {},
        KernelInputKind::FaultDetected => {},
        KernelInputKind::RecoveryAttempted => {},
        KernelInputKind::RecoverySucceeded => {},
    }
}

/// At most one canonical rule fires on each cell of phase `VerifyingIdentity`.
proof fn lemma_single_firing_verifying_identity(i: KernelInputKind)
    ensures
        single_firing(KernelPhase::VerifyingIdentity, i),
{
    lemma_pairs_guard_eval(pipeline_advance_pairs(), KernelPhase::VerifyingIdentity, i);
    lemma_pairs_guard_eval(validation_rejection_pairs(), KernelPhase::VerifyingIdentity, i);
    reveal_with_fuel(first_match_from, 20);
    reveal_with_fuel(ExprView::eval, 4);
    match i {
        KernelInputKind::Initialize => {},
        KernelInputKind::BootstrapComplete => {},
        KernelInputKind::EventArrived => {},
        KernelInputKind::AbiValid => {},
        KernelInputKind::AbiFailed => {},
        KernelInputKind::SchemaValid => {},
        KernelInputKind::SchemaFailed => {},
        KernelInputKind::ClockValid => {},
        KernelInputKind::ClockFailed => {},
        KernelInputKind::CapabilityGranted => {},
        KernelInputKind::CapabilityDenied => {},
        KernelInputKind::CausalValid => {},
        KernelInputKind::CausalFailed => {},
        KernelInputKind::DecisionAllow => {},
        KernelInputKind::DecisionReject => {},
        KernelInputKind::DecisionTransform => {},
        KernelInputKind::TransitionApplied => {},
        KernelInputKind::TransitionFailed => {},
        KernelInputKind::ProjectionStamped => {},
        KernelInputKind::EmitComplete => {},
        KernelInputKind::ReplayRequested => {},
        KernelInputKind::ReplayEventApplied => {},
        KernelInputKind::ReplayComplete => {},
        KernelInputKind::IdentityConfirmed => {},
        KernelInputKind::IdentityDiverged => {},
        KernelInputKind::SealRequested => {},
        KernelInputKind::FaultDetected => {},
        KernelInputKind::RecoveryAttempted => {},
        KernelInputKind::RecoverySucceeded => {},
    }
}

/// At most one canonical rule fires on each cell of phase `Recovering`.
proof fn lemma_single_firing_recovering(i: KernelInputKind)
    ensures
        single_firing(KernelPhase::Recovering, i),
{
    lemma_pairs_guard_eval(pipeline_advance_pairs(), KernelPhase::Recovering, i);
    lemma_pairs_guard_eval(validation_rejection_pairs(), KernelPhase::Recovering, i);
    reveal_with_fuel(first_match_from, 20);
    reveal_with_fuel(ExprView::eval, 4);
    match i {
        KernelInputKind::Initialize => {},
        KernelInputKind::BootstrapComplete => {},
        KernelInputKind::EventArrived => {},
        KernelInputKind::AbiValid => {},
        KernelInputKind::AbiFailed => {},
        KernelInputKind::SchemaValid => {},
        KernelInputKind::SchemaFailed => {},
        KernelInputKind::ClockValid => {},
        KernelInputKind::ClockFailed => {},
        KernelInputKind::CapabilityGranted => {},
        KernelInputKind::CapabilityDenied => {},
        KernelInputKind::CausalValid => {},
        KernelInputKind::CausalFailed => {},
        KernelInputKind::DecisionAllow => {},
        KernelInputKind::DecisionReject => {},
        KernelInputKind::DecisionTransform => {},
        KernelInputKind::TransitionApplied => {},
        KernelInputKind::TransitionFailed => {},
        KernelInputKind::ProjectionStamped => {},
        KernelInputKind::EmitComplete => {},
        KernelInputKind::ReplayRequested => {},
        KernelInputKind::ReplayEventApplied => {},
        KernelInputKind::ReplayComplete => {},
        KernelInputKind::IdentityConfirmed => {},
        KernelInputKind::IdentityDiverged => {},
        KernelInputKind::SealRequested => {},
        KernelInputKind::FaultDetected => {},
        KernelInputKind::RecoveryAttempted => {},
        KernelInputKind::RecoverySucceeded => {},
    }
}

/// At most one canonical rule fires on each cell of phase `Sealed`.
proof fn lemma_single_firing_sealed(i: KernelInputKind)
    ensures
        single_firing(KernelPhase::Sealed, i),
{
    lemma_pairs_guard_eval(pipeline_advance_pairs(), KernelPhase::Sealed, i);
    lemma_pairs_guard_eval(validation_rejection_pairs(), KernelPhase::Sealed, i);
    reveal_with_fuel(first_match_from, 20);
    reveal_with_fuel(ExprView::eval, 4);
    match i {
        KernelInputKind::Initialize => {},
        KernelInputKind::BootstrapComplete => {},
        KernelInputKind::EventArrived => {},
        KernelInputKind::AbiValid => {},
        KernelInputKind::AbiFailed => {},
        KernelInputKind::SchemaValid => {},
        KernelInputKind::SchemaFailed => {},
        KernelInputKind::ClockValid => {},
        KernelInputKind::ClockFailed => {},
        KernelInputKind::CapabilityGranted => {},
        KernelInputKind::CapabilityDenied => {},
        KernelInputKind::CausalValid => {},
        KernelInputKind::CausalFailed => {},
        KernelInputKind::DecisionAllow => {},
        KernelInputKind::DecisionReject => {},
        KernelInputKind::DecisionTransform => {},
        KernelInputKind::TransitionApplied => {},
        KernelInputKind::TransitionFailed => {},
        KernelInputKind::ProjectionStamped => {},
        KernelInputKind::EmitComplete => {},
        KernelInputKind::ReplayRequested => {},
        KernelInputKind::ReplayEventApplied => {},
        KernelInputKind::ReplayComplete => {},
        KernelInputKind::IdentityConfirmed => {},
        KernelInputKind::IdentityDiverged => {},
        KernelInputKind::SealRequested => {},
        KernelInputKind::FaultDetected => {},
        KernelInputKind::RecoveryAttempted => {},
        KernelInputKind::RecoverySucceeded => {},
    }
}

/// At most one canonical rule fires on each cell of phase `Faulted`.
proof fn lemma_single_firing_faulted(i: KernelInputKind)
    ensures
        single_firing(KernelPhase::Faulted, i),
{
    lemma_pairs_guard_eval(pipeline_advance_pairs(), KernelPhase::Faulted, i);
    lemma_pairs_guard_eval(validation_rejection_pairs(), KernelPhase::Faulted, i);
    reveal_with_fuel(first_match_from, 20);
    reveal_with_fuel(ExprView::eval, 4);
    match i {
        KernelInputKind::Initialize => {},
        KernelInputKind::BootstrapComplete => {},
        KernelInputKind::EventArrived => {},
        KernelInputKind::AbiValid => {},
        KernelInputKind::AbiFailed => {},
        KernelInputKind::SchemaValid => {},
        KernelInputKind::SchemaFailed => {},
        KernelInputKind::ClockValid => {},
        KernelInputKind::ClockFailed => {},
        KernelInputKind::CapabilityGranted => {},
        KernelInputKind::CapabilityDenied => {},
        KernelInputKind::CausalValid => {},
        KernelInputKind::CausalFailed => {},
        KernelInputKind::DecisionAllow => {},
        KernelInputKind::DecisionReject => {},
        KernelInputKind::DecisionTransform => {},
        KernelInputKind::TransitionApplied => {},
        KernelInputKind::TransitionFailed => {},
        KernelInputKind::ProjectionStamped => {},
        KernelInputKind::EmitComplete => {},
        KernelInputKind::ReplayRequested => {},
        KernelInputKind::ReplayEventApplied => {},
        KernelInputKind::ReplayComplete => {},
        KernelInputKind::IdentityConfirmed => {},
        KernelInputKind::IdentityDiverged => {},
        KernelInputKind::SealRequested => {},
        KernelInputKind::FaultDetected => {},
        KernelInputKind::RecoveryAttempted => {},
        KernelInputKind::RecoverySucceeded => {},
    }
}

/// At most one canonical rule fires on each cell.
proof fn lemma_single_firing(p: KernelPhase, i: KernelInputKind)
    ensures
        single_firing(p, i),
{
    match p {
        KernelPhase::Genesis => lemma_single_firing_genesis(i),
        KernelPhase::Bootstrapping => lemma_single_firing_bootstrapping(i),
        KernelPhase::Idle => lemma_single_firing_idle(i),
        KernelPhase::ValidatingAbi => lemma_single_firing_validating_abi(i),
        KernelPhase::ValidatingSchema => lemma_single_firing_validating_schema(i),
        KernelPhase::ValidatingClock => lemma_single_firing_validating_clock(i),
        KernelPhase::ValidatingCapability => lemma_single_firing_validating_capability(i),
        KernelPhase::ValidatingCausal => lemma_single_firing_validating_causal(i),
        KernelPhase::Deciding => lemma_single_firing_deciding(i),
        KernelPhase::Applying => lemma_single_firing_applying(i),
        KernelPhase::Stamping => lemma_single_firing_stamping(i),
        KernelPhase::Emitting => lemma_single_firing_emitting(i),
        KernelPhase::ReplayPending => lemma_single_firing_replay_pending(i),
        KernelPhase::Replaying => lemma_single_firing_replaying(i),
        KernelPhase::VerifyingIdentity => lemma_single_firing_verifying_identity(i),
        KernelPhase::Recovering => lemma_single_firing_recovering(i),
        KernelPhase::Sealed => lemma_single_firing_sealed(i),
        KernelPhase::Faulted => lemma_single_firing_faulted(i),
    }
}

/// No two canonical rules fire on a cell with different targets.
proof fn lemma_no_conflict(a: int, b: int)
    requires
        0 <= a < b < canonical_rules_view().len(),
    ensures
        canonical_rules_view()[a].conflicts(canonical_rules_view()[b]).len() == 0,
{
    let v = canonical_rules_view();
    let pred = v[a].conflict_pred(v[b]);
    let f = all_cells().filter(pred);
    if f.len() > 0 {
        all_cells().lemma_filter_pred(pred, 0);
        let c: Cell = f[0];
        lemma_single_firing(c.0, c.1);
        lemma_first_match_from(v, 0, c.0, c.1);
        let k = first_match(v, c.0, c.1).unwrap();
        lemma_first_match_from(v, k + 1, c.0, c.1);
        assert(false);
    }
}

/// The conflicting pairs from (a, b) on: none.
proof fn lemma_no_conflict_pairs(a: int, b: int)
    requires
        0 <= a,
        a < b,
    ensures
        conflict_pairs_from(canonical_rules_view(), a, b).len() == 0,
    decreases canonical_rules_view().len() - a, canonical_rules_view().len() - b,
{
    let v = canonical_rules_view();
    if a < v.len() {
        if b >= v.len() {
            lemma_no_conflict_pairs(a + 1, a + 2);
        } else {
            lemma_no_conflict(a, b);
            lemma_no_conflict_pairs(a, b + 1);
        }
    }
}

/// The canonical constraint rules are consistent: no two of them fire on
/// one cell with different targets, so `verify_consistency` reports no
/// conflict.
pub proof fn lemma_canonical_rules_consistent()
    ensures
        conflict_pairs_from(canonical_rules_view(), 0, 1).len() == 0,
{
    lemma_no_conflict_pairs(0, 1);
}

/// The canonical constraint rules are acyclic: no cell takes a processing
/// phase to an earlier processing phase, so `prove_pipeline_acyclic` finds
/// no backward arc.
pub proof fn lemma_canonical_rules_acyclic()
    ensures
        backward_arcs(canonical_rules_view()).len() == 0,
{
    let v = canonical_rules_view();
    let pred = backward_arc(v);
    let f = all_cells().filter(pred);
    if f.len() > 0 {
        all_cells().lemma_filter_pred(pred, 0);
        let c: Cell = f[0];
        lemma_canonical_rules_match_kernel(c.0, c.1);
        lemma_pipeline_monotone(c.0, c.1);
        assert(false);
    }
}

} // verus!
