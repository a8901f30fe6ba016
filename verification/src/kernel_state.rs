//! The kernel's formal Mealy machine M = (Q, Σ, Λ, δ, λ, q₀).
//!
//! Q = [`KernelPhase`], Σ = [`KernelInputKind`], Λ = [`KernelEffect`],
//! δ = [`kernel_delta`] (total: undefined cells go to `Faulted`),
//! λ = [`kernel_effects`], q₀ = `KernelPhase::Genesis`.

use vstd::prelude::*;

verus! {

/// Number of kernel phases |Q|.
pub const NUM_PHASES: usize = 18;
/// Number of kernel inputs |Σ|.
pub const NUM_INPUTS: usize = 29;
/// Number of (phase, input) cells |Q × Σ|.
pub const NUM_CELLS: usize = 522;
/// Number of explicit entries of the transition table.
pub const TABLE_LEN: usize = 45;

/// The complete set of kernel phases.
#[derive(Debug, Clone, Copy, PartialEq, Eq, Structural, Hash, PartialOrd, Ord)]
pub enum KernelPhase {
    /// Kernel created. No events ever processed. Genesis hash not yet set.
    Genesis,
    /// Genesis event is being committed. Initial state is being built.
    Bootstrapping,
    /// Ready to accept events. No event currently in flight.
    Idle,
    /// ABI envelope version check in progress.
    ValidatingAbi,
    /// Event schema registry lookup in progress.
    ValidatingSchema,
    /// Lamport clock monotone check in progress.
    ValidatingClock,
    /// Capability grant check in progress.
    ValidatingCapability,
    /// Causal parent existence check in progress.
    ValidatingCausal,
    /// Computing the kernel decision (Allow | Reject | Transform).
    Deciding,
    /// Running the reducer: applying the state transition.
    Applying,
    /// Materializer stamping: issuing the kernel stamp.
    Stamping,
    /// Appending to the ledger and broadcasting to subscribers.
    Emitting,
    /// Replay requested; waiting for the ledger read to begin.
    ReplayPending,
    /// Applying historical events in sequence.
    Replaying,
    /// Replay identity verification running.
    VerifyingIdentity,
    /// A recoverable fault; attempting automatic recovery.
    Recovering,
    /// Archive mode. No more events accepted.
    Sealed,
    /// Unrecoverable fault. Operator intervention required.
    Faulted,
}

/// The complete input alphabet — every stimulus the kernel can receive.
#[derive(Debug, Clone, Copy, PartialEq, Eq, Structural, Hash, PartialOrd, Ord)]
pub enum KernelInputKind {
    /// Operator initializes the kernel with a genesis hash.
    Initialize,
    /// Bootstrap complete — genesis state committed.
    BootstrapComplete,
    /// New event arrived from the bus.
    EventArrived,
    /// ABI validation passed.
    AbiValid,
    /// ABI validation failed.
    AbiFailed,
    /// Schema validation passed.
    SchemaValid,
    /// Schema validation failed.
    SchemaFailed,
    /// Clock validation passed.
    ClockValid,
    /// Clock validation failed.
    ClockFailed,
    /// Capability check passed.
    CapabilityGranted,
    /// Capability check failed.
    CapabilityDenied,
    /// Causal parent validation passed.
    CausalValid,
    /// Causal parent validation failed.
    CausalFailed,
    /// Decision: Allow.
    DecisionAllow,
    /// Decision: Reject.
    DecisionReject,
    /// Decision: Transform.
    DecisionTransform,
    /// State transition applied successfully.
    TransitionApplied,
    /// State transition failed.
    TransitionFailed,
    /// Projection stamped by the materializer.
    ProjectionStamped,
    /// Event emitted to ledger and subscribers.
    EmitComplete,
    /// Replay requested by operator or recovery subsystem.
    ReplayRequested,
    /// One event applied during replay.
    ReplayEventApplied,
    /// Replay complete — all events applied.
    ReplayComplete,
    /// Replay identity confirmed.
    IdentityConfirmed,
    /// Replay identity diverged.
    IdentityDiverged,
    /// Operator seals the kernel.
    SealRequested,
    /// Unrecoverable fault detected.
    FaultDetected,
    /// Automatic recovery attempted.
    RecoveryAttempted,
    /// Recovery succeeded.
    RecoverySucceeded,
}

/// Position of a phase in definition order.
pub open spec fn phase_index(p: KernelPhase) -> int {
    match p {
        KernelPhase::Genesis => 0,
        KernelPhase::Bootstrapping => 1,
        KernelPhase::Idle => 2,
        KernelPhase::ValidatingAbi => 3,
        KernelPhase::ValidatingSchema => 4,
        KernelPhase::ValidatingClock => 5,
        KernelPhase::ValidatingCapability => 6,
        KernelPhase::ValidatingCausal => 7,
        KernelPhase::Deciding => 8,
        KernelPhase::Applying => 9,
        KernelPhase::Stamping => 10,
        KernelPhase::Emitting => 11,
        KernelPhase::ReplayPending => 12,
        KernelPhase::Replaying => 13,
        KernelPhase::VerifyingIdentity => 14,
        KernelPhase::Recovering => 15,
        KernelPhase::Sealed => 16,
        KernelPhase::Faulted => 17,
    }
}

/// The phase at a position of the definition order (`Faulted` past the end).
pub open spec fn phase_at(k: int) -> KernelPhase {
    if k == 0 {
        KernelPhase::Genesis
    }     else if k == 1 {
        KernelPhase::Bootstrapping
    }     else if k == 2 {
        KernelPhase::Idle
    }     else if k == 3 {
        KernelPhase::ValidatingAbi
    }     else if k == 4 {
        KernelPhase::ValidatingSchema
    }     else if k == 5 {
        KernelPhase::ValidatingClock
    }     else if k == 6 {
        KernelPhase::ValidatingCapability
    }     else if k == 7 {
        KernelPhase::ValidatingCausal
    }     else if k == 8 {
        KernelPhase::Deciding
    }     else if k == 9 {
        KernelPhase::Applying
    }     else if k == 10 {
        KernelPhase::Stamping
    }     else if k == 11 {
        KernelPhase::Emitting
    }     else if k == 12 {
        KernelPhase::ReplayPending
    }     else if k == 13 {
        KernelPhase::Replaying
    }     else if k == 14 {
        KernelPhase::VerifyingIdentity
    }     else if k == 15 {
        KernelPhase::Recovering
    }     else if k == 16 {
        KernelPhase::Sealed
    } else {
        KernelPhase::Faulted
    }
}

/// Position of an input in definition order.
pub open spec fn input_index(i: KernelInputKind) -> int {
    match i {
        KernelInputKind::Initialize => 0,
        KernelInputKind::BootstrapComplete => 1,
        KernelInputKind::EventArrived => 2,
        KernelInputKind::AbiValid => 3,
        KernelInputKind::AbiFailed => 4,
        KernelInputKind::SchemaValid => 5,
        KernelInputKind::SchemaFailed => 6,
        KernelInputKind::ClockValid => 7,
        KernelInputKind::ClockFailed => 8,
        KernelInputKind::CapabilityGranted => 9,
        KernelInputKind::CapabilityDenied => 10,
        KernelInputKind::CausalValid => 11,
        KernelInputKind::CausalFailed => 12,
        KernelInputKind::DecisionAllow => 13,
        KernelInputKind::DecisionReject => 14,
        KernelInputKind::DecisionTransform => 15,
        KernelInputKind::TransitionApplied => 16,
        KernelInputKind::TransitionFailed => 17,
        KernelInputKind::ProjectionStamped => 18,
        KernelInputKind::EmitComplete => 19,
        KernelInputKind::ReplayRequested => 20,
        KernelInputKind::ReplayEventApplied => 21,
        KernelInputKind::ReplayComplete => 22,
        KernelInputKind::IdentityConfirmed => 23,
        KernelInputKind::IdentityDiverged => 24,
        KernelInputKind::SealRequested => 25,
        KernelInputKind::FaultDetected => 26,
        KernelInputKind::RecoveryAttempted => 27,
        KernelInputKind::RecoverySucceeded => 28,
    }
}

/// The input at a position of the definition order (`RecoverySucceeded` past the end).
pub open spec fn input_at(k: int) -> KernelInputKind {
    if k == 0 {
        KernelInputKind::Initialize
    }     else if k == 1 {
        KernelInputKind::BootstrapComplete
    }     else if k == 2 {
        KernelInputKind::EventArrived
    }     else if k == 3 {
        KernelInputKind::AbiValid
    }     else if k == 4 {
        KernelInputKind::AbiFailed
    }     else if k == 5 {
        KernelInputKind::SchemaValid
    }     else if k == 6 {
        KernelInputKind::SchemaFailed
    }     else if k == 7 {
        KernelInputKind::ClockValid
    }     else if k == 8 {
        KernelInputKind::ClockFailed
    }     else if k == 9 {
        KernelInputKind::CapabilityGranted
    }     else if k == 10 {
        KernelInputKind::CapabilityDenied
    }     else if k == 11 {
        KernelInputKind::CausalValid
    }     else if k == 12 {
        KernelInputKind::CausalFailed
    }     else if k == 13 {
        KernelInputKind::DecisionAllow
    }     else if k == 14 {
        KernelInputKind::DecisionReject
    }     else if k == 15 {
        KernelInputKind::DecisionTransform
    }     else if k == 16 {
        KernelInputKind::TransitionApplied
    }     else if k == 17 {
        KernelInputKind::TransitionFailed
    }     else if k == 18 {
        KernelInputKind::ProjectionStamped
    }     else if k == 19 {
        KernelInputKind::EmitComplete
    }     else if k == 20 {
        KernelInputKind::ReplayRequested
    }     else if k == 21 {
        KernelInputKind::ReplayEventApplied
    }     else if k == 22 {
        KernelInputKind::ReplayComplete
    }     else if k == 23 {
        KernelInputKind::IdentityConfirmed
    }     else if k == 24 {
        KernelInputKind::IdentityDiverged
    }     else if k == 25 {
        KernelInputKind::SealRequested
    }     else if k == 26 {
        KernelInputKind::FaultDetected
    }     else if k == 27 {
        KernelInputKind::RecoveryAttempted
    } else {
        KernelInputKind::RecoverySucceeded
    }
}

/// Indexing phases and inputs by position is a bijection onto `0..18` and `0..29`.
pub proof fn lemma_index_bijection()
    ensures
        forall|p: KernelPhase| 0 <= #[trigger] phase_index(p) < NUM_PHASES,
        forall|p: KernelPhase| #[trigger] phase_at(phase_index(p)) == p,
        forall|k: int| 0 <= k < NUM_PHASES ==> #[trigger] phase_index(phase_at(k)) == k,
        forall|i: KernelInputKind| 0 <= #[trigger] input_index(i) < NUM_INPUTS,
        forall|i: KernelInputKind| #[trigger] input_at(input_index(i)) == i,
        forall|k: int| 0 <= k < NUM_INPUTS ==> #[trigger] input_index(input_at(k)) == k,
{
}

/// The name of a phase, as `as_str` gives it.
pub open spec fn phase_name(p: KernelPhase) -> Seq<char> {
    match p {
        KernelPhase::Genesis => "Genesis"@,
        KernelPhase::Bootstrapping => "Bootstrapping"@,
        KernelPhase::Idle => "Idle"@,
        KernelPhase::ValidatingAbi => "ValidatingAbi"@,
        KernelPhase::ValidatingSchema => "ValidatingSchema"@,
        KernelPhase::ValidatingClock => "ValidatingClock"@,
        KernelPhase::ValidatingCapability => "ValidatingCapability"@,
        KernelPhase::ValidatingCausal => "ValidatingCausal"@,
        KernelPhase::Deciding => "Deciding"@,
        KernelPhase::Applying => "Applying"@,
        KernelPhase::Stamping => "Stamping"@,
        KernelPhase::Emitting => "Emitting"@,
        KernelPhase::ReplayPending => "ReplayPending"@,
        KernelPhase::Replaying => "Replaying"@,
        KernelPhase::VerifyingIdentity => "VerifyingIdentity"@,
        KernelPhase::Recovering => "Recovering"@,
        KernelPhase::Sealed => "Sealed"@,
        KernelPhase::Faulted => "Faulted"@,
    }
}

/// The name of an input, as `as_str` gives it.
pub open spec fn input_name(i: KernelInputKind) -> Seq<char> {
    match i {
        KernelInputKind::Initialize => "Initialize"@,
        KernelInputKind::BootstrapComplete => "BootstrapComplete"@,
        KernelInputKind::EventArrived => "EventArrived"@,
        KernelInputKind::AbiValid => "AbiValid"@,
        KernelInputKind::AbiFailed => "AbiFailed"@,
        KernelInputKind::SchemaValid => "SchemaValid"@,
        KernelInputKind::SchemaFailed => "SchemaFailed"@,
        KernelInputKind::ClockValid => "ClockValid"@,
        KernelInputKind::ClockFailed => "ClockFailed"@,
        KernelInputKind::CapabilityGranted => "CapabilityGranted"@,
        KernelInputKind::CapabilityDenied => "CapabilityDenied"@,
        KernelInputKind::CausalValid => "CausalValid"@,
        KernelInputKind::CausalFailed => "CausalFailed"@,
        KernelInputKind::DecisionAllow => "DecisionAllow"@,
        KernelInputKind::DecisionReject => "DecisionReject"@,
        KernelInputKind::DecisionTransform => "DecisionTransform"@,
        KernelInputKind::TransitionApplied => "TransitionApplied"@,
        KernelInputKind::TransitionFailed => "TransitionFailed"@,
        KernelInputKind::ProjectionStamped => "ProjectionStamped"@,
        KernelInputKind::EmitComplete => "EmitComplete"@,
        KernelInputKind::ReplayRequested => "ReplayRequested"@,
        KernelInputKind::ReplayEventApplied => "ReplayEventApplied"@,
        KernelInputKind::ReplayComplete => "ReplayComplete"@,
        KernelInputKind::IdentityConfirmed => "IdentityConfirmed"@,
        KernelInputKind::IdentityDiverged => "IdentityDiverged"@,
        KernelInputKind::SealRequested => "SealRequested"@,
        KernelInputKind::FaultDetected => "FaultDetected"@,
        KernelInputKind::RecoveryAttempted => "RecoveryAttempted"@,
        KernelInputKind::RecoverySucceeded => "RecoverySucceeded"@,
    }
}

impl KernelPhase {
    /// Phases of the strictly ordered processing pipeline.
    pub open spec fn spec_is_processing(self) -> bool {
        match self {
            KernelPhase::ValidatingAbi | KernelPhase::ValidatingSchema | KernelPhase::ValidatingClock
            | KernelPhase::ValidatingCapability | KernelPhase::ValidatingCausal | KernelPhase::Deciding
            | KernelPhase::Applying | KernelPhase::Stamping | KernelPhase::Emitting => true,
            _ => false,
        }
    }

    pub open spec fn spec_is_terminal(self) -> bool {
        self == KernelPhase::Sealed || self == KernelPhase::Faulted
    }

    pub open spec fn spec_is_replaying(self) -> bool {
        self == KernelPhase::ReplayPending || self == KernelPhase::Replaying
            || self == KernelPhase::VerifyingIdentity
    }

    pub open spec fn spec_is_healthy(self) -> bool {
        self != KernelPhase::Faulted
    }

    /// The expected successor in the normal processing pipeline.
    pub open spec fn spec_next_processing_phase(self) -> Option<KernelPhase> {
        match self {
            KernelPhase::Idle => Some(KernelPhase::ValidatingAbi),
            KernelPhase::ValidatingAbi => Some(KernelPhase::ValidatingSchema),
            KernelPhase::ValidatingSchema => Some(KernelPhase::ValidatingClock),
            KernelPhase::ValidatingClock => Some(KernelPhase::ValidatingCapability),
            KernelPhase::ValidatingCapability => Some(KernelPhase::ValidatingCausal),
            KernelPhase::ValidatingCausal => Some(KernelPhase::Deciding),
            KernelPhase::Deciding => Some(KernelPhase::Applying),
            KernelPhase::Applying => Some(KernelPhase::Stamping),
            KernelPhase::Stamping => Some(KernelPhase::Emitting),
            KernelPhase::Emitting => Some(KernelPhase::Idle),
            _ => None,
        }
    }

    /// Position of the phase in definition order.
    pub fn index(self) -> (r: usize)
        ensures
            r == phase_index(self),
            r < NUM_PHASES,
    {
        match self {
            KernelPhase::Genesis => 0,
            KernelPhase::Bootstrapping => 1,
            KernelPhase::Idle => 2,
            KernelPhase::ValidatingAbi => 3,
            KernelPhase::ValidatingSchema => 4,
            KernelPhase::ValidatingClock => 5,
            KernelPhase::ValidatingCapability => 6,
            KernelPhase::ValidatingCausal => 7,
            KernelPhase::Deciding => 8,
            KernelPhase::Applying => 9,
            KernelPhase::Stamping => 10,
            KernelPhase::Emitting => 11,
            KernelPhase::ReplayPending => 12,
            KernelPhase::Replaying => 13,
            KernelPhase::VerifyingIdentity => 14,
            KernelPhase::Recovering => 15,
            KernelPhase::Sealed => 16,
            KernelPhase::Faulted => 17,
        }
    }

    /// The phase at position `k` of definition order.
    pub fn from_index(k: usize) -> (r: KernelPhase)
        requires
            k < NUM_PHASES,
        ensures
            r == phase_at(k as int),
    {
        match k {
            0 => KernelPhase::Genesis,
            1 => KernelPhase::Bootstrapping,
            2 => KernelPhase::Idle,
            3 => KernelPhase::ValidatingAbi,
            4 => KernelPhase::ValidatingSchema,
            5 => KernelPhase::ValidatingClock,
            6 => KernelPhase::ValidatingCapability,
            7 => KernelPhase::ValidatingCausal,
            8 => KernelPhase::Deciding,
            9 => KernelPhase::Applying,
            10 => KernelPhase::Stamping,
            11 => KernelPhase::Emitting,
            12 => KernelPhase::ReplayPending,
            13 => KernelPhase::Replaying,
            14 => KernelPhase::VerifyingIdentity,
            15 => KernelPhase::Recovering,
            16 => KernelPhase::Sealed,
            _ => KernelPhase::Faulted,
        }
    }

    /// All phases in definition order.
    pub fn all() -> (r: Vec<KernelPhase>)
        ensures
            r@.len() == NUM_PHASES,
            forall|k: int| 0 <= k < NUM_PHASES ==> #[trigger] r@[k] == phase_at(k),
    {
        let mut v: Vec<KernelPhase> = Vec::new();
        let mut k: usize = 0;
        while k < NUM_PHASES
            invariant
                k <= NUM_PHASES,
                v@.len() == k,
                forall|j: int| 0 <= j < k ==> #[trigger] v@[j] == phase_at(j),
            decreases NUM_PHASES - k,
        {
            v.push(KernelPhase::from_index(k));
            k = k + 1;
        }
        v
    }

    #[verifier::when_used_as_spec(spec_is_processing)]
    pub fn is_processing(self) -> (r: bool)
        ensures
            r == self.spec_is_processing(),
    {
        match self {
            KernelPhase::ValidatingAbi | KernelPhase::ValidatingSchema | KernelPhase::ValidatingClock
            | KernelPhase::ValidatingCapability | KernelPhase::ValidatingCausal | KernelPhase::Deciding
            | KernelPhase::Applying | KernelPhase::Stamping | KernelPhase::Emitting => true,
            _ => false,
        }
    }

    #[verifier::when_used_as_spec(spec_is_terminal)]
    pub fn is_terminal(self) -> (r: bool)
        ensures
            r == self.spec_is_terminal(),
    {
        self == KernelPhase::Sealed || self == KernelPhase::Faulted
    }

    #[verifier::when_used_as_spec(spec_is_replaying)]
    pub fn is_replaying(self) -> (r: bool)
        ensures
            r == self.spec_is_replaying(),
    {
        self == KernelPhase::ReplayPending || self == KernelPhase::Replaying
            || self == KernelPhase::VerifyingIdentity
    }

    #[verifier::when_used_as_spec(spec_is_healthy)]
    pub fn is_healthy(self) -> (r: bool)
        ensures
            r == self.spec_is_healthy(),
    {
        self != KernelPhase::Faulted
    }

    /// The expected successor in the normal processing pipeline;
    /// `None` for phases outside the pipeline.
    #[verifier::when_used_as_spec(spec_next_processing_phase)]
    pub fn next_processing_phase(self) -> (r: Option<KernelPhase>)
        ensures
            r == self.spec_next_processing_phase(),
    {
        match self {
            KernelPhase::Idle => Some(KernelPhase::ValidatingAbi),
            KernelPhase::ValidatingAbi => Some(KernelPhase::ValidatingSchema),
            KernelPhase::ValidatingSchema => Some(KernelPhase::ValidatingClock),
            KernelPhase::ValidatingClock => Some(KernelPhase::ValidatingCapability),
            KernelPhase::ValidatingCapability => Some(KernelPhase::ValidatingCausal),
            KernelPhase::ValidatingCausal => Some(KernelPhase::Deciding),
            KernelPhase::Deciding => Some(KernelPhase::Applying),
            KernelPhase::Applying => Some(KernelPhase::Stamping),
            KernelPhase::Stamping => Some(KernelPhase::Emitting),
            KernelPhase::Emitting => Some(KernelPhase::Idle),
            _ => None,
        }
    }

    /// The phase's name.
    pub fn as_str(self) -> (r: &'static str)
        ensures
            r@ == phase_name(self),
    {
        match self {
            KernelPhase::Genesis => "Genesis",
            KernelPhase::Bootstrapping => "Bootstrapping",
            KernelPhase::Idle => "Idle",
            KernelPhase::ValidatingAbi => "ValidatingAbi",
            KernelPhase::ValidatingSchema => "ValidatingSchema",
            KernelPhase::ValidatingClock => "ValidatingClock",
            KernelPhase::ValidatingCapability => "ValidatingCapability",
            KernelPhase::ValidatingCausal => "ValidatingCausal",
            KernelPhase::Deciding => "Deciding",
            KernelPhase::Applying => "Applying",
            KernelPhase::Stamping => "Stamping",
            KernelPhase::Emitting => "Emitting",
            KernelPhase::ReplayPending => "ReplayPending",
            KernelPhase::Replaying => "Replaying",
            KernelPhase::VerifyingIdentity => "VerifyingIdentity",
            KernelPhase::Recovering => "Recovering",
            KernelPhase::Sealed => "Sealed",
            KernelPhase::Faulted => "Faulted",
        }
    }
}

impl KernelInputKind {
    /// Position of the input in definition order.
    pub fn index(self) -> (r: usize)
        ensures
            r == input_index(self),
            r < NUM_INPUTS,
    {
        match self {
            KernelInputKind::Initialize => 0,
            KernelInputKind::BootstrapComplete => 1,
            KernelInputKind::EventArrived => 2,
            KernelInputKind::AbiValid => 3,
            KernelInputKind::AbiFailed => 4,
            KernelInputKind::SchemaValid => 5,
            KernelInputKind::SchemaFailed => 6,
            KernelInputKind::ClockValid => 7,
            KernelInputKind::ClockFailed => 8,
            KernelInputKind::CapabilityGranted => 9,
            KernelInputKind::CapabilityDenied => 10,
            KernelInputKind::CausalValid => 11,
            KernelInputKind::CausalFailed => 12,
            KernelInputKind::DecisionAllow => 13,
            KernelInputKind::DecisionReject => 14,
            KernelInputKind::DecisionTransform => 15,
            KernelInputKind::TransitionApplied => 16,
            KernelInputKind::TransitionFailed => 17,
            KernelInputKind::ProjectionStamped => 18,
            KernelInputKind::EmitComplete => 19,
            KernelInputKind::ReplayRequested => 20,
            KernelInputKind::ReplayEventApplied => 21,
            KernelInputKind::ReplayComplete => 22,
            KernelInputKind::IdentityConfirmed => 23,
            KernelInputKind::IdentityDiverged => 24,
            KernelInputKind::SealRequested => 25,
            KernelInputKind::FaultDetected => 26,
            KernelInputKind::RecoveryAttempted => 27,
            KernelInputKind::RecoverySucceeded => 28,
        }
    }

    /// The input at position `k` of definition order.
    pub fn from_index(k: usize) -> (r: KernelInputKind)
        requires
            k < NUM_INPUTS,
        ensures
            r == input_at(k as int),
    {
        match k {
            0 => KernelInputKind::Initialize,
            1 => KernelInputKind::BootstrapComplete,
            2 => KernelInputKind::EventArrived,
            3 => KernelInputKind::AbiValid,
            4 => KernelInputKind::AbiFailed,
            5 => KernelInputKind::SchemaValid,
            6 => KernelInputKind::SchemaFailed,
            7 => KernelInputKind::ClockValid,
            8 => KernelInputKind::ClockFailed,
            9 => KernelInputKind::CapabilityGranted,
            10 => KernelInputKind::CapabilityDenied,
            11 => KernelInputKind::CausalValid,
            12 => KernelInputKind::CausalFailed,
            13 => KernelInputKind::DecisionAllow,
            14 => KernelInputKind::DecisionReject,
            15 => KernelInputKind::DecisionTransform,
            16 => KernelInputKind::TransitionApplied,
            17 => KernelInputKind::TransitionFailed,
            18 => KernelInputKind::ProjectionStamped,
            19 => KernelInputKind::EmitComplete,
            20 => KernelInputKind::ReplayRequested,
            21 => KernelInputKind::ReplayEventApplied,
            22 => KernelInputKind::ReplayComplete,
            23 => KernelInputKind::IdentityConfirmed,
            24 => KernelInputKind::IdentityDiverged,
            25 => KernelInputKind::SealRequested,
            26 => KernelInputKind::FaultDetected,
            27 => KernelInputKind::RecoveryAttempted,
            _ => KernelInputKind::RecoverySucceeded,
        }
    }

    /// All inputs in definition order.
    pub fn all() -> (r: Vec<KernelInputKind>)
        ensures
            r@.len() == NUM_INPUTS,
            forall|k: int| 0 <= k < NUM_INPUTS ==> #[trigger] r@[k] == input_at(k),
    {
        let mut v: Vec<KernelInputKind> = Vec::new();
        let mut k: usize = 0;
        while k < NUM_INPUTS
            invariant
                k <= NUM_INPUTS,
                v@.len() == k,
                forall|j: int| 0 <= j < k ==> #[trigger] v@[j] == input_at(j),
            decreases NUM_INPUTS - k,
        {
            v.push(KernelInputKind::from_index(k));
            k = k + 1;
        }
        v
    }

    /// The input's name.
    pub fn as_str(self) -> (r: &'static str)
        ensures
            r@ == input_name(self),
    {
        match self {
            KernelInputKind::Initialize => "Initialize",
            KernelInputKind::BootstrapComplete => "BootstrapComplete",
            KernelInputKind::EventArrived => "EventArrived",
            KernelInputKind::AbiValid => "AbiValid",
            KernelInputKind::AbiFailed => "AbiFailed",
            KernelInputKind::SchemaValid => "SchemaValid",
            KernelInputKind::SchemaFailed => "SchemaFailed",
            KernelInputKind::ClockValid => "ClockValid",
            KernelInputKind::ClockFailed => "ClockFailed",
            KernelInputKind::CapabilityGranted => "CapabilityGranted",
            KernelInputKind::CapabilityDenied => "CapabilityDenied",
            KernelInputKind::CausalValid => "CausalValid",
            KernelInputKind::CausalFailed => "CausalFailed",
            KernelInputKind::DecisionAllow => "DecisionAllow",
            KernelInputKind::DecisionReject => "DecisionReject",
            KernelInputKind::DecisionTransform => "DecisionTransform",
            KernelInputKind::TransitionApplied => "TransitionApplied",
            KernelInputKind::TransitionFailed => "TransitionFailed",
            KernelInputKind::ProjectionStamped => "ProjectionStamped",
            KernelInputKind::EmitComplete => "EmitComplete",
            KernelInputKind::ReplayRequested => "ReplayRequested",
            KernelInputKind::ReplayEventApplied => "ReplayEventApplied",
            KernelInputKind::ReplayComplete => "ReplayComplete",
            KernelInputKind::IdentityConfirmed => "IdentityConfirmed",
            KernelInputKind::IdentityDiverged => "IdentityDiverged",
            KernelInputKind::SealRequested => "SealRequested",
            KernelInputKind::FaultDetected => "FaultDetected",
            KernelInputKind::RecoveryAttempted => "RecoveryAttempted",
            KernelInputKind::RecoverySucceeded => "RecoverySucceeded",
        }
    }
}

// ─── Λ: observable effects ───────────────────────────────────────────────────

/// Observable side-effects emitted by transitions.
#[derive(Debug, Clone, PartialEq, Eq)]
pub enum KernelEffect {
    /// Kernel is now ready to accept events.
    KernelReady,
    /// An event was rejected — carries a reason.
    EventRejected(String),
    /// An event was accepted and applied.
    EventAccepted { event_id: String },
    /// A projection was stamped and is now valid.
    ProjectionValid { projection_id: String },
    /// Replay started.
    ReplayStarted,
    /// Replay identity confirmed — the system is deterministic.
    IdentityConfirmed { transition_count: u64 },
    /// Replay identity diverged — determinism failure.
    DeterminismFailure { reason: String },
    /// Kernel sealed — no more events.
    Sealed,
    /// Fault recorded.
    FaultRecorded(String),
    /// Recovery complete.
    Recovered,
}

/// The mathematical value of a [`KernelEffect`]: strings become character sequences.
pub enum KernelEffectView {
    KernelReady,
    EventRejected(Seq<char>),
    EventAccepted { event_id: Seq<char> },
    ProjectionValid { projection_id: Seq<char> },
    ReplayStarted,
    IdentityConfirmed { transition_count: u64 },
    DeterminismFailure { reason: Seq<char> },
    Sealed,
    FaultRecorded(Seq<char>),
    Recovered,
}

impl View for KernelEffect {
    type V = KernelEffectView;

    open spec fn view(&self) -> KernelEffectView {
        match self {
            KernelEffect::KernelReady => KernelEffectView::KernelReady,
            KernelEffect::EventRejected(s) => KernelEffectView::EventRejected(s@),
            KernelEffect::EventAccepted { event_id } => KernelEffectView::EventAccepted { event_id: event_id@ },
            KernelEffect::ProjectionValid { projection_id } => KernelEffectView::ProjectionValid { projection_id: projection_id@ },
            KernelEffect::ReplayStarted => KernelEffectView::ReplayStarted,
            KernelEffect::IdentityConfirmed { transition_count } => KernelEffectView::IdentityConfirmed { transition_count: *transition_count },
            KernelEffect::DeterminismFailure { reason } => KernelEffectView::DeterminismFailure { reason: reason@ },
            KernelEffect::Sealed => KernelEffectView::Sealed,
            KernelEffect::FaultRecorded(s) => KernelEffectView::FaultRecorded(s@),
            KernelEffect::Recovered => KernelEffectView::Recovered,
        }
    }
}

/// The debug text of an effect, as its derived `Debug` writes it.
pub open spec fn effect_debug_text(e: KernelEffectView) -> Seq<char> {
    match e {
        KernelEffectView::KernelReady => "KernelReady"@,
        KernelEffectView::EventRejected(s) => "EventRejected("@ + crate::text::str_debug(s) + ")"@,
        KernelEffectView::EventAccepted { event_id } => "EventAccepted { event_id: "@ + crate::text::str_debug(event_id) + " }"@,
        KernelEffectView::ProjectionValid { projection_id } => "ProjectionValid { projection_id: "@ + crate::text::str_debug(
            projection_id,
        ) + " }"@,
        KernelEffectView::ReplayStarted => "ReplayStarted"@,
        KernelEffectView::IdentityConfirmed { transition_count } => "IdentityConfirmed { transition_count: "@
            + crate::text::decimal(transition_count as nat) + " }"@,
        KernelEffectView::DeterminismFailure { reason } => "DeterminismFailure { reason: "@ + crate::text::str_debug(reason)
            + " }"@,
        KernelEffectView::Sealed => "Sealed"@,
        KernelEffectView::FaultRecorded(s) => "FaultRecorded("@ + crate::text::str_debug(s) + ")"@,
        KernelEffectView::Recovered => "Recovered"@,
    }
}

impl KernelEffect {
    /// The effect as its `Debug` form writes it.
    pub fn debug_text(&self) -> (r: String)
        ensures
            r@ == effect_debug_text(self@),
    {
        proof {
            reveal_strlit("KernelReady");
            reveal_strlit("EventRejected(");
            reveal_strlit(")");
            reveal_strlit("EventAccepted { event_id: ");
            reveal_strlit(" }");
            reveal_strlit("ProjectionValid { projection_id: ");
            reveal_strlit("ReplayStarted");
            reveal_strlit("IdentityConfirmed { transition_count: ");
            reveal_strlit("DeterminismFailure { reason: ");
            reveal_strlit("Sealed");
            reveal_strlit("FaultRecorded(");
            reveal_strlit("Recovered");
        }
        match self {
            KernelEffect::KernelReady => String::from_str("KernelReady"),
            KernelEffect::EventRejected(s) => {
                let mut t = String::from_str("EventRejected(");
                let d = crate::text::debug_str(s.as_str());
                t.append(d.as_str());
                t.append(")");
                t
            },
            KernelEffect::EventAccepted { event_id } => {
                let mut t = String::from_str("EventAccepted { event_id: ");
                let d = crate::text::debug_str(event_id.as_str());
                t.append(d.as_str());
                t.append(" }");
                t
            },
            KernelEffect::ProjectionValid { projection_id } => {
                let mut t = String::from_str("ProjectionValid { projection_id: ");
                let d = crate::text::debug_str(projection_id.as_str());
                t.append(d.as_str());
                t.append(" }");
                t
            },
            KernelEffect::ReplayStarted => String::from_str("ReplayStarted"),
            KernelEffect::IdentityConfirmed { transition_count } => {
                let mut t = String::from_str("IdentityConfirmed { transition_count: ");
                crate::text::push_decimal_u64(&mut t, *transition_count);
                t.append(" }");
                t
            },
            KernelEffect::DeterminismFailure { reason } => {
                let mut t = String::from_str("DeterminismFailure { reason: ");
                let d = crate::text::debug_str(reason.as_str());
                t.append(d.as_str());
                t.append(" }");
                t
            },
            KernelEffect::Sealed => String::from_str("Sealed"),
            KernelEffect::FaultRecorded(s) => {
                let mut t = String::from_str("FaultRecorded(");
                let d = crate::text::debug_str(s.as_str());
                t.append(d.as_str());
                t.append(")");
                t
            },
            KernelEffect::Recovered => String::from_str("Recovered"),
        }
    }
}

/// The views of a sequence of effects.
pub open spec fn effects_view(v: Seq<KernelEffect>) -> Seq<KernelEffectView> {
    v.map_values(|e: KernelEffect| e@)
}

/// Is (phase, input) one of the six validation-rejection arcs?
pub open spec fn is_rejection_arc(p: KernelPhase, i: KernelInputKind) -> bool {
    ||| (p == KernelPhase::ValidatingAbi && i == KernelInputKind::AbiFailed)
    ||| (p == KernelPhase::ValidatingSchema && i == KernelInputKind::SchemaFailed)
    ||| (p == KernelPhase::ValidatingClock && i == KernelInputKind::ClockFailed)
    ||| (p == KernelPhase::ValidatingCapability && i == KernelInputKind::CapabilityDenied)
    ||| (p == KernelPhase::ValidatingCausal && i == KernelInputKind::CausalFailed)
    ||| (p == KernelPhase::Deciding && i == KernelInputKind::DecisionReject)
}

/// λ(q, σ): the effects of a transition.
pub open spec fn spec_kernel_effects(p: KernelPhase, i: KernelInputKind) -> Seq<KernelEffectView> {
    if p == KernelPhase::Bootstrapping && i == KernelInputKind::BootstrapComplete {
        seq![KernelEffectView::KernelReady]
    } else if is_rejection_arc(p, i) {
        seq![KernelEffectView::EventRejected("rejected at "@ + phase_name(p))]
    } else if p == KernelPhase::Emitting && i == KernelInputKind::EmitComplete {
        seq![KernelEffectView::EventAccepted { event_id: Seq::empty() }]
    } else if p == KernelPhase::VerifyingIdentity && i == KernelInputKind::IdentityConfirmed {
        seq![KernelEffectView::IdentityConfirmed { transition_count: 0 }]
    } else if p == KernelPhase::VerifyingIdentity && i == KernelInputKind::IdentityDiverged {
        seq![KernelEffectView::DeterminismFailure { reason: "checksum mismatch"@ }]
    } else if p == KernelPhase::Idle && i == KernelInputKind::SealRequested {
        seq![KernelEffectView::Sealed]
    } else if i == KernelInputKind::FaultDetected {
        seq![KernelEffectView::FaultRecorded("fault at "@ + phase_name(p))]
    } else if p == KernelPhase::Recovering && i == KernelInputKind::RecoverySucceeded {
        seq![KernelEffectView::Recovered]
    } else {
        Seq::empty()
    }
}

/// λ(q, σ) → the observable effects of a transition.
pub fn kernel_effects(phase: KernelPhase, input: KernelInputKind) -> (r: Vec<KernelEffect>)
    ensures
        effects_view(r@) == spec_kernel_effects(phase, input),
{
    let mut v: Vec<KernelEffect> = Vec::new();
    if phase == KernelPhase::Bootstrapping && input == KernelInputKind::BootstrapComplete {
        v.push(KernelEffect::KernelReady);
    } else if (phase == KernelPhase::ValidatingAbi && input == KernelInputKind::AbiFailed)
        || (phase == KernelPhase::ValidatingSchema && input == KernelInputKind::SchemaFailed)
        || (phase == KernelPhase::ValidatingClock && input == KernelInputKind::ClockFailed)
        || (phase == KernelPhase::ValidatingCapability && input == KernelInputKind::CapabilityDenied)
        || (phase == KernelPhase::ValidatingCausal && input == KernelInputKind::CausalFailed)
        || (phase == KernelPhase::Deciding && input == KernelInputKind::DecisionReject) {
        let mut s = String::from_str("rejected at ");
        s.append(phase.as_str());
        v.push(KernelEffect::EventRejected(s));
    } else if phase == KernelPhase::Emitting && input == KernelInputKind::EmitComplete {
        v.push(KernelEffect::EventAccepted { event_id: String::new() });
    } else if phase == KernelPhase::VerifyingIdentity && input == KernelInputKind::IdentityConfirmed {
        v.push(KernelEffect::IdentityConfirmed { transition_count: 0 });
    } else if phase == KernelPhase::VerifyingIdentity && input == KernelInputKind::IdentityDiverged {
        v.push(KernelEffect::DeterminismFailure { reason: String::from_str("checksum mismatch") });
    } else if phase == KernelPhase::Idle && input == KernelInputKind::SealRequested {
        v.push(KernelEffect::Sealed);
    } else if input == KernelInputKind::FaultDetected {
        let mut s = String::from_str("fault at ");
        s.append(phase.as_str());
        v.push(KernelEffect::FaultRecorded(s));
    } else if phase == KernelPhase::Recovering && input == KernelInputKind::RecoverySucceeded {
        v.push(KernelEffect::Recovered);
    }
    assert(effects_view(v@) =~= spec_kernel_effects(phase, input));
    v
}

// ─── δ: the transition table ─────────────────────────────────────────────────

/// A single entry in the transition table.
#[derive(Debug, Clone, Copy, PartialEq, Eq, Structural)]
pub struct TransitionEntry {
    pub from: KernelPhase,
    pub on: KernelInputKind,
    pub to: KernelPhase,
}

/// Entry `k` of the explicit transition table. Every valid transition is
/// listed exactly once; any (phase, input) not listed goes to `Faulted`.
pub open spec fn table_entry(k: int) -> TransitionEntry {
    if k == 0 {
        TransitionEntry { from: KernelPhase::Genesis, on: KernelInputKind::Initialize, to: KernelPhase::Bootstrapping }
    }     else if k == 1 {
        TransitionEntry { from: KernelPhase::Bootstrapping, on: KernelInputKind::BootstrapComplete, to: KernelPhase::Idle }
    }     else if k == 2 {
        TransitionEntry { from: KernelPhase::Bootstrapping, on: KernelInputKind::FaultDetected, to: KernelPhase::Faulted }
    }     else if k == 3 {
        TransitionEntry { from: KernelPhase::Idle, on: KernelInputKind::EventArrived, to: KernelPhase::ValidatingAbi }
    }     else if k == 4 {
        TransitionEntry { from: KernelPhase::ValidatingAbi, on: KernelInputKind::AbiValid, to: KernelPhase::ValidatingSchema }
    }     else if k == 5 {
        TransitionEntry { from: KernelPhase::ValidatingAbi, on: KernelInputKind::AbiFailed, to: KernelPhase::Idle }
    }     else if k == 6 {
        TransitionEntry { from: KernelPhase::ValidatingSchema, on: KernelInputKind::SchemaValid, to: KernelPhase::ValidatingClock }
    }     else if k == 7 {
        TransitionEntry { from: KernelPhase::ValidatingSchema, on: KernelInputKind::SchemaFailed, to: KernelPhase::Idle }
    }     else if k == 8 {
        TransitionEntry { from: KernelPhase::ValidatingClock, on: KernelInputKind::ClockValid, to: KernelPhase::ValidatingCapability }
    }     else if k == 9 {
        TransitionEntry { from: KernelPhase::ValidatingClock, on: KernelInputKind::ClockFailed, to: KernelPhase::Idle }
    }     else if k == 10 {
        TransitionEntry { from: KernelPhase::ValidatingCapability, on: KernelInputKind::CapabilityGranted, to: KernelPhase::ValidatingCausal }
    }     else if k == 11 {
        TransitionEntry { from: KernelPhase::ValidatingCapability, on: KernelInputKind::CapabilityDenied, to: KernelPhase::Idle }
    }     else if k == 12 {
        TransitionEntry { from: KernelPhase::ValidatingCausal, on: KernelInputKind::CausalValid, to: KernelPhase::Deciding }
    }     else if k == 13 {
        TransitionEntry { from: KernelPhase::ValidatingCausal, on: KernelInputKind::CausalFailed, to: KernelPhase::Idle }
    }     else if k == 14 {
        TransitionEntry { from: KernelPhase::Deciding, on: KernelInputKind::DecisionAllow, to: KernelPhase::Applying }
    }     else if k == 15 {
        TransitionEntry { from: KernelPhase::Deciding, on: KernelInputKind::DecisionReject, to: KernelPhase::Idle }
    }     else if k == 16 {
        TransitionEntry { from: KernelPhase::Deciding, on: KernelInputKind::DecisionTransform, to: KernelPhase::Applying }
    }     else if k == 17 {
        TransitionEntry { from: KernelPhase::Applying, on: KernelInputKind::TransitionApplied, to: KernelPhase::Stamping }
    }     else if k == 18 {
        TransitionEntry { from: KernelPhase::Applying, on: KernelInputKind::TransitionFailed, to: KernelPhase::Recovering }
    }     else if k == 19 {
        TransitionEntry { from: KernelPhase::Stamping, on: KernelInputKind::ProjectionStamped, to: KernelPhase::Emitting }
    }     else if k == 20 {
        TransitionEntry { from: KernelPhase::Emitting, on: KernelInputKind::EmitComplete, to: KernelPhase::Idle }
    }     else if k == 21 {
        TransitionEntry { from: KernelPhase::Idle, on: KernelInputKind::ReplayRequested, to: KernelPhase::ReplayPending }
    }     else if k == 22 {
        TransitionEntry { from: KernelPhase::ReplayPending, on: KernelInputKind::EventArrived, to: KernelPhase::Replaying }
    }     else if k == 23 {
        TransitionEntry { from: KernelPhase::Replaying, on: KernelInputKind::ReplayEventApplied, to: KernelPhase::Replaying }
    }     else if k == 24 {
        TransitionEntry { from: KernelPhase::Replaying, on: KernelInputKind::ReplayComplete, to: KernelPhase::VerifyingIdentity }
    }     else if k == 25 {
        TransitionEntry { from: KernelPhase::VerifyingIdentity, on: KernelInputKind::IdentityConfirmed, to: KernelPhase::Idle }
    }     else if k == 26 {
        TransitionEntry { from: KernelPhase::VerifyingIdentity, on: KernelInputKind::IdentityDiverged, to: KernelPhase::Faulted }
    }     else if k == 27 {
        TransitionEntry { from: KernelPhase::Recovering, on: KernelInputKind::RecoveryAttempted, to: KernelPhase::Recovering }
    }     else if k == 28 {
        TransitionEntry { from: KernelPhase::Recovering, on: KernelInputKind::RecoverySucceeded, to: KernelPhase::Idle }
    }     else if k == 29 {
        TransitionEntry { from: KernelPhase::Recovering, on: KernelInputKind::FaultDetected, to: KernelPhase::Faulted }
    }     else if k == 30 {
        TransitionEntry { from: KernelPhase::Idle, on: KernelInputKind::FaultDetected, to: KernelPhase::Faulted }
    }     else if k == 31 {
        TransitionEntry { from: KernelPhase::ValidatingAbi, on: KernelInputKind::FaultDetected, to: KernelPhase::Faulted }
    }     else if k == 32 {
        TransitionEntry { from: KernelPhase::ValidatingSchema, on: KernelInputKind::FaultDetected, to: KernelPhase::Faulted }
    }     else if k == 33 {
        TransitionEntry { from: KernelPhase::ValidatingClock, on: KernelInputKind::FaultDetected, to: KernelPhase::Faulted }
    }     else if k == 34 {
        TransitionEntry { from: KernelPhase::ValidatingCapability, on: KernelInputKind::FaultDetected, to: KernelPhase::Faulted }
    }     else if k == 35 {
        TransitionEntry { from: KernelPhase::ValidatingCausal, on: KernelInputKind::FaultDetected, to: KernelPhase::Faulted }
    }     else if k == 36 {
        TransitionEntry { from: KernelPhase::Deciding, on: KernelInputKind::FaultDetected, to: KernelPhase::Faulted }
    }     else if k == 37 {
        TransitionEntry { from: KernelPhase::Applying, on: KernelInputKind::FaultDetected, to: KernelPhase::Faulted }
    }     else if k == 38 {
        TransitionEntry { from: KernelPhase::Stamping, on: KernelInputKind::FaultDetected, to: KernelPhase::Faulted }
    }     else if k == 39 {
        TransitionEntry { from: KernelPhase::Emitting, on: KernelInputKind::FaultDetected, to: KernelPhase::Faulted }
    }     else if k == 40 {
        TransitionEntry { from: KernelPhase::ReplayPending, on: KernelInputKind::FaultDetected, to: KernelPhase::Faulted }
    }     else if k == 41 {
        TransitionEntry { from: KernelPhase::Replaying, on: KernelInputKind::FaultDetected, to: KernelPhase::Faulted }
    }     else if k == 42 {
        TransitionEntry { from: KernelPhase::VerifyingIdentity, on: KernelInputKind::FaultDetected, to: KernelPhase::Faulted }
    }     else if k == 43 {
        TransitionEntry { from: KernelPhase::Idle, on: KernelInputKind::SealRequested, to: KernelPhase::Sealed }
    } else {
        TransitionEntry { from: KernelPhase::Replaying, on: KernelInputKind::SealRequested, to: KernelPhase::Sealed }
    }
}

/// Entry `k` of the explicit transition table.
pub fn transition_entry(k: usize) -> (r: TransitionEntry)
    requires
        k < TABLE_LEN,
    ensures
        r == table_entry(k as int),
{
    match k {
        0 => TransitionEntry { from: KernelPhase::Genesis, on: KernelInputKind::Initialize, to: KernelPhase::Bootstrapping },
        1 => TransitionEntry { from: KernelPhase::Bootstrapping, on: KernelInputKind::BootstrapComplete, to: KernelPhase::Idle },
        2 => TransitionEntry { from: KernelPhase::Bootstrapping, on: KernelInputKind::FaultDetected, to: KernelPhase::Faulted },
        3 => TransitionEntry { from: KernelPhase::Idle, on: KernelInputKind::EventArrived, to: KernelPhase::ValidatingAbi },
        4 => TransitionEntry { from: KernelPhase::ValidatingAbi, on: KernelInputKind::AbiValid, to: KernelPhase::ValidatingSchema },
        5 => TransitionEntry { from: KernelPhase::ValidatingAbi, on: KernelInputKind::AbiFailed, to: KernelPhase::Idle },
        6 => TransitionEntry { from: KernelPhase::ValidatingSchema, on: KernelInputKind::SchemaValid, to: KernelPhase::ValidatingClock },
        7 => TransitionEntry { from: KernelPhase::ValidatingSchema, on: KernelInputKind::SchemaFailed, to: KernelPhase::Idle },
        8 => TransitionEntry { from: KernelPhase::ValidatingClock, on: KernelInputKind::ClockValid, to: KernelPhase::ValidatingCapability },
        9 => TransitionEntry { from: KernelPhase::ValidatingClock, on: KernelInputKind::ClockFailed, to: KernelPhase::Idle },
        10 => TransitionEntry { from: KernelPhase::ValidatingCapability, on: KernelInputKind::CapabilityGranted, to: KernelPhase::ValidatingCausal },
        11 => TransitionEntry { from: KernelPhase::ValidatingCapability, on: KernelInputKind::CapabilityDenied, to: KernelPhase::Idle },
        12 => TransitionEntry { from: KernelPhase::ValidatingCausal, on: KernelInputKind::CausalValid, to: KernelPhase::Deciding },
        13 => TransitionEntry { from: KernelPhase::ValidatingCausal, on: KernelInputKind::CausalFailed, to: KernelPhase::Idle },
        14 => TransitionEntry { from: KernelPhase::Deciding, on: KernelInputKind::DecisionAllow, to: KernelPhase::Applying },
        15 => TransitionEntry { from: KernelPhase::Deciding, on: KernelInputKind::DecisionReject, to: KernelPhase::Idle },
        16 => TransitionEntry { from: KernelPhase::Deciding, on: KernelInputKind::DecisionTransform, to: KernelPhase::Applying },
        17 => TransitionEntry { from: KernelPhase::Applying, on: KernelInputKind::TransitionApplied, to: KernelPhase::Stamping },
        18 => TransitionEntry { from: KernelPhase::Applying, on: KernelInputKind::TransitionFailed, to: KernelPhase::Recovering },
        19 => TransitionEntry { from: KernelPhase::Stamping, on: KernelInputKind::ProjectionStamped, to: KernelPhase::Emitting },
        20 => TransitionEntry { from: KernelPhase::Emitting, on: KernelInputKind::EmitComplete, to: KernelPhase::Idle },
        21 => TransitionEntry { from: KernelPhase::Idle, on: KernelInputKind::ReplayRequested, to: KernelPhase::ReplayPending },
        22 => TransitionEntry { from: KernelPhase::ReplayPending, on: KernelInputKind::EventArrived, to: KernelPhase::Replaying },
        23 => TransitionEntry { from: KernelPhase::Replaying, on: KernelInputKind::ReplayEventApplied, to: KernelPhase::Replaying },
        24 => TransitionEntry { from: KernelPhase::Replaying, on: KernelInputKind::ReplayComplete, to: KernelPhase::VerifyingIdentity },
        25 => TransitionEntry { from: KernelPhase::VerifyingIdentity, on: KernelInputKind::IdentityConfirmed, to: KernelPhase::Idle },
        26 => TransitionEntry { from: KernelPhase::VerifyingIdentity, on: KernelInputKind::IdentityDiverged, to: KernelPhase::Faulted },
        27 => TransitionEntry { from: KernelPhase::Recovering, on: KernelInputKind::RecoveryAttempted, to: KernelPhase::Recovering },
        28 => TransitionEntry { from: KernelPhase::Recovering, on: KernelInputKind::RecoverySucceeded, to: KernelPhase::Idle },
        29 => TransitionEntry { from: KernelPhase::Recovering, on: KernelInputKind::FaultDetected, to: KernelPhase::Faulted },
        30 => TransitionEntry { from: KernelPhase::Idle, on: KernelInputKind::FaultDetected, to: KernelPhase::Faulted },
        31 => TransitionEntry { from: KernelPhase::ValidatingAbi, on: KernelInputKind::FaultDetected, to: KernelPhase::Faulted },
        32 => TransitionEntry { from: KernelPhase::ValidatingSchema, on: KernelInputKind::FaultDetected, to: KernelPhase::Faulted },
        33 => TransitionEntry { from: KernelPhase::ValidatingClock, on: KernelInputKind::FaultDetected, to: KernelPhase::Faulted },
        34 => TransitionEntry { from: KernelPhase::ValidatingCapability, on: KernelInputKind::FaultDetected, to: KernelPhase::Faulted },
        35 => TransitionEntry { from: KernelPhase::ValidatingCausal, on: KernelInputKind::FaultDetected, to: KernelPhase::Faulted },
        36 => TransitionEntry { from: KernelPhase::Deciding, on: KernelInputKind::FaultDetected, to: KernelPhase::Faulted },
        37 => TransitionEntry { from: KernelPhase::Applying, on: KernelInputKind::FaultDetected, to: KernelPhase::Faulted },
        38 => TransitionEntry { from: KernelPhase::Stamping, on: KernelInputKind::FaultDetected, to: KernelPhase::Faulted },
        39 => TransitionEntry { from: KernelPhase::Emitting, on: KernelInputKind::FaultDetected, to: KernelPhase::Faulted },
        40 => TransitionEntry { from: KernelPhase::ReplayPending, on: KernelInputKind::FaultDetected, to: KernelPhase::Faulted },
        41 => TransitionEntry { from: KernelPhase::Replaying, on: KernelInputKind::FaultDetected, to: KernelPhase::Faulted },
        42 => TransitionEntry { from: KernelPhase::VerifyingIdentity, on: KernelInputKind::FaultDetected, to: KernelPhase::Faulted },
        43 => TransitionEntry { from: KernelPhase::Idle, on: KernelInputKind::SealRequested, to: KernelPhase::Sealed },
        _ => TransitionEntry { from: KernelPhase::Replaying, on: KernelInputKind::SealRequested, to: KernelPhase::Sealed },
    }
}

/// The explicit transition table, in order.
pub fn transition_table() -> (r: Vec<TransitionEntry>)
    ensures
        r@.len() == TABLE_LEN,
        forall|k: int| 0 <= k < TABLE_LEN ==> #[trigger] r@[k] == table_entry(k),
{
    let mut v: Vec<TransitionEntry> = Vec::new();
    let mut k: usize = 0;
    while k < TABLE_LEN
        invariant
            k <= TABLE_LEN,
            v@.len() == k,
            forall|j: int| 0 <= j < k ==> #[trigger] v@[j] == table_entry(j),
        decreases TABLE_LEN - k,
    {
        v.push(transition_entry(k));
        k = k + 1;
    }
    v
}

/// The target of the first table entry at or after `k` for (phase, input).
pub open spec fn table_lookup_from(p: KernelPhase, i: KernelInputKind, k: int) -> Option<KernelPhase>
    decreases TABLE_LEN - k,
{
    if k < 0 || k >= TABLE_LEN {
        None
    } else if table_entry(k).from == p && table_entry(k).on == i {
        Some(table_entry(k).to)
    } else {
        table_lookup_from(p, i, k + 1)
    }
}

/// The target the table lists for (phase, input), if any.
pub open spec fn table_lookup(p: KernelPhase, i: KernelInputKind) -> Option<KernelPhase> {
    table_lookup_from(p, i, 0)
}

/// δ(q, σ): Sealed absorbs every input; Faulted absorbs every input but
/// `RecoveryAttempted` (which leads to `Recovering`); otherwise the table's
/// entry, and `Faulted` where the table lists none.
pub open spec fn spec_kernel_delta(p: KernelPhase, i: KernelInputKind) -> KernelPhase {
    if p == KernelPhase::Sealed {
        KernelPhase::Sealed
    } else if p == KernelPhase::Faulted {
        if i == KernelInputKind::RecoveryAttempted {
            KernelPhase::Recovering
        } else {
            KernelPhase::Faulted
        }
    } else {
        match table_lookup(p, i) {
            Some(t) => t,
            None => KernelPhase::Faulted,
        }
    }
}

/// δ(q, σ) → q' — the total transition function.
pub fn kernel_delta(phase: KernelPhase, input: KernelInputKind) -> (r: KernelPhase)
    ensures
        r == spec_kernel_delta(phase, input),
{
    if phase == KernelPhase::Sealed {
        return KernelPhase::Sealed;
    }
    if phase == KernelPhase::Faulted {
        return if input == KernelInputKind::RecoveryAttempted {
            KernelPhase::Recovering
        } else {
            KernelPhase::Faulted
        };
    }
    let mut k: usize = 0;
    while k < TABLE_LEN
        invariant
            k <= TABLE_LEN,
            table_lookup_from(phase, input, 0) == table_lookup_from(phase, input, k as int),
        decreases TABLE_LEN - k,
    {
        let entry = transition_entry(k);
        if entry.from == phase && entry.on == input {
            return entry.to;
        }
        k = k + 1;
    }
    KernelPhase::Faulted
}


/// The number of table entries among the first `k` that loop back to their own phase.
pub open spec fn table_self_loops_upto(k: int) -> nat
    decreases k,
{
    if k <= 0 {
        0
    } else {
        table_self_loops_upto(k - 1) + if table_entry(k - 1).from == table_entry(k - 1).to {
            1nat
        } else {
            0nat
        }
    }
}

/// Metadata about the transition table.
pub struct TransitionTableStats {
    pub phase_count: usize,
    pub input_count: usize,
    /// Table entries plus every cell of the two absorbing phases.
    pub defined_transitions: usize,
    /// Cells left to the `Faulted` default.
    pub undefined_transitions: usize,
    pub self_loops: usize,
}

impl TransitionTableStats {
    pub fn compute() -> (r: Self)
        ensures
            r.phase_count == NUM_PHASES,
            r.input_count == NUM_INPUTS,
            r.defined_transitions == TABLE_LEN + 2 * NUM_INPUTS,
            r.undefined_transitions == NUM_CELLS - (TABLE_LEN + 2 * NUM_INPUTS),
            r.self_loops == table_self_loops_upto(TABLE_LEN as int),
    {
        let mut self_loops: usize = 0;
        let mut k: usize = 0;
        while k < TABLE_LEN
            invariant
                k <= TABLE_LEN,
                self_loops == table_self_loops_upto(k as int),
                self_loops <= k,
            decreases TABLE_LEN - k,
        {
            let e = transition_entry(k);
            if e.from == e.to {
                self_loops = self_loops + 1;
            }
            k = k + 1;
        }
        let defined: usize = TABLE_LEN + 2 * NUM_INPUTS;
        TransitionTableStats {
            phase_count: NUM_PHASES,
            input_count: NUM_INPUTS,
            defined_transitions: defined,
            undefined_transitions: NUM_CELLS - defined,
            self_loops,
        }
    }
}

// ─── Laws of δ ───────────────────────────────────────────────────────────────

/// Convergence: Sealed absorbs every input, and from Faulted the only exit is
/// `RecoveryAttempted`, which leads to `Recovering`.
pub proof fn lemma_absorbing_phases(i: KernelInputKind)
    ensures
        spec_kernel_delta(KernelPhase::Sealed, i) == KernelPhase::Sealed,
        i != KernelInputKind::RecoveryAttempted ==> spec_kernel_delta(KernelPhase::Faulted, i)
            == KernelPhase::Faulted,
        spec_kernel_delta(KernelPhase::Faulted, KernelInputKind::RecoveryAttempted)
            == KernelPhase::Recovering,
{
}

/// `FaultDetected` leads every live phase (neither terminal nor `Genesis`) to `Faulted`.
pub proof fn lemma_fault_from_live_phases(p: KernelPhase)
    requires
        !p.spec_is_terminal(),
        p != KernelPhase::Genesis,
    ensures
        spec_kernel_delta(p, KernelInputKind::FaultDetected) == KernelPhase::Faulted,
{
    reveal_with_fuel(table_lookup_from, 46);
}

/// Monotone pipeline: no input takes a processing phase to an earlier
/// processing phase (the pipeline only returns through `Idle`).
pub proof fn lemma_pipeline_monotone(p: KernelPhase, i: KernelInputKind)
    requires
        p.spec_is_processing(),
        spec_kernel_delta(p, i).spec_is_processing(),
    ensures
        phase_index(spec_kernel_delta(p, i)) > phase_index(p),
{
    reveal_with_fuel(table_lookup_from, 46);
}

} // verus!
