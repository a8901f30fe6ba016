//! λ isolation: effects as pure functions of (phase, input).
//!
//! [`KernelEffectIsolated`] carries only phase tokens, so λ is structurally
//! determined by the transition; [`EffectVerifier`] checks λ against the
//! canonical [`EffectContract`]s.

use vstd::prelude::*;
use crate::kernel_state::{is_rejection_arc, phase_name, input_name, spec_kernel_effects, KernelEffectView, KernelInputKind, KernelPhase, NUM_CELLS};
use crate::cells::{cell, lemma_filter_take_succ};

verus! {

/// Observable kernel effects — fully determined by (phase, input) alone.
#[derive(Debug, Clone, Copy, PartialEq, Eq, Structural)]
pub enum KernelEffectIsolated {
    /// Kernel bootstrapped successfully.
    KernelReady,
    /// Event rejected at this phase.
    EventRejected { at_phase: KernelPhase },
    /// Event accepted and committed.
    EventAccepted,
    /// Projection stamped by the materializer.
    ProjectionStamped,
    /// Replay started.
    ReplayStarted,
    /// Replay identity confirmed.
    IdentityConfirmed,
    /// Replay identity diverged — determinism failure.
    DeterminismViolation { at_phase: KernelPhase },
    /// Kernel sealed.
    Sealed,
    /// Fault recorded at this phase.
    FaultRecorded { at_phase: KernelPhase },
    /// Recovery succeeded.
    Recovered,
}

/// The variant name of an effect.
pub open spec fn effect_name(e: KernelEffectIsolated) -> Seq<char> {
    match e {
        KernelEffectIsolated::KernelReady => "KernelReady"@,
        KernelEffectIsolated::EventRejected { .. } => "EventRejected"@,
        KernelEffectIsolated::EventAccepted => "EventAccepted"@,
        KernelEffectIsolated::ProjectionStamped => "ProjectionStamped"@,
        KernelEffectIsolated::ReplayStarted => "ReplayStarted"@,
        KernelEffectIsolated::IdentityConfirmed => "IdentityConfirmed"@,
        KernelEffectIsolated::DeterminismViolation { .. } => "DeterminismViolation"@,
        KernelEffectIsolated::Sealed => "Sealed"@,
        KernelEffectIsolated::FaultRecorded { .. } => "FaultRecorded"@,
        KernelEffectIsolated::Recovered => "Recovered"@,
    }
}

impl KernelEffectIsolated {
    /// Is this a terminal or error effect?
    pub fn is_error(self) -> (r: bool)
        ensures
            r == (self is DeterminismViolation || self is FaultRecorded),
    {
        match self {
            KernelEffectIsolated::DeterminismViolation { .. } | KernelEffectIsolated::FaultRecorded { .. } => true,
            _ => false,
        }
    }

    /// Is this effect observable by the application layer?
    pub fn is_application_visible(self) -> (r: bool)
        ensures
            r == (self is EventAccepted || self is EventRejected || self is IdentityConfirmed
                || self is DeterminismViolation),
    {
        match self {
            KernelEffectIsolated::EventAccepted | KernelEffectIsolated::EventRejected { .. }
            | KernelEffectIsolated::IdentityConfirmed | KernelEffectIsolated::DeterminismViolation { .. } => true,
            _ => false,
        }
    }

    pub fn as_str(self) -> (r: &'static str)
        ensures
            r@ == effect_name(self),
    {
        match self {
            KernelEffectIsolated::KernelReady => "KernelReady",
            KernelEffectIsolated::EventRejected { .. } => "EventRejected",
            KernelEffectIsolated::EventAccepted => "EventAccepted",
            KernelEffectIsolated::ProjectionStamped => "ProjectionStamped",
            KernelEffectIsolated::ReplayStarted => "ReplayStarted",
            KernelEffectIsolated::IdentityConfirmed => "IdentityConfirmed",
            KernelEffectIsolated::DeterminismViolation { .. } => "DeterminismViolation",
            KernelEffectIsolated::Sealed => "Sealed",
            KernelEffectIsolated::FaultRecorded { .. } => "FaultRecorded",
            KernelEffectIsolated::Recovered => "Recovered",
        }
    }
}

// ─── λ ────────────────────────────────────────────────────────────────────────

/// λ(q, σ): the isolated effects of a transition.
pub open spec fn spec_lambda(p: KernelPhase, i: KernelInputKind) -> Seq<KernelEffectIsolated> {
    if p == KernelPhase::Bootstrapping && i == KernelInputKind::BootstrapComplete {
        seq![KernelEffectIsolated::KernelReady]
    } else if is_rejection_arc(p, i) {
        seq![KernelEffectIsolated::EventRejected { at_phase: p }]
    } else if p == KernelPhase::Stamping && i == KernelInputKind::ProjectionStamped {
        seq![KernelEffectIsolated::ProjectionStamped]
    } else if p == KernelPhase::Emitting && i == KernelInputKind::EmitComplete {
        seq![KernelEffectIsolated::EventAccepted]
    } else if p == KernelPhase::Idle && i == KernelInputKind::ReplayRequested {
        seq![KernelEffectIsolated::ReplayStarted]
    } else if p == KernelPhase::VerifyingIdentity && i == KernelInputKind::IdentityConfirmed {
        seq![KernelEffectIsolated::IdentityConfirmed]
    } else if p == KernelPhase::VerifyingIdentity && i == KernelInputKind::IdentityDiverged {
        seq![KernelEffectIsolated::DeterminismViolation { at_phase: KernelPhase::VerifyingIdentity }]
    } else if p == KernelPhase::Idle && i == KernelInputKind::SealRequested {
        seq![KernelEffectIsolated::Sealed]
    } else if p == KernelPhase::Recovering && i == KernelInputKind::RecoverySucceeded {
        seq![KernelEffectIsolated::Recovered]
    } else if i == KernelInputKind::FaultDetected && !p.spec_is_terminal() {
        seq![KernelEffectIsolated::FaultRecorded { at_phase: p }]
    } else {
        Seq::empty()
    }
}

/// The isolated effect function λ: a pure function of (phase, input).
pub fn lambda(phase: KernelPhase, input: KernelInputKind) -> (r: Vec<KernelEffectIsolated>)
    ensures
        r@ == spec_lambda(phase, input),
{
    let mut v: Vec<KernelEffectIsolated> = Vec::new();
    if phase == KernelPhase::Bootstrapping && input == KernelInputKind::BootstrapComplete {
        v.push(KernelEffectIsolated::KernelReady);
    } else if (phase == KernelPhase::ValidatingAbi && input == KernelInputKind::AbiFailed)
        || (phase == KernelPhase::ValidatingSchema && input == KernelInputKind::SchemaFailed)
        || (phase == KernelPhase::ValidatingClock && input == KernelInputKind::ClockFailed)
        || (phase == KernelPhase::ValidatingCapability && input == KernelInputKind::CapabilityDenied)
        || (phase == KernelPhase::ValidatingCausal && input == KernelInputKind::CausalFailed)
        || (phase == KernelPhase::Deciding && input == KernelInputKind::DecisionReject) {
        v.push(KernelEffectIsolated::EventRejected { at_phase: phase });
    } else if phase == KernelPhase::Stamping && input == KernelInputKind::ProjectionStamped {
        v.push(KernelEffectIsolated::ProjectionStamped);
    } else if phase == KernelPhase::Emitting && input == KernelInputKind::EmitComplete {
        v.push(KernelEffectIsolated::EventAccepted);
    } else if phase == KernelPhase::Idle && input == KernelInputKind::ReplayRequested {
        v.push(KernelEffectIsolated::ReplayStarted);
    } else if phase == KernelPhase::VerifyingIdentity && input == KernelInputKind::IdentityConfirmed {
        v.push(KernelEffectIsolated::IdentityConfirmed);
    } else if phase == KernelPhase::VerifyingIdentity && input == KernelInputKind::IdentityDiverged {
        v.push(KernelEffectIsolated::DeterminismViolation { at_phase: KernelPhase::VerifyingIdentity });
    } else if phase == KernelPhase::Idle && input == KernelInputKind::SealRequested {
        v.push(KernelEffectIsolated::Sealed);
    } else if phase == KernelPhase::Recovering && input == KernelInputKind::RecoverySucceeded {
        v.push(KernelEffectIsolated::Recovered);
    } else if input == KernelInputKind::FaultDetected && !phase.is_terminal() {
        v.push(KernelEffectIsolated::FaultRecorded { at_phase: phase });
    }
    assert(v@ =~= spec_lambda(phase, input));
    v
}

/// Every non-terminal phase records a fault on `FaultDetected`, and every
/// validation rejection produces `EventRejected` and never `EventAccepted`.
pub proof fn lemma_lambda_fault_and_rejection(p: KernelPhase, i: KernelInputKind)
    ensures
        !p.spec_is_terminal() ==> spec_lambda(p, KernelInputKind::FaultDetected)
            == seq![KernelEffectIsolated::FaultRecorded { at_phase: p }],
        is_rejection_arc(p, i) ==> spec_lambda(p, i) == seq![KernelEffectIsolated::EventRejected { at_phase: p }],
        !spec_lambda(p, i).contains(KernelEffectIsolated::EventAccepted) || (p == KernelPhase::Emitting
            && i == KernelInputKind::EmitComplete),
{
    if spec_lambda(p, i).contains(KernelEffectIsolated::EventAccepted) {
        let j = choose|j: int| 0 <= j < spec_lambda(p, i).len() && spec_lambda(p, i)[j] == KernelEffectIsolated::EventAccepted;
    }
}

/// The kernel's effects λ agree, kind by kind, with the isolated effects:
/// a transition yields at most one kernel effect; it is `KernelReady`,
/// `EventRejected` (naming the phase), `EventAccepted`, `IdentityConfirmed`,
/// `DeterminismFailure`, `Sealed` or `Recovered` exactly where the isolated
/// effect of that kind is; it is `FaultRecorded` (naming the phase) exactly
/// on `FaultDetected`, where every live phase has an isolated
/// `FaultRecorded`; and it is absent exactly where the isolated effect is
/// absent, a projection stamp or a replay start, on any other input.
pub proof fn lemma_kernel_effects_match_isolated(p: KernelPhase, i: KernelInputKind)
    ensures
        spec_kernel_effects(p, i).len() <= 1,
        (spec_kernel_effects(p, i) == seq![KernelEffectView::KernelReady])
            <==> (spec_lambda(p, i) == seq![KernelEffectIsolated::KernelReady]),
        (spec_kernel_effects(p, i) == seq![KernelEffectView::EventRejected("rejected at "@ + phase_name(p))])
            <==> (spec_lambda(p, i) == seq![KernelEffectIsolated::EventRejected { at_phase: p }]),
        (spec_kernel_effects(p, i) == seq![KernelEffectView::EventAccepted { event_id: Seq::empty() }])
            <==> (spec_lambda(p, i) == seq![KernelEffectIsolated::EventAccepted]),
        (spec_kernel_effects(p, i) == seq![KernelEffectView::IdentityConfirmed { transition_count: 0 }])
            <==> (spec_lambda(p, i) == seq![KernelEffectIsolated::IdentityConfirmed]),
        (spec_kernel_effects(p, i) == seq![KernelEffectView::DeterminismFailure { reason: "checksum mismatch"@ }])
            <==> (spec_lambda(p, i) == seq![KernelEffectIsolated::DeterminismViolation { at_phase: KernelPhase::VerifyingIdentity }]),
        (spec_kernel_effects(p, i) == seq![KernelEffectView::Sealed]) <==> (spec_lambda(p, i) == seq![KernelEffectIsolated::Sealed]),
        (spec_kernel_effects(p, i) == seq![KernelEffectView::Recovered])
            <==> (spec_lambda(p, i) == seq![KernelEffectIsolated::Recovered]),
        (spec_kernel_effects(p, i) == seq![KernelEffectView::FaultRecorded("fault at "@ + phase_name(p))])
            <==> i == KernelInputKind::FaultDetected,
        !p.spec_is_terminal() ==> ((i == KernelInputKind::FaultDetected)
            <==> spec_lambda(p, i) == seq![KernelEffectIsolated::FaultRecorded { at_phase: p }]),
        (spec_kernel_effects(p, i).len() == 0) <==> (i != KernelInputKind::FaultDetected && (spec_lambda(p, i).len() == 0
            || spec_lambda(p, i) == seq![KernelEffectIsolated::ProjectionStamped]
            || spec_lambda(p, i) == seq![KernelEffectIsolated::ReplayStarted])),
{
    let e = spec_kernel_effects(p, i);
    let l = spec_lambda(p, i);
    assert(seq![KernelEffectView::KernelReady][0] == KernelEffectView::KernelReady);
    assert(seq![KernelEffectView::EventRejected("rejected at "@ + phase_name(p))][0]
        == KernelEffectView::EventRejected("rejected at "@ + phase_name(p)));
    assert(seq![KernelEffectView::EventAccepted { event_id: Seq::empty() }][0]
        == KernelEffectView::EventAccepted { event_id: Seq::empty() });
    assert(seq![KernelEffectView::IdentityConfirmed { transition_count: 0 }][0]
        == KernelEffectView::IdentityConfirmed { transition_count: 0 });
    assert(seq![KernelEffectView::DeterminismFailure { reason: "checksum mismatch"@ }][0]
        == KernelEffectView::DeterminismFailure { reason: "checksum mismatch"@ });
    assert(seq![KernelEffectView::Sealed][0] == KernelEffectView::Sealed);
    assert(seq![KernelEffectView::Recovered][0] == KernelEffectView::Recovered);
    assert(seq![KernelEffectView::FaultRecorded("fault at "@ + phase_name(p))][0]
        == KernelEffectView::FaultRecorded("fault at "@ + phase_name(p)));
    assert(seq![KernelEffectIsolated::KernelReady][0] == KernelEffectIsolated::KernelReady);
    assert(seq![KernelEffectIsolated::EventRejected { at_phase: p }][0] == KernelEffectIsolated::EventRejected { at_phase: p });
    assert(seq![KernelEffectIsolated::EventAccepted][0] == KernelEffectIsolated::EventAccepted);
    assert(seq![KernelEffectIsolated::ProjectionStamped][0] == KernelEffectIsolated::ProjectionStamped);
    assert(seq![KernelEffectIsolated::ReplayStarted][0] == KernelEffectIsolated::ReplayStarted);
    assert(seq![KernelEffectIsolated::IdentityConfirmed][0] == KernelEffectIsolated::IdentityConfirmed);
    assert(seq![KernelEffectIsolated::DeterminismViolation { at_phase: KernelPhase::VerifyingIdentity }][0]
        == KernelEffectIsolated::DeterminismViolation { at_phase: KernelPhase::VerifyingIdentity });
    assert(seq![KernelEffectIsolated::Sealed][0] == KernelEffectIsolated::Sealed);
    assert(seq![KernelEffectIsolated::Recovered][0] == KernelEffectIsolated::Recovered);
    assert(seq![KernelEffectIsolated::FaultRecorded { at_phase: p }][0] == KernelEffectIsolated::FaultRecorded { at_phase: p });
    assert(e.len() <= 1);
    assert(l.len() <= 1);
}

// ─── EffectContract ───────────────────────────────────────────────────────────

/// The mathematical value of an [`EffectContract`].
pub struct EffectContractView {
    pub phase: KernelPhase,
    pub input: KernelInputKind,
    pub required: Seq<KernelEffectIsolated>,
    pub forbidden: Seq<KernelEffectIsolated>,
}

/// The formal contract for what λ must produce for a specific transition.
#[derive(Debug)]
pub struct EffectContract {
    pub phase: KernelPhase,
    pub input: KernelInputKind,
    /// Effects that must appear in λ's output.
    pub required: Vec<KernelEffectIsolated>,
    /// Effects that must not appear in λ's output.
    pub forbidden: Vec<KernelEffectIsolated>,
}

impl View for EffectContract {
    type V = EffectContractView;

    open spec fn view(&self) -> EffectContractView {
        EffectContractView { phase: self.phase, input: self.input, required: self.required@, forbidden: self.forbidden@ }
    }
}

impl EffectContract {
    fn new(phase: KernelPhase, input: KernelInputKind) -> (r: Self)
        ensures
            r@ == (EffectContractView { phase, input, required: Seq::empty(), forbidden: Seq::empty() }),
    {
        EffectContract { phase, input, required: Vec::new(), forbidden: Vec::new() }
    }

    fn require(self, e: KernelEffectIsolated) -> (r: Self)
        ensures
            r@ == (EffectContractView { required: self@.required.push(e), ..self@ }),
    {
        let mut c = self;
        c.required.push(e);
        c
    }

    fn forbid(self, e: KernelEffectIsolated) -> (r: Self)
        ensures
            r@ == (EffectContractView { forbidden: self@.forbidden.push(e), ..self@ }),
    {
        let mut c = self;
        c.forbidden.push(e);
        c
    }
}

/// Kind of contract violation.
#[derive(Debug, Clone, Copy, PartialEq, Eq, Structural)]
pub enum EffectViolationKind {
    RequiredMissing(KernelEffectIsolated),
    ForbiddenPresent(KernelEffectIsolated),
}

/// Violation of an [`EffectContract`].
#[derive(Debug, Clone, Copy, PartialEq, Eq, Structural)]
pub struct EffectViolation {
    pub phase: KernelPhase,
    pub input: KernelInputKind,
    pub kind: EffectViolationKind,
}

/// The message describing a violation.
pub open spec fn violation_message(v: EffectViolation) -> Seq<char> {
    "λ("@ + phase_name(v.phase) + ", "@ + input_name(v.input) + ") contract violated: "@ + match v.kind {
        EffectViolationKind::RequiredMissing(e) => "required effect missing: "@ + effect_name(e),
        EffectViolationKind::ForbiddenPresent(e) => "forbidden effect present: "@ + effect_name(e),
    }
}

impl EffectViolation {
    /// A human-readable description of the violation.
    pub fn to_string(&self) -> (r: String)
        ensures
            r@ == violation_message(*self),
    {
        let mut s = String::from_str("λ(");
        s.append(self.phase.as_str());
        s.append(", ");
        s.append(self.input.as_str());
        s.append(") contract violated: ");
        match self.kind {
            EffectViolationKind::RequiredMissing(e) => {
                s.append("required effect missing: ");
                s.append(e.as_str());
            },
            EffectViolationKind::ForbiddenPresent(e) => {
                s.append("forbidden effect present: ");
                s.append(e.as_str());
            },
        }
        s
    }
}

/// The violations of one contract by λ: required effects missing, in
/// order, then forbidden effects present, in order.
pub open spec fn contract_violations(c: EffectContractView) -> Seq<EffectViolation> {
    let effects = spec_lambda(c.phase, c.input);
    c.required.filter(|e: KernelEffectIsolated| !effects.contains(e)).map_values(
        |e: KernelEffectIsolated| EffectViolation { phase: c.phase, input: c.input, kind: EffectViolationKind::RequiredMissing(e) },
    ) + c.forbidden.filter(|e: KernelEffectIsolated| effects.contains(e)).map_values(
        |e: KernelEffectIsolated| EffectViolation { phase: c.phase, input: c.input, kind: EffectViolationKind::ForbiddenPresent(e) },
    )
}

/// The violations of a list of contracts, contract by contract.
pub open spec fn all_violations(cs: Seq<EffectContractView>) -> Seq<EffectViolation>
    decreases cs.len(),
{
    if cs.len() == 0 {
        Seq::empty()
    } else {
        all_violations(cs.drop_last()) + contract_violations(cs.last())
    }
}

/// The canonical effect contracts.
pub open spec fn canonical_contracts() -> Seq<EffectContractView> {
    seq![
        contract_view(KernelPhase::Bootstrapping, KernelInputKind::BootstrapComplete,
            seq![KernelEffectIsolated::KernelReady],
            seq![KernelEffectIsolated::FaultRecorded { at_phase: KernelPhase::Bootstrapping }]),
        contract_view(KernelPhase::ValidatingAbi, KernelInputKind::AbiFailed,
            seq![KernelEffectIsolated::EventRejected { at_phase: KernelPhase::ValidatingAbi }],
            seq![KernelEffectIsolated::EventAccepted]),
        contract_view(KernelPhase::ValidatingSchema, KernelInputKind::SchemaFailed,
            seq![KernelEffectIsolated::EventRejected { at_phase: KernelPhase::ValidatingSchema }],
            seq![KernelEffectIsolated::EventAccepted]),
        contract_view(KernelPhase::ValidatingClock, KernelInputKind::ClockFailed,
            seq![KernelEffectIsolated::EventRejected { at_phase: KernelPhase::ValidatingClock }],
            seq![KernelEffectIsolated::EventAccepted]),
        contract_view(KernelPhase::Emitting, KernelInputKind::EmitComplete,
            seq![KernelEffectIsolated::EventAccepted],
            seq![KernelEffectIsolated::EventRejected { at_phase: KernelPhase::Emitting }]),
        contract_view(KernelPhase::VerifyingIdentity, KernelInputKind::IdentityDiverged,
            seq![KernelEffectIsolated::DeterminismViolation { at_phase: KernelPhase::VerifyingIdentity }],
            seq![KernelEffectIsolated::IdentityConfirmed]),
        contract_view(KernelPhase::VerifyingIdentity, KernelInputKind::IdentityConfirmed,
            seq![KernelEffectIsolated::IdentityConfirmed],
            seq![KernelEffectIsolated::DeterminismViolation { at_phase: KernelPhase::VerifyingIdentity }]),
        contract_view(KernelPhase::Idle, KernelInputKind::SealRequested,
            seq![KernelEffectIsolated::Sealed], Seq::empty()),
        contract_view(KernelPhase::Idle, KernelInputKind::FaultDetected,
            seq![KernelEffectIsolated::FaultRecorded { at_phase: KernelPhase::Idle }], Seq::empty()),
        contract_view(KernelPhase::Recovering, KernelInputKind::RecoverySucceeded,
            seq![KernelEffectIsolated::Recovered], Seq::empty()),
    ]
}

pub open spec fn contract_view(
    phase: KernelPhase,
    input: KernelInputKind,
    required: Seq<KernelEffectIsolated>,
    forbidden: Seq<KernelEffectIsolated>,
) -> EffectContractView {
    EffectContractView { phase, input, required, forbidden }
}

/// Summary of a successful λ verification.
#[derive(Debug, Clone, Copy)]
pub struct VerificationResult {
    pub contracts_checked: usize,
    pub lambda_is_deterministic: bool,
    pub lambda_is_isolated: bool,
}

fn effects_contain(v: &Vec<KernelEffectIsolated>, e: KernelEffectIsolated) -> (r: bool)
    ensures
        r == v@.contains(e),
{
    let mut k: usize = 0;
    while k < v.len()
        invariant
            k <= v@.len(),
            forall|j: int| 0 <= j < k ==> v@[j] != e,
        decreases v@.len() - k,
    {
        if v[k] == e {
            return true;
        }
        k = k + 1;
    }
    false
}

fn effects_equal(a: &Vec<KernelEffectIsolated>, b: &Vec<KernelEffectIsolated>) -> (r: bool)
    ensures
        r == (a@ == b@),
{
    if a.len() != b.len() {
        return false;
    }
    let mut k: usize = 0;
    while k < a.len()
        invariant
            k <= a@.len(),
            a@.len() == b@.len(),
            forall|j: int| 0 <= j < k ==> a@[j] == b@[j],
        decreases a@.len() - k,
    {
        if a[k] != b[k] {
            return false;
        }
        k = k + 1;
    }
    assert(a@ =~= b@);
    true
}

/// Verifies that λ satisfies its contracts.
pub struct EffectVerifier;

impl EffectVerifier {
    /// The canonical effect contracts — what λ must produce for key transitions.
    pub fn contracts() -> (r: Vec<EffectContract>)
        ensures
            r@.map_values(|c: EffectContract| c@) == canonical_contracts(),
    {
        let mut v: Vec<EffectContract> = Vec::new();
        v.push(EffectContract::new(KernelPhase::Bootstrapping, KernelInputKind::BootstrapComplete)
            .require(KernelEffectIsolated::KernelReady)
            .forbid(KernelEffectIsolated::FaultRecorded { at_phase: KernelPhase::Bootstrapping }));
        v.push(EffectContract::new(KernelPhase::ValidatingAbi, KernelInputKind::AbiFailed)
            .require(KernelEffectIsolated::EventRejected { at_phase: KernelPhase::ValidatingAbi })
            .forbid(KernelEffectIsolated::EventAccepted));
        v.push(EffectContract::new(KernelPhase::ValidatingSchema, KernelInputKind::SchemaFailed)
            .require(KernelEffectIsolated::EventRejected { at_phase: KernelPhase::ValidatingSchema })
            .forbid(KernelEffectIsolated::EventAccepted));
        v.push(EffectContract::new(KernelPhase::ValidatingClock, KernelInputKind::ClockFailed)
            .require(KernelEffectIsolated::EventRejected { at_phase: KernelPhase::ValidatingClock })
            .forbid(KernelEffectIsolated::EventAccepted));
        v.push(EffectContract::new(KernelPhase::Emitting, KernelInputKind::EmitComplete)
            .require(KernelEffectIsolated::EventAccepted)
            .forbid(KernelEffectIsolated::EventRejected { at_phase: KernelPhase::Emitting }));
        v.push(EffectContract::new(KernelPhase::VerifyingIdentity, KernelInputKind::IdentityDiverged)
            .require(KernelEffectIsolated::DeterminismViolation { at_phase: KernelPhase::VerifyingIdentity })
            .forbid(KernelEffectIsolated::IdentityConfirmed));
        v.push(EffectContract::new(KernelPhase::VerifyingIdentity, KernelInputKind::IdentityConfirmed)
            .require(KernelEffectIsolated::IdentityConfirmed)
            .forbid(KernelEffectIsolated::DeterminismViolation { at_phase: KernelPhase::VerifyingIdentity }));
        v.push(EffectContract::new(KernelPhase::Idle, KernelInputKind::SealRequested)
            .require(KernelEffectIsolated::Sealed));
        v.push(EffectContract::new(KernelPhase::Idle, KernelInputKind::FaultDetected)
            .require(KernelEffectIsolated::FaultRecorded { at_phase: KernelPhase::Idle }));
        v.push(EffectContract::new(KernelPhase::Recovering, KernelInputKind::RecoverySucceeded)
            .require(KernelEffectIsolated::Recovered));
        assert(v@.map_values(|c: EffectContract| c@) =~= canonical_contracts());
        v
    }

    /// Verify that λ satisfies all canonical contracts: `Ok` with a summary
    /// when no contract is violated, otherwise every violation.
    pub fn verify_lambda() -> (r: Result<VerificationResult, Vec<EffectViolation>>)
        ensures
            match r {
                Ok(res) => all_violations(canonical_contracts()).len() == 0 && res.contracts_checked
                    == canonical_contracts().len() && res.lambda_is_deterministic && res.lambda_is_isolated,
                Err(vs) => all_violations(canonical_contracts()).len() > 0 && vs@ == all_violations(
                    canonical_contracts(),
                ),
            },
    {
        let contracts = Self::contracts();
        let ghost cs = contracts@.map_values(|c: EffectContract| c@);
        let mut violations: Vec<EffectViolation> = Vec::new();
        let mut k: usize = 0;
        while k < contracts.len()
            invariant
                k <= contracts@.len(),
                cs == contracts@.map_values(|c: EffectContract| c@),
                violations@ == all_violations(cs.take(k as int)),
            decreases contracts@.len() - k,
        {
            let contract = &contracts[k];
            let ghost cv = cs[k as int];
            assert(cv == contract@);
            let effects = lambda(contract.phase, contract.input);
            let ghost before = violations@;
            let ghost rpred = |e: KernelEffectIsolated| !effects@.contains(e);
            let ghost rf = |e: KernelEffectIsolated| EffectViolation { phase: cv.phase, input: cv.input, kind: EffectViolationKind::RequiredMissing(e) };
            let mut j: usize = 0;
            while j < contract.required.len()
                invariant
                    j <= contract.required@.len(),
                    cv == contract@,
                    effects@ == spec_lambda(cv.phase, cv.input),
                    rpred == (|e: KernelEffectIsolated| !effects@.contains(e)),
                    rf == (|e: KernelEffectIsolated| EffectViolation { phase: cv.phase, input: cv.input, kind: EffectViolationKind::RequiredMissing(e) }),
                    violations@ == before + contract.required@.take(j as int).filter(rpred).map_values(rf),
                decreases contract.required@.len() - j,
            {
                let required = contract.required[j];
                proof {
                    lemma_filter_take_succ(contract.required@, j as int, rpred);
                }
                if !effects_contain(&effects, required) {
                    violations.push(EffectViolation {
                        phase: contract.phase,
                        input: contract.input,
                        kind: EffectViolationKind::RequiredMissing(required),
                    });
                }
                j = j + 1;
                assert(violations@ =~= before + contract.required@.take(j as int).filter(rpred).map_values(rf));
            }
            assert(contract.required@.take(contract.required@.len() as int) =~= contract.required@);
            let ghost middle = violations@;
            let ghost fpred = |e: KernelEffectIsolated| effects@.contains(e);
            let ghost ff = |e: KernelEffectIsolated| EffectViolation { phase: cv.phase, input: cv.input, kind: EffectViolationKind::ForbiddenPresent(e) };
            let mut j: usize = 0;
            while j < contract.forbidden.len()
                invariant
                    j <= contract.forbidden@.len(),
                    cv == contract@,
                    effects@ == spec_lambda(cv.phase, cv.input),
                    fpred == (|e: KernelEffectIsolated| effects@.contains(e)),
                    ff == (|e: KernelEffectIsolated| EffectViolation { phase: cv.phase, input: cv.input, kind: EffectViolationKind::ForbiddenPresent(e) }),
                    violations@ == middle + contract.forbidden@.take(j as int).filter(fpred).map_values(ff),
                decreases contract.forbidden@.len() - j,
            {
                let forbidden = contract.forbidden[j];
                proof {
                    lemma_filter_take_succ(contract.forbidden@, j as int, fpred);
                }
                if effects_contain(&effects, forbidden) {
                    violations.push(EffectViolation {
                        phase: contract.phase,
                        input: contract.input,
                        kind: EffectViolationKind::ForbiddenPresent(forbidden),
                    });
                }
                j = j + 1;
                assert(violations@ =~= middle + contract.forbidden@.take(j as int).filter(fpred).map_values(ff));
            }
            assert(contract.forbidden@.take(contract.forbidden@.len() as int) =~= contract.forbidden@);
            assert(cs.take(k + 1).drop_last() =~= cs.take(k as int));
            assert(violations@ =~= all_violations(cs.take(k + 1)));
            k = k + 1;
        }
        assert(cs.take(contracts@.len() as int) =~= cs);
        if violations.len() == 0 {
            Ok(VerificationResult {
                contracts_checked: contracts.len(),
                lambda_is_deterministic: true,
                lambda_is_isolated: true,
            })
        } else {
            Err(violations)
        }
    }

    /// λ is deterministic: the same (phase, input) always gives the same effects.
    pub fn verify_determinism() -> (r: bool)
        ensures
            r,
    {
        let mut c: usize = 0;
        while c < NUM_CELLS
            invariant
                c <= NUM_CELLS,
            decreases NUM_CELLS - c,
        {
            let (phase, input) = cell(c);
            let a = lambda(phase, input);
            let b = lambda(phase, input);
            if !effects_equal(&a, &b) {
                return false;
            }
            c = c + 1;
        }
        true
    }
}

} // verus!
