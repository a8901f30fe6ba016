//! The runner of the kernel state machine: every state change goes through
//! `step`, which applies δ and λ, records faults, and appends to an
//! append-only history.

use vstd::prelude::*;
use crate::kernel_state::{
    KernelEffect, KernelEffectView, KernelInputKind, KernelPhase, effects_view, input_name, kernel_delta, kernel_effects,
    phase_name, spec_kernel_delta, spec_kernel_effects,
};
use crate::realm_id::RealmId;
use crate::ids::fresh_uuid;

verus! {

// ─── Outside items ───────────────────────────────────────────────────────────

/// A UTC instant: whole seconds since the Unix epoch and nanoseconds past them.
#[derive(Debug, Clone, Copy, PartialEq, Eq, Structural)]
pub struct Timestamp {
    pub secs: i64,
    pub nanos: u32,
}

/// `chrono::Utc::now`, read as seconds and nanoseconds since the Unix epoch
/// (`timestamp`, `timestamp_subsec_nanos`). The value is the system clock's;
/// of every outcome: the seconds are not negative (chrono panics if the
/// clock reads before 1970) and the nanoseconds are below 10⁹ (chrono takes
/// them from the duration since the epoch).
#[verifier::external_body]
pub(crate) fn now_utc() -> (r: Timestamp)
    ensures
        r.secs >= 0,
        r.nanos < 1_000_000_000,
{
    let now = chrono::Utc::now();
    Timestamp { secs: now.timestamp(), nanos: now.timestamp_subsec_nanos() }
}

// ─── Faults and records ──────────────────────────────────────────────────────

/// The class of a fault.
#[derive(Debug, Clone, Copy, PartialEq, Eq, Structural)]
pub enum KernelFaultKind {
    /// A transition the table does not list.
    InvalidTransition,
    /// Replay identity diverged.
    DeterminismViolation,
    /// A state transition invariant was violated.
    InvariantViolation,
    /// An external fault (hardware, network, …).
    ExternalFault,
}

/// A classified fault record.
#[derive(Debug, Clone)]
pub struct KernelFault {
    /// A fresh random UUID.
    pub id: String,
    pub kind: KernelFaultKind,
    pub phase_at_fault: KernelPhase,
    pub input_at_fault: KernelInputKind,
    pub message: String,
    pub realm_id: Option<RealmId>,
    /// When the fault was recorded.
    pub occurred_at: Timestamp,
}

impl KernelFault {
    fn new(kind: KernelFaultKind, phase: KernelPhase, input: KernelInputKind, msg: String) -> (r: Self)
        ensures
            r.kind == kind,
            r.phase_at_fault == phase,
            r.input_at_fault == input,
            r.message@ == msg@,
            r.realm_id is None,
            r.id@.len() == 36,
    {
        KernelFault {
            id: fresh_uuid(),
            kind,
            phase_at_fault: phase,
            input_at_fault: input,
            message: msg,
            realm_id: None,
            occurred_at: now_utc(),
        }
    }
}

/// A record of one δ invocation.
#[derive(Debug, Clone)]
pub struct TransitionRecord {
    /// Position in the machine's history, from 1.
    pub seq: u64,
    pub from_phase: KernelPhase,
    pub input: KernelInputKind,
    pub to_phase: KernelPhase,
    pub effects: Vec<KernelEffect>,
    pub context_lamport: u64,
    pub recorded_at: Timestamp,
}

/// A transition into `Faulted` from a live phase, on an input other than `FaultDetected`.
pub open spec fn spec_was_invalid(r: TransitionRecord) -> bool {
    r.from_phase != KernelPhase::Faulted && r.to_phase == KernelPhase::Faulted && r.input != KernelInputKind::FaultDetected
}

impl TransitionRecord {
    pub fn was_invalid(&self) -> (r: bool)
        ensures
            r == spec_was_invalid(*self),
    {
        self.from_phase != KernelPhase::Faulted && self.to_phase == KernelPhase::Faulted
            && self.input != KernelInputKind::FaultDetected
    }
}

/// The data context that travels with transitions.
#[derive(Debug, Clone)]
pub struct KernelContext {
    pub realm_id: RealmId,
    /// Lamport counter of the event in flight.
    pub current_lamport: u64,
    pub current_event_id: Option<String>,
    pub current_schema_id: Option<String>,
    /// Events accepted since the last reset.
    pub processed_count: u64,
    /// Events rejected since the last reset.
    pub rejected_count: u64,
    /// A fault is being recovered.
    pub in_recovery: bool,
}

impl KernelContext {
    pub fn new(realm_id: RealmId) -> (r: Self)
        ensures
            r.realm_id == realm_id,
            r.current_lamport == 0,
            r.current_event_id is None,
            r.current_schema_id is None,
            r.processed_count == 0,
            r.rejected_count == 0,
            !r.in_recovery,
    {
        KernelContext {
            realm_id,
            current_lamport: 0,
            current_event_id: None,
            current_schema_id: None,
            processed_count: 0,
            rejected_count: 0,
            in_recovery: false,
        }
    }
}

/// Why initialization failed.
#[derive(Debug, Clone, Copy, PartialEq, Eq, Structural)]
pub enum KernelInitError {
    /// The kernel had already left `Genesis`.
    AlreadyInitialized { current: KernelPhase },
    /// Initialization did not reach `Idle`.
    InitFailed { phase: KernelPhase },
}

// ─── KernelMachine ───────────────────────────────────────────────────────────

/// Does a step into `to` from `from` record a fault?
pub open spec fn records_fault(from: KernelPhase, to: KernelPhase) -> bool {
    from != KernelPhase::Faulted && from != KernelPhase::Sealed && to == KernelPhase::Faulted
}

/// The fault class of a faulting step.
pub open spec fn fault_kind(input: KernelInputKind) -> KernelFaultKind {
    if input == KernelInputKind::FaultDetected {
        KernelFaultKind::ExternalFault
    } else if input == KernelInputKind::IdentityDiverged {
        KernelFaultKind::DeterminismViolation
    } else {
        KernelFaultKind::InvalidTransition
    }
}

/// The message of a faulting step.
pub open spec fn fault_message(from: KernelPhase, input: KernelInputKind) -> Seq<char> {
    if input == KernelInputKind::FaultDetected {
        "fault detected at phase "@ + phase_name(from)
    } else if input == KernelInputKind::IdentityDiverged {
        "replay identity diverged at "@ + phase_name(from)
    } else {
        "undefined transition: "@ + phase_name(from) + " --"@ + input_name(input) + "-->"@
    }
}

/// The effects of a step: λ, and the fault notice when one is recorded.
pub open spec fn step_effects(from: KernelPhase, input: KernelInputKind) -> Seq<KernelEffectView> {
    if records_fault(from, spec_kernel_delta(from, input)) {
        spec_kernel_effects(from, input).push(KernelEffectView::FaultRecorded(fault_message(from, input)))
    } else {
        spec_kernel_effects(from, input)
    }
}

/// Does some effect accept an event?
pub open spec fn accepts(es: Seq<KernelEffectView>) -> bool {
    exists|k: int| 0 <= k < es.len() && #[trigger] es[k] is EventAccepted
}

/// Does some effect reject an event?
pub open spec fn rejects(es: Seq<KernelEffectView>) -> bool {
    exists|k: int| 0 <= k < es.len() && #[trigger] es[k] is EventRejected
}

/// The kernel state machine runner.
pub struct KernelMachine {
    pub phase: KernelPhase,
    pub context: KernelContext,
    /// Append-only history of all transitions.
    history: Vec<TransitionRecord>,
    /// Active faults: recorded on each fault, cleared on recovery
    /// (`Recovering` to `Idle`).
    pub faults: Vec<KernelFault>,
    seq_counter: u64,
}

fn copy_effects(v: &Vec<KernelEffect>) -> (r: Vec<KernelEffect>)
    ensures
        effects_view(r@) == effects_view(v@),
{
    let mut out: Vec<KernelEffect> = Vec::new();
    let mut k: usize = 0;
    while k < v.len()
        invariant
            k <= v@.len(),
            effects_view(out@) == effects_view(v@.take(k as int)),
        decreases v@.len() - k,
    {
        let e = match &v[k] {
            KernelEffect::KernelReady => KernelEffect::KernelReady,
            KernelEffect::EventRejected(s) => KernelEffect::EventRejected(s.clone()),
            KernelEffect::EventAccepted { event_id } => KernelEffect::EventAccepted { event_id: event_id.clone() },
            KernelEffect::ProjectionValid { projection_id } => KernelEffect::ProjectionValid { projection_id: projection_id.clone() },
            KernelEffect::ReplayStarted => KernelEffect::ReplayStarted,
            KernelEffect::IdentityConfirmed { transition_count } => KernelEffect::IdentityConfirmed { transition_count: *transition_count },
            KernelEffect::DeterminismFailure { reason } => KernelEffect::DeterminismFailure { reason: reason.clone() },
            KernelEffect::Sealed => KernelEffect::Sealed,
            KernelEffect::FaultRecorded(s) => KernelEffect::FaultRecorded(s.clone()),
            KernelEffect::Recovered => KernelEffect::Recovered,
        };
        let ghost before = out@;
        out.push(e);
        proof {
            assert(effects_view(out@) =~= effects_view(before).push(v@[k as int]@));
            assert(effects_view(v@.take(k + 1)) =~= effects_view(v@.take(k as int)).push(v@[k as int]@));
        }
        k = k + 1;
    }
    assert(v@.take(v@.len() as int) =~= v@);
    out
}

fn any_accepted(v: &Vec<KernelEffect>) -> (r: bool)
    ensures
        r == accepts(effects_view(v@)),
{
    let mut k: usize = 0;
    while k < v.len()
        invariant
            k <= v@.len(),
            forall|j: int| 0 <= j < k ==> !(#[trigger] effects_view(v@)[j] is EventAccepted),
        decreases v@.len() - k,
    {
        match &v[k] {
            KernelEffect::EventAccepted { .. } => {
                assert(effects_view(v@)[k as int] is EventAccepted);
                return true;
            },
            _ => {},
        }
        k = k + 1;
    }
    false
}

fn any_rejected(v: &Vec<KernelEffect>) -> (r: bool)
    ensures
        r == rejects(effects_view(v@)),
{
    let mut k: usize = 0;
    while k < v.len()
        invariant
            k <= v@.len(),
            forall|j: int| 0 <= j < k ==> !(#[trigger] effects_view(v@)[j] is EventRejected),
        decreases v@.len() - k,
    {
        match &v[k] {
            KernelEffect::EventRejected(_) => {
                assert(effects_view(v@)[k as int] is EventRejected);
                return true;
            },
            _ => {},
        }
        k = k + 1;
    }
    false
}

impl KernelMachine {
    /// The current phase.
    pub closed spec fn spec_phase(&self) -> KernelPhase {
        self.phase
    }

    /// The context.
    pub closed spec fn spec_context(&self) -> KernelContext {
        self.context
    }

    /// The faults recorded.
    pub closed spec fn spec_faults(&self) -> Seq<KernelFault> {
        self.faults@
    }

    /// The transitions so far, oldest first.
    pub closed spec fn spec_history(&self) -> Seq<TransitionRecord> {
        self.history@
    }

    /// The sequence number of the last transition.
    pub closed spec fn spec_seq(&self) -> u64 {
        self.seq_counter
    }

    /// A new kernel in `Genesis`.
    pub fn new(realm_id: RealmId) -> (r: Self)
        ensures
            r.spec_phase() == KernelPhase::Genesis,
            r.spec_context().realm_id == realm_id,
            r.spec_context().current_lamport == 0,
            r.spec_context().processed_count == 0,
            r.spec_context().rejected_count == 0,
            !r.spec_context().in_recovery,
            r.spec_history().len() == 0,
            r.spec_faults().len() == 0,
            r.spec_seq() == 0,
    {
        KernelMachine {
            phase: KernelPhase::Genesis,
            context: KernelContext::new(realm_id),
            history: Vec::new(),
            faults: Vec::new(),
            seq_counter: 0,
        }
    }

    /// Apply one input: δ(phase, input) becomes the phase, λ's effects are
    /// returned, a fault is recorded on a step into `Faulted` from a live
    /// phase, the active faults are cleared on a recovery into `Idle`, and
    /// the step is appended to the history.
    pub fn step(&mut self, input: KernelInputKind) -> (r: (KernelPhase, Vec<KernelEffect>))
        requires
            old(self).spec_seq() < u64::MAX,
            old(self).spec_context().processed_count < u64::MAX,
            old(self).spec_context().rejected_count < u64::MAX,
        ensures
            ({
                let from = old(self).spec_phase();
                let to = spec_kernel_delta(from, input);
                let es = step_effects(from, input);
                let ctx = old(self).spec_context();
                &&& r.0 == to
                &&& final(self).spec_phase() == to
                &&& effects_view(r.1@) == es
                &&& final(self).spec_seq() == old(self).spec_seq() + 1
                &&& final(self).spec_history().len() == old(self).spec_history().len() + 1
                &&& final(self).spec_history().drop_last() == old(self).spec_history()
                &&& final(self).spec_history().last().seq == final(self).spec_seq()
                &&& final(self).spec_history().last().from_phase == from
                &&& final(self).spec_history().last().input == input
                &&& final(self).spec_history().last().to_phase == to
                &&& effects_view(final(self).spec_history().last().effects@) == es
                &&& final(self).spec_history().last().context_lamport == ctx.current_lamport
                &&& if records_fault(from, to) {
                    &&& final(self).spec_faults().len() == old(self).spec_faults().len() + 1
                    &&& final(self).spec_faults().drop_last() == old(self).spec_faults()
                    &&& final(self).spec_faults().last().kind == fault_kind(input)
                    &&& final(self).spec_faults().last().phase_at_fault == from
                    &&& final(self).spec_faults().last().input_at_fault == input
                    &&& final(self).spec_faults().last().message@ == fault_message(from, input)
                    &&& final(self).spec_faults().last().realm_id is None
                } else if from == KernelPhase::Recovering && to == KernelPhase::Idle {
                    final(self).spec_faults().len() == 0
                } else {
                    final(self).spec_faults() == old(self).spec_faults()
                }
                &&& final(self).spec_context().processed_count == ctx.processed_count + (if accepts(es) { 1int } else { 0int })
                &&& final(self).spec_context().rejected_count == ctx.rejected_count + (if rejects(es) { 1int } else { 0int })
                &&& final(self).spec_context().in_recovery == (if to == KernelPhase::Recovering {
                    true
                } else if to == KernelPhase::Idle && from == KernelPhase::Recovering {
                    false
                } else {
                    ctx.in_recovery
                })
                &&& final(self).spec_context().realm_id == ctx.realm_id
                &&& final(self).spec_context().current_lamport == ctx.current_lamport
            }),
    {
        let from = self.phase;
        let new_phase = kernel_delta(from, input);
        let mut effects = kernel_effects(from, input);
        if from != KernelPhase::Faulted && from != KernelPhase::Sealed && new_phase == KernelPhase::Faulted {
            let kind;
            let mut msg;
            if input == KernelInputKind::FaultDetected {
                kind = KernelFaultKind::ExternalFault;
                msg = String::from_str("fault detected at phase ");
                msg.append(from.as_str());
            } else if input == KernelInputKind::IdentityDiverged {
                kind = KernelFaultKind::DeterminismViolation;
                msg = String::from_str("replay identity diverged at ");
                msg.append(from.as_str());
            } else {
                kind = KernelFaultKind::InvalidTransition;
                msg = String::from_str("undefined transition: ");
                msg.append(from.as_str());
                msg.append(" --");
                msg.append(input.as_str());
                msg.append("-->");
            }
            let fault = KernelFault::new(kind, from, input, msg);
            let ghost before = effects@;
            effects.push(KernelEffect::FaultRecorded(fault.message.clone()));
            proof {
                assert(effects_view(effects@) =~= effects_view(before).push(KernelEffectView::FaultRecorded(fault.message@)));
            }
            self.faults.push(fault);
        }
        self.seq_counter = self.seq_counter + 1;
        let recorded = copy_effects(&effects);
        self.history.push(TransitionRecord {
            seq: self.seq_counter,
            from_phase: from,
            input,
            to_phase: new_phase,
            effects: recorded,
            context_lamport: self.context.current_lamport,
            recorded_at: now_utc(),
        });
        if any_accepted(&effects) {
            self.context.processed_count = self.context.processed_count + 1;
        }
        if any_rejected(&effects) {
            self.context.rejected_count = self.context.rejected_count + 1;
        }
        if new_phase == KernelPhase::Recovering {
            self.context.in_recovery = true;
        }
        if new_phase == KernelPhase::Idle && from == KernelPhase::Recovering {
            self.context.in_recovery = false;
            self.faults = Vec::new();
        }
        self.phase = new_phase;
        proof {
            assert(self.history@.drop_last() =~= old(self).history@);
            if records_fault(from, new_phase) {
                assert(self.faults@.drop_last() =~= old(self).faults@);
            }
        }
        (new_phase, effects)
    }
}

/// The phase after applying the first `k` inputs from `p`.
pub open spec fn run_phase(p: KernelPhase, inputs: Seq<KernelInputKind>, k: int) -> KernelPhase
    decreases k,
{
    if k <= 0 {
        p
    } else {
        spec_kernel_delta(run_phase(p, inputs, k - 1), inputs[k - 1])
    }
}

/// `s` with runs of equal neighbours collapsed to one.
pub open spec fn dedup_runs(s: Seq<KernelPhase>) -> Seq<KernelPhase>
    decreases s.len(),
{
    if s.len() <= 1 {
        s
    } else if s[s.len() - 1] == s[s.len() - 2] {
        dedup_runs(s.drop_last())
    } else {
        dedup_runs(s.drop_last()).push(s.last())
    }
}

/// The happy path of one event through the pipeline.
pub open spec fn happy_path() -> Seq<KernelInputKind> {
    seq![
        KernelInputKind::EventArrived,
        KernelInputKind::AbiValid,
        KernelInputKind::SchemaValid,
        KernelInputKind::ClockValid,
        KernelInputKind::CapabilityGranted,
        KernelInputKind::CausalValid,
        KernelInputKind::DecisionAllow,
        KernelInputKind::TransitionApplied,
        KernelInputKind::ProjectionStamped,
        KernelInputKind::EmitComplete,
    ]
}

/// The last element of a deduplicated sequence is the sequence's last.
proof fn lemma_dedup_runs_last(s: Seq<KernelPhase>)
    requires
        s.len() > 0,
    ensures
        dedup_runs(s).len() > 0,
        dedup_runs(s).last() == s.last(),
    decreases s.len(),
{
    if s.len() > 1 {
        lemma_dedup_runs_last(s.drop_last());
    }
}

impl KernelMachine {
    /// Apply a sequence of inputs, in order; the (phase, effects) of each step.
    pub fn run(&mut self, inputs: &[KernelInputKind]) -> (r: Vec<(KernelPhase, Vec<KernelEffect>)>)
        requires
            old(self).spec_seq() + inputs@.len() <= u64::MAX,
            old(self).spec_context().processed_count + inputs@.len() <= u64::MAX,
            old(self).spec_context().rejected_count + inputs@.len() <= u64::MAX,
        ensures
            r@.len() == inputs@.len(),
            forall|k: int| 0 <= k < inputs@.len() ==> {
                &&& (#[trigger] r@[k]).0 == run_phase(old(self).spec_phase(), inputs@, k + 1)
                &&& effects_view(r@[k].1@) == step_effects(run_phase(old(self).spec_phase(), inputs@, k), inputs@[k])
            },
            final(self).spec_phase() == run_phase(old(self).spec_phase(), inputs@, inputs@.len() as int),
            final(self).spec_seq() == old(self).spec_seq() + inputs@.len(),
            final(self).spec_history().len() == old(self).spec_history().len() + inputs@.len(),
            final(self).spec_history().take(old(self).spec_history().len() as int) == old(self).spec_history(),
            final(self).spec_context().processed_count <= old(self).spec_context().processed_count + inputs@.len(),
            final(self).spec_context().rejected_count <= old(self).spec_context().rejected_count + inputs@.len(),
    {
        let ghost start = *self;
        let mut out: Vec<(KernelPhase, Vec<KernelEffect>)> = Vec::new();
        let mut k: usize = 0;
        while k < inputs.len()
            invariant
                k <= inputs@.len(),
                out@.len() == k,
                start.spec_seq() + inputs@.len() <= u64::MAX,
                start.spec_context().processed_count + inputs@.len() <= u64::MAX,
                start.spec_context().rejected_count + inputs@.len() <= u64::MAX,
                self.spec_seq() == start.spec_seq() + k,
                self.spec_context().processed_count <= start.spec_context().processed_count + k,
                self.spec_context().rejected_count <= start.spec_context().rejected_count + k,
                self.spec_phase() == run_phase(start.spec_phase(), inputs@, k as int),
                self.spec_history().len() == start.spec_history().len() + k,
                self.spec_history().take(start.spec_history().len() as int) == start.spec_history(),
                forall|j: int| 0 <= j < k ==> {
                    &&& (#[trigger] out@[j]).0 == run_phase(start.spec_phase(), inputs@, j + 1)
                    &&& effects_view(out@[j].1@) == step_effects(run_phase(start.spec_phase(), inputs@, j), inputs@[j])
                },
            decreases inputs@.len() - k,
        {
            let ghost before = self.spec_history();
            let step = self.step(inputs[k]);
            proof {
                assert(self.spec_history().take(start.spec_history().len() as int)
                    =~= before.take(start.spec_history().len() as int));
            }
            out.push(step);
            k = k + 1;
        }
        out
    }

    /// Initialize the kernel: `Genesis` → `Bootstrapping` → `Idle`.
    pub fn initialize(&mut self) -> (r: Result<(), KernelInitError>)
        requires
            old(self).spec_seq() + 2 <= u64::MAX,
            old(self).spec_context().processed_count + 2 <= u64::MAX,
            old(self).spec_context().rejected_count + 2 <= u64::MAX,
        ensures
            old(self).spec_phase() != KernelPhase::Genesis ==> r == Err::<(), KernelInitError>(
                KernelInitError::AlreadyInitialized { current: old(self).spec_phase() },
            ) && final(self).spec_history() == old(self).spec_history()
                && final(self).spec_phase() == old(self).spec_phase(),
            old(self).spec_phase() == KernelPhase::Genesis ==> r is Ok && final(self).spec_phase() == KernelPhase::Idle
                && final(self).spec_history().len() == old(self).spec_history().len() + 2
                && final(self).spec_seq() == old(self).spec_seq() + 2
                && final(self).spec_context().processed_count <= old(self).spec_context().processed_count + 2
                && final(self).spec_context().rejected_count <= old(self).spec_context().rejected_count + 2,
    {
        if self.phase != KernelPhase::Genesis {
            return Err(KernelInitError::AlreadyInitialized { current: self.phase });
        }
        proof {
            reveal_with_fuel(crate::kernel_state::table_lookup_from, 3);
        }
        self.step(KernelInputKind::Initialize);
        self.step(KernelInputKind::BootstrapComplete);
        if self.phase != KernelPhase::Idle {
            return Err(KernelInitError::InitFailed { phase: self.phase });
        }
        Ok(())
    }

    /// Run one event through the whole happy path of the pipeline.
    pub fn simulate_happy_path_event(&mut self) -> (r: Vec<(KernelPhase, Vec<KernelEffect>)>)
        requires
            old(self).spec_seq() + 10 <= u64::MAX,
            old(self).spec_context().processed_count + 10 <= u64::MAX,
            old(self).spec_context().rejected_count + 10 <= u64::MAX,
        ensures
            r@.len() == 10,
            final(self).spec_phase() == run_phase(old(self).spec_phase(), happy_path(), 10),
            final(self).spec_history().len() == old(self).spec_history().len() + 10,
            final(self).spec_history().take(old(self).spec_history().len() as int) == old(self).spec_history(),
            final(self).spec_seq() == old(self).spec_seq() + 10,
    {
        let inputs = [
            KernelInputKind::EventArrived,
            KernelInputKind::AbiValid,
            KernelInputKind::SchemaValid,
            KernelInputKind::ClockValid,
            KernelInputKind::CapabilityGranted,
            KernelInputKind::CausalValid,
            KernelInputKind::DecisionAllow,
            KernelInputKind::TransitionApplied,
            KernelInputKind::ProjectionStamped,
            KernelInputKind::EmitComplete,
        ];
        assert(inputs@ =~= happy_path());
        self.run(&inputs)
    }

    /// The transitions so far, oldest first.
    pub fn history(&self) -> (r: &Vec<TransitionRecord>)
        ensures
            r@ == self.spec_history(),
    {
        &self.history
    }

    pub fn history_len(&self) -> (r: usize)
        ensures
            r == self.spec_history().len(),
    {
        self.history.len()
    }

    /// The current phase.
    pub fn current_phase(&self) -> (r: KernelPhase)
        ensures
            r == self.spec_phase(),
    {
        self.phase
    }

    pub fn is_healthy(&self) -> (r: bool)
        ensures
            r == self.spec_phase().spec_is_healthy(),
    {
        self.phase.is_healthy()
    }

    pub fn is_sealed(&self) -> (r: bool)
        ensures
            r == (self.spec_phase() == KernelPhase::Sealed),
    {
        self.phase == KernelPhase::Sealed
    }

    pub fn is_faulted(&self) -> (r: bool)
        ensures
            r == (self.spec_phase() == KernelPhase::Faulted),
    {
        self.phase == KernelPhase::Faulted
    }

    pub fn fault_count(&self) -> (r: usize)
        ensures
            r == self.spec_faults().len(),
    {
        self.faults.len()
    }

    pub fn processed_count(&self) -> (r: u64)
        ensures
            r == self.spec_context().processed_count,
    {
        self.context.processed_count
    }

    pub fn rejected_count(&self) -> (r: u64)
        ensures
            r == self.spec_context().rejected_count,
    {
        self.context.rejected_count
    }

    /// The phases visited in order, each run of repeats collapsed: the
    /// `from` phase of every transition, then the current phase.
    pub fn phases_visited(&self) -> (r: Vec<KernelPhase>)
        ensures
            r@ == dedup_runs(self.spec_history().map_values(|t: TransitionRecord| t.from_phase).push(self.spec_phase())),
    {
        let ghost all = self.history@.map_values(|t: TransitionRecord| t.from_phase).push(self.phase);
        let n = self.history.len();
        let mut out: Vec<KernelPhase> = Vec::new();
        let mut k: usize = 0;
        while k < n
            invariant
                k <= n,
                n == self.history@.len(),
                all == self.history@.map_values(|t: TransitionRecord| t.from_phase).push(self.phase),
                out@ == dedup_runs(all.take(k as int)),
            decreases n - k,
        {
            let p = self.history[k].from_phase;
            proof {
                assert(all[k as int] == p);
                assert(all.take(k + 1).drop_last() =~= all.take(k as int));
                if k > 0 {
                    lemma_dedup_runs_last(all.take(k as int));
                    assert(all.take(k + 1)[k as int - 1] == all.take(k as int).last());
                }
            }
            if k == 0 || out[out.len() - 1] != p {
                out.push(p);
            }
            k = k + 1;
        }
        let p = self.phase;
        proof {
            assert(all[n as int] == p);
            assert(all.take(n + 1).drop_last() =~= all.take(n as int));
            if n > 0 {
                lemma_dedup_runs_last(all.take(n as int));
                assert(all.take(n + 1)[n as int - 1] == all.take(n as int).last());
            }
        }
        if n == 0 || out[out.len() - 1] != p {
            out.push(p);
        }
        assert(all.take(n + 1) =~= all);
        out
    }

    /// The recorded transitions into `Faulted` that the table does not list.
    pub fn invalid_transitions(&self) -> (r: Vec<&TransitionRecord>)
        ensures
            r@.map_values(|t: &TransitionRecord| *t) == self.spec_history().filter(|t: TransitionRecord| spec_was_invalid(t)),
    {
        let ghost pred = |t: TransitionRecord| spec_was_invalid(t);
        let mut out: Vec<&TransitionRecord> = Vec::new();
        let mut k: usize = 0;
        while k < self.history.len()
            invariant
                k <= self.history@.len(),
                pred == (|t: TransitionRecord| spec_was_invalid(t)),
                out@.map_values(|t: &TransitionRecord| *t) == self.history@.take(k as int).filter(pred),
            decreases self.history@.len() - k,
        {
            proof {
                crate::cells::lemma_filter_take_succ(self.history@, k as int, pred);
            }
            let t = &self.history[k];
            if t.was_invalid() {
                let ghost before = out@;
                out.push(t);
                proof {
                    assert(out@.map_values(|t: &TransitionRecord| *t) =~= before.map_values(|t: &TransitionRecord| *t).push(*t));
                }
            }
            k = k + 1;
        }
        assert(self.history@.take(self.history@.len() as int) =~= self.history@);
        out
    }
}

} // verus!
