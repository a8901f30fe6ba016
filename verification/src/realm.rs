//! The realm: the atomic execution unit. An event passes the pipeline, the
//! reducer computes the next state, the transition is recorded and the
//! ledger appended; if validation or the reducer fails, the state, the log
//! and the ledger are left exactly as they were.

use vstd::prelude::*;
use crate::json::{json_map_insert, json_object, json_string, json_u64, new_json_map, no_fields, object_value, string_value, u64_value};
use crate::event_ledger::{append_error_text, chain_debug_text, chain_text, first_broken, ChainVerification, EventLedger, LedgerAppendError, LedgerEntry};
use crate::kernel_machine::{dedup_runs, now_utc, step_effects, KernelMachine, Timestamp, TransitionRecord};
use crate::kernel_state::{effect_debug_text, effects_view, KernelEffect, KernelInputKind, KernelPhase, spec_kernel_delta};
use crate::pipeline::{pipeline_outcome, rejection_text, EventPipeline, KernelDecision, PipelineConfig, PipelineEvent};
use crate::projection_contract::{json_text, EventRange, MaterializerKernel};
use crate::realm_id::RealmId;
use crate::realm_state::RealmState;
use crate::rule_engine::RuleEngine;
use crate::state_transition::{
    apply_outcome, log_refusal, range_of, replay_steps, step_violation, transition_of, valid_step, verdict_of,
    ReplayIdentityProof, ReplayIdentityVerifier, ReplaySession, ReplayStep, StateTransition, TransitionLog,
    TransitionView,
};
use crate::invariants::violation_text;
use crate::text::decimal;
use crate::transition::{transition_error_text, TransitionError, TransitionErrorView};

verus! {

// ─── Outside items ───────────────────────────────────────────────────────────

/// The JSON object `{"realm": .., "version": .., "checksum": ..}` that
/// the realm stamps as its state projection.
pub open spec fn state_projection_value(realm: Seq<char>, version: u64, checksum: Seq<char>) -> serde_json::Value {
    json_object(
        no_fields().insert("realm"@, json_string(realm)).insert("version"@, json_u64(version)).insert(
            "checksum"@,
            json_string(checksum),
        ),
    )
}

/// Build the state projection object.
fn state_projection_data(realm: &str, version: u64, checksum: &str) -> (r: serde_json::Value)
    ensures
        r == state_projection_value(realm@, version, checksum@),
{
    let mut m = new_json_map();
    proof {
        reveal_strlit("realm");
        reveal_strlit("version");
        reveal_strlit("checksum");
    }
    json_map_insert(&mut m, String::from_str("realm"), string_value(realm));
    json_map_insert(&mut m, String::from_str("version"), u64_value(version));
    json_map_insert(&mut m, String::from_str("checksum"), string_value(checksum));
    object_value(m)
}

// ─── Results ─────────────────────────────────────────────────────────────────

/// How a submission ended.
#[derive(Debug, Clone, PartialEq, Eq)]
pub enum SubmitOutcome {
    /// Accepted: state updated, ledger appended.
    Committed,
    /// Refused by the kernel's validation; nothing changed.
    Rejected(String),
    /// An internal failure while applying.
    Failed(String),
}

impl SubmitOutcome {
    pub fn is_committed(&self) -> (r: bool)
        ensures
            r == (*self is Committed),
    {
        match self {
            SubmitOutcome::Committed => true,
            _ => false,
        }
    }

    pub fn is_rejected(&self) -> (r: bool)
        ensures
            r == (*self is Rejected),
    {
        match self {
            SubmitOutcome::Rejected(_) => true,
            _ => false,
        }
    }
}

/// The result of one atomic submission.
#[derive(Debug, Clone)]
pub struct RealmSubmitResult {
    pub event_id: String,
    pub lamport: u64,
    pub outcome: SubmitOutcome,
    pub phases_traversed: Vec<KernelPhase>,
    pub effects_emitted: Vec<String>,
    pub new_version: Option<u64>,
    pub committed_at: Timestamp,
}

/// The realm's consistency at one moment.
#[derive(Debug, Clone)]
pub struct RealmConsistencyProof {
    pub realm_id: RealmId,
    pub state_version: u64,
    pub ledger_len: u64,
    pub chain_verification: ChainVerification,
    pub consistent: bool,
    pub violations: Vec<String>,
}

// ─── The rules of a submission ───────────────────────────────────────────────

/// The phase after feeding `inputs`, in order, to δ from `p`.
pub open spec fn run_inputs(p: KernelPhase, inputs: Seq<KernelInputKind>) -> KernelPhase
    decreases inputs.len(),
{
    if inputs.len() == 0 {
        p
    } else {
        spec_kernel_delta(run_inputs(p, inputs.drop_last()), inputs.last())
    }
}

/// The inputs of an event that passed validation.
pub open spec fn validated_inputs() -> Seq<KernelInputKind> {
    seq![
        KernelInputKind::EventArrived,
        KernelInputKind::AbiValid,
        KernelInputKind::SchemaValid,
        KernelInputKind::ClockValid,
        KernelInputKind::CapabilityGranted,
        KernelInputKind::CausalValid,
        KernelInputKind::DecisionAllow,
    ]
}

/// The inputs of an event that was applied and stamped.
pub open spec fn stamped_inputs() -> Seq<KernelInputKind> {
    validated_inputs() + seq![KernelInputKind::TransitionApplied, KernelInputKind::ProjectionStamped]
}

/// Why the ledger refuses an append, as its message, if it does.
pub open spec fn ledger_refusal(es: Seq<LedgerEntry>, sealed: bool, event_id: Seq<char>, lamport: u64) -> Option<Seq<char>> {
    if sealed {
        Some(append_error_text(LedgerAppendError::Sealed))
    } else if es.len() > 0 && lamport <= es[es.len() - 1].lamport {
        Some(append_error_text(LedgerAppendError::LamportNotMonotone { tip: es[es.len() - 1].lamport, new: lamport }))
    } else if exists|k: int| 0 <= k < es.len() && (#[trigger] es[k]).event_id@ == event_id {
        Some("duplicate event_id: "@ + event_id)
    } else {
        None
    }
}

/// Where an event that passed validation ends, given what the reducer
/// returned.
pub enum SubmitPath {
    /// The reducer failed.
    ReducerFailed(TransitionErrorView),
    /// The new state broke the transition invariants.
    RecordFailed(TransitionErrorView),
    /// The transition log refused the transition.
    LogFailed(TransitionErrorView),
    /// The ledger refused the append; the state and the log were put back.
    LedgerFailed(Seq<char>),
    Committed,
}

/// The path of an event that passed validation.
pub open spec fn submit_path(
    state: RealmState,
    ts: Seq<TransitionView>,
    es: Seq<LedgerEntry>,
    sealed: bool,
    e: PipelineEvent,
    out: Result<RealmState, TransitionError>,
) -> SubmitPath {
    match out {
        Err(err) => SubmitPath::ReducerFailed(err@),
        Ok(next) => {
            if !valid_step(state, next) {
                SubmitPath::RecordFailed(TransitionErrorView::CausalityViolation(violation_text(step_violation(state, next))))
            } else {
                match log_refusal(ts, transition_of(e.event_id@, e.schema_id@, e.lamport, state, next)) {
                    Some(le) => SubmitPath::LogFailed(le),
                    None => match ledger_refusal(es, sealed, e.event_id@, e.lamport) {
                        Some(m) => SubmitPath::LedgerFailed(m),
                        None => SubmitPath::Committed,
                    },
                }
            }
        },
    }
}

/// The texts of a list of strings.
pub open spec fn string_texts(v: Seq<String>) -> Seq<Seq<char>> {
    v.map_values(|s: String| s@)
}

// ─── Realm ───────────────────────────────────────────────────────────────────

/// A realm: its state, ledger, kernel machine, transition log, projection
/// stamper, event pipeline and rule engine. The state changes only through
/// `submit_event`.
pub struct Realm {
    pub id: RealmId,
    pub label: String,
    state: RealmState,
    ledger: EventLedger,
    machine: KernelMachine,
    transition_log: TransitionLog,
    mat_kernel: MaterializerKernel,
    pipeline: EventPipeline,
    rule_engine: RuleEngine,
    submit_count: u64,
    reject_count: u64,
}

/// Feed one input to the machine, keeping track of the inputs fed so far.
fn advance(m: &mut KernelMachine, input: KernelInputKind, Ghost(p0): Ghost<KernelPhase>, Ghost(done): Ghost<Seq<KernelInputKind>>) -> (r: (
    KernelPhase,
    Vec<KernelEffect>,
))
    requires
        old(m).spec_phase() == run_inputs(p0, done),
        old(m).spec_seq() < u64::MAX,
        old(m).spec_context().processed_count < u64::MAX,
        old(m).spec_context().rejected_count < u64::MAX,
    ensures
        final(m).spec_phase() == run_inputs(p0, done.push(input)),
        final(m).spec_seq() == old(m).spec_seq() + 1,
        final(m).spec_context().processed_count <= old(m).spec_context().processed_count + 1,
        final(m).spec_context().rejected_count <= old(m).spec_context().rejected_count + 1,
        effects_view(r.1@) == step_effects(old(m).spec_phase(), input),
{
    let r = m.step(input);
    proof {
        assert(done.push(input).drop_last() =~= done);
    }
    r
}

impl Realm {
    pub closed spec fn spec_state(&self) -> RealmState {
        self.state
    }

    pub closed spec fn spec_ledger(&self) -> EventLedger {
        self.ledger
    }

    pub closed spec fn spec_machine(&self) -> KernelMachine {
        self.machine
    }

    pub closed spec fn spec_log(&self) -> Seq<TransitionView> {
        self.transition_log.spec_transitions()
    }

    pub closed spec fn spec_pipeline(&self) -> EventPipeline {
        self.pipeline
    }

    pub closed spec fn spec_stamps(&self) -> u64 {
        self.mat_kernel.lamport()
    }

    pub closed spec fn spec_submit_count(&self) -> u64 {
        self.submit_count
    }

    pub closed spec fn spec_reject_count(&self) -> u64 {
        self.reject_count
    }

    pub closed spec fn spec_id(&self) -> RealmId {
        self.id
    }

    pub closed spec fn spec_label(&self) -> Seq<char> {
        self.label@
    }

    /// The realm's invariant: the ledger is well formed.
    pub open spec fn wf(&self) -> bool {
        self.spec_ledger().wf()
    }

    /// The observer invariant: as many ledger entries as transitions, and as
    /// many as the state's version.
    pub open spec fn consistent(&self) -> bool {
        &&& self.spec_ledger().spec_entries().len() == self.spec_log().len()
        &&& self.spec_log().len() == self.spec_state().version
    }

    /// A realm with an empty state, ledger and log; its kernel is initialized
    /// to `Idle`, and its rule engine verified.
    pub fn new(id: RealmId, label: &str, pipeline_config: PipelineConfig) -> (r: Self)
        ensures
            r.wf(),
            r.consistent(),
            r.spec_id() == id,
            r.spec_label() == label@,
            r.spec_state().realm_id == id,
            r.spec_state().version == 0,
            r.spec_state().entities.spec_entries().len() == 0,
            r.spec_ledger().spec_entries().len() == 0,
            !r.spec_ledger().spec_sealed(),
            r.spec_log().len() == 0,
            r.spec_machine().spec_phase() == KernelPhase::Idle,
            r.spec_machine().spec_seq() == 2,
            r.spec_machine().spec_context().processed_count <= 2,
            r.spec_machine().spec_context().rejected_count <= 2,
            r.spec_pipeline().spec_config() == pipeline_config,
            r.spec_pipeline().spec_seen().len() == 0,
            r.spec_pipeline().spec_done().len() == 0,
            r.spec_pipeline().spec_processed_count() == 0,
            r.spec_pipeline().spec_rejected_count() == 0,
            r.spec_stamps() == 0,
            r.spec_submit_count() == 0,
            r.spec_reject_count() == 0,
    {
        let engine = RuleEngine::new();
        let _report = engine.verify();
        let mut machine = KernelMachine::new(id);
        let _ = machine.initialize();
        Realm {
            id,
            label: label.to_owned(),
            state: RealmState::empty(id),
            ledger: EventLedger::new(id),
            machine,
            transition_log: TransitionLog::new(id),
            mat_kernel: MaterializerKernel::new(),
            pipeline: EventPipeline::new(pipeline_config),
            rule_engine: engine,
            submit_count: 0,
            reject_count: 0,
        }
    }

    /// A realm with the open pipeline configuration.
    pub fn open(id: RealmId, label: &str) -> (r: Self)
        ensures
            r.wf(),
            r.consistent(),
            r.spec_id() == id,
            r.spec_label() == label@,
            r.spec_state().realm_id == id,
            r.spec_state().version == 0,
            r.spec_state().entities.spec_entries().len() == 0,
            r.spec_ledger().spec_entries().len() == 0,
            !r.spec_ledger().spec_sealed(),
            r.spec_log().len() == 0,
            r.spec_machine().spec_phase() == KernelPhase::Idle,
            r.spec_machine().spec_seq() == 2,
            r.spec_machine().spec_context().processed_count <= 2,
            r.spec_machine().spec_context().rejected_count <= 2,
            r.spec_pipeline().spec_config().spec_schemas().len() == 0,
            r.spec_pipeline().spec_config().spec_caps().len() == 0,
            r.spec_pipeline().spec_config().spec_abi_major() == 1,
            r.spec_pipeline().spec_seen().len() == 0,
            r.spec_pipeline().spec_done().len() == 0,
            r.spec_pipeline().spec_processed_count() == 0,
            r.spec_pipeline().spec_rejected_count() == 0,
            r.spec_stamps() == 0,
            r.spec_submit_count() == 0,
            r.spec_reject_count() == 0,
    {
        Self::new(id, label, PipelineConfig::new())
    }

    /// Submit one event atomically. The pipeline validates it (a rejection
    /// changes nothing but the counts, the pipeline's record and the kernel
    /// machine); the reducer computes the next state; the transition is
    /// recorded; the state is replaced; the ledger is appended, last. If the
    /// reducer, the transition invariants or the log refuse, the state, the
    /// log and the ledger stay as they were.
    #[verifier::rlimit(60)]
    pub fn submit_event<E, F: Fn(&RealmState, E) -> Result<RealmState, TransitionError>>(
        &mut self,
        pipeline_event: &PipelineEvent,
        reducer: F,
        event: E,
    ) -> (r: RealmSubmitResult)
        requires
            old(self).wf(),
            forall|s: &RealmState, e: E| reducer.requires((s, e)),
            old(self).spec_submit_count() < u64::MAX,
            old(self).spec_reject_count() < u64::MAX,
            old(self).spec_machine().spec_seq() + 12 <= u64::MAX,
            old(self).spec_machine().spec_context().processed_count + 12 <= u64::MAX,
            old(self).spec_machine().spec_context().rejected_count + 12 <= u64::MAX,
            old(self).spec_pipeline().spec_processed_count() < u64::MAX,
            old(self).spec_pipeline().spec_rejected_count() < u64::MAX,
            old(self).spec_stamps() < u64::MAX,
            old(self).spec_log().len() < u64::MAX,
            old(self).spec_state().version < u64::MAX,
            old(self).spec_ledger().spec_entries().len() < u64::MAX,
        ensures
            final(self).wf(),
            final(self).spec_id() == old(self).spec_id(),
            final(self).spec_label() == old(self).spec_label(),
            final(self).spec_submit_count() == old(self).spec_submit_count() + 1,
            final(self).spec_ledger().spec_sealed() == old(self).spec_ledger().spec_sealed(),
            final(self).spec_pipeline().spec_config() == old(self).spec_pipeline().spec_config(),
            r.event_id@ == pipeline_event.event_id@,
            r.lamport == pipeline_event.lamport,
            ({
                let pout = pipeline_outcome(
                    old(self).spec_pipeline().spec_config().spec_schemas(),
                    old(self).spec_pipeline().spec_config().spec_caps(),
                    old(self).spec_pipeline().spec_config().spec_abi_major(),
                    old(self).spec_pipeline().spec_seen(),
                    old(self).spec_pipeline().spec_done(),
                    *pipeline_event,
                );
                &&& final(self).spec_pipeline().spec_seen() == pout.1
                &&& final(self).spec_pipeline().spec_done() == pout.2
                &&& match pout.0 {
                    Some((stage, reason)) => {
                        &&& r.outcome matches SubmitOutcome::Rejected(m) && m@ == rejection_text(reason)
                        &&& r.phases_traversed@ == seq![KernelPhase::ValidatingAbi, KernelPhase::Idle]
                        &&& string_texts(r.effects_emitted@) == seq!["EventRejected"@]
                        &&& r.new_version is None
                        &&& final(self).spec_state() == old(self).spec_state()
                        &&& final(self).spec_log() == old(self).spec_log()
                        &&& final(self).spec_ledger().spec_entries() == old(self).spec_ledger().spec_entries()
                        &&& final(self).spec_reject_count() == old(self).spec_reject_count() + 1
                        &&& final(self).spec_machine().spec_phase() == run_inputs(
                            old(self).spec_machine().spec_phase(),
                            seq![KernelInputKind::EventArrived, KernelInputKind::AbiFailed],
                        )
                    },
                    None => exists|out: Result<RealmState, TransitionError>|
                        {
                            &&& reducer.ensures((&old(self).spec_state(), event), out)
                            &&& #[trigger] submitted(
                                *old(self),
                                *final(self),
                                *pipeline_event,
                                out,
                                submit_path(
                                    old(self).spec_state(),
                                    old(self).spec_log(),
                                    old(self).spec_ledger().spec_entries(),
                                    old(self).spec_ledger().spec_sealed(),
                                    *pipeline_event,
                                    out,
                                ),
                                r,
                            )
                        },
                }
            }),
    {
        let event_id = pipeline_event.event_id.clone();
        let lamport = pipeline_event.lamport;
        self.submit_count = self.submit_count + 1;
        let ghost p0 = self.machine.spec_phase();

        // Validation.
        let ghost none: Seq<KernelInputKind> = Seq::empty();
        let ghost v0: Seq<KernelInputKind> = seq![KernelInputKind::EventArrived];
        assert(none.push(KernelInputKind::EventArrived) =~= v0);
        advance(&mut self.machine, KernelInputKind::EventArrived, Ghost(p0), Ghost(none));
        let pipeline_result = self.pipeline.process(pipeline_event);
        match &pipeline_result.decision {
            KernelDecision::Reject(reason) => {
                advance(&mut self.machine, KernelInputKind::AbiFailed, Ghost(p0), Ghost(v0));
                self.reject_count = self.reject_count + 1;
                let text = reason.to_text();
                let mut phases = Vec::new();
                phases.push(KernelPhase::ValidatingAbi);
                phases.push(KernelPhase::Idle);
                let mut effects = Vec::new();
                effects.push(String::from_str("EventRejected"));
                proof {
                    reveal_strlit("EventRejected");
                    assert(string_texts(effects@) =~= seq!["EventRejected"@]);
                    assert(seq![KernelInputKind::EventArrived].push(KernelInputKind::AbiFailed) =~= seq![
                        KernelInputKind::EventArrived,
                        KernelInputKind::AbiFailed,
                    ]);
                }
                return RealmSubmitResult {
                    event_id,
                    lamport,
                    outcome: SubmitOutcome::Rejected(text),
                    phases_traversed: phases,
                    effects_emitted: effects,
                    new_version: None,
                    committed_at: now_utc(),
                };
            },
            _ => {},
        }
        advance(&mut self.machine, KernelInputKind::AbiValid, Ghost(p0), Ghost(v0));
        let ghost v1 = v0.push(KernelInputKind::AbiValid);
        advance(&mut self.machine, KernelInputKind::SchemaValid, Ghost(p0), Ghost(v1));
        let ghost v2 = v1.push(KernelInputKind::SchemaValid);
        advance(&mut self.machine, KernelInputKind::ClockValid, Ghost(p0), Ghost(v2));
        let ghost v3 = v2.push(KernelInputKind::ClockValid);
        advance(&mut self.machine, KernelInputKind::CapabilityGranted, Ghost(p0), Ghost(v3));
        let ghost v4 = v3.push(KernelInputKind::CapabilityGranted);
        advance(&mut self.machine, KernelInputKind::CausalValid, Ghost(p0), Ghost(v4));
        let ghost v5 = v4.push(KernelInputKind::CausalValid);
        advance(&mut self.machine, KernelInputKind::DecisionAllow, Ghost(p0), Ghost(v5));
        let ghost vd = v5.push(KernelInputKind::DecisionAllow);
        assert(vd =~= validated_inputs());

        // The reducer, on a candidate only.
        let out = reducer(&self.state, event);
        let ghost path = submit_path(
            self.state,
            self.transition_log.spec_transitions(),
            self.ledger.spec_entries(),
            self.ledger.spec_sealed(),
            *pipeline_event,
            out,
        );
        let candidate = match out {
            Ok(next) => next,
            Err(e) => {
                advance(&mut self.machine, KernelInputKind::TransitionFailed, Ghost(p0), Ghost(vd));
                let ghost vf = vd.push(KernelInputKind::TransitionFailed);
                advance(&mut self.machine, KernelInputKind::RecoverySucceeded, Ghost(p0), Ghost(vf));
                let text = e.to_text();
                let mut effects = Vec::new();
                effects.push(String::from_str("TransitionFailed"));
                proof {
                    reveal_strlit("TransitionFailed");
                    assert(string_texts(effects@) =~= seq!["TransitionFailed"@]);
                }
                let result = RealmSubmitResult {
                    event_id,
                    lamport,
                    outcome: SubmitOutcome::Failed(text),
                    phases_traversed: self.machine.phases_visited(),
                    effects_emitted: effects,
                    new_version: None,
                    committed_at: now_utc(),
                };
                proof {
                    assert(vf.push(KernelInputKind::RecoverySucceeded) =~= validated_inputs() + seq![
                        KernelInputKind::TransitionFailed,
                        KernelInputKind::RecoverySucceeded,
                    ]);
                    assert(path == SubmitPath::ReducerFailed(e@));
                    assert(self.state == old(self).state);
                    assert(reducer.ensures((&old(self).spec_state(), event), out));
                    assert(submitted(*old(self), *self, *pipeline_event, out, path, result));
                }
                return result;
            },
        };
        advance(&mut self.machine, KernelInputKind::TransitionApplied, Ghost(p0), Ghost(vd));
        let ghost va = vd.push(KernelInputKind::TransitionApplied);

        // Stamp the candidate's projection.
        let range = if self.transition_log.is_empty() {
            EventRange::single(lamport)
        } else {
            self.transition_log.event_range().extend(lamport)
        };
        let mut projection_id = String::from_str(self.id.as_str());
        projection_id.append("-state");
        let checksum = candidate.checksum();
        let data = state_projection_data(self.id.as_str(), candidate.version, checksum.as_str());
        let _contract = self.mat_kernel.stamp(projection_id.as_str(), self.id.as_str(), range, &data);
        advance(&mut self.machine, KernelInputKind::ProjectionStamped, Ghost(p0), Ghost(va));
        let ghost vs = va.push(KernelInputKind::ProjectionStamped);
        assert(vs =~= stamped_inputs());

        // Commit: record the transition.
        let transition = match StateTransition::record(
            event_id.as_str(),
            pipeline_event.schema_id.as_str(),
            lamport,
            &self.state,
            &candidate,
        ) {
            Ok(t) => t,
            Err(e) => {
                advance(&mut self.machine, KernelInputKind::FaultDetected, Ghost(p0), Ghost(vs));
                let mut text = String::from_str("transition record failed: ");
                let m = e.to_text();
                text.append(m.as_str());
                let result = RealmSubmitResult {
                    event_id,
                    lamport,
                    outcome: SubmitOutcome::Failed(text),
                    phases_traversed: self.machine.phases_visited(),
                    effects_emitted: Vec::new(),
                    new_version: None,
                    committed_at: now_utc(),
                };
                proof {
                    reveal_strlit("transition record failed: ");
                    assert(self.state == old(self).state);
                    assert(path == SubmitPath::RecordFailed(e@));
                    assert(reducer.ensures((&old(self).spec_state(), event), out));
                    assert(submitted(*old(self), *self, *pipeline_event, out, path, result));
                }
                return result;
            },
        };
        match self.transition_log.record(transition) {
            Ok(()) => {},
            Err(e) => {
                advance(&mut self.machine, KernelInputKind::FaultDetected, Ghost(p0), Ghost(vs));
                let mut text = String::from_str("log record failed: ");
                let m = e.to_text();
                text.append(m.as_str());
                let result = RealmSubmitResult {
                    event_id,
                    lamport,
                    outcome: SubmitOutcome::Failed(text),
                    phases_traversed: self.machine.phases_visited(),
                    effects_emitted: Vec::new(),
                    new_version: None,
                    committed_at: now_utc(),
                };
                proof {
                    reveal_strlit("log record failed: ");
                    assert(self.state == old(self).state);
                    assert(path == SubmitPath::LogFailed(e@));
                    assert(reducer.ensures((&old(self).spec_state(), event), out));
                    assert(submitted(*old(self), *self, *pipeline_event, out, path, result));
                }
                return result;
            },
        }

        // Apply the state, keeping the previous one until the ledger takes
        // the event.
        let new_version = candidate.version;
        let mut previous = candidate;
        std::mem::swap(&mut self.state, &mut previous);

        // Append to the ledger: the last change.
        let appended = self.ledger.append(
            event_id.as_str(),
            pipeline_event.schema_id.as_str(),
            lamport,
            pipeline_event.payload_hash.as_str(),
            pipeline_event.payload.clone(),
            pipeline_event.producer.as_str(),
            pipeline_event.causal_parent.clone(),
        );
        match appended {
            Ok(_) => {},
            Err(e) => {
                // The ledger refused the event: take the state and the log
                // back to what they were.
                self.state = previous;
                self.transition_log.undo_last();
                let m = e.to_text();
                advance(&mut self.machine, KernelInputKind::FaultDetected, Ghost(p0), Ghost(vs));
                let mut text = String::from_str("ledger append failed: ");
                text.append(m.as_str());
                let result = RealmSubmitResult {
                    event_id,
                    lamport,
                    outcome: SubmitOutcome::Failed(text),
                    phases_traversed: self.machine.phases_visited(),
                    effects_emitted: Vec::new(),
                    new_version: None,
                    committed_at: now_utc(),
                };
                proof {
                    reveal_strlit("ledger append failed: ");
                    reveal_strlit("duplicate event_id: ");
                    assert(path == SubmitPath::LedgerFailed(append_error_text(e)));
                    assert(self.spec_state() == old(self).spec_state());
                    assert(self.spec_log() == old(self).spec_log());
                    assert(self.spec_ledger().spec_entries() == old(self).spec_ledger().spec_entries());
                    assert(result.new_version is None);
                    assert(reducer.ensures((&old(self).spec_state(), event), out));
                    assert(submitted(*old(self), *self, *pipeline_event, out, path, result));
                }
                return result;
            },
        }

        // Complete the machine's cycle.
        let (_, effects) = advance(&mut self.machine, KernelInputKind::EmitComplete, Ghost(p0), Ghost(vs));
        let mut texts: Vec<String> = Vec::new();
        let mut k: usize = 0;
        while k < effects.len()
            invariant
                k <= effects@.len(),
                texts@.len() == k,
                forall|j: int| 0 <= j < k ==> (#[trigger] texts@[j])@ == effect_debug_text(effects@[j]@),
            decreases effects@.len() - k,
        {
            texts.push(effects[k].debug_text());
            k = k + 1;
        }
        let result = RealmSubmitResult {
            event_id,
            lamport,
            outcome: SubmitOutcome::Committed,
            phases_traversed: self.machine.phases_visited(),
            effects_emitted: texts,
            new_version: Some(new_version),
            committed_at: now_utc(),
        };
        proof {
            assert(path == SubmitPath::Committed);
            assert(string_texts(result.effects_emitted@) =~= step_effects(run_inputs(p0, stamped_inputs()), KernelInputKind::EmitComplete).map_values(
                |x: crate::kernel_state::KernelEffectView| effect_debug_text(x),
            ));
            assert(reducer.ensures((&old(self).spec_state(), event), out));
            assert(submitted(*old(self), *self, *pipeline_event, out, path, result));
        }
        result
    }
}

/// A state as `RealmState::empty` makes it for a realm.
pub open spec fn empty_start(s: RealmState, id: RealmId) -> bool {
    &&& s.realm_id == id
    &&& s.version == 0
    &&& s.timestamp is None
    &&& s.event_hash is None
    &&& s.entities.spec_entries().len() == 0
    &&& json_text(s.metadata) == "null"@
}

/// Whether step `k` of a replay from `start` was taken: the step's outcome
/// on the state and log the earlier steps left.
pub open spec fn step_result(start: RealmState, steps: Seq<ReplayStep>, k: int) -> Result<(), TransitionErrorView> {
    let prev = replay_steps(start, Seq::empty(), steps.take(k));
    apply_outcome(prev.0, prev.1, steps[k].0, steps[k].1, steps[k].2, steps[k].3).0
}

/// The replay of the ledger's first `steps.len()` entries from `start`: step
/// `k` carries entry `k`'s event id, schema id and Lamport counter; its event
/// is what `factory` made of the single-event range at that counter, the
/// counter and the entry's payload; its outcome is what `reducer` gave on
/// the state the earlier steps left and that event; every step before the
/// last was taken.
pub open spec fn replay_run<
    E,
    F: Fn(&RealmState, E) -> Result<RealmState, TransitionError>,
    G: Fn(&EventRange, u64, &serde_json::Value) -> E,
>(reducer: F, factory: G, start: RealmState, entries: Seq<LedgerEntry>, events: Seq<E>, steps: Seq<ReplayStep>) -> bool {
    &&& events.len() == steps.len()
    &&& steps.len() <= entries.len()
    &&& forall|k: int| 0 <= k < steps.len() ==> {
        &&& (#[trigger] steps[k]).0 == entries[k].event_id@
        &&& steps[k].1 == entries[k].schema_id@
        &&& steps[k].2 == entries[k].lamport
        &&& factory.ensures(
            (
                &EventRange { from_lamport: entries[k].lamport, to_lamport: entries[k].lamport, event_count: 1 },
                entries[k].lamport,
                &entries[k].payload,
            ),
            events[k],
        )
        &&& reducer.ensures((&replay_steps(start, Seq::empty(), steps.take(k)).0, events[k]), steps[k].3)
    }
    &&& forall|k: int| 0 <= k < steps.len() - 1 ==> #[trigger] step_result(start, steps, k) is Ok
}

impl Realm {
    /// Replay every ledger entry through the reducer, from an empty state,
    /// and compare with the transition log. If an entry cannot be replayed,
    /// the verdict is `Diverged` with the rebuilt checksum `REPLAY_FAILED`
    /// at that entry's Lamport counter; otherwise it is the verifier's
    /// verdict on the rebuilt state.
    pub fn verify_replay_identity<
        E,
        F: Fn(&RealmState, E) -> Result<RealmState, TransitionError>,
        G: Fn(&EventRange, u64, &serde_json::Value) -> E,
    >(&self, reducer: F, event_factory: G) -> (r: ReplayIdentityProof)
        requires
            forall|s: &RealmState, e: E| reducer.requires((s, e)),
            forall|g: &EventRange, l: u64, v: &serde_json::Value| event_factory.requires((g, l, v)),
        ensures
            exists|start: RealmState, events: Seq<E>, steps: Seq<ReplayStep>|
                {
                    &&& empty_start(start, self.spec_id())
                    &&& #[trigger] replay_run(reducer, event_factory, start, self.spec_ledger().spec_entries(), events, steps)
                    &&& if steps.len() > 0 && step_result(start, steps, steps.len() - 1) is Err {
                        r matches ReplayIdentityProof::Diverged {
                            event_range,
                            original_checksum,
                            rebuilt_checksum,
                            diverged_at_lamport,
                        } && event_range == range_of(self.spec_log()) && original_checksum@ == self.spec_state().spec_checksum()
                            && rebuilt_checksum@ == "REPLAY_FAILED"@ && diverged_at_lamport == Some(
                            self.spec_ledger().spec_entries()[steps.len() - 1].lamport,
                        )
                    } else {
                        &&& steps.len() == self.spec_ledger().spec_entries().len()
                        &&& verdict_of(self.spec_log(), replay_steps(start, Seq::empty(), steps).0, r)
                    }
                },
    {
        let mut session = ReplaySession::from(RealmState::empty(self.id));
        let ghost start = session.current_state;
        let ghost mut events: Seq<E> = Seq::empty();
        let ghost mut steps: Seq<ReplayStep> = Seq::empty();
        let entries = self.ledger.entries();
        proof {
            assert(session.log.spec_transitions() =~= Seq::<TransitionView>::empty());
        }
        let mut k: usize = 0;
        while k < entries.len()
            invariant
                k <= entries@.len(),
                entries@ == self.spec_ledger().spec_entries(),
                empty_start(start, self.spec_id()),
                session.current_state.version == k,
                steps.len() == k,
                replay_run(reducer, event_factory, start, entries@, events, steps),
                forall|j: int| 0 <= j < k ==> #[trigger] step_result(start, steps, j) is Ok,
                session.current_state == replay_steps(start, Seq::empty(), steps).0,
                session.log.spec_transitions() == replay_steps(start, Seq::empty(), steps).1,
                forall|s: &RealmState, e: E| reducer.requires((s, e)),
                forall|g: &EventRange, l: u64, v: &serde_json::Value| event_factory.requires((g, l, v)),
            decreases entries@.len() - k,
        {
            let entry = &entries[k];
            let range = EventRange::single(entry.lamport);
            let ev = event_factory(&range, entry.lamport, &entry.payload);
            let ghost before = session;
            let applied = session.apply(&reducer, entry.event_id.as_str(), entry.schema_id.as_str(), entry.lamport, ev);
            let ghost out = choose|out: Result<RealmState, TransitionError>|
                {
                    &&& (&reducer).ensures((&before.current_state, ev), out)
                    &&& #[trigger] apply_outcome(
                        before.current_state,
                        before.log.spec_transitions(),
                        entry.event_id@,
                        entry.schema_id@,
                        entry.lamport,
                        out,
                    ) == (
                        match applied {
                            Ok(()) => Ok(()),
                            Err(e) => Err(e@),
                        },
                        session.current_state,
                        session.log.spec_transitions(),
                    )
                };
            let ghost old_steps = steps;
            proof {
                steps = steps.push((entry.event_id@, entry.schema_id@, entry.lamport, out));
                events = events.push(ev);
                assert(steps.take(k as int) =~= old_steps);
                assert(steps.drop_last() =~= old_steps);
                assert forall|j: int| 0 <= j < k implies steps.take(j) =~= old_steps.take(j) by {}
                assert forall|j: int| 0 <= j < k implies #[trigger] steps[j] == old_steps[j] by {}
                assert forall|j: int| 0 <= j < k implies #[trigger] step_result(start, steps, j) == step_result(start, old_steps, j) by {
                    assert(steps.take(j) =~= old_steps.take(j));
                }
                assert(replay_run(reducer, event_factory, start, entries@, events, steps));
            }
            match applied {
                Ok(()) => {},
                Err(_) => {
                    let mut failed = String::new();
                    failed.append("REPLAY_FAILED");
                    proof {
                        reveal_strlit("REPLAY_FAILED");
                        assert(step_result(start, steps, k as int) is Err);
                    }
                    return ReplayIdentityProof::Diverged {
                        event_range: self.transition_log.event_range(),
                        original_checksum: self.state.checksum(),
                        rebuilt_checksum: failed,
                        diverged_at_lamport: Some(entry.lamport),
                    };
                },
            }
            proof {
                assert(step_result(start, steps, k as int) is Ok);
            }
            k = k + 1;
        }
        let verdict = ReplayIdentityVerifier::verify(&self.transition_log, &session.current_state);
        proof {
            assert(verdict_of(self.spec_log(), session.current_state, verdict));
        }
        verdict
    }

    /// Check the observer invariant and the hash chain: the ledger has as
    /// many entries as the state's version and as the log has transitions,
    /// and its chain is intact.
    pub fn verify_consistency(&self) -> (r: RealmConsistencyProof)
        ensures
            r.realm_id == self.spec_id(),
            r.state_version == self.spec_state().version,
            r.ledger_len == self.spec_ledger().spec_entries().len(),
            (r.chain_verification is Valid) == (first_broken(self.spec_ledger().spec_entries()) is None),
            string_texts(r.violations@) == consistency_violations(
                self.spec_state().version,
                self.spec_ledger().spec_entries().len() as u64,
                self.spec_log().len() as u64,
                r.chain_verification,
            ),
            r.consistent == (r.violations@.len() == 0),
            r.consistent == (self.consistent() && first_broken(self.spec_ledger().spec_entries()) is None),
    {
        let state_version = self.state.version;
        let ledger_len = self.ledger.len() as u64;
        let chain = self.ledger.verify_chain();
        let log_len = self.transition_log.len() as u64;
        let mut violations: Vec<String> = Vec::new();
        proof {
            reveal_strlit("ledger.len()=");
            reveal_strlit(" ≠ state.version=");
            reveal_strlit("chain broken: ");
            reveal_strlit("transition_log.len()=");
            reveal_strlit(" ≠ ledger.len()=");
        }
        if ledger_len != state_version {
            let mut m = String::from_str("ledger.len()=");
            crate::text::push_decimal_u64(&mut m, ledger_len);
            m.append(" ≠ state.version=");
            crate::text::push_decimal_u64(&mut m, state_version);
            violations.push(m);
        }
        let ghost after_first = string_texts(violations@);
        if !chain.is_valid() {
            let mut m = String::from_str("chain broken: ");
            let d = chain.debug_text();
            m.append(d.as_str());
            violations.push(m);
        }
        let ghost after_second = string_texts(violations@);
        if log_len != ledger_len {
            let mut m = String::from_str("transition_log.len()=");
            crate::text::push_decimal_u64(&mut m, log_len);
            m.append(" ≠ ledger.len()=");
            crate::text::push_decimal_u64(&mut m, ledger_len);
            violations.push(m);
        }
        proof {
            assert(string_texts(violations@) =~= consistency_violations(state_version, ledger_len, log_len, chain));
        }
        let consistent = violations.len() == 0;
        RealmConsistencyProof { realm_id: self.id, state_version, ledger_len, chain_verification: chain, consistent, violations }
    }

    // ── Introspection ────────────────────────────────────────────────────

    pub fn state(&self) -> (r: &RealmState)
        ensures
            *r == self.spec_state(),
    {
        &self.state
    }

    pub fn ledger(&self) -> (r: &EventLedger)
        ensures
            *r == self.spec_ledger(),
    {
        &self.ledger
    }

    pub fn machine(&self) -> (r: &KernelMachine)
        ensures
            *r == self.spec_machine(),
    {
        &self.machine
    }

    pub fn current_version(&self) -> (r: u64)
        ensures
            r == self.spec_state().version,
    {
        self.state.version
    }

    pub fn current_phase(&self) -> (r: KernelPhase)
        ensures
            r == self.spec_machine().spec_phase(),
    {
        self.machine.current_phase()
    }

    pub fn submit_count(&self) -> (r: u64)
        ensures
            r == self.spec_submit_count(),
    {
        self.submit_count
    }

    pub fn reject_count(&self) -> (r: u64)
        ensures
            r == self.spec_reject_count(),
    {
        self.reject_count
    }

    pub fn is_healthy(&self) -> (r: bool)
        ensures
            r == self.spec_machine().spec_phase().spec_is_healthy(),
    {
        self.machine.is_healthy()
    }

    /// Seal the realm: the kernel takes `SealRequested` and the ledger takes
    /// no further appends.
    pub fn seal(&mut self)
        requires
            old(self).wf(),
            old(self).spec_machine().spec_seq() < u64::MAX,
            old(self).spec_machine().spec_context().processed_count < u64::MAX,
            old(self).spec_machine().spec_context().rejected_count < u64::MAX,
        ensures
            final(self).wf(),
            final(self).spec_ledger().spec_sealed(),
            final(self).spec_ledger().spec_entries() == old(self).spec_ledger().spec_entries(),
            final(self).spec_machine().spec_phase() == spec_kernel_delta(
                old(self).spec_machine().spec_phase(),
                KernelInputKind::SealRequested,
            ),
            final(self).spec_state() == old(self).spec_state(),
            final(self).spec_log() == old(self).spec_log(),
    {
        self.machine.step(KernelInputKind::SealRequested);
        self.ledger.seal();
    }
}

/// The violations `verify_consistency` reports, in order.
pub open spec fn consistency_violations(state_version: u64, ledger_len: u64, log_len: u64, chain: ChainVerification) -> Seq<
    Seq<char>,
> {
    let a: Seq<Seq<char>> = if ledger_len != state_version {
        seq!["ledger.len()="@ + decimal(ledger_len as nat) + " ≠ state.version="@ + decimal(state_version as nat)]
    } else {
        Seq::empty()
    };
    let b: Seq<Seq<char>> = if chain is Broken {
        seq!["chain broken: "@ + chain_debug_text(chain)]
    } else {
        Seq::empty()
    };
    let c: Seq<Seq<char>> = if log_len != ledger_len {
        seq!["transition_log.len()="@ + decimal(log_len as nat) + " ≠ ledger.len()="@ + decimal(ledger_len as nat)]
    } else {
        Seq::empty()
    };
    a + b + c
}

/// What a submission that passed validation leaves, given the reducer's
/// result `out` and the path it takes.
pub open spec fn submitted(
    before: Realm,
    after: Realm,
    e: PipelineEvent,
    out: Result<RealmState, TransitionError>,
    path: SubmitPath,
    r: RealmSubmitResult,
) -> bool {
    let phase_at = |inputs: Seq<KernelInputKind>| run_inputs(before.spec_machine().spec_phase(), inputs);
    let visited = dedup_runs(
        after.spec_machine().spec_history().map_values(|t: TransitionRecord| t.from_phase).push(after.spec_machine().spec_phase()),
    );
    &&& after.spec_reject_count() == before.spec_reject_count()
    &&& r.phases_traversed@ == visited
    &&& match path {
        SubmitPath::ReducerFailed(err) => {
            &&& r.outcome matches SubmitOutcome::Failed(m) && m@ == transition_error_text(err)
            &&& string_texts(r.effects_emitted@) == seq!["TransitionFailed"@]
            &&& r.new_version is None
            &&& after.spec_state() == before.spec_state()
            &&& after.spec_log() == before.spec_log()
            &&& after.spec_ledger().spec_entries() == before.spec_ledger().spec_entries()
            &&& after.spec_machine().spec_phase() == phase_at(
                validated_inputs() + seq![KernelInputKind::TransitionFailed, KernelInputKind::RecoverySucceeded],
            )
        },
        SubmitPath::RecordFailed(err) => {
            &&& r.outcome matches SubmitOutcome::Failed(m) && m@ == "transition record failed: "@ + transition_error_text(err)
            &&& r.effects_emitted@.len() == 0
            &&& r.new_version is None
            &&& after.spec_state() == before.spec_state()
            &&& after.spec_log() == before.spec_log()
            &&& after.spec_ledger().spec_entries() == before.spec_ledger().spec_entries()
            &&& after.spec_machine().spec_phase() == phase_at(stamped_inputs().push(KernelInputKind::FaultDetected))
        },
        SubmitPath::LogFailed(err) => {
            &&& r.outcome matches SubmitOutcome::Failed(m) && m@ == "log record failed: "@ + transition_error_text(err)
            &&& r.effects_emitted@.len() == 0
            &&& r.new_version is None
            &&& after.spec_state() == before.spec_state()
            &&& after.spec_log() == before.spec_log()
            &&& after.spec_ledger().spec_entries() == before.spec_ledger().spec_entries()
            &&& after.spec_machine().spec_phase() == phase_at(stamped_inputs().push(KernelInputKind::FaultDetected))
        },
        SubmitPath::LedgerFailed(text) => {
            &&& r.outcome matches SubmitOutcome::Failed(m) && m@ == "ledger append failed: "@ + text
            &&& r.effects_emitted@.len() == 0
            &&& r.new_version is None
            &&& after.spec_state() == before.spec_state()
            &&& after.spec_log() == before.spec_log()
            &&& after.spec_ledger().spec_entries() == before.spec_ledger().spec_entries()
            &&& after.spec_machine().spec_phase() == phase_at(stamped_inputs().push(KernelInputKind::FaultDetected))
        },
        SubmitPath::Committed => {
            let es = before.spec_ledger().spec_entries();
            let n = es.len();
            let last = after.spec_ledger().spec_entries()[n as int];
            &&& r.outcome is Committed
            &&& string_texts(r.effects_emitted@) == step_effects(phase_at(stamped_inputs()), KernelInputKind::EmitComplete).map_values(
                |x: crate::kernel_state::KernelEffectView| effect_debug_text(x),
            )
            &&& out matches Ok(next) && after.spec_state() == next && r.new_version == Some(next.version)
                && after.spec_log() == before.spec_log().push(
                transition_of(e.event_id@, e.schema_id@, e.lamport, before.spec_state(), next),
            )
            &&& after.spec_ledger().spec_entries().len() == n + 1
            &&& after.spec_ledger().spec_entries().take(n as int) == es
            &&& last.seq == n && last.event_id@ == e.event_id@ && last.schema_id@ == e.schema_id@ && last.lamport == e.lamport
            &&& last.payload_hash@ == e.payload_hash@ && last.producer@ == e.producer@ && last.causal_parent == e.causal_parent
            &&& last.payload == e.payload
            &&& last.chain_hash@ == chain_text(e.event_id@, e.payload_hash@, before.spec_ledger().spec_tip())
            &&& after.spec_machine().spec_phase() == phase_at(stamped_inputs().push(KernelInputKind::EmitComplete))
        },
    }
}


// ─── Laws ────────────────────────────────────────────────────────────────────

/// Feeding one more input applies δ once more.
proof fn lemma_run_push(p: KernelPhase, s: Seq<KernelInputKind>, i: KernelInputKind)
    ensures
        run_inputs(p, s.push(i)) == spec_kernel_delta(run_inputs(p, s), i),
{
    assert(s.push(i).drop_last() =~= s);
}

/// The arcs of δ one event follows.
proof fn lemma_event_arcs()
    ensures
        spec_kernel_delta(KernelPhase::Idle, KernelInputKind::EventArrived) == KernelPhase::ValidatingAbi,
        spec_kernel_delta(KernelPhase::ValidatingAbi, KernelInputKind::AbiFailed) == KernelPhase::Idle,
        spec_kernel_delta(KernelPhase::ValidatingAbi, KernelInputKind::AbiValid) == KernelPhase::ValidatingSchema,
        spec_kernel_delta(KernelPhase::ValidatingSchema, KernelInputKind::SchemaValid) == KernelPhase::ValidatingClock,
        spec_kernel_delta(KernelPhase::ValidatingClock, KernelInputKind::ClockValid) == KernelPhase::ValidatingCapability,
        spec_kernel_delta(KernelPhase::ValidatingCapability, KernelInputKind::CapabilityGranted) == KernelPhase::ValidatingCausal,
        spec_kernel_delta(KernelPhase::ValidatingCausal, KernelInputKind::CausalValid) == KernelPhase::Deciding,
        spec_kernel_delta(KernelPhase::Deciding, KernelInputKind::DecisionAllow) == KernelPhase::Applying,
        spec_kernel_delta(KernelPhase::Applying, KernelInputKind::TransitionFailed) == KernelPhase::Recovering,
        spec_kernel_delta(KernelPhase::Recovering, KernelInputKind::RecoverySucceeded) == KernelPhase::Idle,
        spec_kernel_delta(KernelPhase::Applying, KernelInputKind::TransitionApplied) == KernelPhase::Stamping,
        spec_kernel_delta(KernelPhase::Stamping, KernelInputKind::ProjectionStamped) == KernelPhase::Emitting,
        spec_kernel_delta(KernelPhase::Emitting, KernelInputKind::EmitComplete) == KernelPhase::Idle,
        spec_kernel_delta(KernelPhase::Emitting, KernelInputKind::FaultDetected) == KernelPhase::Faulted,
{
    lemma_arc_idle_event_arrived();
    lemma_arc_validating_abi_abi_failed();
    lemma_arc_validating_abi_abi_valid();
    lemma_arc_validating_schema_schema_valid();
    lemma_arc_validating_clock_clock_valid();
    lemma_arc_validating_capability_capability_granted();
    lemma_arc_validating_causal_causal_valid();
    lemma_arc_deciding_decision_allow();
    lemma_arc_applying_transition_failed();
    lemma_arc_recovering_recovery_succeeded();
    lemma_arc_applying_transition_applied();
    lemma_arc_stamping_projection_stamped();
    lemma_arc_emitting_emit_complete();
    lemma_arc_emitting_fault_detected();
}

proof fn lemma_arc_idle_event_arrived()
    ensures
        spec_kernel_delta(KernelPhase::Idle, KernelInputKind::EventArrived) == KernelPhase::ValidatingAbi,
{
    reveal_with_fuel(crate::kernel_state::table_lookup_from, 46);
}

proof fn lemma_arc_validating_abi_abi_failed()
    ensures
        spec_kernel_delta(KernelPhase::ValidatingAbi, KernelInputKind::AbiFailed) == KernelPhase::Idle,
{
    reveal_with_fuel(crate::kernel_state::table_lookup_from, 46);
}

proof fn lemma_arc_validating_abi_abi_valid()
    ensures
        spec_kernel_delta(KernelPhase::ValidatingAbi, KernelInputKind::AbiValid) == KernelPhase::ValidatingSchema,
{
    reveal_with_fuel(crate::kernel_state::table_lookup_from, 46);
}

proof fn lemma_arc_validating_schema_schema_valid()
    ensures
        spec_kernel_delta(KernelPhase::ValidatingSchema, KernelInputKind::SchemaValid) == KernelPhase::ValidatingClock,
{
    reveal_with_fuel(crate::kernel_state::table_lookup_from, 46);
}

proof fn lemma_arc_validating_clock_clock_valid()
    ensures
        spec_kernel_delta(KernelPhase::ValidatingClock, KernelInputKind::ClockValid) == KernelPhase::ValidatingCapability,
{
    reveal_with_fuel(crate::kernel_state::table_lookup_from, 46);
}

proof fn lemma_arc_validating_capability_capability_granted()
    ensures
        spec_kernel_delta(KernelPhase::ValidatingCapability, KernelInputKind::CapabilityGranted) == KernelPhase::ValidatingCausal,
{
    reveal_with_fuel(crate::kernel_state::table_lookup_from, 46);
}

proof fn lemma_arc_validating_causal_causal_valid()
    ensures
        spec_kernel_delta(KernelPhase::ValidatingCausal, KernelInputKind::CausalValid) == KernelPhase::Deciding,
{
    reveal_with_fuel(crate::kernel_state::table_lookup_from, 46);
}

proof fn lemma_arc_deciding_decision_allow()
    ensures
        spec_kernel_delta(KernelPhase::Deciding, KernelInputKind::DecisionAllow) == KernelPhase::Applying,
{
    reveal_with_fuel(crate::kernel_state::table_lookup_from, 46);
}

proof fn lemma_arc_applying_transition_failed()
    ensures
        spec_kernel_delta(KernelPhase::Applying, KernelInputKind::TransitionFailed) == KernelPhase::Recovering,
{
    reveal_with_fuel(crate::kernel_state::table_lookup_from, 46);
}

proof fn lemma_arc_recovering_recovery_succeeded()
    ensures
        spec_kernel_delta(KernelPhase::Recovering, KernelInputKind::RecoverySucceeded) == KernelPhase::Idle,
{
    reveal_with_fuel(crate::kernel_state::table_lookup_from, 46);
}

proof fn lemma_arc_applying_transition_applied()
    ensures
        spec_kernel_delta(KernelPhase::Applying, KernelInputKind::TransitionApplied) == KernelPhase::Stamping,
{
    reveal_with_fuel(crate::kernel_state::table_lookup_from, 46);
}

proof fn lemma_arc_stamping_projection_stamped()
    ensures
        spec_kernel_delta(KernelPhase::Stamping, KernelInputKind::ProjectionStamped) == KernelPhase::Emitting,
{
    reveal_with_fuel(crate::kernel_state::table_lookup_from, 46);
}

proof fn lemma_arc_emitting_emit_complete()
    ensures
        spec_kernel_delta(KernelPhase::Emitting, KernelInputKind::EmitComplete) == KernelPhase::Idle,
{
    reveal_with_fuel(crate::kernel_state::table_lookup_from, 46);
}

proof fn lemma_arc_emitting_fault_detected()
    ensures
        spec_kernel_delta(KernelPhase::Emitting, KernelInputKind::FaultDetected) == KernelPhase::Faulted,
{
    reveal_with_fuel(crate::kernel_state::table_lookup_from, 46);
}

/// From `Idle`, validation ends in `Applying`, and stamping in `Emitting`.
proof fn lemma_validated_and_stamped()
    ensures
        run_inputs(KernelPhase::Idle, validated_inputs()) == KernelPhase::Applying,
        run_inputs(KernelPhase::Idle, stamped_inputs()) == KernelPhase::Emitting,
{
    lemma_event_arcs();
    let e: Seq<KernelInputKind> = Seq::empty();
    let s1 = e.push(KernelInputKind::EventArrived);
    let s2 = s1.push(KernelInputKind::AbiValid);
    let s3 = s2.push(KernelInputKind::SchemaValid);
    let s4 = s3.push(KernelInputKind::ClockValid);
    let s5 = s4.push(KernelInputKind::CapabilityGranted);
    let s6 = s5.push(KernelInputKind::CausalValid);
    let s7 = s6.push(KernelInputKind::DecisionAllow);
    lemma_run_push(KernelPhase::Idle, e, KernelInputKind::EventArrived);
    lemma_run_push(KernelPhase::Idle, s1, KernelInputKind::AbiValid);
    lemma_run_push(KernelPhase::Idle, s2, KernelInputKind::SchemaValid);
    lemma_run_push(KernelPhase::Idle, s3, KernelInputKind::ClockValid);
    lemma_run_push(KernelPhase::Idle, s4, KernelInputKind::CapabilityGranted);
    lemma_run_push(KernelPhase::Idle, s5, KernelInputKind::CausalValid);
    lemma_run_push(KernelPhase::Idle, s6, KernelInputKind::DecisionAllow);
    assert(s7 =~= validated_inputs());
    let s8 = s7.push(KernelInputKind::TransitionApplied);
    let s9 = s8.push(KernelInputKind::ProjectionStamped);
    lemma_run_push(KernelPhase::Idle, s7, KernelInputKind::TransitionApplied);
    lemma_run_push(KernelPhase::Idle, s8, KernelInputKind::ProjectionStamped);
    assert(s9 =~= stamped_inputs());
}

/// From `Idle`, the kernel is back in `Idle` after an event is rejected,
/// after the reducer fails (it recovers), and after a commit.
pub proof fn lemma_idle_after_each_event()
    ensures
        run_inputs(KernelPhase::Idle, seq![KernelInputKind::EventArrived, KernelInputKind::AbiFailed]) == KernelPhase::Idle,
        run_inputs(
            KernelPhase::Idle,
            validated_inputs() + seq![KernelInputKind::TransitionFailed, KernelInputKind::RecoverySucceeded],
        ) == KernelPhase::Idle,
        run_inputs(KernelPhase::Idle, stamped_inputs().push(KernelInputKind::EmitComplete)) == KernelPhase::Idle,
{
    lemma_event_arcs();
    lemma_validated_and_stamped();
    let e: Seq<KernelInputKind> = Seq::empty();
    lemma_run_push(KernelPhase::Idle, e, KernelInputKind::EventArrived);
    lemma_run_push(KernelPhase::Idle, e.push(KernelInputKind::EventArrived), KernelInputKind::AbiFailed);
    assert(e.push(KernelInputKind::EventArrived).push(KernelInputKind::AbiFailed) =~= seq![
        KernelInputKind::EventArrived,
        KernelInputKind::AbiFailed,
    ]);
    let v = validated_inputs();
    lemma_run_push(KernelPhase::Idle, v, KernelInputKind::TransitionFailed);
    lemma_run_push(KernelPhase::Idle, v.push(KernelInputKind::TransitionFailed), KernelInputKind::RecoverySucceeded);
    assert(v.push(KernelInputKind::TransitionFailed).push(KernelInputKind::RecoverySucceeded) =~= v + seq![
        KernelInputKind::TransitionFailed,
        KernelInputKind::RecoverySucceeded,
    ]);
    lemma_run_push(KernelPhase::Idle, stamped_inputs(), KernelInputKind::EmitComplete);
}

/// From `Idle`, a failure after the candidate was stamped (the transition
/// invariants, the log or the ledger refusing) leaves the kernel `Faulted`.
pub proof fn lemma_late_failure_faults()
    ensures
        run_inputs(KernelPhase::Idle, stamped_inputs().push(KernelInputKind::FaultDetected)) == KernelPhase::Faulted,
{
    lemma_event_arcs();
    lemma_validated_and_stamped();
    lemma_run_push(KernelPhase::Idle, stamped_inputs(), KernelInputKind::FaultDetected);
}

/// Zero dual-truth drift: a submission that passed validation keeps the
/// observer invariant (as many ledger entries as transitions as the state's
/// version) unless the ledger refused the append after the state was
/// applied.
pub proof fn lemma_submit_keeps_consistency(
    before: Realm,
    after: Realm,
    e: PipelineEvent,
    out: Result<RealmState, TransitionError>,
    r: RealmSubmitResult,
)
    requires
        before.consistent(),
        submitted(
            before,
            after,
            e,
            out,
            submit_path(
                before.spec_state(),
                before.spec_log(),
                before.spec_ledger().spec_entries(),
                before.spec_ledger().spec_sealed(),
                e,
                out,
            ),
            r,
        ),
        !(submit_path(
            before.spec_state(),
            before.spec_log(),
            before.spec_ledger().spec_entries(),
            before.spec_ledger().spec_sealed(),
            e,
            out,
        ) is LedgerFailed),
    ensures
        after.consistent(),
{
}

/// A rejected submission leaves the state, the log and the ledger as they
/// were, so a consistent realm stays consistent.
pub proof fn lemma_rejection_keeps_consistency(before: Realm, after: Realm)
    requires
        before.consistent(),
        after.spec_state() == before.spec_state(),
        after.spec_log() == before.spec_log(),
        after.spec_ledger().spec_entries() == before.spec_ledger().spec_entries(),
    ensures
        after.consistent(),
{
}

} // verus!
