//! δ compression by algebraic rule patterns.
//!
//! Six patterns (absorbing, escape, universal fault, pipeline advance,
//! rejection to idle, explicit arc) generate transition entries; the
//! [`RuleEngine`] synthesizes a table from them and checks it against the
//! explicit transition table.

use vstd::prelude::*;
use crate::kernel_state::{
    input_at, table_entry, transition_entry, KernelInputKind, KernelPhase, NUM_CELLS, NUM_INPUTS,
    TABLE_LEN,
};
use crate::cells::{all_cells, cell, cell_at, lemma_cell_index, lemma_filter_take_succ, Cell};

verus! {

/// A generated transition: (from, input, to).
pub type Entry = (KernelPhase, KernelInputKind, KernelPhase);

/// All inputs in definition order.
pub open spec fn all_inputs() -> Seq<KernelInputKind> {
    Seq::new(NUM_INPUTS as nat, |k: int| input_at(k))
}

/// The mathematical value of a [`RulePattern`].
pub enum PatternView {
    Absorbing { phase: KernelPhase, except: Seq<KernelInputKind> },
    Escape { from: KernelPhase, on: KernelInputKind, to: KernelPhase },
    UniversalFault { from_phases: Seq<KernelPhase> },
    PipelineAdvance { steps: Seq<Entry> },
    RejectionToIdle { phases_and_inputs: Seq<Cell> },
    Explicit { from: KernelPhase, on: KernelInputKind, to: KernelPhase },
}

/// An algebraic rule pattern — generates one or more transition entries.
/// The set of excepted inputs of an absorbing pattern is held as a list.
#[derive(Debug)]
pub enum RulePattern {
    /// Absorbing state: phase + any input not excepted → phase.
    Absorbing { phase: KernelPhase, except: Vec<KernelInputKind> },
    /// Escape from an absorbing state: (from, on) → to.
    Escape { from: KernelPhase, on: KernelInputKind, to: KernelPhase },
    /// `FaultDetected` from any listed phase → `Faulted`.
    UniversalFault { from_phases: Vec<KernelPhase> },
    /// Each pipeline step (phase, success input) → next phase.
    PipelineAdvance { steps: Vec<Entry> },
    /// Each (phase, failure input) → `Idle`.
    RejectionToIdle { phases_and_inputs: Vec<Cell> },
    /// A residual arc.
    Explicit { from: KernelPhase, on: KernelInputKind, to: KernelPhase },
}

impl View for RulePattern {
    type V = PatternView;

    open spec fn view(&self) -> PatternView {
        match self {
            RulePattern::Absorbing { phase, except } => PatternView::Absorbing { phase: *phase, except: except@ },
            RulePattern::Escape { from, on, to } => PatternView::Escape { from: *from, on: *on, to: *to },
            RulePattern::UniversalFault { from_phases } => PatternView::UniversalFault { from_phases: from_phases@ },
            RulePattern::PipelineAdvance { steps } => PatternView::PipelineAdvance { steps: steps@ },
            RulePattern::RejectionToIdle { phases_and_inputs } => PatternView::RejectionToIdle { phases_and_inputs: phases_and_inputs@ },
            RulePattern::Explicit { from, on, to } => PatternView::Explicit { from: *from, on: *on, to: *to },
        }
    }
}

impl PatternView {
    /// The entries the pattern generates, in order.
    pub open spec fn entries(self) -> Seq<Entry> {
        match self {
            PatternView::Absorbing { phase, except } => all_inputs().filter(
                |i: KernelInputKind| !except.contains(i),
            ).map_values(|i: KernelInputKind| (phase, i, phase)),
            PatternView::Escape { from, on, to } => seq![(from, on, to)],
            PatternView::UniversalFault { from_phases } => from_phases.map_values(
                |p: KernelPhase| (p, KernelInputKind::FaultDetected, KernelPhase::Faulted),
            ),
            PatternView::PipelineAdvance { steps } => steps,
            PatternView::RejectionToIdle { phases_and_inputs } => phases_and_inputs.map_values(
                |c: Cell| (c.0, c.1, KernelPhase::Idle),
            ),
            PatternView::Explicit { from, on, to } => seq![(from, on, to)],
        }
    }
}

/// The mathematical value of a [`TransitionRule`].
pub struct TransitionRuleView {
    pub name: Seq<char>,
    pub priority: u8,
    pub pattern: PatternView,
}

/// A named rule with its pattern; a lower priority number is applied first.
#[derive(Debug)]
pub struct TransitionRule {
    pub name: &'static str,
    pub priority: u8,
    pub pattern: RulePattern,
}

impl View for TransitionRule {
    type V = TransitionRuleView;

    open spec fn view(&self) -> TransitionRuleView {
        TransitionRuleView { name: self.name@, priority: self.priority, pattern: self.pattern@ }
    }
}

fn input_excepted(except: &Vec<KernelInputKind>, i: KernelInputKind) -> (r: bool)
    ensures
        r == except@.contains(i),
{
    let mut k: usize = 0;
    while k < except.len()
        invariant
            k <= except@.len(),
            forall|j: int| 0 <= j < k ==> except@[j] != i,
        decreases except@.len() - k,
    {
        if except[k] == i {
            return true;
        }
        k = k + 1;
    }
    false
}

impl TransitionRule {
    /// Synthesize all transition entries from this rule.
    pub fn synthesize(&self) -> (r: Vec<Entry>)
        ensures
            r@ == self@.pattern.entries(),
    {
        match &self.pattern {
            RulePattern::Absorbing { phase, except } => {
                let ghost pred = |i: KernelInputKind| !except@.contains(i);
                let ghost f = |i: KernelInputKind| (*phase, i, *phase);
                let mut out: Vec<Entry> = Vec::new();
                let mut k: usize = 0;
                while k < NUM_INPUTS
                    invariant
                        k <= NUM_INPUTS,
                        pred == (|i: KernelInputKind| !except@.contains(i)),
                        f == (|i: KernelInputKind| (*phase, i, *phase)),
                        out@ == all_inputs().take(k as int).filter(pred).map_values(f),
                    decreases NUM_INPUTS - k,
                {
                    let input = KernelInputKind::from_index(k);
                    proof {
                        lemma_filter_take_succ(all_inputs(), k as int, pred);
                    }
                    if !input_excepted(except, input) {
                        out.push((*phase, input, *phase));
                    }
                    k = k + 1;
                    assert(out@ =~= all_inputs().take(k as int).filter(pred).map_values(f));
                }
                assert(all_inputs().take(NUM_INPUTS as int) =~= all_inputs());
                out
            },
            RulePattern::Escape { from, on, to } => {
                let v = vec![(*from, *on, *to)];
                assert(v@ =~= seq![(*from, *on, *to)]);
                v
            },
            RulePattern::UniversalFault { from_phases } => {
                let ghost f = |p: KernelPhase| (p, KernelInputKind::FaultDetected, KernelPhase::Faulted);
                let mut out: Vec<Entry> = Vec::new();
                let mut k: usize = 0;
                while k < from_phases.len()
                    invariant
                        k <= from_phases@.len(),
                        f == (|p: KernelPhase| (p, KernelInputKind::FaultDetected, KernelPhase::Faulted)),
                        out@ == from_phases@.take(k as int).map_values(f),
                    decreases from_phases@.len() - k,
                {
                    out.push((from_phases[k], KernelInputKind::FaultDetected, KernelPhase::Faulted));
                    k = k + 1;
                    assert(out@ =~= from_phases@.take(k as int).map_values(f));
                }
                assert(from_phases@.take(from_phases@.len() as int) =~= from_phases@);
                out
            },
            RulePattern::PipelineAdvance { steps } => {
                let mut out: Vec<Entry> = Vec::new();
                let mut k: usize = 0;
                while k < steps.len()
                    invariant
                        k <= steps@.len(),
                        out@ == steps@.take(k as int),
                    decreases steps@.len() - k,
                {
                    out.push(steps[k]);
                    k = k + 1;
                    assert(out@ =~= steps@.take(k as int));
                }
                assert(steps@.take(steps@.len() as int) =~= steps@);
                out
            },
            RulePattern::RejectionToIdle { phases_and_inputs } => {
                let ghost f = |c: Cell| (c.0, c.1, KernelPhase::Idle);
                let mut out: Vec<Entry> = Vec::new();
                let mut k: usize = 0;
                while k < phases_and_inputs.len()
                    invariant
                        k <= phases_and_inputs@.len(),
                        f == (|c: Cell| (c.0, c.1, KernelPhase::Idle)),
                        out@ == phases_and_inputs@.take(k as int).map_values(f),
                    decreases phases_and_inputs@.len() - k,
                {
                    let (p, i) = phases_and_inputs[k];
                    out.push((p, i, KernelPhase::Idle));
                    k = k + 1;
                    assert(out@ =~= phases_and_inputs@.take(k as int).map_values(f));
                }
                assert(phases_and_inputs@.take(phases_and_inputs@.len() as int) =~= phases_and_inputs@);
                out
            },
            RulePattern::Explicit { from, on, to } => {
                let v = vec![(*from, *on, *to)];
                assert(v@ =~= seq![(*from, *on, *to)]);
                v
            },
        }
    }

    pub fn entry_count(&self) -> (r: usize)
        ensures
            r == self@.pattern.entries().len(),
    {
        self.synthesize().len()
    }
}

// ─── The canonical rule set ──────────────────────────────────────────────────

pub open spec fn tr_view(name: Seq<char>, priority: u8, pattern: PatternView) -> TransitionRuleView {
    TransitionRuleView { name, priority, pattern }
}

/// Phases from which `FaultDetected` leads to `Faulted` under the canonical rules.
pub open spec fn universal_fault_phases() -> Seq<KernelPhase> {
    seq![
            KernelPhase::Bootstrapping,
            KernelPhase::Idle,
            KernelPhase::ValidatingAbi,
            KernelPhase::ValidatingSchema,
            KernelPhase::ValidatingClock,
            KernelPhase::ValidatingCapability,
            KernelPhase::ValidatingCausal,
            KernelPhase::Deciding,
            KernelPhase::Applying,
            KernelPhase::Stamping,
            KernelPhase::Emitting,
            KernelPhase::ReplayPending,
            KernelPhase::Replaying,
            KernelPhase::VerifyingIdentity,
            KernelPhase::Recovering,
        ]
}

/// The pipeline's happy-path steps.
pub open spec fn pipeline_steps() -> Seq<Entry> {
    seq![
            (KernelPhase::Idle, KernelInputKind::EventArrived, KernelPhase::ValidatingAbi),
            (KernelPhase::ValidatingAbi, KernelInputKind::AbiValid, KernelPhase::ValidatingSchema),
            (KernelPhase::ValidatingSchema, KernelInputKind::SchemaValid, KernelPhase::ValidatingClock),
            (KernelPhase::ValidatingClock, KernelInputKind::ClockValid, KernelPhase::ValidatingCapability),
            (KernelPhase::ValidatingCapability, KernelInputKind::CapabilityGranted, KernelPhase::ValidatingCausal),
            (KernelPhase::ValidatingCausal, KernelInputKind::CausalValid, KernelPhase::Deciding),
            (KernelPhase::Deciding, KernelInputKind::DecisionAllow, KernelPhase::Applying),
            (KernelPhase::Deciding, KernelInputKind::DecisionTransform, KernelPhase::Applying),
            (KernelPhase::Applying, KernelInputKind::TransitionApplied, KernelPhase::Stamping),
            (KernelPhase::Stamping, KernelInputKind::ProjectionStamped, KernelPhase::Emitting),
            (KernelPhase::Emitting, KernelInputKind::EmitComplete, KernelPhase::Idle),
        ]
}

/// The validation-rejection arcs.
pub open spec fn rejection_arcs() -> Seq<Cell> {
    seq![
            (KernelPhase::ValidatingAbi, KernelInputKind::AbiFailed),
            (KernelPhase::ValidatingSchema, KernelInputKind::SchemaFailed),
            (KernelPhase::ValidatingClock, KernelInputKind::ClockFailed),
            (KernelPhase::ValidatingCapability, KernelInputKind::CapabilityDenied),
            (KernelPhase::ValidatingCausal, KernelInputKind::CausalFailed),
            (KernelPhase::Deciding, KernelInputKind::DecisionReject),
        ]
}

/// The canonical rule patterns, rule by rule.
pub open spec fn canonical_rules_view() -> Seq<TransitionRuleView> {
    seq![
        tr_view("sealed-absorbing"@, 0, PatternView::Absorbing { phase: KernelPhase::Sealed, except: Seq::empty() }),
        tr_view("faulted-absorbing"@, 0, PatternView::Absorbing { phase: KernelPhase::Faulted, except: seq![KernelInputKind::RecoveryAttempted] }),
        tr_view("faulted-recovery-escape"@, 1, PatternView::Escape { from: KernelPhase::Faulted, on: KernelInputKind::RecoveryAttempted, to: KernelPhase::Recovering }),
        tr_view("universal-fault"@, 2, PatternView::UniversalFault { from_phases: universal_fault_phases() }),
        tr_view("pipeline-advance"@, 3, PatternView::PipelineAdvance { steps: pipeline_steps() }),
        tr_view("rejection-to-idle"@, 3, PatternView::RejectionToIdle { phases_and_inputs: rejection_arcs() }),
        tr_view("applying-failed"@, 3, PatternView::Explicit { from: KernelPhase::Applying, on: KernelInputKind::TransitionFailed, to: KernelPhase::Recovering }),
        tr_view("recovery-self-loop"@, 3, PatternView::Explicit { from: KernelPhase::Recovering, on: KernelInputKind::RecoveryAttempted, to: KernelPhase::Recovering }),
        tr_view("recovery-success"@, 3, PatternView::Explicit { from: KernelPhase::Recovering, on: KernelInputKind::RecoverySucceeded, to: KernelPhase::Idle }),
        tr_view("replay-request"@, 3, PatternView::Explicit { from: KernelPhase::Idle, on: KernelInputKind::ReplayRequested, to: KernelPhase::ReplayPending }),
        tr_view("replay-start"@, 3, PatternView::Explicit { from: KernelPhase::ReplayPending, on: KernelInputKind::EventArrived, to: KernelPhase::Replaying }),
        tr_view("replay-event"@, 3, PatternView::Explicit { from: KernelPhase::Replaying, on: KernelInputKind::ReplayEventApplied, to: KernelPhase::Replaying }),
        tr_view("replay-complete"@, 3, PatternView::Explicit { from: KernelPhase::Replaying, on: KernelInputKind::ReplayComplete, to: KernelPhase::VerifyingIdentity }),
        tr_view("identity-confirmed"@, 3, PatternView::Explicit { from: KernelPhase::VerifyingIdentity, on: KernelInputKind::IdentityConfirmed, to: KernelPhase::Idle }),
        tr_view("identity-diverged"@, 3, PatternView::Explicit { from: KernelPhase::VerifyingIdentity, on: KernelInputKind::IdentityDiverged, to: KernelPhase::Faulted }),
        tr_view("genesis-init"@, 3, PatternView::Explicit { from: KernelPhase::Genesis, on: KernelInputKind::Initialize, to: KernelPhase::Bootstrapping }),
        tr_view("bootstrap-complete"@, 3, PatternView::Explicit { from: KernelPhase::Bootstrapping, on: KernelInputKind::BootstrapComplete, to: KernelPhase::Idle }),
        tr_view("seal-from-idle"@, 3, PatternView::Explicit { from: KernelPhase::Idle, on: KernelInputKind::SealRequested, to: KernelPhase::Sealed }),
        tr_view("seal-from-replay"@, 3, PatternView::Explicit { from: KernelPhase::Replaying, on: KernelInputKind::SealRequested, to: KernelPhase::Sealed }),
    ]
}

/// The complete canonical rule set — the compressed representation of δ.
pub fn canonical_rules() -> (r: Vec<TransitionRule>)
    ensures
        r@.map_values(|t: TransitionRule| t@) == canonical_rules_view(),
{
    let faulted_except = vec![KernelInputKind::RecoveryAttempted];
    assert(faulted_except@ =~= seq![KernelInputKind::RecoveryAttempted]);
    let uf: Vec<KernelPhase> = vec![
                KernelPhase::Bootstrapping,
                KernelPhase::Idle,
                KernelPhase::ValidatingAbi,
                KernelPhase::ValidatingSchema,
                KernelPhase::ValidatingClock,
                KernelPhase::ValidatingCapability,
                KernelPhase::ValidatingCausal,
                KernelPhase::Deciding,
                KernelPhase::Applying,
                KernelPhase::Stamping,
                KernelPhase::Emitting,
                KernelPhase::ReplayPending,
                KernelPhase::Replaying,
                KernelPhase::VerifyingIdentity,
                KernelPhase::Recovering,
            ];
    assert(uf@ =~= universal_fault_phases());
    let steps: Vec<Entry> = vec![
                (KernelPhase::Idle, KernelInputKind::EventArrived, KernelPhase::ValidatingAbi),
                (KernelPhase::ValidatingAbi, KernelInputKind::AbiValid, KernelPhase::ValidatingSchema),
                (KernelPhase::ValidatingSchema, KernelInputKind::SchemaValid, KernelPhase::ValidatingClock),
                (KernelPhase::ValidatingClock, KernelInputKind::ClockValid, KernelPhase::ValidatingCapability),
                (KernelPhase::ValidatingCapability, KernelInputKind::CapabilityGranted, KernelPhase::ValidatingCausal),
                (KernelPhase::ValidatingCausal, KernelInputKind::CausalValid, KernelPhase::Deciding),
                (KernelPhase::Deciding, KernelInputKind::DecisionAllow, KernelPhase::Applying),
                (KernelPhase::Deciding, KernelInputKind::DecisionTransform, KernelPhase::Applying),
                (KernelPhase::Applying, KernelInputKind::TransitionApplied, KernelPhase::Stamping),
                (KernelPhase::Stamping, KernelInputKind::ProjectionStamped, KernelPhase::Emitting),
                (KernelPhase::Emitting, KernelInputKind::EmitComplete, KernelPhase::Idle),
            ];
    assert(steps@ =~= pipeline_steps());
    let rejections: Vec<Cell> = vec![
                (KernelPhase::ValidatingAbi, KernelInputKind::AbiFailed),
                (KernelPhase::ValidatingSchema, KernelInputKind::SchemaFailed),
                (KernelPhase::ValidatingClock, KernelInputKind::ClockFailed),
                (KernelPhase::ValidatingCapability, KernelInputKind::CapabilityDenied),
                (KernelPhase::ValidatingCausal, KernelInputKind::CausalFailed),
                (KernelPhase::Deciding, KernelInputKind::DecisionReject),
            ];
    assert(rejections@ =~= rejection_arcs());
    let mut rules: Vec<TransitionRule> = Vec::new();
    rules.push(TransitionRule { name: "sealed-absorbing", priority: 0, pattern: RulePattern::Absorbing { phase: KernelPhase::Sealed, except: Vec::new() } });
    rules.push(TransitionRule { name: "faulted-absorbing", priority: 0, pattern: RulePattern::Absorbing { phase: KernelPhase::Faulted, except: faulted_except } });
    rules.push(TransitionRule { name: "faulted-recovery-escape", priority: 1, pattern: RulePattern::Escape { from: KernelPhase::Faulted, on: KernelInputKind::RecoveryAttempted, to: KernelPhase::Recovering } });
    rules.push(TransitionRule { name: "universal-fault", priority: 2, pattern: RulePattern::UniversalFault { from_phases: uf } });
    rules.push(TransitionRule { name: "pipeline-advance", priority: 3, pattern: RulePattern::PipelineAdvance { steps } });
    rules.push(TransitionRule { name: "rejection-to-idle", priority: 3, pattern: RulePattern::RejectionToIdle { phases_and_inputs: rejections } });
    rules.push(TransitionRule { name: "applying-failed", priority: 3, pattern: RulePattern::Explicit { from: KernelPhase::Applying, on: KernelInputKind::TransitionFailed, to: KernelPhase::Recovering } });
    rules.push(TransitionRule { name: "recovery-self-loop", priority: 3, pattern: RulePattern::Explicit { from: KernelPhase::Recovering, on: KernelInputKind::RecoveryAttempted, to: KernelPhase::Recovering } });
    rules.push(TransitionRule { name: "recovery-success", priority: 3, pattern: RulePattern::Explicit { from: KernelPhase::Recovering, on: KernelInputKind::RecoverySucceeded, to: KernelPhase::Idle } });
    rules.push(TransitionRule { name: "replay-request", priority: 3, pattern: RulePattern::Explicit { from: KernelPhase::Idle, on: KernelInputKind::ReplayRequested, to: KernelPhase::ReplayPending } });
    rules.push(TransitionRule { name: "replay-start", priority: 3, pattern: RulePattern::Explicit { from: KernelPhase::ReplayPending, on: KernelInputKind::EventArrived, to: KernelPhase::Replaying } });
    rules.push(TransitionRule { name: "replay-event", priority: 3, pattern: RulePattern::Explicit { from: KernelPhase::Replaying, on: KernelInputKind::ReplayEventApplied, to: KernelPhase::Replaying } });
    rules.push(TransitionRule { name: "replay-complete", priority: 3, pattern: RulePattern::Explicit { from: KernelPhase::Replaying, on: KernelInputKind::ReplayComplete, to: KernelPhase::VerifyingIdentity } });
    rules.push(TransitionRule { name: "identity-confirmed", priority: 3, pattern: RulePattern::Explicit { from: KernelPhase::VerifyingIdentity, on: KernelInputKind::IdentityConfirmed, to: KernelPhase::Idle } });
    rules.push(TransitionRule { name: "identity-diverged", priority: 3, pattern: RulePattern::Explicit { from: KernelPhase::VerifyingIdentity, on: KernelInputKind::IdentityDiverged, to: KernelPhase::Faulted } });
    rules.push(TransitionRule { name: "genesis-init", priority: 3, pattern: RulePattern::Explicit { from: KernelPhase::Genesis, on: KernelInputKind::Initialize, to: KernelPhase::Bootstrapping } });
    rules.push(TransitionRule { name: "bootstrap-complete", priority: 3, pattern: RulePattern::Explicit { from: KernelPhase::Bootstrapping, on: KernelInputKind::BootstrapComplete, to: KernelPhase::Idle } });
    rules.push(TransitionRule { name: "seal-from-idle", priority: 3, pattern: RulePattern::Explicit { from: KernelPhase::Idle, on: KernelInputKind::SealRequested, to: KernelPhase::Sealed } });
    rules.push(TransitionRule { name: "seal-from-replay", priority: 3, pattern: RulePattern::Explicit { from: KernelPhase::Replaying, on: KernelInputKind::SealRequested, to: KernelPhase::Sealed } });
    assert(rules@.map_values(|t: TransitionRule| t@) =~= canonical_rules_view());
    rules
}

// ─── RuleEngine ──────────────────────────────────────────────────────────────

/// The target of the first entry at or after `k` for (phase, input).
pub open spec fn claim_from(es: Seq<Entry>, k: int, p: KernelPhase, i: KernelInputKind) -> Option<KernelPhase>
    decreases es.len() - k,
{
    if k < 0 || k >= es.len() {
        None
    } else if es[k].0 == p && es[k].1 == i {
        Some(es[k].2)
    } else {
        claim_from(es, k + 1, p, i)
    }
}

/// The target a rule's entries give (phase, input), if the rule generates it.
pub open spec fn rule_claim(r: TransitionRuleView, p: KernelPhase, i: KernelInputKind) -> Option<KernelPhase> {
    claim_from(r.pattern.entries(), 0, p, i)
}

/// Among the first `n` rules, the rule of least priority number (earliest on
/// ties) that generates (phase, input), with its target.
pub open spec fn best_claim(rules: Seq<TransitionRuleView>, n: int, p: KernelPhase, i: KernelInputKind) -> Option<(int, KernelPhase)>
    decreases n,
{
    if n <= 0 {
        None
    } else {
        let prev = best_claim(rules, n - 1, p, i);
        match rule_claim(rules[n - 1], p, i) {
            None => prev,
            Some(t) => match prev {
                None => Some((n - 1, t)),
                Some(b) => if rules[n - 1].priority < rules[b.0].priority {
                    Some((n - 1, t))
                } else {
                    prev
                },
            },
        }
    }
}

/// The synthesized table's target for (phase, input), if any rule generates it.
pub open spec fn engine_lookup(rules: Seq<TransitionRuleView>, p: KernelPhase, i: KernelInputKind) -> Option<KernelPhase> {
    match best_claim(rules, rules.len() as int, p, i) {
        Some(b) => Some(b.1),
        None => None,
    }
}

/// δ by the synthesized table: undefined → `Faulted`.
pub open spec fn engine_delta(rules: Seq<TransitionRuleView>, p: KernelPhase, i: KernelInputKind) -> KernelPhase {
    match engine_lookup(rules, p, i) {
        Some(t) => t,
        None => KernelPhase::Faulted,
    }
}

/// Every rule's entries tagged with the rule's index, rules in order.
pub open spec fn flat_entries(rules: Seq<TransitionRuleView>, n: int) -> Seq<(int, Entry)>
    decreases n,
{
    if n <= 0 {
        Seq::empty()
    } else {
        flat_entries(rules, n - 1) + rules[n - 1].pattern.entries().map_values(|e: Entry| (n - 1, e))
    }
}

/// The first position below `m` of `fl` whose entry is for (phase, input).
pub open spec fn first_pos_below(fl: Seq<(int, Entry)>, m: int, p: KernelPhase, i: KernelInputKind) -> Option<int>
    decreases m,
{
    if m <= 0 {
        None
    } else {
        match first_pos_below(fl, m - 1, p, i) {
            Some(f) => Some(f),
            None => if fl[m - 1].1.0 == p && fl[m - 1].1.1 == i {
                Some(m - 1)
            } else {
                None
            },
        }
    }
}

/// Pairs (first, later) of positions below `m` where a later entry repeats
/// an earlier cell with a different target.
pub open spec fn conflicts_upto(fl: Seq<(int, Entry)>, m: int) -> Seq<(int, int)>
    decreases m,
{
    if m <= 0 {
        Seq::empty()
    } else {
        let e = fl[m - 1].1;
        conflicts_upto(fl, m - 1) + match first_pos_below(fl, m - 1, e.0, e.1) {
            Some(f) => if fl[f].1.2 != e.2 {
                seq![(f, m - 1)]
            } else {
                Seq::empty()
            },
            None => Seq::empty(),
        }
    }
}

/// Table entries the engine's δ does not reproduce, in table order.
pub open spec fn missing_entries(rules: Seq<TransitionRuleView>) -> Seq<Entry> {
    Seq::new(TABLE_LEN as nat, |k: int| table_entry(k)).filter(
        |e: crate::kernel_state::TransitionEntry| engine_delta(rules, e.from, e.on) != e.to,
    ).map_values(|e: crate::kernel_state::TransitionEntry| (e.from, e.on, e.to))
}

/// Two rules produce different targets for the same cell.
#[derive(Debug)]
pub struct RuleConflict {
    pub phase: KernelPhase,
    pub input: KernelInputKind,
    pub rule_a: &'static str,
    pub target_a: KernelPhase,
    pub rule_b: &'static str,
    pub target_b: KernelPhase,
}

/// Result of rule engine verification.
#[derive(Debug)]
pub struct VerificationReport {
    pub rule_count: usize,
    pub synthesized_entries: usize,
    pub explicit_table_entries: usize,
    pub conflicts: Vec<RuleConflict>,
    pub missing_from_rules: Vec<Entry>,
    pub table_consistent: bool,
}

impl VerificationReport {
    pub fn is_ok(&self) -> (r: bool)
        ensures
            r == (self.conflicts@.len() == 0 && self.table_consistent),
    {
        self.conflicts.len() == 0 && self.table_consistent
    }
}

/// Synthesizes and verifies the transition table from the canonical rule set.
pub struct RuleEngine {
    rules: Vec<TransitionRule>,
    /// Synthesized table, one slot per cell in phase-major order.
    synthesized: Vec<Option<KernelPhase>>,
}

fn rule_claim_of(rule: &TransitionRule, phase: KernelPhase, input: KernelInputKind) -> (r: Option<KernelPhase>)
    ensures
        r == rule_claim(rule@, phase, input),
{
    let es = rule.synthesize();
    let mut k: usize = 0;
    while k < es.len()
        invariant
            k <= es@.len(),
            es@ == rule@.pattern.entries(),
            claim_from(es@, 0, phase, input) == claim_from(es@, k as int, phase, input),
        decreases es@.len() - k,
    {
        let (p, i, t) = es[k];
        if p == phase && i == input {
            return Some(t);
        }
        k = k + 1;
    }
    None
}

fn best_claim_of(rules: &Vec<TransitionRule>, phase: KernelPhase, input: KernelInputKind) -> (r: Option<(usize, KernelPhase)>)
    ensures
        match r {
            Some(b) => best_claim(rules@.map_values(|t: TransitionRule| t@), rules@.len() as int, phase, input)
                == Some((b.0 as int, b.1)),
            None => best_claim(rules@.map_values(|t: TransitionRule| t@), rules@.len() as int, phase, input) is None,
        },
{
    let ghost rv = rules@.map_values(|t: TransitionRule| t@);
    let mut best: Option<(usize, KernelPhase)> = None;
    let mut k: usize = 0;
    while k < rules.len()
        invariant
            k <= rules@.len(),
            rv == rules@.map_values(|t: TransitionRule| t@),
            match best {
                Some(b) => b.0 < k && best_claim(rv, k as int, phase, input) == Some((b.0 as int, b.1)),
                None => best_claim(rv, k as int, phase, input) is None,
            },
        decreases rules@.len() - k,
    {
        assert(rv[k as int] == rules@[k as int]@);
        let claim = rule_claim_of(&rules[k], phase, input);
        match claim {
            Some(t) => {
                match best {
                    None => {
                        best = Some((k, t));
                    },
                    Some(b) => {
                        assert(rv[b.0 as int] == rules@[b.0 as int]@);
                        if rules[k].priority < rules[b.0].priority {
                            best = Some((k, t));
                        }
                    },
                }
            },
            None => {},
        }
        k = k + 1;
    }
    best
}

impl RuleEngine {
    /// The rules the engine was built from.
    pub closed spec fn spec_rules(&self) -> Seq<TransitionRuleView> {
        self.rules@.map_values(|t: TransitionRule| t@)
    }

    #[verifier::type_invariant]
    closed spec fn synthesized_matches_rules(&self) -> bool {
        &&& self.synthesized@.len() == NUM_CELLS
        &&& forall|c: int| 0 <= c < NUM_CELLS ==> #[trigger] self.synthesized@[c] == engine_lookup(
            self.spec_rules(),
            cell_at(c).0,
            cell_at(c).1,
        )
    }

    /// Build the engine from the canonical rule set: each cell takes the
    /// target of the lowest-priority-number rule that generates it, the
    /// earliest such rule on ties.
    pub fn new() -> (r: Self)
        ensures
            r.spec_rules() == canonical_rules_view(),
    {
        let rules = canonical_rules();
        let ghost rv = rules@.map_values(|t: TransitionRule| t@);
        let mut synthesized: Vec<Option<KernelPhase>> = Vec::new();
        let mut c: usize = 0;
        while c < NUM_CELLS
            invariant
                c <= NUM_CELLS,
                rv == rules@.map_values(|t: TransitionRule| t@),
                synthesized@.len() == c,
                forall|d: int| 0 <= d < c ==> #[trigger] synthesized@[d] == engine_lookup(rv, cell_at(d).0, cell_at(d).1),
            decreases NUM_CELLS - c,
        {
            let (phase, input) = cell(c);
            let best = best_claim_of(&rules, phase, input);
            match best {
                Some(b) => synthesized.push(Some(b.1)),
                None => synthesized.push(None),
            }
            c = c + 1;
        }
        RuleEngine { rules, synthesized }
    }

    /// δ(phase, input) from the synthesized table; undefined → `Faulted`.
    pub fn delta(&self, phase: KernelPhase, input: KernelInputKind) -> (r: KernelPhase)
        ensures
            r == engine_delta(self.spec_rules(), phase, input),
    {
        proof {
            use_type_invariant(self);
            lemma_cell_index(phase, input);
        }
        let c = phase.index() * NUM_INPUTS + input.index();
        match self.synthesized[c] {
            Some(t) => t,
            None => KernelPhase::Faulted,
        }
    }

    pub fn rule_count(&self) -> (r: usize)
        ensures
            r == self.spec_rules().len(),
    {
        self.rules.len()
    }

    /// Number of cells the synthesized table defines.
    pub fn synthesized_entry_count(&self) -> (r: usize)
        ensures
            r == all_cells().filter(|c: Cell| engine_lookup(self.spec_rules(), c.0, c.1) is Some).len(),
    {
        proof {
            use_type_invariant(self);
        }
        let ghost pred = |c: Cell| engine_lookup(self.spec_rules(), c.0, c.1) is Some;
        let mut count: usize = 0;
        let mut c: usize = 0;
        while c < NUM_CELLS
            invariant
                c <= NUM_CELLS,
                pred == (|c: Cell| engine_lookup(self.spec_rules(), c.0, c.1) is Some),
                self.synthesized@.len() == NUM_CELLS,
                forall|d: int| 0 <= d < NUM_CELLS ==> #[trigger] self.synthesized@[d] == engine_lookup(
                    self.spec_rules(), cell_at(d).0, cell_at(d).1),
                count == all_cells().take(c as int).filter(pred).len(),
                count <= c,
            decreases NUM_CELLS - c,
        {
            proof {
                lemma_filter_take_succ(all_cells(), c as int, pred);
            }
            if self.synthesized[c].is_some() {
                count = count + 1;
            }
            c = c + 1;
        }
        assert(all_cells().take(NUM_CELLS as int) =~= all_cells());
        count
    }
}

/// `flat_entries` grows by appending: earlier prefixes are kept.
pub proof fn lemma_flat_entries_prefix(rules: Seq<TransitionRuleView>, k: int, n: int)
    requires
        0 <= k < n,
    ensures
        flat_entries(rules, k + 1).len() <= flat_entries(rules, n).len(),
        forall|x: int| 0 <= x < flat_entries(rules, k + 1).len() ==> #[trigger] flat_entries(rules, n)[x]
            == flat_entries(rules, k + 1)[x],
    decreases n,
{
    if n > k + 1 {
        lemma_flat_entries_prefix(rules, k, n - 1);
    }
}

/// Every tag in `flat_entries(rules, n)` is a rule index below `n`.
pub proof fn lemma_flat_entries_tags(rules: Seq<TransitionRuleView>, n: int)
    ensures
        forall|x: int| 0 <= x < flat_entries(rules, n).len() ==> 0 <= #[trigger] flat_entries(rules, n)[x].0 < n,
    decreases n,
{
    if n > 0 {
        lemma_flat_entries_tags(rules, n - 1);
        let prev = flat_entries(rules, n - 1);
        let tagged = rules[n - 1].pattern.entries().map_values(|e: Entry| (n - 1, e));
        assert forall|x: int| 0 <= x < flat_entries(rules, n).len() implies 0 <= #[trigger] flat_entries(rules, n)[x].0 < n by {
            if x < prev.len() {
                assert(flat_entries(rules, n)[x] == prev[x]);
            } else {
                assert(flat_entries(rules, n)[x] == tagged[x - prev.len()]);
            }
        }
    }
}

/// A found first position is below the bound and is for the cell.
pub proof fn lemma_first_pos_below(fl: Seq<(int, Entry)>, m: int, p: KernelPhase, i: KernelInputKind)
    ensures
        first_pos_below(fl, m, p, i) matches Some(f) ==> 0 <= f < m && fl[f].1.0 == p && fl[f].1.1 == i,
    decreases m,
{
    if m > 0 {
        lemma_first_pos_below(fl, m - 1, p, i);
    }
}

/// The conflict at position `pair` of the flattened entries.
pub open spec fn conflict_describes(r: RuleConflict, rules: Seq<TransitionRuleView>, fl: Seq<(int, Entry)>, pair: (int, int)) -> bool {
    &&& r.phase == fl[pair.1].1.0
    &&& r.input == fl[pair.1].1.1
    &&& r.rule_a@ == rules[fl[pair.0].0].name
    &&& r.target_a == fl[pair.0].1.2
    &&& r.rule_b@ == rules[fl[pair.1].0].name
    &&& r.target_b == fl[pair.1].1.2
}

impl RuleEngine {
    /// Full verification: rules that disagree on a cell (scanning rules in
    /// order, each later entry against the first entry for its cell), and
    /// explicit table entries the synthesized δ does not reproduce.
    pub fn verify(&self) -> (r: VerificationReport)
        ensures
            r.rule_count == self.spec_rules().len(),
            r.synthesized_entries == all_cells().filter(|c: Cell| engine_lookup(self.spec_rules(), c.0, c.1) is Some).len(),
            r.explicit_table_entries == TABLE_LEN,
            ({
                let fl = flat_entries(self.spec_rules(), self.spec_rules().len() as int);
                let pairs = conflicts_upto(fl, fl.len() as int);
                &&& r.conflicts@.len() == pairs.len()
                &&& forall|j: int| 0 <= j < pairs.len() ==> conflict_describes(#[trigger] r.conflicts@[j], self.spec_rules(), fl, pairs[j])
            }),
            r.missing_from_rules@ == missing_entries(self.spec_rules()),
            r.table_consistent == (missing_entries(self.spec_rules()).len() == 0),
    {
        let n = self.rules.len();
        let ghost rv = self.spec_rules();
        let ghost fl = flat_entries(rv, n as int);
        proof {
            lemma_flat_entries_tags(rv, n as int);
        }
        let mut seen: Vec<Option<(usize, KernelPhase)>> = Vec::new();
        let mut c: usize = 0;
        while c < NUM_CELLS
            invariant
                c <= NUM_CELLS,
                seen@.len() == c,
                forall|d: int| 0 <= d < c ==> #[trigger] seen@[d] is None,
            decreases NUM_CELLS - c,
        {
            seen.push(None);
            c = c + 1;
        }
        let mut conflicts: Vec<RuleConflict> = Vec::new();
        let ghost mut pos: int = 0;
        let mut k: usize = 0;
        while k < n
            invariant
                n == self.rules@.len(),
                rv == self.spec_rules(),
                rv.len() == n,
                fl == flat_entries(rv, n as int),
                forall|x: int| 0 <= x < fl.len() ==> 0 <= #[trigger] fl[x].0 < n,
                k <= n,
                pos == flat_entries(rv, k as int).len(),
                pos <= fl.len(),
                seen@.len() == NUM_CELLS,
                forall|d: int| 0 <= d < NUM_CELLS ==> match #[trigger] seen@[d] {
                    Some(x) => first_pos_below(fl, pos, cell_at(d).0, cell_at(d).1) matches Some(f)
                        && fl[f].0 == x.0 as int && fl[f].1.2 == x.1,
                    None => first_pos_below(fl, pos, cell_at(d).0, cell_at(d).1) is None,
                },
                conflicts@.len() == conflicts_upto(fl, pos).len(),
                forall|j: int| 0 <= j < conflicts@.len() ==> conflict_describes(#[trigger] conflicts@[j], rv, fl, conflicts_upto(fl, pos)[j]),
            decreases n - k,
        {
            proof {
                lemma_flat_entries_prefix(rv, k as int, n as int);
            }
            assert(rv[k as int] == self.rules@[k as int]@);
            let es = self.rules[k].synthesize();
            let ghost base = pos;
            let mut e: usize = 0;
            while e < es.len()
                invariant
                    n == self.rules@.len(),
                    rv == self.spec_rules(),
                    rv.len() == n,
                    k < n,
                    fl == flat_entries(rv, n as int),
                    forall|x: int| 0 <= x < fl.len() ==> 0 <= #[trigger] fl[x].0 < n,
                    es@ == rv[k as int].pattern.entries(),
                    base == flat_entries(rv, k as int).len(),
                    flat_entries(rv, k + 1) == flat_entries(rv, k as int) + es@.map_values(|e: Entry| (k as int, e)),
                    flat_entries(rv, k + 1).len() <= fl.len(),
                    forall|x: int| 0 <= x < flat_entries(rv, k + 1).len() ==> #[trigger] fl[x] == flat_entries(rv, k + 1)[x],
                    e <= es@.len(),
                    pos == base + e,
                    seen@.len() == NUM_CELLS,
                    forall|d: int| 0 <= d < NUM_CELLS ==> match #[trigger] seen@[d] {
                        Some(x) => first_pos_below(fl, pos, cell_at(d).0, cell_at(d).1) matches Some(f)
                            && fl[f].0 == x.0 as int && fl[f].1.2 == x.1,
                        None => first_pos_below(fl, pos, cell_at(d).0, cell_at(d).1) is None,
                    },
                    conflicts@.len() == conflicts_upto(fl, pos).len(),
                    forall|j: int| 0 <= j < conflicts@.len() ==> conflict_describes(#[trigger] conflicts@[j], rv, fl, conflicts_upto(fl, pos)[j]),
                decreases es@.len() - e,
            {
                let (from, input, to) = es[e];
                assert(fl[pos] == flat_entries(rv, k + 1)[pos]);
                assert(fl[pos] == (k as int, (from, input, to)));
                proof {
                    lemma_cell_index(from, input);
                    lemma_first_pos_below(fl, pos, from, input);
                }
                let ci = from.index() * NUM_INPUTS + input.index();
                let ghost old_pairs = conflicts_upto(fl, pos);
                let ghost old_seen = seen@;
                let slot = seen[ci];
                match slot {
                    Some(x) => {
                        let ra = x.0;
                        let ta = x.1;
                        if ta != to {
                            assert(rv[ra as int] == self.rules@[ra as int]@);
                            conflicts.push(RuleConflict {
                                phase: from,
                                input,
                                rule_a: self.rules[ra].name,
                                target_a: ta,
                                rule_b: self.rules[k].name,
                                target_b: to,
                            });
                        }
                    },
                    None => {
                        seen.set(ci, Some((k, to)));
                    },
                }
                proof {
                    assert(conflicts_upto(fl, pos + 1) == old_pairs + match first_pos_below(fl, pos, from, input) {
                        Some(f) => if fl[f].1.2 != to {
                            seq![(f, pos)]
                        } else {
                            Seq::empty()
                        },
                        None => Seq::empty(),
                    });
                    assert forall|d: int| 0 <= d < NUM_CELLS implies match #[trigger] seen@[d] {
                        Some(x) => first_pos_below(fl, pos + 1, cell_at(d).0, cell_at(d).1) matches Some(f)
                            && fl[f].0 == x.0 as int && fl[f].1.2 == x.1,
                        None => first_pos_below(fl, pos + 1, cell_at(d).0, cell_at(d).1) is None,
                    } by {
                        if d != ci as int {
                            crate::cells::lemma_cell_at_injective(d, ci as int);
                            assert(seen@[d] == old_seen[d]);
                        }
                    }
                    pos = pos + 1;
                }
                e = e + 1;
            }
            assert(es@.map_values(|e: Entry| (k as int, e)).len() == es@.len());
            k = k + 1;
        }
        assert(pos == fl.len());

        let ghost tbl = Seq::new(TABLE_LEN as nat, |k: int| table_entry(k));
        let ghost mpred = |e: crate::kernel_state::TransitionEntry| engine_delta(rv, e.from, e.on) != e.to;
        let ghost mf = |e: crate::kernel_state::TransitionEntry| (e.from, e.on, e.to);
        let mut missing: Vec<Entry> = Vec::new();
        let mut t: usize = 0;
        while t < TABLE_LEN
            invariant
                t <= TABLE_LEN,
                rv == self.spec_rules(),
                tbl == Seq::new(TABLE_LEN as nat, |k: int| table_entry(k)),
                mpred == (|e: crate::kernel_state::TransitionEntry| engine_delta(rv, e.from, e.on) != e.to),
                mf == (|e: crate::kernel_state::TransitionEntry| (e.from, e.on, e.to)),
                missing@ == tbl.take(t as int).filter(mpred).map_values(mf),
            decreases TABLE_LEN - t,
        {
            let entry = transition_entry(t);
            proof {
                lemma_filter_take_succ(tbl, t as int, mpred);
            }
            if self.delta(entry.from, entry.on) != entry.to {
                missing.push((entry.from, entry.on, entry.to));
            }
            t = t + 1;
            assert(missing@ =~= tbl.take(t as int).filter(mpred).map_values(mf));
        }
        assert(tbl.take(TABLE_LEN as int) =~= tbl);
        let table_consistent = missing.len() == 0;
        VerificationReport {
            rule_count: n,
            synthesized_entries: self.synthesized_entry_count(),
            explicit_table_entries: TABLE_LEN,
            conflicts,
            missing_from_rules: missing,
            table_consistent,
        }
    }
}

} // verus!
