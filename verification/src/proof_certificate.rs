//! Proof-carrying automaton: every transition comes with a certificate that a
//! small checker verifies against the canonical rule patterns alone.

use vstd::prelude::*;
use crate::kernel_state::{
    lemma_absorbing_phases, lemma_fault_from_live_phases, spec_kernel_delta, table_lookup_from, KernelInputKind, KernelPhase,
    NUM_PHASES, phase_at,
};
use crate::realm_id::RealmId;
use crate::rule_engine::{
    all_inputs, canonical_rules, canonical_rules_view, pipeline_steps, rejection_arcs, universal_fault_phases, Entry,
    TransitionRule,
};
use crate::cells::lemma_filter_take_succ;

verus! {

/// Does canonical rule `k` generate the transition (p, i) → t?
#[verifier::opaque]
pub open spec fn rule_generates(k: int, p: KernelPhase, i: KernelInputKind, t: KernelPhase) -> bool {
    &&& 0 <= k < canonical_rules_view().len()
    &&& canonical_rules_view()[k].pattern.entries().contains((p, i, t))
}

/// Proof that a specific rule generates (phase, input) → produces.
#[derive(Debug, Clone)]
pub struct RuleMatchProof {
    /// The name of the rule that matched.
    pub rule_name: String,
    /// Index into `canonical_rules()`.
    pub rule_index: usize,
    pub matched_phase: KernelPhase,
    pub matched_input: KernelInputKind,
    /// The target phase the rule produces for this (phase, input).
    pub produces: KernelPhase,
}

/// The rule at `rule_index` has the proof's name and generates its claim.
pub open spec fn spec_proof_valid(pr: RuleMatchProof) -> bool {
    &&& 0 <= pr.rule_index < canonical_rules_view().len()
    &&& canonical_rules_view()[pr.rule_index as int].name == pr.rule_name@
    &&& rule_generates(pr.rule_index as int, pr.matched_phase, pr.matched_input, pr.produces)
}

fn entries_contain(es: &Vec<Entry>, e: Entry) -> (r: bool)
    ensures
        r == es@.contains(e),
{
    let mut k: usize = 0;
    while k < es.len()
        invariant
            k <= es@.len(),
            forall|j: int| 0 <= j < k ==> es@[j] != e,
        decreases es@.len() - k,
    {
        let x = es[k];
        if x.0 == e.0 && x.1 == e.1 && x.2 == e.2 {
            return true;
        }
        k = k + 1;
    }
    false
}

impl RuleMatchProof {
    /// Verify this proof against the canonical rule set.
    pub fn verify(&self) -> (r: bool)
        ensures
            r == spec_proof_valid(*self),
    {
        let rules = canonical_rules();
        assert(rules@.map_values(|t: TransitionRule| t@).len() == rules@.len());
        if self.rule_index >= rules.len() {
            return false;
        }
        let rule = &rules[self.rule_index];
        assert(canonical_rules_view()[self.rule_index as int] == rule@);
        if String::from_str(rule.name) != self.rule_name {
            return false;
        }
        let entries = rule.synthesize();
        proof {
            reveal(rule_generates);
        }
        entries_contain(&entries, (self.matched_phase, self.matched_input, self.produces))
    }
}

// ─── TransitionCertificate ───────────────────────────────────────────────────

/// Proof that one transition was valid: the claim δ(from, input) = to, and
/// the rule that justifies it.
#[derive(Debug, Clone)]
pub struct TransitionCertificate {
    /// Monotone sequence index within an execution trace.
    pub seq: u64,
    pub from_phase: KernelPhase,
    pub input: KernelInputKind,
    pub to_phase: KernelPhase,
    /// The justification.
    pub proof: RuleMatchProof,
    /// Lamport counter at the time of this transition.
    pub lamport: u64,
}

/// The claim matches the proof and the proof is valid.
pub open spec fn spec_cert_valid(c: TransitionCertificate) -> bool {
    &&& c.proof.matched_phase == c.from_phase
    &&& c.proof.matched_input == c.input
    &&& c.proof.produces == c.to_phase
    &&& spec_proof_valid(c.proof)
}

impl TransitionCertificate {
    /// Verify this certificate independently of any kernel run.
    pub fn verify(&self) -> (r: bool)
        ensures
            r == spec_cert_valid(*self),
    {
        self.proof.matched_phase == self.from_phase && self.proof.matched_input == self.input
            && self.proof.produces == self.to_phase && self.proof.verify()
    }
}

/// Each happy-path step of the pipeline is a transition δ makes.
proof fn lemma_pipeline_steps_are_kernel(j: int)
    requires
        0 <= j < pipeline_steps().len(),
    ensures
        spec_kernel_delta(pipeline_steps()[j].0, pipeline_steps()[j].1) == pipeline_steps()[j].2,
{
    reveal_with_fuel(table_lookup_from, 46);
    let s = pipeline_steps();
    if j == 0 { assert(spec_kernel_delta(s[0].0, s[0].1) == s[0].2); }
    else if j == 1 { assert(spec_kernel_delta(s[1].0, s[1].1) == s[1].2); }
    else if j == 2 { assert(spec_kernel_delta(s[2].0, s[2].1) == s[2].2); }
    else if j == 3 { assert(spec_kernel_delta(s[3].0, s[3].1) == s[3].2); }
    else if j == 4 { assert(spec_kernel_delta(s[4].0, s[4].1) == s[4].2); }
    else if j == 5 { assert(spec_kernel_delta(s[5].0, s[5].1) == s[5].2); }
    else if j == 6 { assert(spec_kernel_delta(s[6].0, s[6].1) == s[6].2); }
    else if j == 7 { assert(spec_kernel_delta(s[7].0, s[7].1) == s[7].2); }
    else if j == 8 { assert(spec_kernel_delta(s[8].0, s[8].1) == s[8].2); }
    else if j == 9 { assert(spec_kernel_delta(s[9].0, s[9].1) == s[9].2); }
    else { assert(spec_kernel_delta(s[10].0, s[10].1) == s[10].2); }
}

/// Each validation rejection is a transition of δ back to `Idle`.
proof fn lemma_rejection_arcs_are_kernel(j: int)
    requires
        0 <= j < rejection_arcs().len(),
    ensures
        spec_kernel_delta(rejection_arcs()[j].0, rejection_arcs()[j].1) == KernelPhase::Idle,
{
    reveal_with_fuel(table_lookup_from, 46);
    let s = rejection_arcs();
    if j == 0 { assert(spec_kernel_delta(s[0].0, s[0].1) == KernelPhase::Idle); }
    else if j == 1 { assert(spec_kernel_delta(s[1].0, s[1].1) == KernelPhase::Idle); }
    else if j == 2 { assert(spec_kernel_delta(s[2].0, s[2].1) == KernelPhase::Idle); }
    else if j == 3 { assert(spec_kernel_delta(s[3].0, s[3].1) == KernelPhase::Idle); }
    else if j == 4 { assert(spec_kernel_delta(s[4].0, s[4].1) == KernelPhase::Idle); }
    else { assert(spec_kernel_delta(s[5].0, s[5].1) == KernelPhase::Idle); }
}

/// The single transition each explicit canonical rule names is one δ makes.
proof fn lemma_explicit_rules_are_kernel(k: int, p: KernelPhase, i: KernelInputKind, t: KernelPhase)
    requires
        6 <= k < canonical_rules_view().len(),
        canonical_rules_view()[k].pattern.entries() == seq![(p, i, t)],
    ensures
        spec_kernel_delta(p, i) == t,
{
    reveal_with_fuel(table_lookup_from, 46);
    let v = canonical_rules_view();
    assert(seq![(p, i, t)][0] == (p, i, t));
    assert(v[k].pattern.entries()[0] == (p, i, t));
    if k == 6 { assert(spec_kernel_delta(p, i) == t); }
    else if k == 7 { assert(spec_kernel_delta(p, i) == t); }
    else if k == 8 { assert(spec_kernel_delta(p, i) == t); }
    else if k == 9 { assert(spec_kernel_delta(p, i) == t); }
    else if k == 10 { assert(spec_kernel_delta(p, i) == t); }
    else if k == 11 { assert(spec_kernel_delta(p, i) == t); }
    else if k == 12 { assert(spec_kernel_delta(p, i) == t); }
    else if k == 13 { assert(spec_kernel_delta(p, i) == t); }
    else if k == 14 { assert(spec_kernel_delta(p, i) == t); }
    else if k == 15 { assert(spec_kernel_delta(p, i) == t); }
    else if k == 16 { assert(spec_kernel_delta(p, i) == t); }
    else if k == 17 { assert(spec_kernel_delta(p, i) == t); }
    else if k == 18 { assert(spec_kernel_delta(p, i) == t); }
    else { assert(spec_kernel_delta(p, i) == t); }
}

/// Every transition a canonical rule generates is one the kernel's
/// transition function δ makes.
pub proof fn lemma_generated_transitions_are_kernel(k: int, p: KernelPhase, i: KernelInputKind, t: KernelPhase)
    requires
        rule_generates(k, p, i, t),
    ensures
        spec_kernel_delta(p, i) == t,
{
    reveal(rule_generates);
    let v = canonical_rules_view();
    let es = v[k].pattern.entries();
    let j = choose|j: int| 0 <= j < es.len() && es[j] == (p, i, t);
    lemma_absorbing_phases(i);
    if k == 0 {
        let pred = |x: KernelInputKind| !Seq::<KernelInputKind>::empty().contains(x);
        let f = all_inputs().filter(pred);
        assert(es == f.map_values(|x: KernelInputKind| (KernelPhase::Sealed, x, KernelPhase::Sealed)));
        assert(es[j] == (KernelPhase::Sealed, f[j], KernelPhase::Sealed));
    } else if k == 1 {
        let pred = |x: KernelInputKind| !seq![KernelInputKind::RecoveryAttempted].contains(x);
        let f = all_inputs().filter(pred);
        assert(es == f.map_values(|x: KernelInputKind| (KernelPhase::Faulted, x, KernelPhase::Faulted)));
        assert(es[j] == (KernelPhase::Faulted, f[j], KernelPhase::Faulted));
        all_inputs().lemma_filter_pred(pred, j);
        if i == KernelInputKind::RecoveryAttempted {
            assert(seq![KernelInputKind::RecoveryAttempted][0] == i);
        }
    } else if k == 2 {
        assert(es[0] == (KernelPhase::Faulted, KernelInputKind::RecoveryAttempted, KernelPhase::Recovering));
    } else if k == 3 {
        let u = universal_fault_phases();
        assert(es[j] == (u[j], KernelInputKind::FaultDetected, KernelPhase::Faulted));
        assert(!p.spec_is_terminal() && p != KernelPhase::Genesis) by {
            assert(j == 0 || j == 1 || j == 2 || j == 3 || j == 4 || j == 5 || j == 6 || j == 7 || j == 8 || j == 9 || j == 10
                || j == 11 || j == 12 || j == 13 || j == 14);
        }
        lemma_fault_from_live_phases(p);
    } else if k == 4 {
        assert(es == pipeline_steps());
        lemma_pipeline_steps_are_kernel(j);
    } else if k == 5 {
        let a = rejection_arcs();
        assert(es[j] == (a[j].0, a[j].1, KernelPhase::Idle));
        lemma_rejection_arcs_are_kernel(j);
    } else {
        assert(es.len() == 1);
        assert(es =~= seq![(p, i, t)]);
        lemma_explicit_rules_are_kernel(k, p, i, t);
    }
}

/// A certificate that checks claims a transition the kernel makes: its
/// target is δ of its phase and input. So a certificate whose claimed
/// phase, input or target differs from what its proof matched, or whose
/// claim δ does not make, never checks.
pub proof fn lemma_valid_certificate_claims_kernel_transition(c: TransitionCertificate)
    requires
        spec_cert_valid(c),
    ensures
        spec_kernel_delta(c.from_phase, c.input) == c.to_phase,
{
    lemma_generated_transitions_are_kernel(c.proof.rule_index as int, c.from_phase, c.input, c.to_phase);
}

// ─── ExecutionTrace ──────────────────────────────────────────────────────────

/// A record of an execution as a sequence of certificates.
#[derive(Debug, Clone)]
pub struct ExecutionTrace {
    pub realm_id: Option<RealmId>,
    pub initial_phase: KernelPhase,
    pub certificates: Vec<TransitionCertificate>,
}

/// The phase a trace ends in.
pub open spec fn spec_final_phase(t: ExecutionTrace) -> KernelPhase {
    if t.certificates@.len() == 0 {
        t.initial_phase
    } else {
        t.certificates@.last().to_phase
    }
}

/// Was the phase visited: the start of some step, or the end of the last one?
pub open spec fn visited(t: ExecutionTrace, p: KernelPhase) -> bool {
    ||| exists|j: int| 0 <= j < t.certificates@.len() && #[trigger] t.certificates@[j].from_phase == p
    ||| (t.certificates@.len() > 0 && t.certificates@.last().to_phase == p)
}

/// All phases in definition order.
pub open spec fn all_phases() -> Seq<KernelPhase> {
    Seq::new(NUM_PHASES as nat, |k: int| phase_at(k))
}

/// Steps that led to `Faulted`.
pub open spec fn fault_steps(certs: Seq<TransitionCertificate>) -> Seq<TransitionCertificate> {
    certs.filter(|c: TransitionCertificate| c.to_phase == KernelPhase::Faulted)
}

impl ExecutionTrace {
    pub fn new(realm_id: RealmId, initial_phase: KernelPhase) -> (r: Self)
        ensures
            r.realm_id == Some(realm_id),
            r.initial_phase == initial_phase,
            r.certificates@.len() == 0,
    {
        ExecutionTrace { realm_id: Some(realm_id), initial_phase, certificates: Vec::new() }
    }

    pub fn push(&mut self, cert: TransitionCertificate)
        ensures
            final(self).realm_id == old(self).realm_id,
            final(self).initial_phase == old(self).initial_phase,
            final(self).certificates@ == old(self).certificates@.push(cert),
    {
        self.certificates.push(cert);
    }

    pub fn len(&self) -> (r: usize)
        ensures
            r == self.certificates@.len(),
    {
        self.certificates.len()
    }

    pub fn is_empty(&self) -> (r: bool)
        ensures
            r == (self.certificates@.len() == 0),
    {
        self.certificates.len() == 0
    }

    /// The phase the trace ends in (the initial phase of an empty trace).
    pub fn final_phase(&self) -> (r: KernelPhase)
        ensures
            r == spec_final_phase(*self),
    {
        if self.certificates.len() == 0 {
            self.initial_phase
        } else {
            self.certificates[self.certificates.len() - 1].to_phase
        }
    }

    /// The set of phases visited, in definition order.
    pub fn phases_visited(&self) -> (r: Vec<KernelPhase>)
        ensures
            r@ == all_phases().filter(|p: KernelPhase| visited(*self, p)),
    {
        let ghost pred = |p: KernelPhase| visited(*self, p);
        let n = self.certificates.len();
        let mut out: Vec<KernelPhase> = Vec::new();
        let mut k: usize = 0;
        while k < NUM_PHASES
            invariant
                k <= NUM_PHASES,
                n == self.certificates@.len(),
                pred == (|p: KernelPhase| visited(*self, p)),
                out@ == all_phases().take(k as int).filter(pred),
            decreases NUM_PHASES - k,
        {
            let p = KernelPhase::from_index(k);
            proof {
                lemma_filter_take_succ(all_phases(), k as int, pred);
            }
            let mut found = false;
            let mut j: usize = 0;
            while j < n
                invariant
                    j <= n,
                    n == self.certificates@.len(),
                    found == exists|m: int| 0 <= m < j && #[trigger] self.certificates@[m].from_phase == p,
                decreases n - j,
            {
                if self.certificates[j].from_phase == p {
                    found = true;
                }
                j = j + 1;
            }
            if !found && n > 0 && self.certificates[n - 1].to_phase == p {
                found = true;
            }
            if found {
                out.push(p);
            }
            k = k + 1;
        }
        assert(all_phases().take(NUM_PHASES as int) =~= all_phases());
        out
    }

    /// Number of steps that led to `Faulted`.
    pub fn fault_count(&self) -> (r: usize)
        ensures
            r == fault_steps(self.certificates@).len(),
    {
        let ghost pred = |c: TransitionCertificate| c.to_phase == KernelPhase::Faulted;
        let mut count: usize = 0;
        let mut k: usize = 0;
        while k < self.certificates.len()
            invariant
                k <= self.certificates@.len(),
                pred == (|c: TransitionCertificate| c.to_phase == KernelPhase::Faulted),
                count == self.certificates@.take(k as int).filter(pred).len(),
                count <= k,
            decreases self.certificates@.len() - k,
        {
            proof {
                lemma_filter_take_succ(self.certificates@, k as int, pred);
            }
            if self.certificates[k].to_phase == KernelPhase::Faulted {
                count = count + 1;
            }
            k = k + 1;
        }
        assert(self.certificates@.take(self.certificates@.len() as int) =~= self.certificates@);
        count
    }
}

// ─── ProofChecker ─────────────────────────────────────────────────────────────

/// Why a step of a trace is invalid.
#[derive(Debug, Clone, PartialEq, Eq)]
pub enum InvalidReason {
    /// The rule does not generate the claimed transition.
    RuleDoesNotJustify { rule_name: String, from: KernelPhase, input: KernelInputKind, to: KernelPhase },
    /// to_phase of one step ≠ from_phase of the next.
    ChainBroken { prev_to: KernelPhase, next_from: KernelPhase },
    /// The first step doesn't start from the trace's initial phase.
    WrongInitialPhase { expected: KernelPhase, actual: KernelPhase },
    /// Sequence numbers are not increasing.
    NonMonotoneSeq { prev_seq: u64, next_seq: u64 },
    /// Rule index is out of bounds.
    RuleIndexOutOfBounds { index: usize, max: usize },
}

/// The mathematical value of an [`InvalidReason`].
pub enum InvalidReasonView {
    RuleDoesNotJustify { rule_name: Seq<char>, from: KernelPhase, input: KernelInputKind, to: KernelPhase },
    ChainBroken { prev_to: KernelPhase, next_from: KernelPhase },
    WrongInitialPhase { expected: KernelPhase, actual: KernelPhase },
    NonMonotoneSeq { prev_seq: u64, next_seq: u64 },
    RuleIndexOutOfBounds { index: usize, max: usize },
}

impl View for InvalidReason {
    type V = InvalidReasonView;

    open spec fn view(&self) -> InvalidReasonView {
        match self {
            InvalidReason::RuleDoesNotJustify { rule_name, from, input, to } =>
                InvalidReasonView::RuleDoesNotJustify { rule_name: rule_name@, from: *from, input: *input, to: *to },
            InvalidReason::ChainBroken { prev_to, next_from } => InvalidReasonView::ChainBroken { prev_to: *prev_to, next_from: *next_from },
            InvalidReason::WrongInitialPhase { expected, actual } => InvalidReasonView::WrongInitialPhase { expected: *expected, actual: *actual },
            InvalidReason::NonMonotoneSeq { prev_seq, next_seq } => InvalidReasonView::NonMonotoneSeq { prev_seq: *prev_seq, next_seq: *next_seq },
            InvalidReason::RuleIndexOutOfBounds { index, max } => InvalidReasonView::RuleIndexOutOfBounds { index: *index, max: *max },
        }
    }
}

/// Result of proof verification.
#[derive(Debug, Clone, PartialEq, Eq)]
pub enum ProofCheckResult {
    /// Every transition follows from a valid rule.
    Valid { steps_checked: usize },
    /// A specific step is invalid.
    Invalid { at_step: usize, reason: InvalidReason },
}

impl ProofCheckResult {
    pub fn is_valid(&self) -> (r: bool)
        ensures
            r == (self is Valid),
    {
        match self {
            ProofCheckResult::Valid { .. } => true,
            _ => false,
        }
    }
}

/// Why step `i` (checked in order: rule index, sequence, chain, justification)
/// is invalid, if it is.
pub open spec fn step_failure(certs: Seq<TransitionCertificate>, i: int) -> Option<InvalidReasonView> {
    let c = certs[i];
    if c.proof.rule_index >= canonical_rules_view().len() {
        Some(InvalidReasonView::RuleIndexOutOfBounds {
            index: c.proof.rule_index,
            max: (canonical_rules_view().len() - 1) as usize,
        })
    } else if i > 0 && c.seq <= certs[i - 1].seq {
        Some(InvalidReasonView::NonMonotoneSeq { prev_seq: certs[i - 1].seq, next_seq: c.seq })
    } else if i > 0 && c.from_phase != certs[i - 1].to_phase {
        Some(InvalidReasonView::ChainBroken { prev_to: certs[i - 1].to_phase, next_from: c.from_phase })
    } else if !spec_cert_valid(c) {
        Some(InvalidReasonView::RuleDoesNotJustify { rule_name: c.proof.rule_name@, from: c.from_phase, input: c.input, to: c.to_phase })
    } else {
        None
    }
}

/// The first invalid step at or after `i`, with its reason.
pub open spec fn first_failure_from(certs: Seq<TransitionCertificate>, i: int) -> Option<(int, InvalidReasonView)>
    decreases certs.len() - i,
{
    if i < 0 || i >= certs.len() {
        None
    } else {
        match step_failure(certs, i) {
            Some(r) => Some((i, r)),
            None => first_failure_from(certs, i + 1),
        }
    }
}

/// Is the result exactly what checking the trace gives?
pub open spec fn check_result_is(r: ProofCheckResult, t: ExecutionTrace) -> bool {
    let certs = t.certificates@;
    if certs.len() == 0 {
        r == ProofCheckResult::Valid { steps_checked: 0 }
    } else if certs[0].from_phase != t.initial_phase {
        r matches ProofCheckResult::Invalid { at_step, reason } && at_step == 0 && reason@
            == (InvalidReasonView::WrongInitialPhase { expected: t.initial_phase, actual: certs[0].from_phase })
    } else {
        match first_failure_from(certs, 0) {
            Some(f) => r matches ProofCheckResult::Invalid { at_step, reason } && at_step == f.0 && reason@ == f.1,
            None => r == ProofCheckResult::Valid { steps_checked: certs.len() as usize },
        }
    }
}

proof fn lemma_no_failure_means_each_step_passes(certs: Seq<TransitionCertificate>, i: int)
    requires
        0 <= i,
        first_failure_from(certs, i) is None,
    ensures
        forall|j: int| i <= j < certs.len() ==> #[trigger] step_failure(certs, j) is None,
    decreases certs.len() - i,
{
    if i < certs.len() {
        lemma_no_failure_means_each_step_passes(certs, i + 1);
    }
}

/// A trace the checker accepts is a run of the kernel: it starts at the
/// trace's initial phase, every certificate checks and claims a transition
/// the kernel's transition function δ makes, every step starts where the
/// one before it ended, and the sequence numbers increase.
pub proof fn lemma_accepted_trace_is_kernel_run(t: ExecutionTrace, r: ProofCheckResult)
    requires
        check_result_is(r, t),
        r is Valid,
    ensures
        t.certificates@.len() > 0 ==> t.certificates@[0].from_phase == t.initial_phase,
        forall|i: int| 0 <= i < t.certificates@.len() ==> spec_cert_valid(#[trigger] t.certificates@[i])
            && spec_kernel_delta(t.certificates@[i].from_phase, t.certificates@[i].input) == t.certificates@[i].to_phase,
        forall|i: int| 0 < i < t.certificates@.len() ==> (#[trigger] t.certificates@[i]).seq > t.certificates@[i - 1].seq
            && t.certificates@[i].from_phase == t.certificates@[i - 1].to_phase,
{
    let certs = t.certificates@;
    if certs.len() > 0 {
        lemma_no_failure_means_each_step_passes(certs, 0);
        assert forall|i: int| 0 <= i < certs.len() implies spec_cert_valid(#[trigger] certs[i])
            && spec_kernel_delta(certs[i].from_phase, certs[i].input) == certs[i].to_phase by {
            assert(step_failure(certs, i) is None);
            lemma_valid_certificate_claims_kernel_transition(certs[i]);
        }
        assert forall|i: int| 0 < i < certs.len() implies (#[trigger] certs[i]).seq > certs[i - 1].seq
            && certs[i].from_phase == certs[i - 1].to_phase by {
            assert(step_failure(certs, i) is None);
        }
    }
}

/// The trusted checker.
pub struct ProofChecker;

impl ProofChecker {
    /// Verify a complete execution trace against the canonical rules.
    pub fn verify_trace(trace: &ExecutionTrace) -> (r: ProofCheckResult)
        ensures
            check_result_is(r, *trace),
    {
        let rules = canonical_rules();
        assert(rules@.map_values(|t: TransitionRule| t@).len() == rules@.len());
        let n = trace.certificates.len();
        if n == 0 {
            return ProofCheckResult::Valid { steps_checked: 0 };
        }
        if trace.certificates[0].from_phase != trace.initial_phase {
            return ProofCheckResult::Invalid {
                at_step: 0,
                reason: InvalidReason::WrongInitialPhase {
                    expected: trace.initial_phase,
                    actual: trace.certificates[0].from_phase,
                },
            };
        }
        let ghost certs = trace.certificates@;
        let mut i: usize = 0;
        while i < n
            invariant
                i <= n,
                n == certs.len(),
                certs == trace.certificates@,
                certs[0].from_phase == trace.initial_phase,
                rules@.len() == canonical_rules_view().len(),
                first_failure_from(certs, 0) == first_failure_from(certs, i as int),
            decreases n - i,
        {
            let cert = &trace.certificates[i];
            proof {
                assert(certs[i as int] == *cert);
                assert(first_failure_from(certs, i as int) == match step_failure(certs, i as int) {
                    Some(r) => Some((i as int, r)),
                    None => first_failure_from(certs, i + 1),
                });
            }
            if cert.proof.rule_index >= rules.len() {
                assert(canonical_rules_view().len() == 19);
                return ProofCheckResult::Invalid {
                    at_step: i,
                    reason: InvalidReason::RuleIndexOutOfBounds { index: cert.proof.rule_index, max: rules.len() - 1 },
                };
            }
            if i > 0 && cert.seq <= trace.certificates[i - 1].seq {
                assert(step_failure(certs, i as int) == Some(InvalidReasonView::NonMonotoneSeq {
                    prev_seq: certs[i - 1].seq,
                    next_seq: cert.seq,
                }));
                return ProofCheckResult::Invalid {
                    at_step: i,
                    reason: InvalidReason::NonMonotoneSeq {
                        prev_seq: trace.certificates[i - 1].seq,
                        next_seq: cert.seq,
                    },
                };
            }
            if i > 0 {
                let prev_to = trace.certificates[i - 1].to_phase;
                if cert.from_phase != prev_to {
                    return ProofCheckResult::Invalid {
                        at_step: i,
                        reason: InvalidReason::ChainBroken { prev_to, next_from: cert.from_phase },
                    };
                }
            }
            if !cert.verify() {
                return ProofCheckResult::Invalid {
                    at_step: i,
                    reason: InvalidReason::RuleDoesNotJustify {
                        rule_name: cert.proof.rule_name.clone(),
                        from: cert.from_phase,
                        input: cert.input,
                        to: cert.to_phase,
                    },
                };
            }
            i = i + 1;
        }
        ProofCheckResult::Valid { steps_checked: n }
    }

    /// Verify a single certificate.
    pub fn verify_certificate(cert: &TransitionCertificate) -> (r: bool)
        ensures
            r == spec_cert_valid(*cert),
    {
        cert.verify()
    }
}

/// A trace of valid, chained certificates with increasing sequence numbers,
/// starting at the trace's initial phase, checks as valid.
pub proof fn lemma_chained_valid_trace_checks(t: ExecutionTrace)
    requires
        t.certificates@.len() > 0 ==> t.certificates@[0].from_phase == t.initial_phase,
        forall|i: int| 0 <= i < t.certificates@.len() ==> spec_cert_valid(#[trigger] t.certificates@[i]),
        forall|i: int| 0 < i < t.certificates@.len() ==> (#[trigger] t.certificates@[i]).seq > t.certificates@[i - 1].seq
            && t.certificates@[i].from_phase == t.certificates@[i - 1].to_phase,
    ensures
        forall|r: ProofCheckResult| check_result_is(r, t) ==> r == (ProofCheckResult::Valid { steps_checked: t.certificates@.len() as usize }),
{
    let certs = t.certificates@;
    lemma_no_failure_from(certs, 0);
    assert forall|r: ProofCheckResult| check_result_is(r, t) implies r == (ProofCheckResult::Valid {
        steps_checked: t.certificates@.len() as usize,
    }) by {
        assert(first_failure_from(certs, 0) is None);
    }
}

proof fn lemma_no_failure_from(certs: Seq<TransitionCertificate>, i: int)
    requires
        0 <= i <= certs.len(),
        forall|j: int| 0 <= j < certs.len() ==> spec_cert_valid(#[trigger] certs[j]),
        forall|j: int| 0 < j < certs.len() ==> (#[trigger] certs[j]).seq > certs[j - 1].seq
            && certs[j].from_phase == certs[j - 1].to_phase,
    ensures
        first_failure_from(certs, i) is None,
    decreases certs.len() - i,
{
    if i < certs.len() {
        let c = certs[i];
        assert(spec_cert_valid(c));
        assert(i > 0 ==> c.seq > certs[i - 1].seq && c.from_phase == certs[i - 1].to_phase);
        assert(step_failure(certs, i) is None);
        lemma_no_failure_from(certs, i + 1);
    }
}

// ─── CertificateBuilder ───────────────────────────────────────────────────────

/// Index of the first canonical rule at or after `k` that generates (p, i) → t.
pub open spec fn first_justifying_from(k: int, p: KernelPhase, i: KernelInputKind, t: KernelPhase) -> Option<int>
    decreases canonical_rules_view().len() - k,
{
    if k < 0 || k >= canonical_rules_view().len() {
        None
    } else if rule_generates(k, p, i, t) {
        Some(k)
    } else {
        first_justifying_from(k + 1, p, i, t)
    }
}

proof fn lemma_first_justifying(k: int, p: KernelPhase, i: KernelInputKind, t: KernelPhase)
    requires
        0 <= k,
    ensures
        first_justifying_from(k, p, i, t) matches Some(x) ==> k <= x && rule_generates(x, p, i, t),
        (exists|x: int| k <= x && #[trigger] rule_generates(x, p, i, t)) ==> first_justifying_from(k, p, i, t) is Some,
    decreases canonical_rules_view().len() - k,
{
    if k < canonical_rules_view().len() {
        lemma_first_justifying(k + 1, p, i, t);
        if exists|x: int| k <= x && #[trigger] rule_generates(x, p, i, t) {
            let x = choose|x: int| k <= x && #[trigger] rule_generates(x, p, i, t);
            if x != k {
                assert(k + 1 <= x && rule_generates(x, p, i, t));
            }
        }
    } else {
        reveal(rule_generates);
    }
}

/// A certificate can be built for a claim exactly when some canonical rule
/// generates it, and a claim that can be built is a transition the kernel's
/// transition function δ makes.
pub proof fn lemma_buildable_claims(p: KernelPhase, i: KernelInputKind, t: KernelPhase)
    ensures
        (first_justifying_from(0, p, i, t) is Some) <==> (exists|k: int| #[trigger] rule_generates(k, p, i, t)),
        first_justifying_from(0, p, i, t) is Some ==> spec_kernel_delta(p, i) == t,
{
    lemma_first_justifying(0, p, i, t);
    if exists|k: int| #[trigger] rule_generates(k, p, i, t) {
        let k = choose|k: int| #[trigger] rule_generates(k, p, i, t);
        reveal(rule_generates);
        assert(0 <= k);
        lemma_generated_transitions_are_kernel(k, p, i, t);
    }
}

/// Builds certificates by finding the first canonical rule that generates a transition.
pub struct CertificateBuilder {
    rules: Vec<TransitionRule>,
    seq: u64,
    lamport: u64,
}

impl CertificateBuilder {
    /// The sequence number of the last certificate built.
    pub closed spec fn spec_seq(&self) -> u64 {
        self.seq
    }

    /// The Lamport counter stamped on new certificates.
    pub closed spec fn spec_lamport(&self) -> u64 {
        self.lamport
    }

    #[verifier::type_invariant]
    closed spec fn holds_canonical_rules(&self) -> bool {
        self.rules@.map_values(|t: TransitionRule| t@) == canonical_rules_view()
    }

    pub fn new() -> (r: Self)
        ensures
            r.spec_seq() == 0,
            r.spec_lamport() == 0,
    {
        CertificateBuilder { rules: canonical_rules(), seq: 0, lamport: 0 }
    }

    pub fn set_lamport(&mut self, l: u64)
        ensures
            final(self).spec_lamport() == l,
            final(self).spec_seq() == old(self).spec_seq(),
    {
        proof {
            use_type_invariant(&*self);
        }
        self.lamport = l;
    }

    /// Build a certificate for (from, input) → to, justified by the first
    /// canonical rule that generates it; `None` if no rule does.
    pub fn build(&mut self, from: KernelPhase, input: KernelInputKind, to: KernelPhase) -> (r: Option<TransitionCertificate>)
        requires
            old(self).spec_seq() < u64::MAX,
        ensures
            final(self).spec_lamport() == old(self).spec_lamport(),
            match first_justifying_from(0, from, input, to) {
                None => r is None && final(self).spec_seq() == old(self).spec_seq(),
                Some(k) => r matches Some(c) && {
                    &&& final(self).spec_seq() == old(self).spec_seq() + 1
                    &&& c.seq == final(self).spec_seq()
                    &&& c.from_phase == from && c.input == input && c.to_phase == to
                    &&& c.lamport == old(self).spec_lamport()
                    &&& c.proof.rule_index == k
                    &&& c.proof.matched_phase == from && c.proof.matched_input == input && c.proof.produces == to
                    &&& c.proof.rule_name@ == canonical_rules_view()[k].name
                    &&& spec_cert_valid(c)
                },
            },
    {
        proof {
            use_type_invariant(&*self);
        }
        let ghost rv = self.rules@.map_values(|t: TransitionRule| t@);
        assert(rv.len() == self.rules@.len());
        let mut idx: usize = 0;
        while idx < self.rules.len()
            invariant
                idx <= self.rules@.len(),
                rv == self.rules@.map_values(|t: TransitionRule| t@),
                rv == canonical_rules_view(),
                self.seq == old(self).seq,
                self.lamport == old(self).lamport,
                self.rules == old(self).rules,
                old(self).seq < u64::MAX,
                first_justifying_from(0, from, input, to) == first_justifying_from(idx as int, from, input, to),
            decreases self.rules@.len() - idx,
        {
            assert(rv[idx as int] == self.rules@[idx as int]@);
            let entries = self.rules[idx].synthesize();
            proof {
                reveal(rule_generates);
            }
            if entries_contain(&entries, (from, input, to)) {
                self.seq = self.seq + 1;
                let name = String::from_str(self.rules[idx].name);
                return Some(TransitionCertificate {
                    seq: self.seq,
                    from_phase: from,
                    input,
                    to_phase: to,
                    proof: RuleMatchProof {
                        rule_name: name,
                        rule_index: idx,
                        matched_phase: from,
                        matched_input: input,
                        produces: to,
                    },
                    lamport: self.lamport,
                });
            }
            idx = idx + 1;
        }
        None
    }
}

} // verus!
