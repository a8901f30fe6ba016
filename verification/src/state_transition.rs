//! The state transition as an explicit function `f: (S, E) → S'`, the log
//! of validated transitions, and the proof that replaying the same events
//! from the same start rebuilds the same state.

use vstd::prelude::*;
use crate::invariants::{violation_text, InvariantViolation, StateInvariants};
use crate::projection_contract::EventRange;
use crate::realm_id::RealmId;
use crate::realm_state::RealmState;
use crate::text::{decimal, same_text};
use crate::transition::{TransitionError, TransitionErrorView};

verus! {

// ─── StateTransition ─────────────────────────────────────────────────────────

/// A validated state transition: the version advanced by one and the realm
/// stayed the same.
#[derive(Debug, Clone)]
pub struct StateTransition {
    pub event_id: String,
    pub schema_id: String,
    pub lamport: u64,
    pub from_version: u64,
    pub to_version: u64,
    pub realm_id: RealmId,
    pub state_checksum_before: String,
    pub state_checksum_after: String,
}

/// The mathematical value of a [`StateTransition`].
pub struct TransitionView {
    pub event_id: Seq<char>,
    pub schema_id: Seq<char>,
    pub lamport: u64,
    pub from_version: u64,
    pub to_version: u64,
    pub realm_id: RealmId,
    pub checksum_before: Seq<char>,
    pub checksum_after: Seq<char>,
}

impl View for StateTransition {
    type V = TransitionView;

    open spec fn view(&self) -> TransitionView {
        TransitionView {
            event_id: self.event_id@,
            schema_id: self.schema_id@,
            lamport: self.lamport,
            from_version: self.from_version,
            to_version: self.to_version,
            realm_id: self.realm_id,
            checksum_before: self.state_checksum_before@,
            checksum_after: self.state_checksum_after@,
        }
    }
}

/// Does the step from `before` to `after` keep the invariants: the version
/// advances by one and the realm stays?
pub open spec fn valid_step(before: RealmState, after: RealmState) -> bool {
    after.version == before.version + 1 && after.realm_id == before.realm_id
}

/// The violation a step that is not valid is reported with.
pub open spec fn step_violation(before: RealmState, after: RealmState) -> InvariantViolation {
    if after.version != before.version + 1 {
        InvariantViolation::VersionNotMonotone { expected: (before.version + 1) as u64, actual: after.version }
    } else {
        InvariantViolation::RealmIdChanged { from: before.realm_id, to: after.realm_id }
    }
}

/// The record of a valid step.
pub open spec fn transition_of(
    event_id: Seq<char>,
    schema_id: Seq<char>,
    lamport: u64,
    before: RealmState,
    after: RealmState,
) -> TransitionView {
    TransitionView {
        event_id,
        schema_id,
        lamport,
        from_version: before.version,
        to_version: after.version,
        realm_id: after.realm_id,
        checksum_before: before.spec_checksum(),
        checksum_after: after.spec_checksum(),
    }
}

impl StateTransition {
    /// Record a step, refused (as a causality violation) unless the version
    /// advances by one and the realm stays.
    pub fn record(event_id: &str, schema_id: &str, lamport: u64, before: &RealmState, after: &RealmState) -> (r: Result<Self, TransitionError>)
        requires
            before.version < u64::MAX,
        ensures
            match r {
                Ok(t) => valid_step(*before, *after) && t@ == transition_of(event_id@, schema_id@, lamport, *before, *after),
                Err(e) => !valid_step(*before, *after) && e@ == TransitionErrorView::CausalityViolation(
                    violation_text(step_violation(*before, *after)),
                ),
            },
    {
        match StateInvariants::check_transition(before, after) {
            Err(v) => {
                return Err(TransitionError::from_violation(v));
            },
            Ok(()) => {},
        }
        Ok(StateTransition {
            event_id: event_id.to_owned(),
            schema_id: schema_id.to_owned(),
            lamport,
            from_version: before.version,
            to_version: after.version,
            realm_id: after.realm_id,
            state_checksum_before: before.checksum(),
            state_checksum_after: after.checksum(),
        })
    }

    /// How many versions the step advanced.
    pub fn version_delta(&self) -> (r: u64)
        requires
            self.from_version <= self.to_version,
        ensures
            r == self.to_version - self.from_version,
    {
        self.to_version - self.from_version
    }

    /// Did the entities change?
    pub fn state_changed(&self) -> (r: bool)
        ensures
            r == (self.state_checksum_before@ != self.state_checksum_after@),
    {
        !same_text(self.state_checksum_before.as_str(), self.state_checksum_after.as_str())
    }
}

// ─── TransitionLog ───────────────────────────────────────────────────────────

/// Consecutive transitions have increasing Lamport counters, and each starts
/// at the version the one before it ended at.
pub open spec fn chained(ts: Seq<TransitionView>) -> bool {
    forall|i: int| 0 < i < ts.len() ==> #[trigger] ts[i].lamport > ts[i - 1].lamport && ts[i].from_version == ts[i - 1].to_version
}

/// The message of a version gap.
pub open spec fn gap_text(expected: u64, got: u64) -> Seq<char> {
    "version gap: expected from="@ + decimal(expected as nat) + ", got "@ + decimal(got as nat)
}

/// What recording `t` after the transitions `ts` gives: the error, if it is
/// refused, or none.
pub open spec fn log_refusal(ts: Seq<TransitionView>, t: TransitionView) -> Option<TransitionErrorView> {
    if ts.len() > 0 && t.lamport <= ts.last().lamport {
        Some(TransitionErrorView::DuplicateLamport(t.lamport))
    } else if ts.len() > 0 && t.from_version != ts.last().to_version {
        Some(TransitionErrorView::CausalityViolation(gap_text(ts.last().to_version, t.from_version)))
    } else {
        None
    }
}

/// The range of Lamport counters a list of transitions covers.
pub open spec fn range_of(ts: Seq<TransitionView>) -> EventRange {
    if ts.len() > 0 {
        EventRange { from_lamport: ts[0].lamport, to_lamport: ts.last().lamport, event_count: ts.len() as u64 }
    } else {
        EventRange { from_lamport: 0, to_lamport: 0, event_count: 0 }
    }
}

/// The version at the tip of a list of transitions (0 when empty).
pub open spec fn tip_version(ts: Seq<TransitionView>) -> u64 {
    if ts.len() > 0 {
        ts.last().to_version
    } else {
        0
    }
}

/// The append-only log of a realm's transitions.
#[derive(Debug, Clone)]
pub struct TransitionLog {
    pub realm_id: Option<RealmId>,
    transitions: Vec<StateTransition>,
}

impl TransitionLog {
    pub closed spec fn spec_realm(&self) -> Option<RealmId> {
        self.realm_id
    }

    /// The transitions, oldest first.
    pub closed spec fn spec_transitions(&self) -> Seq<TransitionView> {
        self.transitions@.map_values(|t: StateTransition| t@)
    }

    pub fn new(realm_id: RealmId) -> (r: Self)
        ensures
            r.spec_realm() == Some(realm_id),
            r.spec_transitions().len() == 0,
    {
        TransitionLog { realm_id: Some(realm_id), transitions: Vec::new() }
    }

    /// Take back the last transition.
    pub(crate) fn undo_last(&mut self)
        requires
            old(self).spec_transitions().len() > 0,
        ensures
            final(self).spec_realm() == old(self).spec_realm(),
            final(self).spec_transitions() == old(self).spec_transitions().drop_last(),
    {
        let _ = self.transitions.pop();
        assert(self.spec_transitions() =~= old(self).spec_transitions().drop_last());
    }

    /// Append a transition, refused if its Lamport counter does not exceed
    /// the last one's or it does not start where the last one ended.
    pub fn record(&mut self, t: StateTransition) -> (r: Result<(), TransitionError>)
        ensures
            final(self).spec_realm() == old(self).spec_realm(),
            match log_refusal(old(self).spec_transitions(), t@) {
                Some(e) => r matches Err(x) && x@ == e && final(self).spec_transitions() == old(self).spec_transitions(),
                None => r is Ok && final(self).spec_transitions() == old(self).spec_transitions().push(t@),
            },
            chained(old(self).spec_transitions()) ==> chained(final(self).spec_transitions()),
    {
        let n = self.transitions.len();
        if n > 0 {
            let last_lamport = self.transitions[n - 1].lamport;
            let last_to = self.transitions[n - 1].to_version;
            if t.lamport <= last_lamport {
                return Err(TransitionError::DuplicateLamport(t.lamport));
            }
            if t.from_version != last_to {
                let mut m = String::from_str("version gap: expected from=");
                crate::text::push_decimal_u64(&mut m, last_to);
                m.append(", got ");
                crate::text::push_decimal_u64(&mut m, t.from_version);
                proof {
                    reveal_strlit("version gap: expected from=");
                    reveal_strlit(", got ");
                }
                return Err(TransitionError::CausalityViolation(m));
            }
        }
        let ghost before = self.spec_transitions();
        self.transitions.push(t);
        proof {
            assert(self.spec_transitions() =~= before.push(t@));
        }
        Ok(())
    }

    pub fn len(&self) -> (r: usize)
        ensures
            r == self.spec_transitions().len(),
    {
        self.transitions.len()
    }

    pub fn is_empty(&self) -> (r: bool)
        ensures
            r == (self.spec_transitions().len() == 0),
    {
        self.transitions.len() == 0
    }

    /// The most recent transition.
    pub fn latest(&self) -> (r: Option<&StateTransition>)
        ensures
            match r {
                Some(t) => self.spec_transitions().len() > 0 && t@ == self.spec_transitions().last(),
                None => self.spec_transitions().len() == 0,
            },
    {
        let n = self.transitions.len();
        if n == 0 {
            None
        } else {
            Some(&self.transitions[n - 1])
        }
    }

    /// The version at the tip (0 when empty).
    pub fn current_version(&self) -> (r: u64)
        ensures
            r == tip_version(self.spec_transitions()),
    {
        let n = self.transitions.len();
        if n == 0 {
            0
        } else {
            self.transitions[n - 1].to_version
        }
    }

    /// The Lamport range the log covers.
    pub fn event_range(&self) -> (r: EventRange)
        ensures
            r == range_of(self.spec_transitions()),
    {
        let n = self.transitions.len();
        if n == 0 {
            EventRange::empty()
        } else {
            EventRange::new(self.transitions[0].lamport, self.transitions[n - 1].lamport, n as u64)
        }
    }

    /// The state checksum at the tip.
    pub fn tip_checksum(&self) -> (r: Option<&str>)
        ensures
            match r {
                Some(c) => self.spec_transitions().len() > 0 && c@ == self.spec_transitions().last().checksum_after,
                None => self.spec_transitions().len() == 0,
            },
    {
        let n = self.transitions.len();
        if n == 0 {
            None
        } else {
            Some(self.transitions[n - 1].state_checksum_after.as_str())
        }
    }
}

impl Default for TransitionLog {
    fn default() -> (r: Self)
        ensures
            r.spec_realm() is None,
            r.spec_transitions().len() == 0,
    {
        TransitionLog { realm_id: None, transitions: Vec::new() }
    }
}

// ─── ReplayIdentityProof ─────────────────────────────────────────────────────

/// Whether replaying the events rebuilt the state the log ended at.
#[derive(Debug, Clone, PartialEq, Eq)]
pub enum ReplayIdentityProof {
    /// The same events gave the same final state.
    Confirmed { event_range: EventRange, final_checksum: String, transition_count: u64 },
    /// The rebuilt state differs: a determinism failure.
    Diverged { event_range: EventRange, original_checksum: String, rebuilt_checksum: String, diverged_at_lamport: Option<u64> },
}

impl ReplayIdentityProof {
    pub fn is_confirmed(&self) -> (r: bool)
        ensures
            r == (*self is Confirmed),
    {
        match self {
            ReplayIdentityProof::Confirmed { .. } => true,
            _ => false,
        }
    }

    pub fn is_diverged(&self) -> (r: bool)
        ensures
            r == (*self is Diverged),
    {
        match self {
            ReplayIdentityProof::Diverged { .. } => true,
            _ => false,
        }
    }
}

/// Replay identity holds for a log and a rebuilt state: the log is empty,
/// or the rebuilt state has the log's tip checksum and tip version.
pub open spec fn replay_identity(ts: Seq<TransitionView>, rebuilt: RealmState) -> bool {
    ts.len() == 0 || (rebuilt.spec_checksum() == ts.last().checksum_after && rebuilt.version == ts.last().to_version)
}

/// The verdict on a log and a rebuilt state: confirmed with the log's range,
/// the rebuilt checksum and the transition count when replay identity
/// holds; else diverged at the log's last transition.
pub open spec fn verdict_of(ts: Seq<TransitionView>, rebuilt: RealmState, r: ReplayIdentityProof) -> bool {
    if replay_identity(ts, rebuilt) {
        r matches ReplayIdentityProof::Confirmed { event_range, final_checksum, transition_count } && event_range == range_of(ts)
            && final_checksum@ == rebuilt.spec_checksum() && transition_count == ts.len()
    } else {
        r matches ReplayIdentityProof::Diverged { event_range, original_checksum, rebuilt_checksum, diverged_at_lamport }
            && event_range == range_of(ts) && original_checksum@ == ts.last().checksum_after && rebuilt_checksum@
            == rebuilt.spec_checksum() && diverged_at_lamport == Some(ts.last().lamport)
    }
}

/// Computes the replay identity verdict.
pub struct ReplayIdentityVerifier;

impl ReplayIdentityVerifier {
    /// Compare the log's tip with a state rebuilt from the same events.
    pub fn verify(original_log: &TransitionLog, rebuilt_state: &RealmState) -> (r: ReplayIdentityProof)
        ensures
            verdict_of(original_log.spec_transitions(), *rebuilt_state, r),
    {
        let event_range = original_log.event_range();
        let original = match original_log.tip_checksum() {
            Some(ck) => ck,
            None => {
                return ReplayIdentityProof::Confirmed { event_range, final_checksum: rebuilt_state.checksum(), transition_count: 0 };
            },
        };
        let rebuilt = rebuilt_state.checksum();
        if same_text(original, rebuilt.as_str()) && rebuilt_state.version == original_log.current_version() {
            ReplayIdentityProof::Confirmed {
                event_range,
                final_checksum: rebuilt,
                transition_count: original_log.len() as u64,
            }
        } else {
            let at = match original_log.latest() {
                Some(t) => Some(t.lamport),
                None => None,
            };
            ReplayIdentityProof::Diverged { event_range, original_checksum: original.to_owned(), rebuilt_checksum: rebuilt, diverged_at_lamport: at }
        }
    }
}

// ─── ReplaySession ───────────────────────────────────────────────────────────

/// What applying one event to a session gives, when the transition function
/// returned `out`: the result, and the state and transitions afterwards. A
/// failure anywhere leaves both as they were.
pub open spec fn apply_outcome(
    state: RealmState,
    ts: Seq<TransitionView>,
    event_id: Seq<char>,
    schema_id: Seq<char>,
    lamport: u64,
    out: Result<RealmState, TransitionError>,
) -> (Result<(), TransitionErrorView>, RealmState, Seq<TransitionView>) {
    match out {
        Err(e) => (Err(e@), state, ts),
        Ok(next) => {
            if !valid_step(state, next) {
                (Err(TransitionErrorView::CausalityViolation(violation_text(step_violation(state, next)))), state, ts)
            } else {
                let t = transition_of(event_id, schema_id, lamport, state, next);
                match log_refusal(ts, t) {
                    Some(e) => (Err(e), state, ts),
                    None => (Ok(()), next, ts.push(t)),
                }
            }
        },
    }
}

/// A replay: events applied one by one to a starting state, each recorded.
pub struct ReplaySession {
    pub current_state: RealmState,
    pub log: TransitionLog,
}

impl ReplaySession {
    /// A session at `initial`, with an empty log for its realm.
    pub fn from(initial: RealmState) -> (r: Self)
        ensures
            r.current_state == initial,
            r.log.spec_realm() == Some(initial.realm_id),
            r.log.spec_transitions().len() == 0,
    {
        let realm = initial.realm_id;
        ReplaySession { current_state: initial, log: TransitionLog::new(realm) }
    }

    /// Apply one event through the transition function `f`, record the
    /// transition, and move to the new state; on any failure nothing changes.
    pub fn apply<E, F: Fn(&RealmState, E) -> Result<RealmState, TransitionError>>(
        &mut self,
        f: F,
        event_id: &str,
        schema_id: &str,
        lamport: u64,
        event: E,
    ) -> (r: Result<(), TransitionError>)
        requires
            f.requires((&old(self).current_state, event)),
            old(self).current_state.version < u64::MAX,
        ensures
            final(self).log.spec_realm() == old(self).log.spec_realm(),
            exists|out: Result<RealmState, TransitionError>|
                {
                    &&& f.ensures((&old(self).current_state, event), out)
                    &&& #[trigger] apply_outcome(
                        old(self).current_state,
                        old(self).log.spec_transitions(),
                        event_id@,
                        schema_id@,
                        lamport,
                        out,
                    ) == (
                        match r {
                            Ok(()) => Ok(()),
                            Err(e) => Err(e@),
                        },
                        final(self).current_state,
                        final(self).log.spec_transitions(),
                    )
                },
    {
        let out = f(&self.current_state, event);
        let ghost outcome = apply_outcome(self.current_state, self.log.spec_transitions(), event_id@, schema_id@, lamport, out);
        let next = match out {
            Ok(n) => n,
            Err(e) => {
                return Err(e);
            },
        };
        let t = match StateTransition::record(event_id, schema_id, lamport, &self.current_state, &next) {
            Ok(t) => t,
            Err(e) => {
                return Err(e);
            },
        };
        match self.log.record(t) {
            Ok(()) => {},
            Err(e) => {
                return Err(e);
            },
        }
        self.current_state = next;
        Ok(())
    }

    /// Compare the original log with this session's state.
    pub fn verify_identity(&self, original_log: &TransitionLog) -> (r: ReplayIdentityProof)
        ensures
            replay_identity(original_log.spec_transitions(), self.current_state) <==> r is Confirmed,
    {
        ReplayIdentityVerifier::verify(original_log, &self.current_state)
    }

    pub fn current_version(&self) -> (r: u64)
        ensures
            r == self.current_state.version,
    {
        self.current_state.version
    }
}

// ─── Laws ────────────────────────────────────────────────────────────────────

/// A session agrees with its own log: each applied event leaves the log's tip
/// at the session's state, so replay identity holds for it.
pub proof fn lemma_apply_keeps_identity(
    state: RealmState,
    ts: Seq<TransitionView>,
    event_id: Seq<char>,
    schema_id: Seq<char>,
    lamport: u64,
    out: Result<RealmState, TransitionError>,
)
    requires
        replay_identity(ts, state),
    ensures
        replay_identity(apply_outcome(state, ts, event_id, schema_id, lamport, out).2, apply_outcome(state, ts, event_id, schema_id, lamport, out).1),
{
}

/// Applying keeps a log chained.
pub proof fn lemma_apply_keeps_chain(
    state: RealmState,
    ts: Seq<TransitionView>,
    event_id: Seq<char>,
    schema_id: Seq<char>,
    lamport: u64,
    out: Result<RealmState, TransitionError>,
)
    requires
        chained(ts),
    ensures
        chained(apply_outcome(state, ts, event_id, schema_id, lamport, out).2),
{
    let o = apply_outcome(state, ts, event_id, schema_id, lamport, out);
    if o.2.len() == ts.len() + 1 {
        assert forall|i: int| 0 < i < o.2.len() implies #[trigger] o.2[i].lamport > o.2[i - 1].lamport && o.2[i].from_version
            == o.2[i - 1].to_version by {
            if i < ts.len() {
                assert(o.2[i] == ts[i] && o.2[i - 1] == ts[i - 1]);
            }
        }
    }
}

/// One replayed event: its id, schema id, Lamport counter, and what the
/// transition function returned for it.
pub type ReplayStep = (Seq<char>, Seq<char>, u64, Result<RealmState, TransitionError>);

/// The state and transitions after replaying `steps` from `state` and `ts`.
pub open spec fn replay_steps(state: RealmState, ts: Seq<TransitionView>, steps: Seq<ReplayStep>) -> (RealmState, Seq<TransitionView>)
    decreases steps.len(),
{
    if steps.len() == 0 {
        (state, ts)
    } else {
        let prev = replay_steps(state, ts, steps.drop_last());
        let s = steps.last();
        let o = apply_outcome(prev.0, prev.1, s.0, s.1, s.2, s.3);
        (o.1, o.2)
    }
}

/// Rebuild guarantee: replaying events from a state that agrees with its log
/// ends at a state that agrees with the resulting log. So a session rebuilt
/// from the same start, whose transition function gives the same results for
/// the same events, has the original log's tip checksum and version, and its
/// replay is confirmed against the original log.
pub proof fn lemma_rebuild_guarantee(state: RealmState, ts: Seq<TransitionView>, steps: Seq<ReplayStep>)
    requires
        replay_identity(ts, state),
    ensures
        replay_identity(replay_steps(state, ts, steps).1, replay_steps(state, ts, steps).0),
    decreases steps.len(),
{
    if steps.len() > 0 {
        lemma_rebuild_guarantee(state, ts, steps.drop_last());
        let prev = replay_steps(state, ts, steps.drop_last());
        let s = steps.last();
        lemma_apply_keeps_identity(prev.0, prev.1, s.0, s.1, s.2, s.3);
    }
}

/// Replaying keeps a log chained.
pub proof fn lemma_replay_keeps_chain(state: RealmState, ts: Seq<TransitionView>, steps: Seq<ReplayStep>)
    requires
        chained(ts),
    ensures
        chained(replay_steps(state, ts, steps).1),
    decreases steps.len(),
{
    if steps.len() > 0 {
        lemma_replay_keeps_chain(state, ts, steps.drop_last());
        let prev = replay_steps(state, ts, steps.drop_last());
        let s = steps.last();
        lemma_apply_keeps_chain(prev.0, prev.1, s.0, s.1, s.2, s.3);
    }
}

} // verus!
