//! The kernel arbitration layer: no two events of a realm share a Lamport
//! counter, no event is processed twice, and no event comes before its
//! causal parent.

use vstd::prelude::*;
use crate::realm_id::{realm_name, RealmId};
use crate::text::{decimal, same_text};

verus! {

/// Why arbitration refused an event.
#[derive(Debug, Clone, PartialEq, Eq)]
pub enum ArbitrationError {
    CausalityCycle(String),
    DuplicateLamport { realm: RealmId, lamport: u64 },
    InvalidRealmTransition { from: RealmId, to: RealmId, reason: String },
    ReplayParadox { id: String },
    CyclicApproval(String),
}

/// The mathematical value of an [`ArbitrationError`].
pub enum ArbitrationErrorView {
    CausalityCycle(Seq<char>),
    DuplicateLamport { realm: RealmId, lamport: u64 },
    InvalidRealmTransition { from: RealmId, to: RealmId, reason: Seq<char> },
    ReplayParadox { id: Seq<char> },
    CyclicApproval(Seq<char>),
}

impl View for ArbitrationError {
    type V = ArbitrationErrorView;

    open spec fn view(&self) -> ArbitrationErrorView {
        match self {
            ArbitrationError::CausalityCycle(s) => ArbitrationErrorView::CausalityCycle(s@),
            ArbitrationError::DuplicateLamport { realm, lamport } => ArbitrationErrorView::DuplicateLamport { realm: *realm, lamport: *lamport },
            ArbitrationError::InvalidRealmTransition { from, to, reason } => ArbitrationErrorView::InvalidRealmTransition {
                from: *from,
                to: *to,
                reason: reason@,
            },
            ArbitrationError::ReplayParadox { id } => ArbitrationErrorView::ReplayParadox { id: id@ },
            ArbitrationError::CyclicApproval(s) => ArbitrationErrorView::CyclicApproval(s@),
        }
    }
}

/// The message an arbitration error prints.
pub open spec fn arbitration_text(e: ArbitrationErrorView) -> Seq<char> {
    match e {
        ArbitrationErrorView::CausalityCycle(s) => "causality cycle detected: "@ + s,
        ArbitrationErrorView::DuplicateLamport { realm, lamport } => "duplicate lamport "@ + decimal(lamport as nat)
            + " in realm "@ + realm_name(realm),
        ArbitrationErrorView::InvalidRealmTransition { from, to, reason } => "invalid realm transition: "@ + realm_name(from)
            + " → "@ + realm_name(to) + ": "@ + reason,
        ArbitrationErrorView::ReplayParadox { id } => "replay paradox: event "@ + id + " processed out of causal order"@,
        ArbitrationErrorView::CyclicApproval(s) => "cyclic approval: request "@ + s + " is its own dependency"@,
    }
}

impl ArbitrationError {
    /// The message, as the error prints it.
    pub fn to_text(&self) -> (r: String)
        ensures
            r@ == arbitration_text(self@),
    {
        proof {
            reveal_strlit("causality cycle detected: ");
            reveal_strlit("duplicate lamport ");
            reveal_strlit(" in realm ");
            reveal_strlit("invalid realm transition: ");
            reveal_strlit(" → ");
            reveal_strlit(": ");
            reveal_strlit("replay paradox: event ");
            reveal_strlit(" processed out of causal order");
            reveal_strlit("cyclic approval: request ");
            reveal_strlit(" is its own dependency");
        }
        match self {
            ArbitrationError::CausalityCycle(s) => {
                let mut m = String::from_str("causality cycle detected: ");
                m.append(s.as_str());
                m
            },
            ArbitrationError::DuplicateLamport { realm, lamport } => {
                let mut m = String::from_str("duplicate lamport ");
                crate::text::push_decimal_u64(&mut m, *lamport);
                m.append(" in realm ");
                m.append(realm.as_str());
                m
            },
            ArbitrationError::InvalidRealmTransition { from, to, reason } => {
                let mut m = String::from_str("invalid realm transition: ");
                m.append(from.as_str());
                m.append(" → ");
                m.append(to.as_str());
                m.append(": ");
                m.append(reason.as_str());
                m
            },
            ArbitrationError::ReplayParadox { id } => {
                let mut m = String::from_str("replay paradox: event ");
                m.append(id.as_str());
                m.append(" processed out of causal order");
                m
            },
            ArbitrationError::CyclicApproval(s) => {
                let mut m = String::from_str("cyclic approval: request ");
                m.append(s.as_str());
                m.append(" is its own dependency");
                m
            },
        }
    }
}

/// The arbitration of one event against what was seen and processed: the
/// verdict, and the seen pairs and processed ids afterwards. A repeated
/// (realm, Lamport) pair is refused and changes nothing; otherwise the pair
/// is recorded, and the event is refused if already processed or if its
/// named causal parent was not; else it is recorded as processed.
pub open spec fn arbitration(
    seen: Seq<(RealmId, u64)>,
    done: Seq<Seq<char>>,
    event_id: Seq<char>,
    realm: RealmId,
    lamport: u64,
    parent: Option<Seq<char>>,
) -> (Result<ArbitrationDecision, ArbitrationErrorView>, Seq<(RealmId, u64)>, Seq<Seq<char>>) {
    if seen.contains((realm, lamport)) {
        (Err(ArbitrationErrorView::DuplicateLamport { realm, lamport }), seen, done)
    } else if done.contains(event_id) {
        (Err(ArbitrationErrorView::ReplayParadox { id: event_id }), seen.push((realm, lamport)), done)
    } else if parent matches Some(p) && p.len() > 0 && !done.contains(p) {
        (
            Err(ArbitrationErrorView::ReplayParadox { id: "parent "@ + parent.unwrap() + " not yet processed"@ }),
            seen.push((realm, lamport)),
            done,
        )
    } else {
        (Ok(ArbitrationDecision::Allow), seen.push((realm, lamport)), done.push(event_id))
    }
}

/// The view of an optional text.
pub open spec fn opt_text(o: Option<&str>) -> Option<Seq<char>> {
    match o {
        Some(s) => Some(s@),
        None => None,
    }
}

/// What arbitration decided.
#[derive(Debug, Clone, Copy, PartialEq, Eq, Structural)]
pub enum ArbitrationDecision {
    Allow,
    Deny,
    RequireApproval,
}

/// The (realm, Lamport counter) pairs and event ids seen so far.
#[derive(Debug)]
pub struct KernelArbitrator {
    seen_lamports: Vec<(RealmId, u64)>,
    processed_events: Vec<String>,
}

impl KernelArbitrator {
    /// The (realm, Lamport counter) pairs seen, in order.
    pub closed spec fn spec_seen(&self) -> Seq<(RealmId, u64)> {
        self.seen_lamports@
    }

    /// The ids of the events allowed, in order.
    pub closed spec fn spec_processed(&self) -> Seq<Seq<char>> {
        self.processed_events@.map_values(|s: String| s@)
    }

    pub fn new() -> (r: Self)
        ensures
            r.spec_seen().len() == 0,
            r.spec_processed().len() == 0,
    {
        KernelArbitrator { seen_lamports: Vec::new(), processed_events: Vec::new() }
    }

    fn seen(&self, realm: RealmId, lamport: u64) -> (r: bool)
        ensures
            r == self.spec_seen().contains((realm, lamport)),
    {
        let mut k: usize = 0;
        while k < self.seen_lamports.len()
            invariant
                k <= self.seen_lamports@.len(),
                forall|j: int| 0 <= j < k ==> self.seen_lamports@[j] != (realm, lamport),
            decreases self.seen_lamports@.len() - k,
        {
            let (r, l) = self.seen_lamports[k];
            if r == realm && l == lamport {
                assert(self.spec_seen()[k as int] == (realm, lamport));
                return true;
            }
            k = k + 1;
        }
        false
    }

    fn processed(&self, id: &str) -> (r: bool)
        ensures
            r == self.spec_processed().contains(id@),
    {
        let mut k: usize = 0;
        while k < self.processed_events.len()
            invariant
                k <= self.processed_events@.len(),
                forall|j: int| 0 <= j < k ==> self.processed_events@[j]@ != id@,
            decreases self.processed_events@.len() - k,
        {
            if same_text(self.processed_events[k].as_str(), id) {
                assert(self.spec_processed()[k as int] == id@);
                return true;
            }
            k = k + 1;
        }
        proof {
            if self.spec_processed().contains(id@) {
                let j = choose|j: int| 0 <= j < self.spec_processed().len() && self.spec_processed()[j] == id@;
                assert(self.processed_events@[j]@ == id@);
            }
        }
        false
    }

    /// Validate an event before it is applied. A repeated (realm, Lamport)
    /// pair is refused and changes nothing; otherwise the pair is recorded,
    /// and the event is refused if it was already processed or if its causal
    /// parent (when named) was not; else it is recorded as processed.
    pub fn validate_event(
        &mut self,
        event_id: &str,
        source_realm: RealmId,
        lamport: u64,
        causal_parent: Option<&str>,
    ) -> (r: Result<ArbitrationDecision, ArbitrationError>)
        ensures
            ({
                let out = arbitration(
                    old(self).spec_seen(),
                    old(self).spec_processed(),
                    event_id@,
                    source_realm,
                    lamport,
                    opt_text(causal_parent),
                );
                &&& match r {
                    Ok(d) => out.0 == Ok::<ArbitrationDecision, ArbitrationErrorView>(d),
                    Err(e) => out.0 == Err::<ArbitrationDecision, ArbitrationErrorView>(e@),
                }
                &&& final(self).spec_seen() == out.1
                &&& final(self).spec_processed() == out.2
            }),
    {
        if self.seen(source_realm, lamport) {
            return Err(ArbitrationError::DuplicateLamport { realm: source_realm, lamport });
        }
        self.seen_lamports.push((source_realm, lamport));
        if self.processed(event_id) {
            return Err(ArbitrationError::ReplayParadox { id: event_id.to_owned() });
        }
        match causal_parent {
            Some(parent) => {
                if !parent.is_empty() && !self.processed(parent) {
                    let mut m = String::from_str("parent ");
                    m.append(parent);
                    m.append(" not yet processed");
                    proof {
                        reveal_strlit("parent ");
                        reveal_strlit(" not yet processed");
                    }
                    return Err(ArbitrationError::ReplayParadox { id: m });
                }
            },
            None => {},
        }
        let ghost before = self.processed_events@;
        self.processed_events.push(event_id.to_owned());
        proof {
            assert(self.processed_events@.map_values(|s: String| s@) =~= before.map_values(|s: String| s@).push(event_id@));
        }
        Ok(ArbitrationDecision::Allow)
    }

    /// Forget everything seen, for a full replay.
    pub fn reset_for_replay(&mut self)
        ensures
            final(self).spec_seen().len() == 0,
            final(self).spec_processed().len() == 0,
    {
        self.seen_lamports = Vec::new();
        self.processed_events = Vec::new();
    }

    /// How many events were allowed.
    pub fn event_count(&self) -> (r: usize)
        ensures
            r == self.spec_processed().len(),
    {
        self.processed_events.len()
    }
}

impl Default for KernelArbitrator {
    fn default() -> (r: Self)
        ensures
            r.spec_seen().len() == 0,
            r.spec_processed().len() == 0,
    {
        Self::new()
    }
}

} // verus!
