//! How a state transition is classified: the errors a transition can fail
//! with, and the record of a valid or failed transition.

use vstd::prelude::*;
use crate::realm_id::{realm_name, RealmId};
use crate::text::decimal;

verus! {

/// Why a state transition failed.
#[derive(Debug, Clone, PartialEq, Eq)]
pub enum TransitionError {
    InvalidTransition { realm: RealmId, reason: String },
    CausalityViolation(String),
    DeterminismFailure { expected: String, actual: String },
    DuplicateLamport(u64),
}

/// The mathematical value of a [`TransitionError`].
pub enum TransitionErrorView {
    InvalidTransition { realm: RealmId, reason: Seq<char> },
    CausalityViolation(Seq<char>),
    DeterminismFailure { expected: Seq<char>, actual: Seq<char> },
    DuplicateLamport(u64),
}

impl View for TransitionError {
    type V = TransitionErrorView;

    open spec fn view(&self) -> TransitionErrorView {
        match self {
            TransitionError::InvalidTransition { realm, reason } => TransitionErrorView::InvalidTransition { realm: *realm, reason: reason@ },
            TransitionError::CausalityViolation(m) => TransitionErrorView::CausalityViolation(m@),
            TransitionError::DeterminismFailure { expected, actual } => TransitionErrorView::DeterminismFailure {
                expected: expected@,
                actual: actual@,
            },
            TransitionError::DuplicateLamport(l) => TransitionErrorView::DuplicateLamport(*l),
        }
    }
}

/// The message a transition error prints.
pub open spec fn transition_error_text(e: TransitionErrorView) -> Seq<char> {
    match e {
        TransitionErrorView::InvalidTransition { realm, reason } => "invalid transition in realm "@ + realm_name(realm) + ": "@
            + reason,
        TransitionErrorView::CausalityViolation(m) => "causality violation: "@ + m,
        TransitionErrorView::DeterminismFailure { expected, actual } => "replay determinism failure: expected hash "@ + expected
            + ", got "@ + actual,
        TransitionErrorView::DuplicateLamport(l) => "duplicate lamport "@ + decimal(l as nat)
            + " in realm — concurrent events are forbidden"@,
    }
}

impl TransitionError {
    /// The message, as the error prints it.
    pub fn to_text(&self) -> (r: String)
        ensures
            r@ == transition_error_text(self@),
    {
        proof {
            reveal_strlit("invalid transition in realm ");
            reveal_strlit(": ");
            reveal_strlit("causality violation: ");
            reveal_strlit("replay determinism failure: expected hash ");
            reveal_strlit(", got ");
            reveal_strlit("duplicate lamport ");
            reveal_strlit(" in realm — concurrent events are forbidden");
        }
        match self {
            TransitionError::InvalidTransition { realm, reason } => {
                let mut s = String::from_str("invalid transition in realm ");
                s.append(realm.as_str());
                s.append(": ");
                s.append(reason.as_str());
                s
            },
            TransitionError::CausalityViolation(m) => {
                let mut s = String::from_str("causality violation: ");
                s.append(m.as_str());
                s
            },
            TransitionError::DeterminismFailure { expected, actual } => {
                let mut s = String::from_str("replay determinism failure: expected hash ");
                s.append(expected.as_str());
                s.append(", got ");
                s.append(actual.as_str());
                s
            },
            TransitionError::DuplicateLamport(l) => {
                let mut s = String::from_str("duplicate lamport ");
                crate::text::push_decimal_u64(&mut s, *l);
                s.append(" in realm — concurrent events are forbidden");
                s
            },
        }
    }
}

/// The record of one state transition.
#[derive(Debug, Clone)]
pub struct StateTransition {
    pub from_version: u64,
    pub to_version: u64,
    pub event_type: String,
    pub event_hash: String,
    pub valid: bool,
    pub error: Option<String>,
}

impl StateTransition {
    /// A valid transition from one version to another.
    pub fn ok(from: u64, to: u64, event_type: &str, hash: &str) -> (r: Self)
        ensures
            r.from_version == from,
            r.to_version == to,
            r.event_type@ == event_type@,
            r.event_hash@ == hash@,
            r.valid,
            r.error is None,
    {
        StateTransition {
            from_version: from,
            to_version: to,
            event_type: event_type.to_owned(),
            event_hash: hash.to_owned(),
            valid: true,
            error: None,
        }
    }

    /// A failed transition: the version stays, and the error is kept.
    pub fn failed(from: u64, event_type: &str, error: &str) -> (r: Self)
        ensures
            r.from_version == from,
            r.to_version == from,
            r.event_type@ == event_type@,
            r.event_hash@.len() == 0,
            !r.valid,
            r.error matches Some(e) && e@ == error@,
    {
        StateTransition {
            from_version: from,
            to_version: from,
            event_type: event_type.to_owned(),
            event_hash: String::new(),
            valid: false,
            error: Some(error.to_owned()),
        }
    }
}

} // verus!
