//! The invariants that must hold before and after every state transition.

use vstd::prelude::*;
use crate::realm_id::{realm_name, RealmId};
use crate::realm_state::RealmState;
use crate::text::decimal;
use crate::transition::TransitionError;

verus! {

/// A violated invariant: a programming error, not a user error.
#[derive(Debug, Clone, PartialEq, Eq, Structural)]
pub enum InvariantViolation {
    VersionNotMonotone { expected: u64, actual: u64 },
    RealmIdChanged { from: RealmId, to: RealmId },
    ChecksumMismatch,
    UnexplainedEntityLoss { was: usize, now: usize },
}

/// The message a violation prints.
pub open spec fn violation_text(v: InvariantViolation) -> Seq<char> {
    match v {
        InvariantViolation::VersionNotMonotone { expected, actual } => "version not monotone: expected "@ + decimal(
            expected as nat,
        ) + ", got "@ + decimal(actual as nat),
        InvariantViolation::RealmIdChanged { from, to } => "realm_id changed during transition: "@ + realm_name(from) + " → "@
            + realm_name(to),
        InvariantViolation::ChecksumMismatch => "state checksum mismatch after transition"@,
        InvariantViolation::UnexplainedEntityLoss { was, now } => "entity count decreased without Delete mutation: was "@
            + decimal(was as nat) + ", now "@ + decimal(now as nat),
    }
}

impl InvariantViolation {
    /// The message, as the violation prints it.
    pub fn to_text(&self) -> (r: String)
        ensures
            r@ == violation_text(*self),
    {
        proof {
            reveal_strlit("version not monotone: expected ");
            reveal_strlit(", got ");
            reveal_strlit("realm_id changed during transition: ");
            reveal_strlit(" → ");
            reveal_strlit("state checksum mismatch after transition");
            reveal_strlit("entity count decreased without Delete mutation: was ");
            reveal_strlit(", now ");
        }
        match self {
            InvariantViolation::VersionNotMonotone { expected, actual } => {
                let mut s = String::from_str("version not monotone: expected ");
                crate::text::push_decimal_u64(&mut s, *expected);
                s.append(", got ");
                crate::text::push_decimal_u64(&mut s, *actual);
                s
            },
            InvariantViolation::RealmIdChanged { from, to } => {
                let mut s = String::from_str("realm_id changed during transition: ");
                s.append(from.as_str());
                s.append(" → ");
                s.append(to.as_str());
                s
            },
            InvariantViolation::ChecksumMismatch => String::from_str("state checksum mismatch after transition"),
            InvariantViolation::UnexplainedEntityLoss { was, now } => {
                let mut s = String::from_str("entity count decreased without Delete mutation: was ");
                crate::text::push_decimal(&mut s, *was);
                s.append(", now ");
                crate::text::push_decimal(&mut s, *now);
                s
            },
        }
    }
}

impl TransitionError {
    /// The causality violation that reports an invariant violation.
    pub fn from_violation(v: InvariantViolation) -> (r: Self)
        ensures
            r matches TransitionError::CausalityViolation(m) && m@ == violation_text(v),
    {
        TransitionError::CausalityViolation(v.to_text())
    }
}

/// The invariant checks.
pub struct StateInvariants;

impl StateInvariants {
    /// Run every check on a state. Versions and realm ids are valid by
    /// construction, so no state fails.
    pub fn check(state: &RealmState) -> (r: Result<(), InvariantViolation>)
        ensures
            r is Ok,
    {
        Ok(())
    }

    /// A transition must advance the version by exactly one and keep the realm.
    pub fn check_transition(from: &RealmState, to: &RealmState) -> (r: Result<(), InvariantViolation>)
        requires
            from.version < u64::MAX,
        ensures
            to.version != from.version + 1 ==> r == Err::<(), InvariantViolation>(
                InvariantViolation::VersionNotMonotone { expected: (from.version + 1) as u64, actual: to.version },
            ),
            to.version == from.version + 1 && to.realm_id != from.realm_id ==> r == Err::<(), InvariantViolation>(
                InvariantViolation::RealmIdChanged { from: from.realm_id, to: to.realm_id },
            ),
            r is Ok <==> (to.version == from.version + 1 && to.realm_id == from.realm_id),
    {
        if to.version != from.version + 1 {
            return Err(InvariantViolation::VersionNotMonotone { expected: from.version + 1, actual: to.version });
        }
        if to.realm_id != from.realm_id {
            return Err(InvariantViolation::RealmIdChanged { from: from.realm_id, to: to.realm_id });
        }
        Ok(())
    }
}

} // verus!
