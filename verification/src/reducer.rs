//! The reducer: the only way a realm's state changes.

use vstd::prelude::*;
use crate::realm_state::RealmState;
use crate::transition::TransitionError;

verus! {

/// A stable identifier for a reducer.
#[derive(Debug, Clone, PartialEq, Eq, Hash)]
pub struct ReducerId(pub String);

impl ReducerId {
    pub fn new(id: &str) -> (r: Self)
        ensures
            r.0@ == id@,
    {
        ReducerId(id.to_owned())
    }

    /// `reducer:` and the identifier.
    pub fn to_text(&self) -> (r: String)
        ensures
            r@ == "reducer:"@ + self.0@,
    {
        let mut s = String::from_str("reducer:");
        s.append(self.0.as_str());
        proof {
            reveal_strlit("reducer:");
        }
        s
    }
}

/// A pure state transition: the same state and event always give the same
/// result, with no I/O, randomness or clock reads.
pub trait Reducer: Send + Sync + 'static {
    type Event: Send + Sync + 'static;

    /// Apply one event to the state, giving the new state.
    fn apply(&self, state: RealmState, event: Self::Event) -> Result<RealmState, TransitionError>;

    fn reducer_id(&self) -> ReducerId;
}

/// A reducer that leaves the state as it is.
pub struct IdentityReducer(pub ReducerId);

impl IdentityReducer {
    pub fn new(id: &str) -> (r: Self)
        ensures
            r.0.0@ == id@,
    {
        IdentityReducer(ReducerId::new(id))
    }
}

impl Reducer for IdentityReducer {
    type Event = serde_json::Value;

    fn apply(&self, state: RealmState, event: serde_json::Value) -> (r: Result<RealmState, TransitionError>)
        ensures
            r == Ok::<RealmState, TransitionError>(state),
    {
        Ok(state)
    }

    fn reducer_id(&self) -> (r: ReducerId)
        ensures
            r.0@ == self.0.0@,
    {
        ReducerId(self.0.0.clone())
    }
}

} // verus!
