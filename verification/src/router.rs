//! The routing policy between realms: which source → target routes are
//! permitted.

use vstd::prelude::*;
use crate::realm_id::RealmId;

verus! {

/// The denied routes, and whether everything else is allowed.
#[derive(Debug, Clone)]
pub struct RoutePolicy {
    denied: Vec<(RealmId, RealmId)>,
    allow_all: bool,
}

impl RoutePolicy {
    /// The routes denied so far.
    pub closed spec fn spec_denied(&self) -> Seq<(RealmId, RealmId)> {
        self.denied@
    }

    pub closed spec fn spec_allow_all(&self) -> bool {
        self.allow_all
    }

    /// Is the route permitted: not denied, and routes allowed at all?
    pub open spec fn permits(&self, s: RealmId, t: RealmId) -> bool {
        !self.spec_denied().contains((s, t)) && self.spec_allow_all()
    }

    /// Every route permitted.
    pub fn allow_all() -> (r: Self)
        ensures
            r.spec_denied().len() == 0,
            r.spec_allow_all(),
    {
        RoutePolicy { denied: Vec::new(), allow_all: true }
    }

    /// The same policy with the route `s → t` denied.
    pub fn deny(self, s: RealmId, t: RealmId) -> (r: Self)
        ensures
            r.spec_allow_all() == self.spec_allow_all(),
            forall|a: RealmId, b: RealmId| #[trigger] r.spec_denied().contains((a, b)) == (self.spec_denied().contains((a, b)) || (
            a == s && b == t)),
    {
        let mut p = self;
        let ghost before = p.denied@;
        p.denied.push((s, t));
        proof {
            assert forall|a: RealmId, b: RealmId| #[trigger] p.denied@.contains((a, b)) == (before.contains((a, b)) || (a == s && b
                == t)) by {
                if before.contains((a, b)) {
                    let k = choose|k: int| 0 <= k < before.len() && before[k] == (a, b);
                    assert(p.denied@[k] == (a, b));
                }
                if a == s && b == t {
                    assert(p.denied@[before.len() as int] == (a, b));
                }
                if p.denied@.contains((a, b)) {
                    let k = choose|k: int| 0 <= k < p.denied@.len() && p.denied@[k] == (a, b);
                    if k < before.len() {
                        assert(before[k] == (a, b));
                    }
                }
            }
        }
        p
    }

    /// Is the route `s → t` permitted?
    pub fn is_permitted(&self, s: RealmId, t: RealmId) -> (r: bool)
        ensures
            r == self.permits(s, t),
    {
        let mut k: usize = 0;
        while k < self.denied.len()
            invariant
                k <= self.denied@.len(),
                forall|j: int| 0 <= j < k ==> self.denied@[j] != (s, t),
            decreases self.denied@.len() - k,
        {
            let (a, b) = self.denied[k];
            if a == s && b == t {
                assert(self.denied@[k as int] == (s, t));
                return false;
            }
            k = k + 1;
        }
        self.allow_all
    }
}

impl Default for RoutePolicy {
    fn default() -> (r: Self)
        ensures
            r.spec_denied().len() == 0,
            r.spec_allow_all(),
    {
        RoutePolicy::allow_all()
    }
}

} // verus!
