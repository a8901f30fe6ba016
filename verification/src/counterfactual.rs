//! Counterfactual reasoning: what would have to happen for a rule to matter?
//!
//! A breadth-first search over the transition table from `Genesis` gives the
//! shortest number of steps to every phase; each rule's active cells are then
//! measured by how far from `Genesis` they can first fire.

use vstd::prelude::*;
use crate::cells::{Cell, all_cells, cell, lemma_filter_take_succ};
use crate::constraint_algebra::{ConstraintRule, ConstraintTarget, RuleSet, RuleView};
use crate::kernel_state::{
    KernelInputKind, KernelPhase, NUM_CELLS, NUM_PHASES, TABLE_LEN, TransitionEntry, lemma_index_bijection, phase_at,
    phase_index, table_entry, transition_entry,
};
use crate::semantic_weight::NecessityClass;

verus! {

// ─── Reachability over the transition table ──────────────────────────────────

/// Is (from, on) → to an entry of the transition table?
pub open spec fn is_edge(from: KernelPhase, on: KernelInputKind, to: KernelPhase) -> bool {
    exists|k: int| 0 <= k < TABLE_LEN && #[trigger] table_entry(k) == (TransitionEntry { from, on, to })
}

/// Can `q` be reached from `Genesis` in at most `n` table steps?
pub open spec fn within(q: KernelPhase, n: nat) -> bool
    decreases n,
{
    if n == 0 {
        q == KernelPhase::Genesis
    } else {
        within(q, (n - 1) as nat) || exists|k: int|
            0 <= k < TABLE_LEN && #[trigger] table_entry(k).to == q && within(table_entry(k).from, (n - 1) as nat)
    }
}

/// `d` is the least number of table steps from `Genesis` to `q`.
pub open spec fn is_shortest(q: KernelPhase, d: nat) -> bool {
    within(q, d) && (d == 0 || !within(q, (d - 1) as nat))
}

/// Can `q` be reached from `Genesis` at all?
pub open spec fn reachable(q: KernelPhase) -> bool {
    exists|n: nat| within(q, n)
}

/// Reachability within `n` steps is also reachability within any larger bound.
pub proof fn lemma_within_monotone(q: KernelPhase, n: nat, m: nat)
    requires
        within(q, n),
        n <= m,
    ensures
        within(q, m),
    decreases m - n,
{
    if n < m {
        lemma_within_monotone(q, n, (m - 1) as nat);
        assert(within(q, m));
    }
}

/// A shortest distance is at most any bound within which the phase is reached.
proof fn lemma_shortest_le(q: KernelPhase, d: nat, n: nat)
    requires
        is_shortest(q, d),
        within(q, n),
    ensures
        d <= n,
{
    if n < d {
        lemma_within_monotone(q, n, (d - 1) as nat);
    }
}

/// The distance entry of `q` in a phase-indexed table.
pub open spec fn at(v: Seq<Option<usize>>, q: KernelPhase) -> Option<usize> {
    v[phase_index(q)]
}

/// Breadth-first reachability over the transition table, rooted at `Genesis`.
#[derive(Debug)]
pub struct StateReachabilityGraph {
    /// Least number of steps from `Genesis`, by phase index.
    dist: Vec<Option<usize>>,
    /// The step by which the search first entered each phase: (predecessor, input).
    pred: Vec<Option<(KernelPhase, KernelInputKind)>>,
}

/// The predecessor facts the search records: each entered phase was entered
/// by a table step from a phase one step closer to `Genesis`.
pub open spec fn pred_ok(
    dist: Seq<Option<usize>>,
    pred: Seq<Option<(KernelPhase, KernelInputKind)>>,
    q: KernelPhase,
) -> bool {
    match pred[phase_index(q)] {
        Some(pi) => {
            &&& is_edge(pi.0, pi.1, q)
            &&& at(dist, pi.0) is Some
            &&& at(dist, q) is Some
            &&& at(dist, q).unwrap() == at(dist, pi.0).unwrap() + 1
        },
        None => at(dist, q) is Some ==> at(dist, q) == Some(0usize),
    }
}

impl StateReachabilityGraph {
    #[verifier::type_invariant]
    closed spec fn wf(&self) -> bool {
        &&& self.dist@.len() == NUM_PHASES
        &&& self.pred@.len() == NUM_PHASES
        &&& forall|q: KernelPhase| match #[trigger] at(self.dist@, q) {
            Some(d) => is_shortest(q, d as nat) && d < NUM_PHASES,
            None => !reachable(q),
        }
        &&& forall|q: KernelPhase| #[trigger] pred_ok(self.dist@, self.pred@, q)
    }

    /// The least number of steps from `Genesis` to `q`, if it is reachable.
    pub closed spec fn spec_distance(&self, q: KernelPhase) -> Option<usize> {
        at(self.dist@, q)
    }

    /// The step by which the search entered `q`.
    pub closed spec fn spec_pred(&self, q: KernelPhase) -> Option<(KernelPhase, KernelInputKind)> {
        self.pred@[phase_index(q)]
    }

    /// The recorded path into `q`, following predecessors for at most `n` steps.
    pub open spec fn path_upto(&self, q: KernelPhase, n: nat) -> Seq<(KernelPhase, KernelInputKind)>
        decreases n,
    {
        if n == 0 {
            Seq::empty()
        } else {
            match self.spec_pred(q) {
                None => Seq::empty(),
                Some(pi) => self.path_upto(pi.0, (n - 1) as nat).push((q, pi.1)),
            }
        }
    }

    /// The recorded shortest path from `Genesis` into `q`: each element is
    /// (phase entered, input that entered it).
    pub open spec fn spec_path(&self, q: KernelPhase) -> Seq<(KernelPhase, KernelInputKind)> {
        match self.spec_distance(q) {
            Some(d) => self.path_upto(q, d as nat),
            None => Seq::empty(),
        }
    }

}

/// The search state after the phases `queue[..head]` have been expanded.
spec fn bfs_inv(
    dist: Seq<Option<usize>>,
    pred: Seq<Option<(KernelPhase, KernelInputKind)>>,
    queue: Seq<KernelPhase>,
    head: int,
    posn: Seq<int>,
    seen: Set<int>,
) -> bool {
    &&& dist.len() == NUM_PHASES
    &&& pred.len() == NUM_PHASES
    &&& posn.len() == NUM_PHASES
    &&& 1 <= queue.len()
    &&& 0 <= head <= queue.len()
    &&& queue[0] == KernelPhase::Genesis
    &&& seen.finite()
    &&& seen.subset_of(vstd::set_lib::set_int_range(0, NUM_PHASES as int))
    &&& seen.len() == queue.len()
    // The discovered phases are those queued, each with its position.
    &&& forall|q: KernelPhase| (#[trigger] at(dist, q) is Some) == seen.contains(phase_index(q))
    &&& forall|q: KernelPhase| #[trigger] at(dist, q) is Some ==> {
        &&& 0 <= posn[phase_index(q)] < queue.len()
        &&& queue[posn[phase_index(q)]] == q
    }
    &&& forall|j: int| 0 <= j < queue.len() ==> {
        &&& #[trigger] at(dist, queue[j]) is Some
        &&& at(dist, queue[j]).unwrap() <= j
    }
    // Distances are exact for every discovered phase.
    &&& forall|q: KernelPhase| #[trigger] at(dist, q) is Some ==> is_shortest(q, at(dist, q).unwrap() as nat)
    // Distances along the queue never decrease and span at most one level past the head.
    &&& forall|i: int, j: int| 0 <= i <= j < queue.len() ==> at(dist, #[trigger] queue[i]).unwrap() <= at(dist, #[trigger] queue[j]).unwrap()
    &&& head < queue.len() ==> at(dist, queue[queue.len() - 1]).unwrap() <= at(dist, queue[head]).unwrap() + 1
    // Every successor of an expanded phase is discovered.
    &&& forall|j: int, k: int| 0 <= j < head && 0 <= k < TABLE_LEN && #[trigger] table_entry(k).from == #[trigger] queue[j]
        ==> at(dist, table_entry(k).to) is Some
    // Everything within the head's distance is discovered.
    &&& head < queue.len() ==> forall|q: KernelPhase| #[trigger] within(q, at(dist, queue[head]).unwrap() as nat) ==> at(dist, q) is Some
    &&& forall|q: KernelPhase| #[trigger] pred_ok(dist, pred, q)
}

/// Once every queued phase is expanded, every reachable phase is discovered.
proof fn lemma_bfs_closed(
    dist: Seq<Option<usize>>,
    pred: Seq<Option<(KernelPhase, KernelInputKind)>>,
    queue: Seq<KernelPhase>,
    posn: Seq<int>,
    seen: Set<int>,
    q: KernelPhase,
    n: nat,
)
    requires
        bfs_inv(dist, pred, queue, queue.len() as int, posn, seen),
        within(q, n),
    ensures
        at(dist, q) is Some,
    decreases n,
{
    if n == 0 {
        assert(at(dist, queue[0]) is Some);
    } else if within(q, (n - 1) as nat) {
        lemma_bfs_closed(dist, pred, queue, posn, seen, q, (n - 1) as nat);
    } else {
        let k = choose|k: int| 0 <= k < TABLE_LEN && #[trigger] table_entry(k).to == q && within(table_entry(k).from, (n - 1) as nat);
        let p = table_entry(k).from;
        lemma_bfs_closed(dist, pred, queue, posn, seen, p, (n - 1) as nat);
        let j = posn[phase_index(p)];
        assert(table_entry(k).from == queue[j]);
    }
}

/// Discovering the target of table entry `k` out of the head phase keeps the
/// search invariant.
#[verifier::rlimit(40)]
proof fn lemma_bfs_push(
    dist: Seq<Option<usize>>,
    pred: Seq<Option<(KernelPhase, KernelInputKind)>>,
    queue: Seq<KernelPhase>,
    head: int,
    posn: Seq<int>,
    seen: Set<int>,
    k: int,
    d: usize,
)
    requires
        bfs_inv(dist, pred, queue, head, posn, seen),
        head < queue.len(),
        0 <= k < TABLE_LEN,
        table_entry(k).from == queue[head],
        at(dist, queue[head]) == Some(d),
        at(dist, table_entry(k).to) is None,
    ensures
        ({
            let e = table_entry(k);
            let i = phase_index(e.to);
            &&& bfs_inv(
                dist.update(i, Some((d + 1) as usize)),
                pred.update(i, Some((e.from, e.on))),
                queue.push(e.to),
                head,
                posn.update(i, queue.len() as int),
                seen.insert(i),
            )
            &&& d + 1 <= queue.len()
        }),
{
    lemma_index_bijection();
    vstd::set_lib::lemma_int_range(0, NUM_PHASES as int);
    vstd::set_lib::lemma_len_subset(seen, vstd::set_lib::set_int_range(0, NUM_PHASES as int));
    let e = table_entry(k);
    let phase = e.from;
    let i = phase_index(e.to);
    let t = queue.len() as int;
    let dist2 = dist.update(i, Some((d + 1) as usize));
    let pred2 = pred.update(i, Some((e.from, e.on)));
    let queue2 = queue.push(e.to);
    let posn2 = posn.update(i, t);
    let seen2 = seen.insert(i);
    assert(at(dist, queue[head]).unwrap() <= head);
    assert(!seen.contains(i));
    assert(is_shortest(queue[head], at(dist, queue[head]).unwrap() as nat));
    assert(within(e.to, (d + 1) as nat)) by {
        assert(table_entry(k).to == e.to && within(table_entry(k).from, d as nat));
    }
    if within(e.to, d as nat) {
        assert(within(e.to, at(dist, queue[head]).unwrap() as nat));
        assert(at(dist, e.to) is Some);
    }
    assert(at(dist2, e.to) == Some((d + 1) as usize));
    assert(((d + 1) as usize) as nat == d + 1);
    assert(is_shortest(e.to, (d + 1) as nat));
    assert(is_edge(phase, e.on, e.to)) by {
        assert(table_entry(k) == (TransitionEntry { from: phase, on: e.on, to: e.to }));
    }
    assert forall|q: KernelPhase| (#[trigger] at(dist2, q) is Some) == seen2.contains(phase_index(q)) by {
        if q != e.to {
            assert(at(dist2, q) == at(dist, q));
        }
    }
    assert forall|q: KernelPhase| #[trigger] at(dist2, q) is Some implies is_shortest(q, at(dist2, q).unwrap() as nat) by {
        if q != e.to {
            assert(at(dist2, q) == at(dist, q));
        }
    }
    assert forall|j: int| 0 <= j < queue2.len() implies {
        &&& #[trigger] at(dist2, queue2[j]) is Some
        &&& at(dist2, queue2[j]).unwrap() <= j
    } by {
        if j < t {
            assert(queue2[j] == queue[j]);
            assert(at(dist, queue[j]) is Some);
            assert(queue[j] != e.to);
        }
    }
    assert(at(dist, queue[t - 1]).unwrap() <= d + 1);
    assert forall|a: int, b: int| 0 <= a <= b < queue2.len() implies at(dist2, #[trigger] queue2[a]).unwrap() <= at(dist2, #[trigger] queue2[b]).unwrap() by {
        if b < t {
            assert(queue2[a] == queue[a] && queue2[b] == queue[b]);
            assert(at(dist, queue[a]) is Some && at(dist, queue[b]) is Some);
            assert(queue[a] != e.to && queue[b] != e.to);
            assert(at(dist, queue[a]).unwrap() <= at(dist, queue[b]).unwrap());
        } else if a < t {
            assert(queue2[a] == queue[a]);
            assert(at(dist, queue[a]) is Some);
            assert(queue[a] != e.to);
            assert(at(dist, queue[a]).unwrap() <= at(dist, queue[t - 1]).unwrap());
        }
    }
    assert(queue2[head] == phase);
    assert(phase != e.to);
    assert forall|q: KernelPhase| #[trigger] pred_ok(dist2, pred2, q) by {
        if q != e.to {
            assert(pred2[phase_index(q)] == pred[phase_index(q)]);
            assert(pred_ok(dist, pred, q));
            assert(at(dist2, q) == at(dist, q));
            if let Some(pi) = pred[phase_index(q)] {
                if pi.0 == e.to {
                    assert(at(dist, pi.0) is Some);
                }
                assert(at(dist2, pi.0) == at(dist, pi.0));
            }
        }
    }
    assert forall|jj: int, kk: int| 0 <= jj < head && 0 <= kk < TABLE_LEN && #[trigger] table_entry(kk).from == #[trigger] queue2[jj]
        implies at(dist2, table_entry(kk).to) is Some by {
        assert(queue2[jj] == queue[jj]);
        assert(at(dist, table_entry(kk).to) is Some);
        if table_entry(kk).to != e.to {
            assert(at(dist2, table_entry(kk).to) == at(dist, table_entry(kk).to));
        }
    }
    assert forall|q: KernelPhase| #[trigger] within(q, at(dist2, queue2[head]).unwrap() as nat) implies at(dist2, q) is Some by {
        assert(at(dist, q) is Some);
        if q != e.to {
            assert(at(dist2, q) == at(dist, q));
        }
    }
    assert forall|q: KernelPhase| #[trigger] at(dist2, q) is Some implies {
        &&& 0 <= posn2[phase_index(q)] < queue2.len()
        &&& queue2[posn2[phase_index(q)]] == q
    } by {
        if q != e.to {
            assert(at(dist2, q) == at(dist, q));
            assert(queue2[posn[phase_index(q)]] == queue[posn[phase_index(q)]]);
        }
    }
    assert(seen2.subset_of(vstd::set_lib::set_int_range(0, NUM_PHASES as int)));
    assert(seen2.len() == queue2.len());
}

/// Once every successor of the head phase is discovered, the head may advance.
proof fn lemma_bfs_advance(
    dist: Seq<Option<usize>>,
    pred: Seq<Option<(KernelPhase, KernelInputKind)>>,
    queue: Seq<KernelPhase>,
    head: int,
    posn: Seq<int>,
    seen: Set<int>,
)
    requires
        bfs_inv(dist, pred, queue, head, posn, seen),
        head < queue.len(),
        forall|k: int| 0 <= k < TABLE_LEN && #[trigger] table_entry(k).from == queue[head] ==> at(dist, table_entry(k).to) is Some,
    ensures
        bfs_inv(dist, pred, queue, head + 1, posn, seen),
        queue.len() <= NUM_PHASES,
{
    vstd::set_lib::lemma_int_range(0, NUM_PHASES as int);
    vstd::set_lib::lemma_len_subset(seen, vstd::set_lib::set_int_range(0, NUM_PHASES as int));
    let h = head;
    let phase = queue[h];
    assert(at(dist, queue[h]) is Some);
    let d = at(dist, phase).unwrap();
    if h + 1 < queue.len() {
        let d2 = at(dist, queue[h + 1]).unwrap();
        assert(at(dist, queue[h + 1]) is Some);
        assert(d <= d2);
        assert(d2 <= at(dist, queue[queue.len() - 1]).unwrap());
        assert forall|q: KernelPhase| #[trigger] within(q, d2 as nat) implies at(dist, q) is Some by {
            if d2 == d || within(q, d as nat) {
            } else {
                let kk = choose|kk: int| 0 <= kk < TABLE_LEN && #[trigger] table_entry(kk).to == q
                    && within(table_entry(kk).from, (d2 - 1) as nat);
                let p = table_entry(kk).from;
                assert(at(dist, p) is Some);
                let dp = at(dist, p).unwrap();
                lemma_shortest_le(p, dp as nat, d as nat);
                let j = posn[phase_index(p)];
                assert(queue[j] == p);
                assert(at(dist, queue[j]) is Some);
                if j > h {
                    assert(at(dist, queue[h + 1]).unwrap() <= at(dist, queue[j]).unwrap());
                }
                if j == h {
                    assert(table_entry(kk).from == phase);
                } else {
                    assert(table_entry(kk).from == queue[j]);
                }
            }
        }
    }
    assert forall|jj: int, kk: int| 0 <= jj < h + 1 && 0 <= kk < TABLE_LEN && #[trigger] table_entry(kk).from == #[trigger] queue[jj]
        implies at(dist, table_entry(kk).to) is Some by {
        if jj == h {
            assert(table_entry(kk).from == phase);
        }
    }
}

impl StateReachabilityGraph {
    /// Breadth-first search over the transition table from `Genesis`.
    pub fn build() -> (r: Self)
        ensures
            forall|q: KernelPhase| match #[trigger] r.spec_distance(q) {
                Some(d) => is_shortest(q, d as nat),
                None => !reachable(q),
            },
    {
        proof {
            lemma_index_bijection();
            vstd::set_lib::lemma_int_range(0, NUM_PHASES as int);
        }
        let mut dist: Vec<Option<usize>> = Vec::new();
        let mut pred: Vec<Option<(KernelPhase, KernelInputKind)>> = Vec::new();
        let mut i: usize = 0;
        while i < NUM_PHASES
            invariant
                i <= NUM_PHASES,
                dist@.len() == i,
                pred@.len() == i,
                forall|j: int| 0 <= j < i ==> #[trigger] dist@[j] == (if j == 0 { Some(0usize) } else { None }),
                forall|j: int| 0 <= j < i ==> #[trigger] pred@[j] is None,
            decreases NUM_PHASES - i,
        {
            dist.push(if i == 0 { Some(0usize) } else { None });
            pred.push(None);
            i = i + 1;
        }
        let mut queue: Vec<KernelPhase> = Vec::new();
        queue.push(KernelPhase::Genesis);
        let mut head: usize = 0;
        let ghost mut posn: Seq<int> = Seq::new(NUM_PHASES as nat, |j: int| 0);
        let ghost mut seen: Set<int> = set![0int];
        proof {
            assert forall|q: KernelPhase| (#[trigger] at(dist@, q) is Some) == seen.contains(phase_index(q)) by {
                if phase_index(q) == 0 {
                    assert(phase_at(phase_index(q)) == KernelPhase::Genesis);
                }
            }
            assert forall|q: KernelPhase| #[trigger] at(dist@, q) is Some ==> is_shortest(q, at(dist@, q).unwrap() as nat) by {
                if at(dist@, q) is Some {
                    assert(phase_at(phase_index(q)) == KernelPhase::Genesis);
                }
            }
            assert forall|q: KernelPhase| #[trigger] within(q, 0) implies at(dist@, q) is Some by {}
            assert forall|q: KernelPhase| #[trigger] pred_ok(dist@, pred@, q) by {}
            assert(seen.len() == 1);
        }
        while head < queue.len()
            invariant
                bfs_inv(dist@, pred@, queue@, head as int, posn, seen),
            decreases 2 * NUM_PHASES - head - queue@.len(),
        {
            proof {
                vstd::set_lib::lemma_int_range(0, NUM_PHASES as int);
                vstd::set_lib::lemma_len_subset(seen, vstd::set_lib::set_int_range(0, NUM_PHASES as int));
            }
            let phase = queue[head];
            proof {
                assert(at(dist@, queue@[head as int]) is Some);
            }
            let d = dist[phase.index()].unwrap();
            let ghost len0 = queue@.len();
            let mut k: usize = 0;
            while k < TABLE_LEN
                invariant
                    bfs_inv(dist@, pred@, queue@, head as int, posn, seen),
                    head < queue@.len(),
                    queue@[head as int] == phase,
                    at(dist@, phase) == Some(d),
                    d <= head,
                    len0 <= queue@.len(),
                    k <= TABLE_LEN,
                    forall|k2: int| 0 <= k2 < k && #[trigger] table_entry(k2).from == phase ==> at(dist@, table_entry(k2).to) is Some,
                decreases TABLE_LEN - k,
            {
                let e = transition_entry(k);
                if e.from == phase && dist[e.to.index()].is_none() {
                    proof {
                        assert(table_entry(k as int) == e);
                        lemma_bfs_push(dist@, pred@, queue@, head as int, posn, seen, k as int, d);
                    }
                    let t = queue.len();
                    dist.set(e.to.index(), Some(d + 1));
                    pred.set(e.to.index(), Some((phase, e.on)));
                    queue.push(e.to);
                    proof {
                        posn = posn.update(phase_index(e.to), t as int);
                        seen = seen.insert(phase_index(e.to));
                        lemma_index_bijection();
                    }
                }
                k = k + 1;
            }
            proof {
                lemma_bfs_advance(dist@, pred@, queue@, head as int, posn, seen);
            }
            head = head + 1;
        }
        proof {
            vstd::set_lib::lemma_int_range(0, NUM_PHASES as int);
            vstd::set_lib::lemma_len_subset(seen, vstd::set_lib::set_int_range(0, NUM_PHASES as int));
            assert forall|q: KernelPhase| #[trigger] at(dist@, q) is Some implies at(dist@, q).unwrap() < NUM_PHASES by {
                let j = posn[phase_index(q)];
                assert(at(dist@, queue@[j]) is Some);
            }
            assert forall|q: KernelPhase| at(dist@, q) is None implies !reachable(q) by {
                if reachable(q) {
                    let n = choose|n: nat| within(q, n);
                    lemma_bfs_closed(dist@, pred@, queue@, posn, seen, q, n);
                }
            }
        }
        StateReachabilityGraph { dist, pred }
    }
}

/// Each step of the path is a table step out of the phase the previous step
/// entered (`Genesis` for the first).
pub open spec fn walk_from_genesis(path: Seq<(KernelPhase, KernelInputKind)>) -> bool {
    forall|j: int| 0 <= j < path.len() ==> is_edge(
        if j == 0 { KernelPhase::Genesis } else { path[j - 1].0 },
        #[trigger] path[j].1,
        path[j].0,
    )
}

/// The path ends in `q` (an empty path ends in `Genesis`).
pub open spec fn walk_ends_at(path: Seq<(KernelPhase, KernelInputKind)>, q: KernelPhase) -> bool {
    if path.len() == 0 {
        q == KernelPhase::Genesis
    } else {
        path.last().0 == q
    }
}

/// All phases in definition order.
pub open spec fn all_phases() -> Seq<KernelPhase> {
    Seq::new(NUM_PHASES as nat, |k: int| phase_at(k))
}

impl StateReachabilityGraph {
    /// The recorded path into a phase at distance `n` is a walk of length `n`
    /// from `Genesis` that ends there.
    proof fn lemma_path_upto(&self, q: KernelPhase, n: nat)
        requires
            self.wf(),
            self.spec_distance(q) == Some(n as usize),
            n <= usize::MAX,
        ensures
            self.path_upto(q, n).len() == n,
            walk_from_genesis(self.path_upto(q, n)),
            walk_ends_at(self.path_upto(q, n), q),
        decreases n,
    {
        lemma_index_bijection();
        assert(pred_ok(self.dist@, self.pred@, q));
        if n == 0 {
            assert(is_shortest(q, 0));
        } else {
            let pi = self.spec_pred(q).unwrap();
            let p = pi.0;
            self.lemma_path_upto(p, (n - 1) as nat);
            let prev = self.path_upto(p, (n - 1) as nat);
            let path = prev.push((q, pi.1));
            assert(self.path_upto(q, n) == path);
            assert forall|j: int| 0 <= j < path.len() implies is_edge(
                if j == 0 { KernelPhase::Genesis } else { path[j - 1].0 },
                #[trigger] path[j].1,
                path[j].0,
            ) by {
                if j < n - 1 {
                    assert(path[j] == prev[j]);
                    if j > 0 {
                        assert(path[j - 1] == prev[j - 1]);
                    }
                    assert(is_edge(if j == 0 { KernelPhase::Genesis } else { prev[j - 1].0 }, prev[j].1, prev[j].0));
                } else if j > 0 {
                    assert(path[j - 1] == prev[j - 1]);
                }
            }
        }
    }

    /// Distance from `Genesis` to a phase; `None` if it is unreachable.
    pub fn distance_to(&self, phase: KernelPhase) -> (r: Option<usize>)
        ensures
            r == self.spec_distance(phase),
            match r {
                Some(d) => is_shortest(phase, d as nat) && d < NUM_PHASES,
                None => !reachable(phase),
            },
    {
        proof {
            use_type_invariant(self);
            lemma_index_bijection();
        }
        self.dist[phase.index()]
    }

    /// The recorded shortest path from `Genesis` to `target`, as (phase
    /// entered, input) steps; `None` if `target` is unreachable.
    pub fn shortest_path_to(&self, target: KernelPhase) -> (r: Option<Vec<(KernelPhase, KernelInputKind)>>)
        ensures
            match r {
                Some(path) => {
                    &&& self.spec_distance(target) is Some
                    &&& path@ == self.spec_path(target)
                    &&& path@.len() == self.spec_distance(target).unwrap()
                    &&& walk_from_genesis(path@)
                    &&& walk_ends_at(path@, target)
                },
                None => self.spec_distance(target) is None && !reachable(target),
            },
    {
        proof {
            use_type_invariant(self);
            lemma_index_bijection();
        }
        let d = match self.dist[target.index()] {
            Some(d) => d,
            None => return None,
        };
        proof {
            self.lemma_path_upto(target, d as nat);
        }
        let mut path: Vec<(KernelPhase, KernelInputKind)> = Vec::new();
        let mut j: usize = 0;
        while j < d
            invariant
                j <= d,
                path@.len() == j,
            decreases d - j,
        {
            path.push((KernelPhase::Genesis, KernelInputKind::Initialize));
            j = j + 1;
        }
        let ghost full = self.path_upto(target, d as nat);
        let mut cur = target;
        let mut k: usize = d;
        while k > 0
            invariant
                self.wf(),
                k <= d,
                path@.len() == d,
                self.spec_distance(cur) == Some(k),
                full == self.path_upto(cur, k as nat) + path@.subrange(k as int, d as int),
            decreases k,
        {
            proof {
                lemma_index_bijection();
                assert(pred_ok(self.dist@, self.pred@, cur));
            }
            let (prev, input) = self.pred[cur.index()].unwrap();
            let ghost before = path@;
            path.set(k - 1, (cur, input));
            proof {
                let a = self.path_upto(prev, (k - 1) as nat);
                assert(self.path_upto(cur, k as nat) == a.push((cur, input)));
                assert(path@.subrange(k - 1, d as int) =~= seq![(cur, input)] + before.subrange(k as int, d as int));
                assert(a.push((cur, input)) + before.subrange(k as int, d as int) =~= a + path@.subrange(k - 1, d as int));
            }
            cur = prev;
            k = k - 1;
        }
        proof {
            assert(self.path_upto(cur, 0) =~= Seq::<(KernelPhase, KernelInputKind)>::empty());
            assert(path@.subrange(0, d as int) =~= path@);
        }
        Some(path)
    }

    /// All reachable phases, in definition order.
    pub fn reachable_phases(&self) -> (r: Vec<KernelPhase>)
        ensures
            r@ == all_phases().filter(|p: KernelPhase| reachable(p)),
    {
        proof {
            use_type_invariant(self);
            lemma_index_bijection();
        }
        let ghost pred = |p: KernelPhase| reachable(p);
        let mut out: Vec<KernelPhase> = Vec::new();
        let mut k: usize = 0;
        while k < NUM_PHASES
            invariant
                self.wf(),
                k <= NUM_PHASES,
                pred == (|p: KernelPhase| reachable(p)),
                out@ == all_phases().take(k as int).filter(pred),
            decreases NUM_PHASES - k,
        {
            proof {
                lemma_filter_take_succ(all_phases(), k as int, pred);
                lemma_index_bijection();
            }
            let p = KernelPhase::from_index(k);
            if self.dist[k].is_some() {
                proof {
                    assert(phase_index(p) == k);
                    assert(reachable(p)) by {
                        assert(within(p, at(self.dist@, p).unwrap() as nat));
                    }
                }
                out.push(p);
            } else {
                proof {
                    assert(phase_index(p) == k);
                }
            }
            k = k + 1;
        }
        assert(all_phases().take(NUM_PHASES as int) =~= all_phases());
        out
    }

    /// Is every phase reachable from `Genesis`?
    pub fn is_fully_connected(&self) -> (r: bool)
        ensures
            r == forall|p: KernelPhase| reachable(p),
    {
        proof {
            use_type_invariant(self);
            lemma_index_bijection();
        }
        let mut k: usize = 0;
        while k < NUM_PHASES
            invariant
                self.wf(),
                k <= NUM_PHASES,
                forall|j: int| 0 <= j < k ==> #[trigger] self.dist@[j] is Some,
            decreases NUM_PHASES - k,
        {
            if self.dist[k].is_none() {
                proof {
                    lemma_index_bijection();
                    assert(!reachable(phase_at(k as int))) by {
                        assert(phase_index(phase_at(k as int)) == k);
                        assert(at(self.dist@, phase_at(k as int)) is None);
                    }
                }
                return false;
            }
            k = k + 1;
        }
        proof {
            assert forall|p: KernelPhase| reachable(p) by {
                lemma_index_bijection();
                assert(self.dist@[phase_index(p)] is Some);
                assert(within(p, at(self.dist@, p).unwrap() as nat));
            }
        }
        true
    }
}

// ─── Counterfactual analysis of rules ────────────────────────────────────────

/// Does the transition table list (phase, input)?
pub open spec fn in_table(c: Cell) -> bool {
    exists|k: int| 0 <= k < TABLE_LEN && #[trigger] table_entry(k).from == c.0 && table_entry(k).on == c.1
}

/// Does the transition table list (phase, input)?
pub fn cell_in_table(phase: KernelPhase, input: KernelInputKind) -> (r: bool)
    ensures
        r == in_table((phase, input)),
{
    let mut k: usize = 0;
    while k < TABLE_LEN
        invariant
            k <= TABLE_LEN,
            forall|j: int| 0 <= j < k ==> !(#[trigger] table_entry(j).from == phase && table_entry(j).on == input),
        decreases TABLE_LEN - k,
    {
        let e = transition_entry(k);
        if e.from == phase && e.on == input {
            return true;
        }
        k = k + 1;
    }
    false
}

/// The views of the first `k` rules.
pub open spec fn prior_views(all: Seq<ConstraintRule>, k: int) -> Seq<RuleView> {
    all.take(k).map_values(|r: ConstraintRule| r@)
}

/// The rule fires on the cell and no earlier rule does: the rule is the
/// first match there.
pub open spec fn is_active(rule: RuleView, prior: Seq<RuleView>, c: Cell) -> bool {
    rule.fires(c.0, c.1) && forall|j: int| 0 <= j < prior.len() ==> !(#[trigger] prior[j]).fires(c.0, c.1)
}

/// The rule's active cells in phase-major order.
pub open spec fn active_cells(rule: RuleView, prior: Seq<RuleView>) -> Seq<Cell> {
    all_cells().filter(|c: Cell| is_active(rule, prior, c))
}

/// The active cells whose phase is reachable from `Genesis`.
pub open spec fn reachable_active(rule: RuleView, prior: Seq<RuleView>) -> Seq<Cell> {
    active_cells(rule, prior).filter(|c: Cell| reachable(c.0))
}

/// The reachable active cells the transition table lists.
pub open spec fn critical_active(rule: RuleView, prior: Seq<RuleView>) -> Seq<Cell> {
    reachable_active(rule, prior).filter(|c: Cell| in_table(c))
}

/// Steps from `Genesis` to fire the cell: the distance to its phase, plus one.
pub open spec fn cell_cost(g: &StateReachabilityGraph, c: Cell) -> int {
    g.spec_distance(c.0).unwrap() + 1
}

/// `s[i]` is the first cell of least cost in `s`.
pub open spec fn is_first_min(g: &StateReachabilityGraph, s: Seq<Cell>, i: int) -> bool {
    &&& 0 <= i < s.len()
    &&& forall|j: int| 0 <= j < s.len() ==> cell_cost(g, s[i]) <= #[trigger] cell_cost(g, s[j])
    &&& forall|j: int| 0 <= j < i ==> cell_cost(g, s[i]) < #[trigger] cell_cost(g, s[j])
}

/// A minimal execution path that would activate a specific cell of a rule's domain.
#[derive(Debug)]
pub struct CounterfactualWitness {
    /// The cell being activated.
    pub target_cell: (KernelPhase, KernelInputKind),
    /// The phase after firing the input.
    pub result_phase: KernelPhase,
    /// The steps from `Genesis`, as (phase entered, input); the last step is the cell itself.
    pub path: Vec<(KernelPhase, KernelInputKind)>,
    /// The number of steps (= `path.len()`), the triggering step included.
    pub path_length: usize,
    /// Does the transition table list the cell (so observing it makes the rule Critical)?
    pub makes_rule_critical: bool,
}

/// A copy of a sequence of steps.
fn copy_steps(v: &Vec<(KernelPhase, KernelInputKind)>) -> (r: Vec<(KernelPhase, KernelInputKind)>)
    ensures
        r@ == v@,
{
    let mut out: Vec<(KernelPhase, KernelInputKind)> = Vec::new();
    let mut k: usize = 0;
    while k < v.len()
        invariant
            k <= v@.len(),
            out@ == v@.take(k as int),
        decreases v@.len() - k,
    {
        proof {
            assert(v@.take(k + 1) =~= v@.take(k as int).push(v@[k as int]));
        }
        out.push(v[k]);
        k = k + 1;
    }
    assert(v@.take(v@.len() as int) =~= v@);
    out
}

impl Clone for CounterfactualWitness {
    fn clone(&self) -> (r: Self)
        ensures
            r.target_cell == self.target_cell,
            r.result_phase == self.result_phase,
            r.path@ == self.path@,
            r.path_length == self.path_length,
            r.makes_rule_critical == self.makes_rule_critical,
    {
        CounterfactualWitness {
            target_cell: self.target_cell,
            result_phase: self.result_phase,
            path: copy_steps(&self.path),
            path_length: self.path_length,
            makes_rule_critical: self.makes_rule_critical,
        }
    }
}

impl CounterfactualWitness {
    /// The input sequence from `Genesis` that triggers the cell.
    pub fn input_sequence(&self) -> (r: Vec<KernelInputKind>)
        ensures
            r@ == self.path@.map_values(|s: (KernelPhase, KernelInputKind)| s.1),
    {
        let mut out: Vec<KernelInputKind> = Vec::new();
        let mut k: usize = 0;
        while k < self.path.len()
            invariant
                k <= self.path@.len(),
                out@ == self.path@.take(k as int).map_values(|s: (KernelPhase, KernelInputKind)| s.1),
            decreases self.path@.len() - k,
        {
            proof {
                assert(self.path@.take(k + 1) =~= self.path@.take(k as int).push(self.path@[k as int]));
            }
            out.push(self.path[k].1);
            k = k + 1;
        }
        assert(self.path@.take(self.path@.len() as int) =~= self.path@);
        out
    }
}

/// The witness for cell `c` of a rule whose target is `target`: the recorded
/// shortest path into the cell's phase, then the cell's own step.
pub open spec fn witness_of(w: CounterfactualWitness, g: &StateReachabilityGraph, c: Cell, target: ConstraintTarget) -> bool {
    &&& w.target_cell == c
    &&& w.result_phase == target.spec_resolve(c.0)
    &&& w.path@ == g.spec_path(c.0).push(c)
    &&& w.path_length == cell_cost(g, c)
    &&& w.makes_rule_critical == in_table(c)
}

/// The witness for the first cheapest cell of `s`, if `s` has any cell.
pub open spec fn best_witness(
    w: Option<CounterfactualWitness>,
    g: &StateReachabilityGraph,
    s: Seq<Cell>,
    target: ConstraintTarget,
) -> bool {
    match w {
        Some(w) => exists|i: int| is_first_min(g, s, i) && witness_of(w, g, s[i], target),
        None => s.len() == 0,
    }
}

/// Full counterfactual analysis for one rule: what would have to happen for it to matter.
#[derive(Debug, Clone)]
pub struct CounterfactualAnalysis {
    pub rule_name: String,
    /// Some active cell of the rule lies in a reachable phase.
    pub is_reachable: bool,
    /// Some reachable active cell is listed in the transition table.
    pub can_become_critical: bool,
    /// Least steps to exercise any active cell.
    pub min_activation_distance: Option<usize>,
    /// Least steps to exercise a table-listed active cell.
    pub min_critical_distance: Option<usize>,
    /// The shortest witness that makes the rule Critical.
    pub minimal_critical_witness: Option<CounterfactualWitness>,
    /// The shortest witness that exercises any active cell.
    pub minimal_activation_witness: Option<CounterfactualWitness>,
    /// Every reachable table-listed active cell with its cost, in phase-major order.
    pub critical_cell_distances: Vec<((KernelPhase, KernelInputKind), usize)>,
}

/// `a` is the analysis of `rule`, whose predecessors in the rule set are `prior`.
pub open spec fn analysis_of(a: CounterfactualAnalysis, g: &StateReachabilityGraph, rule: RuleView, prior: Seq<RuleView>) -> bool {
    let reach = reachable_active(rule, prior);
    let crit = critical_active(rule, prior);
    &&& a.rule_name@ == rule.name
    &&& a.is_reachable == (reach.len() > 0)
    &&& a.can_become_critical == (crit.len() > 0)
    &&& best_witness(a.minimal_activation_witness, g, reach, rule.target)
    &&& best_witness(a.minimal_critical_witness, g, crit, rule.target)
    &&& a.min_activation_distance == match a.minimal_activation_witness {
        Some(w) => Some(w.path_length),
        None => None::<usize>,
    }
    &&& a.min_critical_distance == match a.minimal_critical_witness {
        Some(w) => Some(w.path_length),
        None => None::<usize>,
    }
    &&& a.critical_cell_distances@ == crit.map_values(|c: Cell| (c, cell_cost(g, c) as usize))
}

/// The rule can become Critical within `t` steps.
pub open spec fn latently_important(a: CounterfactualAnalysis, t: int) -> bool {
    a.can_become_critical && match a.min_critical_distance {
        Some(d) => d <= t,
        None => false,
    }
}

/// Latent importance only grows with the threshold: a rule latently
/// important within `t1` steps is so within any `t2 >= t1`.
pub proof fn lemma_latent_importance_monotone(a: CounterfactualAnalysis, t1: int, t2: int)
    requires
        t1 <= t2,
        latently_important(a, t1),
    ensures
        latently_important(a, t2),
{
}

impl CounterfactualAnalysis {
    /// Is the rule latently important: able to become Critical within `near_threshold` steps?
    pub fn is_latently_important(&self, near_threshold: usize) -> (r: bool)
        ensures
            r == latently_important(*self, near_threshold as int),
    {
        self.can_become_critical && match self.min_critical_distance {
            Some(d) => d <= near_threshold,
            None => false,
        }
    }
}

/// Appending a cell to a sequence moves its first cheapest cell to the new
/// one exactly when the new one is strictly cheaper.
proof fn lemma_first_min_push(g: &StateReachabilityGraph, s: Seq<Cell>, i: int, x: Cell)
    requires
        s.len() == 0 || is_first_min(g, s, i),
    ensures
        s.len() == 0 ==> is_first_min(g, s.push(x), 0),
        s.len() > 0 && cell_cost(g, x) < cell_cost(g, s[i]) ==> is_first_min(g, s.push(x), s.len() as int),
        s.len() > 0 && !(cell_cost(g, x) < cell_cost(g, s[i])) ==> is_first_min(g, s.push(x), i),
{
    let t = s.push(x);
    if s.len() > 0 {
        assert forall|j: int| 0 <= j < s.len() implies t[j] == s[j] by {}
        if cell_cost(g, x) < cell_cost(g, s[i]) {
            assert forall|j: int| 0 <= j < t.len() implies cell_cost(g, t[s.len() as int]) <= #[trigger] cell_cost(g, t[j]) by {
                if j < s.len() {
                    assert(cell_cost(g, s[i]) <= cell_cost(g, s[j]));
                }
            }
            assert forall|j: int| 0 <= j < s.len() implies cell_cost(g, t[s.len() as int]) < #[trigger] cell_cost(g, t[j]) by {
                assert(cell_cost(g, s[i]) <= cell_cost(g, s[j]));
            }
        } else {
            assert forall|j: int| 0 <= j < t.len() implies cell_cost(g, t[i]) <= #[trigger] cell_cost(g, t[j]) by {
                if j < s.len() {
                    assert(cell_cost(g, s[i]) <= cell_cost(g, s[j]));
                }
            }
            assert forall|j: int| 0 <= j < i implies cell_cost(g, t[i]) < #[trigger] cell_cost(g, t[j]) by {
                assert(cell_cost(g, s[i]) < cell_cost(g, s[j]));
            }
        }
    }
}

/// Computes the counterfactual analysis of every rule of a rule set.
pub struct CounterfactualAnalyzer {
    pub graph: StateReachabilityGraph,
}

impl CounterfactualAnalyzer {
    pub fn new() -> (r: Self)
        ensures
            forall|q: KernelPhase| match #[trigger] r.graph.spec_distance(q) {
                Some(d) => is_shortest(q, d as nat),
                None => !reachable(q),
            },
    {
        CounterfactualAnalyzer { graph: StateReachabilityGraph::build() }
    }

    /// Is `rule` the first match at (phase, input), given the rules before it?
    pub(crate) fn is_active_cell(
        rule: &ConstraintRule,
        all_rules: &[ConstraintRule],
        rule_index: usize,
        phase: KernelPhase,
        input: KernelInputKind,
    ) -> (r: bool)
        requires
            rule_index <= all_rules@.len(),
        ensures
            r == is_active(rule@, prior_views(all_rules@, rule_index as int), (phase, input)),
    {
        let ghost prior = prior_views(all_rules@, rule_index as int);
        if !rule.guard.eval(phase, input) {
            return false;
        }
        let mut j: usize = 0;
        while j < rule_index
            invariant
                j <= rule_index,
                rule_index <= all_rules@.len(),
                prior == prior_views(all_rules@, rule_index as int),
                forall|m: int| 0 <= m < j ==> !(#[trigger] prior[m]).fires(phase, input),
            decreases rule_index - j,
        {
            assert(prior[j as int] == all_rules@[j as int]@);
            if all_rules[j].guard.eval(phase, input) {
                return false;
            }
            j = j + 1;
        }
        true
    }

    /// The analysis of `rule`, at position `rule_index` among `all_rules`.
    pub fn analyze_rule(&self, rule: &ConstraintRule, rule_index: usize, all_rules: &[ConstraintRule]) -> (r: CounterfactualAnalysis)
        requires
            rule_index <= all_rules@.len(),
        ensures
            analysis_of(r, &self.graph, rule@, prior_views(all_rules@, rule_index as int)),
    {
        let ghost prior = prior_views(all_rules@, rule_index as int);
        let ghost act_pred = |c: Cell| is_active(rule@, prior, c);
        let ghost reach_pred = |c: Cell| reachable(c.0);
        let ghost tab_pred = |c: Cell| in_table(c);
        let ghost g = &self.graph;
        // The active domain, in phase-major order.
        let mut active: Vec<Cell> = Vec::new();
        let mut c: usize = 0;
        while c < NUM_CELLS
            invariant
                c <= NUM_CELLS,
                rule_index <= all_rules@.len(),
                prior == prior_views(all_rules@, rule_index as int),
                act_pred == (|c: Cell| is_active(rule@, prior, c)),
                active@ == all_cells().take(c as int).filter(act_pred),
            decreases NUM_CELLS - c,
        {
            proof {
                lemma_filter_take_succ(all_cells(), c as int, act_pred);
            }
            let (p, i) = cell(c);
            if Self::is_active_cell(rule, all_rules, rule_index, p, i) {
                active.push((p, i));
            }
            c = c + 1;
        }
        proof {
            assert(all_cells().take(NUM_CELLS as int) =~= all_cells());
        }
        let mut best_act: Option<(Cell, usize)> = None;
        let mut best_crit: Option<(Cell, usize)> = None;
        let mut crit_dists: Vec<(Cell, usize)> = Vec::new();
        let ghost mut ia: int = 0;
        let ghost mut ic: int = 0;
        let ghost cost = |c: Cell| (c, cell_cost(g, c) as usize);
        let mut a: usize = 0;
        while a < active.len()
            invariant
                a <= active@.len(),
                active@ == active_cells(rule@, prior),
                act_pred == (|c: Cell| is_active(rule@, prior, c)),
                reach_pred == (|c: Cell| reachable(c.0)),
                tab_pred == (|c: Cell| in_table(c)),
                g == &self.graph,
                cost == (|c: Cell| (c, cell_cost(g, c) as usize)),
                match best_act {
                    None => active@.take(a as int).filter(reach_pred).len() == 0,
                    Some(b) => is_first_min(g, active@.take(a as int).filter(reach_pred), ia)
                        && active@.take(a as int).filter(reach_pred)[ia] == b.0 && b.1 == cell_cost(g, b.0),
                },
                match best_crit {
                    None => active@.take(a as int).filter(reach_pred).filter(tab_pred).len() == 0,
                    Some(b) => is_first_min(g, active@.take(a as int).filter(reach_pred).filter(tab_pred), ic)
                        && active@.take(a as int).filter(reach_pred).filter(tab_pred)[ic] == b.0 && b.1 == cell_cost(g, b.0),
                },
                crit_dists@ == active@.take(a as int).filter(reach_pred).filter(tab_pred).map_values(cost),
                best_act is Some ==> reachable(best_act.unwrap().0.0),
                best_crit is Some ==> reachable(best_crit.unwrap().0.0),
            decreases active@.len() - a,
        {
            let cl = active[a];
            let ghost reach0 = active@.take(a as int).filter(reach_pred);
            let ghost crit0 = reach0.filter(tab_pred);
            proof {
                lemma_filter_take_succ(active@, a as int, reach_pred);
            }
            match self.graph.distance_to(cl.0) {
                None => {
                    proof {
                        assert(!reach_pred(cl));
                    }
                },
                Some(d) => {
                    let total = d + 1;
                    let in_tab = cell_in_table(cl.0, cl.1);
                    proof {
                        assert(reach_pred(cl)) by {
                            assert(within(cl.0, d as nat));
                        }
                        let reach1 = reach0.push(cl);
                        assert(active@.take(a + 1).filter(reach_pred) == reach1);
                        reach0.lemma_filter_push(cl, tab_pred);
                        assert(total == cell_cost(g, cl));
                        lemma_first_min_push(g, reach0, ia, cl);
                        lemma_first_min_push(g, crit0, ic, cl);
                    }
                    let better = match best_act {
                        None => true,
                        Some(b) => total < b.1,
                    };
                    if better {
                        best_act = Some((cl, total));
                        proof {
                            ia = reach0.len() as int;
                        }
                    }
                    if in_tab {
                        proof {
                            assert(crit0.push(cl).map_values(cost) =~= crit0.map_values(cost).push(cost(cl)));
                        }
                        crit_dists.push((cl, total));
                        let better_c = match best_crit {
                            None => true,
                            Some(b) => total < b.1,
                        };
                        if better_c {
                            best_crit = Some((cl, total));
                            proof {
                                ic = crit0.len() as int;
                            }
                        }
                    }
                },
            }
            a = a + 1;
        }
        proof {
            assert(active@.take(active@.len() as int) =~= active@);
        }
        let activation_witness = match best_act {
            None => None,
            Some(b) => Some(self.witness_for(b.0, b.1, rule.target)),
        };
        let critical_witness = match best_crit {
            None => None,
            Some(b) => Some(self.witness_for(b.0, b.1, rule.target)),
        };
        let min_activation_distance = match best_act {
            None => None,
            Some(b) => Some(b.1),
        };
        let min_critical_distance = match best_crit {
            None => None,
            Some(b) => Some(b.1),
        };
        CounterfactualAnalysis {
            rule_name: String::from_str(rule.name),
            is_reachable: best_act.is_some(),
            can_become_critical: best_crit.is_some(),
            min_activation_distance,
            min_critical_distance,
            minimal_critical_witness: critical_witness,
            minimal_activation_witness: activation_witness,
            critical_cell_distances: crit_dists,
        }
    }

    /// The witness for a reachable cell of cost `total`.
    fn witness_for(&self, cl: Cell, total: usize, target: ConstraintTarget) -> (w: CounterfactualWitness)
        requires
            reachable(cl.0),
            total == cell_cost(&self.graph, cl),
        ensures
            witness_of(w, &self.graph, cl, target),
    {
        let mut path = match self.graph.shortest_path_to(cl.0) {
            Some(p) => p,
            None => {
                proof {
                    assert(false);
                }
                Vec::new()
            },
        };
        path.push(cl);
        let in_tab = cell_in_table(cl.0, cl.1);
        CounterfactualWitness {
            target_cell: cl,
            result_phase: target.resolve(cl.0),
            path,
            path_length: total,
            makes_rule_critical: in_tab,
        }
    }

    /// The analysis of every rule of a rule set, in rule order.
    pub fn analyze_all(&self, rule_set: &RuleSet) -> (r: Vec<CounterfactualAnalysis>)
        ensures
            r@.len() == rule_set.rules@.len(),
            forall|k: int| 0 <= k < r@.len() ==> analysis_of(
                #[trigger] r@[k],
                &self.graph,
                rule_set.rules@[k]@,
                prior_views(rule_set.rules@, k),
            ),
    {
        let rules = rule_set.rules.as_slice();
        let mut out: Vec<CounterfactualAnalysis> = Vec::new();
        let mut k: usize = 0;
        while k < rules.len()
            invariant
                k <= rules@.len(),
                rules@ == rule_set.rules@,
                out@.len() == k,
                forall|j: int| 0 <= j < k ==> analysis_of(#[trigger] out@[j], &self.graph, rules@[j]@, prior_views(rules@, j)),
            decreases rules@.len() - k,
        {
            let a = self.analyze_rule(&rules[k], k, rules);
            out.push(a);
            k = k + 1;
        }
        out
    }
}

// ─── SemanticFixationGuard ───────────────────────────────────────────────────

/// Keeps the simplifier from removing latently important rules.
#[derive(Debug, Clone)]
pub struct SemanticFixationGuard {
    /// Rules reachable within this many steps are preserved.
    pub near_threshold: usize,
}

/// Whether a rule may be simplified.
#[derive(Debug, Clone, PartialEq, Eq, Structural)]
pub enum SimplificationVerdict {
    /// The rule may be simplified.
    SafeToSimplify,
    /// The rule must be preserved, for the reason given.
    Preserve(PreserveReason),
}

/// Why a rule must be preserved.
#[derive(Debug, Clone, Copy, PartialEq, Eq, Structural)]
pub enum PreserveReason {
    /// The rule is Critical (necessary for a table entry).
    IsCritical,
    /// The rule can fire within the threshold.
    LatentlyImportant { min_critical_distance: usize },
    /// The rule carries observed causal importance.
    HasCausalImportance,
    /// The rule can become Critical, though beyond the threshold.
    CanBecomeCritical { min_distance: usize },
}

/// The verdict, decided in order: Critical rules, rules with causal
/// importance, unreachable rules (safe), rules that can become Critical within
/// the threshold, rules that can become Critical at all, rules that can fire
/// within the threshold; every other rule is safe to simplify.
pub open spec fn spec_verdict(
    near_threshold: usize,
    a: CounterfactualAnalysis,
    necessity: NecessityClass,
    has_causal_importance: bool,
) -> SimplificationVerdict {
    if necessity == NecessityClass::Critical {
        SimplificationVerdict::Preserve(PreserveReason::IsCritical)
    } else if has_causal_importance {
        SimplificationVerdict::Preserve(PreserveReason::HasCausalImportance)
    } else if !a.is_reachable {
        SimplificationVerdict::SafeToSimplify
    } else if a.min_critical_distance is Some && a.min_critical_distance.unwrap() <= near_threshold {
        SimplificationVerdict::Preserve(PreserveReason::LatentlyImportant { min_critical_distance: a.min_critical_distance.unwrap() })
    } else if a.can_become_critical {
        SimplificationVerdict::Preserve(PreserveReason::CanBecomeCritical {
            min_distance: match a.min_critical_distance {
                Some(d) => d,
                None => usize::MAX,
            },
        })
    } else if a.min_activation_distance is Some && a.min_activation_distance.unwrap() <= near_threshold {
        SimplificationVerdict::Preserve(PreserveReason::LatentlyImportant { min_critical_distance: usize::MAX })
    } else {
        SimplificationVerdict::SafeToSimplify
    }
}

impl SemanticFixationGuard {
    pub fn new(near_threshold: usize) -> (r: Self)
        ensures
            r.near_threshold == near_threshold,
    {
        SemanticFixationGuard { near_threshold }
    }

    /// The standard threshold: 8 steps from `Genesis`, which covers the whole
    /// happy path and most error paths.
    pub fn standard() -> (r: Self)
        ensures
            r.near_threshold == 8,
    {
        Self::new(8)
    }

    /// May the analysed rule be simplified? `has_causal_importance` says whether
    /// at least 1% of the observed execution runs through the rule.
    pub fn verdict(
        &self,
        analysis: &CounterfactualAnalysis,
        necessity_class: NecessityClass,
        has_causal_importance: bool,
    ) -> (r: SimplificationVerdict)
        ensures
            r == spec_verdict(self.near_threshold, *analysis, necessity_class, has_causal_importance),
    {
        if necessity_class == NecessityClass::Critical {
            return SimplificationVerdict::Preserve(PreserveReason::IsCritical);
        }
        if has_causal_importance {
            return SimplificationVerdict::Preserve(PreserveReason::HasCausalImportance);
        }
        if !analysis.is_reachable {
            return SimplificationVerdict::SafeToSimplify;
        }
        if let Some(d) = analysis.min_critical_distance {
            if d <= self.near_threshold {
                return SimplificationVerdict::Preserve(PreserveReason::LatentlyImportant { min_critical_distance: d });
            }
        }
        if analysis.can_become_critical {
            let dist = match analysis.min_critical_distance {
                Some(d) => d,
                None => usize::MAX,
            };
            return SimplificationVerdict::Preserve(PreserveReason::CanBecomeCritical { min_distance: dist });
        }
        if let Some(d) = analysis.min_activation_distance {
            if d <= self.near_threshold {
                return SimplificationVerdict::Preserve(PreserveReason::LatentlyImportant { min_critical_distance: usize::MAX });
            }
        }
        SimplificationVerdict::SafeToSimplify
    }

    /// Is the verdict `SafeToSimplify`?
    pub fn is_fixation_safe(&self, analysis: &CounterfactualAnalysis, necessity: NecessityClass, has_causal_importance: bool) -> (r: bool)
        ensures
            r == (spec_verdict(self.near_threshold, *analysis, necessity, has_causal_importance) is SafeToSimplify),
    {
        match self.verdict(analysis, necessity, has_causal_importance) {
            SimplificationVerdict::SafeToSimplify => true,
            _ => false,
        }
    }
}

/// A latently important rule is never judged safe to simplify.
pub proof fn lemma_latent_rules_preserved(
    near_threshold: usize,
    a: CounterfactualAnalysis,
    necessity: NecessityClass,
    has_causal_importance: bool,
)
    requires
        a.can_become_critical,
        a.min_critical_distance is Some,
        a.min_critical_distance.unwrap() <= near_threshold,
        a.is_reachable,
    ensures
        spec_verdict(near_threshold, a, necessity, has_causal_importance) is Preserve,
{
}

// ─── CounterfactualReport ────────────────────────────────────────────────────

/// Reachability statistics of the graph.
#[derive(Debug, Clone)]
pub struct ReachabilityStats {
    pub total_phases: usize,
    pub reachable_phases: usize,
    /// Unreachable phases, in definition order.
    pub unreachable_phases: Vec<KernelPhase>,
    /// The largest distance from `Genesis`.
    pub max_distance: usize,
    /// Each distance that occurs, ascending, with its phases in definition order.
    pub phases_by_distance: Vec<(usize, Vec<KernelPhase>)>,
}

/// The phases at distance `d`, in definition order.
pub open spec fn level(g: &StateReachabilityGraph, d: usize) -> Seq<KernelPhase> {
    all_phases().filter(|p: KernelPhase| g.spec_distance(p) == Some(d))
}

/// The nonempty levels up to `n`, ascending.
pub open spec fn levels_upto(g: &StateReachabilityGraph, n: nat) -> Seq<(usize, Seq<KernelPhase>)> {
    Seq::new(n, |d: int| (d as usize, level(g, d as usize))).filter(|e: (usize, Seq<KernelPhase>)| e.1.len() > 0)
}

/// The views of the level lists.
pub open spec fn levels_view(v: Seq<(usize, Vec<KernelPhase>)>) -> Seq<(usize, Seq<KernelPhase>)> {
    v.map_values(|e: (usize, Vec<KernelPhase>)| (e.0, e.1@))
}

/// Full counterfactual report for a rule set.
#[derive(Debug)]
pub struct CounterfactualReport {
    pub analyses: Vec<CounterfactualAnalysis>,
    pub graph_stats: ReachabilityStats,
}

impl CounterfactualReport {
    /// The phases at distance `d`, in definition order.
    fn level_of(g: &StateReachabilityGraph, d: usize) -> (r: Vec<KernelPhase>)
        ensures
            r@ == level(g, d),
    {
        let ghost pred = |p: KernelPhase| g.spec_distance(p) == Some(d);
        let mut out: Vec<KernelPhase> = Vec::new();
        let mut k: usize = 0;
        while k < NUM_PHASES
            invariant
                k <= NUM_PHASES,
                pred == (|p: KernelPhase| g.spec_distance(p) == Some(d)),
                out@ == all_phases().take(k as int).filter(pred),
            decreases NUM_PHASES - k,
        {
            proof {
                lemma_filter_take_succ(all_phases(), k as int, pred);
            }
            let p = KernelPhase::from_index(k);
            if g.distance_to(p) == Some(d) {
                out.push(p);
            }
            k = k + 1;
        }
        assert(all_phases().take(NUM_PHASES as int) =~= all_phases());
        out
    }

    /// Analyse every rule and summarise the reachability graph.
    pub fn build(analyzer: &CounterfactualAnalyzer, rule_set: &RuleSet) -> (r: Self)
        ensures
            r.analyses@.len() == rule_set.rules@.len(),
            forall|k: int| 0 <= k < r.analyses@.len() ==> analysis_of(
                #[trigger] r.analyses@[k],
                &analyzer.graph,
                rule_set.rules@[k]@,
                prior_views(rule_set.rules@, k),
            ),
            r.graph_stats.total_phases == NUM_PHASES,
            r.graph_stats.reachable_phases == all_phases().filter(|p: KernelPhase| reachable(p)).len(),
            r.graph_stats.unreachable_phases@ == all_phases().filter(|p: KernelPhase| !reachable(p)),
            forall|q: KernelPhase| #[trigger] analyzer.graph.spec_distance(q) is Some
                ==> analyzer.graph.spec_distance(q).unwrap() <= r.graph_stats.max_distance,
            r.graph_stats.max_distance == 0 || exists|q: KernelPhase|
                #[trigger] analyzer.graph.spec_distance(q) == Some(r.graph_stats.max_distance),
            levels_view(r.graph_stats.phases_by_distance@) == levels_upto(&analyzer.graph, (r.graph_stats.max_distance + 1) as nat),
    {
        let analyses = analyzer.analyze_all(rule_set);
        let g = &analyzer.graph;
        let reachable_list = g.reachable_phases();
        let ghost unreach = |p: KernelPhase| !reachable(p);
        let mut unreachable: Vec<KernelPhase> = Vec::new();
        let mut max_dist: usize = 0;
        let mut k: usize = 0;
        while k < NUM_PHASES
            invariant
                k <= NUM_PHASES,
                unreach == (|p: KernelPhase| !reachable(p)),
                unreachable@ == all_phases().take(k as int).filter(unreach),
                max_dist < NUM_PHASES,
                forall|j: int| 0 <= j < k ==> #[trigger] g.spec_distance(phase_at(j)) is Some
                    ==> g.spec_distance(phase_at(j)).unwrap() <= max_dist,
                max_dist == 0 || exists|q: KernelPhase| #[trigger] g.spec_distance(q) == Some(max_dist),
            decreases NUM_PHASES - k,
        {
            proof {
                lemma_filter_take_succ(all_phases(), k as int, unreach);
            }
            let p = KernelPhase::from_index(k);
            match g.distance_to(p) {
                Some(d) => {
                    proof {
                        assert(within(p, d as nat));
                    }
                    if d > max_dist {
                        max_dist = d;
                    }
                },
                None => {
                    unreachable.push(p);
                },
            }
            k = k + 1;
        }
        proof {
            assert(all_phases().take(NUM_PHASES as int) =~= all_phases());
            lemma_index_bijection();
            assert forall|q: KernelPhase| #[trigger] g.spec_distance(q) is Some implies g.spec_distance(q).unwrap() <= max_dist by {
                assert(phase_at(phase_index(q)) == q);
                assert(g.spec_distance(phase_at(phase_index(q))) is Some);
            }
        }
        let mut by_dist: Vec<(usize, Vec<KernelPhase>)> = Vec::new();
        let ghost nonempty = |e: (usize, Seq<KernelPhase>)| e.1.len() > 0;
        let ghost all_levels = Seq::new((max_dist + 1) as nat, |d: int| (d as usize, level(g, d as usize)));
        let mut d: usize = 0;
        while d <= max_dist
            invariant
                d <= max_dist + 1,
                max_dist < NUM_PHASES,
                nonempty == (|e: (usize, Seq<KernelPhase>)| e.1.len() > 0),
                all_levels == Seq::new((max_dist + 1) as nat, |d: int| (d as usize, level(g, d as usize))),
                levels_view(by_dist@) == all_levels.take(d as int).filter(nonempty),
            decreases max_dist + 1 - d,
        {
            proof {
                lemma_filter_take_succ(all_levels, d as int, nonempty);
            }
            let ps = Self::level_of(g, d);
            if ps.len() > 0 {
                let ghost before = by_dist@;
                by_dist.push((d, ps));
                proof {
                    assert(levels_view(by_dist@) =~= levels_view(before).push((d, level(g, d))));
                }
            }
            d = d + 1;
        }
        proof {
            assert(all_levels.take((max_dist + 1) as int) =~= all_levels);
        }
        CounterfactualReport {
            analyses,
            graph_stats: ReachabilityStats {
                total_phases: NUM_PHASES,
                reachable_phases: reachable_list.len(),
                unreachable_phases: unreachable,
                max_distance: max_dist,
                phases_by_distance: by_dist,
            },
        }
    }

    /// The analyses of the rules that are latently important at `threshold`.
    pub fn latently_important_rules(&self, threshold: usize) -> (r: Vec<&CounterfactualAnalysis>)
        ensures
            r@.map_values(|a: &CounterfactualAnalysis| *a) == self.analyses@.filter(
                |a: CounterfactualAnalysis| a.can_become_critical && match a.min_critical_distance {
                    Some(d) => d <= threshold,
                    None => false,
                },
            ),
    {
        let ghost pred = |a: CounterfactualAnalysis| a.can_become_critical && match a.min_critical_distance {
            Some(d) => d <= threshold,
            None => false,
        };
        let mut out: Vec<&CounterfactualAnalysis> = Vec::new();
        let mut k: usize = 0;
        while k < self.analyses.len()
            invariant
                k <= self.analyses@.len(),
                pred == (|a: CounterfactualAnalysis| a.can_become_critical && match a.min_critical_distance {
                    Some(d) => d <= threshold,
                    None => false,
                }),
                out@.map_values(|a: &CounterfactualAnalysis| *a) == self.analyses@.take(k as int).filter(pred),
            decreases self.analyses@.len() - k,
        {
            proof {
                lemma_filter_take_succ(self.analyses@, k as int, pred);
            }
            let a = &self.analyses[k];
            if a.is_latently_important(threshold) {
                let ghost before = out@;
                out.push(a);
                proof {
                    assert(out@.map_values(|a: &CounterfactualAnalysis| *a) =~= before.map_values(|a: &CounterfactualAnalysis| *a).push(*a));
                }
            }
            k = k + 1;
        }
        assert(self.analyses@.take(self.analyses@.len() as int) =~= self.analyses@);
        out
    }

    /// The analyses of the rules that no execution from `Genesis` can reach.
    pub fn unreachable_rules(&self) -> (r: Vec<&CounterfactualAnalysis>)
        ensures
            r@.map_values(|a: &CounterfactualAnalysis| *a) == self.analyses@.filter(|a: CounterfactualAnalysis| !a.is_reachable),
    {
        let ghost pred = |a: CounterfactualAnalysis| !a.is_reachable;
        let mut out: Vec<&CounterfactualAnalysis> = Vec::new();
        let mut k: usize = 0;
        while k < self.analyses.len()
            invariant
                k <= self.analyses@.len(),
                pred == (|a: CounterfactualAnalysis| !a.is_reachable),
                out@.map_values(|a: &CounterfactualAnalysis| *a) == self.analyses@.take(k as int).filter(pred),
            decreases self.analyses@.len() - k,
        {
            proof {
                lemma_filter_take_succ(self.analyses@, k as int, pred);
            }
            let a = &self.analyses[k];
            if !a.is_reachable {
                let ghost before = out@;
                out.push(a);
                proof {
                    assert(out@.map_values(|a: &CounterfactualAnalysis| *a) =~= before.map_values(|a: &CounterfactualAnalysis| *a).push(*a));
                }
            }
            k = k + 1;
        }
        assert(self.analyses@.take(self.analyses@.len() as int) =~= self.analyses@);
        out
    }
}

} // verus!
