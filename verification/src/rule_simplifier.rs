//! Safe rule-set simplification: remove rules whose necessity class is
//! Redundant, or merge two rules with the same target phase into one whose
//! guard is the union, as long as the hard invariants and the development
//! entropy floor still hold; repeat to a fixed point.

use vstd::prelude::*;
use crate::algebra_stability::{
    acyclic_result, alignment_result, check_kernel_alignment, check_no_conflicts, check_pipeline_acyclic, conflicts_result,
};
use crate::cells::lemma_filter_take_succ;
use crate::constraint_algebra::{canonical_constraint_rules, ConstraintRule, ConstraintTarget, ExprView, RuleSet, RuleView};
use crate::kernel_state::{kernel_delta, spec_kernel_delta, KernelInputKind, KernelPhase};
use crate::proof_certificate::ExecutionTrace;
use crate::semantic_weight::{class_of, views, NecessityClass, SemanticWeightLayer};
use crate::specification_entropy::{decides, development_floor, development_floor_holds};

verus! {

// ─── SimplificationOp ────────────────────────────────────────────────────────

/// One atomic simplification operation.
#[derive(Debug, Clone)]
pub enum SimplificationOp {
    /// Remove a rule of necessity class Redundant.
    Remove { rule_name: String },
    /// Merge two rules into one by the union of their guards.
    Merge { rule_a: String, rule_b: String, result_name: String },
    /// Replace a cluster of exact-pair rules by one rule over a phase or input set.
    Generalize { from_rules: Vec<String>, to_rule_name: String, cells_unified: usize },
}

/// The mathematical value of a [`SimplificationOp`].
pub enum OpView {
    Remove(Seq<char>),
    Merge(Seq<char>, Seq<char>, Seq<char>),
    Generalize(Seq<Seq<char>>, Seq<char>, usize),
}

impl View for SimplificationOp {
    type V = OpView;

    open spec fn view(&self) -> OpView {
        match self {
            SimplificationOp::Remove { rule_name } => OpView::Remove(rule_name@),
            SimplificationOp::Merge { rule_a, rule_b, result_name } => OpView::Merge(rule_a@, rule_b@, result_name@),
            SimplificationOp::Generalize { from_rules, to_rule_name, cells_unified } => OpView::Generalize(
                from_rules@.map_values(|s: String| s@),
                to_rule_name@,
                *cells_unified,
            ),
        }
    }
}

/// The views of a sequence of operations.
pub open spec fn ops_view(ops: Seq<SimplificationOp>) -> Seq<OpView> {
    ops.map_values(|o: SimplificationOp| o@)
}

impl SimplificationOp {
    /// The operation's kind: `Remove`, `Merge` or `Generalize`.
    pub fn kind(&self) -> (r: &'static str)
        ensures
            r@ == match self {
                SimplificationOp::Remove { .. } => "Remove"@,
                SimplificationOp::Merge { .. } => "Merge"@,
                SimplificationOp::Generalize { .. } => "Generalize"@,
            },
    {
        match self {
            SimplificationOp::Remove { .. } => {
                proof { reveal_strlit("Remove"); }
                "Remove"
            },
            SimplificationOp::Merge { .. } => {
                proof { reveal_strlit("Merge"); }
                "Merge"
            },
            SimplificationOp::Generalize { .. } => {
                proof { reveal_strlit("Generalize"); }
                "Generalize"
            },
        }
    }
}

// ─── SimplificationResult ────────────────────────────────────────────────────

/// A simplified rule set with the audit trail of what was done.
pub struct SimplificationResult {
    pub rule_set: RuleSet,
    pub ops: Vec<SimplificationOp>,
    pub before_rule_count: usize,
    pub after_rule_count: usize,
    pub iterations: usize,
    pub converged: bool,
}

/// The kind of an operation as a number: Remove 0, Merge 1, Generalize 2.
pub open spec fn kind_index(o: OpView) -> u8 {
    match o {
        OpView::Remove(..) => 0,
        OpView::Merge(..) => 1,
        OpView::Generalize(..) => 2,
    }
}

/// How many operations of kind `which` the trail holds.
pub open spec fn count_kind(ops: Seq<OpView>, which: u8) -> nat {
    ops.filter(|o: OpView| kind_index(o) == which).len()
}

fn kind_of(o: &SimplificationOp) -> (r: u8)
    ensures
        r == kind_index(o@),
{
    match o {
        SimplificationOp::Remove { .. } => 0,
        SimplificationOp::Merge { .. } => 1,
        SimplificationOp::Generalize { .. } => 2,
    }
}

fn count_ops(ops: &Vec<SimplificationOp>, which: u8) -> (r: usize)
    ensures
        r == count_kind(ops_view(ops@), which),
{
    let ghost pred = |o: OpView| kind_index(o) == which;
    let ghost vs = ops_view(ops@);
    let mut n: usize = 0;
    let mut k: usize = 0;
    while k < ops.len()
        invariant
            k <= ops@.len(),
            vs == ops_view(ops@),
            vs.len() == ops@.len(),
            pred == (|o: OpView| kind_index(o) == which),
            n == vs.take(k as int).filter(pred).len(),
            n <= k,
        decreases ops@.len() - k,
    {
        proof {
            lemma_filter_take_succ(vs, k as int, pred);
        }
        assert(vs[k as int] == ops@[k as int]@);
        if kind_of(&ops[k]) == which {
            n = n + 1;
        }
        k = k + 1;
    }
    assert(vs.take(vs.len() as int) =~= vs);
    n
}

impl SimplificationResult {
    /// The result of doing nothing to a rule set.
    pub fn unchanged_from(rs: RuleSet) -> (r: Self)
        ensures
            r.rule_set == rs,
            r.ops@.len() == 0,
            r.before_rule_count == rs@.len(),
            r.after_rule_count == rs@.len(),
            r.iterations == 0,
            r.converged,
    {
        let n = rs.rule_count();
        SimplificationResult { rule_set: rs, ops: Vec::new(), before_rule_count: n, after_rule_count: n, iterations: 0, converged: true }
    }

    pub fn removed_count(&self) -> (r: usize)
        ensures
            r == count_kind(ops_view(self.ops@), 0),
    {
        count_ops(&self.ops, 0)
    }

    pub fn merged_count(&self) -> (r: usize)
        ensures
            r == count_kind(ops_view(self.ops@), 1),
    {
        count_ops(&self.ops, 1)
    }

    pub fn generalized_count(&self) -> (r: usize)
        ensures
            r == count_kind(ops_view(self.ops@), 2),
    {
        count_ops(&self.ops, 2)
    }
}

// ─── The simplification step, in mathematics ─────────────────────────────────

/// The hard standard invariants: kernel alignment, an acyclic pipeline, no
/// conflicts.
pub open spec fn hard_invariants_hold(rs: Seq<RuleView>) -> bool {
    alignment_result(rs) is None && acyclic_result(rs) is None && conflicts_result(rs) is None
}

/// A candidate is accepted when the hard invariants and the entropy floor hold.
pub open spec fn accepts(rs: Seq<RuleView>, shannon_ok: spec_fn(Seq<usize>) -> bool) -> bool {
    hard_invariants_hold(rs) && development_floor_holds(rs, shannon_ok)
}

/// Positions `0 .. n`.
pub open spec fn positions(n: nat) -> Seq<int> {
    Seq::new(n, |i: int| i)
}

/// Is the rule at position `i` of necessity class Redundant?
pub open spec fn redundant_in(all: Seq<RuleView>, i: int) -> bool {
    class_of(all[i], all, i) == NecessityClass::Redundant
}

/// The positions of the Redundant rules, in order.
pub open spec fn redundant_positions(all: Seq<RuleView>) -> Seq<int> {
    positions(all.len()).filter(|i: int| redundant_in(all, i))
}

/// The rules that are not Redundant, in order.
pub open spec fn kept_rules(all: Seq<RuleView>) -> Seq<RuleView> {
    positions(all.len()).filter(|i: int| !redundant_in(all, i)).map_values(|i: int| all[i])
}

/// The name of a merged rule: `merge:a+b`.
pub open spec fn merge_name(a: Seq<char>, b: Seq<char>) -> Seq<char> {
    "merge:"@ + a + "+"@ + b
}

/// Wherever the guard holds, the kernel's δ is `t`.
pub open spec fn guard_agrees(g: ExprView, t: KernelPhase) -> bool {
    forall|p: KernelPhase, i: KernelInputKind| #[trigger] g.eval(p, i) ==> spec_kernel_delta(p, i) == t
}

/// The merge of two rules: both target the same explicit phase, and the
/// kernel's δ is that phase wherever either fires.
pub open spec fn merge_of(a: RuleView, b: RuleView) -> Option<RuleView> {
    match (a.target, b.target) {
        (ConstraintTarget::Phase(pa), ConstraintTarget::Phase(pb)) => {
            let g = ExprView::Or(Box::new(a.guard), Box::new(b.guard));
            if pa == pb && guard_agrees(g, pa) {
                Some(RuleView { name: merge_name(a.name, b.name), guard: g, target: ConstraintTarget::Phase(pa) })
            } else {
                None
            }
        },
        _ => None,
    }
}

/// The rules with positions `i < j` replaced by `m` at position `i`.
pub open spec fn merged_candidate(all: Seq<RuleView>, i: int, j: int, m: RuleView) -> Seq<RuleView> {
    all.take(i).push(m) + all.subrange(i + 1, j) + all.subrange(j + 1, all.len() as int)
}

/// Rules `i < j` merge, and the candidate is accepted.
pub open spec fn merge_ok(all: Seq<RuleView>, shannon_ok: spec_fn(Seq<usize>) -> bool, i: int, j: int) -> bool {
    &&& 0 <= i < j < all.len()
    &&& merge_of(all[i], all[j]) is Some
    &&& accepts(merged_candidate(all, i, j, merge_of(all[i], all[j]).unwrap()), shannon_ok)
}

/// Pair `p` comes before pair `q` in the order the search tries them.
pub open spec fn pair_before(p: (int, int), q: (int, int)) -> bool {
    p.0 < q.0 || (p.0 == q.0 && p.1 < q.1)
}

/// `p` is the first pair, in search order, whose merge is accepted.
pub open spec fn first_merge(all: Seq<RuleView>, shannon_ok: spec_fn(Seq<usize>) -> bool, p: (int, int)) -> bool {
    &&& merge_ok(all, shannon_ok, p.0, p.1)
    &&& forall|q: (int, int)| #[trigger] pair_before(q, p) ==> !merge_ok(all, shannon_ok, q.0, q.1)
}

/// One pass: remove every Redundant rule if that is accepted; otherwise
/// make the first accepted merge; otherwise change nothing.
pub open spec fn pass_outcome(all: Seq<RuleView>, shannon_ok: spec_fn(Seq<usize>) -> bool) -> (Seq<RuleView>, Seq<OpView>) {
    let red = redundant_positions(all);
    if red.len() > 0 && accepts(kept_rules(all), shannon_ok) {
        (kept_rules(all), red.map_values(|i: int| OpView::Remove(all[i].name)))
    } else if exists|p: (int, int)| first_merge(all, shannon_ok, p) {
        let p = choose|p: (int, int)| first_merge(all, shannon_ok, p);
        let m = merge_of(all[p.0], all[p.1]).unwrap();
        (merged_candidate(all, p.0, p.1, m), seq![OpView::Merge(all[p.0].name, all[p.1].name, m.name)])
    } else {
        (all, Seq::empty())
    }
}

/// At most `k` passes, stopping after the first that changes nothing:
/// the rules, the operations, the passes made, and whether it stopped.
pub open spec fn run_passes(all: Seq<RuleView>, shannon_ok: spec_fn(Seq<usize>) -> bool, k: nat) -> (Seq<RuleView>, Seq<OpView>, nat, bool)
    decreases k,
{
    if k == 0 {
        (all, Seq::empty(), 0, false)
    } else {
        let (next, ops) = pass_outcome(all, shannon_ok);
        if ops.len() == 0 {
            (next, ops, 1, true)
        } else {
            let rest = run_passes(next, shannon_ok, (k - 1) as nat);
            (rest.0, ops + rest.1, rest.2 + 1, rest.3)
        }
    }
}

/// A run that did not stop made all the passes it was given.
proof fn lemma_unconverged_uses_all_passes(all: Seq<RuleView>, g: spec_fn(Seq<usize>) -> bool, k: nat)
    ensures
        !run_passes(all, g, k).3 ==> run_passes(all, g, k).2 == k,
    decreases k,
{
    if k > 0 {
        let (next, ops) = pass_outcome(all, g);
        if ops.len() > 0 {
            lemma_unconverged_uses_all_passes(next, g, (k - 1) as nat);
        }
    }
}

/// A pass that changes the rules yields a rule set that keeps the hard
/// invariants and the entropy floor.
pub proof fn lemma_pass_accepted(all: Seq<RuleView>, g: spec_fn(Seq<usize>) -> bool)
    ensures
        pass_outcome(all, g).1.len() > 0 ==> accepts(pass_outcome(all, g).0, g),
{
    let red = redundant_positions(all);
    if !(red.len() > 0 && accepts(kept_rules(all), g)) {
        if exists|p: (int, int)| first_merge(all, g, p) {
            let p = choose|p: (int, int)| first_merge(all, g, p);
            assert(merge_ok(all, g, p.0, p.1));
        }
    }
}

/// Simplification keeps the hard invariants: a rule set that is kernel
/// aligned, has an acyclic pipeline and no conflicts still has them after
/// any number of passes.
pub proof fn lemma_simplification_keeps_hard_invariants(all: Seq<RuleView>, g: spec_fn(Seq<usize>) -> bool, k: nat)
    requires
        hard_invariants_hold(all),
    ensures
        hard_invariants_hold(run_passes(all, g, k).0),
    decreases k,
{
    if k > 0 {
        lemma_pass_accepted(all, g);
        let (next, ops) = pass_outcome(all, g);
        if ops.len() > 0 {
            lemma_simplification_keeps_hard_invariants(next, g, (k - 1) as nat);
        } else {
            assert(pass_outcome(all, g).0 == all);
        }
    }
}

/// The first accepted merge is unique.
proof fn lemma_first_merge_unique(all: Seq<RuleView>, g: spec_fn(Seq<usize>) -> bool, p: (int, int), q: (int, int))
    requires
        first_merge(all, g, p),
        first_merge(all, g, q),
    ensures
        p == q,
{
    if p != q {
        if pair_before(p, q) {
            assert(!merge_ok(all, g, p.0, p.1));
        } else {
            assert(pair_before(q, p));
            assert(!merge_ok(all, g, q.0, q.1));
        }
    }
}


// ─── Executable steps ────────────────────────────────────────────────────────

/// `String::leak`: the string's text, kept for the rest of the run, as a
/// `&'static str` with the same characters.
#[verifier::external_body]
fn leak_name(s: String) -> (r: &'static str)
    ensures
        r@ == s@,
{
    s.leak()
}

/// Does the candidate keep the hard invariants and the entropy floor?
fn accepts_candidate<F: Fn(&Vec<usize>) -> bool>(rs: &RuleSet, shannon_ok: &F) -> (r: bool)
    requires
        forall|v: &Vec<usize>| #[trigger] call_requires(*shannon_ok, (v,)),
    ensures
        forall|g: spec_fn(Seq<usize>) -> bool| decides(*shannon_ok, g) ==> r == accepts(rs@, g),
{
    check_kernel_alignment(rs).passed() && check_pipeline_acyclic(rs).passed() && check_no_conflicts(rs).passed()
        && development_floor(rs, shannon_ok)
}

/// The merge of two rules, with its audit record, if they merge.
fn try_merge(a: &ConstraintRule, b: &ConstraintRule) -> (r: Option<(ConstraintRule, SimplificationOp)>)
    ensures
        match merge_of(a@, b@) {
            None => r is None,
            Some(m) => r matches Some(x) && x.0@ == m && x.1@ == OpView::Merge(a@.name, b@.name, m.name),
        },
{
    let target = match a.target {
        ConstraintTarget::Phase(pa) => match b.target {
            ConstraintTarget::Phase(pb) => {
                if pa != pb {
                    return None;
                }
                pa
            },
            _ => {
                return None;
            },
        },
        _ => {
            return None;
        },
    };
    let ga = a.guard.clone();
    let gb = b.guard.clone();
    assert(ga@ == a@.guard && gb@ == b@.guard);
    let union = ga.or(gb);
    assert(union@ == ExprView::Or(Box::new(a@.guard), Box::new(b@.guard)));
    assert(a@.target == ConstraintTarget::Phase(target) && b@.target == ConstraintTarget::Phase(target));
    let mut c: usize = 0;
    while c < crate::kernel_state::NUM_CELLS
        invariant
            c <= crate::kernel_state::NUM_CELLS,
            union@ == ExprView::Or(Box::new(a@.guard), Box::new(b@.guard)),
            a@.target == ConstraintTarget::Phase(target) && b@.target == ConstraintTarget::Phase(target),
            forall|k: int| 0 <= k < c ==> #[trigger] union@.eval(crate::cells::cell_at(k).0, crate::cells::cell_at(k).1)
                ==> spec_kernel_delta(crate::cells::cell_at(k).0, crate::cells::cell_at(k).1) == target,
        decreases crate::kernel_state::NUM_CELLS - c,
    {
        let (p, i) = crate::cells::cell(c);
        if union.eval(p, i) && kernel_delta(p, i) != target {
            proof {
                assert(!guard_agrees(union@, target));
            }
            return None;
        }
        c = c + 1;
    }
    proof {
        assert forall|p: KernelPhase, i: KernelInputKind| #[trigger] union@.eval(p, i) implies spec_kernel_delta(p, i) == target by {
            crate::cells::lemma_cell_index(p, i);
            let k = crate::cells::cell_index(p, i);
            assert(union@.eval(crate::cells::cell_at(k).0, crate::cells::cell_at(k).1));
        }
    }
    let mut text = String::from_str("merge:");
    text.append(a.name);
    text.append("+");
    text.append(b.name);
    proof {
        reveal_strlit("merge:");
        reveal_strlit("+");
    }
    let name = leak_name(text);
    let op = SimplificationOp::Merge { rule_a: String::from_str(a.name), rule_b: String::from_str(b.name), result_name: String::from_str(name) };
    Some((ConstraintRule::new(name, union, ConstraintTarget::Phase(target)), op))
}

/// `rules` with positions `i < j` replaced by `m` at position `i`.
fn build_merged(rules: &Vec<ConstraintRule>, i: usize, j: usize, m: ConstraintRule) -> (r: Vec<ConstraintRule>)
    requires
        i < j < rules@.len(),
    ensures
        views(r@) == merged_candidate(views(rules@), i as int, j as int, m@),
{
    let ghost all = views(rules@);
    let mut out: Vec<ConstraintRule> = Vec::new();
    let mut k: usize = 0;
    while k < i
        invariant
            k <= i < j < rules@.len(),
            all == views(rules@),
            views(out@) == all.take(k as int),
        decreases i - k,
    {
        let c = rules[k].clone();
        assert(c@ == all[k as int]);
        let ghost before = views(out@);
        out.push(c);
        proof {
            assert(views(out@) =~= before.push(c@));
            assert(all.take(k + 1) =~= all.take(k as int).push(all[k as int]));
        }
        k = k + 1;
    }
    out.push(m);
    let ghost head = views(out@);
    proof {
        assert(head =~= all.take(i as int).push(m@));
    }
    k = i + 1;
    while k < rules.len()
        invariant
            i < j < rules@.len(),
            i + 1 <= k <= rules@.len(),
            all == views(rules@),
            head == all.take(i as int).push(m@),
            views(out@) == head + all.subrange(i + 1, if k <= j { k as int } else { j as int })
                + all.subrange(j + 1, if k <= j + 1 { j + 1 } else { k as int }),
        decreases rules@.len() - k,
    {
        if k != j {
            let ghost before = views(out@);
            let c = rules[k].clone();
            assert(c@ == all[k as int]);
            out.push(c);
            proof {
                assert(views(out@) =~= before.push(c@));
                if k < j {
                    assert(views(out@) =~= head + all.subrange(i + 1, k + 1) + all.subrange(j + 1, j + 1));
                } else {
                    assert(views(out@) =~= head + all.subrange(i + 1, j as int) + all.subrange(j + 1, k + 1));
                }
            }
        } else {
            proof {
                assert(views(out@) =~= head + all.subrange(i + 1, j as int) + all.subrange(j + 1, j + 1));
            }
        }
        k = k + 1;
    }
    out
}


// ─── RuleSimplifier ──────────────────────────────────────────────────────────

/// Simplifies a rule set to a fixed point, removing and merging rules while
/// the hard invariants and the development entropy floor hold.
pub struct RuleSimplifier {
    pub max_iterations: usize,
    /// Traces for weighting; the necessity classes that decide removals do
    /// not depend on them.
    pub traces_for_weight: Vec<ExecutionTrace>,
}

impl RuleSimplifier {
    /// At most ten passes, no traces.
    pub fn new() -> (r: Self)
        ensures
            r.max_iterations == 10,
            r.traces_for_weight@.len() == 0,
    {
        RuleSimplifier { max_iterations: 10, traces_for_weight: Vec::new() }
    }

    pub fn with_traces(self, traces: Vec<ExecutionTrace>) -> (r: Self)
        ensures
            r.max_iterations == self.max_iterations,
            r.traces_for_weight == traces,
    {
        RuleSimplifier { max_iterations: self.max_iterations, traces_for_weight: traces }
    }

    /// One pass: remove every Redundant rule if the result is accepted;
    /// otherwise make the first accepted merge, trying pairs `i < j` in order;
    /// otherwise change nothing.
    fn simplify_one_pass<F: Fn(&Vec<usize>) -> bool>(&self, rules: Vec<ConstraintRule>, shannon_ok: &F) -> (r: (
        Vec<ConstraintRule>,
        Vec<SimplificationOp>,
    ))
        requires
            forall|v: &Vec<usize>| #[trigger] call_requires(*shannon_ok, (v,)),
        ensures
            forall|g: spec_fn(Seq<usize>) -> bool| #[trigger] decides(*shannon_ok, g) ==> (views(r.0@), ops_view(r.1@))
                == pass_outcome(views(rules@), g),
    {
        let ghost all = views(rules@);
        let ghost red_pred = |i: int| redundant_in(all, i);
        let ghost keep_pred = |i: int| !redundant_in(all, i);
        let ghost name_of = |i: int| OpView::Remove(all[i].name);
        let ghost rule_of = |i: int| all[i];
        let n = rules.len();
        let layer = SemanticWeightLayer::new();
        let mut kept: Vec<ConstraintRule> = Vec::new();
        let mut removals: Vec<SimplificationOp> = Vec::new();
        let mut i: usize = 0;
        while i < n
            invariant
                i <= n,
                n == rules@.len(),
                all == views(rules@),
                all.len() == n,
                red_pred == (|i: int| redundant_in(all, i)),
                keep_pred == (|i: int| !redundant_in(all, i)),
                name_of == (|i: int| OpView::Remove(all[i].name)),
                rule_of == (|i: int| all[i]),
                ops_view(removals@) == positions(n as nat).take(i as int).filter(red_pred).map_values(name_of),
                views(kept@) == positions(n as nat).take(i as int).filter(keep_pred).map_values(rule_of),
            decreases n - i,
        {
            proof {
                lemma_filter_take_succ(positions(n as nat), i as int, red_pred);
                lemma_filter_take_succ(positions(n as nat), i as int, keep_pred);
                assert(positions(n as nat)[i as int] == i as int);
                assert(rules@[i as int]@ == all[i as int]);
            }
            let np = layer.necessity_proof(&rules[i], i, rules.as_slice());
            if np.is_redundant() {
                let ghost before = ops_view(removals@);
                removals.push(SimplificationOp::Remove { rule_name: String::from_str(rules[i].name) });
                proof {
                    assert(ops_view(removals@) =~= before.push(name_of(i as int)));
                }
            } else {
                let ghost before = views(kept@);
                let c = rules[i].clone();
                kept.push(c);
                proof {
                    assert(views(kept@) =~= before.push(rule_of(i as int)));
                }
            }
            i = i + 1;
        }
        proof {
            assert(positions(n as nat).take(n as int) =~= positions(n as nat));
            assert(red_pred =~= (|i: int| redundant_in(all, i)));
        }
        if removals.len() > 0 {
            let candidate = RuleSet::new(kept);
            if accepts_candidate(&candidate, shannon_ok) {
                return (candidate.rules, removals);
            }
        }
        // No accepted removal: look for the first accepted merge.
        let last: usize = if n == 0 { 0 } else { n - 1 };
        let mut i: usize = 0;
        while i < last
            invariant
                i <= last,
                last == if n == 0 { 0 } else { n - 1 },
                n == rules@.len(),
                all == views(rules@),
                all.len() == n,
                forall|g: spec_fn(Seq<usize>) -> bool| #[trigger] decides(*shannon_ok, g) ==> !(redundant_positions(all).len() > 0
                    && accepts(kept_rules(all), g)),
                forall|v: &Vec<usize>| #[trigger] call_requires(*shannon_ok, (v,)),
                forall|g: spec_fn(Seq<usize>) -> bool, q: (int, int)|
                    #![trigger decides(*shannon_ok, g), merge_ok(all, g, q.0, q.1)]
                    decides(*shannon_ok, g) && q.0 < i ==> !merge_ok(all, g, q.0, q.1),
            decreases n - i,
        {
            let mut j: usize = i + 1;
            while j < n
                invariant
                    i + 1 <= j <= n,
                    n == rules@.len(),
                    all == views(rules@),
                    all.len() == n,
                    forall|g: spec_fn(Seq<usize>) -> bool| #[trigger] decides(*shannon_ok, g) ==> !(redundant_positions(all).len() > 0
                        && accepts(kept_rules(all), g)),
                    forall|v: &Vec<usize>| #[trigger] call_requires(*shannon_ok, (v,)),
                    forall|g: spec_fn(Seq<usize>) -> bool, q: (int, int)|
                        #![trigger decides(*shannon_ok, g), merge_ok(all, g, q.0, q.1)]
                        decides(*shannon_ok, g) && (q.0 < i || (q.0 == i && q.1 < j)) ==> !merge_ok(all, g, q.0, q.1),
                decreases n - j,
            {
                proof {
                    assert(rules@[i as int]@ == all[i as int]);
                    assert(rules@[j as int]@ == all[j as int]);
                }
                match try_merge(&rules[i], &rules[j]) {
                    Some((merged, op)) => {
                        let ghost m = merged@;
                        let candidate = RuleSet::new(build_merged(&rules, i, j, merged));
                        if accepts_candidate(&candidate, shannon_ok) {
                            let mut ops: Vec<SimplificationOp> = Vec::new();
                            ops.push(op);
                            proof {
                                assert forall|g: spec_fn(Seq<usize>) -> bool| #[trigger] decides(*shannon_ok, g) implies (
                                    views(candidate.rules@),
                                    ops_view(ops@),
                                ) == pass_outcome(all, g) by {
                                    assert(merge_ok(all, g, i as int, j as int));
                                    assert forall|q: (int, int)| #[trigger] pair_before(q, (i as int, j as int)) implies !merge_ok(
                                        all,
                                        g,
                                        q.0,
                                        q.1,
                                    ) by {
                                        assert(decides(*shannon_ok, g));
                                    }
                                    assert(first_merge(all, g, (i as int, j as int)));
                                    let p = choose|p: (int, int)| first_merge(all, g, p);
                                    lemma_first_merge_unique(all, g, p, (i as int, j as int));
                                    assert(ops_view(ops@) =~= seq![OpView::Merge(all[i as int].name, all[j as int].name, m.name)]);
                                }
                            }
                            return (candidate.rules, ops);
                        }
                    },
                    None => {},
                }
                j = j + 1;
            }
            i = i + 1;
        }
        proof {
            assert forall|g: spec_fn(Seq<usize>) -> bool| #[trigger] decides(*shannon_ok, g) implies (
                views(rules@),
                ops_view(Seq::<SimplificationOp>::empty()),
            ) == pass_outcome(all, g) by {
                assert forall|p: (int, int)| !first_merge(all, g, p) by {
                    if first_merge(all, g, p) {
                        assert(decides(*shannon_ok, g));
                        assert(!merge_ok(all, g, p.0, p.1));
                    }
                }
                assert(ops_view(Seq::<SimplificationOp>::empty()) =~= Seq::<OpView>::empty());
            }
        }
        (rules, Vec::new())
    }
}


/// The rules, operations, pass count and convergence flag a run reports.
pub open spec fn run_matches(r: SimplificationResult, out: (Seq<RuleView>, Seq<OpView>, nat, bool)) -> bool {
    &&& r.rule_set@ == out.0
    &&& ops_view(r.ops@) == out.1
    &&& r.iterations == out.2
    &&& r.converged == out.3
}

impl RuleSimplifier {
    /// Run passes until one changes nothing, at most `max_iterations` of
    /// them. `shannon_ok` decides the entropy floor's Shannon condition on a
    /// candidate's coverages.
    pub fn simplify<F: Fn(&Vec<usize>) -> bool>(&self, rule_set: RuleSet, shannon_ok: &F) -> (r: SimplificationResult)
        requires
            forall|v: &Vec<usize>| #[trigger] call_requires(*shannon_ok, (v,)),
        ensures
            r.before_rule_count == rule_set@.len(),
            r.after_rule_count == r.rule_set@.len(),
            forall|g: spec_fn(Seq<usize>) -> bool| #[trigger] decides(*shannon_ok, g) ==> run_matches(
                r,
                run_passes(rule_set@, g, self.max_iterations as nat),
            ),
    {
        let ghost start = rule_set@;
        let before_count = rule_set.rule_count();
        let mut rules = rule_set.rules;
        let mut all_ops: Vec<SimplificationOp> = Vec::new();
        let mut iteration: usize = 0;
        proof {
            assert forall|g: spec_fn(Seq<usize>) -> bool| #[trigger] decides(*shannon_ok, g) implies {
                let rest = run_passes(start, g, self.max_iterations as nat);
                &&& !rest.3 ==> rest.2 == self.max_iterations
                &&& rest.1 == ops_view(all_ops@) + rest.1
            } by {
                lemma_unconverged_uses_all_passes(start, g, self.max_iterations as nat);
                assert(ops_view(all_ops@) =~= Seq::<OpView>::empty());
                assert(run_passes(start, g, self.max_iterations as nat).1 =~= ops_view(all_ops@) + run_passes(start, g, self.max_iterations as nat).1);
            }
        }
        while iteration < self.max_iterations
            invariant
                iteration <= self.max_iterations,
                before_count == start.len(),
                start == rule_set@,
                forall|v: &Vec<usize>| #[trigger] call_requires(*shannon_ok, (v,)),
                forall|g: spec_fn(Seq<usize>) -> bool| #[trigger] decides(*shannon_ok, g) ==> {
                    let whole = run_passes(start, g, self.max_iterations as nat);
                    let rest = run_passes(views(rules@), g, (self.max_iterations - iteration) as nat);
                    &&& !rest.3 ==> rest.2 == self.max_iterations - iteration
                    &&& whole == (rest.0, ops_view(all_ops@) + rest.1, (rest.2 + iteration) as nat, rest.3)
                },
            decreases self.max_iterations - iteration,
        {
            let ghost old_rules = views(rules@);
            let ghost old_ops = ops_view(all_ops@);
            let (new_rules, ops) = self.simplify_one_pass(rules, shannon_ok);
            rules = new_rules;
            let improved = ops.len() > 0;
            let mut k: usize = 0;
            while k < ops.len()
                invariant
                    k <= ops@.len(),
                    ops_view(all_ops@) == old_ops + ops_view(ops@).take(k as int),
                decreases ops@.len() - k,
            {
                let ghost before = ops_view(all_ops@);
                all_ops.push(ops[k].clone_op());
                proof {
                    assert(ops_view(all_ops@) =~= before.push(ops@[k as int]@));
                    assert(ops_view(ops@).take(k + 1) =~= ops_view(ops@).take(k as int).push(ops@[k as int]@));
                }
                k = k + 1;
            }
            proof {
                assert(ops_view(ops@).take(ops@.len() as int) =~= ops_view(ops@));
                assert forall|g: spec_fn(Seq<usize>) -> bool| #[trigger] decides(*shannon_ok, g) implies {
                    let k0 = (self.max_iterations - iteration) as nat;
                    run_passes(old_rules, g, k0) == if !improved {
                        (views(rules@), ops_view(ops@), 1nat, true)
                    } else {
                        let rest = run_passes(views(rules@), g, (k0 - 1) as nat);
                        (rest.0, ops_view(ops@) + rest.1, (rest.2 + 1) as nat, rest.3)
                    }
                } by {
                    assert(ops_view(ops@).len() == ops@.len());
                }
            }
            if !improved {
                let after = rules.len();
                proof {
                    assert forall|g: spec_fn(Seq<usize>) -> bool| #[trigger] decides(*shannon_ok, g) implies run_passes(
                        start,
                        g,
                        self.max_iterations as nat,
                    ) == (views(rules@), ops_view(all_ops@), (iteration + 1) as nat, true) by {
                        assert(ops_view(ops@) =~= Seq::<OpView>::empty());
                        assert(ops_view(all_ops@) =~= old_ops + ops_view(ops@));
                    }
                }
                return SimplificationResult {
                    rule_set: RuleSet::new(rules),
                    ops: all_ops,
                    before_rule_count: before_count,
                    after_rule_count: after,
                    iterations: iteration + 1,
                    converged: true,
                };
            }
            proof {
                assert forall|g: spec_fn(Seq<usize>) -> bool| #[trigger] decides(*shannon_ok, g) implies {
                    let whole = run_passes(start, g, self.max_iterations as nat);
                    let rest = run_passes(views(rules@), g, (self.max_iterations - (iteration + 1)) as nat);
                    &&& !rest.3 ==> rest.2 == self.max_iterations - (iteration + 1)
                    &&& whole == (rest.0, ops_view(all_ops@) + rest.1, (rest.2 + iteration + 1) as nat, rest.3)
                } by {
                    let k0 = (self.max_iterations - iteration) as nat;
                    let rest = run_passes(views(rules@), g, (k0 - 1) as nat);
                    assert(old_ops + (ops_view(ops@) + rest.1) =~= ops_view(all_ops@) + rest.1);
                }
            }
            iteration = iteration + 1;
        }
        let after = rules.len();
        proof {
            assert forall|g: spec_fn(Seq<usize>) -> bool| #[trigger] decides(*shannon_ok, g) implies run_passes(
                start,
                g,
                self.max_iterations as nat,
            ) == (views(rules@), ops_view(all_ops@), self.max_iterations as nat, false) by {
                assert(ops_view(all_ops@) + Seq::<OpView>::empty() =~= ops_view(all_ops@));
            }
        }
        SimplificationResult {
            rule_set: RuleSet::new(rules),
            ops: all_ops,
            before_rule_count: before_count,
            after_rule_count: after,
            iterations: self.max_iterations,
            converged: false,
        }
    }
}

impl SimplificationOp {
    /// A copy with the same view.
    pub fn clone_op(&self) -> (r: Self)
        ensures
            r@ == self@,
    {
        match self {
            SimplificationOp::Remove { rule_name } => SimplificationOp::Remove { rule_name: rule_name.clone() },
            SimplificationOp::Merge { rule_a, rule_b, result_name } => SimplificationOp::Merge {
                rule_a: rule_a.clone(),
                rule_b: rule_b.clone(),
                result_name: result_name.clone(),
            },
            SimplificationOp::Generalize { from_rules, to_rule_name, cells_unified } => {
                let mut names: Vec<String> = Vec::new();
                let mut k: usize = 0;
                while k < from_rules.len()
                    invariant
                        k <= from_rules@.len(),
                        names@.map_values(|s: String| s@) == from_rules@.take(k as int).map_values(|s: String| s@),
                    decreases from_rules@.len() - k,
                {
                    let ghost before = names@.map_values(|s: String| s@);
                    names.push(from_rules[k].clone());
                    proof {
                        assert(names@.map_values(|s: String| s@) =~= before.push(from_rules@[k as int]@));
                        assert(from_rules@.take(k + 1).map_values(|s: String| s@) =~= from_rules@.take(k as int).map_values(
                            |s: String| s@,
                        ).push(from_rules@[k as int]@));
                    }
                    k = k + 1;
                }
                assert(from_rules@.take(from_rules@.len() as int) =~= from_rules@);
                SimplificationOp::Generalize { from_rules: names, to_rule_name: to_rule_name.clone(), cells_unified: *cells_unified }
            },
        }
    }
}

/// Run the canonical rule set through a default simplifier, to confirm
/// that the canonical rules are already minimal.
pub fn verify_canonical_is_minimal<F: Fn(&Vec<usize>) -> bool>(shannon_ok: &F) -> (r: SimplificationResult)
    requires
        forall|v: &Vec<usize>| #[trigger] call_requires(*shannon_ok, (v,)),
    ensures
        r.before_rule_count == crate::constraint_algebra::canonical_rules_view().len(),
        forall|g: spec_fn(Seq<usize>) -> bool| #[trigger] decides(*shannon_ok, g) ==> run_matches(
            r,
            run_passes(crate::constraint_algebra::canonical_rules_view(), g, 10),
        ),
{
    RuleSimplifier::new().simplify(canonical_constraint_rules(), shannon_ok)
}

} // verus!
