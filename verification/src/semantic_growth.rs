//! Semantic headroom: the cells of Q × Σ that no rule claims and the
//! transition table does not define, which remain free for future
//! behaviour, counted overall, by phase and by input; and the growth vector
//! that says what kinds of new rules still fit. The fractions and the
//! growth invariant's thresholds are floating-point and are computed by the
//! caller from these counts.

use vstd::prelude::*;
use crate::cells::{all_cells, cell, lemma_filter_take_succ, Cell};
use crate::constraint_algebra::{first_match, RuleSet, RuleView};
use crate::counterfactual::{cell_in_table, in_table};
use crate::kernel_state::{
    input_at, input_index, lemma_index_bijection, phase_at, phase_index, KernelInputKind, KernelPhase, NUM_CELLS, NUM_INPUTS,
    NUM_PHASES, TABLE_LEN,
};

verus! {

/// Below this many free cells a specification is packed.
pub const DEFAULT_MIN_FREE_CELLS: usize = 100;

// ─── Cells ───────────────────────────────────────────────────────────────────

/// Some rule's guard holds on the cell.
pub open spec fn is_claimed(rs: Seq<RuleView>, c: Cell) -> bool {
    first_match(rs, c.0, c.1) is Some
}

/// Claimed by some rule.
pub open spec fn claimed_pred(rs: Seq<RuleView>) -> spec_fn(Cell) -> bool {
    |c: Cell| is_claimed(rs, c)
}

/// Free: claimed by no rule and not in the table.
pub open spec fn free_pred(rs: Seq<RuleView>) -> spec_fn(Cell) -> bool {
    |c: Cell| !is_claimed(rs, c) && !in_table(c)
}

/// Unresolved: in the table but claimed by no rule.
pub open spec fn unresolved_pred(rs: Seq<RuleView>) -> spec_fn(Cell) -> bool {
    |c: Cell| !is_claimed(rs, c) && in_table(c)
}

/// Free and in phase `p`.
pub open spec fn free_in_phase_pred(rs: Seq<RuleView>, p: KernelPhase) -> spec_fn(Cell) -> bool {
    |c: Cell| free_pred(rs)(c) && c.0 == p
}

/// Free and on input `i`.
pub open spec fn free_on_input_pred(rs: Seq<RuleView>, i: KernelInputKind) -> spec_fn(Cell) -> bool {
    |c: Cell| free_pred(rs)(c) && c.1 == i
}

/// How many free cells phase `p` has.
pub open spec fn free_in_phase(rs: Seq<RuleView>, p: KernelPhase) -> nat {
    all_cells().filter(free_in_phase_pred(rs, p)).len()
}

/// How many free cells input `i` has.
pub open spec fn free_on_input(rs: Seq<RuleView>, i: KernelInputKind) -> nat {
    all_cells().filter(free_on_input_pred(rs, i)).len()
}

/// The phases with free cells, in phase order, with their counts.
pub open spec fn phase_counts(rs: Seq<RuleView>) -> Seq<(KernelPhase, usize)> {
    Seq::new(NUM_PHASES as nat, |k: int| (phase_at(k), free_in_phase(rs, phase_at(k)) as usize)).filter(
        |e: (KernelPhase, usize)| e.1 > 0,
    )
}

/// The inputs with free cells, in input order, with their counts.
pub open spec fn input_counts(rs: Seq<RuleView>) -> Seq<(KernelInputKind, usize)> {
    Seq::new(NUM_INPUTS as nat, |k: int| (input_at(k), free_on_input(rs, input_at(k)) as usize)).filter(
        |e: (KernelInputKind, usize)| e.1 > 0,
    )
}

// ─── SemanticHeadroom ────────────────────────────────────────────────────────

/// The semantic headroom of a rule set.
#[derive(Debug, Clone)]
pub struct SemanticHeadroom {
    /// |Q × Σ|.
    pub total_cells: usize,
    /// Cells some rule's guard claims.
    pub claimed_cells: usize,
    /// Entries of the transition table.
    pub table_cells: usize,
    /// Table cells no rule claims (left to the default).
    pub unresolved_table_cells: usize,
    /// Cells neither claimed nor in the table: the growth space.
    pub free_cells: usize,
    /// Free cells by phase, for the phases that have some, in phase order.
    pub free_by_phase: Vec<(KernelPhase, usize)>,
    /// Free cells by input, for the inputs that have some, in input order.
    pub free_by_input: Vec<(KernelInputKind, usize)>,
}

/// The position of the last largest count, if any (ties go to the later one).
pub open spec fn last_max<K>(s: Seq<(K, usize)>) -> Option<int>
    decreases s.len(),
{
    if s.len() == 0 {
        None
    } else {
        match last_max(s.drop_last()) {
            None => Some(s.len() - 1),
            Some(j) => if s.last().1 >= s[j].1 {
                Some(s.len() - 1)
            } else {
                Some(j)
            },
        }
    }
}

/// How many entries have a count of at least `n`.
pub open spec fn count_at_least<K>(s: Seq<(K, usize)>, n: usize) -> nat {
    s.filter(|e: (K, usize)| e.1 >= n).len()
}

/// `last_max` stays within the sequence.
proof fn lemma_last_max_in_range<K>(s: Seq<(K, usize)>)
    ensures
        match last_max(s) {
            Some(j) => 0 <= j < s.len(),
            None => s.len() == 0,
        },
    decreases s.len(),
{
    if s.len() > 0 {
        lemma_last_max_in_range(s.drop_last());
    }
}

/// The key of the last entry with the largest count.
fn last_max_key<K: Copy>(v: &Vec<(K, usize)>) -> (r: Option<K>)
    ensures
        match last_max(v@) {
            Some(j) => r == Some(v@[j].0),
            None => r is None,
        },
{
    let mut best: Option<usize> = None;
    let mut k: usize = 0;
    while k < v.len()
        invariant
            k <= v@.len(),
            match best {
                Some(b) => last_max(v@.take(k as int)) == Some(b as int) && b < k,
                None => last_max(v@.take(k as int)) is None && k == 0,
            },
        decreases v@.len() - k,
    {
        proof {
            assert(v@.take(k + 1).drop_last() =~= v@.take(k as int));
        }
        best = match best {
            None => Some(k),
            Some(b) => if v[k].1 >= v[b].1 {
                Some(k)
            } else {
                Some(b)
            },
        };
        k = k + 1;
    }
    proof {
        assert(v@.take(v@.len() as int) =~= v@);
    }
    match best {
        Some(b) => Some(v[b].0),
        None => None,
    }
}

/// How many entries have a count of at least `n`.
fn count_entries_at_least<K>(v: &Vec<(K, usize)>, n: usize) -> (r: usize)
    ensures
        r == count_at_least(v@, n),
        r <= v@.len(),
{
    let ghost pred = |e: (K, usize)| e.1 >= n;
    let mut count: usize = 0;
    let mut k: usize = 0;
    while k < v.len()
        invariant
            k <= v@.len(),
            pred == (|e: (K, usize)| e.1 >= n),
            count == v@.take(k as int).filter(pred).len(),
            count <= k,
        decreases v@.len() - k,
    {
        proof {
            lemma_filter_take_succ(v@, k as int, pred);
        }
        if v[k].1 >= n {
            count = count + 1;
        }
        k = k + 1;
    }
    proof {
        assert(v@.take(v@.len() as int) =~= v@);
    }
    count
}

impl SemanticHeadroom {
    /// The phase with the most free cells (the last of those tied).
    pub fn most_open_phase(&self) -> (r: Option<KernelPhase>)
        ensures
            match last_max(self.free_by_phase@) {
                Some(j) => r == Some(self.free_by_phase@[j].0),
                None => r is None,
            },
    {
        last_max_key(&self.free_by_phase)
    }

    /// The input with the most free cells (the last of those tied).
    pub fn most_open_input(&self) -> (r: Option<KernelInputKind>)
        ensures
            match last_max(self.free_by_input@) {
                Some(j) => r == Some(self.free_by_input@[j].0),
                None => r is None,
            },
    {
        last_max_key(&self.free_by_input)
    }

    /// How many phases have at least one free cell.
    pub fn phases_with_headroom(&self) -> (r: usize)
        ensures
            r == count_at_least(self.free_by_phase@, 1),
    {
        count_entries_at_least(&self.free_by_phase, 1)
    }
}

// ─── GrowthVector ────────────────────────────────────────────────────────────

/// What kinds of new rules could still be added.
#[derive(Debug, Clone)]
pub struct GrowthVector {
    /// Upper bound on new exact-pair rules.
    pub max_new_exact_rules: usize,
    /// Phases with room for a structural rule (two or more free cells).
    pub structural_growth_phases: usize,
    /// Inputs with room for a structural rule (two or more free cells).
    pub structural_growth_inputs: usize,
    /// A rough upper bound on new rules.
    pub total_growth_capacity: usize,
    /// Fewer free cells than the default minimum.
    pub is_packed: bool,
    pub most_open_phase: Option<KernelPhase>,
    pub most_open_input: Option<KernelInputKind>,
}

impl GrowthVector {
    /// The growth vector of a headroom: a structural rule needs at least two
    /// cells to generalize over.
    fn from_headroom(h: &SemanticHeadroom) -> (r: Self)
        requires
            h.free_cells + h.free_by_phase@.len() + h.free_by_input@.len() <= usize::MAX,
        ensures
            r.max_new_exact_rules == h.free_cells,
            r.structural_growth_phases == count_at_least(h.free_by_phase@, 2),
            r.structural_growth_inputs == count_at_least(h.free_by_input@, 2),
            r.total_growth_capacity == h.free_cells + if r.structural_growth_phases >= r.structural_growth_inputs {
                r.structural_growth_phases
            } else {
                r.structural_growth_inputs
            },
            r.is_packed == (h.free_cells < DEFAULT_MIN_FREE_CELLS),
            match last_max(h.free_by_phase@) {
                Some(j) => r.most_open_phase == Some(h.free_by_phase@[j].0),
                None => r.most_open_phase is None,
            },
            match last_max(h.free_by_input@) {
                Some(j) => r.most_open_input == Some(h.free_by_input@[j].0),
                None => r.most_open_input is None,
            },
    {
        let phases = count_entries_at_least(&h.free_by_phase, 2);
        let inputs = count_entries_at_least(&h.free_by_input, 2);
        let capacity = if phases >= inputs {
            phases
        } else {
            inputs
        };
        GrowthVector {
            max_new_exact_rules: h.free_cells,
            structural_growth_phases: phases,
            structural_growth_inputs: inputs,
            total_growth_capacity: h.free_cells + capacity,
            is_packed: h.free_cells < DEFAULT_MIN_FREE_CELLS,
            most_open_phase: h.most_open_phase(),
            most_open_input: h.most_open_input(),
        }
    }
}

// ─── SemanticGrowthAnalyzer ──────────────────────────────────────────────────

/// Computes the headroom and growth vector of rule sets.
pub struct SemanticGrowthAnalyzer;

/// The headroom the analyzer computes for a rule set.
pub open spec fn headroom_of(rs: Seq<RuleView>, h: SemanticHeadroom) -> bool {
    &&& h.total_cells == NUM_CELLS
    &&& h.table_cells == TABLE_LEN
    &&& h.claimed_cells == all_cells().filter(claimed_pred(rs)).len()
    &&& h.free_cells == all_cells().filter(free_pred(rs)).len()
    &&& h.unresolved_table_cells == all_cells().filter(unresolved_pred(rs)).len()
    &&& h.free_by_phase@ == phase_counts(rs)
    &&& h.free_by_input@ == input_counts(rs)
}

impl SemanticGrowthAnalyzer {
    pub fn new() -> (r: Self)
        ensures
            r == SemanticGrowthAnalyzer,
    {
        SemanticGrowthAnalyzer
    }

    /// Count the claimed, free and unresolved cells of Q × Σ, and the free
    /// cells by phase and by input. Every cell is exactly one of claimed,
    /// free or unresolved.
    pub fn compute_headroom(&self, rule_set: &RuleSet) -> (r: SemanticHeadroom)
        ensures
            headroom_of(rule_set@, r),
            r.claimed_cells + r.free_cells + r.unresolved_table_cells == r.total_cells,
    {
        let ghost rs = rule_set@;
        let mut claimed: usize = 0;
        let mut free: usize = 0;
        let mut unresolved: usize = 0;
        let mut per_phase: Vec<usize> = Vec::new();
        let mut k: usize = 0;
        while k < NUM_PHASES
            invariant
                k <= NUM_PHASES,
                per_phase@.len() == k,
                forall|j: int| 0 <= j < k ==> per_phase@[j] == 0,
            decreases NUM_PHASES - k,
        {
            per_phase.push(0);
            k = k + 1;
        }
        let mut per_input: Vec<usize> = Vec::new();
        let mut k: usize = 0;
        while k < NUM_INPUTS
            invariant
                k <= NUM_INPUTS,
                per_input@.len() == k,
                forall|j: int| 0 <= j < k ==> per_input@[j] == 0,
            decreases NUM_INPUTS - k,
        {
            per_input.push(0);
            k = k + 1;
        }
        proof {
            lemma_index_bijection();
            assert forall|j: int| 0 <= j < NUM_PHASES implies all_cells().take(0).filter(
                #[trigger] free_in_phase_pred(rs, phase_at(j)),
            ).len() == 0 by {
                assert(all_cells().take(0).filter(free_in_phase_pred(rs, phase_at(j))) =~= Seq::<Cell>::empty());
            }
            assert forall|j: int| 0 <= j < NUM_INPUTS implies all_cells().take(0).filter(
                #[trigger] free_on_input_pred(rs, input_at(j)),
            ).len() == 0 by {
                assert(all_cells().take(0).filter(free_on_input_pred(rs, input_at(j))) =~= Seq::<Cell>::empty());
            }
            assert(all_cells().take(0).filter(claimed_pred(rs)) =~= Seq::<Cell>::empty());
            assert(all_cells().take(0).filter(free_pred(rs)) =~= Seq::<Cell>::empty());
            assert(all_cells().take(0).filter(unresolved_pred(rs)) =~= Seq::<Cell>::empty());
        }
        let mut c: usize = 0;
        while c < NUM_CELLS
            invariant
                c <= NUM_CELLS,
                rs == rule_set@,
                per_phase@.len() == NUM_PHASES,
                per_input@.len() == NUM_INPUTS,
                claimed == all_cells().take(c as int).filter(claimed_pred(rs)).len(),
                free == all_cells().take(c as int).filter(free_pred(rs)).len(),
                unresolved == all_cells().take(c as int).filter(unresolved_pred(rs)).len(),
                claimed + free + unresolved == c,
                forall|j: int| 0 <= j < NUM_PHASES ==> per_phase@[j] == all_cells().take(c as int).filter(
                    #[trigger] free_in_phase_pred(rs, phase_at(j)),
                ).len(),
                forall|j: int| 0 <= j < NUM_PHASES ==> #[trigger] per_phase@[j] <= c,
                forall|j: int| 0 <= j < NUM_INPUTS ==> per_input@[j] == all_cells().take(c as int).filter(
                    #[trigger] free_on_input_pred(rs, input_at(j)),
                ).len(),
                forall|j: int| 0 <= j < NUM_INPUTS ==> #[trigger] per_input@[j] <= c,
            decreases NUM_CELLS - c,
        {
            let (p, i) = cell(c);
            let ghost x = all_cells()[c as int];
            proof {
                lemma_index_bijection();
                lemma_filter_take_succ(all_cells(), c as int, claimed_pred(rs));
                lemma_filter_take_succ(all_cells(), c as int, free_pred(rs));
                lemma_filter_take_succ(all_cells(), c as int, unresolved_pred(rs));
                assert forall|j: int| 0 <= j < NUM_PHASES implies #[trigger] all_cells().take(c + 1).filter(
                    free_in_phase_pred(rs, phase_at(j)),
                ).len() == all_cells().take(c as int).filter(free_in_phase_pred(rs, phase_at(j))).len() + if free_pred(rs)(x)
                    && x.0 == phase_at(j) {
                    1int
                } else {
                    0int
                } by {
                    lemma_filter_take_succ(all_cells(), c as int, free_in_phase_pred(rs, phase_at(j)));
                }
                assert forall|j: int| 0 <= j < NUM_INPUTS implies #[trigger] all_cells().take(c + 1).filter(
                    free_on_input_pred(rs, input_at(j)),
                ).len() == all_cells().take(c as int).filter(free_on_input_pred(rs, input_at(j))).len() + if free_pred(rs)(x)
                    && x.1 == input_at(j) {
                    1int
                } else {
                    0int
                } by {
                    lemma_filter_take_succ(all_cells(), c as int, free_on_input_pred(rs, input_at(j)));
                }
            }
            assert(x == (p, i));
            let is_claimed = rule_set.first_match(p, i).is_some();
            let listed = cell_in_table(p, i);
            let ghost before_phase = per_phase@;
            let ghost before_input = per_input@;
            if is_claimed {
                claimed = claimed + 1;
            } else if listed {
                unresolved = unresolved + 1;
            } else {
                free = free + 1;
                let pi = p.index();
                let ii = i.index();
                per_phase.set(pi, per_phase[pi] + 1);
                per_input.set(ii, per_input[ii] + 1);
            }
            proof {
                assert forall|j: int| 0 <= j < NUM_PHASES implies per_phase@[j] == all_cells().take(c + 1).filter(
                    #[trigger] free_in_phase_pred(rs, phase_at(j)),
                ).len() by {
                    assert(phase_index(phase_at(j)) == j);
                    assert(phase_at(phase_index(p)) == p);
                }
                assert forall|j: int| 0 <= j < NUM_INPUTS implies per_input@[j] == all_cells().take(c + 1).filter(
                    #[trigger] free_on_input_pred(rs, input_at(j)),
                ).len() by {
                    assert(input_index(input_at(j)) == j);
                    assert(input_at(input_index(i)) == i);
                }
            }
            c = c + 1;
        }
        proof {
            assert(all_cells().take(NUM_CELLS as int) =~= all_cells());
        }
        let free_by_phase = nonzero_phase_counts(&per_phase, Ghost(rs));
        let free_by_input = nonzero_input_counts(&per_input, Ghost(rs));
        SemanticHeadroom {
            total_cells: NUM_PHASES * NUM_INPUTS,
            claimed_cells: claimed,
            table_cells: TABLE_LEN,
            unresolved_table_cells: unresolved,
            free_cells: free,
            free_by_phase,
            free_by_input,
        }
    }

    /// The growth vector of a rule set.
    pub fn compute_growth_vector(&self, rule_set: &RuleSet) -> (r: GrowthVector)
        ensures
            exists|h: SemanticHeadroom|
                {
                    &&& #[trigger] headroom_of(rule_set@, h)
                    &&& r.max_new_exact_rules == h.free_cells
                    &&& r.structural_growth_phases == count_at_least(h.free_by_phase@, 2)
                    &&& r.structural_growth_inputs == count_at_least(h.free_by_input@, 2)
                    &&& r.is_packed == (h.free_cells < DEFAULT_MIN_FREE_CELLS)
                    &&& r.total_growth_capacity == h.free_cells + if r.structural_growth_phases >= r.structural_growth_inputs {
                        r.structural_growth_phases
                    } else {
                        r.structural_growth_inputs
                    }
                },
    {
        let h = self.compute_headroom(rule_set);
        proof {
            assert(h.free_by_phase@.len() <= NUM_PHASES) by {
                Seq::new(NUM_PHASES as nat, |k: int| (phase_at(k), free_in_phase(rule_set@, phase_at(k)) as usize)).lemma_filter_len(
                    |e: (KernelPhase, usize)| e.1 > 0,
                );
            }
            assert(h.free_by_input@.len() <= NUM_INPUTS) by {
                Seq::new(NUM_INPUTS as nat, |k: int| (input_at(k), free_on_input(rule_set@, input_at(k)) as usize)).lemma_filter_len(
                    |e: (KernelInputKind, usize)| e.1 > 0,
                );
            }
        }
        GrowthVector::from_headroom(&h)
    }
}

impl Default for SemanticGrowthAnalyzer {
    fn default() -> (r: Self) {
        SemanticGrowthAnalyzer::new()
    }
}

/// The phases with a nonzero count, in phase order.
fn nonzero_phase_counts(per_phase: &Vec<usize>, Ghost(rs): Ghost<Seq<RuleView>>) -> (r: Vec<(KernelPhase, usize)>)
    requires
        per_phase@.len() == NUM_PHASES,
        forall|j: int| 0 <= j < NUM_PHASES ==> per_phase@[j] == free_in_phase(rs, phase_at(j)),
    ensures
        r@ == phase_counts(rs),
{
    let ghost all = Seq::new(NUM_PHASES as nat, |k: int| (phase_at(k), free_in_phase(rs, phase_at(k)) as usize));
    let ghost pred = |e: (KernelPhase, usize)| e.1 > 0;
    let mut out: Vec<(KernelPhase, usize)> = Vec::new();
    let mut k: usize = 0;
    while k < NUM_PHASES
        invariant
            k <= NUM_PHASES,
            per_phase@.len() == NUM_PHASES,
            forall|j: int| 0 <= j < NUM_PHASES ==> per_phase@[j] == free_in_phase(rs, phase_at(j)),
            all == Seq::new(NUM_PHASES as nat, |k: int| (phase_at(k), free_in_phase(rs, phase_at(k)) as usize)),
            pred == (|e: (KernelPhase, usize)| e.1 > 0),
            out@ == all.take(k as int).filter(pred),
        decreases NUM_PHASES - k,
    {
        proof {
            lemma_filter_take_succ(all, k as int, pred);
        }
        let n = per_phase[k];
        if n > 0 {
            out.push((KernelPhase::from_index(k), n));
        }
        k = k + 1;
    }
    proof {
        assert(all.take(NUM_PHASES as int) =~= all);
    }
    out
}

/// The inputs with a nonzero count, in input order.
fn nonzero_input_counts(per_input: &Vec<usize>, Ghost(rs): Ghost<Seq<RuleView>>) -> (r: Vec<(KernelInputKind, usize)>)
    requires
        per_input@.len() == NUM_INPUTS,
        forall|j: int| 0 <= j < NUM_INPUTS ==> per_input@[j] == free_on_input(rs, input_at(j)),
    ensures
        r@ == input_counts(rs),
{
    let ghost all = Seq::new(NUM_INPUTS as nat, |k: int| (input_at(k), free_on_input(rs, input_at(k)) as usize));
    let ghost pred = |e: (KernelInputKind, usize)| e.1 > 0;
    let mut out: Vec<(KernelInputKind, usize)> = Vec::new();
    let mut k: usize = 0;
    while k < NUM_INPUTS
        invariant
            k <= NUM_INPUTS,
            per_input@.len() == NUM_INPUTS,
            forall|j: int| 0 <= j < NUM_INPUTS ==> per_input@[j] == free_on_input(rs, input_at(j)),
            all == Seq::new(NUM_INPUTS as nat, |k: int| (input_at(k), free_on_input(rs, input_at(k)) as usize)),
            pred == (|e: (KernelInputKind, usize)| e.1 > 0),
            out@ == all.take(k as int).filter(pred),
        decreases NUM_INPUTS - k,
    {
        proof {
            lemma_filter_take_succ(all, k as int, pred);
        }
        let n = per_input[k];
        if n > 0 {
            out.push((KernelInputKind::from_index(k), n));
        }
        k = k + 1;
    }
    proof {
        assert(all.take(NUM_INPUTS as int) =~= all);
    }
    out
}

} // verus!
