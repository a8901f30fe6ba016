//! The counting side of specification entropy: the cells each rule newly
//! covers, the cells the whole set covers, and the development entropy
//! floor, whose one floating-point condition (normalized Shannon entropy) is
//! decided by the caller.

use vstd::prelude::*;
use crate::algebra_stability::{count_covered_entries, covered_entries};
use crate::cells::{all_cells, cell, lemma_filter_take_succ, Cell};
use crate::constraint_algebra::{rules_cover, RuleSet, RuleView};
use crate::counterfactual::{active_cells, is_active, prior_views, CounterfactualAnalyzer};
use crate::kernel_state::NUM_CELLS;

verus! {

/// The cells rule `k` covers that no earlier rule covers: the cells where it
/// is the first match.
pub open spec fn new_cells(rs: Seq<RuleView>, k: int) -> Seq<Cell> {
    active_cells(rs[k], rs.take(k))
}

/// Per rule, in order, how many cells it newly covers.
pub open spec fn coverages(rs: Seq<RuleView>) -> Seq<usize> {
    Seq::new(rs.len(), |k: int| new_cells(rs, k).len() as usize)
}

/// The cells on which some rule fires.
pub open spec fn covered_cells(rs: Seq<RuleView>) -> Seq<Cell> {
    all_cells().filter(rules_cover(rs))
}

/// `f` computes the spec function `g`: every answer it gives on a vector is
/// `g` of the vector's contents.
pub open spec fn decides<F: Fn(&Vec<usize>) -> bool>(f: F, g: spec_fn(Seq<usize>) -> bool) -> bool {
    forall|v: &Vec<usize>, b: bool| #[trigger] call_ensures(f, (v,), b) ==> b == g(v@)
}

/// The development entropy floor: a non-empty rule set whose normalized
/// Shannon entropy over its coverages passes (`shannon_ok`), that covers at
/// least one cell per rule, and that reproduces at least 5 of the 45 table
/// entries (a tenth of the table). Its structural-diversity floor is zero and
/// always holds.
pub open spec fn development_floor_holds(rs: Seq<RuleView>, shannon_ok: spec_fn(Seq<usize>) -> bool) -> bool {
    &&& rs.len() > 0
    &&& shannon_ok(coverages(rs))
    &&& covered_cells(rs).len() >= rs.len()
    &&& covered_entries(rs).len() >= 5
}

/// How many cells each rule newly covers, in rule order.
pub fn rule_coverages(rs: &RuleSet) -> (r: Vec<usize>)
    ensures
        r@ == coverages(rs@),
{
    let n = rs.rules.len();
    let mut out: Vec<usize> = Vec::new();
    let mut k: usize = 0;
    while k < n
        invariant
            k <= n,
            n == rs.rules@.len(),
            n == rs@.len(),
            out@.len() == k,
            forall|j: int| 0 <= j < k ==> out@[j] == #[trigger] coverages(rs@)[j],
        decreases n - k,
    {
        let ghost rule = rs@[k as int];
        let ghost prior = rs@.take(k as int);
        let ghost pred = |c: Cell| is_active(rule, prior, c);
        proof {
            assert(prior_views(rs.rules@, k as int) =~= prior);
            assert(rs.rules@[k as int]@ == rule);
        }
        let mut count: usize = 0;
        let mut c: usize = 0;
        while c < NUM_CELLS
            invariant
                c <= NUM_CELLS,
                k < n,
                n == rs.rules@.len(),
                n == rs@.len(),
                rule == rs@[k as int],
                prior == rs@.take(k as int),
                prior_views(rs.rules@, k as int) == prior,
                rs.rules@[k as int]@ == rule,
                pred == (|c: Cell| is_active(rule, prior, c)),
                count == all_cells().take(c as int).filter(pred).len(),
                count <= c,
            decreases NUM_CELLS - c,
        {
            proof {
                lemma_filter_take_succ(all_cells(), c as int, pred);
            }
            let (p, i) = cell(c);
            if CounterfactualAnalyzer::is_active_cell(&rs.rules[k], rs.rules.as_slice(), k, p, i) {
                count = count + 1;
            }
            c = c + 1;
        }
        proof {
            assert(all_cells().take(NUM_CELLS as int) =~= all_cells());
        }
        out.push(count);
        k = k + 1;
    }
    assert(out@ =~= coverages(rs@));
    out
}

/// How many cells some rule fires on.
pub fn covered_cell_count(rs: &RuleSet) -> (r: usize)
    ensures
        r == covered_cells(rs@).len(),
        r <= NUM_CELLS,
{
    let ghost pred = rules_cover(rs@);
    let mut count: usize = 0;
    let mut c: usize = 0;
    while c < NUM_CELLS
        invariant
            c <= NUM_CELLS,
            pred == rules_cover(rs@),
            count == all_cells().take(c as int).filter(pred).len(),
            count <= c,
        decreases NUM_CELLS - c,
    {
        proof {
            lemma_filter_take_succ(all_cells(), c as int, pred);
        }
        let (p, i) = cell(c);
        if rs.first_match(p, i).is_some() {
            count = count + 1;
        }
        c = c + 1;
    }
    assert(all_cells().take(NUM_CELLS as int) =~= all_cells());
    count
}

/// Is the rule set above the development entropy floor? `shannon_ok` decides
/// the floating-point condition on the coverages.
pub fn development_floor<F: Fn(&Vec<usize>) -> bool>(rs: &RuleSet, shannon_ok: &F) -> (r: bool)
    requires
        forall|v: &Vec<usize>| #[trigger] call_requires(*shannon_ok, (v,)),
    ensures
        forall|g: spec_fn(Seq<usize>) -> bool| decides(*shannon_ok, g) ==> r == development_floor_holds(rs@, g),
{
    if rs.rule_count() == 0 {
        return false;
    }
    let cov = rule_coverages(rs);
    let spread = shannon_ok(&cov);
    let covered = covered_cell_count(rs);
    let table = count_covered_entries(rs);
    spread && covered >= rs.rule_count() && table >= 5
}

/// How expressive a specification is, by band of its expressiveness score.
#[derive(Debug, Clone, Copy, PartialEq, Eq, Structural, PartialOrd, Ord)]
pub enum EntropyLevel {
    /// Below 0.2.
    Collapsed,
    /// From 0.2 to 0.4.
    Degenerate,
    /// From 0.4 to 0.6.
    Sparse,
    /// From 0.6 to 0.8.
    Adequate,
    /// 0.8 and above.
    Rich,
}

impl EntropyLevel {
    /// The level's name.
    pub fn to_text(self) -> (r: &'static str)
        ensures
            r@ == match self {
                EntropyLevel::Collapsed => "COLLAPSED"@,
                EntropyLevel::Degenerate => "DEGENERATE"@,
                EntropyLevel::Sparse => "SPARSE"@,
                EntropyLevel::Adequate => "ADEQUATE"@,
                EntropyLevel::Rich => "RICH"@,
            },
    {
        match self {
            EntropyLevel::Collapsed => "COLLAPSED",
            EntropyLevel::Degenerate => "DEGENERATE",
            EntropyLevel::Sparse => "SPARSE",
            EntropyLevel::Adequate => "ADEQUATE",
            EntropyLevel::Rich => "RICH",
        }
    }
}

} // verus!
