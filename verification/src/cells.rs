//! The finite domain Q × Σ of (phase, input) cells, enumerated in
//! definition order (phase-major), and the helpers that walk it.

use vstd::prelude::*;
use crate::kernel_state::{
    input_at, input_index, lemma_index_bijection, phase_at, phase_index, KernelInputKind, KernelPhase,
    NUM_CELLS, NUM_INPUTS, NUM_PHASES,
};

verus! {

/// A cell of the domain: a (phase, input) pair.
pub type Cell = (KernelPhase, KernelInputKind);

/// The cell at position `c` of the phase-major enumeration.
pub open spec fn cell_at(c: int) -> Cell {
    (phase_at(c / (NUM_INPUTS as int)), input_at(c % (NUM_INPUTS as int)))
}

/// The position of a cell in the phase-major enumeration.
pub open spec fn cell_index(p: KernelPhase, i: KernelInputKind) -> int {
    phase_index(p) * (NUM_INPUTS as int) + input_index(i)
}

/// All 522 cells in phase-major order (the order of `BTreeSet<(KernelPhase, KernelInputKind)>`).
pub open spec fn all_cells() -> Seq<Cell> {
    Seq::new(NUM_CELLS as nat, |c: int| cell_at(c))
}

/// Every cell occurs in the enumeration, at its index.
pub proof fn lemma_cell_index(p: KernelPhase, i: KernelInputKind)
    ensures
        0 <= cell_index(p, i) < NUM_CELLS,
        cell_at(cell_index(p, i)) == (p, i),
        all_cells()[cell_index(p, i)] == (p, i),
{
    lemma_index_bijection();
    let q = phase_index(p);
    let r = input_index(i);
    vstd::arithmetic::div_mod::lemma_fundamental_div_mod_converse(cell_index(p, i), NUM_INPUTS as int, q, r);
}

/// The enumeration has no repeated cell.
pub proof fn lemma_cell_at_injective(a: int, b: int)
    requires
        0 <= a < NUM_CELLS,
        0 <= b < NUM_CELLS,
        a != b,
    ensures
        cell_at(a) != cell_at(b),
{
    lemma_index_bijection();
    let n = NUM_INPUTS as int;
    vstd::arithmetic::div_mod::lemma_fundamental_div_mod(a, n);
    vstd::arithmetic::div_mod::lemma_fundamental_div_mod(b, n);
    assert(0 <= a / n < NUM_PHASES) by (nonlinear_arith)
        requires 0 <= a < 522, n == 29;
    assert(0 <= b / n < NUM_PHASES) by (nonlinear_arith)
        requires 0 <= b < 522, n == 29;
    if cell_at(a) == cell_at(b) {
        assert(phase_index(phase_at(a / n)) == a / n);
        assert(phase_index(phase_at(b / n)) == b / n);
        assert(input_index(input_at(a % n)) == a % n);
        assert(input_index(input_at(b % n)) == b % n);
    }
}

/// The cell at position `c`.
pub fn cell(c: usize) -> (r: Cell)
    requires
        c < NUM_CELLS,
    ensures
        r == cell_at(c as int),
{
    assert(c / NUM_INPUTS < NUM_PHASES) by (nonlinear_arith)
        requires c < 522;
    (KernelPhase::from_index(c / NUM_INPUTS), KernelInputKind::from_index(c % NUM_INPUTS))
}

/// Filtering a one-longer prefix adds at most the new element.
pub proof fn lemma_filter_take_succ<A>(s: Seq<A>, c: int, pred: spec_fn(A) -> bool)
    requires
        0 <= c < s.len(),
    ensures
        s.take(c + 1).filter(pred) == if pred(s[c]) {
            s.take(c).filter(pred).push(s[c])
        } else {
            s.take(c).filter(pred)
        },
{
    assert(s.take(c + 1) =~= s.take(c).push(s[c]));
    s.take(c).lemma_filter_push(s[c], pred);
}

/// Membership in a filtered enumeration of cells.
pub proof fn lemma_filter_cells_contains(pred: spec_fn(Cell) -> bool, p: KernelPhase, i: KernelInputKind)
    ensures
        all_cells().filter(pred).contains((p, i)) <==> pred((p, i)),
{
    lemma_cell_index(p, i);
    let s = all_cells();
    if s.filter(pred).contains((p, i)) {
        let j = choose|j: int| 0 <= j < s.filter(pred).len() && s.filter(pred)[j] == (p, i);
        s.lemma_filter_pred(pred, j);
    }
    if pred((p, i)) {
        s.lemma_filter_contains(pred, cell_index(p, i));
    }
}

} // verus!
