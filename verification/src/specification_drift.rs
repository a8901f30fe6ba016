//! Divergence between the three descriptions of δ: the constraint algebra,
//! the kernel's table, and the recorded execution traces.

use vstd::prelude::*;
use crate::cells::{Cell, all_cells, cell, cell_index, lemma_cell_index, lemma_filter_take_succ};
use crate::constraint_algebra::{RuleSet, RuleView, canonical_constraint_rules, canonical_rules_view, rules_delta};
use crate::kernel_state::{
    KernelInputKind, KernelPhase, NUM_CELLS, NUM_INPUTS, TABLE_LEN, TransitionEntry, kernel_delta, spec_kernel_delta,
    table_entry, transition_entry,
};
use crate::proof_certificate::{ExecutionTrace, TransitionCertificate};
use crate::trace_synthesizer::{TraceSynthesizer, certs_at, certs_upto, observe_entry};

verus! {

// ─── Severity and events ─────────────────────────────────────────────────────

/// How serious a divergence is, in increasing order.
#[derive(Debug, Clone, Copy, PartialEq, Eq, Structural, PartialOrd, Ord, Hash)]
pub enum DriftSeverity {
    /// The three layers agree.
    Clean,
    /// Some behaviour is untested.
    Informational,
    /// The algebra specifies behaviour with no trace evidence.
    Warning,
    /// The algebra disagrees with the kernel.
    Critical,
}

impl DriftSeverity {
    /// The severity's label as reports print it.
    pub fn label(self) -> (r: &'static str)
        ensures
            r@ == match self {
                DriftSeverity::Clean => "CLEAN"@,
                DriftSeverity::Informational => "INFO"@,
                DriftSeverity::Warning => "WARN"@,
                DriftSeverity::Critical => "CRITICAL"@,
            },
    {
        match self {
            DriftSeverity::Clean => "CLEAN",
            DriftSeverity::Informational => "INFO",
            DriftSeverity::Warning => "WARN",
            DriftSeverity::Critical => "CRITICAL",
        }
    }
}

/// One detected divergence.
#[derive(Debug, Clone)]
pub enum DriftEvent {
    /// The algebra and the kernel give different targets for a cell.
    AlgebraKernelConflict { from: KernelPhase, input: KernelInputKind, algebra_says: KernelPhase, kernel_says: KernelPhase },
    /// A trace step the kernel would not take.
    TraceContradicsKernel {
        at_step: usize,
        from: KernelPhase,
        input: KernelInputKind,
        trace_says: KernelPhase,
        kernel_says: KernelPhase,
    },
    /// A traced transition the algebra does not cover.
    TransitionNotInAlgebra { from: KernelPhase, input: KernelInputKind, to: KernelPhase, in_explicit_table: bool },
    /// A table entry no trace exercised.
    UntracedTableEntry { from: KernelPhase, input: KernelInputKind, to: KernelPhase },
    /// A rule covering cells no trace exercised.
    OvergeneralizedRule { rule_name: String, unobserved_cells: Vec<(KernelPhase, KernelInputKind)> },
}

/// The severity of an event.
pub open spec fn spec_severity(e: DriftEvent) -> DriftSeverity {
    match e {
        DriftEvent::AlgebraKernelConflict { .. } => DriftSeverity::Critical,
        DriftEvent::TraceContradicsKernel { .. } => DriftSeverity::Warning,
        DriftEvent::TransitionNotInAlgebra { in_explicit_table, .. } => if in_explicit_table {
            DriftSeverity::Warning
        } else {
            DriftSeverity::Critical
        },
        DriftEvent::UntracedTableEntry { .. } => DriftSeverity::Informational,
        DriftEvent::OvergeneralizedRule { .. } => DriftSeverity::Warning,
    }
}

impl DriftEvent {
    pub fn severity(&self) -> (r: DriftSeverity)
        ensures
            r == spec_severity(*self),
    {
        match self {
            DriftEvent::AlgebraKernelConflict { .. } => DriftSeverity::Critical,
            DriftEvent::TraceContradicsKernel { .. } => DriftSeverity::Warning,
            DriftEvent::TransitionNotInAlgebra { in_explicit_table, .. } => if *in_explicit_table {
                DriftSeverity::Warning
            } else {
                DriftSeverity::Critical
            },
            DriftEvent::UntracedTableEntry { .. } => DriftSeverity::Informational,
            DriftEvent::OvergeneralizedRule { .. } => DriftSeverity::Warning,
        }
    }
}

// ─── DriftReport ─────────────────────────────────────────────────────────────

/// Summary counts of a drift report.
#[derive(Debug, Clone, Copy)]
pub struct DriftStats {
    pub total_events: usize,
    pub critical_count: usize,
    pub warning_count: usize,
    pub info_count: usize,
    /// Cells (of 522) where the algebra agrees with the kernel.
    pub agreement_cells: usize,
    /// Distinct (phase, input) cells the traces exercised.
    pub observed_cells: usize,
}

/// Events with a given severity.
pub open spec fn events_of(events: Seq<DriftEvent>, s: DriftSeverity) -> Seq<DriftEvent> {
    events.filter(|e: DriftEvent| spec_severity(e) == s)
}

/// Algebra-kernel conflict events.
pub open spec fn conflict_events(events: Seq<DriftEvent>) -> Seq<DriftEvent> {
    events.filter(|e: DriftEvent| e is AlgebraKernelConflict)
}

/// The overall severity: the highest severity of any event, `Clean` if none.
pub open spec fn overall_severity(events: Seq<DriftEvent>) -> DriftSeverity {
    if events_of(events, DriftSeverity::Critical).len() > 0 {
        DriftSeverity::Critical
    } else if events_of(events, DriftSeverity::Warning).len() > 0 {
        DriftSeverity::Warning
    } else if events_of(events, DriftSeverity::Informational).len() > 0 {
        DriftSeverity::Informational
    } else {
        DriftSeverity::Clean
    }
}

/// Divergences found, their overall severity and counts.
#[derive(Debug, Clone)]
pub struct DriftReport {
    pub events: Vec<DriftEvent>,
    pub severity: DriftSeverity,
    pub stats: DriftStats,
}

/// The report describes `events`, with `observed` cells exercised by traces.
pub open spec fn report_of(r: DriftReport, events: Seq<DriftEvent>, observed: usize) -> bool {
    &&& r.events@ == events
    &&& r.severity == overall_severity(events)
    &&& r.stats.total_events == events.len()
    &&& r.stats.critical_count == events_of(events, DriftSeverity::Critical).len()
    &&& r.stats.warning_count == events_of(events, DriftSeverity::Warning).len()
    &&& r.stats.info_count == events_of(events, DriftSeverity::Informational).len()
    &&& r.stats.agreement_cells == NUM_CELLS - conflict_events(events).len()
    &&& r.stats.observed_cells == observed
}

impl DriftReport {
    /// Summarise events; `observed_cells` is the number of distinct cells the
    /// traces exercised.
    pub fn build(events: Vec<DriftEvent>, observed_cells: usize) -> (r: Self)
        requires
            conflict_events(events@).len() <= NUM_CELLS,
        ensures
            report_of(r, events@, observed_cells),
    {
        let ghost ev = events@;
        let ghost pc = |e: DriftEvent| spec_severity(e) == DriftSeverity::Critical;
        let ghost pw = |e: DriftEvent| spec_severity(e) == DriftSeverity::Warning;
        let ghost pi = |e: DriftEvent| spec_severity(e) == DriftSeverity::Informational;
        let ghost pk = |e: DriftEvent| e is AlgebraKernelConflict;
        let mut critical: usize = 0;
        let mut warning: usize = 0;
        let mut info: usize = 0;
        let mut conflicts: usize = 0;
        let mut k: usize = 0;
        while k < events.len()
            invariant
                k <= ev.len(),
                ev == events@,
                pc == (|e: DriftEvent| spec_severity(e) == DriftSeverity::Critical),
                pw == (|e: DriftEvent| spec_severity(e) == DriftSeverity::Warning),
                pi == (|e: DriftEvent| spec_severity(e) == DriftSeverity::Informational),
                pk == (|e: DriftEvent| e is AlgebraKernelConflict),
                critical == ev.take(k as int).filter(pc).len(),
                warning == ev.take(k as int).filter(pw).len(),
                info == ev.take(k as int).filter(pi).len(),
                conflicts == ev.take(k as int).filter(pk).len(),
                critical <= k && warning <= k && info <= k && conflicts <= k,
            decreases ev.len() - k,
        {
            proof {
                lemma_filter_take_succ(ev, k as int, pc);
                lemma_filter_take_succ(ev, k as int, pw);
                lemma_filter_take_succ(ev, k as int, pi);
                lemma_filter_take_succ(ev, k as int, pk);
            }
            let e = &events[k];
            match e.severity() {
                DriftSeverity::Critical => { critical = critical + 1; },
                DriftSeverity::Warning => { warning = warning + 1; },
                DriftSeverity::Informational => { info = info + 1; },
                DriftSeverity::Clean => {},
            }
            match e {
                DriftEvent::AlgebraKernelConflict { .. } => { conflicts = conflicts + 1; },
                _ => {},
            }
            k = k + 1;
        }
        assert(ev.take(ev.len() as int) =~= ev);
        let severity = if critical > 0 {
            DriftSeverity::Critical
        } else if warning > 0 {
            DriftSeverity::Warning
        } else if info > 0 {
            DriftSeverity::Informational
        } else {
            DriftSeverity::Clean
        };
        let total = events.len();
        DriftReport {
            events,
            severity,
            stats: DriftStats {
                total_events: total,
                critical_count: critical,
                warning_count: warning,
                info_count: info,
                agreement_cells: NUM_CELLS - conflicts,
                observed_cells,
            },
        }
    }

    pub fn is_clean(&self) -> (r: bool)
        ensures
            r == (self.severity == DriftSeverity::Clean),
    {
        self.severity == DriftSeverity::Clean
    }

    pub fn has_critical(&self) -> (r: bool)
        ensures
            r == (self.severity == DriftSeverity::Critical),
    {
        self.severity == DriftSeverity::Critical
    }
}

// ─── DriftDetector ───────────────────────────────────────────────────────────

/// A conflict event for each cell where the algebra and the kernel disagree, in cell order.
pub open spec fn algebra_conflicts(rules: Seq<RuleView>) -> Seq<DriftEvent> {
    all_cells().filter(|c: Cell| rules_delta(rules, c.0, c.1) != spec_kernel_delta(c.0, c.1)).map_values(
        |c: Cell| DriftEvent::AlgebraKernelConflict {
            from: c.0,
            input: c.1,
            algebra_says: rules_delta(rules, c.0, c.1),
            kernel_says: spec_kernel_delta(c.0, c.1),
        },
    )
}

/// Does the certificate claim a step the kernel would not take?
pub open spec fn contradicts_kernel(c: TransitionCertificate) -> bool {
    c.to_phase != spec_kernel_delta(c.from_phase, c.input)
}

/// A contradiction event for each of the first `n` steps of a trace that the kernel would not take.
pub open spec fn contradictions_in(certs: Seq<TransitionCertificate>, n: int) -> Seq<DriftEvent>
    decreases n,
{
    if n <= 0 {
        Seq::empty()
    } else if contradicts_kernel(certs[n - 1]) {
        contradictions_in(certs, n - 1).push(DriftEvent::TraceContradicsKernel {
            at_step: (n - 1) as usize,
            from: certs[n - 1].from_phase,
            input: certs[n - 1].input,
            trace_says: certs[n - 1].to_phase,
            kernel_says: spec_kernel_delta(certs[n - 1].from_phase, certs[n - 1].input),
        })
    } else {
        contradictions_in(certs, n - 1)
    }
}

/// The contradiction events of the first `k` traces, trace by trace.
pub open spec fn contradictions_upto(traces: Seq<ExecutionTrace>, k: int) -> Seq<DriftEvent>
    decreases k,
{
    if k <= 0 {
        Seq::empty()
    } else {
        contradictions_upto(traces, k - 1) + contradictions_in(
            traces[k - 1].certificates@,
            traces[k - 1].certificates@.len() as int,
        )
    }
}

/// Did some trace exercise the cell?
pub open spec fn traced(traces: Seq<ExecutionTrace>, c: Cell) -> bool {
    certs_at(certs_upto(traces, traces.len() as int), c).len() > 0
}

/// An event for each table entry no trace exercised, in table order.
pub open spec fn untraced_entries(traces: Seq<ExecutionTrace>) -> Seq<DriftEvent> {
    Seq::new(TABLE_LEN as nat, |k: int| table_entry(k)).filter(|e: TransitionEntry| !traced(traces, (e.from, e.on)))
        .map_values(|e: TransitionEntry| DriftEvent::UntracedTableEntry { from: e.from, input: e.on, to: e.to })
}

/// The number of distinct cells the traces exercised.
pub open spec fn traced_count(traces: Seq<ExecutionTrace>) -> nat {
    all_cells().filter(|c: Cell| traced(traces, c)).len()
}

/// Which cells, by index, the first traces exercised.
fn traced_cells(traces: &[ExecutionTrace]) -> (r: Vec<bool>)
    ensures
        r@.len() == NUM_CELLS,
        forall|c: Cell| #[trigger] r@[cell_index(c.0, c.1)] == traced(traces@, c),
{
    let mut seen: Vec<bool> = Vec::new();
    let mut k: usize = 0;
    while k < NUM_CELLS
        invariant
            k <= NUM_CELLS,
            seen@.len() == k,
            forall|j: int| 0 <= j < k ==> !#[trigger] seen@[j],
        decreases NUM_CELLS - k,
    {
        seen.push(false);
        k = k + 1;
    }
    proof {
        assert forall|c: Cell| #[trigger] seen@[cell_index(c.0, c.1)] == (certs_at(certs_upto(traces@, 0), c).len() > 0) by {
            lemma_cell_index(c.0, c.1);
            assert(certs_upto(traces@, 0) =~= Seq::<TransitionCertificate>::empty());
        }
    }
    let mut t: usize = 0;
    while t < traces.len()
        invariant
            t <= traces@.len(),
            seen@.len() == NUM_CELLS,
            forall|c: Cell| #[trigger] seen@[cell_index(c.0, c.1)] == (certs_at(certs_upto(traces@, t as int), c).len() > 0),
        decreases traces@.len() - t,
    {
        let certs = &traces[t].certificates;
        let ghost base = certs_upto(traces@, t as int);
        let mut j: usize = 0;
        while j < certs.len()
            invariant
                j <= certs@.len(),
                certs@ == traces@[t as int].certificates@,
                base == certs_upto(traces@, t as int),
                seen@.len() == NUM_CELLS,
                forall|c: Cell| #[trigger] seen@[cell_index(c.0, c.1)] == (certs_at(base + certs@.take(j as int), c).len() > 0),
            decreases certs@.len() - j,
        {
            let cert = &certs[j];
            let idx = cert.from_phase.index() * NUM_INPUTS + cert.input.index();
            let ghost before = seen@;
            proof {
                lemma_cell_index(cert.from_phase, cert.input);
            }
            seen.set(idx, true);
            proof {
                let prefix = base + certs@.take(j as int);
                assert(base + certs@.take(j + 1) =~= prefix.push(*cert));
                assert forall|c: Cell| #[trigger] seen@[cell_index(c.0, c.1)] == (certs_at(base + certs@.take(j + 1), c).len() > 0) by {
                    let pred = |x: TransitionCertificate| x.from_phase == c.0 && x.input == c.1;
                    prefix.lemma_filter_push(*cert, pred);
                    lemma_cell_index(c.0, c.1);
                    if c != (cert.from_phase, cert.input) {
                        assert(cell_index(c.0, c.1) != idx) by {
                            if cell_index(c.0, c.1) == idx as int {
                                assert(crate::cells::cell_at(cell_index(c.0, c.1)) == c);
                            }
                        }
                    }
                }
            }
            j = j + 1;
        }
        proof {
            assert(base + certs@.take(certs@.len() as int) =~= certs_upto(traces@, t + 1));
        }
        t = t + 1;
    }
    seen
}

/// Checks the three pairwise divergences: algebra and kernel, kernel and
/// traces, traces and table.
pub struct DriftDetector;

impl DriftDetector {
    /// Every cell where the algebra and the kernel disagree.
    pub fn check_algebra_vs_kernel(algebra: &RuleSet) -> (r: Vec<DriftEvent>)
        ensures
            r@ == algebra_conflicts(algebra@),
    {
        let ghost pred = |c: Cell| rules_delta(algebra@, c.0, c.1) != spec_kernel_delta(c.0, c.1);
        let ghost f = |c: Cell| DriftEvent::AlgebraKernelConflict {
            from: c.0,
            input: c.1,
            algebra_says: rules_delta(algebra@, c.0, c.1),
            kernel_says: spec_kernel_delta(c.0, c.1),
        };
        let mut events: Vec<DriftEvent> = Vec::new();
        let mut c: usize = 0;
        while c < NUM_CELLS
            invariant
                c <= NUM_CELLS,
                pred == (|c: Cell| rules_delta(algebra@, c.0, c.1) != spec_kernel_delta(c.0, c.1)),
                f == (|c: Cell| DriftEvent::AlgebraKernelConflict {
                    from: c.0,
                    input: c.1,
                    algebra_says: rules_delta(algebra@, c.0, c.1),
                    kernel_says: spec_kernel_delta(c.0, c.1),
                }),
                events@ == all_cells().take(c as int).filter(pred).map_values(f),
            decreases NUM_CELLS - c,
        {
            proof {
                lemma_filter_take_succ(all_cells(), c as int, pred);
            }
            let (phase, input) = cell(c);
            let algebra_says = algebra.delta(phase, input);
            let kernel_says = kernel_delta(phase, input);
            if algebra_says != kernel_says {
                events.push(DriftEvent::AlgebraKernelConflict { from: phase, input, algebra_says, kernel_says });
            }
            proof {
                assert(all_cells().take(c + 1).filter(pred).map_values(f) =~= if pred((phase, input)) {
                    all_cells().take(c as int).filter(pred).map_values(f).push(f((phase, input)))
                } else {
                    all_cells().take(c as int).filter(pred).map_values(f)
                });
            }
            c = c + 1;
        }
        assert(all_cells().take(NUM_CELLS as int) =~= all_cells());
        events
    }

    /// Every trace step the kernel would not take, trace by trace.
    pub fn check_traces_vs_kernel(traces: &[ExecutionTrace]) -> (r: Vec<DriftEvent>)
        ensures
            r@ == contradictions_upto(traces@, traces@.len() as int),
    {
        let mut events: Vec<DriftEvent> = Vec::new();
        let mut t: usize = 0;
        while t < traces.len()
            invariant
                t <= traces@.len(),
                events@ == contradictions_upto(traces@, t as int),
            decreases traces@.len() - t,
        {
            let certs = &traces[t].certificates;
            let ghost base = contradictions_upto(traces@, t as int);
            let mut j: usize = 0;
            while j < certs.len()
                invariant
                    j <= certs@.len(),
                    certs@ == traces@[t as int].certificates@,
                    base == contradictions_upto(traces@, t as int),
                    events@ == base + contradictions_in(certs@, j as int),
                decreases certs@.len() - j,
            {
                let cert = &certs[j];
                let kernel_says = kernel_delta(cert.from_phase, cert.input);
                if cert.to_phase != kernel_says {
                    events.push(DriftEvent::TraceContradicsKernel {
                        at_step: j,
                        from: cert.from_phase,
                        input: cert.input,
                        trace_says: cert.to_phase,
                        kernel_says,
                    });
                }
                proof {
                    assert(events@ =~= base + contradictions_in(certs@, j + 1));
                }
                j = j + 1;
            }
            t = t + 1;
        }
        events
    }

    /// Every table entry no trace exercised, in table order.
    pub fn find_untraced_entries(traces: &[ExecutionTrace]) -> (r: Vec<DriftEvent>)
        ensures
            r@ == untraced_entries(traces@),
    {
        let seen = traced_cells(traces);
        let ghost entries = Seq::new(TABLE_LEN as nat, |k: int| table_entry(k));
        let ghost pred = |e: TransitionEntry| !traced(traces@, (e.from, e.on));
        let ghost f = |e: TransitionEntry| DriftEvent::UntracedTableEntry { from: e.from, input: e.on, to: e.to };
        let mut out: Vec<DriftEvent> = Vec::new();
        let mut k: usize = 0;
        while k < TABLE_LEN
            invariant
                k <= TABLE_LEN,
                seen@.len() == NUM_CELLS,
                forall|c: Cell| #[trigger] seen@[cell_index(c.0, c.1)] == traced(traces@, c),
                entries == Seq::new(TABLE_LEN as nat, |k: int| table_entry(k)),
                pred == (|e: TransitionEntry| !traced(traces@, (e.from, e.on))),
                f == (|e: TransitionEntry| DriftEvent::UntracedTableEntry { from: e.from, input: e.on, to: e.to }),
                out@ == entries.take(k as int).filter(pred).map_values(f),
            decreases TABLE_LEN - k,
        {
            proof {
                lemma_filter_take_succ(entries, k as int, pred);
            }
            let e = transition_entry(k);
            let idx = e.from.index() * NUM_INPUTS + e.on.index();
            proof {
                lemma_cell_index(e.from, e.on);
                assert(seen@[cell_index(e.from, e.on)] == traced(traces@, (e.from, e.on)));
            }
            if !seen[idx] {
                out.push(DriftEvent::UntracedTableEntry { from: e.from, input: e.on, to: e.to });
            }
            proof {
                assert(entries.take(k + 1).filter(pred).map_values(f) =~= if pred(e) {
                    entries.take(k as int).filter(pred).map_values(f).push(f(e))
                } else {
                    entries.take(k as int).filter(pred).map_values(f)
                });
            }
            k = k + 1;
        }
        assert(entries.take(TABLE_LEN as int) =~= entries);
        out
    }

    /// The number of distinct cells the traces exercised.
    pub fn count_traced_cells(traces: &[ExecutionTrace]) -> (r: usize)
        ensures
            r == traced_count(traces@),
    {
        let seen = traced_cells(traces);
        let ghost pred = |c: Cell| traced(traces@, c);
        let mut n: usize = 0;
        let mut c: usize = 0;
        while c < NUM_CELLS
            invariant
                c <= NUM_CELLS,
                seen@.len() == NUM_CELLS,
                forall|c: Cell| #[trigger] seen@[cell_index(c.0, c.1)] == traced(traces@, c),
                pred == (|c: Cell| traced(traces@, c)),
                n == all_cells().take(c as int).filter(pred).len(),
                n <= c,
            decreases NUM_CELLS - c,
        {
            proof {
                lemma_filter_take_succ(all_cells(), c as int, pred);
            }
            let (phase, input) = cell(c);
            let idx = phase.index() * NUM_INPUTS + input.index();
            proof {
                lemma_cell_index(phase, input);
                assert(seen@[cell_index(phase, input)] == traced(traces@, (phase, input)));
            }
            if seen[idx] {
                n = n + 1;
            }
            c = c + 1;
        }
        assert(all_cells().take(NUM_CELLS as int) =~= all_cells());
        n
    }

    /// All three checks in one report.
    pub fn full_report(algebra: &RuleSet, traces: &[ExecutionTrace]) -> (r: DriftReport)
        ensures
            report_of(
                r,
                algebra_conflicts(algebra@) + contradictions_upto(traces@, traces@.len() as int) + untraced_entries(traces@),
                traced_count(traces@) as usize,
            ),
    {
        let mut events = Self::check_algebra_vs_kernel(algebra);
        let mut contradictions = Self::check_traces_vs_kernel(traces);
        let mut untraced = Self::find_untraced_entries(traces);
        let ghost a = events@;
        let ghost b = contradictions@;
        let ghost c = untraced@;
        events.append(&mut contradictions);
        events.append(&mut untraced);
        proof {
            let pk = |e: DriftEvent| e is AlgebraKernelConflict;
            let pred = |x: Cell| rules_delta(algebra@, x.0, x.1) != spec_kernel_delta(x.0, x.1);
            lemma_conflicts_bound(algebra@);
            lemma_no_conflicts_in_contradictions(traces@, traces@.len() as int);
            lemma_no_conflicts_in_untraced(traces@);
            Seq::filter_distributes_over_add(a, b, pk);
            Seq::filter_distributes_over_add(a + b, c, pk);
        }
        let observed = Self::count_traced_cells(traces);
        DriftReport::build(events, observed)
    }

    /// Only the algebra-kernel check.
    pub fn check_critical_only(algebra: &RuleSet) -> (r: DriftReport)
        ensures
            report_of(r, algebra_conflicts(algebra@), 0),
    {
        let events = Self::check_algebra_vs_kernel(algebra);
        proof {
            lemma_conflicts_bound(algebra@);
        }
        DriftReport::build(events, 0)
    }
}

/// There are no more conflict events than cells.
proof fn lemma_conflicts_bound(rules: Seq<RuleView>)
    ensures
        conflict_events(algebra_conflicts(rules)).len() <= NUM_CELLS,
        conflict_events(algebra_conflicts(rules)) == algebra_conflicts(rules),
{
    let s = algebra_conflicts(rules);
    let pk = |e: DriftEvent| e is AlgebraKernelConflict;
    let pred = |c: Cell| rules_delta(rules, c.0, c.1) != spec_kernel_delta(c.0, c.1);
    all_cells().lemma_filter_len(pred);
    lemma_filter_all(s, pk);
}

/// Filtering by a predicate every element satisfies keeps the sequence.
proof fn lemma_filter_all(s: Seq<DriftEvent>, p: spec_fn(DriftEvent) -> bool)
    requires
        forall|k: int| 0 <= k < s.len() ==> p(#[trigger] s[k]),
    ensures
        s.filter(p) == s,
    decreases s.len(),
{
    if s.len() > 0 {
        lemma_filter_all(s.drop_last(), p);
        assert(s.drop_last().push(s.last()) =~= s);
        s.drop_last().lemma_filter_push(s.last(), p);
    } else {
        assert(s.filter(p) =~= s);
    }
}

/// Filtering by a predicate no element satisfies empties the sequence.
proof fn lemma_filter_none(s: Seq<DriftEvent>, p: spec_fn(DriftEvent) -> bool)
    requires
        forall|k: int| 0 <= k < s.len() ==> !p(#[trigger] s[k]),
    ensures
        s.filter(p).len() == 0,
    decreases s.len(),
{
    if s.len() > 0 {
        lemma_filter_none(s.drop_last(), p);
        assert(s.drop_last().push(s.last()) =~= s);
        s.drop_last().lemma_filter_push(s.last(), p);
    }
}

/// Contradiction events are no conflict events.
proof fn lemma_no_conflicts_in_contradictions(traces: Seq<ExecutionTrace>, k: int)
    ensures
        conflict_events(contradictions_upto(traces, k)).len() == 0,
    decreases k,
{
    let pk = |e: DriftEvent| e is AlgebraKernelConflict;
    if k > 0 {
        lemma_no_conflicts_in_contradictions(traces, k - 1);
        let certs = traces[k - 1].certificates@;
        lemma_contradictions_in_kind(certs, certs.len() as int);
        lemma_filter_none(contradictions_in(certs, certs.len() as int), pk);
        Seq::filter_distributes_over_add(contradictions_upto(traces, k - 1), contradictions_in(certs, certs.len() as int), pk);
    } else {
        assert(contradictions_upto(traces, k).filter(pk) =~= Seq::<DriftEvent>::empty());
    }
}

/// Every event of `contradictions_in` is a contradiction.
proof fn lemma_contradictions_in_kind(certs: Seq<TransitionCertificate>, n: int)
    ensures
        forall|k: int| 0 <= k < contradictions_in(certs, n).len() ==> #[trigger] contradictions_in(certs, n)[k] is TraceContradicsKernel,
    decreases n,
{
    if n > 0 {
        lemma_contradictions_in_kind(certs, n - 1);
    }
}

/// Untraced-entry events are no conflict events.
proof fn lemma_no_conflicts_in_untraced(traces: Seq<ExecutionTrace>)
    ensures
        conflict_events(untraced_entries(traces)).len() == 0,
{
    let pk = |e: DriftEvent| e is AlgebraKernelConflict;
    lemma_filter_none(untraced_entries(traces), pk);
}

// ─── DriftMonitor ────────────────────────────────────────────────────────────

/// Accumulates traces and re-runs the drift analysis on demand.
pub struct DriftMonitor {
    synthesizer: TraceSynthesizer,
    last_report: Option<DriftReport>,
    trace_count: u64,
}

impl DriftMonitor {
    /// The number of traces recorded.
    pub closed spec fn spec_trace_count(&self) -> u64 {
        self.trace_count
    }

    /// The synthesizer's observation of a cell.
    pub closed spec fn spec_entry(&self, c: Cell) -> Option<(KernelPhase, u64)> {
        self.synthesizer.spec_entry(c)
    }

    /// The last report produced.
    pub closed spec fn spec_last_report(&self) -> Option<DriftReport> {
        self.last_report
    }

    pub fn new() -> (r: Self)
        ensures
            r.spec_trace_count() == 0,
            r.spec_last_report() is None,
            forall|c: Cell| #[trigger] r.spec_entry(c) is None,
    {
        DriftMonitor { synthesizer: TraceSynthesizer::new(), last_report: None, trace_count: 0 }
    }

    /// Record an execution trace.
    pub fn record(&mut self, trace: &ExecutionTrace)
        requires
            old(self).spec_trace_count() < u64::MAX,
            forall|c: Cell| #[trigger] old(self).spec_entry(c) is Some
                ==> old(self).spec_entry(c).unwrap().1 + trace.certificates@.len() <= u64::MAX,
        ensures
            final(self).spec_trace_count() == old(self).spec_trace_count() + 1,
            final(self).spec_last_report() == old(self).spec_last_report(),
            forall|c: Cell| #[trigger] final(self).spec_entry(c)
                == observe_entry(old(self).spec_entry(c), certs_at(trace.certificates@, c)),
    {
        proof {
            assert forall|c: Cell| #[trigger] old(self).synthesizer.spec_entry(c) is Some
                implies old(self).synthesizer.spec_entry(c).unwrap().1 + trace.certificates@.len() <= u64::MAX by {
                assert(old(self).spec_entry(c) == old(self).synthesizer.spec_entry(c));
            }
        }
        self.synthesizer.observe(trace);
        self.trace_count = self.trace_count + 1;
    }

    /// Run the full drift analysis of the canonical algebra against `traces`.
    pub fn analyze(&mut self, traces: &[ExecutionTrace]) -> (r: &DriftReport)
        ensures
            report_of(
                *r,
                algebra_conflicts(canonical_rules_view()) + contradictions_upto(traces@, traces@.len() as int)
                    + untraced_entries(traces@),
                traced_count(traces@) as usize,
            ),
            final(self).spec_last_report() == Some(*r),
            final(self).spec_trace_count() == old(self).spec_trace_count(),
            forall|c: Cell| #[trigger] final(self).spec_entry(c) == old(self).spec_entry(c),
    {
        let algebra = canonical_constraint_rules();
        let report = DriftDetector::full_report(&algebra, traces);
        self.last_report = Some(report);
        self.last_report.as_ref().unwrap()
    }

    /// The critical check alone: the canonical algebra against the kernel.
    pub fn quick_critical_check(&self) -> (r: DriftReport)
        ensures
            report_of(r, algebra_conflicts(canonical_rules_view()), 0),
    {
        let algebra = canonical_constraint_rules();
        DriftDetector::check_critical_only(&algebra)
    }

    pub fn trace_count(&self) -> (r: u64)
        ensures
            r == self.spec_trace_count(),
    {
        self.trace_count
    }

    pub fn last_report(&self) -> (r: Option<&DriftReport>)
        ensures
            match r {
                Some(x) => self.spec_last_report() == Some(*x),
                None => self.spec_last_report() is None,
            },
    {
        match &self.last_report {
            Some(x) => Some(x),
            None => None,
        }
    }
}

} // verus!
