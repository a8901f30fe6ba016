# delphos

The DELPHOS cognition layer of BKG as a verified library: the kernel's
transition function and effect map, the constraint algebra over its
(phase, input) cells and the rules that simplify, synthesize and weigh it,
the hash-chained event ledger, the validation pipeline and the realm that
commits events, realm state with its projections, snapshots and replay,
the BQL parser and planner, schemas, the protocol's method names, projects
and provider routing.

- `src/` — the library. Every function has a contract that Verus proves;
  the public `lemma_*` proof functions state the library's laws (the
  canonical rules and the rule engine reproduce δ on all 522 cells, replay
  rebuilds the same state, the ledger chain is valid, a failed submission
  changes nothing, synthesized rules never contradict δ, a critical rule is
  never removed, ...). `src/alignment.rs` holds the cell-by-cell proofs
  and takes most of the verification time.
  `src/consistency.rs` proves the canonical rules consistent and acyclic.
- `tests/` — concrete scenarios for the library.
- `app/` — what Verus does not take: the floating-point measures (entropy,
  growth fractions, semantic weights, competition costs), query execution
  over JSON with float comparison, serde forms of the library's records,
  and the HTTP call to inference providers.

Not included: the realm router, genesis, the causal-contract validator and
the agent bridge's process handling. They are built on the workspace crates
`bkg_core`, `bkg_contracts`, `bkg_event`, `bkg_session` and `bkg_agents`,
which this crate does not have.
