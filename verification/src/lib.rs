//! The DELPHOS cognition kernel: a formally specified Mealy machine, the
//! constraint algebra that describes its transition function, and the
//! proof-carrying traces, checks and reports built on top of it.

pub mod kernel_state;
pub mod cells;
pub mod constraint_algebra;
pub mod rule_engine;
pub mod effect_contract;
pub mod realm_id;
pub mod proof_certificate;
pub mod counterfactual;
pub mod semantic_weight;
pub mod text;
pub mod algebra_stability;
pub mod trace_synthesizer;
pub mod specification_drift;
pub mod kernel_machine;
pub mod ids;
pub mod schema;
pub mod protocol;
pub mod projection_contract;
pub mod specification_entropy;
pub mod rule_simplifier;
pub mod query;
pub mod query_parser;
pub mod event_ledger;
pub mod arbitrator;
pub mod pipeline;
pub mod text_map;
pub mod realm_state;
pub mod transition;
pub mod invariants;
pub mod reducer;
pub mod snapshot;
pub mod mutation;
pub mod projection;
pub mod reconciliation;
pub mod projection_view;
pub mod state_transition;
pub mod realm;
pub mod project;
pub mod router;
pub mod inference;
pub mod semantic_growth;
pub mod counterfactual_competition;
pub mod bridge;
pub mod json;
pub mod alignment;
pub mod consistency;
