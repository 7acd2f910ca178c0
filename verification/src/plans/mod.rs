//! Personal trading plans that span trading days: a pure state machine
//! whose transitions are deterministic functions of (state, event), plus the
//! budget allocation, candidate scoring, urgency and quoting policies.
pub mod revision;
pub mod state;
pub mod validation;
pub mod book;
pub mod laws;
pub mod urgency;
pub mod quote_policy;
pub mod allocation;
pub mod candidates;
pub mod targets;
pub mod experience_read;
