//! The trading session's own rules that stand apart from its orchestration:
//! market facts, the call auction, execution bookkeeping, NPC order handling
//! and the civil clock.
pub mod market;
pub mod auction;
pub mod execution;
pub mod civil_date;
pub mod civil_clock;
pub mod events;
pub mod audit;
pub mod company_operations;
pub mod company_figures;
pub mod remainders;
pub mod disclosures;
pub mod reservations;
pub mod reconciliation;
pub mod decision_chain;
pub mod parent_orders;
pub mod auction_routing;
pub mod auction_match;
pub mod quote_lifetime;
pub mod attention_queue;
pub mod preset_candles;
pub mod valuation;
pub mod setup;
pub mod plan_lifecycle;
pub mod budget;
