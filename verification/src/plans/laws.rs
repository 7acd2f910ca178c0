//! Laws of the plan state machine, stated over the transition spec.
use vstd::prelude::*;

use super::book::{lemma_step_frame, spec_step, PlanEvent};
use super::revision::PlanRevision;
use super::state::{
    plan_days_fit, spec_is_terminal, spec_plan_from_open, PlanOpen, PlanPolicy, PlanStatus,
    PlanTarget, TradingPlan,
};
use super::validation::{
    spec_classify_revision, spec_reverse_crosses, spec_validate_open, RevisionOutcome,
};
use crate::ids::PlanId;

verus! {

/// The trading day an event carries.
pub open spec fn event_day(event: PlanEvent) -> u64 {
    match event {
        PlanEvent::ObservedNoChange { trading_day } => trading_day,
        PlanEvent::ChildOrderAccepted { trading_day, .. } => trading_day,
        PlanEvent::ChildOrderCanceled { trading_day, .. } => trading_day,
        PlanEvent::ChildOrderFilled { trading_day, .. } => trading_day,
        PlanEvent::ChildOrderExcessFilled { trading_day, .. } => trading_day,
        PlanEvent::Revised { revision } => revision.trading_day,
        PlanEvent::Paused { trading_day, .. } => trading_day,
        PlanEvent::Resumed { trading_day, .. } => trading_day,
        PlanEvent::Terminated { trading_day, .. } => trading_day,
        PlanEvent::Expired { trading_day } => trading_day,
        PlanEvent::TradingDayEnded { trading_day } => trading_day,
    }
}

/// Share progress is coherent: a completed plan has filled exactly its share
/// target, and a live plan with a share target has not reached it yet.
pub open spec fn progress_ok(plan: TradingPlan) -> bool {
    &&& plan.status == PlanStatus::Completed ==> plan.target == PlanTarget::ShareCount(plan.filled_qty)
    &&& !spec_is_terminal(plan.status) ==> match plan.target {
        PlanTarget::ShareCount(t) => plan.filled_qty < t,
        PlanTarget::PositionFractionBp(_) => true,
    }
}

/// A completed or terminated plan refuses every event and stays exactly as it was.
pub proof fn law_terminal_is_absorbing(plan: TradingPlan, event: PlanEvent, policy: PlanPolicy)
    requires
        plan_days_fit(plan),
        spec_is_terminal(plan.status),
    ensures
        spec_step(plan, event, policy).0 == plan,
        spec_step(plan, event, policy).1 is Err,
{
    lemma_step_frame(plan, event, policy);
}

/// Event time never goes backwards: an accepted event moves the last event
/// day to the event's own day, which is not earlier than before; a refused
/// event leaves it where it was.
pub proof fn law_event_days_monotone(plan: TradingPlan, event: PlanEvent, policy: PlanPolicy)
    requires
        plan_days_fit(plan),
    ensures
        spec_step(plan, event, policy).0.last_event_trading_day >= plan.last_event_trading_day,
        spec_step(plan, event, policy).1 is Ok ==> spec_step(plan, event, policy).0.last_event_trading_day
            == event_day(event),
        spec_step(plan, event, policy).1 is Err ==> spec_step(plan, event, policy).0.last_event_trading_day
            == plan.last_event_trading_day,
{
    lemma_step_frame(plan, event, policy);
}

/// An accepted child order links the child and never advances the fill;
/// only real fills increase `filled_qty`.
pub proof fn law_only_fills_advance_progress(plan: TradingPlan, event: PlanEvent, policy: PlanPolicy)
    requires
        plan_days_fit(plan),
    ensures
        event is ChildOrderAccepted ==> spec_step(plan, event, policy).0.filled_qty == plan.filled_qty,
        spec_step(plan, event, policy).0.filled_qty > plan.filled_qty ==> (event is ChildOrderFilled
            || event is ChildOrderExcessFilled),
{
    lemma_step_frame(plan, event, policy);
    match event {
        PlanEvent::Revised { revision } => {
            let c = spec_classify_revision(plan, revision, policy);
            if c is Ok {
                match c->Ok_0 {
                    RevisionOutcome::Forward => {},
                    RevisionOutcome::ReverseRestart => {},
                    RevisionOutcome::CompleteNow => {},
                    RevisionOutcome::Terminate(_) => {},
                }
            }
        },
        _ => {},
    }
}

/// The version counts applied revisions: a successful revision adds one,
/// every other outcome leaves it unchanged.
pub proof fn law_version_counts_revisions(plan: TradingPlan, event: PlanEvent, policy: PlanPolicy)
    requires
        plan_days_fit(plan),
    ensures
        (event is Revised && spec_step(plan, event, policy).1 is Ok) ==> spec_step(
            plan,
            event,
            policy,
        ).0.version == plan.version + 1,
        !(event is Revised && spec_step(plan, event, policy).1 is Ok) ==> spec_step(
            plan,
            event,
            policy,
        ).0.version == plan.version,
{
    lemma_step_frame(plan, event, policy);
    match event {
        PlanEvent::Revised { revision } => {
            let c = spec_classify_revision(plan, revision, policy);
            if c is Ok {
                match c->Ok_0 {
                    RevisionOutcome::Forward => {},
                    RevisionOutcome::ReverseRestart => {},
                    RevisionOutcome::CompleteNow => {},
                    RevisionOutcome::Terminate(_) => {},
                }
            }
        },
        _ => {},
    }
}

/// Hysteresis: a successful revision that flips the direction carries a
/// score across the opposite threshold and restarts progress from zero
/// with no child order linked.
pub proof fn law_reversal_crosses_threshold(plan: TradingPlan, revision: PlanRevision, policy: PlanPolicy)
    requires
        plan_days_fit(plan),
        revision.direction != plan.direction,
        spec_step(plan, PlanEvent::Revised { revision }, policy).1 is Ok,
    ensures
        spec_reverse_crosses(
            plan.direction,
            revision.direction,
            revision.opinion.signal_score_bp,
            policy.reverse_revision_threshold_bp,
        ),
        spec_step(plan, PlanEvent::Revised { revision }, policy).0.filled_qty == 0,
        spec_step(plan, PlanEvent::Revised { revision }, policy).0.active_child_order_id is None,
        spec_step(plan, PlanEvent::Revised { revision }, policy).0.direction == revision.direction,
{
}

/// A newly opened plan is active, has no fill and is coherent.
pub proof fn law_open_plan_is_coherent(plan_id: PlanId, open: PlanOpen, policy: PlanPolicy)
    requires
        spec_validate_open(open) is None,
    ensures
        progress_ok(spec_plan_from_open(plan_id, open, policy)),
        spec_plan_from_open(plan_id, open, policy).status == PlanStatus::Active,
        spec_plan_from_open(plan_id, open, policy).filled_qty == 0,
        spec_plan_from_open(plan_id, open, policy).version == 1,
{
}

/// Every transition keeps share progress coherent: `Completed` is only ever
/// reached by filling exactly the share target, and a live plan never holds
/// a fill at or above its share target.
pub proof fn law_progress_preserved(plan: TradingPlan, event: PlanEvent, policy: PlanPolicy)
    requires
        plan_days_fit(plan),
        progress_ok(plan),
    ensures
        progress_ok(spec_step(plan, event, policy).0),
{
    lemma_step_frame(plan, event, policy);
    match event {
        PlanEvent::Revised { revision } => {
            let c = spec_classify_revision(plan, revision, policy);
            if c is Ok {
                match c->Ok_0 {
                    RevisionOutcome::Forward => {},
                    RevisionOutcome::ReverseRestart => {},
                    RevisionOutcome::CompleteNow => {},
                    RevisionOutcome::Terminate(_) => {},
                }
            }
        },
        _ => {},
    }
}

} // verus!
