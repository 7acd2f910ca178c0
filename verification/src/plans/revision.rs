//! Plan event transitions: observation, child acceptance and cancellation,
//! real fills, versioned revisions (with the reversal threshold), pause and
//! resume, expiry and day end. Each transition is specified by a spec
//! function giving the plan after the attempt and the outcome.
use vstd::prelude::*;

use super::state::{
    plan_days_fit, spec_is_terminal, spec_last_valid_day, PauseReason, PlanOpinion, PlanPolicy, PlanStatus,
    PlanTarget, ResumeReason, TerminationReason, TradingPlan, Urgency,
};
use super::validation::{
    classify_revision, spec_classify_revision, spec_validate_fill_qty, validate_fill_qty,
    PlanError, RevisionOutcome,
};
use crate::ids::{OrderId, Side};

verus! {

/// Why a revision happened.
#[derive(Copy, Clone, Debug, PartialEq, Eq, Structural)]
pub enum RevisionReason {
    SignalShift,
    PriceMove,
    ConstraintsChanged,
    RiskTriggered,
    HorizonReview,
    NewInformation,
}

/// Record of an applied revision: version, reason and trading day.
#[derive(Copy, Clone, Debug, PartialEq, Eq, Structural)]
pub struct RevisionRecord {
    pub version: u32,
    pub reason: RevisionReason,
    pub trading_day: u64,
}

/// Revision request. `below_filled_rationale` is the termination reason that a
/// same-direction revision below the filled quantity must carry.
#[derive(Copy, Clone, Debug, PartialEq, Eq, Structural)]
pub struct PlanRevision {
    pub reason: RevisionReason,
    pub trading_day: u64,
    pub direction: Side,
    pub target: PlanTarget,
    pub opinion: PlanOpinion,
    pub confidence_bp: u32,
    pub urgency: Urgency,
    pub below_filled_rationale: Option<TerminationReason>,
}

/// Guard shared by all events: not terminal, not beyond the horizon (unless
/// the event is the explicit expiry), and not earlier than the last event.
pub open spec fn spec_event_check(
    plan: TradingPlan,
    event: &'static str,
    trading_day: u64,
    allow_beyond_horizon: bool,
) -> Option<PlanError> {
    if spec_is_terminal(plan.status) {
        Some(PlanError::InvalidTransition { plan_id: plan.plan_id, from: plan.status, event })
    } else if !allow_beyond_horizon && trading_day > spec_last_valid_day(plan) {
        Some(
            PlanError::EventBeyondHorizon {
                plan_id: plan.plan_id,
                event,
                event_trading_day: trading_day,
                last_valid_trading_day: spec_last_valid_day(plan) as u64,
            },
        )
    } else if trading_day < plan.last_event_trading_day {
        Some(
            PlanError::EventTimeWentBackwards {
                plan_id: plan.plan_id,
                event,
                event_trading_day: trading_day,
                last_event_trading_day: plan.last_event_trading_day,
            },
        )
    } else {
        None
    }
}

/// The plan with its last event day moved to `day`.
pub open spec fn at_day(plan: TradingPlan, day: u64) -> TradingPlan {
    TradingPlan { last_event_trading_day: day, ..plan }
}

pub open spec fn spec_observe(plan: TradingPlan, day: u64) -> (TradingPlan, Result<(), PlanError>) {
    match spec_event_check(plan, "observe", day, false) {
        Some(e) => (plan, Err(e)),
        None => (at_day(plan, day), Ok(())),
    }
}

pub open spec fn spec_child_accepted(plan: TradingPlan, order_id: OrderId, day: u64) -> (
    TradingPlan,
    Result<(), PlanError>,
) {
    match spec_event_check(plan, "child-order-accepted", day, false) {
        Some(e) => (plan, Err(e)),
        None => (TradingPlan { active_child_order_id: Some(order_id), ..at_day(plan, day) }, Ok(())),
    }
}

/// The fill or cancellation must come from the linked child order.
pub open spec fn spec_linked_check(plan: TradingPlan, order_id: OrderId) -> Option<PlanError> {
    if plan.active_child_order_id == Some(order_id) {
        None
    } else {
        Some(
            PlanError::FillFromUnknownChildOrder {
                plan_id: plan.plan_id,
                order_id,
                linked_order_id: plan.active_child_order_id,
            },
        )
    }
}

pub open spec fn spec_child_canceled(plan: TradingPlan, order_id: OrderId, day: u64) -> (
    TradingPlan,
    Result<(), PlanError>,
) {
    match spec_event_check(plan, "child-order-canceled", day, false) {
        Some(e) => (plan, Err(e)),
        None => match spec_linked_check(plan, order_id) {
            Some(e) => (plan, Err(e)),
            None => (TradingPlan { active_child_order_id: None, ..at_day(plan, day) }, Ok(())),
        },
    }
}

/// Status after a normal fill that brought the cumulative fill to `new_filled`.
pub open spec fn status_after_fill(plan: TradingPlan, new_filled: int) -> PlanStatus {
    match plan.target {
        PlanTarget::ShareCount(t) => if new_filled == t {
            PlanStatus::Completed
        } else {
            plan.status
        },
        PlanTarget::PositionFractionBp(_) => plan.status,
    }
}

pub open spec fn spec_real_fill(
    plan: TradingPlan,
    order_id: OrderId,
    qty: u32,
    child_complete: bool,
    day: u64,
) -> (TradingPlan, Result<(), PlanError>) {
    if spec_event_check(plan, "fill", day, false) is Some {
        (plan, Err(spec_event_check(plan, "fill", day, false).unwrap()))
    } else if qty == 0 {
        (plan, Err(PlanError::ZeroFillQuantity { plan_id: plan.plan_id }))
    } else if spec_linked_check(plan, order_id) is Some {
        (plan, Err(spec_linked_check(plan, order_id).unwrap()))
    } else if spec_validate_fill_qty(plan, qty) is Some {
        (plan, Err(spec_validate_fill_qty(plan, qty).unwrap()))
    } else if plan.filled_qty + qty > u32::MAX {
        (plan, Err(PlanError::QuantityOverflow { plan_id: plan.plan_id }))
    } else {
        (
            TradingPlan {
                filled_qty: (plan.filled_qty + qty) as u32,
                status: status_after_fill(plan, plan.filled_qty + qty),
                active_child_order_id: if child_complete {
                    None
                } else {
                    plan.active_child_order_id
                },
                ..at_day(plan, day)
            },
            Ok(()),
        )
    }
}

pub open spec fn spec_excess_fill(plan: TradingPlan, order_id: OrderId, qty: u32, day: u64) -> (
    TradingPlan,
    Result<(), PlanError>,
) {
    if spec_event_check(plan, "excess-fill", day, false) is Some {
        (plan, Err(spec_event_check(plan, "excess-fill", day, false).unwrap()))
    } else if qty == 0 {
        (plan, Err(PlanError::ZeroFillQuantity { plan_id: plan.plan_id }))
    } else if spec_linked_check(plan, order_id) is Some {
        (plan, Err(spec_linked_check(plan, order_id).unwrap()))
    } else {
        match plan.target {
            PlanTarget::PositionFractionBp(_) => (
                plan,
                Err(PlanError::FractionTargetHasNoShareExcess { plan_id: plan.plan_id }),
            ),
            PlanTarget::ShareCount(target_qty) => if plan.filled_qty + qty > u32::MAX {
                (plan, Err(PlanError::QuantityOverflow { plan_id: plan.plan_id }))
            } else if plan.filled_qty + qty <= target_qty {
                (
                    plan,
                    Err(
                        PlanError::FillNotExcessive {
                            plan_id: plan.plan_id,
                            filled_qty: plan.filled_qty,
                            fill_qty: qty,
                            target_qty,
                        },
                    ),
                )
            } else {
                (
                    TradingPlan {
                        filled_qty: (plan.filled_qty + qty) as u32,
                        status: PlanStatus::Terminated {
                            reason: TerminationReason::FilledBeyondTarget,
                        },
                        ..at_day(plan, day)
                    },
                    Ok(()),
                )
            },
        }
    }
}

pub open spec fn spec_terminate(plan: TradingPlan, reason: TerminationReason, day: u64) -> (
    TradingPlan,
    Result<(), PlanError>,
) {
    match spec_event_check(plan, "terminate", day, false) {
        Some(e) => (plan, Err(e)),
        None => (TradingPlan { status: PlanStatus::Terminated { reason }, ..at_day(plan, day) }, Ok(())),
    }
}

/// The plan after the revision's outcome and its new fields, before the version bump.
pub open spec fn revised_fields(plan: TradingPlan, revision: PlanRevision, outcome: RevisionOutcome) -> TradingPlan {
    let base = match outcome {
        RevisionOutcome::Forward => plan,
        RevisionOutcome::ReverseRestart => TradingPlan {
            filled_qty: 0,
            active_child_order_id: None,
            ..plan
        },
        RevisionOutcome::CompleteNow => TradingPlan { status: PlanStatus::Completed, ..plan },
        RevisionOutcome::Terminate(reason) => TradingPlan {
            status: PlanStatus::Terminated { reason },
            ..plan
        },
    };
    TradingPlan {
        direction: revision.direction,
        target: revision.target,
        opinion: revision.opinion,
        confidence_bp: revision.confidence_bp,
        urgency: revision.urgency,
        ..base
    }
}

pub open spec fn spec_revision(plan: TradingPlan, revision: PlanRevision, policy: PlanPolicy) -> (
    TradingPlan,
    Result<(), PlanError>,
) {
    if spec_event_check(plan, "revision", revision.trading_day, false) is Some {
        (plan, Err(spec_event_check(plan, "revision", revision.trading_day, false).unwrap()))
    } else if spec_classify_revision(plan, revision, policy) is Err {
        (plan, Err(spec_classify_revision(plan, revision, policy)->Err_0))
    } else {
        let revised = revised_fields(plan, revision, spec_classify_revision(plan, revision, policy)->Ok_0);
        if plan.version == u32::MAX {
            (revised, Err(PlanError::VersionOverflow { plan_id: plan.plan_id }))
        } else {
            let version = (plan.version + 1) as u32;
            (
                TradingPlan {
                    version,
                    last_revision: Some(
                        RevisionRecord {
                            version,
                            reason: revision.reason,
                            trading_day: revision.trading_day,
                        },
                    ),
                    review: super::state::ReviewConditions {
                        last_review_signal_score_bp: revision.opinion.signal_score_bp,
                        last_review_trading_day: revision.trading_day,
                        ..revised.review
                    },
                    last_event_trading_day: revision.trading_day,
                    ..revised
                },
                Ok(()),
            )
        }
    }
}

pub open spec fn spec_pause(plan: TradingPlan, reason: PauseReason, day: u64) -> (
    TradingPlan,
    Result<(), PlanError>,
) {
    if spec_event_check(plan, "pause", day, false) is Some {
        (plan, Err(spec_event_check(plan, "pause", day, false).unwrap()))
    } else if plan.status != PlanStatus::Active {
        (plan, Err(PlanError::InvalidTransition { plan_id: plan.plan_id, from: plan.status, event: "pause" }))
    } else {
        (TradingPlan { status: PlanStatus::Paused { reason }, ..at_day(plan, day) }, Ok(()))
    }
}

pub open spec fn spec_resume(plan: TradingPlan, reason: ResumeReason, day: u64) -> (
    TradingPlan,
    Result<(), PlanError>,
) {
    if spec_event_check(plan, "resume", day, false) is Some {
        (plan, Err(spec_event_check(plan, "resume", day, false).unwrap()))
    } else if !(plan.status is Paused) {
        (plan, Err(PlanError::InvalidTransition { plan_id: plan.plan_id, from: plan.status, event: "resume" }))
    } else {
        (
            TradingPlan { status: PlanStatus::Active, last_resume: Some(reason), ..at_day(plan, day) },
            Ok(()),
        )
    }
}

pub open spec fn spec_expire(plan: TradingPlan, day: u64) -> (TradingPlan, Result<(), PlanError>) {
    if spec_event_check(plan, "horizon-expiry", day, true) is Some {
        (plan, Err(spec_event_check(plan, "horizon-expiry", day, true).unwrap()))
    } else if day <= spec_last_valid_day(plan) {
        (
            plan,
            Err(
                PlanError::ExpireBeforeHorizonEnd {
                    plan_id: plan.plan_id,
                    trading_day: day,
                    last_valid_trading_day: spec_last_valid_day(plan) as u64,
                },
            ),
        )
    } else {
        (
            TradingPlan {
                status: PlanStatus::Terminated { reason: TerminationReason::HorizonExpired },
                active_child_order_id: None,
                ..at_day(plan, day)
            },
            Ok(()),
        )
    }
}

pub open spec fn spec_day_end(plan: TradingPlan, day: u64) -> (TradingPlan, Result<(), PlanError>) {
    match spec_event_check(plan, "day-end", day, false) {
        Some(e) => (plan, Err(e)),
        None => (
            TradingPlan {
                active_child_order_id: None,
                status: if day >= spec_last_valid_day(plan) {
                    PlanStatus::Terminated { reason: TerminationReason::HorizonExpired }
                } else {
                    plan.status
                },
                ..at_day(plan, day)
            },
            Ok(()),
        ),
    }
}

impl TradingPlan {
    /// Shared event guard.
    pub fn ensure_event_allowed(
        &self,
        event: &'static str,
        trading_day: u64,
        allow_beyond_horizon: bool,
    ) -> (r: Result<(), PlanError>)
        requires
            plan_days_fit(*self),
        ensures
            r == (match spec_event_check(*self, event, trading_day, allow_beyond_horizon) {
                Some(e) => Err(e),
                None => Ok(()),
            }),
    {
        if self.is_terminal() {
            return Err(PlanError::InvalidTransition { plan_id: self.plan_id, from: self.status, event });
        }
        let created = self.created_trading_day;
        let horizon = self.horizon_trading_days as u64;
        if !allow_beyond_horizon && trading_day >= created && trading_day - created >= horizon {
            return Err(
                PlanError::EventBeyondHorizon {
                    plan_id: self.plan_id,
                    event,
                    event_trading_day: trading_day,
                    last_valid_trading_day: self.last_valid_trading_day(),
                },
            );
        }
        if trading_day < self.last_event_trading_day {
            return Err(
                PlanError::EventTimeWentBackwards {
                    plan_id: self.plan_id,
                    event,
                    event_trading_day: trading_day,
                    last_event_trading_day: self.last_event_trading_day,
                },
            );
        }
        Ok(())
    }

    /// Quiet observation: direction, target and progress all stay.
    pub fn observe_no_change(&mut self, trading_day: u64) -> (r: Result<(), PlanError>)
        requires
            plan_days_fit(*old(self)),
        ensures
            (*final(self), r) == spec_observe(*old(self), trading_day),
    {
        self.ensure_event_allowed("observe", trading_day, false)?;
        self.last_event_trading_day = trading_day;
        Ok(())
    }

    /// A child order was accepted by the router: only links it, never advances fills.
    pub fn record_child_order_accepted(&mut self, order_id: OrderId, trading_day: u64) -> (r: Result<
        (),
        PlanError,
    >)
        requires
            plan_days_fit(*old(self)),
        ensures
            (*final(self), r) == spec_child_accepted(*old(self), order_id, trading_day),
    {
        self.ensure_event_allowed("child-order-accepted", trading_day, false)?;
        self.active_child_order_id = Some(order_id);
        self.last_event_trading_day = trading_day;
        Ok(())
    }

    /// The book canceled the unfilled remainder of the linked child: the link ends.
    pub fn record_child_order_canceled(&mut self, order_id: OrderId, trading_day: u64) -> (r: Result<
        (),
        PlanError,
    >)
        requires
            plan_days_fit(*old(self)),
        ensures
            (*final(self), r) == spec_child_canceled(*old(self), order_id, trading_day),
    {
        self.ensure_event_allowed("child-order-canceled", trading_day, false)?;
        self.require_linked_child(order_id)?;
        self.active_child_order_id = None;
        self.last_event_trading_day = trading_day;
        Ok(())
    }

    pub fn require_linked_child(&self, order_id: OrderId) -> (r: Result<(), PlanError>)
        ensures
            r == (match spec_linked_check(*self, order_id) {
                Some(e) => Err(e),
                None => Ok(()),
            }),
    {
        match self.active_child_order_id {
            Some(linked) => if linked == order_id {
                Ok(())
            } else {
                Err(
                    PlanError::FillFromUnknownChildOrder {
                        plan_id: self.plan_id,
                        order_id,
                        linked_order_id: Some(linked),
                    },
                )
            },
            None => Err(
                PlanError::FillFromUnknownChildOrder {
                    plan_id: self.plan_id,
                    order_id,
                    linked_order_id: None,
                },
            ),
        }
    }

    /// A real fill: the only path that advances `filled_qty`; reaching a share
    /// target is a real completion. A complete child ends the child link.
    pub fn record_real_fill(
        &mut self,
        order_id: OrderId,
        qty: u32,
        child_complete: bool,
        trading_day: u64,
    ) -> (r: Result<(), PlanError>)
        requires
            plan_days_fit(*old(self)),
        ensures
            (*final(self), r) == spec_real_fill(*old(self), order_id, qty, child_complete, trading_day),
    {
        self.ensure_event_allowed("fill", trading_day, false)?;
        if qty == 0 {
            return Err(PlanError::ZeroFillQuantity { plan_id: self.plan_id });
        }
        self.require_linked_child(order_id)?;
        validate_fill_qty(self, qty)?;
        let new_filled = match self.filled_qty.checked_add(qty) {
            Some(v) => v,
            None => {
                return Err(PlanError::QuantityOverflow { plan_id: self.plan_id });
            },
        };
        self.filled_qty = new_filled;
        self.last_event_trading_day = trading_day;
        if let PlanTarget::ShareCount(target_qty) = self.target {
            if new_filled == target_qty {
                self.status = PlanStatus::Completed;
            }
        }
        if child_complete {
            self.active_child_order_id = None;
        }
        Ok(())
    }

    /// A real fill beyond the share target: booked as is, then terminated explicitly.
    pub fn record_excess_fill(&mut self, order_id: OrderId, qty: u32, trading_day: u64) -> (r: Result<
        (),
        PlanError,
    >)
        requires
            plan_days_fit(*old(self)),
        ensures
            (*final(self), r) == spec_excess_fill(*old(self), order_id, qty, trading_day),
    {
        self.ensure_event_allowed("excess-fill", trading_day, false)?;
        if qty == 0 {
            return Err(PlanError::ZeroFillQuantity { plan_id: self.plan_id });
        }
        self.require_linked_child(order_id)?;
        let target_qty = match self.target {
            PlanTarget::ShareCount(target_qty) => target_qty,
            PlanTarget::PositionFractionBp(_) => {
                return Err(PlanError::FractionTargetHasNoShareExcess { plan_id: self.plan_id });
            },
        };
        let new_filled = match self.filled_qty.checked_add(qty) {
            Some(v) => v,
            None => {
                return Err(PlanError::QuantityOverflow { plan_id: self.plan_id });
            },
        };
        if new_filled <= target_qty {
            return Err(
                PlanError::FillNotExcessive {
                    plan_id: self.plan_id,
                    filled_qty: self.filled_qty,
                    fill_qty: qty,
                    target_qty,
                },
            );
        }
        self.filled_qty = new_filled;
        self.status = PlanStatus::Terminated { reason: TerminationReason::FilledBeyondTarget };
        self.last_event_trading_day = trading_day;
        Ok(())
    }

    /// Explicit termination (cancel, no funds, ...): Active and Paused plans alike.
    pub fn terminate(&mut self, reason: TerminationReason, trading_day: u64) -> (r: Result<(), PlanError>)
        requires
            plan_days_fit(*old(self)),
        ensures
            (*final(self), r) == spec_terminate(*old(self), reason, trading_day),
    {
        self.ensure_event_allowed("terminate", trading_day, false)?;
        self.status = PlanStatus::Terminated { reason };
        self.last_event_trading_day = trading_day;
        Ok(())
    }
}

/// Applies one revision: classified by the pure rules, then landed.
pub fn apply_revision(plan: &mut TradingPlan, revision: &PlanRevision, policy: &PlanPolicy) -> (r:
    Result<(), PlanError>)
    requires
        plan_days_fit(*old(plan)),
    ensures
        (*final(plan), r) == spec_revision(*old(plan), *revision, *policy),
{
    plan.ensure_event_allowed("revision", revision.trading_day, false)?;
    let outcome = classify_revision(plan, revision, policy)?;
    match outcome {
        RevisionOutcome::Forward => {},
        RevisionOutcome::ReverseRestart => {
            plan.filled_qty = 0;
            plan.active_child_order_id = None;
        },
        RevisionOutcome::CompleteNow => {
            plan.status = PlanStatus::Completed;
        },
        RevisionOutcome::Terminate(reason) => {
            plan.status = PlanStatus::Terminated { reason };
        },
    }
    plan.direction = revision.direction;
    plan.target = revision.target;
    plan.opinion = revision.opinion;
    plan.confidence_bp = revision.confidence_bp;
    plan.urgency = revision.urgency;
    if plan.version == u32::MAX {
        return Err(PlanError::VersionOverflow { plan_id: plan.plan_id });
    }
    plan.version = plan.version + 1;
    plan.last_revision = Some(
        RevisionRecord {
            version: plan.version,
            reason: revision.reason,
            trading_day: revision.trading_day,
        },
    );
    plan.review.last_review_signal_score_bp = revision.opinion.signal_score_bp;
    plan.review.last_review_trading_day = revision.trading_day;
    plan.last_event_trading_day = revision.trading_day;
    Ok(())
}

/// Pause: only an Active plan, always with a reason.
pub fn pause(plan: &mut TradingPlan, reason: PauseReason, trading_day: u64) -> (r: Result<(), PlanError>)
    requires
        plan_days_fit(*old(plan)),
    ensures
        (*final(plan), r) == spec_pause(*old(plan), reason, trading_day),
{
    plan.ensure_event_allowed("pause", trading_day, false)?;
    if plan.status != PlanStatus::Active {
        return Err(PlanError::InvalidTransition { plan_id: plan.plan_id, from: plan.status, event: "pause" });
    }
    plan.status = PlanStatus::Paused { reason };
    plan.last_event_trading_day = trading_day;
    Ok(())
}

/// Resume: only a Paused plan, always with a reason.
pub fn resume(plan: &mut TradingPlan, reason: ResumeReason, trading_day: u64) -> (r: Result<(), PlanError>)
    requires
        plan_days_fit(*old(plan)),
    ensures
        (*final(plan), r) == spec_resume(*old(plan), reason, trading_day),
{
    plan.ensure_event_allowed("resume", trading_day, false)?;
    let paused = match plan.status {
        PlanStatus::Paused { .. } => true,
        _ => false,
    };
    if !paused {
        return Err(PlanError::InvalidTransition { plan_id: plan.plan_id, from: plan.status, event: "resume" });
    }
    plan.status = PlanStatus::Active;
    plan.last_resume = Some(reason);
    plan.last_event_trading_day = trading_day;
    Ok(())
}

/// Explicit expiry: accepted only strictly after the last valid day.
pub fn expire(plan: &mut TradingPlan, trading_day: u64) -> (r: Result<(), PlanError>)
    requires
        plan_days_fit(*old(plan)),
    ensures
        (*final(plan), r) == spec_expire(*old(plan), trading_day),
{
    plan.ensure_event_allowed("horizon-expiry", trading_day, true)?;
    let created = plan.created_trading_day;
    let horizon = plan.horizon_trading_days as u64;
    if trading_day < created || trading_day - created < horizon {
        return Err(
            PlanError::ExpireBeforeHorizonEnd {
                plan_id: plan.plan_id,
                trading_day,
                last_valid_trading_day: plan.last_valid_trading_day(),
            },
        );
    }
    plan.status = PlanStatus::Terminated { reason: TerminationReason::HorizonExpired };
    plan.active_child_order_id = None;
    plan.last_event_trading_day = trading_day;
    Ok(())
}

/// Day end: only the child lifecycle ends; the day end covering the last
/// valid day also expires the plan.
pub fn end_of_trading_day(plan: &mut TradingPlan, trading_day: u64) -> (r: Result<(), PlanError>)
    requires
        plan_days_fit(*old(plan)),
    ensures
        (*final(plan), r) == spec_day_end(*old(plan), trading_day),
{
    plan.ensure_event_allowed("day-end", trading_day, false)?;
    plan.active_child_order_id = None;
    if trading_day >= plan.last_valid_trading_day() {
        plan.status = PlanStatus::Terminated { reason: TerminationReason::HorizonExpired };
    }
    plan.last_event_trading_day = trading_day;
    Ok(())
}

} // verus!
