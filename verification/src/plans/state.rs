//! Authoritative types of a personal trading plan: one plan per account and
//! stock, spanning trading days, advanced only by real fills.
use vstd::prelude::*;

use super::revision::RevisionRecord;
use super::validation::{spec_validate_open, validate_open, PlanError};
use crate::ids::{AccountId, Money, OrderId, PlanId, Side, StockCode};

verus! {

/// Plan target: a share count or a fraction of equity in basis points.
#[derive(Copy, Clone, Debug, PartialEq, Eq, Structural)]
pub enum PlanTarget {
    /// Target share count (positive).
    ShareCount(u32),
    /// Target position, 0..=10000 basis points.
    PositionFractionBp(u32),
}

/// Execution urgency, independent from valuation.
#[derive(Copy, Clone, Debug, PartialEq, Eq, Structural)]
pub enum Urgency {
    Patient,
    Normal,
    Urgent,
}

/// Why a plan was paused.
#[derive(Copy, Clone, Debug, PartialEq, Eq, Structural)]
pub enum PauseReason {
    IntradayDropAcceleration,
    RiskPressure,
    AdverseSelection,
}

/// Why a plan was resumed.
#[derive(Copy, Clone, Debug, PartialEq, Eq, Structural)]
pub enum ResumeReason {
    TriggerCleared,
    OpinionReaffirmed,
}

/// Why a plan was terminated; never used to pass for a real completion.
#[derive(Copy, Clone, Debug, PartialEq, Eq, Structural)]
pub enum TerminationReason {
    HorizonExpired,
    FundsUnavailable,
    Cancelled,
    FilledBeyondTarget,
}

/// Plan status. `Completed` only means that real fills reached a share target.
#[derive(Copy, Clone, Debug, PartialEq, Eq, Structural)]
pub enum PlanStatus {
    Active,
    Paused { reason: PauseReason },
    Completed,
    Terminated { reason: TerminationReason },
}

/// Source of the personal opinion.
#[derive(Copy, Clone, Debug, PartialEq, Eq, Structural)]
pub enum OpinionSource {
    Fundamental,
    Trend,
    PriceVolume,
    Technical,
    Experience,
    Blended,
}

/// Opinion snapshot: blended signal score and its source.
#[derive(Copy, Clone, Debug, PartialEq, Eq, Structural)]
pub struct PlanOpinion {
    pub signal_score_bp: i32,
    pub source: OpinionSource,
}

/// Review thresholds and the baseline of the last review.
#[derive(Copy, Clone, Debug, PartialEq, Eq, Structural)]
pub struct ReviewConditions {
    pub min_signal_delta_bp: i32,
    pub min_price_change_bp: i32,
    pub last_review_signal_score_bp: i32,
    pub last_review_trading_day: u64,
    pub last_review_price: Option<Money>,
    pub last_review_acquired_count: u32,
}

/// Plan policy: fixed game parameters, persisted with the save.
#[derive(Copy, Clone, Debug, PartialEq, Eq, Structural)]
pub struct PlanPolicy {
    /// Threshold on the opposite side that a reversing revision must cross (bp).
    pub reverse_revision_threshold_bp: i32,
    /// Change of the blended opinion that triggers a review (bp).
    pub review_signal_delta_bp: i32,
    /// Price change since the last review that triggers a review (bp).
    pub review_price_change_bp: i32,
}

impl PlanPolicy {
    /// The default policy: 2000 / 1000 / 200 basis points.
    pub fn default_policy() -> (p: PlanPolicy)
        ensures
            p.reverse_revision_threshold_bp == 2000,
            p.review_signal_delta_bp == 1000,
            p.review_price_change_bp == 200,
    {
        PlanPolicy {
            reverse_revision_threshold_bp: 2000,
            review_signal_delta_bp: 1000,
            review_price_change_bp: 200,
        }
    }
}

/// Request to open one plan for one account and stock.
#[derive(Debug, PartialEq, Eq)]
pub struct PlanOpen {
    pub account: AccountId,
    pub code: StockCode,
    pub direction: Side,
    pub target: PlanTarget,
    pub opinion: PlanOpinion,
    /// Confidence, 0..=10000 bp.
    pub confidence_bp: u32,
    pub urgency: Urgency,
    /// Horizon in trading days (at least one).
    pub horizon_trading_days: u32,
    pub created_trading_day: u64,
}

impl Clone for PlanOpen {
    fn clone(&self) -> (r: Self)
        ensures
            r == *self,
    {
        PlanOpen {
            account: self.account,
            code: self.code.clone(),
            direction: self.direction,
            target: self.target,
            opinion: self.opinion,
            confidence_bp: self.confidence_bp,
            urgency: self.urgency,
            horizon_trading_days: self.horizon_trading_days,
            created_trading_day: self.created_trading_day,
        }
    }
}

/// A personal trading plan spanning trading days.
#[derive(Debug, PartialEq, Eq)]
pub struct TradingPlan {
    pub plan_id: PlanId,
    pub account: AccountId,
    pub code: StockCode,
    pub direction: Side,
    pub target: PlanTarget,
    /// Real fills accumulated in the current direction.
    pub filled_qty: u32,
    pub opinion: PlanOpinion,
    pub confidence_bp: u32,
    pub urgency: Urgency,
    pub status: PlanStatus,
    /// Revision version: 1 when opened, +1 per revision.
    pub version: u32,
    pub last_revision: Option<RevisionRecord>,
    pub last_resume: Option<ResumeReason>,
    pub created_trading_day: u64,
    pub horizon_trading_days: u32,
    pub review: ReviewConditions,
    /// Optional link to the current child order; cleared at day end.
    pub active_child_order_id: Option<OrderId>,
    /// Trading day of the last accepted event; never decreases.
    pub last_event_trading_day: u64,
}

impl Clone for TradingPlan {
    fn clone(&self) -> (r: Self)
        ensures
            r == *self,
    {
        TradingPlan {
            plan_id: self.plan_id,
            account: self.account,
            code: self.code.clone(),
            direction: self.direction,
            target: self.target,
            filled_qty: self.filled_qty,
            opinion: self.opinion,
            confidence_bp: self.confidence_bp,
            urgency: self.urgency,
            status: self.status,
            version: self.version,
            last_revision: self.last_revision,
            last_resume: self.last_resume,
            created_trading_day: self.created_trading_day,
            horizon_trading_days: self.horizon_trading_days,
            review: self.review,
            active_child_order_id: self.active_child_order_id,
            last_event_trading_day: self.last_event_trading_day,
        }
    }
}

/// The plan that `from_open` builds from a valid open request.
pub open spec fn spec_plan_from_open(plan_id: PlanId, open: PlanOpen, policy: PlanPolicy) -> TradingPlan {
    TradingPlan {
        plan_id,
        account: open.account,
        code: open.code,
        direction: open.direction,
        target: open.target,
        filled_qty: 0,
        opinion: open.opinion,
        confidence_bp: open.confidence_bp,
        urgency: open.urgency,
        status: PlanStatus::Active,
        version: 1,
        last_revision: None,
        last_resume: None,
        created_trading_day: open.created_trading_day,
        horizon_trading_days: open.horizon_trading_days,
        review: ReviewConditions {
            min_signal_delta_bp: policy.review_signal_delta_bp,
            min_price_change_bp: policy.review_price_change_bp,
            last_review_signal_score_bp: open.opinion.signal_score_bp,
            last_review_trading_day: open.created_trading_day,
            last_review_price: None,
            last_review_acquired_count: 0,
        },
        active_child_order_id: None,
        last_event_trading_day: open.created_trading_day,
    }
}

/// Last trading day covered by the horizon (the creation day counts as one).
pub open spec fn spec_last_valid_day(plan: TradingPlan) -> int {
    plan.created_trading_day + plan.horizon_trading_days - 1
}

/// What is left of a share target; `None` for a fraction target or when the
/// fills have reached the target.
pub open spec fn spec_remaining_share_qty(plan: TradingPlan) -> Option<u32> {
    match plan.target {
        PlanTarget::ShareCount(t) => if plan.filled_qty < t {
            Some((t - plan.filled_qty) as u32)
        } else {
            None
        },
        PlanTarget::PositionFractionBp(_) => None,
    }
}

/// The last valid day, `created + horizon - 1`, is a day the counter can
/// hold: neither below day zero (an empty horizon from day zero) nor beyond
/// `u64::MAX`. An empty horizon from a later day ends the day before it.
pub open spec fn plan_days_fit(plan: TradingPlan) -> bool {
    0 <= spec_last_valid_day(plan) <= u64::MAX
}

/// Completed or terminated.
pub open spec fn spec_is_terminal(status: PlanStatus) -> bool {
    status is Completed || status is Terminated
}

impl TradingPlan {
    /// Builds a plan from an open request after validating its fields.
    pub fn from_open(plan_id: PlanId, open: PlanOpen, policy: &PlanPolicy) -> (r: Result<Self, PlanError>)
        ensures
            r == (match spec_validate_open(open) {
                Some(e) => Err(e),
                None => Ok(spec_plan_from_open(plan_id, open, *policy)),
            }),
    {
        if let Err(e) = validate_open(&open) {
            return Err(e);
        }
        let created = open.created_trading_day;
        let score = open.opinion.signal_score_bp;
        Ok(TradingPlan {
            plan_id,
            account: open.account,
            code: open.code,
            direction: open.direction,
            target: open.target,
            filled_qty: 0,
            opinion: open.opinion,
            confidence_bp: open.confidence_bp,
            urgency: open.urgency,
            status: PlanStatus::Active,
            version: 1,
            last_revision: None,
            last_resume: None,
            created_trading_day: created,
            horizon_trading_days: open.horizon_trading_days,
            review: ReviewConditions {
                min_signal_delta_bp: policy.review_signal_delta_bp,
                min_price_change_bp: policy.review_price_change_bp,
                last_review_signal_score_bp: score,
                last_review_trading_day: created,
                last_review_price: None,
                last_review_acquired_count: 0,
            },
            active_child_order_id: None,
            last_event_trading_day: created,
        })
    }

    /// Last trading day covered by the horizon (the creation day counts as one).
    pub fn last_valid_trading_day(&self) -> (d: u64)
        requires
            plan_days_fit(*self),
        ensures
            d == spec_last_valid_day(*self),
    {
        if self.horizon_trading_days == 0 {
            self.created_trading_day - 1
        } else {
            self.created_trading_day + (self.horizon_trading_days as u64 - 1)
        }
    }

    /// Remaining quantity of a share target; `None` for a fraction target or
    /// when nothing remains (fills have reached the target).
    pub fn remaining_share_qty(&self) -> (r: Option<u32>)
        ensures
            r == spec_remaining_share_qty(*self),
    {
        match self.target {
            PlanTarget::ShareCount(target_qty) => if self.filled_qty < target_qty {
                Some(target_qty - self.filled_qty)
            } else {
                None
            },
            PlanTarget::PositionFractionBp(_) => None,
        }
    }

    /// Completed or terminated.
    pub fn is_terminal(&self) -> (r: bool)
        ensures
            r == spec_is_terminal(self.status),
    {
        match self.status {
            PlanStatus::Completed | PlanStatus::Terminated { .. } => true,
            _ => false,
        }
    }
}

} // verus!
