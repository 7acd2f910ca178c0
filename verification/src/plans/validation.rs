//! Pure validation rules of the plan contract and its typed errors.
//!
//! Every rule is a pure function of state and event: any rejection is an
//! explicit [`PlanError`], never a silent fallback.
use vstd::prelude::*;

use super::revision::PlanRevision;
use super::state::{
    PlanOpen, PlanOpinion, PlanPolicy, PlanStatus, PlanTarget, TerminationReason, TradingPlan,
};
use crate::ids::{AccountId, OrderId, PlanId, Side, StockCode};

verus! {

/// Why a restored plan book is inconsistent.
#[derive(Debug, PartialEq, Eq)]
pub enum SaveInconsistency {
    /// A plan is stored under a key other than its own id.
    KeyMismatch { key: PlanId, plan_id: PlanId },
    /// The review baseline of a plan is invalid.
    InvalidReviewBaseline { plan_id: PlanId },
    /// A plan id is not below the next plan sequence.
    IdNotBelowNextSeq { plan_id: PlanId, next_plan_seq: u64 },
    /// Two non-terminal plans exist for one account and stock.
    TwoActivePlans { account: AccountId, code: StockCode },
    /// A review recorded a nonpositive price.
    NonPositiveReviewPrice { plan_id: PlanId },
    /// Saved entries are not in strictly ascending key order.
    KeysNotAscending { key: PlanId },
}

/// Failure of a plan operation, with its full context.
#[derive(Debug, PartialEq, Eq)]
pub enum PlanError {
    UnknownPlan { plan_id: PlanId },
    DuplicateActivePlan { account: AccountId, code: StockCode },
    InvalidTarget { reason: &'static str },
    InvalidConfidenceBp { value: u32 },
    InvalidSignalScoreBp { value: i32 },
    InvalidHorizonDays { value: u32 },
    InvalidPolicyThreshold { field: &'static str, value: i32 },
    ZeroFillQuantity { plan_id: PlanId },
    FillFromUnknownChildOrder { plan_id: PlanId, order_id: OrderId, linked_order_id: Option<OrderId> },
    FillExceedsTarget { plan_id: PlanId, filled_qty: u32, fill_qty: u32, target_qty: u32 },
    FillNotExcessive { plan_id: PlanId, filled_qty: u32, fill_qty: u32, target_qty: u32 },
    FractionTargetHasNoShareExcess { plan_id: PlanId },
    QuantityOverflow { plan_id: PlanId },
    VersionOverflow { plan_id: PlanId },
    PlanSequenceExhausted,
    ReverseRevisionBelowThreshold { plan_id: PlanId, score_bp: i32, required_threshold_bp: i32 },
    RevisionBelowFilledRequiresRationale { plan_id: PlanId, filled_qty: u32, new_target_qty: u32 },
    UnchangedRevision { plan_id: PlanId },
    EventBeyondHorizon {
        plan_id: PlanId,
        event: &'static str,
        event_trading_day: u64,
        last_valid_trading_day: u64,
    },
    EventTimeWentBackwards {
        plan_id: PlanId,
        event: &'static str,
        event_trading_day: u64,
        last_event_trading_day: u64,
    },
    InvalidTransition { plan_id: PlanId, from: PlanStatus, event: &'static str },
    ExpireBeforeHorizonEnd { plan_id: PlanId, trading_day: u64, last_valid_trading_day: u64 },
    SaveInconsistent { detail: SaveInconsistency },
}

/// Hysteresis: a revision that flips direction must cross the opposite threshold.
pub open spec fn spec_reverse_crosses(old: Side, new: Side, score_bp: i32, threshold_bp: i32) -> bool {
    old == new || (match new {
        Side::Buy => score_bp >= threshold_bp,
        Side::Sell => score_bp <= -threshold_bp,
    })
}

/// A revision that flips direction must push the blended score across the
/// threshold on the new side; same-direction revisions are not gated.
pub fn reverse_crosses_threshold(old: Side, new: Side, score_bp: i32, threshold_bp: i32) -> (r: bool)
    ensures
        r == spec_reverse_crosses(old, new, score_bp, threshold_bp),
{
    if old == new {
        return true;
    }
    match new {
        Side::Buy => score_bp >= threshold_bp,
        Side::Sell => (score_bp as i64) <= -(threshold_bp as i64),
    }
}

/// Where an accepted revision leads.
#[derive(Copy, Clone, Debug, PartialEq, Eq, Structural)]
pub enum RevisionOutcome {
    /// Same direction; status unchanged.
    Forward,
    /// Reversal across the threshold: progress restarts and the child link is dropped.
    ReverseRestart,
    /// The new share target equals what is already filled: real completion.
    CompleteNow,
    /// The new share target is below what is filled and a rationale was given.
    Terminate(TerminationReason),
}

pub open spec fn spec_validate_target(target: PlanTarget) -> Option<PlanError> {
    match target {
        PlanTarget::ShareCount(n) => if n == 0 {
            Some(PlanError::InvalidTarget { reason: "share-count target must be positive" })
        } else {
            None
        },
        PlanTarget::PositionFractionBp(bp) => if bp > 10_000 {
            Some(PlanError::InvalidTarget { reason: "position fraction must be within 0..=10000 bp" })
        } else {
            None
        },
    }
}

pub fn validate_target(target: PlanTarget) -> (r: Result<(), PlanError>)
    ensures
        r == (match spec_validate_target(target) {
            Some(e) => Err(e),
            None => Ok(()),
        }),
{
    match target {
        PlanTarget::ShareCount(0) => Err(
            PlanError::InvalidTarget { reason: "share-count target must be positive" },
        ),
        PlanTarget::PositionFractionBp(bp) => if bp > 10_000 {
            Err(PlanError::InvalidTarget { reason: "position fraction must be within 0..=10000 bp" })
        } else {
            Ok(())
        },
        _ => Ok(()),
    }
}

pub open spec fn spec_validate_confidence(confidence_bp: u32) -> Option<PlanError> {
    if confidence_bp > 10_000 {
        Some(PlanError::InvalidConfidenceBp { value: confidence_bp })
    } else {
        None
    }
}

pub fn validate_confidence(confidence_bp: u32) -> (r: Result<(), PlanError>)
    ensures
        r == (match spec_validate_confidence(confidence_bp) {
            Some(e) => Err(e),
            None => Ok(()),
        }),
{
    if confidence_bp > 10_000 {
        return Err(PlanError::InvalidConfidenceBp { value: confidence_bp });
    }
    Ok(())
}

pub open spec fn spec_validate_opinion(opinion: PlanOpinion) -> Option<PlanError> {
    if !(-10_000 <= opinion.signal_score_bp <= 10_000) {
        Some(PlanError::InvalidSignalScoreBp { value: opinion.signal_score_bp })
    } else {
        None
    }
}

pub fn validate_opinion(opinion: &PlanOpinion) -> (r: Result<(), PlanError>)
    ensures
        r == (match spec_validate_opinion(*opinion) {
            Some(e) => Err(e),
            None => Ok(()),
        }),
{
    if !(-10_000 <= opinion.signal_score_bp && opinion.signal_score_bp <= 10_000) {
        return Err(PlanError::InvalidSignalScoreBp { value: opinion.signal_score_bp });
    }
    Ok(())
}

/// Every policy threshold must be positive; the first offending field is reported.
pub open spec fn spec_validate_policy(policy: PlanPolicy) -> Option<PlanError> {
    if policy.reverse_revision_threshold_bp <= 0 {
        Some(
            PlanError::InvalidPolicyThreshold {
                field: "reverse_revision_threshold_bp",
                value: policy.reverse_revision_threshold_bp,
            },
        )
    } else if policy.review_signal_delta_bp <= 0 {
        Some(
            PlanError::InvalidPolicyThreshold {
                field: "review_signal_delta_bp",
                value: policy.review_signal_delta_bp,
            },
        )
    } else if policy.review_price_change_bp <= 0 {
        Some(
            PlanError::InvalidPolicyThreshold {
                field: "review_price_change_bp",
                value: policy.review_price_change_bp,
            },
        )
    } else {
        None
    }
}

pub fn validate_policy(policy: &PlanPolicy) -> (r: Result<(), PlanError>)
    ensures
        r == (match spec_validate_policy(*policy) {
            Some(e) => Err(e),
            None => Ok(()),
        }),
{
    if policy.reverse_revision_threshold_bp <= 0 {
        return Err(
            PlanError::InvalidPolicyThreshold {
                field: "reverse_revision_threshold_bp",
                value: policy.reverse_revision_threshold_bp,
            },
        );
    }
    if policy.review_signal_delta_bp <= 0 {
        return Err(
            PlanError::InvalidPolicyThreshold {
                field: "review_signal_delta_bp",
                value: policy.review_signal_delta_bp,
            },
        );
    }
    if policy.review_price_change_bp <= 0 {
        return Err(
            PlanError::InvalidPolicyThreshold {
                field: "review_price_change_bp",
                value: policy.review_price_change_bp,
            },
        );
    }
    Ok(())
}

/// Field checks of an open request: target, confidence, opinion, then horizon.
pub open spec fn spec_validate_open(open: PlanOpen) -> Option<PlanError> {
    if spec_validate_target(open.target) is Some {
        spec_validate_target(open.target)
    } else if spec_validate_confidence(open.confidence_bp) is Some {
        spec_validate_confidence(open.confidence_bp)
    } else if spec_validate_opinion(open.opinion) is Some {
        spec_validate_opinion(open.opinion)
    } else if open.horizon_trading_days == 0 {
        Some(PlanError::InvalidHorizonDays { value: open.horizon_trading_days })
    } else {
        None
    }
}

pub fn validate_open(open: &PlanOpen) -> (r: Result<(), PlanError>)
    ensures
        r == (match spec_validate_open(*open) {
            Some(e) => Err(e),
            None => Ok(()),
        }),
{
    validate_target(open.target)?;
    validate_confidence(open.confidence_bp)?;
    validate_opinion(&open.opinion)?;
    if open.horizon_trading_days == 0 {
        return Err(PlanError::InvalidHorizonDays { value: open.horizon_trading_days });
    }
    Ok(())
}

/// A real fill may not take the cumulative fill above a share target.
pub open spec fn spec_validate_fill_qty(plan: TradingPlan, qty: u32) -> Option<PlanError> {
    match plan.target {
        PlanTarget::ShareCount(target_qty) => if plan.filled_qty + qty > u32::MAX {
            Some(PlanError::QuantityOverflow { plan_id: plan.plan_id })
        } else if plan.filled_qty + qty > target_qty {
            Some(
                PlanError::FillExceedsTarget {
                    plan_id: plan.plan_id,
                    filled_qty: plan.filled_qty,
                    fill_qty: qty,
                    target_qty,
                },
            )
        } else {
            None
        },
        PlanTarget::PositionFractionBp(_) => None,
    }
}

pub fn validate_fill_qty(plan: &TradingPlan, qty: u32) -> (r: Result<(), PlanError>)
    ensures
        r == (match spec_validate_fill_qty(*plan, qty) {
            Some(e) => Err(e),
            None => Ok(()),
        }),
{
    if let PlanTarget::ShareCount(target_qty) = plan.target {
        let new_filled = match plan.filled_qty.checked_add(qty) {
            Some(v) => v,
            None => {
                return Err(PlanError::QuantityOverflow { plan_id: plan.plan_id });
            },
        };
        if new_filled > target_qty {
            return Err(
                PlanError::FillExceedsTarget {
                    plan_id: plan.plan_id,
                    filled_qty: plan.filled_qty,
                    fill_qty: qty,
                    target_qty,
                },
            );
        }
    }
    Ok(())
}

/// The revision leaves direction, target, urgency, confidence and opinion as they are.
pub open spec fn spec_revision_unchanged(plan: TradingPlan, revision: PlanRevision) -> bool {
    plan.direction == revision.direction && plan.target == revision.target && plan.urgency
        == revision.urgency && plan.confidence_bp == revision.confidence_bp && plan.opinion
        == revision.opinion
}

/// Classification of a revision: valid fields, then no-op rejection, then the
/// reversal threshold, then how a share target relates to what is filled.
pub open spec fn spec_classify_revision(
    plan: TradingPlan,
    revision: PlanRevision,
    policy: PlanPolicy,
) -> Result<RevisionOutcome, PlanError> {
    if spec_validate_target(revision.target) is Some {
        Err(spec_validate_target(revision.target).unwrap())
    } else if spec_validate_confidence(revision.confidence_bp) is Some {
        Err(spec_validate_confidence(revision.confidence_bp).unwrap())
    } else if spec_validate_opinion(revision.opinion) is Some {
        Err(spec_validate_opinion(revision.opinion).unwrap())
    } else if spec_revision_unchanged(plan, revision) {
        Err(PlanError::UnchangedRevision { plan_id: plan.plan_id })
    } else if revision.direction != plan.direction {
        if !spec_reverse_crosses(
            plan.direction,
            revision.direction,
            revision.opinion.signal_score_bp,
            policy.reverse_revision_threshold_bp,
        ) {
            Err(
                PlanError::ReverseRevisionBelowThreshold {
                    plan_id: plan.plan_id,
                    score_bp: revision.opinion.signal_score_bp,
                    required_threshold_bp: policy.reverse_revision_threshold_bp,
                },
            )
        } else {
            Ok(RevisionOutcome::ReverseRestart)
        }
    } else {
        match revision.target {
            PlanTarget::ShareCount(new_target_qty) => if new_target_qty < plan.filled_qty {
                match revision.below_filled_rationale {
                    Some(reason) => Ok(RevisionOutcome::Terminate(reason)),
                    None => Err(
                        PlanError::RevisionBelowFilledRequiresRationale {
                            plan_id: plan.plan_id,
                            filled_qty: plan.filled_qty,
                            new_target_qty,
                        },
                    ),
                }
            } else if new_target_qty == plan.filled_qty {
                Ok(RevisionOutcome::CompleteNow)
            } else {
                Ok(RevisionOutcome::Forward)
            },
            PlanTarget::PositionFractionBp(_) => Ok(RevisionOutcome::Forward),
        }
    }
}

pub fn classify_revision(plan: &TradingPlan, revision: &PlanRevision, policy: &PlanPolicy) -> (r:
    Result<RevisionOutcome, PlanError>)
    ensures
        r == spec_classify_revision(*plan, *revision, *policy),
{
    validate_target(revision.target)?;
    validate_confidence(revision.confidence_bp)?;
    validate_opinion(&revision.opinion)?;
    let unchanged = plan.direction == revision.direction && plan.target == revision.target
        && plan.urgency == revision.urgency && plan.confidence_bp == revision.confidence_bp
        && plan.opinion == revision.opinion;
    if unchanged {
        return Err(PlanError::UnchangedRevision { plan_id: plan.plan_id });
    }
    if revision.direction != plan.direction {
        if !reverse_crosses_threshold(
            plan.direction,
            revision.direction,
            revision.opinion.signal_score_bp,
            policy.reverse_revision_threshold_bp,
        ) {
            return Err(
                PlanError::ReverseRevisionBelowThreshold {
                    plan_id: plan.plan_id,
                    score_bp: revision.opinion.signal_score_bp,
                    required_threshold_bp: policy.reverse_revision_threshold_bp,
                },
            );
        }
        return Ok(RevisionOutcome::ReverseRestart);
    }
    if let PlanTarget::ShareCount(new_target_qty) = revision.target {
        if new_target_qty < plan.filled_qty {
            return match revision.below_filled_rationale {
                Some(reason) => Ok(RevisionOutcome::Terminate(reason)),
                None => Err(
                    PlanError::RevisionBelowFilledRequiresRationale {
                        plan_id: plan.plan_id,
                        filled_qty: plan.filled_qty,
                        new_target_qty,
                    },
                ),
            };
        }
        if new_target_qty == plan.filled_qty {
            return Ok(RevisionOutcome::CompleteNow);
        }
    }
    Ok(RevisionOutcome::Forward)
}

} // verus!
