//! What a belief-driven account decides about its plan for one candidate
//! stock: the direction follows the sign of the blended score once the
//! account's fundamentals are ready; the target position moves towards that
//! direction and becomes a whole-lot share target; an existing plan is
//! observed, revised, or restructured (cancelling its child first) and a new
//! one opened only in the direction the score points.
use vstd::prelude::*;

use super::decision_chain::{desired_delta_shares, spec_desired_delta_shares};
use super::events::TradingPhase;
use crate::ids::{money_of, AccountId, Money, OrderId, PlanId, Side, StockCode};
use crate::plans::book::{
    batch_prefix, book_wf, create_error_in, named_plan_fits, plan_index, spec_review, spec_step, PlanBook, PlanEvent,
};
use crate::plans::validation::PlanError;
use super::execution::ParentOrderPlan;
use crate::plans::candidates::SignalScore;
use crate::plans::revision::{PlanRevision, RevisionReason};
use crate::plans::state::{
    PlanStatus, plan_days_fit, spec_is_terminal, spec_last_valid_day, spec_plan_from_open, OpinionSource, PlanOpen, PlanOpinion, PlanPolicy, PlanTarget,
    TerminationReason, TradingPlan, Urgency,
};
use crate::plans::targets::{spec_target_share_quantity, spec_target_weight, target_position_weight_bp, target_share_quantity};
use crate::plans::validation::{reverse_crosses_threshold, spec_reverse_crosses, spec_revision_unchanged};
use crate::rounding::tdiv;

verus! {

/// The account's belief about the stock, as the plan decision reads it.
#[derive(Clone, Copy, Debug, PartialEq, Eq, Structural)]
pub struct BeliefEntryFacts {
    pub confidence_bp: u32,
    pub horizon_trading_days: u32,
}

/// The active child of the parent order linked to the plan, if any.
#[derive(Clone, Copy, Debug, PartialEq, Eq, Structural)]
pub struct LinkedChild {
    pub order_id: Option<OrderId>,
    pub remaining_qty: Option<u32>,
}

/// What the decision about one candidate stock reads.
#[derive(Clone, Debug)]
pub struct CandidateFacts {
    pub account: AccountId,
    pub code: StockCode,
    pub trading_day: u64,
    pub lot_size: u32,
    pub equity: Money,
    pub last_price: Money,
    pub held_qty: u32,
    /// The blended score; `None` when information is insufficient.
    pub score: Option<SignalScore>,
    /// Whether the account's fundamental view is usable (or not needed).
    pub fundamental_ready: bool,
    /// The largest weight of one stock, in basis points.
    pub max_fraction_bp: u32,
    /// The most shares that can be held: the stock's total, at most `u32::MAX`.
    pub max_holdable_shares: u64,
    pub belief_entry: Option<BeliefEntryFacts>,
    /// Whether the account's analysis gives fundamentals any weight.
    pub fundamental_weight_positive: bool,
    /// Whether the account trades intraday only.
    pub active_trader: bool,
    pub phase: TradingPhase,
    pub reverse_threshold_bp: i32,
    pub linked_child: Option<LinkedChild>,
    pub child_cancellable_now: bool,
}

/// What happens to the plan of one stock.
#[derive(Debug, PartialEq, Eq)]
pub enum PlanLifecycleAction {
    Observe { plan_id: PlanId, trading_day: u64 },
    Revise { plan_id: PlanId, revision: PlanRevision },
    /// Cancel the linked child (if any) before the revision ends the old leg.
    Restructure {
        account: AccountId,
        plan_id: PlanId,
        code: StockCode,
        child_order_id: Option<OrderId>,
        terminating: bool,
        revision: PlanRevision,
    },
    Create { open: PlanOpen },
}

impl Clone for PlanLifecycleAction {
    fn clone(&self) -> (r: Self)
        ensures
            r == *self,
    {
        match self {
            PlanLifecycleAction::Observe { plan_id, trading_day } => PlanLifecycleAction::Observe {
                plan_id: *plan_id,
                trading_day: *trading_day,
            },
            PlanLifecycleAction::Revise { plan_id, revision } => PlanLifecycleAction::Revise {
                plan_id: *plan_id,
                revision: *revision,
            },
            PlanLifecycleAction::Restructure { account, plan_id, code, child_order_id, terminating, revision } => {
                PlanLifecycleAction::Restructure {
                    account: *account,
                    plan_id: *plan_id,
                    code: code.clone(),
                    child_order_id: *child_order_id,
                    terminating: *terminating,
                    revision: *revision,
                }
            },
            PlanLifecycleAction::Create { open } => PlanLifecycleAction::Create { open: open.clone() },
        }
    }
}

/// A value as basis points of equity, within `0..=10000`.
pub open spec fn weight_bp_of(value: int, equity: int) -> u32 {
    let w = tdiv(value * 10_000, equity);
    if w < 0 {
        0
    } else if w > 10_000 {
        10_000
    } else {
        w as u32
    }
}

/// The direction the score points, once fundamentals are ready.
pub open spec fn score_direction(f: CandidateFacts) -> Option<Side> {
    match f.score {
        Some(s) => if f.fundamental_ready && s@ > 0 {
            Some(Side::Buy)
        } else if f.fundamental_ready && s@ < 0 {
            Some(Side::Sell)
        } else {
            None
        },
        None => None,
    }
}

/// The target weight before the holdable cap.
pub open spec fn raw_target_weight(f: CandidateFacts) -> int {
    let current = weight_bp_of(f.last_price.cents * f.held_qty, f.equity.cents as int);
    spec_target_weight(current as int, f.score->Some_0@, f.max_fraction_bp as int)
}

/// The target weight capped by what can be held.
pub open spec fn capped_target_weight(f: CandidateFacts) -> u32 {
    let cap = weight_bp_of(f.max_holdable_shares * f.last_price.cents, f.equity.cents as int);
    (if raw_target_weight(f) <= cap {
        raw_target_weight(f)
    } else {
        cap as int
    }) as u32
}

/// The target position in shares (none without a ready score).
pub open spec fn target_qty(f: CandidateFacts) -> u32 {
    if f.score is Some && f.fundamental_ready {
        spec_target_share_quantity(capped_target_weight(f), f.equity, f.last_price, f.lot_size)->Ok_0.target_qty
    } else {
        0
    }
}

pub open spec fn confidence_of(f: CandidateFacts) -> u32 {
    match f.belief_entry {
        Some(e) => e.confidence_bp,
        None => 5_000,
    }
}

/// The revision of an existing plan, and whether it flips the direction,
/// when the decision gets that far.
pub open spec fn revision_of(f: CandidateFacts, plan: TradingPlan) -> Option<(PlanRevision, bool)> {
    if spec_is_terminal(plan.status) || f.trading_day > spec_last_valid_day(plan) {
        None
    } else if !(f.score is Some && f.fundamental_ready) {
        None
    } else {
        let score = f.score->Some_0@;
        let new_direction = match score_direction(f) {
            Some(d) => d,
            None => plan.direction,
        };
        let flip = new_direction != plan.direction;
        if flip && !spec_reverse_crosses(plan.direction, new_direction, score as i32, f.reverse_threshold_bp) {
            None
        } else {
            match spec_desired_delta_shares(new_direction, target_qty(f), f.held_qty, f.lot_size) {
                None => None,
                Some(delta) => {
                    let opinion = PlanOpinion { signal_score_bp: score as i32, source: OpinionSource::Blended };
                    let unchanged = !flip && plan.target == PlanTarget::ShareCount(delta) && plan.confidence_bp
                        == confidence_of(f) && plan.opinion == opinion;
                    if unchanged {
                        None
                    } else {
                        Some(
                            (
                                PlanRevision {
                                    reason: RevisionReason::SignalShift,
                                    trading_day: f.trading_day,
                                    direction: new_direction,
                                    target: PlanTarget::ShareCount(delta),
                                    opinion,
                                    confidence_bp: confidence_of(f),
                                    urgency: Urgency::Normal,
                                    below_filled_rationale: if !flip && delta < plan.filled_qty {
                                        Some(TerminationReason::Cancelled)
                                    } else {
                                        None
                                    },
                                },
                                flip,
                            ),
                        )
                    }
                },
            }
        }
    }
}

/// The decision about an existing plan.
pub open spec fn existing_plan_action(f: CandidateFacts, plan: TradingPlan) -> Option<PlanLifecycleAction> {
    if spec_is_terminal(plan.status) || f.trading_day > spec_last_valid_day(plan) {
        None
    } else {
        match revision_of(f, plan) {
            None => Some(PlanLifecycleAction::Observe { plan_id: plan.plan_id, trading_day: f.trading_day }),
            Some((revision, flip)) => {
                let terminating = revision.below_filled_rationale is Some;
                let child_order_id = match f.linked_child {
                    Some(c) => c.order_id,
                    None => None,
                };
                let exceeds = match f.linked_child {
                    Some(c) => match c.remaining_qty {
                        Some(rest) => plan.filled_qty + rest > revision.target->ShareCount_0,
                        None => false,
                    },
                    None => false,
                };
                if terminating || flip || exceeds {
                    if child_order_id is Some && !f.child_cancellable_now {
                        Some(PlanLifecycleAction::Observe { plan_id: plan.plan_id, trading_day: f.trading_day })
                    } else {
                        Some(
                            PlanLifecycleAction::Restructure {
                                account: f.account,
                                plan_id: plan.plan_id,
                                code: f.code,
                                child_order_id,
                                terminating,
                                revision,
                            },
                        )
                    }
                } else {
                    Some(PlanLifecycleAction::Revise { plan_id: plan.plan_id, revision })
                }
            },
        }
    }
}

/// The delta of a new plan, when one may open.
pub open spec fn new_plan_delta(f: CandidateFacts) -> Option<(Side, u32)> {
    if f.active_trader && f.phase != TradingPhase::Continuous {
        None
    } else {
        match score_direction(f) {
            None => None,
            Some(direction) => match spec_desired_delta_shares(direction, target_qty(f), f.held_qty, f.lot_size) {
                None => None,
                Some(delta) => if f.belief_entry is None && f.fundamental_weight_positive {
                    None
                } else {
                    Some((direction, delta))
                },
            },
        }
    }
}

/// The decision when the stock has no active plan.
pub open spec fn new_plan_action(f: CandidateFacts) -> Option<PlanLifecycleAction> {
    match new_plan_delta(f) {
        None => None,
        Some((direction, delta)) => Some(
            PlanLifecycleAction::Create {
                open: PlanOpen {
                    account: f.account,
                    code: f.code,
                    direction,
                    target: PlanTarget::ShareCount(delta),
                    opinion: PlanOpinion {
                        signal_score_bp: match f.score {
                            Some(s) => s@ as i32,
                            None => 0,
                        },
                        source: OpinionSource::Blended,
                    },
                    confidence_bp: confidence_of(f),
                    urgency: Urgency::Normal,
                    horizon_trading_days: if f.active_trader {
                        1
                    } else if f.belief_entry->Some_0.horizon_trading_days < 1 {
                        1
                    } else {
                        f.belief_entry->Some_0.horizon_trading_days
                    },
                    created_trading_day: f.trading_day,
                },
            },
        ),
    }
}

/// The decision about one candidate stock: none when the account has no
/// positive equity.
pub open spec fn spec_plan_lifecycle_action(f: CandidateFacts, active: Option<TradingPlan>) -> Option<
    PlanLifecycleAction,
> {
    if f.equity.cents <= 0 {
        None
    } else {
        match active {
            Some(plan) => existing_plan_action(f, plan),
            None => new_plan_action(f),
        }
    }
}

fn weight_bp(value: i128, equity: i64) -> (w: u32)
    requires
        equity > 0,
        -0x1_0000_0000_0000_0000_0000_0000_0000 <= value <= 0x1_0000_0000_0000_0000_0000_0000_0000,
    ensures
        w == weight_bp_of(value as int, equity as int),
{
    let scaled = value * 10_000;
    let w = scaled / (equity as i128);
    proof {
        assert(w == tdiv(value * 10_000, equity as int));
    }
    if w < 0 {
        0
    } else if w > 10_000 {
        10_000
    } else {
        w as u32
    }
}

/// Decides the plan action for one candidate stock (see
/// [`spec_plan_lifecycle_action`]); `active` is the account's active plan
/// for the stock, if any.
pub fn plan_lifecycle_action(f: &CandidateFacts, active: Option<&TradingPlan>) -> (r: Option<PlanLifecycleAction>)
    requires
        f.equity.cents > 0 ==> {
            &&& money_of(f.last_price.cents * f.held_qty) is Ok
            &&& f.score is Some && f.fundamental_ready ==> {
                &&& f.max_fraction_bp <= 10_000
                &&& f.max_holdable_shares <= u32::MAX
                &&& spec_target_share_quantity(capped_target_weight(*f), f.equity, f.last_price, f.lot_size) is Ok
            }
            &&& f.lot_size > 0
            &&& match active {
                Some(plan) => {
                    &&& plan_days_fit(*plan)
                    &&& revision_of(*f, *plan) is Some ==> (f.linked_child matches Some(c) ==> (
                    c.remaining_qty matches Some(rest) ==> plan.filled_qty + rest <= u32::MAX))
                },
                None => new_plan_delta(*f) is Some && !f.active_trader ==> f.belief_entry is Some,
            }
        },
    ensures
        r == spec_plan_lifecycle_action(
            *f,
            match active {
                Some(p) => Some(*p),
                None => None,
            },
        ),
{
    if f.equity.cents <= 0 {
        return None;
    }
    let position_value = match f.last_price.mul_shares(f.held_qty) {
        Ok(v) => v,
        Err(_) => {
            assert(false);
            return None;
        },
    };
    let current_weight = weight_bp(position_value.cents as i128, f.equity.cents);
    let direction: Option<Side> = match f.score {
        Some(s) => if f.fundamental_ready && s.value() > 0 {
            Some(Side::Buy)
        } else if f.fundamental_ready && s.value() < 0 {
            Some(Side::Sell)
        } else {
            None
        },
        None => None,
    };
    let target: u32 = match f.score {
        Some(s) => if f.fundamental_ready {
            let weight = match target_position_weight_bp(current_weight, s, f.max_fraction_bp) {
                Ok(w) => w,
                Err(_) => {
                    assert(false);
                    return None;
                },
            };
            proof {
                assert(weight as int == raw_target_weight(*f));
            }
            assert(-0x1_0000_0000_0000_0000_0000_0000_0000 <= (f.max_holdable_shares as i128) * (
            f.last_price.cents as i128) <= 0x1_0000_0000_0000_0000_0000_0000_0000) by (nonlinear_arith)
                requires
                    0 <= f.max_holdable_shares <= u32::MAX,
                    i64::MIN <= f.last_price.cents <= i64::MAX,
            ;
            let cap = weight_bp((f.max_holdable_shares as i128) * (f.last_price.cents as i128), f.equity.cents);
            let capped = if weight <= cap {
                weight
            } else {
                cap
            };
            match target_share_quantity(capped, f.equity, f.last_price, f.lot_size) {
                Ok(t) => t.target_qty,
                Err(_) => {
                    assert(false);
                    return None;
                },
            }
        } else {
            0
        },
        None => 0,
    };
    proof {
        assert(direction == score_direction(*f));
        assert(target == target_qty(*f));
    }
    let confidence: u32 = match f.belief_entry {
        Some(e) => e.confidence_bp,
        None => 5_000,
    };
    match active {
        Some(plan) => {
            if plan.is_terminal() || f.trading_day > plan.last_valid_trading_day() {
                return None;
            }
            let score = match f.score {
                Some(s) => if f.fundamental_ready {
                    s.value()
                } else {
                    return Some(PlanLifecycleAction::Observe { plan_id: plan.plan_id, trading_day: f.trading_day });
                },
                None => {
                    return Some(PlanLifecycleAction::Observe { plan_id: plan.plan_id, trading_day: f.trading_day });
                },
            };
            let new_direction = match direction {
                Some(d) => d,
                None => plan.direction,
            };
            let flip = new_direction != plan.direction;
            if flip && !reverse_crosses_threshold(plan.direction, new_direction, score, f.reverse_threshold_bp) {
                return Some(PlanLifecycleAction::Observe { plan_id: plan.plan_id, trading_day: f.trading_day });
            }
            let delta = match desired_delta_shares(new_direction, target, f.held_qty, f.lot_size) {
                Some(d) => d,
                None => {
                    return Some(PlanLifecycleAction::Observe { plan_id: plan.plan_id, trading_day: f.trading_day });
                },
            };
            let opinion = PlanOpinion { signal_score_bp: score, source: OpinionSource::Blended };
            let same_target = match plan.target {
                PlanTarget::ShareCount(q) => q == delta,
                _ => false,
            };
            let unchanged = !flip && same_target && plan.confidence_bp == confidence && plan.opinion.signal_score_bp
                == opinion.signal_score_bp && plan.opinion.source == opinion.source;
            if unchanged {
                return Some(PlanLifecycleAction::Observe { plan_id: plan.plan_id, trading_day: f.trading_day });
            }
            let revision = PlanRevision {
                reason: RevisionReason::SignalShift,
                trading_day: f.trading_day,
                direction: new_direction,
                target: PlanTarget::ShareCount(delta),
                opinion,
                confidence_bp: confidence,
                urgency: Urgency::Normal,
                below_filled_rationale: if !flip && delta < plan.filled_qty {
                    Some(TerminationReason::Cancelled)
                } else {
                    None
                },
            };
            proof {
                assert(revision_of(*f, *plan) == Some((revision, flip)));
            }
            let terminating = revision.below_filled_rationale.is_some();
            let child_order_id = match f.linked_child {
                Some(c) => c.order_id,
                None => None,
            };
            let exceeds = match f.linked_child {
                Some(c) => match c.remaining_qty {
                    Some(rest) => plan.filled_qty + rest > delta,
                    None => false,
                },
                None => false,
            };
            if terminating || flip || exceeds {
                if child_order_id.is_some() && !f.child_cancellable_now {
                    return Some(PlanLifecycleAction::Observe { plan_id: plan.plan_id, trading_day: f.trading_day });
                }
                return Some(
                    PlanLifecycleAction::Restructure {
                        account: f.account,
                        plan_id: plan.plan_id,
                        code: f.code.clone(),
                        child_order_id,
                        terminating,
                        revision,
                    },
                );
            }
            Some(PlanLifecycleAction::Revise { plan_id: plan.plan_id, revision })
        },
        None => {
            if f.active_trader && f.phase != TradingPhase::Continuous {
                return None;
            }
            let direction = match direction {
                Some(d) => d,
                None => {
                    return None;
                },
            };
            let delta = match desired_delta_shares(direction, target, f.held_qty, f.lot_size) {
                Some(d) => d,
                None => {
                    return None;
                },
            };
            if f.belief_entry.is_none() && f.fundamental_weight_positive {
                return None;
            }
            let horizon: u32 = if f.active_trader {
                1
            } else {
                match f.belief_entry {
                    Some(e) => if e.horizon_trading_days < 1 {
                        1
                    } else {
                        e.horizon_trading_days
                    },
                    None => {
                        assert(false);
                        return None;
                    },
                }
            };
            let score_bp: i32 = match f.score {
                Some(s) => s.value(),
                None => 0,
            };
            Some(
                PlanLifecycleAction::Create {
                    open: PlanOpen {
                        account: f.account,
                        code: f.code.clone(),
                        direction,
                        target: PlanTarget::ShareCount(delta),
                        opinion: PlanOpinion { signal_score_bp: score_bp, source: OpinionSource::Blended },
                        confidence_bp: confidence,
                        urgency: Urgency::Normal,
                        horizon_trading_days: horizon,
                        created_trading_day: f.trading_day,
                    },
                },
            )
        },
    }
}


/// The plans after recording a review on plan `id`; `None` when that fails
/// or the plan's last valid day cannot be computed.
pub open spec fn reviewed_plans(plans: Seq<TradingPlan>, id: PlanId, day: u64, fact: (Money, u32)) -> Option<
    Seq<TradingPlan>,
> {
    match plan_index(plans, id) {
        None => None,
        Some(i) => if plan_days_fit(plans[i]) && spec_review(plans[i], day, fact.0, fact.1).1 is Ok {
            Some(plans.update(i, spec_review(plans[i], day, fact.0, fact.1).0))
        } else {
            None
        },
    }
}

/// The plans after applying `event` to plan `id`; `None` when that fails
/// or the plan's last valid day cannot be computed.
pub open spec fn stepped_plans(plans: Seq<TradingPlan>, id: PlanId, event: PlanEvent, policy: PlanPolicy) -> Option<
    Seq<TradingPlan>,
> {
    match plan_index(plans, id) {
        None => None,
        Some(i) => if plan_days_fit(plans[i]) && spec_step(plans[i], event, policy).1 is Ok {
            Some(plans.update(i, spec_step(plans[i], event, policy).0))
        } else {
            None
        },
    }
}

/// One action applied to a book given by its next plan id and its plans:
/// every action on an existing plan first records that plan's review; an
/// observation and a revision are plan events; a restructure is handed on
/// unchanged; a creation opens the plan and records its first review.
/// `None` when a step fails.
pub open spec fn lifecycle_step(
    policy: PlanPolicy,
    state: (u64, Seq<TradingPlan>),
    action: PlanLifecycleAction,
    fact: (Money, u32),
    day: u64,
) -> Option<(u64, Seq<TradingPlan>)> {
    match action {
        PlanLifecycleAction::Observe { plan_id, trading_day } => match reviewed_plans(state.1, plan_id, day, fact) {
            Some(p) => match stepped_plans(p, plan_id, PlanEvent::ObservedNoChange { trading_day }, policy) {
                Some(q) => Some((state.0, q)),
                None => None,
            },
            None => None,
        },
        PlanLifecycleAction::Revise { plan_id, revision } => match reviewed_plans(state.1, plan_id, day, fact) {
            Some(p) => match stepped_plans(p, plan_id, PlanEvent::Revised { revision }, policy) {
                Some(q) => Some((state.0, q)),
                None => None,
            },
            None => None,
        },
        PlanLifecycleAction::Restructure { plan_id, .. } => match reviewed_plans(state.1, plan_id, day, fact) {
            Some(p) => Some((state.0, p)),
            None => None,
        },
        PlanLifecycleAction::Create { open } => {
            let id = PlanId(state.0);
            if create_error_in(state.0, state.1, open) is Some || open.created_trading_day
                + open.horizon_trading_days > u64::MAX + 1 {
                None
            } else {
                match reviewed_plans(state.1.push(spec_plan_from_open(id, open, policy)), id, day, fact) {
                    Some(p) => Some(((state.0 + 1) as u64, p)),
                    None => None,
                }
            }
        },
    }
}

/// The actions applied in order; `None` when one of them fails.
pub open spec fn lifecycle_fold(
    policy: PlanPolicy,
    start: (u64, Seq<TradingPlan>),
    actions: Seq<PlanLifecycleAction>,
    facts: Seq<(Money, u32)>,
    day: u64,
) -> Option<(u64, Seq<TradingPlan>)>
    decreases actions.len(),
{
    if actions.len() == 0 {
        Some(start)
    } else {
        match lifecycle_fold(policy, start, actions.drop_last(), facts, day) {
            Some(s) => lifecycle_step(policy, s, actions.last(), facts[actions.len() - 1], day),
            None => None,
        }
    }
}

/// The restructures among the actions, in order.
pub open spec fn restructures_of(actions: Seq<PlanLifecycleAction>) -> Seq<PlanLifecycleAction>
    decreases actions.len(),
{
    if actions.len() == 0 {
        Seq::empty()
    } else if actions.last() is Restructure {
        restructures_of(actions.drop_last()).push(actions.last())
    } else {
        restructures_of(actions.drop_last())
    }
}

proof fn lemma_fold_prefix(
    policy: PlanPolicy,
    start: (u64, Seq<TradingPlan>),
    actions: Seq<PlanLifecycleAction>,
    facts: Seq<(Money, u32)>,
    day: u64,
    n: int,
)
    requires
        0 <= n <= actions.len(),
        lifecycle_fold(policy, start, actions, facts, day) is Some,
    ensures
        lifecycle_fold(policy, start, actions.take(n), facts, day) is Some,
    decreases actions.len() - n,
{
    if n < actions.len() {
        lemma_fold_prefix(policy, start, actions, facts, day, n + 1);
        assert(actions.take(n + 1).drop_last() == actions.take(n));
    } else {
        assert(actions.take(n) == actions);
    }
}

/// Records one review, knowing it succeeds.
fn review_plan(plans: &mut PlanBook, plan_id: PlanId, day: u64, fact: (Money, u32))
    requires
        old(plans).wf(),
        reviewed_plans(old(plans)@.plans, plan_id, day, fact) is Some,
    ensures
        final(plans).wf(),
        final(plans)@.policy == old(plans)@.policy,
        final(plans)@.next_plan_seq == old(plans)@.next_plan_seq,
        final(plans)@.plans == reviewed_plans(old(plans)@.plans, plan_id, day, fact)->Some_0,
{
    let r = plans.record_review(plan_id, day, fact.0, fact.1);
    assert(r is Ok);
}

/// Applies one event, knowing it succeeds.
fn step_plan(plans: &mut PlanBook, plan_id: PlanId, event: PlanEvent)
    requires
        old(plans).wf(),
        stepped_plans(old(plans)@.plans, plan_id, event, old(plans)@.policy) is Some,
    ensures
        final(plans).wf(),
        final(plans)@.policy == old(plans)@.policy,
        final(plans)@.next_plan_seq == old(plans)@.next_plan_seq,
        final(plans)@.plans == stepped_plans(old(plans)@.plans, plan_id, event, old(plans)@.policy)->Some_0,
{
    let r = plans.apply(plan_id, event);
    assert(r is Ok);
}

/// Applies the collected actions to the plan book in order (see
/// [`lifecycle_fold`]): `facts[i]` is the review price and the count of
/// publications acquired for the stock of the plan that `actions[i]` names
/// (for a creation, the new plan), and `day` the session's trading day.
/// Returns the restructures, in order: the host cancels each one's child in
/// the book first and then lands it with [`land_restructure`]. The actions
/// must all succeed.
pub fn apply_plan_lifecycle_actions(
    actions: Vec<PlanLifecycleAction>,
    facts: &Vec<(Money, u32)>,
    day: u64,
    plans: &mut PlanBook,
) -> (restructures: Vec<PlanLifecycleAction>)
    requires
        old(plans).wf(),
        facts@.len() == actions@.len(),
        lifecycle_fold(
            old(plans)@.policy,
            (old(plans)@.next_plan_seq, old(plans)@.plans),
            actions@,
            facts@,
            day,
        ) is Some,
    ensures
        final(plans).wf(),
        final(plans)@.policy == old(plans)@.policy,
        (final(plans)@.next_plan_seq, final(plans)@.plans) == lifecycle_fold(
            old(plans)@.policy,
            (old(plans)@.next_plan_seq, old(plans)@.plans),
            actions@,
            facts@,
            day,
        )->Some_0,
        restructures@ == restructures_of(actions@),
{
    let ghost policy = plans@.policy;
    let ghost start = (plans@.next_plan_seq, plans@.plans);
    let mut out: Vec<PlanLifecycleAction> = Vec::new();
    let n = actions.len();
    let mut i: usize = 0;
    while i < n
        invariant
            n == actions@.len(),
            facts@.len() == n,
            i <= n,
            plans.wf(),
            plans@.policy == policy,
            lifecycle_fold(policy, start, actions@, facts@, day) is Some,
            lifecycle_fold(policy, start, actions@.take(i as int), facts@, day) == Some(
                (plans@.next_plan_seq, plans@.plans),
            ),
            out@ == restructures_of(actions@.take(i as int)),
        decreases n - i,
    {
        proof {
            lemma_fold_prefix(policy, start, actions@, facts@, day, i + 1);
            assert(actions@.take(i + 1).drop_last() == actions@.take(i as int));
            assert(actions@.take(i + 1).last() == actions@[i as int]);
        }
        let fact = facts[i];
        let action = actions[i].clone();
        proof {
            assert(action == actions@[i as int]);
        }
        match action {
            PlanLifecycleAction::Observe { plan_id, trading_day } => {
                review_plan(plans, plan_id, day, fact);
                step_plan(plans, plan_id, PlanEvent::ObservedNoChange { trading_day });
            },
            PlanLifecycleAction::Revise { plan_id, revision } => {
                review_plan(plans, plan_id, day, fact);
                step_plan(plans, plan_id, PlanEvent::Revised { revision });
            },
            PlanLifecycleAction::Restructure { account, plan_id, code, child_order_id, terminating, revision } => {
                review_plan(plans, plan_id, day, fact);
                out.push(
                    PlanLifecycleAction::Restructure { account, plan_id, code, child_order_id, terminating, revision },
                );
            },
            PlanLifecycleAction::Create { open } => {
                let created = plans.create(open);
                let plan_id = match created {
                    Ok(id) => id,
                    Err(_) => {
                        assert(false);
                        return out;
                    },
                };
                review_plan(plans, plan_id, day, fact);
            },
        }
        i = i + 1;
    }
    proof {
        assert(actions@.take(n as int) == actions@);
    }
    out
}


/// `|a - b|`.
pub open spec fn abs_diff(a: int, b: int) -> int {
    if a >= b {
        a - b
    } else {
        b - a
    }
}

/// Whether a live plan is due for a review: only within its horizon and
/// while its stock has a market; then when it has no review price yet, when
/// the price has moved by at least its minimum change since the last review,
/// or when more publications about the issuer have been acquired since.
pub open spec fn spec_plan_requires_review(plan: TradingPlan, day: u64, price: Option<Money>, known_count: u64) -> bool {
    if day > spec_last_valid_day(plan) {
        false
    } else {
        match price {
            None => false,
            Some(p) => match plan.review.last_review_price {
                None => true,
                Some(baseline) => abs_diff(p.cents as int, baseline.cents as int) * 10_000 >= baseline.cents
                    * plan.review.min_price_change_bp || known_count > plan.review.last_review_acquired_count,
            },
        }
    }
}

/// Decides whether a live plan is due for a review (see
/// [`spec_plan_requires_review`]): `price` is the last price of the plan's
/// stock, `None` when it has no market, and `known_count` the publications
/// about its issuer that the account holds.
pub fn plan_requires_review(plan: &TradingPlan, day: u64, price: Option<Money>, known_count: u64) -> (r: bool)
    requires
        plan_days_fit(*plan),
    ensures
        r == spec_plan_requires_review(*plan, day, price, known_count),
{
    if day > plan.last_valid_trading_day() {
        return false;
    }
    let p = match price {
        None => {
            return false;
        },
        Some(p) => p,
    };
    match plan.review.last_review_price {
        None => true,
        Some(baseline) => {
            let a = p.cents() as i128;
            let b = baseline.cents() as i128;
            let diff: i128 = if a >= b {
                a - b
            } else {
                b - a
            };
            assert(0 <= diff * 10_000 <= 0x1_0000_0000_0000_0000 * 10_000) by (nonlinear_arith)
                requires
                    0 <= diff <= 0x1_0000_0000_0000_0000,
            ;
            let m = plan.review.min_price_change_bp as i128;
            assert(-0x8000_0000_0000_0000 * 0x8000_0000 <= b * m <= 0x8000_0000_0000_0000 * 0x8000_0000)
                by (nonlinear_arith)
                requires
                    -0x8000_0000_0000_0000 <= b <= 0x8000_0000_0000_0000,
                    -0x8000_0000 <= m <= 0x8000_0000,
            ;
            diff * 10_000 >= b * m || known_count > plan.review.last_review_acquired_count as u64
        },
    }
}


/// The revision a lifecycle action carries, if any.
pub open spec fn action_revision(action: PlanLifecycleAction) -> Option<PlanRevision> {
    match action {
        PlanLifecycleAction::Revise { revision, .. } => Some(revision),
        PlanLifecycleAction::Restructure { revision, .. } => Some(revision),
        _ => None,
    }
}

/// The decision never hands the plan book a revision that it would refuse
/// as changing nothing: an unchanged view is only observed.
pub proof fn law_lifecycle_revisions_change_the_plan(f: CandidateFacts, plan: TradingPlan)
    requires
        spec_plan_lifecycle_action(f, Some(plan)) matches Some(a) && action_revision(a) is Some,
    ensures
        !spec_revision_unchanged(
            plan,
            action_revision(spec_plan_lifecycle_action(f, Some(plan))->Some_0)->Some_0,
        ),
{
    let (revision, flip) = revision_of(f, plan)->Some_0;
    assert(action_revision(spec_plan_lifecycle_action(f, Some(plan))->Some_0) == Some(revision));
    if !flip {
        assert(revision.direction == plan.direction);
    }
}

/// Once the plan book has applied a revision the decision asked for, the
/// same facts ask for nothing more: the revised plan is only observed (or,
/// when the revision completed it, left alone).
pub proof fn law_revised_plan_is_then_observed(f: CandidateFacts, plan: TradingPlan, policy: PlanPolicy)
    requires
        spec_plan_lifecycle_action(f, Some(plan)) matches Some(PlanLifecycleAction::Revise { revision, .. })
            && spec_step(plan, PlanEvent::Revised { revision }, policy).1 is Ok,
    ensures
        ({
            let revision = spec_plan_lifecycle_action(f, Some(plan))->Some_0->Revise_revision;
            let after = spec_step(plan, PlanEvent::Revised { revision }, policy).0;
            match spec_plan_lifecycle_action(f, Some(after)) {
                None => spec_is_terminal(after.status),
                Some(a) => a == PlanLifecycleAction::Observe { plan_id: plan.plan_id, trading_day: f.trading_day },
            }
        }),
{
    let (revision, flip) = revision_of(f, plan)->Some_0;
    law_lifecycle_revisions_change_the_plan(f, plan);
    assert(!flip);
    let after = spec_step(plan, PlanEvent::Revised { revision }, policy).0;
    assert(after.plan_id == plan.plan_id);
    assert(after.created_trading_day == plan.created_trading_day);
    assert(after.horizon_trading_days == plan.horizon_trading_days);
    assert(after.direction == plan.direction);
    assert(after.target == revision.target);
    assert(after.confidence_bp == revision.confidence_bp);
    assert(after.opinion == revision.opinion);
    if !spec_is_terminal(after.status) {
        assert(revision_of(f, after) is None);
    }
}


/// The plan events that land a restructure, in order: the cancellation of
/// the linked child when the plan still links it, then the revision.
pub open spec fn restructure_events(plans: Seq<TradingPlan>, action: PlanLifecycleAction, day: u64) -> Seq<
    (PlanId, PlanEvent),
> {
    let plan_id = action->Restructure_plan_id;
    let revision = action->Restructure_revision;
    let revised = (plan_id, PlanEvent::Revised { revision });
    match action->Restructure_child_order_id {
        Some(c) => if plan_index(plans, plan_id) matches Some(i) && plans[i].active_child_order_id == Some(c) {
            seq![(plan_id, PlanEvent::ChildOrderCanceled { order_id: c, trading_day: day }), revised]
        } else {
            seq![revised]
        },
        None => seq![revised],
    }
}

/// The linked parent order once a restructure has landed: a terminating
/// restructure ends it; otherwise it no longer carries the cancelled child.
pub open spec fn parent_after_restructure(parent: Option<ParentOrderPlan>, action: PlanLifecycleAction) -> Option<
    ParentOrderPlan,
> {
    if action->Restructure_terminating {
        None
    } else {
        match (parent, action->Restructure_child_order_id) {
            (Some(p), Some(c)) => if p.active_child_order_id == Some(c) {
                Some(ParentOrderPlan { active_child_order_id: None, active_child_remaining_qty: None, ..p })
            } else {
                Some(p)
            },
            _ => parent,
        }
    }
}

/// Lands a restructure on the plan book and the linked parent order, once
/// the host has cancelled the child in the book: the child's cancellation
/// and the revision are applied to the plan together or not at all (see
/// [`restructure_events`]); only when they are, the parent drops the child,
/// or ends with a terminating restructure. On a refusal nothing changes.
pub fn land_restructure(
    action: &PlanLifecycleAction,
    day: u64,
    plans: &mut PlanBook,
    parent: &mut Option<ParentOrderPlan>,
) -> (r: Result<Vec<Option<PlanStatus>>, PlanError>)
    requires
        *action is Restructure,
        old(plans).wf(),
        named_plan_fits(old(plans)@.plans, action->Restructure_plan_id),
    ensures
        final(plans).wf(),
        final(plans)@.policy == old(plans)@.policy,
        final(plans)@.next_plan_seq == old(plans)@.next_plan_seq,
        ({
            let events = restructure_events(old(plans)@.plans, *action, day);
            match batch_prefix(old(plans)@.plans, events, events.len() as int, old(plans)@.policy) {
                Err(e) => r == Err::<Vec<Option<PlanStatus>>, PlanError>(e) && final(plans)@ == old(plans)@
                    && *final(parent) == *old(parent),
                Ok(state) => r is Ok && r->Ok_0@ == state.2 && final(plans)@.plans == state.0 && *final(parent)
                    == parent_after_restructure(*old(parent), *action),
            }
        }),
{
    let (plan_id, child, terminating, revision) = match action {
        PlanLifecycleAction::Restructure { plan_id, child_order_id, terminating, revision, .. } => (
            *plan_id,
            *child_order_id,
            *terminating,
            *revision,
        ),
        _ => {
            assert(false);
            return Err(PlanError::UnknownPlan { plan_id: PlanId(0) });
        },
    };
    let ghost v = plans@;
    proof {
        plans.lemma_wf();
    }
    let mut events: Vec<(PlanId, PlanEvent)> = Vec::new();
    match child {
        Some(c) => {
            let links = match plans.plan(plan_id) {
                Ok(p) => {
                    let l = p.active_child_order_id == Some(c);
                    proof {
                        let i = choose|i: int| 0 <= i < v.plans.len() && (#[trigger] v.plans[i]) == *p && p.plan_id
                            == plan_id;
                        let j = plan_index(v.plans, plan_id)->Some_0;
                        if i != j {
                            if i < j {
                                assert(v.plans[i].plan_id.0 < v.plans[j].plan_id.0);
                            } else {
                                assert(v.plans[j].plan_id.0 < v.plans[i].plan_id.0);
                            }
                        }
                    }
                    l
                },
                Err(_) => false,
            };
            if links {
                events.push((plan_id, PlanEvent::ChildOrderCanceled { order_id: c, trading_day: day }));
            }
        },
        None => {},
    }
    events.push((plan_id, PlanEvent::Revised { revision }));
    proof {
        assert(events@ =~= restructure_events(v.plans, *action, day));
    }
    let r = plans.apply_active_events_atomically(&events);
    if r.is_ok() {
        if terminating {
            *parent = None;
        } else {
            match child {
                Some(c) => match parent {
                    Some(p) => {
                        p.record_child_canceled(c);
                    },
                    None => {},
                },
                None => {},
            }
        }
    }
    r
}

} // verus!
