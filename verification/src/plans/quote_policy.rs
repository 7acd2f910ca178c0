//! Pure quote-intent policy. It never mutates an order book or assumes a fill;
//! every price it proposes passes the router's tick, band, cage and quantity
//! guards, which it receives as values.
use vstd::prelude::*;

use super::state::Urgency;
use super::urgency::PauseAssessment;
use crate::ids::{Money, OrderId, Side};

verus! {

#[derive(Clone, Copy, Debug, Eq, PartialEq, Structural)]
pub struct BookTop {
    pub best_bid: Option<Money>,
    pub best_ask: Option<Money>,
}

#[derive(Clone, Copy, Debug, Eq, PartialEq, Structural)]
pub struct ActiveQuote {
    pub order_id: OrderId,
    pub price: Money,
    pub qty: u32,
}

/// Router-owned guardrails are passed as values so that this policy stays pure.
#[derive(Debug, Eq, PartialEq)]
pub struct QuoteDecisionInputs {
    pub side: Side,
    pub urgency: Urgency,
    pub pause: PauseAssessment,
    pub book: BookTop,
    pub protection_limit: Money,
    pub band_down: Money,
    pub band_up: Money,
    pub tick: Money,
    /// Continuous-auction cage bound: the buy upper bound or the sell lower bound.
    pub cage_bound: Option<Money>,
    pub desired_qty: u32,
    pub lot_size: u32,
    pub max_order_qty: u32,
    pub available_sell_qty: u32,
    pub active_order: Option<ActiveQuote>,
    pub cancellable_now: bool,
}

#[derive(Clone, Copy, Debug, Eq, PartialEq, Structural)]
pub enum QuoteAction {
    Wait,
    Keep { order_id: OrderId },
    Cancel { order_id: OrderId },
    Replace { order_id: OrderId, price: Money, qty: u32 },
    Submit { price: Money, qty: u32 },
}

#[derive(Clone, Copy, Debug, Eq, PartialEq, Structural)]
pub enum QuoteReason {
    SameSidePatience,
    OppositeQuoteProbe,
    UrgentProtectedLimit,
    ExistingQuoteMatches,
    QueuePriorityLost,
    PauseRequested,
    PendingReconsideration,
    EmptyBook,
    IncompleteBook,
}

#[derive(Clone, Copy, Debug, Eq, PartialEq, Structural)]
pub struct QuoteDecision {
    pub action: QuoteAction,
    pub reason: QuoteReason,
}

#[derive(Clone, Debug, Eq, PartialEq)]
pub enum QuoteError {
    InvalidGuardrail { field: &'static str, cents: i64 },
    InvalidTick { price: Money, tick: Money },
    OutsidePriceBand { price: Money, band_down: Money, band_up: Money },
    OutsidePriceCage { side: Side, price: Money, bound: Money },
    InvalidQuantity { qty: u32 },
}

/// Guardrails must be positive prices, an ordered band and positive lot and maximum.
pub open spec fn spec_guardrail_error(i: QuoteDecisionInputs) -> Option<QuoteError> {
    if i.tick.cents <= 0 {
        Some(QuoteError::InvalidGuardrail { field: "tick", cents: i.tick.cents })
    } else if i.band_down.cents <= 0 {
        Some(QuoteError::InvalidGuardrail { field: "band_down", cents: i.band_down.cents })
    } else if i.band_up.cents <= 0 {
        Some(QuoteError::InvalidGuardrail { field: "band_up", cents: i.band_up.cents })
    } else if i.protection_limit.cents <= 0 {
        Some(QuoteError::InvalidGuardrail { field: "protection_limit", cents: i.protection_limit.cents })
    } else if i.band_down.cents > i.band_up.cents || i.lot_size == 0 || i.max_order_qty == 0 {
        Some(QuoteError::InvalidGuardrail { field: "range_or_quantity", cents: 0 })
    } else {
        None
    }
}

pub fn validate_guardrails(inputs: &QuoteDecisionInputs) -> (r: Result<(), QuoteError>)
    ensures
        r == (match spec_guardrail_error(*inputs) {
            Some(e) => Err(e),
            None => Ok(()),
        }),
{
    if inputs.tick.cents() <= 0 {
        return Err(QuoteError::InvalidGuardrail { field: "tick", cents: inputs.tick.cents() });
    }
    if inputs.band_down.cents() <= 0 {
        return Err(QuoteError::InvalidGuardrail { field: "band_down", cents: inputs.band_down.cents() });
    }
    if inputs.band_up.cents() <= 0 {
        return Err(QuoteError::InvalidGuardrail { field: "band_up", cents: inputs.band_up.cents() });
    }
    if inputs.protection_limit.cents() <= 0 {
        return Err(
            QuoteError::InvalidGuardrail { field: "protection_limit", cents: inputs.protection_limit.cents() },
        );
    }
    if inputs.band_down.cents() > inputs.band_up.cents() || inputs.lot_size == 0 || inputs.max_order_qty == 0 {
        return Err(QuoteError::InvalidGuardrail { field: "range_or_quantity", cents: 0 });
    }
    Ok(())
}

/// The router accepts this quantity: positive, within the maximum, whole
/// lots for a buy; a sell may also clear exactly the odd-lot remainder of
/// the available shares.
pub open spec fn spec_qty_ok(i: QuoteDecisionInputs) -> bool {
    i.desired_qty > 0 && i.desired_qty <= i.max_order_qty && match i.side {
        Side::Buy => i.desired_qty % i.lot_size == 0,
        Side::Sell => i.desired_qty <= i.available_sell_qty && (i.desired_qty % i.lot_size == 0
            || i.desired_qty % i.lot_size == i.available_sell_qty % i.lot_size),
    }
}

/// Why the router would refuse a quote at `price`, if it would.
pub open spec fn spec_routed_error(i: QuoteDecisionInputs, price: Money) -> Option<QuoteError> {
    if price.cents <= 0 || price.cents % i.tick.cents != 0 {
        Some(QuoteError::InvalidTick { price, tick: i.tick })
    } else if price.cents < i.band_down.cents || price.cents > i.band_up.cents {
        Some(QuoteError::OutsidePriceBand { price, band_down: i.band_down, band_up: i.band_up })
    } else if i.cage_bound is Some && (match i.side {
        Side::Buy => price.cents > i.cage_bound->Some_0.cents,
        Side::Sell => price.cents < i.cage_bound->Some_0.cents,
    }) {
        Some(QuoteError::OutsidePriceCage { side: i.side, price, bound: i.cage_bound->Some_0 })
    } else if !spec_qty_ok(i) {
        Some(QuoteError::InvalidQuantity { qty: i.desired_qty })
    } else {
        None
    }
}

pub fn validate_routed_quote(inputs: &QuoteDecisionInputs, price: Money) -> (r: Result<(), QuoteError>)
    requires
        inputs.tick.cents > 0,
        inputs.lot_size > 0,
    ensures
        r == (match spec_routed_error(*inputs, price) {
            Some(e) => Err(e),
            None => Ok(()),
        }),
{
    if price.cents() <= 0 || price.cents() % inputs.tick.cents() != 0 {
        return Err(QuoteError::InvalidTick { price, tick: inputs.tick });
    }
    if price.cents() < inputs.band_down.cents() || price.cents() > inputs.band_up.cents() {
        return Err(
            QuoteError::OutsidePriceBand { price, band_down: inputs.band_down, band_up: inputs.band_up },
        );
    }
    if let Some(bound) = inputs.cage_bound {
        let outside = match inputs.side {
            Side::Buy => price.cents() > bound.cents(),
            Side::Sell => price.cents() < bound.cents(),
        };
        if outside {
            return Err(QuoteError::OutsidePriceCage { side: inputs.side, price, bound });
        }
    }
    let q = inputs.desired_qty;
    let lot = inputs.lot_size;
    let valid_qty = q > 0 && q <= inputs.max_order_qty && match inputs.side {
        Side::Buy => q % lot == 0,
        Side::Sell => q <= inputs.available_sell_qty && (q % lot == 0 || q % lot
            == inputs.available_sell_qty % lot),
    };
    if !valid_qty {
        return Err(QuoteError::InvalidQuantity { qty: q });
    }
    Ok(())
}

/// The candidate price for the urgency, capped by the protection limit: a
/// patient quote joins its own side, a normal one takes the opposite best,
/// an urgent one goes to the protection limit.
pub open spec fn spec_proposed(i: QuoteDecisionInputs) -> Option<(Money, QuoteReason)> {
    let candidate: Option<(Money, QuoteReason)> = match i.urgency {
        Urgency::Patient => match i.side {
            Side::Buy => match i.book.best_bid {
                Some(p) => Some((p, QuoteReason::SameSidePatience)),
                None => None,
            },
            Side::Sell => match i.book.best_ask {
                Some(p) => Some((p, QuoteReason::SameSidePatience)),
                None => None,
            },
        },
        Urgency::Normal => match (i.book.best_bid, i.book.best_ask) {
            (Some(bid), Some(ask)) => match i.side {
                Side::Buy => Some((ask, QuoteReason::OppositeQuoteProbe)),
                Side::Sell => Some((bid, QuoteReason::OppositeQuoteProbe)),
            },
            _ => None,
        },
        Urgency::Urgent => Some((i.protection_limit, QuoteReason::UrgentProtectedLimit)),
    };
    match candidate {
        None => None,
        Some(c) => Some(
            (
                match i.side {
                    Side::Buy => if c.0.cents <= i.protection_limit.cents {
                        c.0
                    } else {
                        i.protection_limit
                    },
                    Side::Sell => if c.0.cents >= i.protection_limit.cents {
                        c.0
                    } else {
                        i.protection_limit
                    },
                },
                c.1,
            ),
        ),
    }
}

pub fn proposed_quote(inputs: &QuoteDecisionInputs) -> (r: Option<(Money, QuoteReason)>)
    ensures
        r == spec_proposed(*inputs),
{
    let candidate: Option<(Money, QuoteReason)> = match inputs.urgency {
        Urgency::Patient => match inputs.side {
            Side::Buy => match inputs.book.best_bid {
                Some(p) => Some((p, QuoteReason::SameSidePatience)),
                None => None,
            },
            Side::Sell => match inputs.book.best_ask {
                Some(p) => Some((p, QuoteReason::SameSidePatience)),
                None => None,
            },
        },
        Urgency::Normal => match (inputs.book.best_bid, inputs.book.best_ask) {
            (Some(bid), Some(ask)) => match inputs.side {
                Side::Buy => Some((ask, QuoteReason::OppositeQuoteProbe)),
                Side::Sell => Some((bid, QuoteReason::OppositeQuoteProbe)),
            },
            _ => None,
        },
        Urgency::Urgent => Some((inputs.protection_limit, QuoteReason::UrgentProtectedLimit)),
    };
    match candidate {
        None => None,
        Some(c) => {
            let limit = inputs.protection_limit;
            let price = match inputs.side {
                Side::Buy => if c.0.cents() <= limit.cents() {
                    c.0
                } else {
                    limit
                },
                Side::Sell => if c.0.cents() >= limit.cents() {
                    c.0
                } else {
                    limit
                },
            };
            Some((price, c.1))
        },
    }
}

/// What to do with a live order when no new quote is placed: cancel it if
/// that is allowed now, otherwise keep it pending reconsideration.
pub open spec fn spec_standing_down(i: QuoteDecisionInputs, reason: QuoteReason) -> QuoteDecision {
    match i.active_order {
        Some(active) => if i.cancellable_now {
            QuoteDecision { action: QuoteAction::Cancel { order_id: active.order_id }, reason }
        } else {
            QuoteDecision {
                action: QuoteAction::Keep { order_id: active.order_id },
                reason: QuoteReason::PendingReconsideration,
            }
        },
        None => QuoteDecision { action: QuoteAction::Wait, reason },
    }
}

/// The full quote decision.
pub open spec fn spec_decide(i: QuoteDecisionInputs) -> Result<QuoteDecision, QuoteError> {
    if spec_guardrail_error(i) is Some {
        Err(spec_guardrail_error(i).unwrap())
    } else if i.pause is PauseAndRequestCancel {
        Ok(spec_standing_down(i, QuoteReason::PauseRequested))
    } else if spec_proposed(i) is None {
        Ok(
            spec_standing_down(
                i,
                if i.book.best_bid is None && i.book.best_ask is None {
                    QuoteReason::EmptyBook
                } else {
                    QuoteReason::IncompleteBook
                },
            ),
        )
    } else {
        let (price, reason) = spec_proposed(i).unwrap();
        if spec_routed_error(i, price) is Some {
            Err(spec_routed_error(i, price).unwrap())
        } else {
            Ok(
                match i.active_order {
                    Some(active) => if active.price == price && active.qty == i.desired_qty {
                        QuoteDecision {
                            action: QuoteAction::Keep { order_id: active.order_id },
                            reason: QuoteReason::ExistingQuoteMatches,
                        }
                    } else if i.cancellable_now {
                        QuoteDecision {
                            action: QuoteAction::Replace { order_id: active.order_id, price, qty: i.desired_qty },
                            reason: QuoteReason::QueuePriorityLost,
                        }
                    } else {
                        QuoteDecision {
                            action: QuoteAction::Keep { order_id: active.order_id },
                            reason: QuoteReason::PendingReconsideration,
                        }
                    },
                    None => QuoteDecision { action: QuoteAction::Submit { price, qty: i.desired_qty }, reason },
                },
            )
        }
    }
}

fn standing_down(inputs: &QuoteDecisionInputs, reason: QuoteReason) -> (d: QuoteDecision)
    ensures
        d == spec_standing_down(*inputs, reason),
{
    match inputs.active_order {
        Some(active) => if inputs.cancellable_now {
            QuoteDecision { action: QuoteAction::Cancel { order_id: active.order_id }, reason }
        } else {
            QuoteDecision {
                action: QuoteAction::Keep { order_id: active.order_id },
                reason: QuoteReason::PendingReconsideration,
            }
        },
        None => QuoteDecision { action: QuoteAction::Wait, reason },
    }
}

pub fn decide_quote(inputs: &QuoteDecisionInputs) -> (r: Result<QuoteDecision, QuoteError>)
    ensures
        r == spec_decide(*inputs),
{
    validate_guardrails(inputs)?;
    if let PauseAssessment::PauseAndRequestCancel(_) = inputs.pause {
        return Ok(standing_down(inputs, QuoteReason::PauseRequested));
    }
    let proposed = proposed_quote(inputs);
    let (price, reason) = match proposed {
        Some(p) => p,
        None => {
            let reason = if inputs.book.best_bid.is_none() && inputs.book.best_ask.is_none() {
                QuoteReason::EmptyBook
            } else {
                QuoteReason::IncompleteBook
            };
            return Ok(standing_down(inputs, reason));
        },
    };
    validate_routed_quote(inputs, price)?;
    Ok(
        match inputs.active_order {
            Some(active) => if active.price == price && active.qty == inputs.desired_qty {
                QuoteDecision {
                    action: QuoteAction::Keep { order_id: active.order_id },
                    reason: QuoteReason::ExistingQuoteMatches,
                }
            } else if inputs.cancellable_now {
                QuoteDecision {
                    action: QuoteAction::Replace { order_id: active.order_id, price, qty: inputs.desired_qty },
                    reason: QuoteReason::QueuePriorityLost,
                }
            } else {
                QuoteDecision {
                    action: QuoteAction::Keep { order_id: active.order_id },
                    reason: QuoteReason::PendingReconsideration,
                }
            },
            None => QuoteDecision { action: QuoteAction::Submit { price, qty: inputs.desired_qty }, reason },
        },
    )
}

/// Every order the policy places (a submission or a replacement) is one the
/// router accepts: a positive tick multiple inside the band and the cage, for
/// a valid quantity, never beyond the protection limit, and never while a
/// pause is requested.
pub proof fn law_placed_quotes_pass_router_guards(i: QuoteDecisionInputs)
    ensures
        ({
            let d = spec_decide(i);
            let placed = d is Ok && (d->Ok_0.action is Submit || d->Ok_0.action is Replace);
            let price = match d->Ok_0.action {
                QuoteAction::Submit { price, .. } => price,
                QuoteAction::Replace { price, .. } => price,
                _ => i.protection_limit,
            };
            placed ==> {
                &&& !(i.pause is PauseAndRequestCancel)
                &&& spec_guardrail_error(i) is None
                &&& spec_routed_error(i, price) is None
                &&& price.cents > 0 && price.cents % i.tick.cents == 0
                &&& i.band_down.cents <= price.cents <= i.band_up.cents
                &&& spec_qty_ok(i)
                &&& (i.side == Side::Buy ==> price.cents <= i.protection_limit.cents)
                &&& (i.side == Side::Sell ==> price.cents >= i.protection_limit.cents)
            }
        }),
{
}

} // verus!
