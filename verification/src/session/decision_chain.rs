//! Arithmetic of the belief-driven decision chain: per-account derived random
//! streams, the share delta a directional target asks for, the next child
//! order that A-share lot rules let a plan route, and the soft-budget request
//! that reserves funds for that child only.
use vstd::prelude::*;

use super::events::{fnv_fold, le_bytes, TradingPhase, FNV_OFFSET_BASIS, FNV_PRIME};
use super::market::SecurityCategory;
use super::reservations::{buy_order_reservation, buy_reservation_is};
use crate::ids::{AccountId, Money, MoneyError, PlanId, Side, StockCode};
use crate::plans::allocation::{AllocationClass, AllocationExperience, AllocationRequest};
use crate::plans::candidates::{
    contribution_is, fundamental_signal, normalized_score, price_volume_signal, price_volume_of, spec_fundamental_range,
    spec_normalized, spec_technical, spec_trend, technical_signal, trend_signal, CandidateError, CandidateSignals,
    RelativeStrengthIndex, SignalContribution, SignalUnavailableReason, SimpleMovingAverage, TechnicalError,
    ValuationOutcome,
};
use crate::plans::quote_policy::{decide_quote, spec_decide, ActiveQuote, BookTop, QuoteDecision, QuoteDecisionInputs};
use crate::plans::state::{spec_remaining_share_qty, PlanStatus, TradingPlan, Urgency};
use crate::plans::urgency::PauseAssessment;
use vstd::utf8::encode_utf8;

verus! {

/// The seed of an account's own stream for `tag`: FNV-1a over the tag's
/// bytes and the account id's little-endian bytes, mixed into `seed`.
pub open spec fn spec_derived_stream(seed: u64, tag: Seq<char>, id: AccountId) -> u64 {
    seed ^ fnv_fold(FNV_OFFSET_BASIS, encode_utf8(tag) + le_bytes(id.0))
}

/// An independent stream seed per account and purpose, never shared with the
/// session's own generator.
pub fn derived_stream(seed: u64, tag: &str, id: AccountId) -> (r: u64)
    ensures
        r == spec_derived_stream(seed, tag@, id),
{
    let bytes = tag.as_bytes();
    let ghost all = encode_utf8(tag@) + le_bytes(id.0);
    let mut hash: u64 = FNV_OFFSET_BASIS;
    let mut i: usize = 0;
    while i < bytes.len()
        invariant
            0 <= i <= bytes@.len(),
            bytes@ == encode_utf8(tag@),
            all == encode_utf8(tag@) + le_bytes(id.0),
            hash == fnv_fold(FNV_OFFSET_BASIS, all.take(i as int)),
        decreases bytes@.len() - i,
    {
        proof {
            assert(all.take(i + 1).drop_last() =~= all.take(i as int));
            assert(all.take(i + 1).last() == bytes@[i as int]);
        }
        hash = (hash ^ bytes[i] as u64).wrapping_mul(FNV_PRIME);
        i += 1;
    }
    let n = bytes.len();
    let mut k: u64 = 0;
    while k < 8
        invariant
            0 <= k <= 8,
            n == encode_utf8(tag@).len(),
            all == encode_utf8(tag@) + le_bytes(id.0),
            hash == fnv_fold(FNV_OFFSET_BASIS, all.take(n + k)),
        decreases 8 - k,
    {
        let byte = ((id.0 >> (8 * k)) & 0xff) as u8;
        proof {
            assert(all.take(n + k + 1).drop_last() =~= all.take(n + k));
            assert(all.take(n + k + 1).last() == le_bytes(id.0)[k as int]);
        }
        hash = (hash ^ byte as u64).wrapping_mul(FNV_PRIME);
        k += 1;
    }
    assert(all.take(n + 8) =~= all);
    seed ^ hash
}

/// The net share change towards a directional target: buys round down to
/// whole lots (a lot of zero counts as one share), sells may carry odd lots;
/// no change is `None`.
pub open spec fn spec_desired_delta_shares(direction: Side, target_qty: u32, held_qty: u32, lot: u32) -> Option<u32> {
    let lot_or_one: int = if lot == 0 {
        1
    } else {
        lot as int
    };
    let delta: int = match direction {
        Side::Buy => if target_qty > held_qty {
            target_qty - held_qty
        } else {
            0
        },
        Side::Sell => if held_qty > target_qty {
            held_qty - target_qty
        } else {
            0
        },
    };
    let rounded: int = match direction {
        Side::Buy => delta - delta % lot_or_one,
        Side::Sell => delta,
    };
    if rounded > 0 {
        Some(rounded as u32)
    } else {
        None
    }
}

pub fn desired_delta_shares(direction: Side, target_qty: u32, held_qty: u32, lot: u32) -> (r: Option<u32>)
    ensures
        r == spec_desired_delta_shares(direction, target_qty, held_qty, lot),
{
    let delta = match direction {
        Side::Buy => target_qty.saturating_sub(held_qty),
        Side::Sell => held_qty.saturating_sub(target_qty),
    };
    let lot_or_one = if lot == 0 {
        1
    } else {
        lot
    };
    assert(delta % lot_or_one <= delta) by (nonlinear_arith)
        requires
            lot_or_one > 0,
    ;
    let delta = match direction {
        Side::Buy => delta - delta % lot_or_one,
        Side::Sell => delta,
    };
    if delta > 0 {
        Some(delta)
    } else {
        None
    }
}

/// The smallest of three quantities.
pub open spec fn min3(a: u32, b: u32, c: u32) -> u32 {
    let ab = if a <= b {
        a
    } else {
        b
    };
    if ab <= c {
        ab
    } else {
        c
    }
}

/// The next buy child: the parent remainder capped by the strategy's order
/// size and the exchange maximum, rounded down to whole lots; a child of no
/// whole lot is not routable.
pub open spec fn spec_next_routable_buy_qty(remaining: u32, order_size: u32, lot_size: u32, max_order_qty: u32) -> Option<
    u32,
> {
    let capped = min3(remaining, order_size, max_order_qty);
    let qty = capped - capped % lot_size;
    if qty > 0 {
        Some(qty as u32)
    } else {
        None
    }
}

fn min_u32(a: u32, b: u32) -> (r: u32)
    ensures
        r == (if a <= b {
            a
        } else {
            b
        }),
{
    if a <= b {
        a
    } else {
        b
    }
}

pub fn next_routable_buy_qty(remaining: u32, order_size: u32, lot_size: u32, max_order_qty: u32) -> (r: Option<u32>)
    requires
        lot_size > 0,
    ensures
        r == spec_next_routable_buy_qty(remaining, order_size, lot_size, max_order_qty),
{
    let capped = min_u32(min_u32(remaining, order_size), max_order_qty);
    assert(capped % lot_size <= capped) by (nonlinear_arith)
        requires
            lot_size > 0,
    ;
    let qty = capped - capped % lot_size;
    if qty > 0 {
        Some(qty)
    } else {
        None
    }
}

/// The next sell child. A partial reduction is whole lots only; an order that
/// disposes of the whole sellable balance may carry its odd lot.
pub open spec fn spec_next_routable_sell_qty(remaining: u32, sellable: u32, lot_size: u32, max_order_qty: u32) -> Option<
    u32,
> {
    let capped = min3(remaining, sellable, max_order_qty);
    if capped == sellable {
        if capped > 0 {
            Some(capped)
        } else {
            None
        }
    } else {
        let qty = capped - capped % lot_size;
        if qty > 0 {
            Some(qty as u32)
        } else {
            None
        }
    }
}

pub fn next_routable_sell_qty(remaining: u32, sellable: u32, lot_size: u32, max_order_qty: u32) -> (r: Option<u32>)
    requires
        lot_size > 0,
    ensures
        r == spec_next_routable_sell_qty(remaining, sellable, lot_size, max_order_qty),
{
    let capped = min_u32(min_u32(remaining, sellable), max_order_qty);
    if capped == sellable {
        return if capped > 0 {
            Some(capped)
        } else {
            None
        };
    }
    assert(capped % lot_size <= capped) by (nonlinear_arith)
        requires
            lot_size > 0,
    ;
    let qty = capped - capped % lot_size;
    if qty > 0 {
        Some(qty)
    } else {
        None
    }
}

/// The reservation of every buy child that a plan might route succeeds and
/// exceeds the child's gross by a representable fee.
pub open spec fn child_reservation_fits<C: Fn(Money) -> Result<Money, MoneyError>, T: Fn(Money) -> Result<
    Money,
    MoneyError,
>>(commission: C, transfer_fee: T, price: Money, qty: u32) -> bool {
    forall|r: Result<Money, MoneyError>|
        #[trigger] buy_reservation_is(commission, transfer_fee, price, qty, Money { cents: 0 }, r) ==> r is Ok
            && i64::MIN <= r->Ok_0.cents - price.cents * qty <= i64::MAX
}

/// The soft-budget request of a buy plan's next child: `None` when no whole
/// lot is routable; otherwise the child's gross at `reservation_price` as
/// requested cash and the fees of its reservation as the fee reserve.
pub open spec fn is_buy_allocation_request<C: Fn(Money) -> Result<Money, MoneyError>, T: Fn(Money) -> Result<
    Money,
    MoneyError,
>>(
    commission: C,
    transfer_fee: T,
    plan_id: PlanId,
    code: StockCode,
    confidence_bp: u32,
    reservation_price: Money,
    qty: u32,
    request: AllocationRequest,
) -> bool {
    exists|total: Money|
        {
            &&& #[trigger] buy_reservation_is(
                commission,
                transfer_fee,
                reservation_price,
                qty,
                Money { cents: 0 },
                Ok(total),
            )
            &&& request == AllocationRequest {
                plan_id,
                code,
                side: Side::Buy,
                class: AllocationClass::ExistingPlan,
                confidence_bp,
                requested_cash: Money { cents: (reservation_price.cents * qty) as i64 },
                fee_reserve: Money { cents: (total.cents - reservation_price.cents * qty) as i64 },
                requested_sell_qty: 0,
                sellable_qty: 0,
                experience: AllocationExperience { failure_influence: 0, long_stuck: false, drawdown_bp: None },
            }
        }
}

/// Builds the buy-side soft-budget request of a plan for the next child that
/// may be routed, so that funds and fees are reserved for that child and not
/// for the whole unsubmitted parent.
pub fn buy_allocation_request<C: Fn(Money) -> Result<Money, MoneyError>, T: Fn(Money) -> Result<Money, MoneyError>>(
    commission: C,
    transfer_fee: T,
    plan_id: PlanId,
    code: StockCode,
    confidence_bp: u32,
    reservation_price: Money,
    remaining: u32,
    order_size: u32,
    lot_size: u32,
    max_order_qty: u32,
) -> (r: Option<AllocationRequest>)
    requires
        forall|m: Money| #[trigger] commission.requires((m,)),
        forall|m: Money| #[trigger] transfer_fee.requires((m,)),
        lot_size > 0,
        spec_next_routable_buy_qty(remaining, order_size, lot_size, max_order_qty) matches Some(q)
            ==> child_reservation_fits(commission, transfer_fee, reservation_price, q),
    ensures
        match spec_next_routable_buy_qty(remaining, order_size, lot_size, max_order_qty) {
            None => r is None,
            Some(q) => r matches Some(request) && is_buy_allocation_request(
                commission,
                transfer_fee,
                plan_id,
                code,
                confidence_bp,
                reservation_price,
                q,
                request,
            ),
        },
{
    let qty = match next_routable_buy_qty(remaining, order_size, lot_size, max_order_qty) {
        None => {
            return None;
        },
        Some(q) => q,
    };
    let total = buy_order_reservation(commission, transfer_fee, reservation_price, qty, Money { cents: 0 });
    assert(buy_reservation_is(commission, transfer_fee, reservation_price, qty, Money { cents: 0 }, total));
    let total = match total {
        Err(_) => {
            assert(false);
            return None;
        },
        Ok(t) => t,
    };
    let requested_cash = match reservation_price.mul_shares(qty) {
        Err(_) => {
            assert(false);
            return None;
        },
        Ok(m) => m,
    };
    let fee_reserve = match total.checked_sub(requested_cash) {
        Err(_) => {
            assert(false);
            return None;
        },
        Ok(m) => m,
    };
    let request = AllocationRequest {
        plan_id,
        code,
        side: Side::Buy,
        class: AllocationClass::ExistingPlan,
        confidence_bp,
        requested_cash,
        fee_reserve,
        requested_sell_qty: 0,
        sellable_qty: 0,
        experience: AllocationExperience { failure_influence: 0, long_stuck: false, drawdown_bp: None },
    };
    Some(request)
}

/// A routable buy child is a positive number of whole lots that exceeds none
/// of the parent remainder, the strategy's order size and the exchange maximum.
pub proof fn law_buy_child_is_whole_lots(remaining: u32, order_size: u32, lot_size: u32, max_order_qty: u32)
    requires
        lot_size > 0,
    ensures
        spec_next_routable_buy_qty(remaining, order_size, lot_size, max_order_qty) matches Some(q) ==> {
            &&& q > 0
            &&& q % lot_size == 0
            &&& q <= remaining
            &&& q <= order_size
            &&& q <= max_order_qty
        },
{
    let capped = min3(remaining, order_size, max_order_qty);
    assert(capped % lot_size <= capped) by (nonlinear_arith)
        requires
            lot_size > 0,
    ;
    assert((capped - capped % lot_size) % (lot_size as int) == 0) by (nonlinear_arith)
        requires
            lot_size > 0,
            capped >= 0,
    {
        vstd::arithmetic::div_mod::lemma_fundamental_div_mod(capped as int, lot_size as int);
        vstd::arithmetic::div_mod::lemma_mod_multiples_basic(capped as int / lot_size as int, lot_size as int);
    }
}

/// A routable sell child exceeds none of the remainder, the sellable balance
/// and the exchange maximum, and is whole lots unless it disposes of the whole
/// sellable balance.
pub proof fn law_sell_child_splits_no_odd_lot(remaining: u32, sellable: u32, lot_size: u32, max_order_qty: u32)
    requires
        lot_size > 0,
    ensures
        spec_next_routable_sell_qty(remaining, sellable, lot_size, max_order_qty) matches Some(q) ==> {
            &&& q > 0
            &&& q <= remaining
            &&& q <= sellable
            &&& q <= max_order_qty
            &&& (q == sellable || q % lot_size == 0)
        },
{
    let capped = min3(remaining, sellable, max_order_qty);
    assert(capped % lot_size <= capped) by (nonlinear_arith)
        requires
            lot_size > 0,
    ;
    assert((capped - capped % lot_size) % (lot_size as int) == 0) by (nonlinear_arith)
        requires
            lot_size > 0,
            capped >= 0,
    {
        vstd::arithmetic::div_mod::lemma_fundamental_div_mod(capped as int, lot_size as int);
        vstd::arithmetic::div_mod::lemma_mod_multiples_basic(capped as int / lot_size as int, lot_size as int);
    }
}

// ---- the quote of a plan's next child -----------------------------------------

/// An account's own per-share valuation range of a stock.
#[derive(Clone, Copy, Debug, PartialEq, Eq, Structural)]
pub struct PerShareRange {
    pub pessimistic: Money,
    pub optimistic: Money,
}

pub open spec fn min_money(a: Money, b: Money) -> Money {
    if a.cents <= b.cents {
        a
    } else {
        b
    }
}

pub open spec fn max_money(a: Money, b: Money) -> Money {
    if a.cents >= b.cents {
        a
    } else {
        b
    }
}

/// The protected limit of a child: a buy pays at most the optimistic end of
/// the account's valuation (the upper band without one), a sell takes at
/// least the pessimistic end (the lower band without one); both stay inside
/// the continuous-auction cage when there is one.
pub open spec fn protection_limit(
    side: Side,
    per_share: Option<PerShareRange>,
    band_down: Money,
    band_up: Money,
    cage_bound: Option<Money>,
) -> Money {
    let valued = match side {
        Side::Buy => match per_share {
            Some(range) => min_money(range.optimistic, band_up),
            None => band_up,
        },
        Side::Sell => match per_share {
            Some(range) => max_money(range.pessimistic, band_down),
            None => band_down,
        },
    };
    match cage_bound {
        Some(cage) => match side {
            Side::Buy => min_money(valued, cage),
            Side::Sell => max_money(valued, cage),
        },
        None => valued,
    }
}

/// The book the quote policy sees: in an auction an empty book is quoted at
/// the last price on both sides.
pub open spec fn quoted_book(book: BookTop, last_price: Money, phase: TradingPhase) -> BookTop {
    if book.best_bid is None && book.best_ask is None && (phase == TradingPhase::CallAuction || phase
        == TradingPhase::ClosingAuction) {
        BookTop { best_bid: Some(last_price), best_ask: Some(last_price) }
    } else {
        book
    }
}

/// The quantity of the next child the lot rules allow (zero for none).
pub open spec fn child_qty(
    side: Side,
    remaining: u32,
    order_size: u32,
    sellable: u32,
    lot_size: u32,
    category: SecurityCategory,
) -> u32 {
    let max_order_qty: u32 = if category == SecurityCategory::ChiNext {
        300_000
    } else {
        1_000_000
    };
    let routable = match side {
        Side::Buy => spec_next_routable_buy_qty(remaining, order_size, lot_size, max_order_qty),
        Side::Sell => spec_next_routable_sell_qty(remaining, sellable, lot_size, max_order_qty),
    };
    match routable {
        Some(q) => q,
        None => 0,
    }
}

/// What the quote policy is asked about a plan's next child.
pub open spec fn child_quote_inputs(
    side: Side,
    remaining: u32,
    order_size: u32,
    sellable: u32,
    lot_size: u32,
    category: SecurityCategory,
    per_share: Option<PerShareRange>,
    band_down: Money,
    band_up: Money,
    cage_bound: Option<Money>,
    book: BookTop,
    last_price: Money,
    phase: TradingPhase,
    tick: Money,
    urgency: Urgency,
    pause: PauseAssessment,
    active_child: Option<ActiveQuote>,
    cancellable_now: bool,
) -> QuoteDecisionInputs {
    QuoteDecisionInputs {
        side,
        urgency,
        pause,
        book: quoted_book(book, last_price, phase),
        protection_limit: protection_limit(side, per_share, band_down, band_up, cage_bound),
        band_down,
        band_up,
        tick,
        cage_bound,
        desired_qty: child_qty(side, remaining, order_size, sellable, lot_size, category),
        lot_size,
        max_order_qty: if category == SecurityCategory::ChiNext {
            300_000
        } else {
            1_000_000
        },
        available_sell_qty: sellable,
        active_order: active_child,
        cancellable_now,
    }
}

/// Decides the quote of a plan's next child: the protected limit, the next
/// routable quantity, the cash that a buy child reserves at that limit
/// (`None` when it exceeds the plan's soft budget, or when no child is
/// routable), then the quote policy's decision.
pub fn plan_child_quote<C: Fn(Money) -> Result<Money, MoneyError>, T: Fn(Money) -> Result<Money, MoneyError>>(
    commission: C,
    transfer_fee: T,
    side: Side,
    remaining: u32,
    order_size: u32,
    sellable: u32,
    lot_size: u32,
    category: SecurityCategory,
    allocated_cash: Money,
    per_share: Option<PerShareRange>,
    band_down: Money,
    band_up: Money,
    cage_bound: Option<Money>,
    book: BookTop,
    last_price: Money,
    phase: TradingPhase,
    tick: Money,
    urgency: Urgency,
    pause: PauseAssessment,
    active_child: Option<ActiveQuote>,
    cancellable_now: bool,
) -> (r: Option<QuoteDecision>)
    requires
        lot_size > 0,
        forall|m: Money| #[trigger] commission.requires((m,)),
        forall|m: Money| #[trigger] transfer_fee.requires((m,)),
        ({
            let inputs = child_quote_inputs(
                side, remaining, order_size, sellable, lot_size, category, per_share, band_down, band_up,
                cage_bound, book, last_price, phase, tick, urgency, pause, active_child, cancellable_now,
            );
            let qty = inputs.desired_qty;
            let limit = inputs.protection_limit;
            qty > 0 ==> match side {
                Side::Buy => forall|res: Result<Money, MoneyError>|
                    #[trigger] buy_reservation_is(commission, transfer_fee, limit, qty, Money { cents: 0 }, res) ==> (
                    res is Ok && (res->Ok_0.cents <= allocated_cash.cents ==> spec_decide(inputs) is Ok)),
                Side::Sell => 0 <= allocated_cash.cents ==> spec_decide(inputs) is Ok,
            }
        }),
    ensures
        ({
            let inputs = child_quote_inputs(
                side, remaining, order_size, sellable, lot_size, category, per_share, band_down, band_up,
                cage_bound, book, last_price, phase, tick, urgency, pause, active_child, cancellable_now,
            );
            let qty = inputs.desired_qty;
            let limit = inputs.protection_limit;
            if qty == 0 {
                r is None
            } else {
                match side {
                    Side::Buy => exists|total: Money|
                        {
                            &&& #[trigger] buy_reservation_is(
                                commission,
                                transfer_fee,
                                limit,
                                qty,
                                Money { cents: 0 },
                                Ok(total),
                            )
                            &&& total.cents > allocated_cash.cents ==> r is None
                            &&& total.cents <= allocated_cash.cents ==> r == Some(spec_decide(inputs)->Ok_0)
                        },
                    Side::Sell => if 0 > allocated_cash.cents {
                        r is None
                    } else {
                        r == Some(spec_decide(inputs)->Ok_0)
                    },
                }
            }
        }),
{
    let valued = match side {
        Side::Buy => match per_share {
            Some(range) => if range.optimistic.cents <= band_up.cents {
                range.optimistic
            } else {
                band_up
            },
            None => band_up,
        },
        Side::Sell => match per_share {
            Some(range) => if range.pessimistic.cents >= band_down.cents {
                range.pessimistic
            } else {
                band_down
            },
            None => band_down,
        },
    };
    let limit = match cage_bound {
        Some(cage) => match side {
            Side::Buy => if valued.cents <= cage.cents {
                valued
            } else {
                cage
            },
            Side::Sell => if valued.cents >= cage.cents {
                valued
            } else {
                cage
            },
        },
        None => valued,
    };
    let max_order_qty = category.max_order_qty(false);
    let routable = match side {
        Side::Buy => next_routable_buy_qty(remaining, order_size, lot_size, max_order_qty),
        Side::Sell => next_routable_sell_qty(remaining, sellable, lot_size, max_order_qty),
    };
    let qty = match routable {
        Some(q) => q,
        None => 0,
    };
    if qty == 0 {
        return None;
    }
    let required = match side {
        Side::Buy => {
            let reserved = buy_order_reservation(commission, transfer_fee, limit, qty, Money { cents: 0 });
            assert(buy_reservation_is(commission, transfer_fee, limit, qty, Money { cents: 0 }, reserved));
            match reserved {
                Ok(m) => m,
                Err(_) => {
                    assert(false);
                    return None;
                },
            }
        },
        Side::Sell => Money { cents: 0 },
    };
    if required.cents > allocated_cash.cents {
        return None;
    }
    let shown = if book.best_bid.is_none() && book.best_ask.is_none() && (phase == TradingPhase::CallAuction || phase
        == TradingPhase::ClosingAuction) {
        BookTop { best_bid: Some(last_price), best_ask: Some(last_price) }
    } else {
        book
    };
    let inputs = QuoteDecisionInputs {
        side,
        urgency,
        pause,
        book: shown,
        protection_limit: limit,
        band_down,
        band_up,
        tick,
        cage_bound,
        desired_qty: qty,
        lot_size,
        max_order_qty,
        available_sell_qty: sellable,
        active_order: active_child,
        cancellable_now,
    };
    match decide_quote(&inputs) {
        Ok(decision) => Some(decision),
        Err(_) => {
            assert(false);
            None
        },
    }
}


/// The indicator readings of a stock's history.
#[derive(Clone, Copy, Debug, PartialEq, Eq)]
pub struct TechnicalReadings {
    pub sma20: Result<SimpleMovingAverage, TechnicalError>,
    pub sma60: Result<SimpleMovingAverage, TechnicalError>,
    pub rsi14: Result<RelativeStrengthIndex, TechnicalError>,
}

/// What an account observes of a stock, in basis points: returns over thirty
/// minutes and five days, volume relative to normal, order-book imbalance
/// (each `None` when unobserved or not finite), and the indicator readings
/// when there is history.
#[derive(Clone, Copy, Debug, PartialEq, Eq)]
pub struct SignalReadings {
    pub thirty_minute_return_bp: Option<i32>,
    pub five_day_return_bp: Option<i32>,
    pub relative_volume_bp: Option<i32>,
    pub order_book_imbalance_bp: Option<i32>,
    pub technical: Option<TechnicalReadings>,
}

/// The readings used when a stock has no history: every indicator short of it.
pub open spec fn readings_or_none(t: Option<TechnicalReadings>) -> TechnicalReadings {
    match t {
        Some(t) => t,
        None => TechnicalReadings {
            sma20: Err(TechnicalError::InsufficientHistory),
            sma60: Err(TechnicalError::InsufficientHistory),
            rsi14: Err(TechnicalError::InsufficientHistory),
        },
    }
}

/// The fundamental family: from the account's valuation of the stock, and
/// unavailable when the account holds no belief about it.
pub open spec fn fundamental_view(current: Money, valuation: Option<ValuationOutcome>) -> Result<
    (Option<int>, Seq<SignalUnavailableReason>),
    CandidateError,
> {
    match valuation {
        Some(ValuationOutcome::Available { per_share }) => match spec_fundamental_range(
            current,
            per_share.pessimistic,
            per_share.optimistic,
        ) {
            Ok(v) => Ok((Some(v), Seq::empty())),
            Err(e) => Err(e),
        },
        _ => Ok((None, seq![SignalUnavailableReason::FundamentalUnavailable])),
    }
}

/// The imbalance score: the imbalance against a full book of 10000 bp.
pub open spec fn imbalance_score_view(imbalance_bp: Option<i32>) -> Option<int> {
    match imbalance_bp {
        Some(b) => Some(spec_normalized(b as int, 10_000)),
        None => None,
    }
}

/// Assembles the five signal families of one candidate stock: fundamental
/// from the valuation, trend and price-volume from the market readings,
/// technical from the indicators, and the experience family unavailable (a
/// belief-driven account has no cost experience). A fundamental error comes
/// before a technical one.
pub fn build_candidate_signals(current: Money, valuation: Option<ValuationOutcome>, readings: &SignalReadings) -> (r:
    Result<CandidateSignals, CandidateError>)
    ensures
        match fundamental_view(current, valuation) {
            Err(e) => r == Err::<CandidateSignals, CandidateError>(e),
            Ok(fv) => match spec_technical(
                readings_or_none(readings.technical).sma20,
                readings_or_none(readings.technical).sma60,
                readings_or_none(readings.technical).rsi14,
            ) {
                Err(e) => r == Err::<CandidateSignals, CandidateError>(e),
                Ok(tv) => r matches Ok(s) && {
                    &&& contribution_is(s.fundamental, fv)
                    &&& contribution_is(
                        s.trend,
                        spec_trend(readings.thirty_minute_return_bp, readings.five_day_return_bp),
                    )
                    &&& contribution_is(
                        s.price_volume,
                        price_volume_of(
                            readings.thirty_minute_return_bp,
                            readings.relative_volume_bp,
                            imbalance_score_view(readings.order_book_imbalance_bp),
                        ),
                    )
                    &&& contribution_is(s.technical, tv)
                    &&& contribution_is(s.experience, (None, seq![SignalUnavailableReason::MissingObservation]))
                },
            },
        },
{
    let fundamental = match valuation {
        Some(v) => fundamental_signal(current, &v)?,
        None => SignalContribution::unavailable(SignalUnavailableReason::FundamentalUnavailable),
    };
    let trend = trend_signal(readings.thirty_minute_return_bp, readings.five_day_return_bp)?;
    let imbalance = match readings.order_book_imbalance_bp {
        Some(bp) => Some(normalized_score(bp as i64, 10_000)?),
        None => None,
    };
    let price_volume = price_volume_signal(readings.thirty_minute_return_bp, readings.relative_volume_bp, imbalance)?;
    let technical_readings = match readings.technical {
        Some(t) => t,
        None => TechnicalReadings {
            sma20: Err(TechnicalError::InsufficientHistory),
            sma60: Err(TechnicalError::InsufficientHistory),
            rsi14: Err(TechnicalError::InsufficientHistory),
        },
    };
    let technical = technical_signal(&technical_readings.sma20, &technical_readings.sma60, &technical_readings.rsi14)?;
    let experience = SignalContribution::unavailable(SignalUnavailableReason::MissingObservation);
    Ok(CandidateSignals { fundamental, trend, price_volume, technical, experience })
}


/// The soft-budget request of an active share-count plan for its next
/// routable child: a buy asks for the child's cash and fees at the
/// reservation price (the day's upper limit); a sell asks for shares within
/// what is sellable. `None` for a paused plan, a fraction target, a target
/// already reached, or no routable child.
pub fn plan_allocation_request<C: Fn(Money) -> Result<Money, MoneyError>, T: Fn(Money) -> Result<Money, MoneyError>>(
    commission: C,
    transfer_fee: T,
    plan: &TradingPlan,
    reservation_price: Money,
    sellable: u32,
    order_size: u32,
    lot_size: u32,
    max_order_qty: u32,
) -> (r: Option<AllocationRequest>)
    requires
        forall|m: Money| #[trigger] commission.requires((m,)),
        forall|m: Money| #[trigger] transfer_fee.requires((m,)),
        lot_size > 0,
        plan.status == PlanStatus::Active && plan.direction == Side::Buy ==> (spec_remaining_share_qty(*plan) matches Some(
            rest,
        ) ==> (spec_next_routable_buy_qty(rest, order_size, lot_size, max_order_qty) matches Some(q)
            ==> child_reservation_fits(commission, transfer_fee, reservation_price, q))),
    ensures
        plan.status != PlanStatus::Active ==> r is None,
        plan.status == PlanStatus::Active ==> match spec_remaining_share_qty(*plan) {
            None => r is None,
            Some(rest) => match plan.direction {
                Side::Buy => match spec_next_routable_buy_qty(rest, order_size, lot_size, max_order_qty) {
                    None => r is None,
                    Some(q) => r matches Some(request) && is_buy_allocation_request(
                        commission,
                        transfer_fee,
                        plan.plan_id,
                        plan.code,
                        plan.confidence_bp,
                        reservation_price,
                        q,
                        request,
                    ),
                },
                Side::Sell => match spec_next_routable_sell_qty(rest, sellable, lot_size, max_order_qty) {
                    None => r is None,
                    Some(q) => r == Some(
                        AllocationRequest {
                            plan_id: plan.plan_id,
                            code: plan.code,
                            side: Side::Sell,
                            class: AllocationClass::ExistingPlan,
                            confidence_bp: plan.confidence_bp,
                            requested_cash: Money { cents: 0 },
                            fee_reserve: Money { cents: 0 },
                            requested_sell_qty: q,
                            sellable_qty: sellable,
                            experience: AllocationExperience {
                                failure_influence: 0,
                                long_stuck: false,
                                drawdown_bp: None,
                            },
                        },
                    ),
                },
            },
        },
{
    match plan.status {
        PlanStatus::Active => {},
        _ => {
            return None;
        },
    }
    let remaining = match plan.remaining_share_qty() {
        Some(q) => q,
        None => {
            return None;
        },
    };
    match plan.direction {
        Side::Buy => buy_allocation_request(
            commission,
            transfer_fee,
            plan.plan_id,
            plan.code.clone(),
            plan.confidence_bp,
            reservation_price,
            remaining,
            order_size,
            lot_size,
            max_order_qty,
        ),
        Side::Sell => {
            let qty = match next_routable_sell_qty(remaining, sellable, lot_size, max_order_qty) {
                Some(q) => q,
                None => {
                    return None;
                },
            };
            Some(
                AllocationRequest {
                    plan_id: plan.plan_id,
                    code: plan.code.clone(),
                    side: Side::Sell,
                    class: AllocationClass::ExistingPlan,
                    confidence_bp: plan.confidence_bp,
                    requested_cash: Money::zero(),
                    fee_reserve: Money::zero(),
                    requested_sell_qty: qty,
                    sellable_qty: sellable,
                    experience: AllocationExperience { failure_influence: 0, long_stuck: false, drawdown_bp: None },
                },
            )
        },
    }
}

} // verus!
