//! Parent orders of large accounts: a directional limit target becomes a
//! recoverable parent order with at most one child in flight. A child that is
//! still working is repeated as is (keeping its queue priority); otherwise the
//! next child is paced over the minutes left, in whole lots for buys. Only
//! real fills advance a parent.
use vstd::prelude::*;

use super::auction::AuctionOrderSnap;
use super::events::TradingPhase;
use super::execution::{Intent, ParentOrderPlan};
use super::reconciliation::RestingOrder;
use crate::code_order::{code_bytes, code_lt, code_precedes, lemma_bytes_lt_transitive, lemma_code_lt_total};
use crate::ids::{Money, OrderId, Side, StockCode};

verus! {

/// How long a parent order lives: one trading day of market minutes.
pub const PARENT_ORDER_HORIZON_MINUTES: u64 = 240;

/// A directional limit target of one stock, as the strategy asked it.
#[derive(Debug, PartialEq, Eq)]
pub struct ParentRequest {
    pub code: StockCode,
    pub side: Side,
    pub price: Money,
    pub target_qty: u32,
}

impl Clone for ParentRequest {
    fn clone(&self) -> (r: Self)
        ensures
            r == *self,
    {
        ParentRequest { code: self.code.clone(), side: self.side, price: self.price, target_qty: self.target_qty }
    }
}

/// The intents to route after materializing parent orders, and the working
/// orders that new parents claimed as their first child (they leave the
/// ordinary NPC cancellation lifetime).
#[derive(Clone, Debug, PartialEq, Eq)]
pub struct ParentMaterialization {
    pub desired: Vec<Intent>,
    pub claimed: Vec<(StockCode, OrderId)>,
}

// ---- the current child of a parent ----------------------------------------

/// `pair` is the parent's active child, resting in the continuous book.
pub open spec fn is_continuous_child(plan: ParentOrderPlan, pair: (StockCode, RestingOrder)) -> bool {
    &&& pair.0@ == plan.code@
    &&& pair.1.side == plan.side
    &&& plan.active_child_order_id == Some(pair.1.id)
    &&& plan.active_child_remaining_qty == Some(pair.1.qty)
}

/// `pair` is the parent's active child, queued in the call auction.
pub open spec fn is_auction_child(plan: ParentOrderPlan, pair: (StockCode, AuctionOrderSnap)) -> bool {
    &&& pair.0@ == plan.code@
    &&& pair.1.side == plan.side
    &&& plan.active_child_order_id == Some(OrderId(pair.1.order_id))
    &&& plan.active_child_remaining_qty == Some(pair.1.qty)
}

pub open spec fn first_continuous_child(plan: ParentOrderPlan, orders: Seq<(StockCode, RestingOrder)>) -> Option<
    RestingOrder,
>
    decreases orders.len(),
{
    if orders.len() == 0 {
        None
    } else if is_continuous_child(plan, orders[0]) {
        Some(orders[0].1)
    } else {
        first_continuous_child(plan, orders.drop_first())
    }
}

pub open spec fn first_auction_child(plan: ParentOrderPlan, orders: Seq<(StockCode, AuctionOrderSnap)>) -> Option<
    AuctionOrderSnap,
>
    decreases orders.len(),
{
    if orders.len() == 0 {
        None
    } else if is_auction_child(plan, orders[0]) {
        Some(orders[0].1)
    } else {
        first_auction_child(plan, orders.drop_first())
    }
}

/// `a * b`, or `u32::MAX` when the product does not fit.
pub open spec fn sat_mul(a: u32, b: u32) -> u32 {
    if a * b > u32::MAX {
        u32::MAX
    } else {
        (a * b) as u32
    }
}

/// Division rounding up.
pub open spec fn ceil_div(a: int, b: int) -> int {
    if a % b == 0 {
        a / b
    } else {
        a / b + 1
    }
}

/// The paced size of the next child: the remainder spread over the minutes
/// left, raised to at least one lot (whole lots), at least the parent's child
/// size, and at most the remainder.
pub open spec fn paced_child_qty(plan: ParentOrderPlan, market_minute: u64, lot_size: u32) -> u32 {
    let remaining = plan.target_qty - plan.filled_qty;
    let minutes_left: int = if plan.expires_market_minute > market_minute {
        plan.expires_market_minute - market_minute
    } else {
        1
    };
    let pace: int = if ceil_div(remaining, minutes_left) > u32::MAX {
        u32::MAX as int
    } else {
        ceil_div(remaining, minutes_left)
    };
    let lots: u32 = if pace / (lot_size as int) < 1 {
        1
    } else {
        (pace / (lot_size as int)) as u32
    };
    let paced = sat_mul(lots, lot_size);
    let sized: int = if plan.child_qty >= paced {
        plan.child_qty as int
    } else {
        paced as int
    };
    (if sized <= remaining {
        sized
    } else {
        remaining
    }) as u32
}

/// The child intent of a live parent: the working child repeated as is (not
/// during the closing auction, when the continuous book is frozen), or a new
/// paced child; nothing for an expired or filled parent, or for a buy whose
/// remainder is less than a lot.
pub open spec fn spec_parent_child_intent(
    plan: ParentOrderPlan,
    market_minute: u64,
    continuous: Seq<(StockCode, RestingOrder)>,
    auction: Seq<(StockCode, AuctionOrderSnap)>,
    phase: TradingPhase,
    lot_size: u32,
) -> Option<Intent> {
    if plan.expires_market_minute <= market_minute || plan.filled_qty >= plan.target_qty {
        None
    } else {
        match first_continuous_child(plan, continuous) {
            Some(order) => if phase == TradingPhase::ClosingAuction {
                None
            } else {
                Some(Intent::PlaceLimit { code: plan.code, side: order.side, price: plan.limit_price, qty: order.qty })
            },
            None => match first_auction_child(plan, auction) {
                Some(order) => Some(
                    Intent::PlaceLimit { code: plan.code, side: order.side, price: plan.limit_price, qty: order.qty },
                ),
                None => if plan.side == Side::Buy && plan.target_qty - plan.filled_qty < lot_size {
                    None
                } else {
                    Some(
                        Intent::PlaceLimit {
                            code: plan.code,
                            side: plan.side,
                            price: plan.limit_price,
                            qty: paced_child_qty(plan, market_minute, lot_size),
                        },
                    )
                },
            },
        }
    }
}

pub open spec fn push_opt<A>(s: Seq<A>, o: Option<A>) -> Seq<A> {
    match o {
        Some(x) => s.push(x),
        None => s,
    }
}

fn find_continuous_child(plan: &ParentOrderPlan, orders: &Vec<(StockCode, RestingOrder)>) -> (r: Option<RestingOrder>)
    ensures
        r == first_continuous_child(*plan, orders@),
{
    let mut i: usize = 0;
    assert(orders@.skip(0) =~= orders@);
    while i < orders.len()
        invariant
            0 <= i <= orders@.len(),
            first_continuous_child(*plan, orders@) == first_continuous_child(*plan, orders@.skip(i as int)),
        decreases orders@.len() - i,
    {
        let ghost rest = orders@.skip(i as int);
        assert(rest[0] == orders@[i as int]);
        let order = orders[i].1;
        if orders[i].0.same_as(&plan.code) && order.side == plan.side && plan.active_child_order_id == Some(order.id)
            && plan.active_child_remaining_qty == Some(order.qty) {
            return Some(order);
        }
        assert(rest.drop_first() =~= orders@.skip(i + 1));
        i += 1;
    }
    None
}

fn find_auction_child(plan: &ParentOrderPlan, orders: &Vec<(StockCode, AuctionOrderSnap)>) -> (r: Option<
    AuctionOrderSnap,
>)
    ensures
        r == first_auction_child(*plan, orders@),
{
    let mut i: usize = 0;
    assert(orders@.skip(0) =~= orders@);
    while i < orders.len()
        invariant
            0 <= i <= orders@.len(),
            first_auction_child(*plan, orders@) == first_auction_child(*plan, orders@.skip(i as int)),
        decreases orders@.len() - i,
    {
        let ghost rest = orders@.skip(i as int);
        assert(rest[0] == orders@[i as int]);
        let order = orders[i].1;
        if orders[i].0.same_as(&plan.code) && order.side == plan.side && plan.active_child_order_id == Some(
            OrderId(order.order_id),
        ) && plan.active_child_remaining_qty == Some(order.qty) {
            return Some(order);
        }
        assert(rest.drop_first() =~= orders@.skip(i + 1));
        i += 1;
    }
    None
}

fn saturating_mul_u32(a: u32, b: u32) -> (r: u32)
    ensures
        r == sat_mul(a, b),
{
    assert((a as u64) * (b as u64) <= 0xffff_ffffu64 * 0xffff_ffffu64) by (nonlinear_arith);
    let wide = (a as u64) * (b as u64);
    if wide > u32::MAX as u64 {
        u32::MAX
    } else {
        wide as u32
    }
}

fn paced_qty(plan: &ParentOrderPlan, market_minute: u64, lot_size: u32) -> (r: u32)
    requires
        lot_size > 0,
        plan.filled_qty <= plan.target_qty,
    ensures
        r == paced_child_qty(*plan, market_minute, lot_size),
{
    let remaining = plan.target_qty - plan.filled_qty;
    let minutes_left: u64 = if plan.expires_market_minute > market_minute {
        plan.expires_market_minute - market_minute
    } else {
        1
    };
    let whole = (remaining as u64) / minutes_left;
    let ceil = if (remaining as u64) % minutes_left == 0 {
        whole
    } else {
        assert(whole <= remaining) by (nonlinear_arith)
            requires
                whole == (remaining as u64) / minutes_left,
                minutes_left >= 1,
        ;
        whole + 1
    };
    let pace: u32 = if ceil > u32::MAX as u64 {
        u32::MAX
    } else {
        ceil as u32
    };
    let lots: u32 = if pace / lot_size < 1 {
        1
    } else {
        pace / lot_size
    };
    let paced = saturating_mul_u32(lots, lot_size);
    let sized = if plan.child_qty >= paced {
        plan.child_qty
    } else {
        paced
    };
    if sized <= remaining {
        sized
    } else {
        remaining
    }
}

/// Queues the child intent of a live parent order (see
/// [`spec_parent_child_intent`]).
pub fn append_parent_child_or_working_intent(
    plan: &ParentOrderPlan,
    market_minute: u64,
    continuous: &Vec<(StockCode, RestingOrder)>,
    auction: &Vec<(StockCode, AuctionOrderSnap)>,
    phase: TradingPhase,
    lot_size: u32,
    desired: &mut Vec<Intent>,
)
    requires
        lot_size > 0,
    ensures
        final(desired)@ == push_opt(
            old(desired)@,
            spec_parent_child_intent(*plan, market_minute, continuous@, auction@, phase, lot_size),
        ),
{
    if plan.expires_market_minute <= market_minute || plan.filled_qty >= plan.target_qty {
        return;
    }
    match find_continuous_child(plan, continuous) {
        Some(order) => {
            if phase == TradingPhase::ClosingAuction {
                return;
            }
            desired.push(
                Intent::PlaceLimit { code: plan.code.clone(), side: order.side, price: plan.limit_price, qty: order.qty },
            );
            return;
        },
        None => {},
    }
    match find_auction_child(plan, auction) {
        Some(order) => {
            desired.push(
                Intent::PlaceLimit { code: plan.code.clone(), side: order.side, price: plan.limit_price, qty: order.qty },
            );
            return;
        },
        None => {},
    }
    let remaining = plan.remaining_qty();
    if plan.side == Side::Buy && remaining < lot_size {
        return;
    }
    let qty = paced_qty(plan, market_minute, lot_size);
    desired.push(Intent::PlaceLimit { code: plan.code.clone(), side: plan.side, price: plan.limit_price, qty });
}

// ---- the requests of one round --------------------------------------------

/// The limit target that an intent asks for, if it is a limit placement.
pub open spec fn limit_request(intent: Intent) -> Option<ParentRequest> {
    match intent {
        Intent::PlaceLimit { code, side, price, qty } => Some(ParentRequest { code, side, price, target_qty: qty }),
        _ => None,
    }
}

/// `s` with `r` stored under its code: it replaces a request of that code,
/// or goes before the first request of a later code.
pub open spec fn upsert_request(s: Seq<ParentRequest>, r: ParentRequest) -> Seq<ParentRequest>
    decreases s.len(),
{
    if s.len() == 0 {
        seq![r]
    } else if s[0].code@ == r.code@ {
        seq![r] + s.drop_first()
    } else if code_lt(r.code, s[0].code) {
        seq![r] + s
    } else {
        seq![s[0]] + upsert_request(s.drop_first(), r)
    }
}

/// The limit targets of a round by stock code: the last target of a stock wins.
pub open spec fn requests_of(intents: Seq<Intent>) -> Seq<ParentRequest>
    decreases intents.len(),
{
    if intents.len() == 0 {
        Seq::empty()
    } else {
        match limit_request(intents.last()) {
            Some(r) => upsert_request(requests_of(intents.drop_last()), r),
            None => requests_of(intents.drop_last()),
        }
    }
}

/// The intents that are not limit placements, in order.
pub open spec fn passthrough_of(intents: Seq<Intent>) -> Seq<Intent>
    decreases intents.len(),
{
    if intents.len() == 0 {
        Seq::empty()
    } else if limit_request(intents.last()) is Some {
        passthrough_of(intents.drop_last())
    } else {
        passthrough_of(intents.drop_last()).push(intents.last())
    }
}

/// The request of `code`, if any.
pub open spec fn find_request(s: Seq<ParentRequest>, code: Seq<char>) -> Option<ParentRequest>
    decreases s.len(),
{
    if s.len() == 0 {
        None
    } else if s[0].code@ == code {
        Some(s[0])
    } else {
        find_request(s.drop_first(), code)
    }
}

/// `s` without the first request of `code`.
pub open spec fn remove_request(s: Seq<ParentRequest>, code: Seq<char>) -> Seq<ParentRequest>
    decreases s.len(),
{
    if s.len() == 0 {
        s
    } else if s[0].code@ == code {
        s.drop_first()
    } else {
        seq![s[0]] + remove_request(s.drop_first(), code)
    }
}

fn upsert_request_exec(s: &mut Vec<ParentRequest>, r: ParentRequest)
    ensures
        final(s)@ == upsert_request(old(s)@, r),
{
    let ghost s0 = s@;
    let mut i: usize = 0;
    assert(s0.take(0) + s0.skip(0) =~= s0);
    while i < s.len()
        invariant
            0 <= i <= s@.len(),
            s@ == s0,
            s0 == old(s)@,
            upsert_request(s0, r) == s0.take(i as int) + upsert_request(s0.skip(i as int), r),
        decreases s@.len() - i,
    {
        let ghost rest = s0.skip(i as int);
        assert(rest[0] == s0[i as int]);
        assert(rest.len() > 0);
        if s[i].code.same_as(&r.code) {
            assert(upsert_request(rest, r) == seq![r] + rest.drop_first());
            assert(rest.drop_first() =~= s0.skip(i + 1));
            s.set(i, r);
            assert(s@ =~= s0.take(i as int) + (seq![r] + s0.skip(i + 1)));
            return;
        }
        if code_precedes(&r.code, &s[i].code) {
            assert(upsert_request(rest, r) == seq![r] + rest);
            assert(rest =~= s0.skip(i as int));
            s.insert(i, r);
            assert(s@ =~= s0.take(i as int) + (seq![r] + rest));
            return;
        }
        assert(rest.drop_first() =~= s0.skip(i + 1));
        assert(s0.take(i as int) + seq![s0[i as int]] =~= s0.take(i + 1));
        i += 1;
    }
    assert(s0.skip(i as int) =~= Seq::<ParentRequest>::empty());
    s.push(r);
    assert(s@ =~= s0.take(i as int) + seq![r]);
}

fn take_request(s: &mut Vec<ParentRequest>, code: &StockCode) -> (found: Option<ParentRequest>)
    ensures
        found == find_request(old(s)@, code@),
        final(s)@ == remove_request(old(s)@, code@),
{
    let ghost s0 = s@;
    let mut i: usize = 0;
    assert(s0.take(0) + s0.skip(0) =~= s0);
    while i < s.len()
        invariant
            0 <= i <= s@.len(),
            s@ == s0,
            s0 == old(s)@,
            find_request(s0, code@) == find_request(s0.skip(i as int), code@),
            remove_request(s0, code@) == s0.take(i as int) + remove_request(s0.skip(i as int), code@),
        decreases s@.len() - i,
    {
        let ghost rest = s0.skip(i as int);
        assert(rest[0] == s0[i as int]);
        assert(rest.len() > 0);
        if s[i].code.same_as(code) {
            assert(find_request(rest, code@) == Some(rest[0]));
            assert(remove_request(rest, code@) == rest.drop_first());
            let found = s.remove(i);
            assert(s@ =~= s0.take(i as int) + rest.drop_first());
            return Some(found);
        }
        assert(rest.drop_first() =~= s0.skip(i + 1));
        assert(s0.take(i as int) + seq![s0[i as int]] =~= s0.take(i + 1));
        i += 1;
    }
    assert(s0.skip(i as int) =~= Seq::<ParentRequest>::empty());
    assert(s0.take(i as int) =~= s0);
    None
}

// ---- existing parents ------------------------------------------------------

/// One existing parent reconciled with the round's requests: an expired
/// parent is dropped (and its stock's request with it); an opposite-side
/// request replaces it (the request stays to open a new parent); a same-side
/// request only revises its limit; a live parent queues its child intent.
pub open spec fn existing_step(
    state: (Seq<ParentRequest>, Seq<ParentOrderPlan>, Seq<Intent>),
    plan: ParentOrderPlan,
    market_minute: u64,
    continuous: Seq<(StockCode, RestingOrder)>,
    auction: Seq<(StockCode, AuctionOrderSnap)>,
    phase: TradingPhase,
    lot_size: u32,
) -> (Seq<ParentRequest>, Seq<ParentOrderPlan>, Seq<Intent>) {
    let (requests, kept, desired) = state;
    let found = find_request(requests, plan.code@);
    let rest = remove_request(requests, plan.code@);
    if plan.expires_market_minute <= market_minute {
        (rest, kept, desired)
    } else {
        match found {
            Some(r) => if r.side != plan.side {
                (upsert_request(rest, r), kept, desired)
            } else {
                let revised = ParentOrderPlan {
                    code: plan.code,
                    side: plan.side,
                    target_qty: plan.target_qty,
                    filled_qty: plan.filled_qty,
                    child_qty: plan.child_qty,
                    active_child_order_id: plan.active_child_order_id,
                    active_child_remaining_qty: plan.active_child_remaining_qty,
                    linked_plan_id: plan.linked_plan_id,
                    limit_price: r.price,
                    expires_market_minute: plan.expires_market_minute,
                };
                (
                    rest,
                    kept.push(revised),
                    push_opt(
                        desired,
                        spec_parent_child_intent(revised, market_minute, continuous, auction, phase, lot_size),
                    ),
                )
            },
            None => (
                rest,
                kept.push(plan),
                push_opt(desired, spec_parent_child_intent(plan, market_minute, continuous, auction, phase, lot_size)),
            ),
        }
    }
}

pub open spec fn existing_fold(
    state: (Seq<ParentRequest>, Seq<ParentOrderPlan>, Seq<Intent>),
    plans: Seq<ParentOrderPlan>,
    market_minute: u64,
    continuous: Seq<(StockCode, RestingOrder)>,
    auction: Seq<(StockCode, AuctionOrderSnap)>,
    phase: TradingPhase,
    lot_size: u32,
) -> (Seq<ParentRequest>, Seq<ParentOrderPlan>, Seq<Intent>)
    decreases plans.len(),
{
    if plans.len() == 0 {
        state
    } else {
        existing_step(
            existing_fold(state, plans.drop_last(), market_minute, continuous, auction, phase, lot_size),
            plans.last(),
            market_minute,
            continuous,
            auction,
            phase,
            lot_size,
        )
    }
}

// ---- new parents -----------------------------------------------------------

pub open spec fn is_claimable_continuous(r: ParentRequest, pair: (StockCode, RestingOrder)) -> bool {
    &&& pair.0@ == r.code@
    &&& pair.1.side == r.side
    &&& pair.1.price == r.price
    &&& pair.1.qty <= r.target_qty
}

pub open spec fn is_claimable_auction(r: ParentRequest, pair: (StockCode, AuctionOrderSnap)) -> bool {
    &&& pair.0@ == r.code@
    &&& pair.1.side == r.side
    &&& pair.1.limit == r.price
    &&& pair.1.qty <= r.target_qty
}

pub open spec fn first_claimable_continuous(r: ParentRequest, orders: Seq<(StockCode, RestingOrder)>) -> Option<
    RestingOrder,
>
    decreases orders.len(),
{
    if orders.len() == 0 {
        None
    } else if is_claimable_continuous(r, orders[0]) {
        Some(orders[0].1)
    } else {
        first_claimable_continuous(r, orders.drop_first())
    }
}

pub open spec fn first_claimable_auction(r: ParentRequest, orders: Seq<(StockCode, AuctionOrderSnap)>) -> Option<
    AuctionOrderSnap,
>
    decreases orders.len(),
{
    if orders.len() == 0 {
        None
    } else if is_claimable_auction(r, orders[0]) {
        Some(orders[0].1)
    } else {
        first_claimable_auction(r, orders.drop_first())
    }
}

/// A working order of the same stock, side and price, no larger than the
/// target, that a new parent adopts as its first child: continuous first.
pub open spec fn claimed_child(
    r: ParentRequest,
    continuous: Seq<(StockCode, RestingOrder)>,
    auction: Seq<(StockCode, AuctionOrderSnap)>,
) -> Option<(OrderId, u32)> {
    match first_claimable_continuous(r, continuous) {
        Some(order) => Some((order.id, order.qty)),
        None => match first_claimable_auction(r, auction) {
            Some(order) => Some((OrderId(order.order_id), order.qty)),
            None => None,
        },
    }
}

/// A quarter of the target in whole lots, at least one lot, at most the target.
pub open spec fn initial_child_qty(target_qty: u32, lot_size: u32) -> u32 {
    let quarter = target_qty / 4;
    let lots: u32 = if quarter / lot_size < 1 {
        1
    } else {
        quarter / lot_size
    };
    let sized = sat_mul(lots, lot_size);
    if sized <= target_qty {
        sized
    } else {
        target_qty
    }
}

pub open spec fn new_parent_plan(
    r: ParentRequest,
    market_minute: u64,
    continuous: Seq<(StockCode, RestingOrder)>,
    auction: Seq<(StockCode, AuctionOrderSnap)>,
    lot_size: u32,
) -> ParentOrderPlan {
    let claim = claimed_child(r, continuous, auction);
    ParentOrderPlan {
        code: r.code,
        side: r.side,
        target_qty: r.target_qty,
        filled_qty: 0,
        child_qty: initial_child_qty(r.target_qty, lot_size),
        active_child_order_id: match claim {
            Some(c) => Some(c.0),
            None => None,
        },
        active_child_remaining_qty: match claim {
            Some(c) => Some(c.1),
            None => None,
        },
        linked_plan_id: None,
        limit_price: r.price,
        expires_market_minute: (market_minute + PARENT_ORDER_HORIZON_MINUTES) as u64,
    }
}

/// A new parent paces its children at a quarter of its target in whole lots:
/// the child is never above the target; when the quarter holds a lot, the
/// child is the largest whole-lot quantity within the quarter; otherwise it
/// is one lot, or the whole target when that is smaller.
pub proof fn law_new_parent_child_is_a_quarter_in_whole_lots(
    r: ParentRequest,
    market_minute: u64,
    continuous: Seq<(StockCode, RestingOrder)>,
    auction: Seq<(StockCode, AuctionOrderSnap)>,
    lot_size: u32,
)
    requires
        lot_size > 0,
    ensures
        ({
            let c = new_parent_plan(r, market_minute, continuous, auction, lot_size).child_qty;
            let quarter = r.target_qty / 4;
            &&& c <= r.target_qty
            &&& quarter >= lot_size ==> c % lot_size == 0 && c <= quarter < c + lot_size
            &&& quarter < lot_size ==> c == (if lot_size <= r.target_qty {
                lot_size
            } else {
                r.target_qty
            })
        }),
{
    let quarter = r.target_qty / 4;
    let k = quarter / lot_size;
    vstd::arithmetic::div_mod::lemma_fundamental_div_mod(quarter as int, lot_size as int);
    vstd::arithmetic::div_mod::lemma_mod_multiples_basic(k as int, lot_size as int);
    if quarter >= lot_size {
        assert(k >= 1) by (nonlinear_arith)
            requires
                quarter == lot_size * k + quarter % lot_size,
                quarter % lot_size < lot_size,
                quarter >= lot_size,
                lot_size > 0,
        ;
        assert(k * lot_size <= quarter) by (nonlinear_arith)
            requires
                quarter == lot_size * k + quarter % lot_size,
                quarter % lot_size >= 0,
        ;
        assert(quarter < k * lot_size + lot_size) by (nonlinear_arith)
            requires
                quarter == lot_size * k + quarter % lot_size,
                quarter % lot_size < lot_size,
        ;
        assert(sat_mul(k, lot_size) == k * lot_size);
    } else {
        assert(k == 0) by (nonlinear_arith)
            requires
                quarter == lot_size * k + quarter % lot_size,
                quarter % lot_size >= 0,
                quarter < lot_size,
                k >= 0,
        ;
        assert(sat_mul(1, lot_size) == lot_size);
    }
}

/// `s` with `p` stored under its code, in code order.
pub open spec fn insert_plan(s: Seq<ParentOrderPlan>, p: ParentOrderPlan) -> Seq<ParentOrderPlan>
    decreases s.len(),
{
    if s.len() == 0 {
        seq![p]
    } else if s[0].code@ == p.code@ {
        seq![p] + s.drop_first()
    } else if code_lt(p.code, s[0].code) {
        seq![p] + s
    } else {
        seq![s[0]] + insert_plan(s.drop_first(), p)
    }
}

/// One remaining request: a zero or odd-lot target is passed on as is (the
/// authoritative checks reject it visibly); otherwise a new parent opens,
/// adopting a matching working order, and queues its child intent.
pub open spec fn new_step(
    state: (Seq<ParentOrderPlan>, Seq<Intent>, Seq<(StockCode, OrderId)>),
    r: ParentRequest,
    market_minute: u64,
    continuous: Seq<(StockCode, RestingOrder)>,
    auction: Seq<(StockCode, AuctionOrderSnap)>,
    phase: TradingPhase,
    lot_size: u32,
) -> (Seq<ParentOrderPlan>, Seq<Intent>, Seq<(StockCode, OrderId)>) {
    let (plans, desired, claimed) = state;
    if r.target_qty == 0 || r.target_qty % lot_size != 0 {
        (
            plans,
            desired.push(Intent::PlaceLimit { code: r.code, side: r.side, price: r.price, qty: r.target_qty }),
            claimed,
        )
    } else {
        let plan = new_parent_plan(r, market_minute, continuous, auction, lot_size);
        (
            insert_plan(plans, plan),
            push_opt(desired, spec_parent_child_intent(plan, market_minute, continuous, auction, phase, lot_size)),
            match claimed_child(r, continuous, auction) {
                Some(c) => claimed.push((r.code, c.0)),
                None => claimed,
            },
        )
    }
}

pub open spec fn new_fold(
    state: (Seq<ParentOrderPlan>, Seq<Intent>, Seq<(StockCode, OrderId)>),
    requests: Seq<ParentRequest>,
    market_minute: u64,
    continuous: Seq<(StockCode, RestingOrder)>,
    auction: Seq<(StockCode, AuctionOrderSnap)>,
    phase: TradingPhase,
    lot_size: u32,
) -> (Seq<ParentOrderPlan>, Seq<Intent>, Seq<(StockCode, OrderId)>)
    decreases requests.len(),
{
    if requests.len() == 0 {
        state
    } else {
        new_step(
            new_fold(state, requests.drop_last(), market_minute, continuous, auction, phase, lot_size),
            requests.last(),
            market_minute,
            continuous,
            auction,
            phase,
            lot_size,
        )
    }
}

/// The whole materialization: the parents after the round, the intents to
/// route (other intents first, then the children of existing parents, then
/// those of new parents, each in code order) and the adopted working orders.
pub open spec fn spec_materialization(
    parents: Seq<ParentOrderPlan>,
    intents: Seq<Intent>,
    market_minute: u64,
    continuous: Seq<(StockCode, RestingOrder)>,
    auction: Seq<(StockCode, AuctionOrderSnap)>,
    phase: TradingPhase,
    lot_size: u32,
) -> (Seq<ParentOrderPlan>, Seq<Intent>, Seq<(StockCode, OrderId)>) {
    let (requests, kept, desired) = existing_fold(
        (requests_of(intents), Seq::empty(), passthrough_of(intents)),
        parents,
        market_minute,
        continuous,
        auction,
        phase,
        lot_size,
    );
    new_fold((kept, desired, Seq::empty()), requests, market_minute, continuous, auction, phase, lot_size)
}

fn find_claimable_continuous(r: &ParentRequest, orders: &Vec<(StockCode, RestingOrder)>) -> (found: Option<
    RestingOrder,
>)
    ensures
        found == first_claimable_continuous(*r, orders@),
{
    let mut i: usize = 0;
    assert(orders@.skip(0) =~= orders@);
    while i < orders.len()
        invariant
            0 <= i <= orders@.len(),
            first_claimable_continuous(*r, orders@) == first_claimable_continuous(*r, orders@.skip(i as int)),
        decreases orders@.len() - i,
    {
        let ghost rest = orders@.skip(i as int);
        assert(rest[0] == orders@[i as int]);
        let order = orders[i].1;
        if orders[i].0.same_as(&r.code) && order.side == r.side && order.price.cents == r.price.cents && order.qty
            <= r.target_qty {
            return Some(order);
        }
        assert(rest.drop_first() =~= orders@.skip(i + 1));
        i += 1;
    }
    None
}

fn find_claimable_auction(r: &ParentRequest, orders: &Vec<(StockCode, AuctionOrderSnap)>) -> (found: Option<
    AuctionOrderSnap,
>)
    ensures
        found == first_claimable_auction(*r, orders@),
{
    let mut i: usize = 0;
    assert(orders@.skip(0) =~= orders@);
    while i < orders.len()
        invariant
            0 <= i <= orders@.len(),
            first_claimable_auction(*r, orders@) == first_claimable_auction(*r, orders@.skip(i as int)),
        decreases orders@.len() - i,
    {
        let ghost rest = orders@.skip(i as int);
        assert(rest[0] == orders@[i as int]);
        let order = orders[i].1;
        if orders[i].0.same_as(&r.code) && order.side == r.side && order.limit.cents == r.price.cents && order.qty
            <= r.target_qty {
            return Some(order);
        }
        assert(rest.drop_first() =~= orders@.skip(i + 1));
        i += 1;
    }
    None
}

fn claim_child(
    r: &ParentRequest,
    continuous: &Vec<(StockCode, RestingOrder)>,
    auction: &Vec<(StockCode, AuctionOrderSnap)>,
) -> (c: Option<(OrderId, u32)>)
    ensures
        c == claimed_child(*r, continuous@, auction@),
{
    match find_claimable_continuous(r, continuous) {
        Some(order) => Some((order.id, order.qty)),
        None => match find_claimable_auction(r, auction) {
            Some(order) => Some((OrderId(order.order_id), order.qty)),
            None => None,
        },
    }
}

fn insert_plan_exec(s: &mut Vec<ParentOrderPlan>, p: ParentOrderPlan)
    ensures
        final(s)@ == insert_plan(old(s)@, p),
{
    let ghost s0 = s@;
    let mut i: usize = 0;
    assert(s0.take(0) + s0.skip(0) =~= s0);
    while i < s.len()
        invariant
            0 <= i <= s@.len(),
            s@ == s0,
            s0 == old(s)@,
            insert_plan(s0, p) == s0.take(i as int) + insert_plan(s0.skip(i as int), p),
        decreases s@.len() - i,
    {
        let ghost rest = s0.skip(i as int);
        assert(rest[0] == s0[i as int]);
        assert(rest.len() > 0);
        if s[i].code.same_as(&p.code) {
            assert(insert_plan(rest, p) == seq![p] + rest.drop_first());
            assert(rest.drop_first() =~= s0.skip(i + 1));
            s.set(i, p);
            assert(s@ =~= s0.take(i as int) + (seq![p] + s0.skip(i + 1)));
            return;
        }
        if code_precedes(&p.code, &s[i].code) {
            assert(insert_plan(rest, p) == seq![p] + rest);
            s.insert(i, p);
            assert(s@ =~= s0.take(i as int) + (seq![p] + rest));
            return;
        }
        assert(rest.drop_first() =~= s0.skip(i + 1));
        assert(s0.take(i as int) + seq![s0[i as int]] =~= s0.take(i + 1));
        i += 1;
    }
    assert(s0.skip(i as int) =~= Seq::<ParentOrderPlan>::empty());
    s.push(p);
    assert(s@ =~= s0.take(i as int) + seq![p]);
}

fn initial_child(target_qty: u32, lot_size: u32) -> (r: u32)
    requires
        lot_size > 0,
    ensures
        r == initial_child_qty(target_qty, lot_size),
{
    let quarter = target_qty / 4;
    let lots: u32 = if quarter / lot_size < 1 {
        1
    } else {
        quarter / lot_size
    };
    let sized = saturating_mul_u32(lots, lot_size);
    if sized <= target_qty {
        sized
    } else {
        target_qty
    }
}

/// Turns one account's directional limit targets into parent orders with at
/// most one child in flight each (see [`spec_materialization`]). Intents
/// other than limit placements pass through unchanged.
pub fn materialize_parent_order_intents(
    parents: &mut Vec<ParentOrderPlan>,
    intents: Vec<Intent>,
    market_minute: u64,
    continuous: &Vec<(StockCode, RestingOrder)>,
    auction: &Vec<(StockCode, AuctionOrderSnap)>,
    phase: TradingPhase,
    lot_size: u32,
) -> (m: ParentMaterialization)
    requires
        lot_size > 0,
        market_minute + PARENT_ORDER_HORIZON_MINUTES <= u64::MAX,
    ensures
        (final(parents)@, m.desired@, m.claimed@) == spec_materialization(
            old(parents)@,
            intents@,
            market_minute,
            continuous@,
            auction@,
            phase,
            lot_size,
        ),
{
    // The round's requests and the other intents.
    let mut requests: Vec<ParentRequest> = Vec::new();
    let mut desired: Vec<Intent> = Vec::new();
    let mut i: usize = 0;
    while i < intents.len()
        invariant
            0 <= i <= intents@.len(),
            requests@ == requests_of(intents@.take(i as int)),
            desired@ == passthrough_of(intents@.take(i as int)),
        decreases intents@.len() - i,
    {
        proof {
            assert(intents@.take(i + 1).drop_last() =~= intents@.take(i as int));
            assert(intents@.take(i + 1).last() == intents@[i as int]);
        }
        match &intents[i] {
            Intent::PlaceLimit { code, side, price, qty } => {
                upsert_request_exec(
                    &mut requests,
                    ParentRequest { code: code.clone(), side: *side, price: *price, target_qty: *qty },
                );
            },
            other => {
                desired.push(other.clone());
            },
        }
        i += 1;
    }
    assert(intents@.take(intents@.len() as int) =~= intents@);

    // Existing parents, in their order.
    let ghost old_parents = parents@;
    let mut kept: Vec<ParentOrderPlan> = Vec::new();
    let mut j: usize = 0;
    while j < parents.len()
        invariant
            0 <= j <= parents@.len(),
            parents@ == old_parents,
            lot_size > 0,
            (requests@, kept@, desired@) == existing_fold(
                (requests_of(intents@), Seq::empty(), passthrough_of(intents@)),
                old_parents.take(j as int),
                market_minute,
                continuous@,
                auction@,
                phase,
                lot_size,
            ),
        decreases parents@.len() - j,
    {
        proof {
            assert(old_parents.take(j + 1).drop_last() =~= old_parents.take(j as int));
            assert(old_parents.take(j + 1).last() == old_parents[j as int]);
        }
        let plan = parents[j].clone();
        let found = take_request(&mut requests, &plan.code);
        if plan.expires_market_minute > market_minute {
            match found {
                Some(r) => {
                    if r.side != plan.side {
                        upsert_request_exec(&mut requests, r);
                    } else {
                        let revised = ParentOrderPlan { limit_price: r.price, ..plan };
                        append_parent_child_or_working_intent(
                            &revised,
                            market_minute,
                            continuous,
                            auction,
                            phase,
                            lot_size,
                            &mut desired,
                        );
                        kept.push(revised);
                    }
                },
                None => {
                    append_parent_child_or_working_intent(
                        &plan,
                        market_minute,
                        continuous,
                        auction,
                        phase,
                        lot_size,
                        &mut desired,
                    );
                    kept.push(plan);
                },
            }
        }
        j += 1;
    }
    assert(old_parents.take(old_parents.len() as int) =~= old_parents);

    // The requests left open new parents, in code order.
    let ghost left = requests@;
    let mut claimed: Vec<(StockCode, OrderId)> = Vec::new();
    let mut k: usize = 0;
    while k < requests.len()
        invariant
            0 <= k <= requests@.len(),
            requests@ == left,
            lot_size > 0,
            market_minute + PARENT_ORDER_HORIZON_MINUTES <= u64::MAX,
            (kept@, desired@, claimed@) == new_fold(
                (
                    existing_fold(
                        (requests_of(intents@), Seq::empty(), passthrough_of(intents@)),
                        old_parents,
                        market_minute,
                        continuous@,
                        auction@,
                        phase,
                        lot_size,
                    ).1,
                    existing_fold(
                        (requests_of(intents@), Seq::empty(), passthrough_of(intents@)),
                        old_parents,
                        market_minute,
                        continuous@,
                        auction@,
                        phase,
                        lot_size,
                    ).2,
                    Seq::empty(),
                ),
                left.take(k as int),
                market_minute,
                continuous@,
                auction@,
                phase,
                lot_size,
            ),
        decreases requests@.len() - k,
    {
        proof {
            assert(left.take(k + 1).drop_last() =~= left.take(k as int));
            assert(left.take(k + 1).last() == left[k as int]);
        }
        let r = requests[k].clone();
        if r.target_qty == 0 || r.target_qty % lot_size != 0 {
            desired.push(Intent::PlaceLimit { code: r.code, side: r.side, price: r.price, qty: r.target_qty });
        } else {
            let claim = claim_child(&r, continuous, auction);
            let plan = ParentOrderPlan {
                code: r.code.clone(),
                side: r.side,
                target_qty: r.target_qty,
                filled_qty: 0,
                child_qty: initial_child(r.target_qty, lot_size),
                active_child_order_id: match claim {
                    Some(c) => Some(c.0),
                    None => None,
                },
                active_child_remaining_qty: match claim {
                    Some(c) => Some(c.1),
                    None => None,
                },
                linked_plan_id: None,
                limit_price: r.price,
                expires_market_minute: market_minute + PARENT_ORDER_HORIZON_MINUTES,
            };
            match claim {
                Some(c) => {
                    claimed.push((r.code.clone(), c.0));
                },
                None => {},
            }
            append_parent_child_or_working_intent(
                &plan,
                market_minute,
                continuous,
                auction,
                phase,
                lot_size,
                &mut desired,
            );
            insert_plan_exec(&mut kept, plan);
        }
        k += 1;
    }
    assert(left.take(left.len() as int) =~= left);
    *parents = kept;
    ParentMaterialization { desired, claimed }
}

// ---- fills, submissions and cancellations of children ----------------------

/// Whether a fill of `order_id` on `side` is a fill of the parent's active child.
pub open spec fn fills_active_child(plan: ParentOrderPlan, side: Side, order_id: OrderId) -> bool {
    plan.side == side && plan.active_child_order_id == Some(order_id)
}

impl ParentOrderPlan {
    /// Advances the parent by a real fill of its active child: the filled
    /// quantity grows, the child's remainder shrinks (a fully filled child is
    /// released). Fills of other orders change nothing. Returns whether the
    /// parent reached its target.
    pub fn record_child_fill(&mut self, side: Side, order_id: OrderId, qty: u32) -> (completed: bool)
        requires
            fills_active_child(*old(self), side, order_id) ==> {
                &&& old(self).active_child_remaining_qty matches Some(rest) && qty <= rest
                &&& old(self).filled_qty + qty <= old(self).target_qty
            },
        ensures
            !fills_active_child(*old(self), side, order_id) ==> *final(self) == *old(self) && !completed,
            fills_active_child(*old(self), side, order_id) ==> {
                let rest = old(self).active_child_remaining_qty->Some_0 - qty;
                &&& final(self).filled_qty == old(self).filled_qty + qty
                &&& final(self).active_child_order_id == (if rest == 0 {
                    None
                } else {
                    old(self).active_child_order_id
                })
                &&& final(self).active_child_remaining_qty == (if rest == 0 {
                    None
                } else {
                    Some(rest as u32)
                })
                &&& final(self).code == old(self).code
                &&& final(self).side == old(self).side
                &&& final(self).target_qty == old(self).target_qty
                &&& final(self).child_qty == old(self).child_qty
                &&& final(self).linked_plan_id == old(self).linked_plan_id
                &&& final(self).limit_price == old(self).limit_price
                &&& final(self).expires_market_minute == old(self).expires_market_minute
                &&& completed == (final(self).filled_qty == final(self).target_qty)
            },
    {
        if self.side != side || self.active_child_order_id != Some(order_id) {
            return false;
        }
        let rest = match self.active_child_remaining_qty {
            Some(r) => r - qty,
            None => {
                return false;
            },
        };
        self.filled_qty = self.filled_qty + qty;
        if rest == 0 {
            self.active_child_order_id = None;
            self.active_child_remaining_qty = None;
        } else {
            self.active_child_remaining_qty = Some(rest);
        }
        self.filled_qty == self.target_qty
    }

    /// Links an order accepted on the parent's side as its one active child.
    pub fn record_child_submission(&mut self, side: Side, order_id: OrderId, qty: u32)
        requires
            old(self).side == side ==> old(self).active_child_order_id is None,
        ensures
            old(self).side != side ==> *final(self) == *old(self),
            old(self).side == side ==> *final(self) == (ParentOrderPlan {
                active_child_order_id: Some(order_id),
                active_child_remaining_qty: Some(qty),
                ..*old(self)
            }),
    {
        if self.side != side {
            return;
        }
        self.active_child_order_id = Some(order_id);
        self.active_child_remaining_qty = Some(qty);
    }

    /// Releases the active child when that order is cancelled.
    pub fn record_child_canceled(&mut self, order_id: OrderId)
        ensures
            old(self).active_child_order_id != Some(order_id) ==> *final(self) == *old(self),
            old(self).active_child_order_id == Some(order_id) ==> *final(self) == (ParentOrderPlan {
                active_child_order_id: None,
                active_child_remaining_qty: None,
                ..*old(self)
            }),
    {
        if self.active_child_order_id == Some(order_id) {
            self.active_child_order_id = None;
            self.active_child_remaining_qty = None;
        }
    }
}

// ---- the parent book stays in code order ------------------------------------

/// One parent per stock, in code order (the order of a map keyed by code).
pub open spec fn plans_in_code_order(s: Seq<ParentOrderPlan>) -> bool {
    forall|i: int, j: int| 0 <= i < j < s.len() ==> code_lt(#[trigger] s[i].code, #[trigger] s[j].code)
}

proof fn lemma_code_lt_transitive(a: StockCode, b: StockCode, c: StockCode)
    requires
        code_lt(a, b),
        code_lt(b, c),
    ensures
        code_lt(a, c),
{
    lemma_bytes_lt_transitive(code_bytes(a), code_bytes(b), code_bytes(c));
}

proof fn lemma_insert_plan_lower_bound(s: Seq<ParentOrderPlan>, p: ParentOrderPlan, x: StockCode)
    requires
        code_lt(x, p.code),
        forall|m: int| 0 <= m < s.len() ==> code_lt(x, #[trigger] s[m].code),
    ensures
        forall|k: int| 0 <= k < insert_plan(s, p).len() ==> code_lt(x, #[trigger] insert_plan(s, p)[k].code),
    decreases s.len(),
{
    if s.len() > 0 && !(s[0].code@ == p.code@) && !code_lt(p.code, s[0].code) {
        let t = s.drop_first();
        assert forall|m: int| 0 <= m < t.len() implies code_lt(x, #[trigger] t[m].code) by {
            assert(t[m] == s[m + 1]);
        }
        lemma_insert_plan_lower_bound(t, p, x);
        let r = insert_plan(s, p);
        assert forall|k: int| 0 <= k < r.len() implies code_lt(x, #[trigger] r[k].code) by {
            if k > 0 {
                assert(r[k] == insert_plan(t, p)[k - 1]);
            }
        }
    } else if s.len() > 0 && s[0].code@ == p.code@ {
        let r = insert_plan(s, p);
        assert forall|k: int| 0 <= k < r.len() implies code_lt(x, #[trigger] r[k].code) by {
            if k > 0 {
                assert(r[k] == s[k]);
            }
        }
    } else if s.len() > 0 {
        let r = insert_plan(s, p);
        assert forall|k: int| 0 <= k < r.len() implies code_lt(x, #[trigger] r[k].code) by {
            if k > 0 {
                assert(r[k] == s[k - 1]);
            }
        }
    }
}

proof fn lemma_insert_plan_keeps_order(s: Seq<ParentOrderPlan>, p: ParentOrderPlan)
    requires
        plans_in_code_order(s),
    ensures
        plans_in_code_order(insert_plan(s, p)),
    decreases s.len(),
{
    let r = insert_plan(s, p);
    if s.len() == 0 {
    } else if s[0].code@ == p.code@ {
        assert(code_bytes(s[0].code) == code_bytes(p.code));
        assert forall|i: int, j: int| 0 <= i < j < r.len() implies code_lt(#[trigger] r[i].code, #[trigger] r[j].code) by {
            assert(r[j] == s[j]);
            if i > 0 {
                assert(r[i] == s[i]);
            } else {
                assert(code_lt(s[0].code, s[j].code));
            }
        }
    } else if code_lt(p.code, s[0].code) {
        assert forall|i: int, j: int| 0 <= i < j < r.len() implies code_lt(#[trigger] r[i].code, #[trigger] r[j].code) by {
            assert(r[j] == s[j - 1]);
            if i > 0 {
                assert(r[i] == s[i - 1]);
            } else if j > 1 {
                assert(code_lt(s[0].code, s[j - 1].code));
                lemma_code_lt_transitive(p.code, s[0].code, s[j - 1].code);
            }
        }
    } else {
        let t = s.drop_first();
        assert(plans_in_code_order(t)) by {
            assert forall|i: int, j: int| 0 <= i < j < t.len() implies code_lt(#[trigger] t[i].code, #[trigger] t[j].code) by {
                assert(t[i] == s[i + 1]);
                assert(t[j] == s[j + 1]);
            }
        }
        lemma_insert_plan_keeps_order(t, p);
        lemma_code_lt_total(s[0].code, p.code);
        assert forall|m: int| 0 <= m < t.len() implies code_lt(s[0].code, #[trigger] t[m].code) by {
            assert(t[m] == s[m + 1]);
        }
        lemma_insert_plan_lower_bound(t, p, s[0].code);
        let u = insert_plan(t, p);
        assert forall|i: int, j: int| 0 <= i < j < r.len() implies code_lt(#[trigger] r[i].code, #[trigger] r[j].code) by {
            assert(r[j] == u[j - 1]);
            if i > 0 {
                assert(r[i] == u[i - 1]);
            }
        }
    }
}

proof fn lemma_existing_fold_keeps_order(
    requests: Seq<ParentRequest>,
    desired: Seq<Intent>,
    plans: Seq<ParentOrderPlan>,
    market_minute: u64,
    continuous: Seq<(StockCode, RestingOrder)>,
    auction: Seq<(StockCode, AuctionOrderSnap)>,
    phase: TradingPhase,
    lot_size: u32,
)
    requires
        plans_in_code_order(plans),
    ensures
        ({
            let kept = existing_fold(
                (requests, Seq::empty(), desired),
                plans,
                market_minute,
                continuous,
                auction,
                phase,
                lot_size,
            ).1;
            &&& plans_in_code_order(kept)
            &&& forall|k: int|
                0 <= k < kept.len() ==> exists|m: int| 0 <= m < plans.len() && (#[trigger] kept[k]).code == plans[m].code
        }),
    decreases plans.len(),
{
    if plans.len() > 0 {
        let front = plans.drop_last();
        assert(plans_in_code_order(front)) by {
            assert forall|i: int, j: int| 0 <= i < j < front.len() implies code_lt(#[trigger] front[i].code, #[trigger] front[j].code) by {
                assert(front[i] == plans[i]);
                assert(front[j] == plans[j]);
            }
        }
        lemma_existing_fold_keeps_order(requests, desired, front, market_minute, continuous, auction, phase, lot_size);
        let prev = existing_fold((requests, Seq::empty(), desired), front, market_minute, continuous, auction, phase, lot_size).1;
        let kept = existing_fold((requests, Seq::empty(), desired), plans, market_minute, continuous, auction, phase, lot_size).1;
        let last = plans.last();
        assert forall|k: int| 0 <= k < prev.len() implies code_lt(#[trigger] prev[k].code, last.code) by {
            let m = choose|m: int| 0 <= m < front.len() && prev[k].code == front[m].code;
            assert(front[m] == plans[m]);
            assert(code_lt(plans[m].code, plans[plans.len() - 1].code));
        }
        assert forall|k: int| 0 <= k < kept.len() implies exists|m: int|
            0 <= m < plans.len() && (#[trigger] kept[k]).code == plans[m].code by {
            if k < prev.len() {
                assert(kept[k] == prev[k]);
                let m = choose|m: int| 0 <= m < front.len() && prev[k].code == front[m].code;
                assert(front[m] == plans[m]);
            } else {
                assert(kept[k].code == plans[plans.len() - 1].code);
            }
        }
        assert forall|i: int, j: int| 0 <= i < j < kept.len() implies code_lt(#[trigger] kept[i].code, #[trigger] kept[j].code) by {
            if j < prev.len() {
                assert(kept[i] == prev[i]);
                assert(kept[j] == prev[j]);
            } else {
                assert(kept[i] == prev[i]);
                assert(kept[j].code == last.code);
            }
        }
    }
}

proof fn lemma_new_fold_keeps_order(
    state: (Seq<ParentOrderPlan>, Seq<Intent>, Seq<(StockCode, OrderId)>),
    requests: Seq<ParentRequest>,
    market_minute: u64,
    continuous: Seq<(StockCode, RestingOrder)>,
    auction: Seq<(StockCode, AuctionOrderSnap)>,
    phase: TradingPhase,
    lot_size: u32,
)
    requires
        plans_in_code_order(state.0),
    ensures
        plans_in_code_order(new_fold(state, requests, market_minute, continuous, auction, phase, lot_size).0),
    decreases requests.len(),
{
    if requests.len() > 0 {
        lemma_new_fold_keeps_order(state, requests.drop_last(), market_minute, continuous, auction, phase, lot_size);
        let prev = new_fold(state, requests.drop_last(), market_minute, continuous, auction, phase, lot_size);
        let r = requests.last();
        if !(r.target_qty == 0 || r.target_qty % lot_size != 0) {
            lemma_insert_plan_keeps_order(prev.0, new_parent_plan(r, market_minute, continuous, auction, lot_size));
        }
    }
}

/// Materializing a round keeps the parent book one parent per stock, in code order.
pub proof fn law_parent_book_stays_in_code_order(
    parents: Seq<ParentOrderPlan>,
    intents: Seq<Intent>,
    market_minute: u64,
    continuous: Seq<(StockCode, RestingOrder)>,
    auction: Seq<(StockCode, AuctionOrderSnap)>,
    phase: TradingPhase,
    lot_size: u32,
)
    requires
        plans_in_code_order(parents),
    ensures
        plans_in_code_order(
            spec_materialization(parents, intents, market_minute, continuous, auction, phase, lot_size).0,
        ),
{
    lemma_existing_fold_keeps_order(
        requests_of(intents),
        passthrough_of(intents),
        parents,
        market_minute,
        continuous,
        auction,
        phase,
        lot_size,
    );
    let mid = existing_fold(
        (requests_of(intents), Seq::empty(), passthrough_of(intents)),
        parents,
        market_minute,
        continuous,
        auction,
        phase,
        lot_size,
    );
    lemma_new_fold_keeps_order((mid.1, mid.2, Seq::empty()), mid.0, market_minute, continuous, auction, phase, lot_size);
}

/// A paced child of a live parent is positive and at most the parent's remainder.
pub proof fn law_paced_child_within_remainder(plan: ParentOrderPlan, market_minute: u64, lot_size: u32)
    requires
        lot_size > 0,
        plan.filled_qty < plan.target_qty,
    ensures
        0 < paced_child_qty(plan, market_minute, lot_size) <= plan.target_qty - plan.filled_qty,
{
    let lots: u32 = {
        let remaining = plan.target_qty - plan.filled_qty;
        let minutes_left: int = if plan.expires_market_minute > market_minute {
            plan.expires_market_minute - market_minute
        } else {
            1
        };
        let pace: int = if ceil_div(remaining, minutes_left) > u32::MAX {
            u32::MAX as int
        } else {
            ceil_div(remaining, minutes_left)
        };
        if pace / (lot_size as int) < 1 {
            1
        } else {
            (pace / (lot_size as int)) as u32
        }
    };
    assert(lots >= 1);
    assert(lots * lot_size >= 1) by (nonlinear_arith)
        requires
            lots >= 1,
            lot_size >= 1,
    ;
}

} // verus!
