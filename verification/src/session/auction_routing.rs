//! Routing of opening call-auction intents: which intents are refused, which
//! are malformed, which cancellations are allowed (only in the first third of
//! the auction, 09:15–09:20), and how an NPC keeps a single working quote per
//! side without stacking orders once cancellation has closed.
use vstd::prelude::*;

use super::auction::AuctionOrderSnap;
use super::events::RejectionReason;
use super::execution::Intent;
use crate::ids::{AccountId, Money, OrderId, Side, StockCode};

verus! {

/// What the session does with one call-auction intent before its
/// authoritative pre-validation.
#[derive(Clone, Debug, PartialEq, Eq)]
pub enum AuctionRoute {
    /// Refused with a visible reason.
    Reject(RejectionReason),
    /// The stock's daily price limits could not be computed.
    PriceLimitsUnavailable,
    /// Zero quantity, negative price, or a price off the tick grid.
    InvalidLimitOrder,
    /// A cancellation, routed to [`cancel_auction_order`].
    Cancel { code: StockCode, id: OrderId },
    /// The NPC's single working quote on this side already says this.
    KeepWorking,
    /// The NPC's working quote on this side stays because it can no longer be cancelled.
    KeepUncancelable,
    /// Place the limit order (if pre-validation passes) after cancelling these
    /// working orders of the account on this side.
    Place { code: StockCode, side: Side, price: Money, qty: u32, cancel_first: Vec<OrderId> },
}

/// A route with its cancellations as a sequence.
pub enum AuctionRouteView {
    Reject(RejectionReason),
    PriceLimitsUnavailable,
    InvalidLimitOrder,
    Cancel { code: StockCode, id: OrderId },
    KeepWorking,
    KeepUncancelable,
    Place { code: StockCode, side: Side, price: Money, qty: u32, cancel_first: Seq<OrderId> },
}

impl View for AuctionRoute {
    type V = AuctionRouteView;

    open spec fn view(&self) -> AuctionRouteView {
        match *self {
            AuctionRoute::Reject(reason) => AuctionRouteView::Reject(reason),
            AuctionRoute::PriceLimitsUnavailable => AuctionRouteView::PriceLimitsUnavailable,
            AuctionRoute::InvalidLimitOrder => AuctionRouteView::InvalidLimitOrder,
            AuctionRoute::Cancel { code, id } => AuctionRouteView::Cancel { code, id },
            AuctionRoute::KeepWorking => AuctionRouteView::KeepWorking,
            AuctionRoute::KeepUncancelable => AuctionRouteView::KeepUncancelable,
            AuctionRoute::Place { code, side, price, qty, cancel_first } => AuctionRouteView::Place {
                code,
                side,
                price,
                qty,
                cancel_first: cancel_first@,
            },
        }
    }
}

/// Cancellation is open in the first third of the opening auction.
pub open spec fn auction_cancel_open(tick: u64, ticks_per_day: u64, auction_ticks: u64) -> bool {
    tick % ticks_per_day < auction_ticks / 3
}

/// The account's working auction orders on `side`, in queue order.
pub open spec fn own_side_orders(orders: Seq<AuctionOrderSnap>, account: AccountId, side: Side) -> Seq<AuctionOrderSnap>
    decreases orders.len(),
{
    if orders.len() == 0 {
        Seq::empty()
    } else {
        let rest = own_side_orders(orders.drop_last(), account, side);
        if orders.last().owner == account && orders.last().side == side {
            rest.push(orders.last())
        } else {
            rest
        }
    }
}

/// The ids of auction orders, in order.
pub open spec fn order_ids(orders: Seq<AuctionOrderSnap>) -> Seq<OrderId> {
    Seq::new(orders.len(), |i: int| OrderId(orders[i].order_id))
}

/// The route of one intent. `limits` is `None` for an unknown stock, else the
/// daily price limits (down, up) or their failure; `tick` is the stock's
/// price tick; `is_npc` tells a simulated account; `orders` are the auction
/// orders queued on the intent's stock.
pub open spec fn spec_auction_route(
    intent: Intent,
    limits: Option<Result<(Money, Money), ()>>,
    tick: Money,
    is_npc: bool,
    account: AccountId,
    orders: Seq<AuctionOrderSnap>,
    cancel_open: bool,
) -> AuctionRouteView {
    match intent {
        Intent::PlaceMarket { .. } => AuctionRouteView::Reject(RejectionReason::AuctionLimitOrderRequired),
        Intent::Cancel { code, id } => AuctionRouteView::Cancel { code, id },
        Intent::PlaceLimit { code, side, price, qty } => match limits {
            None => AuctionRouteView::Reject(RejectionReason::UnknownStock),
            Some(Err(())) => AuctionRouteView::PriceLimitsUnavailable,
            Some(Ok((down, up))) => if price.cents < down.cents || price.cents > up.cents {
                AuctionRouteView::Reject(RejectionReason::LimitExceeded)
            } else if qty == 0 || price.cents < 0 || price.cents % tick.cents != 0 {
                AuctionRouteView::InvalidLimitOrder
            } else if !is_npc {
                AuctionRouteView::Place { code, side, price, qty, cancel_first: Seq::empty() }
            } else {
                let working = own_side_orders(orders, account, side);
                if working.len() == 1 && working[0].limit == price && working[0].qty == qty {
                    AuctionRouteView::KeepWorking
                } else if !cancel_open && working.len() > 0 {
                    AuctionRouteView::KeepUncancelable
                } else {
                    AuctionRouteView::Place { code, side, price, qty, cancel_first: order_ids(working) }
                }
            },
        },
    }
}

/// The daily limits are inclusive: a limit placement is refused as beyond
/// the limits exactly when its price is below the down limit or above the up
/// limit; a well-formed one of a player within them (on the tick grid, some
/// quantity) is placed as it is.
pub proof fn law_auction_limits_are_inclusive(
    intent: Intent,
    down: Money,
    up: Money,
    tick: Money,
    is_npc: bool,
    account: AccountId,
    orders: Seq<AuctionOrderSnap>,
    cancel_open: bool,
)
    requires
        intent is PlaceLimit,
    ensures
        ({
            let route = spec_auction_route(intent, Some(Ok((down, up))), tick, is_npc, account, orders, cancel_open);
            let price = intent->PlaceLimit_price;
            let qty = intent->PlaceLimit_qty;
            let placed = (AuctionRouteView::Place {
                code: intent->PlaceLimit_code,
                side: intent->PlaceLimit_side,
                price,
                qty,
                cancel_first: Seq::empty(),
            });
            &&& (route == AuctionRouteView::Reject(RejectionReason::LimitExceeded)) <==> (price.cents < down.cents
                || price.cents > up.cents)
            &&& (down.cents <= price.cents <= up.cents && qty > 0 && price.cents >= 0 && tick.cents != 0
                && price.cents % tick.cents == 0 && !is_npc) ==> route == placed
        }),
{
}

/// Routes one call-auction intent (see [`spec_auction_route`]); a `Place`
/// route of an NPC lists in `cancel_first` the working orders it replaces.
pub fn route_auction_intent(
    intent: Intent,
    limits: Option<Result<(Money, Money), ()>>,
    tick: Money,
    is_npc: bool,
    account: AccountId,
    orders: &Vec<AuctionOrderSnap>,
    now_tick: u64,
    ticks_per_day: u64,
    auction_ticks: u64,
) -> (route: AuctionRoute)
    requires
        tick.cents > 0,
        ticks_per_day > 0,
    ensures
        route@ == spec_auction_route(
            intent,
            limits,
            tick,
            is_npc,
            account,
            orders@,
            auction_cancel_open(now_tick, ticks_per_day, auction_ticks),
        ),
{
    let (code, side, price, qty) = match intent {
        Intent::PlaceLimit { code, side, price, qty } => (code, side, price, qty),
        Intent::PlaceMarket { .. } => {
            return AuctionRoute::Reject(RejectionReason::AuctionLimitOrderRequired);
        },
        Intent::Cancel { code, id } => {
            return AuctionRoute::Cancel { code, id };
        },
    };
    let (down, up) = match limits {
        None => {
            return AuctionRoute::Reject(RejectionReason::UnknownStock);
        },
        Some(Err(())) => {
            return AuctionRoute::PriceLimitsUnavailable;
        },
        Some(Ok(bounds)) => bounds,
    };
    if price.cents < down.cents || price.cents > up.cents {
        return AuctionRoute::Reject(RejectionReason::LimitExceeded);
    }
    if qty == 0 || price.cents < 0 || price.cents % tick.cents != 0 {
        return AuctionRoute::InvalidLimitOrder;
    }
    let mut cancel_first: Vec<OrderId> = Vec::new();
    if is_npc {
        let mut working: Vec<AuctionOrderSnap> = Vec::new();
        let mut i: usize = 0;
        while i < orders.len()
            invariant
                0 <= i <= orders@.len(),
                working@ == own_side_orders(orders@.take(i as int), account, side),
            decreases orders@.len() - i,
        {
            proof {
                assert(orders@.take(i + 1).drop_last() =~= orders@.take(i as int));
                assert(orders@.take(i + 1).last() == orders@[i as int]);
            }
            if orders[i].owner.0 == account.0 && orders[i].side == side {
                working.push(orders[i]);
            }
            i += 1;
        }
        assert(orders@.take(orders@.len() as int) =~= orders@);
        if working.len() == 1 && working[0].limit.cents == price.cents && working[0].qty == qty {
            return AuctionRoute::KeepWorking;
        }
        let cancel_open = now_tick % ticks_per_day < auction_ticks / 3;
        if !cancel_open && working.len() > 0 {
            return AuctionRoute::KeepUncancelable;
        }
        let mut k: usize = 0;
        while k < working.len()
            invariant
                0 <= k <= working@.len(),
                cancel_first@ =~= order_ids(working@).take(k as int),
            decreases working@.len() - k,
        {
            cancel_first.push(OrderId(working[k].order_id));
            k += 1;
        }
        assert(order_ids(working@).take(working@.len() as int) =~= order_ids(working@));
    }
    AuctionRoute::Place { code, side, price, qty, cancel_first }
}

/// The outcome of cancelling order `id` of `account` from a stock's auction
/// queue: closed after the first third of the auction; the order must be
/// queued and belong to the account.
pub open spec fn spec_cancel_auction_order(
    orders: Seq<AuctionOrderSnap>,
    account: AccountId,
    id: OrderId,
    cancel_open: bool,
) -> Result<AuctionOrderSnap, RejectionReason> {
    if !cancel_open {
        Err(RejectionReason::AuctionOrderNotCancelable)
    } else if !(exists|i: int| 0 <= i < orders.len() && (#[trigger] orders[i]).order_id == id.0) {
        Err(RejectionReason::OrderNotFound)
    } else {
        let i = first_with_id(orders, id);
        if orders[i].owner != account {
            Err(RejectionReason::NotOrderOwner)
        } else {
            Ok(orders[i])
        }
    }
}

/// The position of the first order with `id`.
pub open spec fn first_with_id(orders: Seq<AuctionOrderSnap>, id: OrderId) -> int {
    choose|i: int|
        0 <= i < orders.len() && (#[trigger] orders[i]).order_id == id.0 && forall|j: int|
            0 <= j < i ==> (#[trigger] orders[j]).order_id != id.0
}

/// Cancels an auction order of the account; the queue loses exactly that
/// order on success and is unchanged on a refusal.
pub fn cancel_auction_order(
    orders: &mut Vec<AuctionOrderSnap>,
    account: AccountId,
    id: OrderId,
    now_tick: u64,
    ticks_per_day: u64,
    auction_ticks: u64,
) -> (r: Result<AuctionOrderSnap, RejectionReason>)
    requires
        ticks_per_day > 0,
    ensures
        r == spec_cancel_auction_order(
            old(orders)@,
            account,
            id,
            auction_cancel_open(now_tick, ticks_per_day, auction_ticks),
        ),
        r is Ok ==> final(orders)@ == old(orders)@.remove(first_with_id(old(orders)@, id)),
        r is Err ==> final(orders)@ == old(orders)@,
{
    if now_tick % ticks_per_day >= auction_ticks / 3 {
        return Err(RejectionReason::AuctionOrderNotCancelable);
    }
    let mut i: usize = 0;
    while i < orders.len()
        invariant
            0 <= i <= orders@.len(),
            orders@ == old(orders)@,
            ticks_per_day > 0,
            now_tick % ticks_per_day < auction_ticks / 3,
            forall|j: int| 0 <= j < i ==> (#[trigger] orders@[j]).order_id != id.0,
        decreases orders@.len() - i,
    {
        if orders[i].order_id == id.0 {
            proof {
                let o = orders@;
                assert(o[i as int].order_id == id.0);
                assert(exists|k: int|
                    0 <= k < o.len() && (#[trigger] o[k]).order_id == id.0 && forall|j: int|
                        0 <= j < k ==> (#[trigger] o[j]).order_id != id.0);
                let w = first_with_id(o, id);
                assert(0 <= w < o.len() && o[w].order_id == id.0);
                if w < i {
                    assert(o[w].order_id != id.0);
                }
                if w > i {
                    assert(o[i as int].order_id != id.0);
                }
                assert(w == i);
            }
            if orders[i].owner.0 != account.0 {
                return Err(RejectionReason::NotOrderOwner);
            }
            let removed = orders.remove(i);
            return Ok(removed);
        }
        i += 1;
    }
    Err(RejectionReason::OrderNotFound)
}

/// An NPC never stacks call-auction orders: when one of its limit intents is
/// placed, every working order of the account on that side is cancelled
/// first, and once cancellation has closed nothing is placed on a side where
/// it still works an order.
pub proof fn law_npc_keeps_one_auction_quote_per_side(
    intent: Intent,
    limits: Option<Result<(Money, Money), ()>>,
    tick: Money,
    account: AccountId,
    orders: Seq<AuctionOrderSnap>,
    cancel_open: bool,
)
    ensures
        spec_auction_route(intent, limits, tick, true, account, orders, cancel_open) matches AuctionRouteView::Place {
            side,
            cancel_first,
            ..
        } ==> {
            &&& cancel_first == order_ids(own_side_orders(orders, account, side))
            &&& !cancel_open ==> own_side_orders(orders, account, side).len() == 0
        },
{
}

/// A cancellation that succeeds removes one order, the account's own order
/// with that id.
pub proof fn law_cancelled_auction_order_is_the_accounts_own(
    orders: Seq<AuctionOrderSnap>,
    account: AccountId,
    id: OrderId,
    cancel_open: bool,
)
    ensures
        spec_cancel_auction_order(orders, account, id, cancel_open) matches Ok(order) ==> {
            &&& order.owner == account
            &&& order.order_id == id.0
            &&& cancel_open
            &&& orders.remove(first_with_id(orders, id)).len() == orders.len() - 1
        },
{
    if spec_cancel_auction_order(orders, account, id, cancel_open) is Ok {
        let k = choose|k: int| 0 <= k < orders.len() && (#[trigger] orders[k]).order_id == id.0;
        lemma_first_with_id(orders, id, k);
    }
}

/// Any order with `id` bounds the first one, which exists and has that id.
proof fn lemma_first_with_id(orders: Seq<AuctionOrderSnap>, id: OrderId, k: int)
    requires
        0 <= k < orders.len(),
        orders[k].order_id == id.0,
    ensures
        0 <= first_with_id(orders, id) <= k,
        orders[first_with_id(orders, id)].order_id == id.0,
        forall|j: int| 0 <= j < first_with_id(orders, id) ==> (#[trigger] orders[j]).order_id != id.0,
    decreases k,
{
    if exists|j: int| 0 <= j < k && (#[trigger] orders[j]).order_id == id.0 {
        let j = choose|j: int| 0 <= j < k && (#[trigger] orders[j]).order_id == id.0;
        lemma_first_with_id(orders, id, j);
    } else {
        assert(forall|j: int| 0 <= j < k ==> (#[trigger] orders[j]).order_id != id.0);
        let w = first_with_id(orders, id);
        if w > k {
            assert(orders[k].order_id != id.0);
        }
        if w < k {
            assert(orders[w].order_id != id.0);
        }
    }
}

} // verus!
