//! Reconciling an NPC's desired intents with its working orders: each working
//! order in scope (or crossed by a desired intent) is kept when a desired
//! intent is exactly it, replaced by a same-side intent in continuous trading,
//! and otherwise cancelled; a call-auction order that can no longer be
//! cancelled instead suppresses the intents that would duplicate or cross it.
use vstd::prelude::*;

use super::auction::AuctionOrderSnap;
use super::events::TradingPhase;
use super::execution::{
    crosses, intent_stock_side, reviews, same_side, scope_reviews, spec_crosses, spec_is_exactly,
    spec_same_side, suppress_noncancelable, surviving, take_exact, Intent, ReconcileScope,
};
use crate::ids::{Money, OrderId, Side, StockCode};

verus! {

/// A continuous order resting in the book, as reconciliation reads it.
#[derive(Clone, Copy, Debug, PartialEq, Eq, Structural)]
pub struct RestingOrder {
    pub id: OrderId,
    pub side: Side,
    pub price: Money,
    pub qty: u32,
}

/// What happens to one working order.
#[derive(Clone, Debug, PartialEq, Eq)]
pub enum WorkingOrderDecision {
    Keep { order_id: OrderId },
    Cancel { order_id: OrderId, code: StockCode },
    Replace { old_order_id: OrderId, new_intent: Intent },
}

/// The decisions on the working orders, and the desired intents left to route.
#[derive(Clone, Debug, PartialEq, Eq)]
pub struct ReconciliationPlan {
    pub decisions: Vec<WorkingOrderDecision>,
    pub residual_intents: Vec<Intent>,
}

/// The stock and side of each placement, in order.
pub open spec fn stock_sides(intents: Seq<Intent>) -> Seq<(StockCode, Side)>
    decreases intents.len(),
{
    if intents.len() == 0 {
        Seq::empty()
    } else {
        let rest = stock_sides(intents.drop_last());
        match intents.last() {
            Intent::PlaceLimit { code, side, .. } => rest.push((code, side)),
            Intent::PlaceMarket { code, side, .. } => rest.push((code, side)),
            Intent::Cancel { .. } => rest,
        }
    }
}

/// Whether the working order on `code` and `side` is one the reconciliation
/// looks at, given the stock-sides that were desired at its start.
pub open spec fn in_scope(scope: ReconcileScope, wanted: Seq<(StockCode, Side)>, code: Seq<char>, side: Side) -> bool {
    match scope {
        ReconcileScope::AllWorkingOrders => true,
        ReconcileScope::DesiredStockSides => exists|k: int|
            0 <= k < wanted.len() && (#[trigger] wanted[k]).0@ == code && wanted[k].1 == side,
        ReconcileScope::ReviewedStocks(_) => reviews(scope, code),
    }
}

/// Some desired intent would trade against the resting order.
pub open spec fn any_crosses(desired: Seq<Intent>, code: Seq<char>, side: Side, price: Money) -> bool {
    exists|i: int| 0 <= i < desired.len() && spec_crosses(#[trigger] desired[i], code, side, price)
}

/// Some desired intent is exactly the resting order.
pub open spec fn has_exact(desired: Seq<Intent>, code: Seq<char>, side: Side, price: Money, qty: u32) -> bool {
    exists|i: int| 0 <= i < desired.len() && spec_is_exactly(#[trigger] desired[i], code, side, price, qty)
}

/// `desired` without its first intent that is exactly the order.
pub open spec fn without_first_exact(desired: Seq<Intent>, code: Seq<char>, side: Side, price: Money, qty: u32) -> Seq<
    Intent,
>
    decreases desired.len(),
{
    if desired.len() == 0 {
        desired
    } else if spec_is_exactly(desired[0], code, side, price, qty) {
        desired.drop_first()
    } else {
        seq![desired[0]] + without_first_exact(desired.drop_first(), code, side, price, qty)
    }
}

/// The first limit placement on `code` and `side`.
pub open spec fn first_same_side(desired: Seq<Intent>, code: Seq<char>, side: Side) -> Option<Intent>
    decreases desired.len(),
{
    if desired.len() == 0 {
        None
    } else if spec_same_side(desired[0], code, side) {
        Some(desired[0])
    } else {
        first_same_side(desired.drop_first(), code, side)
    }
}

/// One continuous working order reconciled against the desired intents.
pub open spec fn continuous_step(
    state: (Seq<Intent>, Seq<WorkingOrderDecision>),
    code: StockCode,
    order: RestingOrder,
    scope: ReconcileScope,
    wanted: Seq<(StockCode, Side)>,
) -> (Seq<Intent>, Seq<WorkingOrderDecision>) {
    let (desired, decisions) = state;
    if !in_scope(scope, wanted, code@, order.side) && !any_crosses(desired, code@, order.side, order.price) {
        state
    } else if has_exact(desired, code@, order.side, order.price, order.qty) {
        (
            without_first_exact(desired, code@, order.side, order.price, order.qty),
            decisions.push(WorkingOrderDecision::Keep { order_id: order.id }),
        )
    } else {
        match first_same_side(desired, code@, order.side) {
            Some(intent) => (
                desired,
                decisions.push(WorkingOrderDecision::Replace { old_order_id: order.id, new_intent: intent }),
            ),
            None => (desired, decisions.push(WorkingOrderDecision::Cancel { order_id: order.id, code })),
        }
    }
}

/// One call-auction working order reconciled against the desired intents.
pub open spec fn auction_step(
    state: (Seq<Intent>, Seq<WorkingOrderDecision>),
    code: StockCode,
    order: AuctionOrderSnap,
    scope: ReconcileScope,
    wanted: Seq<(StockCode, Side)>,
    cancelable: bool,
) -> (Seq<Intent>, Seq<WorkingOrderDecision>) {
    let (desired, decisions) = state;
    if !in_scope(scope, wanted, code@, order.side) && !any_crosses(desired, code@, order.side, order.limit) {
        state
    } else if has_exact(desired, code@, order.side, order.limit, order.qty) {
        (
            without_first_exact(desired, code@, order.side, order.limit, order.qty),
            decisions.push(WorkingOrderDecision::Keep { order_id: OrderId(order.order_id) }),
        )
    } else if cancelable {
        (desired, decisions.push(WorkingOrderDecision::Cancel { order_id: OrderId(order.order_id), code }))
    } else {
        (surviving(desired, code@, order.side, order.limit, reviews(scope, code@)), decisions)
    }
}

/// The continuous working orders reconciled in order.
pub open spec fn reconcile_continuous(
    desired: Seq<Intent>,
    orders: Seq<(StockCode, RestingOrder)>,
    scope: ReconcileScope,
    wanted: Seq<(StockCode, Side)>,
) -> (Seq<Intent>, Seq<WorkingOrderDecision>)
    decreases orders.len(),
{
    if orders.len() == 0 {
        (desired, Seq::empty())
    } else {
        continuous_step(
            reconcile_continuous(desired, orders.drop_last(), scope, wanted),
            orders.last().0,
            orders.last().1,
            scope,
            wanted,
        )
    }
}

/// The call-auction working orders reconciled in order.
pub open spec fn reconcile_auction(
    desired: Seq<Intent>,
    orders: Seq<(StockCode, AuctionOrderSnap)>,
    scope: ReconcileScope,
    wanted: Seq<(StockCode, Side)>,
    cancelable: bool,
) -> (Seq<Intent>, Seq<WorkingOrderDecision>)
    decreases orders.len(),
{
    if orders.len() == 0 {
        (desired, Seq::empty())
    } else {
        auction_step(
            reconcile_auction(desired, orders.drop_last(), scope, wanted, cancelable),
            orders.last().0,
            orders.last().1,
            scope,
            wanted,
            cancelable,
        )
    }
}

/// Auction orders can still be cancelled in the first third of the opening auction.
pub open spec fn auction_cancelable(tick: u64, ticks_per_day: u64, auction_ticks: u64) -> bool {
    tick % ticks_per_day < auction_ticks / 3
}

/// The whole reconciliation: residual intents and decisions.
pub open spec fn spec_reconciliation(
    desired: Seq<Intent>,
    phase: TradingPhase,
    scope: ReconcileScope,
    continuous: Seq<(StockCode, RestingOrder)>,
    auction: Seq<(StockCode, AuctionOrderSnap)>,
    cancelable: bool,
) -> (Seq<Intent>, Seq<WorkingOrderDecision>) {
    match phase {
        TradingPhase::Continuous => reconcile_continuous(desired, continuous, scope, stock_sides(desired)),
        TradingPhase::CallAuction => reconcile_auction(desired, auction, scope, stock_sides(desired), cancelable),
        _ => (desired, Seq::empty()),
    }
}

proof fn lemma_without_first_exact(s: Seq<Intent>, i: int, code: Seq<char>, side: Side, price: Money, qty: u32)
    requires
        0 <= i < s.len(),
        spec_is_exactly(s[i], code, side, price, qty),
        forall|j: int| 0 <= j < i ==> !spec_is_exactly(#[trigger] s[j], code, side, price, qty),
    ensures
        s.remove(i) == without_first_exact(s, code, side, price, qty),
    decreases i,
{
    if i == 0 {
        assert(s.remove(0) =~= s.drop_first());
    } else {
        let t = s.drop_first();
        assert forall|j: int| 0 <= j < i - 1 implies !spec_is_exactly(#[trigger] t[j], code, side, price, qty) by {
            assert(t[j] == s[j + 1]);
        }
        assert(t[i - 1] == s[i]);
        lemma_without_first_exact(t, i - 1, code, side, price, qty);
        assert(!spec_is_exactly(s[0], code, side, price, qty));
        assert(s.remove(i) =~= seq![s[0]] + t.remove(i - 1));
    }
}

fn desired_stock_sides(desired: &Vec<Intent>) -> (r: Vec<(StockCode, Side)>)
    ensures
        r@ == stock_sides(desired@),
{
    let mut out: Vec<(StockCode, Side)> = Vec::new();
    let mut i: usize = 0;
    while i < desired.len()
        invariant
            0 <= i <= desired@.len(),
            out@ == stock_sides(desired@.take(i as int)),
        decreases desired@.len() - i,
    {
        proof {
            assert(desired@.take(i + 1).drop_last() =~= desired@.take(i as int));
            assert(desired@.take(i + 1).last() == desired@[i as int]);
        }
        match intent_stock_side(&desired[i]) {
            Some(pair) => out.push(pair),
            None => {},
        }
        i += 1;
    }
    assert(desired@.take(desired@.len() as int) =~= desired@);
    out
}

fn scope_admits(scope: &ReconcileScope, wanted: &Vec<(StockCode, Side)>, code: &StockCode, side: Side) -> (r: bool)
    ensures
        r == in_scope(*scope, wanted@, code@, side),
{
    match scope {
        ReconcileScope::AllWorkingOrders => true,
        ReconcileScope::DesiredStockSides => {
            let mut k: usize = 0;
            while k < wanted.len()
                invariant
                    0 <= k <= wanted@.len(),
                    *scope is DesiredStockSides,
                    forall|m: int| 0 <= m < k ==> !((#[trigger] wanted@[m]).0@ == code@ && wanted@[m].1 == side),
                decreases wanted@.len() - k,
            {
                if wanted[k].0.same_as(code) && wanted[k].1 == side {
                    assert(wanted@[k as int].0@ == code@ && wanted@[k as int].1 == side);
                    assert(exists|m: int|
                        0 <= m < wanted@.len() && (#[trigger] wanted@[m]).0@ == code@ && wanted@[m].1 == side);
                    return true;
                }
                k += 1;
            }
            false
        },
        ReconcileScope::ReviewedStocks(_) => scope_reviews(scope, code),
    }
}

fn any_crosses_exec(desired: &Vec<Intent>, code: &StockCode, side: Side, price: Money) -> (r: bool)
    ensures
        r == any_crosses(desired@, code@, side, price),
{
    let mut i: usize = 0;
    while i < desired.len()
        invariant
            0 <= i <= desired@.len(),
            forall|j: int| 0 <= j < i ==> !spec_crosses(#[trigger] desired@[j], code@, side, price),
        decreases desired@.len() - i,
    {
        if crosses(&desired[i], code, side, price) {
            return true;
        }
        i += 1;
    }
    false
}

fn find_same_side(desired: &Vec<Intent>, code: &StockCode, side: Side) -> (r: Option<Intent>)
    ensures
        r == first_same_side(desired@, code@, side),
{
    let mut i: usize = 0;
    assert(desired@.skip(0) =~= desired@);
    while i < desired.len()
        invariant
            0 <= i <= desired@.len(),
            first_same_side(desired@, code@, side) == first_same_side(desired@.skip(i as int), code@, side),
        decreases desired@.len() - i,
    {
        let ghost rest = desired@.skip(i as int);
        assert(rest[0] == desired@[i as int]);
        if same_side(&desired[i], code, side) {
            return Some(desired[i].clone());
        }
        assert(rest.drop_first() =~= desired@.skip(i + 1));
        i += 1;
    }
    None
}

/// Removes the first desired intent that is exactly the order; tells whether there was one.
fn take_first_exact(desired: &mut Vec<Intent>, code: &StockCode, side: Side, price: Money, qty: u32) -> (r: bool)
    ensures
        r == has_exact(old(desired)@, code@, side, price, qty),
        r ==> final(desired)@ == without_first_exact(old(desired)@, code@, side, price, qty),
        !r ==> final(desired)@ == old(desired)@,
{
    let ghost before = desired@;
    let r = take_exact(desired, code, side, price, qty);
    proof {
        if r {
            let i = choose|i: int|
                0 <= i < before.len() && spec_is_exactly(#[trigger] before[i], code@, side, price, qty) && (forall|
                    j: int,
                | 0 <= j < i ==> !spec_is_exactly(#[trigger] before[j], code@, side, price, qty)) && desired@
                    == before.remove(i);
            lemma_without_first_exact(before, i, code@, side, price, qty);
        }
    }
    r
}

/// Decides, for each working order of one account, whether it is kept,
/// replaced or cancelled, and which desired intents remain to be routed.
///
/// In continuous trading an order is looked at when it is in `scope` or a
/// desired intent would trade against it. In the opening call auction the
/// same holds, and an order that no desired intent repeats is cancelled while
/// the auction is in its first third (`tick % ticks_per_day < auction_ticks / 3`);
/// later it stays and the intents that would duplicate or cross it are dropped.
/// Other phases decide nothing.
pub fn plan_npc_working_order_reconciliation(
    desired: Vec<Intent>,
    phase: TradingPhase,
    scope: ReconcileScope,
    continuous: &Vec<(StockCode, RestingOrder)>,
    auction: &Vec<(StockCode, AuctionOrderSnap)>,
    tick: u64,
    ticks_per_day: u64,
    auction_ticks: u64,
) -> (plan: ReconciliationPlan)
    requires
        phase == TradingPhase::CallAuction ==> ticks_per_day > 0,
    ensures
        (plan.residual_intents@, plan.decisions@) == spec_reconciliation(
            desired@,
            phase,
            scope,
            continuous@,
            auction@,
            auction_cancelable(tick, ticks_per_day, auction_ticks),
        ),
{
    let ghost initial = desired@;
    let wanted = desired_stock_sides(&desired);
    let mut desired = desired;
    let mut decisions: Vec<WorkingOrderDecision> = Vec::new();
    match phase {
        TradingPhase::Continuous => {
            let mut i: usize = 0;
            while i < continuous.len()
                invariant
                    0 <= i <= continuous@.len(),
                    wanted@ == stock_sides(initial),
                    (desired@, decisions@) == reconcile_continuous(
                        initial,
                        continuous@.take(i as int),
                        scope,
                        wanted@,
                    ),
                decreases continuous@.len() - i,
            {
                proof {
                    assert(continuous@.take(i + 1).drop_last() =~= continuous@.take(i as int));
                    assert(continuous@.take(i + 1).last() == continuous@[i as int]);
                }
                let code = &continuous[i].0;
                let order = continuous[i].1;
                let crossed = any_crosses_exec(&desired, code, order.side, order.price);
                if scope_admits(&scope, &wanted, code, order.side) || crossed {
                    if take_first_exact(&mut desired, code, order.side, order.price, order.qty) {
                        decisions.push(WorkingOrderDecision::Keep { order_id: order.id });
                    } else {
                        match find_same_side(&desired, code, order.side) {
                            Some(intent) => {
                                decisions.push(
                                    WorkingOrderDecision::Replace { old_order_id: order.id, new_intent: intent },
                                );
                            },
                            None => {
                                decisions.push(WorkingOrderDecision::Cancel { order_id: order.id, code: code.clone() });
                            },
                        }
                    }
                }
                i += 1;
            }
            assert(continuous@.take(continuous@.len() as int) =~= continuous@);
        },
        TradingPhase::CallAuction => {
            let cancelable = tick % ticks_per_day < auction_ticks / 3;
            let mut i: usize = 0;
            while i < auction.len()
                invariant
                    0 <= i <= auction@.len(),
                    wanted@ == stock_sides(initial),
                    cancelable == auction_cancelable(tick, ticks_per_day, auction_ticks),
                    (desired@, decisions@) == reconcile_auction(
                        initial,
                        auction@.take(i as int),
                        scope,
                        wanted@,
                        cancelable,
                    ),
                decreases auction@.len() - i,
            {
                proof {
                    assert(auction@.take(i + 1).drop_last() =~= auction@.take(i as int));
                    assert(auction@.take(i + 1).last() == auction@[i as int]);
                }
                let code = &auction[i].0;
                let order = auction[i].1;
                let crossed = any_crosses_exec(&desired, code, order.side, order.limit);
                if scope_admits(&scope, &wanted, code, order.side) || crossed {
                    if take_first_exact(&mut desired, code, order.side, order.limit, order.qty) {
                        decisions.push(WorkingOrderDecision::Keep { order_id: OrderId(order.order_id) });
                    } else if cancelable {
                        decisions.push(
                            WorkingOrderDecision::Cancel { order_id: OrderId(order.order_id), code: code.clone() },
                        );
                    } else {
                        suppress_noncancelable(&mut desired, code, order.side, order.limit, &scope);
                    }
                }
                i += 1;
            }
            assert(auction@.take(auction@.len() as int) =~= auction@);
        },
        _ => {},
    }
    ReconciliationPlan { decisions, residual_intents: desired }
}

/// In continuous trading every working order gets exactly one decision when
/// the reconciliation looks at all of them.
pub proof fn law_every_continuous_order_is_decided(
    desired: Seq<Intent>,
    orders: Seq<(StockCode, RestingOrder)>,
    wanted: Seq<(StockCode, Side)>,
)
    ensures
        reconcile_continuous(desired, orders, ReconcileScope::AllWorkingOrders, wanted).1.len() == orders.len(),
    decreases orders.len(),
{
    if orders.len() > 0 {
        law_every_continuous_order_is_decided(desired, orders.drop_last(), wanted);
    }
}

/// While the opening auction still allows cancellation, every auction order
/// gets exactly one decision when the reconciliation looks at all of them.
pub proof fn law_every_cancelable_auction_order_is_decided(
    desired: Seq<Intent>,
    orders: Seq<(StockCode, AuctionOrderSnap)>,
    wanted: Seq<(StockCode, Side)>,
)
    ensures
        reconcile_auction(desired, orders, ReconcileScope::AllWorkingOrders, wanted, true).1.len() == orders.len(),
    decreases orders.len(),
{
    if orders.len() > 0 {
        law_every_cancelable_auction_order_is_decided(desired, orders.drop_last(), wanted);
    }
}

} // verus!
