use trade_engine::ids::{AccountId, Money, OrderId, Side, StockCode};
use trade_engine::session::auction::AuctionOrderSnap;
use trade_engine::session::events::TradingPhase;
use trade_engine::session::execution::{Intent, ParentOrderPlan};
use trade_engine::session::parent_orders::{
    append_parent_child_or_working_intent, materialize_parent_order_intents,
    PARENT_ORDER_HORIZON_MINUTES,
};
use trade_engine::session::reconciliation::RestingOrder;

fn money(cents: i64) -> Money {
    Money::from_cents(cents)
}

fn code(text: &str) -> StockCode {
    StockCode(text.to_owned())
}

fn limit(c: &str, side: Side, price: i64, qty: u32) -> Intent {
    Intent::PlaceLimit {
        code: code(c),
        side,
        price: money(price),
        qty,
    }
}

fn parent(c: &str, side: Side, target: u32, filled: u32, child: Option<(u64, u32)>) -> ParentOrderPlan {
    ParentOrderPlan {
        code: code(c),
        side,
        target_qty: target,
        filled_qty: filled,
        child_qty: 200,
        active_child_order_id: child.map(|(id, _)| OrderId(id)),
        active_child_remaining_qty: child.map(|(_, qty)| qty),
        linked_plan_id: None,
        limit_price: money(1_000),
        expires_market_minute: 250,
    }
}

#[test]
fn a_new_target_opens_a_parent_and_routes_its_first_quarter() {
    let mut parents = Vec::new();
    let cancel = Intent::Cancel {
        code: code("600105"),
        id: OrderId(3),
    };
    let out = materialize_parent_order_intents(
        &mut parents,
        vec![limit("600101", Side::Buy, 1_000, 800), cancel.clone()],
        10,
        &Vec::new(),
        &Vec::new(),
        TradingPhase::Continuous,
        100,
    );
    assert_eq!(out.desired, vec![cancel, limit("600101", Side::Buy, 1_000, 200)]);
    assert!(out.claimed.is_empty());
    assert_eq!(parents.len(), 1);
    assert_eq!(parents[0].target_qty, 800);
    assert_eq!(parents[0].child_qty, 200);
    assert_eq!(parents[0].filled_qty, 0);
    assert_eq!(parents[0].expires_market_minute, 10 + PARENT_ORDER_HORIZON_MINUTES);
    assert_eq!(parents[0].active_child_order_id, None);
}

#[test]
fn odd_lot_targets_pass_through_for_the_authoritative_checks() {
    let mut parents = Vec::new();
    let out = materialize_parent_order_intents(
        &mut parents,
        vec![limit("600101", Side::Buy, 1_000, 150), limit("600102", Side::Sell, 900, 0)],
        10,
        &Vec::new(),
        &Vec::new(),
        TradingPhase::Continuous,
        100,
    );
    assert_eq!(
        out.desired,
        vec![limit("600101", Side::Buy, 1_000, 150), limit("600102", Side::Sell, 900, 0)]
    );
    assert!(parents.is_empty());
}

#[test]
fn a_working_child_is_repeated_at_the_revised_limit() {
    let mut parents = vec![parent("600101", Side::Buy, 800, 0, Some((5, 200)))];
    let continuous = vec![(
        code("600101"),
        RestingOrder {
            id: OrderId(5),
            side: Side::Buy,
            price: money(990),
            qty: 200,
        },
    )];
    let out = materialize_parent_order_intents(
        &mut parents,
        vec![limit("600101", Side::Buy, 1_010, 1_600)],
        20,
        &continuous,
        &Vec::new(),
        TradingPhase::Continuous,
        100,
    );
    assert_eq!(out.desired, vec![limit("600101", Side::Buy, 1_010, 200)]);
    assert_eq!(parents[0].limit_price, money(1_010));
    assert_eq!(parents[0].target_qty, 800);

    let mut frozen = Vec::new();
    append_parent_child_or_working_intent(
        &parents[0],
        20,
        &continuous,
        &Vec::new(),
        TradingPhase::ClosingAuction,
        100,
        &mut frozen,
    );
    assert!(frozen.is_empty());
}

#[test]
fn an_opposite_target_replaces_the_parent_and_an_expired_parent_is_dropped() {
    let mut parents = vec![parent("600101", Side::Buy, 800, 100, None)];
    let out = materialize_parent_order_intents(
        &mut parents,
        vec![limit("600101", Side::Sell, 1_100, 300)],
        20,
        &Vec::new(),
        &Vec::new(),
        TradingPhase::Continuous,
        100,
    );
    assert_eq!(out.desired, vec![limit("600101", Side::Sell, 1_100, 100)]);
    assert_eq!(parents.len(), 1);
    assert_eq!(parents[0].side, Side::Sell);
    assert_eq!(parents[0].target_qty, 300);

    let mut expired = vec![parent("600102", Side::Buy, 800, 0, None)];
    let out = materialize_parent_order_intents(
        &mut expired,
        vec![limit("600102", Side::Buy, 1_000, 800)],
        250,
        &Vec::new(),
        &Vec::new(),
        TradingPhase::Continuous,
        100,
    );
    assert!(out.desired.is_empty());
    assert!(expired.is_empty());
}

#[test]
fn a_new_parent_adopts_a_matching_working_order_and_the_book_stays_sorted() {
    let mut parents = Vec::new();
    let auction = vec![(
        code("600102"),
        AuctionOrderSnap {
            owner: AccountId(4),
            side: Side::Buy,
            limit: money(1_000),
            qty: 300,
            order_id: 9,
        },
    )];
    let out = materialize_parent_order_intents(
        &mut parents,
        vec![limit("600103", Side::Sell, 1_200, 400), limit("600102", Side::Buy, 1_000, 800)],
        0,
        &Vec::new(),
        &auction,
        TradingPhase::CallAuction,
        100,
    );
    assert_eq!(out.claimed, vec![(code("600102"), OrderId(9))]);
    assert_eq!(
        out.desired,
        vec![limit("600102", Side::Buy, 1_000, 300), limit("600103", Side::Sell, 1_200, 100)]
    );
    assert_eq!(parents[0].code, code("600102"));
    assert_eq!(parents[0].active_child_order_id, Some(OrderId(9)));
    assert_eq!(parents[0].active_child_remaining_qty, Some(300));
    assert_eq!(parents[1].code, code("600103"));
}

#[test]
fn paced_children_never_exceed_the_remainder_and_odd_buy_remainders_wait() {
    let mut desired = Vec::new();
    let mut plan = parent("600101", Side::Buy, 800, 750, None);
    append_parent_child_or_working_intent(
        &plan,
        20,
        &Vec::new(),
        &Vec::new(),
        TradingPhase::Continuous,
        100,
        &mut desired,
    );
    assert!(desired.is_empty());

    plan.side = Side::Sell;
    append_parent_child_or_working_intent(
        &plan,
        20,
        &Vec::new(),
        &Vec::new(),
        TradingPhase::Continuous,
        100,
        &mut desired,
    );
    assert_eq!(desired, vec![limit("600101", Side::Sell, 1_000, 50)]);

    let mut rushed = Vec::new();
    let late = parent("600101", Side::Buy, 100_000, 0, None);
    append_parent_child_or_working_intent(
        &late,
        249,
        &Vec::new(),
        &Vec::new(),
        TradingPhase::Continuous,
        100,
        &mut rushed,
    );
    assert_eq!(rushed, vec![limit("600101", Side::Buy, 1_000, 100_000)]);
}

#[test]
fn only_fills_of_the_active_child_advance_a_parent() {
    let mut plan = parent("600101", Side::Buy, 800, 0, Some((9, 300)));
    assert!(!plan.record_child_fill(Side::Buy, OrderId(8), 100));
    assert_eq!(plan.filled_qty, 0);
    assert!(!plan.record_child_fill(Side::Buy, OrderId(9), 100));
    assert_eq!(plan.filled_qty, 100);
    assert_eq!(plan.active_child_remaining_qty, Some(200));
    assert!(!plan.record_child_fill(Side::Buy, OrderId(9), 200));
    assert_eq!(plan.active_child_order_id, None);
    assert_eq!(plan.active_child_remaining_qty, None);

    plan.record_child_submission(Side::Sell, OrderId(10), 500);
    assert_eq!(plan.active_child_order_id, None);
    plan.record_child_submission(Side::Buy, OrderId(10), 500);
    assert_eq!(plan.active_child_order_id, Some(OrderId(10)));
    assert!(plan.record_child_fill(Side::Buy, OrderId(10), 500));
    assert_eq!(plan.filled_qty, 800);

    let mut other = parent("600102", Side::Sell, 500, 0, Some((11, 100)));
    other.record_child_canceled(OrderId(12));
    assert_eq!(other.active_child_order_id, Some(OrderId(11)));
    other.record_child_canceled(OrderId(11));
    assert_eq!(other.active_child_order_id, None);
    assert_eq!(other.active_child_remaining_qty, None);
}

#[test]
fn parent_buy_does_not_overbuy_when_an_odd_lot_partial_fill_leaves_a_sub_lot_target() {
    let plan = ParentOrderPlan {
        code: code("600888"),
        side: Side::Buy,
        target_qty: 400,
        filled_qty: 350,
        child_qty: 100,
        active_child_order_id: None,
        active_child_remaining_qty: None,
        linked_plan_id: None,
        limit_price: money(1_000),
        expires_market_minute: PARENT_ORDER_HORIZON_MINUTES,
    };
    let mut desired = Vec::new();
    append_parent_child_or_working_intent(
        &plan,
        0,
        &Vec::new(),
        &Vec::new(),
        TradingPhase::CallAuction,
        100,
        &mut desired,
    );
    assert!(desired.is_empty());
    assert_eq!(plan.remaining_qty(), 50);
}

#[test]
fn closing_auction_does_not_duplicate_a_parent_child_still_resting_in_continuous_book() {
    let plan = ParentOrderPlan {
        code: code("600888"),
        side: Side::Buy,
        target_qty: 400,
        filled_qty: 0,
        child_qty: 100,
        active_child_order_id: Some(OrderId(1)),
        active_child_remaining_qty: Some(100),
        linked_plan_id: None,
        limit_price: money(1_000),
        expires_market_minute: PARENT_ORDER_HORIZON_MINUTES * 2,
    };
    let continuous = vec![(
        code("600888"),
        RestingOrder {
            id: OrderId(1),
            side: Side::Buy,
            price: money(1_000),
            qty: 100,
        },
    )];
    let mut desired = Vec::new();
    append_parent_child_or_working_intent(
        &plan,
        0,
        &continuous,
        &Vec::new(),
        TradingPhase::ClosingAuction,
        100,
        &mut desired,
    );
    assert!(desired.is_empty());
}
