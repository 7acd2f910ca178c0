use trade_engine::ids::{AccountId, Money, MoneyError, OrderId, PlanId, Side, StockCode};
use trade_engine::plans::allocation::{
    allocate_soft_budgets, AllocationClass, AllocationFunds, AllocationPolicy,
};
use trade_engine::session::auction::AuctionOrderSnap;
use trade_engine::plans::quote_policy::{BookTop, QuoteAction, QuoteReason};
use trade_engine::plans::state::Urgency;
use trade_engine::plans::urgency::PauseAssessment;
use trade_engine::session::decision_chain::{
    buy_allocation_request, derived_stream, desired_delta_shares, next_routable_buy_qty,
    next_routable_sell_qty, plan_child_quote, PerShareRange,
};
use trade_engine::session::market::SecurityCategory;
use trade_engine::session::events::TradingPhase;
use trade_engine::session::execution::{Intent, ReconcileScope};
use trade_engine::session::reconciliation::{
    plan_npc_working_order_reconciliation, RestingOrder, WorkingOrderDecision,
};
use trade_engine::session::reservations::buy_order_reservation;

fn money(cents: i64) -> Money {
    Money::from_cents(cents)
}

fn code(text: &str) -> StockCode {
    StockCode(text.to_owned())
}

fn commission(m: Money) -> Result<Money, MoneyError> {
    Ok(money((m.cents() * 3 / 10_000).max(500)))
}

fn transfer_fee(m: Money) -> Result<Money, MoneyError> {
    Ok(money(m.cents() / 100_000))
}

fn limit(c: &str, side: Side, price: i64, qty: u32) -> Intent {
    Intent::PlaceLimit {
        code: code(c),
        side,
        price: money(price),
        qty,
    }
}

fn resting(id: u64, side: Side, price: i64, qty: u32) -> RestingOrder {
    RestingOrder {
        id: OrderId(id),
        side,
        price: money(price),
        qty,
    }
}

#[test]
fn derived_streams_mix_the_tag_and_the_account_into_the_seed() {
    assert_eq!(derived_stream(0x1234, "analysis", AccountId(7)), 8_151_498_048_766_826_032);
    assert_eq!(derived_stream(0, "", AccountId(0)), 12_161_962_213_042_174_405);
    assert_ne!(
        derived_stream(9, "analysis", AccountId(7)),
        derived_stream(9, "analysis", AccountId(8))
    );
    assert_ne!(
        derived_stream(9, "analysis", AccountId(7)),
        derived_stream(9, "belief", AccountId(7))
    );
}

#[test]
fn directional_targets_buy_whole_lots_and_sell_odd_lots() {
    assert_eq!(desired_delta_shares(Side::Buy, 1_050, 300, 100), Some(700));
    assert_eq!(desired_delta_shares(Side::Buy, 350, 300, 100), None);
    assert_eq!(desired_delta_shares(Side::Buy, 300, 500, 100), None);
    assert_eq!(desired_delta_shares(Side::Buy, 7, 0, 0), Some(7));
    assert_eq!(desired_delta_shares(Side::Sell, 0, 250, 100), Some(250));
    assert_eq!(desired_delta_shares(Side::Sell, 300, 250, 100), None);
}

#[test]
fn buy_children_are_capped_whole_lots() {
    assert_eq!(next_routable_buy_qty(1_000_000, 1_000, 100, 1_000_000), Some(1_000));
    assert_eq!(next_routable_buy_qty(1_050, 5_000, 100, 1_000_000), Some(1_000));
    assert_eq!(next_routable_buy_qty(1_000_000, 99, 100, 1_000_000), None);
    assert_eq!(next_routable_buy_qty(5_000, 5_000, 100, 1_250), Some(1_200));
}

#[test]
fn sell_children_carry_an_odd_lot_only_when_they_clear_the_balance() {
    assert_eq!(next_routable_sell_qty(250, 250, 100, 1_000_000), Some(250));
    assert_eq!(next_routable_sell_qty(150, 250, 100, 1_000_000), Some(100));
    assert_eq!(next_routable_sell_qty(50, 250, 100, 1_000_000), None);
    assert_eq!(next_routable_sell_qty(500, 0, 100, 1_000_000), None);
    assert_eq!(next_routable_sell_qty(10_000, 10_000, 100, 1_050), Some(1_000));
}

#[test]
fn buy_allocation_request_reserves_only_the_next_routable_child() {
    let request = buy_allocation_request(
        commission,
        transfer_fee,
        PlanId(0),
        code("000812"),
        8_000,
        money(2_000),
        1_000_000,
        1_000,
        100,
        1_000_000,
    )
    .expect("one board-lot child is routable");
    assert_eq!(request.requested_cash, money(2_000_000));
    assert_eq!(request.fee_reserve, money(620));
    assert_eq!(request.side, Side::Buy);
    assert_eq!(request.class, AllocationClass::ExistingPlan);
    assert_eq!(request.confidence_bp, 8_000);
    assert_eq!(request.requested_sell_qty, 0);

    let reservation =
        buy_order_reservation(commission, transfer_fee, money(2_000), 1_000, money(0)).unwrap();
    assert_eq!(request.requested_cash.checked_add(request.fee_reserve), Ok(reservation));
    let cash = reservation.checked_add(reservation).unwrap();
    let parent = buy_order_reservation(commission, transfer_fee, money(2_000), 1_000_000, money(0))
        .unwrap();
    assert!(parent.cents() > cash.cents());

    let allocation = allocate_soft_budgets(
        &AllocationFunds {
            cash,
            frozen_cash: money(0),
            equity: cash,
        },
        &vec![request],
        &AllocationPolicy::default_policy(),
    )
    .expect("the exact reservation is affordable");
    assert_eq!(allocation.grants[0].allocated_cash, reservation);
    assert_eq!(allocation.grants[0].constraint, None);
    assert!(allocation.total_allocated.cents() <= allocation.available_cash.cents());

    let none = buy_allocation_request(
        commission,
        transfer_fee,
        PlanId(1),
        code("000812"),
        8_000,
        money(2_000),
        1_000_000,
        99,
        100,
        1_000_000,
    );
    assert!(none.is_none());
}

#[test]
fn continuous_reconciliation_keeps_replaces_and_cancels() {
    let desired = vec![
        limit("600101", Side::Buy, 1_000, 200),
        limit("600102", Side::Sell, 2_100, 300),
    ];
    let continuous = vec![
        (code("600101"), resting(1, Side::Buy, 1_000, 200)),
        (code("600102"), resting(2, Side::Sell, 2_000, 300)),
        (code("600103"), resting(3, Side::Buy, 900, 100)),
    ];
    let plan = plan_npc_working_order_reconciliation(
        desired.clone(),
        TradingPhase::Continuous,
        ReconcileScope::AllWorkingOrders,
        &continuous,
        &Vec::new(),
        0,
        100,
        10,
    );
    assert_eq!(
        plan.decisions,
        vec![
            WorkingOrderDecision::Keep { order_id: OrderId(1) },
            WorkingOrderDecision::Replace {
                old_order_id: OrderId(2),
                new_intent: desired[1].clone(),
            },
            WorkingOrderDecision::Cancel {
                order_id: OrderId(3),
                code: code("600103"),
            },
        ]
    );
    assert_eq!(plan.residual_intents, vec![desired[1].clone()]);
}

#[test]
fn reconciliation_scope_skips_untouched_stock_sides_unless_crossed() {
    let desired = vec![limit("600101", Side::Buy, 1_100, 100)];
    let continuous = vec![
        (code("600102"), resting(4, Side::Buy, 900, 100)),
        (code("600101"), resting(5, Side::Sell, 1_050, 100)),
    ];
    let plan = plan_npc_working_order_reconciliation(
        desired.clone(),
        TradingPhase::Continuous,
        ReconcileScope::DesiredStockSides,
        &continuous,
        &Vec::new(),
        0,
        100,
        10,
    );
    assert_eq!(
        plan.decisions,
        vec![WorkingOrderDecision::Cancel {
            order_id: OrderId(5),
            code: code("600101"),
        }]
    );
    assert_eq!(plan.residual_intents, desired);

    let idle = plan_npc_working_order_reconciliation(
        desired.clone(),
        TradingPhase::PreOpen,
        ReconcileScope::AllWorkingOrders,
        &continuous,
        &Vec::new(),
        0,
        100,
        10,
    );
    assert!(idle.decisions.is_empty());
    assert_eq!(idle.residual_intents, desired);
}

#[test]
fn auction_orders_are_cancelled_early_and_suppress_intents_later() {
    let auction = vec![(
        code("600101"),
        AuctionOrderSnap {
            owner: AccountId(3),
            side: Side::Buy,
            limit: money(1_000),
            qty: 100,
            order_id: 42,
        },
    )];
    let desired = vec![
        limit("600101", Side::Buy, 1_010, 100),
        limit("600102", Side::Buy, 500, 100),
    ];
    let early = plan_npc_working_order_reconciliation(
        desired.clone(),
        TradingPhase::CallAuction,
        ReconcileScope::AllWorkingOrders,
        &Vec::new(),
        &auction,
        100,
        100,
        9,
    );
    assert_eq!(
        early.decisions,
        vec![WorkingOrderDecision::Cancel {
            order_id: OrderId(42),
            code: code("600101"),
        }]
    );
    assert_eq!(early.residual_intents, desired);

    let late = plan_npc_working_order_reconciliation(
        desired.clone(),
        TradingPhase::CallAuction,
        ReconcileScope::AllWorkingOrders,
        &Vec::new(),
        &auction,
        105,
        100,
        9,
    );
    assert!(late.decisions.is_empty());
    assert_eq!(late.residual_intents, vec![desired[1].clone()]);

    let exact = vec![limit("600101", Side::Buy, 1_000, 100)];
    let kept = plan_npc_working_order_reconciliation(
        exact,
        TradingPhase::CallAuction,
        ReconcileScope::AllWorkingOrders,
        &Vec::new(),
        &auction,
        105,
        100,
        9,
    );
    assert_eq!(kept.decisions, vec![WorkingOrderDecision::Keep { order_id: OrderId(42) }]);
    assert!(kept.residual_intents.is_empty());
}

#[test]
fn sub_board_lot_buy_strategy_size_has_no_routable_child() {
    assert_eq!(next_routable_buy_qty(1_000, 99, 100, 1_000_000), None);
}

fn quote(
    side: Side,
    remaining: u32,
    order_size: u32,
    sellable: u32,
    allocated: i64,
    book: BookTop,
    phase: TradingPhase,
) -> Option<trade_engine::plans::quote_policy::QuoteDecision> {
    plan_child_quote(
        commission,
        transfer_fee,
        side,
        remaining,
        order_size,
        sellable,
        100,
        SecurityCategory::MainBoard,
        money(allocated),
        Some(PerShareRange {
            pessimistic: money(900),
            optimistic: money(1_050),
        }),
        money(900),
        money(1_100),
        None,
        book,
        money(1_005),
        phase,
        money(1),
        Urgency::Normal,
        PauseAssessment::Clear,
        None,
        true,
    )
}

#[test]
fn a_plan_quotes_its_next_child_within_its_budget() {
    let book = BookTop {
        best_bid: Some(money(1_000)),
        best_ask: Some(money(1_010)),
    };
    let decision = quote(Side::Buy, 200, 1_000, 0, 300_000, book, TradingPhase::Continuous).unwrap();
    assert_eq!(
        decision.action,
        QuoteAction::Submit {
            price: money(1_010),
            qty: 200
        }
    );
    assert_eq!(decision.reason, QuoteReason::OppositeQuoteProbe);
    assert_eq!(quote(Side::Buy, 200, 1_000, 0, 210_501, book, TradingPhase::Continuous), None);
    assert!(quote(Side::Buy, 200, 1_000, 0, 210_502, book, TradingPhase::Continuous).is_some());
    assert_eq!(quote(Side::Buy, 200, 99, 0, 300_000, book, TradingPhase::Continuous), None);
    assert_eq!(quote(Side::Sell, 200, 1_000, 0, 300_000, book, TradingPhase::Continuous), None);
    assert_eq!(quote(Side::Sell, 200, 1_000, 200, -1, book, TradingPhase::Continuous), None);

    let empty = BookTop {
        best_bid: None,
        best_ask: None,
    };
    let waiting = quote(Side::Buy, 200, 1_000, 0, 300_000, empty, TradingPhase::Continuous).unwrap();
    assert_eq!(waiting.action, QuoteAction::Wait);
    assert_eq!(waiting.reason, QuoteReason::EmptyBook);
    let auction = quote(Side::Buy, 200, 1_000, 0, 300_000, empty, TradingPhase::CallAuction).unwrap();
    assert_ne!(auction.reason, QuoteReason::EmptyBook);
}
