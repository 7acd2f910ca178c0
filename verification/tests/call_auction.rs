use std::collections::BTreeMap;

use trade_engine::ids::{AccountId, Money, OrderId, Side, StockCode};
use trade_engine::session::auction::{clearing_result, AuctionOrderSnap};
use trade_engine::session::auction_match::{
    complete_auction, complete_stock_auction, match_auction, AuctionCompletion, AuctionMatchError, PlannedTrade,
};
use trade_engine::session::market::StockExchange;
use trade_engine::session::auction_routing::{cancel_auction_order, route_auction_intent, AuctionRoute};
use trade_engine::session::events::RejectionReason;
use trade_engine::session::execution::Intent;
use trade_engine::session::remainders::auction_remainders;

fn money(cents: i64) -> Money {
    Money::from_cents(cents)
}

fn code(text: &str) -> StockCode {
    StockCode(text.to_owned())
}

fn order(owner: u64, side: Side, limit: i64, qty: u32, id: u64) -> AuctionOrderSnap {
    AuctionOrderSnap {
        owner: AccountId(owner),
        side,
        limit: money(limit),
        qty,
        order_id: id,
    }
}

fn trade(buyer: u64, seller: u64, maker: u64, taker: u64, qty: u32) -> PlannedTrade {
    PlannedTrade {
        buyer: AccountId(buyer),
        seller: AccountId(seller),
        buy_order_id: OrderId(buyer),
        sell_order_id: OrderId(seller),
        maker: AccountId(maker),
        taker: AccountId(taker),
        qty,
    }
}

#[test]
fn the_auction_matches_best_priced_orders_first_and_the_earlier_order_makes() {
    let orders = vec![
        order(1, Side::Buy, 1_010, 300, 1),
        order(2, Side::Sell, 1_000, 200, 2),
        order(3, Side::Buy, 1_020, 100, 3),
        order(4, Side::Sell, 990, 150, 4),
        order(5, Side::Buy, 990, 100, 5),
        order(6, Side::Sell, 1_010, 100, 6),
    ];
    let matched = match_auction(&orders, money(1_000)).expect("no overflow");
    assert_eq!(
        matched.trades,
        vec![trade(3, 4, 3, 4, 100), trade(1, 4, 1, 4, 50), trade(1, 2, 1, 2, 200)]
    );
    assert_eq!(matched.matched_volume, 350);
    let mut fills = BTreeMap::new();
    fills.insert(1u64, 250u32);
    fills.insert(2u64, 200u32);
    fills.insert(3u64, 100u32);
    fills.insert(4u64, 150u32);
    assert_eq!(matched.filled_by_order, fills);

    let plan = auction_remainders(&orders, &matched.filled_by_order, Some(money(1_000)));
    assert_eq!(plan.stop, None);
    assert_eq!(plan.orders.len(), 3);
}

#[test]
fn equal_limits_keep_arrival_order_and_nothing_trades_across_an_empty_side() {
    let orders = vec![
        order(7, Side::Buy, 1_000, 100, 9),
        order(8, Side::Buy, 1_000, 100, 4),
        order(9, Side::Sell, 1_000, 150, 6),
    ];
    let matched = match_auction(&orders, money(1_000)).unwrap();
    assert_eq!(
        matched.trades,
        vec![
            PlannedTrade {
                buyer: AccountId(8),
                seller: AccountId(9),
                buy_order_id: OrderId(4),
                sell_order_id: OrderId(6),
                maker: AccountId(8),
                taker: AccountId(9),
                qty: 100,
            },
            PlannedTrade {
                buyer: AccountId(7),
                seller: AccountId(9),
                buy_order_id: OrderId(9),
                sell_order_id: OrderId(6),
                maker: AccountId(9),
                taker: AccountId(7),
                qty: 50,
            },
        ]
    );

    let one_sided = vec![order(1, Side::Buy, 1_000, 100, 1)];
    let none = match_auction(&one_sided, money(1_000)).unwrap();
    assert!(none.trades.is_empty());
    assert_eq!(none.matched_volume, 0);
    assert!(none.filled_by_order.is_empty());
}

#[test]
fn a_fill_that_does_not_fit_abandons_the_matching() {
    let orders = vec![
        order(1, Side::Buy, 1_000, u32::MAX, 1),
        order(2, Side::Sell, 1_000, u32::MAX, 2),
        order(3, Side::Sell, 1_000, 5, 1),
    ];
    assert_eq!(
        match_auction(&orders, money(1_000)).unwrap_err(),
        AuctionMatchError::FillOverflow {
            buyer: AccountId(1),
            order_id: 1,
        }
    );
}

#[test]
fn auction_intents_are_refused_or_validated_before_placement() {
    let limits = Some(Ok((money(900), money(1_100))));
    let none: Vec<AuctionOrderSnap> = Vec::new();
    let route = |intent: Intent, limits: Option<Result<(Money, Money), ()>>| {
        route_auction_intent(intent, limits, money(1), false, AccountId(1), &none, 0, 100, 9)
    };
    assert_eq!(
        route(
            Intent::PlaceMarket {
                code: code("600101"),
                side: Side::Buy,
                qty: 100
            },
            limits
        ),
        AuctionRoute::Reject(RejectionReason::AuctionLimitOrderRequired)
    );
    assert_eq!(
        route(
            Intent::Cancel {
                code: code("600101"),
                id: OrderId(3)
            },
            limits
        ),
        AuctionRoute::Cancel {
            code: code("600101"),
            id: OrderId(3)
        }
    );
    let buy = |price: i64, qty: u32| Intent::PlaceLimit {
        code: code("600101"),
        side: Side::Buy,
        price: money(price),
        qty,
    };
    assert_eq!(route(buy(1_000, 100), None), AuctionRoute::Reject(RejectionReason::UnknownStock));
    assert_eq!(route(buy(1_000, 100), Some(Err(()))), AuctionRoute::PriceLimitsUnavailable);
    assert_eq!(
        route(buy(1_200, 100), limits),
        AuctionRoute::Reject(RejectionReason::LimitExceeded)
    );
    assert_eq!(route(buy(1_000, 0), limits), AuctionRoute::InvalidLimitOrder);
    assert_eq!(
        route_auction_intent(buy(1_005, 100), limits, money(10), false, AccountId(1), &none, 0, 100, 9),
        AuctionRoute::InvalidLimitOrder
    );
    assert_eq!(
        route(buy(1_000, 100), limits),
        AuctionRoute::Place {
            code: code("600101"),
            side: Side::Buy,
            price: money(1_000),
            qty: 100,
            cancel_first: Vec::new(),
        }
    );
}

#[test]
fn an_npc_keeps_one_auction_quote_per_side() {
    let limits = Some(Ok((money(900), money(1_100))));
    let queue = vec![
        order(5, Side::Buy, 1_000, 100, 11),
        order(6, Side::Buy, 1_000, 100, 12),
        order(5, Side::Sell, 1_050, 100, 13),
    ];
    let buy = |price: i64, qty: u32| Intent::PlaceLimit {
        code: code("600101"),
        side: Side::Buy,
        price: money(price),
        qty,
    };
    assert_eq!(
        route_auction_intent(buy(1_000, 100), limits, money(1), true, AccountId(5), &queue, 0, 100, 9),
        AuctionRoute::KeepWorking
    );
    assert_eq!(
        route_auction_intent(buy(1_010, 200), limits, money(1), true, AccountId(5), &queue, 0, 100, 9),
        AuctionRoute::Place {
            code: code("600101"),
            side: Side::Buy,
            price: money(1_010),
            qty: 200,
            cancel_first: vec![OrderId(11)],
        }
    );
    assert_eq!(
        route_auction_intent(buy(1_010, 200), limits, money(1), true, AccountId(5), &queue, 4, 100, 9),
        AuctionRoute::KeepUncancelable
    );
}

#[test]
fn auction_cancellation_is_early_own_and_exact() {
    let mut queue = vec![
        order(5, Side::Buy, 1_000, 100, 11),
        order(6, Side::Buy, 1_000, 100, 12),
    ];
    assert_eq!(
        cancel_auction_order(&mut queue, AccountId(5), OrderId(11), 103, 100, 9),
        Err(RejectionReason::AuctionOrderNotCancelable)
    );
    assert_eq!(
        cancel_auction_order(&mut queue, AccountId(5), OrderId(99), 102, 100, 9),
        Err(RejectionReason::OrderNotFound)
    );
    assert_eq!(
        cancel_auction_order(&mut queue, AccountId(5), OrderId(12), 102, 100, 9),
        Err(RejectionReason::NotOrderOwner)
    );
    assert_eq!(queue.len(), 2);
    assert_eq!(
        cancel_auction_order(&mut queue, AccountId(5), OrderId(11), 102, 100, 9),
        Ok(order(5, Side::Buy, 1_000, 100, 11))
    );
    assert_eq!(queue, vec![order(6, Side::Buy, 1_000, 100, 12)]);
}

#[test]
fn completing_an_auction_opens_at_the_clearing_price_and_stages_the_rest() {
    let orders = vec![
        order(1, Side::Buy, 1_010, 300, 1),
        order(2, Side::Sell, 1_000, 200, 2),
        order(3, Side::Buy, 1_020, 100, 3),
        order(4, Side::Sell, 990, 150, 4),
    ];
    let clearing = clearing_result(&orders, money(1_000), StockExchange::Shanghai, money(1))
        .expect("the book crosses");
    match complete_auction(&orders, money(1_000), StockExchange::Shanghai, money(1)) {
        AuctionCompletion::Opened {
            clearing: opened,
            matched,
            remainders,
        } => {
            assert_eq!(opened, clearing);
            let expected = match_auction(&orders, clearing.price).unwrap();
            assert_eq!(matched.trades, expected.trades);
            assert_eq!(matched.matched_volume, clearing.volume);
            assert_eq!(remainders.stop, None);
            let left: u32 = remainders.orders.iter().map(|o| o.qty).sum();
            let total: u32 = orders.iter().map(|o| o.qty).sum();
            assert_eq!(left as u64 + 2 * matched.matched_volume, total as u64);
        }
        other => panic!("expected an opening, got {other:?}"),
    }

    let one_sided = vec![order(1, Side::Buy, 1_000, 100, 1), order(2, Side::Buy, 990, 100, 2)];
    match complete_auction(&one_sided, money(1_000), StockExchange::Shenzhen, money(1)) {
        AuctionCompletion::NoOpening { remainders } => {
            assert_eq!(remainders.stop, None);
            assert_eq!(remainders.orders.len(), 2);
            assert!(remainders.orders.iter().all(|o| o.filled_qty == 0));
        }
        other => panic!("expected no opening, got {other:?}"),
    }
}

#[test]
fn completing_a_stock_auction_empties_its_queue_and_sets_the_opening_price() {
    let mut queue = vec![
        order(1, Side::Buy, 1_010, 300, 1),
        order(2, Side::Sell, 1_000, 200, 2),
        order(3, Side::Buy, 1_020, 100, 3),
        order(4, Side::Sell, 990, 150, 4),
    ];
    let clearing = clearing_result(&queue, money(1_000), StockExchange::Shanghai, money(1)).unwrap();
    let mut last_price = money(1_000);
    match complete_stock_auction(&mut queue, &mut last_price, money(1_000), StockExchange::Shanghai, money(1)) {
        AuctionCompletion::Opened { matched, .. } => assert_eq!(matched.matched_volume, clearing.volume),
        other => panic!("expected an opening, got {other:?}"),
    }
    assert!(queue.is_empty());
    assert_eq!(last_price, clearing.price);

    let mut one_sided = vec![order(1, Side::Buy, 1_000, 100, 1)];
    let mut last_price = money(1_000);
    assert!(matches!(
        complete_stock_auction(&mut one_sided, &mut last_price, money(1_000), StockExchange::Shenzhen, money(1)),
        AuctionCompletion::NoOpening { .. }
    ));
    assert!(one_sided.is_empty());
    assert_eq!(last_price, money(1_000));
}
