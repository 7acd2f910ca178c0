use std::collections::BTreeMap;

use trade_engine::ids::{AccountId, Money, MoneyError, OrderId, Side, StockCode};
use trade_engine::session::budget::{cap_npc_intents_to_available_cash, WorkingOrderClaim};
use trade_engine::session::execution::Intent;

fn money(cents: i64) -> Money {
    Money::from_cents(cents)
}

fn commission(gross: i64) -> i64 {
    (gross * 3 / 10_000).max(500)
}

fn buy_reservation(price: Money, qty: u32, filled: Money) -> Result<Money, MoneyError> {
    let remaining = price.cents() * i64::from(qty);
    let fee = commission(filled.cents() + remaining) - if filled.cents() == 0 { 0 } else { commission(filled.cents()) };
    Ok(money(remaining + fee))
}

fn sell_fee_reservation(price: Money, qty: u32, _filled: Money) -> Result<Money, MoneyError> {
    let gross = price.cents() * i64::from(qty);
    Ok(money(commission(gross) + gross / 1_000))
}

fn affordable_buy_qty(price: Money, qty: u32, available: Money) -> Result<Option<u32>, MoneyError> {
    let mut lots = qty / 100;
    while lots > 0 {
        let reserve = buy_reservation(price, lots * 100, money(0))?;
        if reserve.cents() <= available.cents() {
            return Ok(Some(lots * 100));
        }
        lots -= 1;
    }
    Ok(None)
}

fn limit(side: Side, price: i64, qty: u32) -> Intent {
    Intent::PlaceLimit {
        code: StockCode("600101".to_owned()),
        side,
        price: money(price),
        qty,
    }
}

#[test]
fn npc_orders_are_capped_to_the_cash_left_after_reservations() {
    let claims = vec![WorkingOrderClaim {
        account: AccountId(1),
        side: Side::Buy,
        price: money(1_000),
        qty: 100,
        filled_value: money(0),
    }];
    let mut cash = BTreeMap::new();
    cash.insert(1u64, money(10_000_000));
    cash.insert(3u64, money(100));
    let cancel = Intent::Cancel {
        code: StockCode("600101".to_owned()),
        id: OrderId(5),
    };
    let pending = vec![
        (AccountId(1), limit(Side::Buy, 1_000, 100_000)),
        (AccountId(1), limit(Side::Sell, 1_000, 100)),
        (AccountId(1), limit(Side::Buy, 1_000, 1_000)),
        (AccountId(2), limit(Side::Buy, 1_000, 100_000)),
        (AccountId(1), cancel.clone()),
        (AccountId(3), limit(Side::Sell, 1_000, 100)),
    ];
    let planned = cap_npc_intents_to_available_cash(
        pending,
        &claims,
        &cash,
        buy_reservation,
        sell_fee_reservation,
        affordable_buy_qty,
    );
    assert_eq!(
        planned,
        vec![
            // 9,899,500 cents left after the working buy's 100,500: 9800 shares cost 9,802,940.
            (AccountId(1), limit(Side::Buy, 1_000, 9_800)),
            // 96,560 left covers the sale's 600 of fees.
            (AccountId(1), limit(Side::Sell, 1_000, 100)),
            // 95,960 left does not buy one lot: dropped. An account without known cash passes.
            (AccountId(2), limit(Side::Buy, 1_000, 100_000)),
            (AccountId(1), cancel),
            // 100 cents do not cover 600 of fees: dropped.
        ]
    );
}

#[test]
fn an_order_whose_reservation_cannot_be_computed_passes_to_the_router() {
    let mut cash = BTreeMap::new();
    cash.insert(1u64, money(10_000));
    let failing = |_: Money, _: u32, _: Money| -> Result<Option<u32>, MoneyError> { Err(MoneyError::Overflow) };
    let planned = cap_npc_intents_to_available_cash(
        vec![(AccountId(1), limit(Side::Buy, 1_000, 100))],
        &vec![],
        &cash,
        buy_reservation,
        sell_fee_reservation,
        failing,
    );
    assert_eq!(planned, vec![(AccountId(1), limit(Side::Buy, 1_000, 100))]);
}
