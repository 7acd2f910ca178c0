use std::collections::BTreeMap;

use trade_engine::ids::{AccountId, AccountKind, Money, OrderId};
use trade_engine::session::attention_queue::pop_due_npc_ids;
use trade_engine::session::quote_lifetime::npc_quote_lifetime_minutes_at_quote;

fn money(cents: i64) -> Money {
    Money::from_cents(cents)
}

#[test]
fn quote_lifetimes_follow_spread_distance_and_volatility() {
    let history = vec![money(1_000), money(1_004), money(998)];
    assert_eq!(
        npc_quote_lifetime_minutes_at_quote(
            AccountKind::Retail,
            0,
            AccountId(0),
            OrderId(0),
            money(1_003),
            0,
            money(1),
            money(1_000),
            Some(money(999)),
            Some(money(1_001)),
            Some(&history),
        ),
        17
    );
    assert_eq!(
        npc_quote_lifetime_minutes_at_quote(
            AccountKind::Hot,
            5,
            AccountId(0),
            OrderId(0),
            money(1_000),
            0,
            money(1),
            money(1_000),
            None,
            Some(money(1_001)),
            None,
        ),
        9
    );
}

#[test]
fn quote_lifetimes_stay_within_an_hour() {
    assert_eq!(
        npc_quote_lifetime_minutes_at_quote(
            AccountKind::Inst,
            18,
            AccountId(0),
            OrderId(0),
            money(1_050),
            0,
            money(1),
            money(1_000),
            Some(money(900)),
            Some(money(1_000)),
            None,
        ),
        60
    );
    let wild = vec![money(100), money(10_000)];
    assert_eq!(
        npc_quote_lifetime_minutes_at_quote(
            AccountKind::Hot,
            0,
            AccountId(0),
            OrderId(0),
            money(1_000),
            0,
            money(1),
            money(1_000),
            Some(money(1_000)),
            Some(money(1_000)),
            Some(&wild),
        ),
        4
    );
}

#[test]
fn due_npcs_come_out_once_in_id_order_and_stale_entries_drop() {
    let mut queue = vec![
        (5u64, AccountId(3)),
        (3, AccountId(1)),
        (9, AccountId(2)),
        (3, AccountId(3)),
        (4, AccountId(1)),
        (5, AccountId(3)),
    ];
    let mut next = BTreeMap::new();
    next.insert(1u64, 3u64);
    next.insert(3u64, 5u64);
    next.insert(2u64, 9u64);
    let due = pop_due_npc_ids(&mut queue, &next, 5);
    assert_eq!(due, vec![AccountId(1), AccountId(3)]);
    assert_eq!(queue, vec![(9, AccountId(2))]);
    assert!(pop_due_npc_ids(&mut queue, &next, 8).is_empty());
    assert_eq!(pop_due_npc_ids(&mut queue, &next, 9), vec![AccountId(2)]);
    assert!(queue.is_empty());
}
