//! How long an NPC's continuous quote stays in the book before the NPC
//! withdraws it: a base per account kind, lengthened by a wide spread, a
//! quote far from the last price and a deterministic per-order jitter,
//! shortened by recent volatility, and kept between 1 and 60 market minutes.
//! The lifetime is a behavioural model, not an exchange rule; it is saved
//! with the order and never drawn again.
use vstd::prelude::*;

use crate::ids::{AccountId, AccountKind, Money, OrderId};

verus! {

/// The base lifetime of a kind of NPC, in market minutes.
pub open spec fn base_minutes(kind: AccountKind) -> u64 {
    match kind {
        AccountKind::Retail => 18,
        AccountKind::Inst => 36,
        AccountKind::Hot => 8,
        AccountKind::Player => 0,
    }
}

/// `x` rotated left by `k` bits.
pub open spec fn rotl(x: u64, k: u64) -> u64 {
    ((x << k) | (x >> (64 - k) as u64)) as u64
}

/// The lowest price in `h`, starting from `i64::MAX`.
pub open spec fn history_low(h: Seq<Money>) -> i64
    decreases h.len(),
{
    if h.len() == 0 {
        i64::MAX
    } else if h.last().cents < history_low(h.drop_last()) {
        h.last().cents
    } else {
        history_low(h.drop_last())
    }
}

/// The highest price in `h`, starting from `i64::MIN`.
pub open spec fn history_high(h: Seq<Money>) -> i64
    decreases h.len(),
{
    if h.len() == 0 {
        i64::MIN
    } else if h.last().cents > history_high(h.drop_last()) {
        h.last().cents
    } else {
        history_high(h.drop_last())
    }
}

/// The recent range of prices in ticks (none without a history).
pub open spec fn volatility_ticks(history: Option<Seq<Money>>, tick: i64) -> int {
    match history {
        None => 0,
        Some(h) => if history_low(h) == i64::MAX {
            0
        } else {
            (history_high(h) - history_low(h)) / (tick as int)
        },
    }
}

/// The spread in ticks (one tick when a side of the book is empty).
pub open spec fn spread_ticks(best_bid: Option<Money>, best_ask: Option<Money>, tick: i64) -> int {
    match (best_bid, best_ask) {
        (Some(bid), Some(ask)) => (if ask.cents - bid.cents > 0 {
            ask.cents - bid.cents
        } else {
            0
        }) / (tick as int),
        _ => 1,
    }
}

pub open spec fn abs_int(x: int) -> int {
    if x < 0 {
        -x
    } else {
        x
    }
}

pub open spec fn min_int(a: int, b: int) -> int {
    if a <= b {
        a
    } else {
        b
    }
}

/// The lifetime in market minutes.
pub open spec fn spec_quote_lifetime(
    kind: AccountKind,
    seed: u64,
    account: AccountId,
    order_id: OrderId,
    order_price: Money,
    code_hash: u64,
    tick: Money,
    last_price: Money,
    best_bid: Option<Money>,
    best_ask: Option<Money>,
    history: Option<Seq<Money>>,
) -> u64 {
    let base = base_minutes(kind);
    let jitter = (seed ^ rotl(account.0, 17) ^ rotl(order_id.0, 31) ^ code_hash) % ((base / 2 + 1) as u64);
    let longer = base + min_int(spread_ticks(best_bid, best_ask, tick.cents), 8) + min_int(
        abs_int(order_price.cents - last_price.cents) / (tick.cents as int),
        12,
    ) + jitter;
    let shorter = longer - min_int(volatility_ticks(history, tick.cents), (base / 2) as int);
    if shorter < 1 {
        1
    } else if shorter > 60 {
        60
    } else {
        shorter as u64
    }
}

fn rotate_left(x: u64, k: u64) -> (r: u64)
    requires
        0 < k < 64,
    ensures
        r == rotl(x, k),
{
    (x << k) | (x >> (64 - k))
}

/// The lifetime, in market minutes, of an NPC quote accepted at `order_price`
/// when the book showed `best_bid`/`best_ask` after a last price of
/// `last_price`; `history` is the stock's recent price history and
/// `code_hash` a per-stock seed component.
pub fn npc_quote_lifetime_minutes_at_quote(
    kind: AccountKind,
    seed: u64,
    account: AccountId,
    order_id: OrderId,
    order_price: Money,
    code_hash: u64,
    tick: Money,
    last_price: Money,
    best_bid: Option<Money>,
    best_ask: Option<Money>,
    history: Option<&Vec<Money>>,
) -> (minutes: u64)
    requires
        kind != AccountKind::Player,
        tick.cents > 0,
        i64::MIN <= order_price.cents - last_price.cents <= i64::MAX,
        (best_bid, best_ask) matches (Some(bid), Some(ask)) ==> i64::MIN <= ask.cents - bid.cents <= i64::MAX,
        history matches Some(h) ==> history_low(h@) == i64::MAX || history_high(h@) - history_low(h@) <= i64::MAX,
    ensures
        minutes == spec_quote_lifetime(
            kind,
            seed,
            account,
            order_id,
            order_price,
            code_hash,
            tick,
            last_price,
            best_bid,
            best_ask,
            match history {
                Some(h) => Some(h@),
                None => None,
            },
        ),
        1 <= minutes <= 60,
{
    let base: u64 = match kind {
        AccountKind::Retail => 18,
        AccountKind::Inst => 36,
        AccountKind::Hot => 8,
        AccountKind::Player => 0,
    };
    let tick_cents = tick.cents;
    let spread: i64 = match (best_bid, best_ask) {
        (Some(bid), Some(ask)) => {
            let gap = ask.cents - bid.cents;
            (if gap > 0 {
                gap
            } else {
                0
            }) / tick_cents
        },
        _ => 1,
    };
    let diff = order_price.cents - last_price.cents;
    let distance: u64 = if diff < 0 {
        (0 - (diff as i128)) as u64
    } else {
        diff as u64
    } / (tick_cents as u64);
    let volatility: i64 = match history {
        None => 0,
        Some(h) => {
            let mut low: i64 = i64::MAX;
            let mut high: i64 = i64::MIN;
            let mut i: usize = 0;
            while i < h.len()
                invariant
                    0 <= i <= h@.len(),
                    low == history_low(h@.take(i as int)),
                    high == history_high(h@.take(i as int)),
                decreases h@.len() - i,
            {
                proof {
                    assert(h@.take(i + 1).drop_last() =~= h@.take(i as int));
                    assert(h@.take(i + 1).last() == h@[i as int]);
                }
                if h[i].cents < low {
                    low = h[i].cents;
                }
                if h[i].cents > high {
                    high = h[i].cents;
                }
                i += 1;
            }
            assert(h@.take(h@.len() as int) =~= h@);
            if low == i64::MAX {
                0
            } else {
                (high - low) / tick_cents
            }
        },
    };
    let jitter = (seed ^ rotate_left(account.0, 17) ^ rotate_left(order_id.0, 31) ^ code_hash) % (base / 2 + 1);
    let spread_part: u64 = if spread < 8 {
        spread as u64
    } else {
        8
    };
    let distance_part: u64 = if distance < 12 {
        distance
    } else {
        12
    };
    let volatility_part: u64 = if (volatility as i128) < (base / 2) as i128 {
        volatility as u64
    } else {
        base / 2
    };
    let longer = base + spread_part + distance_part + jitter;
    let shorter = if longer > volatility_part {
        longer - volatility_part
    } else {
        0
    };
    if shorter < 1 {
        1
    } else if shorter > 60 {
        60
    } else {
        shorter
    }
}

} // verus!
