//! The opening call auction of Shanghai and Shenzhen A shares: the single
//! clearing price, chosen among the submitted limit prices.
//!
//! Both exchanges first require the largest matched volume, that every order
//! priced better than the clearing price fills, and that one side at the
//! clearing price fills completely. Shanghai then keeps the prices with the
//! least unmatched quantity and takes the tick-rounded midpoint of the lowest
//! and highest of them; Shenzhen keeps the prices with the least difference
//! between the better-priced buy and sell quantities and then takes the one
//! closest to the previous close (the lower one on a tie).
use vstd::prelude::*;

use super::market::StockExchange;
use crate::ids::{AccountId, Money, Side};
use crate::rounding::{abs, tdiv};

verus! {

/// A limit order waiting in the call auction; its place in the queue records
/// when it was accepted.
#[derive(Clone, Copy, Debug, PartialEq, Eq, Structural)]
pub struct AuctionOrderSnap {
    pub owner: AccountId,
    pub side: Side,
    pub limit: Money,
    pub qty: u32,
    pub order_id: u64,
}

/// The outcome of clearing at one price.
#[derive(Clone, Copy, Debug, PartialEq, Eq, Structural)]
pub struct ClearingResult {
    pub price: Money,
    pub volume: u64,
    pub imbalance: u64,
}

/// Clearing at one price, with the Shenzhen tie-break measure.
#[derive(Clone, Copy, Debug, PartialEq, Eq, Structural)]
pub struct CandidateStats {
    pub result: ClearingResult,
    pub aggressive_difference: u64,
}

/// Which orders a quantity sum counts, relative to a price.
#[derive(Clone, Copy, Debug, PartialEq, Eq, Structural)]
pub enum Interest {
    /// Buys willing to pay the price.
    BuyAtOrAbove,
    /// Buys priced strictly better than the price.
    BuyAbove,
    /// Sells willing to take the price.
    SellAtOrBelow,
    /// Sells priced strictly better than the price.
    SellBelow,
}

pub open spec fn counts(o: AuctionOrderSnap, price: int, interest: Interest) -> bool {
    match interest {
        Interest::BuyAtOrAbove => o.side == Side::Buy && o.limit.cents >= price,
        Interest::BuyAbove => o.side == Side::Buy && o.limit.cents > price,
        Interest::SellAtOrBelow => o.side == Side::Sell && o.limit.cents <= price,
        Interest::SellBelow => o.side == Side::Sell && o.limit.cents < price,
    }
}

/// Total quantity of the orders that `interest` counts at `price`.
pub open spec fn interest_qty(orders: Seq<AuctionOrderSnap>, price: int, interest: Interest) -> int
    decreases orders.len(),
{
    if orders.len() == 0 {
        0
    } else {
        interest_qty(orders.drop_last(), price, interest) + if counts(orders.last(), price, interest) {
            orders.last().qty as int
        } else {
            0
        }
    }
}

/// Total quantity on one side, whatever the price.
pub open spec fn side_qty(orders: Seq<AuctionOrderSnap>, side: Side) -> int
    decreases orders.len(),
{
    if orders.len() == 0 {
        0
    } else {
        side_qty(orders.drop_last(), side) + if orders.last().side == side {
            orders.last().qty as int
        } else {
            0
        }
    }
}

pub open spec fn min_int(a: int, b: int) -> int {
    if a <= b {
        a
    } else {
        b
    }
}

/// What clearing at `price` gives: `None` if nothing matches, if a better-priced
/// side would not fill, or if a quantity sum exceeds `u64`.
pub open spec fn spec_candidate_stats(orders: Seq<AuctionOrderSnap>, price: Money) -> Option<CandidateStats> {
    let p = price.cents as int;
    let buy = interest_qty(orders, p, Interest::BuyAtOrAbove);
    let sell = interest_qty(orders, p, Interest::SellAtOrBelow);
    let better_buy = interest_qty(orders, p, Interest::BuyAbove);
    let better_sell = interest_qty(orders, p, Interest::SellBelow);
    let volume = min_int(buy, sell);
    if buy > u64::MAX || sell > u64::MAX || volume == 0 || better_buy > u64::MAX || better_sell > u64::MAX
        || better_buy > volume || better_sell > volume {
        None
    } else {
        Some(
            CandidateStats {
                result: ClearingResult { price, volume: volume as u64, imbalance: abs(buy - sell) as u64 },
                aggressive_difference: abs(better_buy - better_sell) as u64,
            },
        )
    }
}

/// The limit price of the `k`-th order.
pub open spec fn limit_at(orders: Seq<AuctionOrderSnap>, k: int) -> Money {
    orders[k].limit
}

/// Some order is limited at `p`.
pub open spec fn is_limit(orders: Seq<AuctionOrderSnap>, p: Money) -> bool {
    exists|k: int| 0 <= k < orders.len() && #[trigger] limit_at(orders, k) == p
}

pub open spec fn clears(orders: Seq<AuctionOrderSnap>, p: Money) -> bool {
    spec_candidate_stats(orders, p) is Some
}

pub open spec fn stats_at(orders: Seq<AuctionOrderSnap>, p: Money) -> CandidateStats {
    spec_candidate_stats(orders, p)->Some_0
}

/// `p` is a limit price that clears with the largest volume of all limit prices.
pub open spec fn max_volume_price(orders: Seq<AuctionOrderSnap>, p: Money) -> bool {
    &&& is_limit(orders, p)
    &&& clears(orders, p)
    &&& forall|k: int|
        0 <= k < orders.len() && clears(orders, #[trigger] limit_at(orders, k)) ==> stats_at(
            orders,
            limit_at(orders, k),
        ).result.volume <= stats_at(orders, p).result.volume
}

/// Among the largest-volume prices, `p` leaves the least quantity unmatched.
pub open spec fn least_imbalance_price(orders: Seq<AuctionOrderSnap>, p: Money) -> bool {
    &&& max_volume_price(orders, p)
    &&& forall|k: int|
        0 <= k < orders.len() && max_volume_price(orders, #[trigger] limit_at(orders, k)) ==> stats_at(
            orders,
            p,
        ).result.imbalance <= stats_at(orders, limit_at(orders, k)).result.imbalance
}

/// The lowest of the least-imbalance prices.
pub open spec fn lowest_best(orders: Seq<AuctionOrderSnap>, p: Money) -> bool {
    &&& least_imbalance_price(orders, p)
    &&& forall|k: int|
        0 <= k < orders.len() && least_imbalance_price(orders, #[trigger] limit_at(orders, k)) ==> p.cents
            <= limit_at(orders, k).cents
}

/// The highest of the least-imbalance prices.
pub open spec fn highest_best(orders: Seq<AuctionOrderSnap>, p: Money) -> bool {
    &&& least_imbalance_price(orders, p)
    &&& forall|k: int|
        0 <= k < orders.len() && least_imbalance_price(orders, #[trigger] limit_at(orders, k))
            ==> limit_at(orders, k).cents <= p.cents
}

/// Among the largest-volume prices, `p` has the least difference between the
/// better-priced buy and sell quantities.
pub open spec fn least_difference_price(orders: Seq<AuctionOrderSnap>, p: Money) -> bool {
    &&& max_volume_price(orders, p)
    &&& forall|k: int|
        0 <= k < orders.len() && max_volume_price(orders, #[trigger] limit_at(orders, k)) ==> stats_at(
            orders,
            p,
        ).aggressive_difference <= stats_at(orders, limit_at(orders, k)).aggressive_difference
}

/// `p` is at least as close to `anchor` as `q`, the lower price winning a tie.
pub open spec fn no_farther(anchor: int, p: int, q: int) -> bool {
    abs(p - anchor) < abs(q - anchor) || (abs(p - anchor) == abs(q - anchor) && p <= q)
}

/// The least-difference price closest to the previous close.
pub open spec fn shenzhen_price(orders: Seq<AuctionOrderSnap>, previous_close: int, p: Money) -> bool {
    &&& least_difference_price(orders, p)
    &&& forall|k: int|
        0 <= k < orders.len() && least_difference_price(orders, #[trigger] limit_at(orders, k)) ==> no_farther(
            previous_close,
            p.cents as int,
            limit_at(orders, k).cents as int,
        )
}

/// `(low + high) / 2` rounded half up to a multiple of `tick`, if it is a price.
pub open spec fn spec_rounded_midpoint(low: Money, high: Money, tick: Money) -> Option<Money> {
    let t = tick.cents as int;
    let cents = tdiv(low.cents + high.cents + t, 2 * t) * t;
    if t <= 0 || cents < i64::MIN || cents > i64::MAX {
        None
    } else {
        Some(Money { cents: cents as i64 })
    }
}

/// The clearing result of the opening call auction.
pub open spec fn spec_clearing_result(
    orders: Seq<AuctionOrderSnap>,
    previous_close: Money,
    exchange: StockExchange,
    price_tick: Money,
) -> Option<ClearingResult> {
    if !(exists|k: int| 0 <= k < orders.len() && clears(orders, #[trigger] limit_at(orders, k))) {
        None
    } else {
        match exchange {
            StockExchange::Shanghai => {
                let low = choose|p: Money| lowest_best(orders, p);
                let high = choose|p: Money| highest_best(orders, p);
                match spec_rounded_midpoint(low, high, price_tick) {
                    None => None,
                    Some(mid) => match spec_candidate_stats(orders, mid) {
                        None => None,
                        Some(s) => Some(s.result),
                    },
                }
            },
            StockExchange::Shenzhen => Some(
                stats_at(orders, choose|p: Money| shenzhen_price(orders, previous_close.cents as int, p)).result,
            ),
        }
    }
}

proof fn lemma_interest_qty_prefix(orders: Seq<AuctionOrderSnap>, price: int, interest: Interest, k: int)
    requires
        0 <= k <= orders.len(),
    ensures
        0 <= interest_qty(orders.take(k), price, interest) <= interest_qty(orders, price, interest),
    decreases orders.len(),
{
    if k == orders.len() {
        assert(orders.take(k) =~= orders);
        lemma_interest_qty_nonneg(orders, price, interest);
    } else {
        lemma_interest_qty_prefix(orders.drop_last(), price, interest, k);
        assert(orders.drop_last().take(k) =~= orders.take(k));
    }
}

proof fn lemma_interest_qty_nonneg(orders: Seq<AuctionOrderSnap>, price: int, interest: Interest)
    ensures
        0 <= interest_qty(orders, price, interest),
    decreases orders.len(),
{
    if orders.len() > 0 {
        lemma_interest_qty_nonneg(orders.drop_last(), price, interest);
    }
}

proof fn lemma_side_qty_prefix(orders: Seq<AuctionOrderSnap>, side: Side, k: int)
    requires
        0 <= k <= orders.len(),
    ensures
        0 <= side_qty(orders.take(k), side) <= side_qty(orders, side),
    decreases orders.len(),
{
    if k == orders.len() {
        assert(orders.take(k) =~= orders);
        lemma_side_qty_nonneg(orders, side);
    } else {
        lemma_side_qty_prefix(orders.drop_last(), side, k);
        assert(orders.drop_last().take(k) =~= orders.take(k));
    }
}

proof fn lemma_side_qty_nonneg(orders: Seq<AuctionOrderSnap>, side: Side)
    ensures
        0 <= side_qty(orders, side),
    decreases orders.len(),
{
    if orders.len() > 0 {
        lemma_side_qty_nonneg(orders.drop_last(), side);
    }
}

/// The quantity that `interest` counts at `price`, if it fits in `u64`.
fn interest_total(orders: &Vec<AuctionOrderSnap>, price: i64, interest: Interest) -> (r: Option<u64>)
    ensures
        0 <= interest_qty(orders@, price as int, interest),
        r == (if interest_qty(orders@, price as int, interest) <= u64::MAX {
            Some(interest_qty(orders@, price as int, interest) as u64)
        } else {
            None
        }),
{
    let mut total: u64 = 0;
    let mut i: usize = 0;
    while i < orders.len()
        invariant
            0 <= i <= orders@.len(),
            total == interest_qty(orders@.take(i as int), price as int, interest),
        decreases orders@.len() - i,
    {
        let o = orders[i];
        proof {
            assert(orders@.take(i + 1).drop_last() =~= orders@.take(i as int));
            assert(orders@.take(i + 1).last() == o);
        }
        let counted = match interest {
            Interest::BuyAtOrAbove => o.side == Side::Buy && o.limit.cents >= price,
            Interest::BuyAbove => o.side == Side::Buy && o.limit.cents > price,
            Interest::SellAtOrBelow => o.side == Side::Sell && o.limit.cents <= price,
            Interest::SellBelow => o.side == Side::Sell && o.limit.cents < price,
        };
        if counted {
            match total.checked_add(o.qty as u64) {
                Some(t) => {
                    total = t;
                },
                None => {
                    proof {
                        lemma_interest_qty_prefix(orders@, price as int, interest, i + 1);
                        lemma_interest_qty_nonneg(orders@, price as int, interest);
                    }
                    return None;
                },
            }
        }
        i += 1;
    }
    assert(orders@.take(orders@.len() as int) =~= orders@);
    proof {
        lemma_interest_qty_nonneg(orders@, price as int, interest);
    }
    Some(total)
}

fn u64_distance(a: u64, b: u64) -> (r: u64)
    ensures
        r == abs(a - b),
{
    if a >= b {
        a - b
    } else {
        b - a
    }
}

/// How clearing at `price` would go.
pub fn candidate_stats(orders: &Vec<AuctionOrderSnap>, price: Money) -> (r: Option<CandidateStats>)
    ensures
        r == spec_candidate_stats(orders@, price),
{
    let buy = match interest_total(orders, price.cents, Interest::BuyAtOrAbove) {
        Some(v) => v,
        None => {
            return None;
        },
    };
    let sell = match interest_total(orders, price.cents, Interest::SellAtOrBelow) {
        Some(v) => v,
        None => {
            return None;
        },
    };
    let volume = if buy <= sell {
        buy
    } else {
        sell
    };
    if volume == 0 {
        return None;
    }
    let better_buy = match interest_total(orders, price.cents, Interest::BuyAbove) {
        Some(v) => v,
        None => {
            return None;
        },
    };
    let better_sell = match interest_total(orders, price.cents, Interest::SellBelow) {
        Some(v) => v,
        None => {
            return None;
        },
    };
    if better_buy > volume || better_sell > volume {
        return None;
    }
    Some(
        CandidateStats {
            result: ClearingResult { price, volume, imbalance: u64_distance(buy, sell) },
            aggressive_difference: u64_distance(better_buy, better_sell),
        },
    )
}

/// The midpoint of `low` and `high` rounded half up to a multiple of `tick`.
pub fn rounded_midpoint(low: Money, high: Money, tick: Money) -> (r: Option<Money>)
    ensures
        r == spec_rounded_midpoint(low, high, tick),
{
    let t = tick.cents as i128;
    if t <= 0 {
        return None;
    }
    let sum = low.cents as i128 + high.cents as i128;
    let rounded_ticks = (sum + t) / (t * 2);
    proof {
        let n = sum + t;
        let d = 2 * t;
        let m: int = if n >= 0 { n as int } else { -n };
        vstd::arithmetic::div_mod::lemma_fundamental_div_mod(m, d as int);
        vstd::arithmetic::div_mod::lemma_div_pos_is_pos(m, d as int);
        let q = m / (d as int);
        assert(rounded_ticks == q || rounded_ticks == -q);
        assert(0 <= q * (d as int) <= m) by (nonlinear_arith)
            requires
                m == (d as int) * q + m % (d as int),
                0 <= m % (d as int),
                0 <= q,
                d > 0,
        ;
        assert(-0x4_0000_0000_0000_0000 <= rounded_ticks * t <= 0x4_0000_0000_0000_0000) by (nonlinear_arith)
            requires
                rounded_ticks == q || rounded_ticks == -q,
                0 <= q * (2 * t) <= m,
                m <= 0x4_0000_0000_0000_0000,
                t > 0,
        ;
    }
    let cents = rounded_ticks * t;
    if cents < i64::MIN as i128 || cents > i64::MAX as i128 {
        return None;
    }
    Some(Money { cents: cents as i64 })
}

/// Unmatched quantity of the whole auction book: total buys against total sells.
pub fn auction_total_imbalance(orders: &Vec<AuctionOrderSnap>) -> (r: u64)
    requires
        side_qty(orders@, Side::Buy) <= u64::MAX,
        side_qty(orders@, Side::Sell) <= u64::MAX,
    ensures
        r == abs(side_qty(orders@, Side::Buy) - side_qty(orders@, Side::Sell)),
{
    let mut buy: u64 = 0;
    let mut sell: u64 = 0;
    let mut i: usize = 0;
    while i < orders.len()
        invariant
            0 <= i <= orders@.len(),
            side_qty(orders@, Side::Buy) <= u64::MAX,
            side_qty(orders@, Side::Sell) <= u64::MAX,
            buy == side_qty(orders@.take(i as int), Side::Buy),
            sell == side_qty(orders@.take(i as int), Side::Sell),
        decreases orders@.len() - i,
    {
        let o = orders[i];
        proof {
            assert(orders@.take(i + 1).drop_last() =~= orders@.take(i as int));
            assert(orders@.take(i + 1).last() == o);
            lemma_side_qty_prefix(orders@, Side::Buy, i + 1);
            lemma_side_qty_prefix(orders@, Side::Sell, i + 1);
        }
        match o.side {
            Side::Buy => {
                buy = buy + o.qty as u64;
            },
            Side::Sell => {
                sell = sell + o.qty as u64;
            },
        }
        i += 1;
    }
    assert(orders@.take(orders@.len() as int) =~= orders@);
    u64_distance(buy, sell)
}

/// The prices at the largest volume, with the given imbalance and difference
/// measures where these are fixed.
spec fn at_volume(orders: Seq<AuctionOrderSnap>, p: Money, volume: int) -> bool {
    clears(orders, p) && stats_at(orders, p).result.volume == volume
}

spec fn at_imbalance(orders: Seq<AuctionOrderSnap>, p: Money, volume: int, imbalance: int) -> bool {
    at_volume(orders, p, volume) && stats_at(orders, p).result.imbalance == imbalance
}

spec fn at_difference(orders: Seq<AuctionOrderSnap>, p: Money, volume: int, difference: int) -> bool {
    at_volume(orders, p, volume) && stats_at(orders, p).aggressive_difference == difference
}

/// The largest volume at which a limit price clears, if one does.
fn best_volume(orders: &Vec<AuctionOrderSnap>) -> (r: Option<u64>)
    ensures
        match r {
            None => forall|k: int| 0 <= k < orders@.len() ==> !clears(orders@, #[trigger] limit_at(orders@, k)),
            Some(v) => {
                &&& exists|k: int| 0 <= k < orders@.len() && at_volume(orders@, #[trigger] limit_at(orders@, k), v as int)
                &&& forall|k: int|
                    0 <= k < orders@.len() && clears(orders@, #[trigger] limit_at(orders@, k)) ==> stats_at(
                        orders@,
                        limit_at(orders@, k),
                    ).result.volume <= v
            },
        },
{
    let mut best: Option<u64> = None;
    let mut i: usize = 0;
    while i < orders.len()
        invariant
            0 <= i <= orders@.len(),
            match best {
                None => forall|k: int| 0 <= k < i ==> !clears(orders@, #[trigger] limit_at(orders@, k)),
                Some(v) => {
                    &&& exists|k: int| 0 <= k < i && at_volume(orders@, #[trigger] limit_at(orders@, k), v as int)
                    &&& forall|k: int|
                        0 <= k < i && clears(orders@, #[trigger] limit_at(orders@, k)) ==> stats_at(
                            orders@,
                            limit_at(orders@, k),
                        ).result.volume <= v
                },
            },
        decreases orders@.len() - i,
    {
        let stats = candidate_stats(orders, orders[i].limit);
        proof {
            assert(limit_at(orders@, i as int) == orders[i as int].limit);
        }
        if let Some(st) = stats {
            match best {
                None => {
                    best = Some(st.result.volume);
                },
                Some(v) => {
                    if st.result.volume > v {
                        best = Some(st.result.volume);
                    }
                },
            }
        }
        i += 1;
    }
    best
}

/// The least imbalance among the prices that clear `volume`.
fn least_imbalance(orders: &Vec<AuctionOrderSnap>, volume: u64) -> (r: u64)
    requires
        exists|k: int| 0 <= k < orders@.len() && at_volume(orders@, #[trigger] limit_at(orders@, k), volume as int),
    ensures
        exists|k: int|
            0 <= k < orders@.len() && at_imbalance(orders@, #[trigger] limit_at(orders@, k), volume as int, r as int),
        forall|k: int|
            0 <= k < orders@.len() && at_volume(orders@, #[trigger] limit_at(orders@, k), volume as int) ==> r
                <= stats_at(orders@, limit_at(orders@, k)).result.imbalance,
{
    let mut best: Option<u64> = None;
    let mut i: usize = 0;
    while i < orders.len()
        invariant
            0 <= i <= orders@.len(),
            match best {
                None => forall|k: int|
                    0 <= k < i ==> !at_volume(orders@, #[trigger] limit_at(orders@, k), volume as int),
                Some(m) => {
                    &&& exists|k: int|
                        0 <= k < i && at_imbalance(orders@, #[trigger] limit_at(orders@, k), volume as int, m as int)
                    &&& forall|k: int|
                        0 <= k < i && at_volume(orders@, #[trigger] limit_at(orders@, k), volume as int) ==> m
                            <= stats_at(orders@, limit_at(orders@, k)).result.imbalance
                },
            },
        decreases orders@.len() - i,
    {
        let stats = candidate_stats(orders, orders[i].limit);
        proof {
            assert(limit_at(orders@, i as int) == orders[i as int].limit);
        }
        if let Some(st) = stats {
            if st.result.volume == volume {
                match best {
                    None => {
                        best = Some(st.result.imbalance);
                    },
                    Some(m) => {
                        if st.result.imbalance < m {
                            best = Some(st.result.imbalance);
                        }
                    },
                }
            }
        }
        i += 1;
    }
    match best {
        Some(m) => m,
        None => {
            proof {
                let k = choose|k: int|
                    0 <= k < orders@.len() && at_volume(orders@, #[trigger] limit_at(orders@, k), volume as int);
                assert(!at_volume(orders@, limit_at(orders@, k), volume as int));
            }
            0
        },
    }
}

/// The lowest and highest prices that clear `volume` with `imbalance`.
fn price_bounds(orders: &Vec<AuctionOrderSnap>, volume: u64, imbalance: u64) -> (r: (Money, Money))
    requires
        exists|k: int|
            0 <= k < orders@.len() && at_imbalance(
                orders@,
                #[trigger] limit_at(orders@, k),
                volume as int,
                imbalance as int,
            ),
    ensures
        is_limit(orders@, r.0),
        at_imbalance(orders@, r.0, volume as int, imbalance as int),
        is_limit(orders@, r.1),
        at_imbalance(orders@, r.1, volume as int, imbalance as int),
        forall|k: int|
            0 <= k < orders@.len() && at_imbalance(
                orders@,
                #[trigger] limit_at(orders@, k),
                volume as int,
                imbalance as int,
            ) ==> r.0.cents <= limit_at(orders@, k).cents <= r.1.cents,
{
    let mut bounds: Option<(Money, Money)> = None;
    let mut i: usize = 0;
    while i < orders.len()
        invariant
            0 <= i <= orders@.len(),
            match bounds {
                None => forall|k: int|
                    0 <= k < i ==> !at_imbalance(
                        orders@,
                        #[trigger] limit_at(orders@, k),
                        volume as int,
                        imbalance as int,
                    ),
                Some(b) => {
                    &&& is_limit(orders@, b.0)
                    &&& at_imbalance(orders@, b.0, volume as int, imbalance as int)
                    &&& is_limit(orders@, b.1)
                    &&& at_imbalance(orders@, b.1, volume as int, imbalance as int)
                    &&& forall|k: int|
                        0 <= k < i && at_imbalance(
                            orders@,
                            #[trigger] limit_at(orders@, k),
                            volume as int,
                            imbalance as int,
                        ) ==> b.0.cents <= limit_at(orders@, k).cents <= b.1.cents
                },
            },
        decreases orders@.len() - i,
    {
        let price = orders[i].limit;
        let stats = candidate_stats(orders, price);
        proof {
            assert(limit_at(orders@, i as int) == price);
        }
        if let Some(st) = stats {
            if st.result.volume == volume && st.result.imbalance == imbalance {
                match bounds {
                    None => {
                        bounds = Some((price, price));
                    },
                    Some(b) => {
                        let low = if price.cents < b.0.cents {
                            price
                        } else {
                            b.0
                        };
                        let high = if price.cents > b.1.cents {
                            price
                        } else {
                            b.1
                        };
                        bounds = Some((low, high));
                    },
                }
            }
        }
        i += 1;
    }
    match bounds {
        Some(b) => b,
        None => {
            proof {
                let k = choose|k: int|
                    0 <= k < orders@.len() && at_imbalance(
                        orders@,
                        #[trigger] limit_at(orders@, k),
                        volume as int,
                        imbalance as int,
                    );
                assert(!at_imbalance(orders@, limit_at(orders@, k), volume as int, imbalance as int));
            }
            (Money { cents: 0 }, Money { cents: 0 })
        },
    }
}

/// The least better-priced difference among the prices that clear `volume`.
fn least_difference(orders: &Vec<AuctionOrderSnap>, volume: u64) -> (r: u64)
    requires
        exists|k: int| 0 <= k < orders@.len() && at_volume(orders@, #[trigger] limit_at(orders@, k), volume as int),
    ensures
        exists|k: int|
            0 <= k < orders@.len() && at_difference(orders@, #[trigger] limit_at(orders@, k), volume as int, r as int),
        forall|k: int|
            0 <= k < orders@.len() && at_volume(orders@, #[trigger] limit_at(orders@, k), volume as int) ==> r
                <= stats_at(orders@, limit_at(orders@, k)).aggressive_difference,
{
    let mut best: Option<u64> = None;
    let mut i: usize = 0;
    while i < orders.len()
        invariant
            0 <= i <= orders@.len(),
            match best {
                None => forall|k: int|
                    0 <= k < i ==> !at_volume(orders@, #[trigger] limit_at(orders@, k), volume as int),
                Some(m) => {
                    &&& exists|k: int|
                        0 <= k < i && at_difference(orders@, #[trigger] limit_at(orders@, k), volume as int, m as int)
                    &&& forall|k: int|
                        0 <= k < i && at_volume(orders@, #[trigger] limit_at(orders@, k), volume as int) ==> m
                            <= stats_at(orders@, limit_at(orders@, k)).aggressive_difference
                },
            },
        decreases orders@.len() - i,
    {
        let stats = candidate_stats(orders, orders[i].limit);
        proof {
            assert(limit_at(orders@, i as int) == orders[i as int].limit);
        }
        if let Some(st) = stats {
            if st.result.volume == volume {
                match best {
                    None => {
                        best = Some(st.aggressive_difference);
                    },
                    Some(m) => {
                        if st.aggressive_difference < m {
                            best = Some(st.aggressive_difference);
                        }
                    },
                }
            }
        }
        i += 1;
    }
    match best {
        Some(m) => m,
        None => {
            proof {
                let k = choose|k: int|
                    0 <= k < orders@.len() && at_volume(orders@, #[trigger] limit_at(orders@, k), volume as int);
                assert(!at_volume(orders@, limit_at(orders@, k), volume as int));
            }
            0
        },
    }
}

/// Whether `p` is no farther from `anchor` than `q`, the lower winning a tie.
fn no_farther_exec(anchor: i64, p: i64, q: i64) -> (r: bool)
    ensures
        r == no_farther(anchor as int, p as int, q as int),
{
    let dp = if p as i128 >= anchor as i128 {
        p as i128 - anchor as i128
    } else {
        anchor as i128 - p as i128
    };
    let dq = if q as i128 >= anchor as i128 {
        q as i128 - anchor as i128
    } else {
        anchor as i128 - q as i128
    };
    dp < dq || (dp == dq && p <= q)
}

/// Among the prices that clear `volume` with `difference`, the one closest to `anchor`.
fn closest_price(orders: &Vec<AuctionOrderSnap>, volume: u64, difference: u64, anchor: i64) -> (r: Money)
    requires
        exists|k: int|
            0 <= k < orders@.len() && at_difference(
                orders@,
                #[trigger] limit_at(orders@, k),
                volume as int,
                difference as int,
            ),
    ensures
        is_limit(orders@, r),
        at_difference(orders@, r, volume as int, difference as int),
        forall|k: int|
            0 <= k < orders@.len() && at_difference(
                orders@,
                #[trigger] limit_at(orders@, k),
                volume as int,
                difference as int,
            ) ==> no_farther(anchor as int, r.cents as int, limit_at(orders@, k).cents as int),
{
    let mut best: Option<Money> = None;
    let mut i: usize = 0;
    while i < orders.len()
        invariant
            0 <= i <= orders@.len(),
            match best {
                None => forall|k: int|
                    0 <= k < i ==> !at_difference(
                        orders@,
                        #[trigger] limit_at(orders@, k),
                        volume as int,
                        difference as int,
                    ),
                Some(b) => {
                    &&& is_limit(orders@, b)
                    &&& at_difference(orders@, b, volume as int, difference as int)
                    &&& forall|k: int|
                        0 <= k < i && at_difference(
                            orders@,
                            #[trigger] limit_at(orders@, k),
                            volume as int,
                            difference as int,
                        ) ==> no_farther(anchor as int, b.cents as int, limit_at(orders@, k).cents as int)
                },
            },
        decreases orders@.len() - i,
    {
        let price = orders[i].limit;
        let stats = candidate_stats(orders, price);
        proof {
            assert(limit_at(orders@, i as int) == price);
        }
        if let Some(st) = stats {
            if st.result.volume == volume && st.aggressive_difference == difference {
                match best {
                    None => {
                        best = Some(price);
                    },
                    Some(b) => {
                        if !no_farther_exec(anchor, b.cents, price.cents) {
                            best = Some(price);
                        }
                    },
                }
            }
        }
        i += 1;
    }
    match best {
        Some(b) => b,
        None => {
            proof {
                let k = choose|k: int|
                    0 <= k < orders@.len() && at_difference(
                        orders@,
                        #[trigger] limit_at(orders@, k),
                        volume as int,
                        difference as int,
                    );
                assert(!at_difference(orders@, limit_at(orders@, k), volume as int, difference as int));
            }
            Money { cents: 0 }
        },
    }
}

proof fn lemma_max_volume_is(orders: Seq<AuctionOrderSnap>, v: int)
    requires
        exists|k: int| 0 <= k < orders.len() && at_volume(orders, #[trigger] limit_at(orders, k), v),
        forall|k: int|
            0 <= k < orders.len() && clears(orders, #[trigger] limit_at(orders, k)) ==> stats_at(
                orders,
                limit_at(orders, k),
            ).result.volume <= v,
    ensures
        forall|p: Money| #[trigger] max_volume_price(orders, p) <==> is_limit(orders, p) && at_volume(orders, p, v),
{
    let k0 = choose|k: int| 0 <= k < orders.len() && at_volume(orders, #[trigger] limit_at(orders, k), v);
    assert forall|p: Money| #[trigger] max_volume_price(orders, p) <==> is_limit(orders, p) && at_volume(orders, p, v) by {
        if is_limit(orders, p) {
            let j = choose|j: int| 0 <= j < orders.len() && #[trigger] limit_at(orders, j) == p;
            if max_volume_price(orders, p) {
                assert(clears(orders, limit_at(orders, k0)));
                assert(clears(orders, limit_at(orders, j)));
            }
        }
    }
}

proof fn lemma_least_imbalance_is(orders: Seq<AuctionOrderSnap>, v: int, m: int)
    requires
        forall|p: Money| #[trigger] max_volume_price(orders, p) <==> is_limit(orders, p) && at_volume(orders, p, v),
        exists|k: int| 0 <= k < orders.len() && at_imbalance(orders, #[trigger] limit_at(orders, k), v, m),
        forall|k: int|
            0 <= k < orders.len() && at_volume(orders, #[trigger] limit_at(orders, k), v) ==> m <= stats_at(
                orders,
                limit_at(orders, k),
            ).result.imbalance,
    ensures
        forall|p: Money| #[trigger]
            least_imbalance_price(orders, p) <==> is_limit(orders, p) && at_imbalance(orders, p, v, m),
{
    let k0 = choose|k: int| 0 <= k < orders.len() && at_imbalance(orders, #[trigger] limit_at(orders, k), v, m);
    assert(is_limit(orders, limit_at(orders, k0)));
    assert(max_volume_price(orders, limit_at(orders, k0)));
    assert forall|p: Money| #[trigger]
        least_imbalance_price(orders, p) <==> is_limit(orders, p) && at_imbalance(orders, p, v, m) by {
        if is_limit(orders, p) {
            let j = choose|j: int| 0 <= j < orders.len() && #[trigger] limit_at(orders, j) == p;
            if least_imbalance_price(orders, p) {
                assert(max_volume_price(orders, limit_at(orders, k0)));
            }
            if at_imbalance(orders, p, v, m) {
                assert(max_volume_price(orders, p));
                assert forall|k: int|
                    0 <= k < orders.len() && max_volume_price(orders, #[trigger] limit_at(orders, k)) implies stats_at(
                    orders,
                    p,
                ).result.imbalance <= stats_at(orders, limit_at(orders, k)).result.imbalance by {
                    assert(is_limit(orders, limit_at(orders, k)));
                }
            }
        }
    }
}

proof fn lemma_least_difference_is(orders: Seq<AuctionOrderSnap>, v: int, m: int)
    requires
        forall|p: Money| #[trigger] max_volume_price(orders, p) <==> is_limit(orders, p) && at_volume(orders, p, v),
        exists|k: int| 0 <= k < orders.len() && at_difference(orders, #[trigger] limit_at(orders, k), v, m),
        forall|k: int|
            0 <= k < orders.len() && at_volume(orders, #[trigger] limit_at(orders, k), v) ==> m <= stats_at(
                orders,
                limit_at(orders, k),
            ).aggressive_difference,
    ensures
        forall|p: Money| #[trigger]
            least_difference_price(orders, p) <==> is_limit(orders, p) && at_difference(orders, p, v, m),
{
    let k0 = choose|k: int| 0 <= k < orders.len() && at_difference(orders, #[trigger] limit_at(orders, k), v, m);
    assert(is_limit(orders, limit_at(orders, k0)));
    assert(max_volume_price(orders, limit_at(orders, k0)));
    assert forall|p: Money| #[trigger]
        least_difference_price(orders, p) <==> is_limit(orders, p) && at_difference(orders, p, v, m) by {
        if is_limit(orders, p) {
            let j = choose|j: int| 0 <= j < orders.len() && #[trigger] limit_at(orders, j) == p;
            if least_difference_price(orders, p) {
                assert(max_volume_price(orders, limit_at(orders, k0)));
            }
            if at_difference(orders, p, v, m) {
                assert(max_volume_price(orders, p));
                assert forall|k: int|
                    0 <= k < orders.len() && max_volume_price(orders, #[trigger] limit_at(orders, k)) implies stats_at(
                    orders,
                    p,
                ).aggressive_difference <= stats_at(orders, limit_at(orders, k)).aggressive_difference by {
                    assert(is_limit(orders, limit_at(orders, k)));
                }
            }
        }
    }
}

/// The single clearing result of the opening call auction of one stock, if any
/// price matches.
pub fn clearing_result(
    orders: &Vec<AuctionOrderSnap>,
    previous_close: Money,
    exchange: StockExchange,
    price_tick: Money,
) -> (r: Option<ClearingResult>)
    ensures
        r == spec_clearing_result(orders@, previous_close, exchange, price_tick),
{
    let volume = match best_volume(orders) {
        None => {
            return None;
        },
        Some(v) => v,
    };
    proof {
        lemma_max_volume_is(orders@, volume as int);
    }
    match exchange {
        StockExchange::Shanghai => {
            let imbalance = least_imbalance(orders, volume);
            proof {
                lemma_least_imbalance_is(orders@, volume as int, imbalance as int);
            }
            let (low, high) = price_bounds(orders, volume, imbalance);
            proof {
                let o = orders@;
                assert(lowest_best(o, low));
                assert(highest_best(o, high));
                let cl = choose|p: Money| lowest_best(o, p);
                let ch = choose|p: Money| highest_best(o, p);
                let jl = choose|j: int| 0 <= j < o.len() && #[trigger] limit_at(o, j) == low;
                let jh = choose|j: int| 0 <= j < o.len() && #[trigger] limit_at(o, j) == high;
                let il = choose|j: int| 0 <= j < o.len() && #[trigger] limit_at(o, j) == cl;
                let ih = choose|j: int| 0 <= j < o.len() && #[trigger] limit_at(o, j) == ch;
                assert(least_imbalance_price(o, limit_at(o, jl)));
                assert(least_imbalance_price(o, limit_at(o, il)));
                assert(cl.cents == low.cents);
                assert(least_imbalance_price(o, limit_at(o, jh)));
                assert(least_imbalance_price(o, limit_at(o, ih)));
                assert(ch.cents == high.cents);
            }
            let mid = match rounded_midpoint(low, high, price_tick) {
                None => {
                    return None;
                },
                Some(m) => m,
            };
            match candidate_stats(orders, mid) {
                None => None,
                Some(st) => Some(st.result),
            }
        },
        StockExchange::Shenzhen => {
            let difference = least_difference(orders, volume);
            proof {
                lemma_least_difference_is(orders@, volume as int, difference as int);
            }
            let price = closest_price(orders, volume, difference, previous_close.cents);
            proof {
                let o = orders@;
                let prev = previous_close.cents as int;
                assert(shenzhen_price(o, prev, price));
                let c = choose|p: Money| shenzhen_price(o, prev, p);
                let j = choose|j: int| 0 <= j < o.len() && #[trigger] limit_at(o, j) == price;
                let i = choose|j: int| 0 <= j < o.len() && #[trigger] limit_at(o, j) == c;
                assert(least_difference_price(o, limit_at(o, j)));
                assert(least_difference_price(o, limit_at(o, i)));
                assert(c.cents == price.cents);
            }
            match candidate_stats(orders, price) {
                None => None,
                Some(st) => Some(st.result),
            }
        },
    }
}

/// Index of a best element among `0..n` that satisfy `ok`, where `le(i, j)`
/// says that `i` is at least as good as `j`; `-1` if none satisfies `ok`.
pub open spec fn best_index(n: int, ok: spec_fn(int) -> bool, le: spec_fn(int, int) -> bool) -> int
    decreases n,
{
    if n <= 0 {
        -1
    } else {
        let b = best_index(n - 1, ok, le);
        if !ok(n - 1) {
            b
        } else if b < 0 {
            n - 1
        } else if le(b, n - 1) {
            b
        } else {
            n - 1
        }
    }
}

proof fn lemma_best_index(n: int, ok: spec_fn(int) -> bool, le: spec_fn(int, int) -> bool)
    requires
        n >= 0,
        forall|i: int, j: int| #![trigger le(i, j)] le(i, j) || le(j, i),
        forall|i: int, j: int, k: int| #![trigger le(i, j), le(j, k)] le(i, j) && le(j, k) ==> le(i, k),
    ensures
        best_index(n, ok, le) == -1 <==> forall|i: int| 0 <= i < n ==> !#[trigger] ok(i),
        best_index(n, ok, le) != -1 ==> {
            &&& 0 <= best_index(n, ok, le) < n
            &&& ok(best_index(n, ok, le))
            &&& forall|i: int| 0 <= i < n && #[trigger] ok(i) ==> le(best_index(n, ok, le), i)
        },
    decreases n,
{
    if n > 0 {
        lemma_best_index(n - 1, ok, le);
        let b = best_index(n - 1, ok, le);
        if ok(n - 1) && b >= 0 && !le(b, n - 1) {
            assert(le(n - 1, b));
            assert forall|i: int| 0 <= i < n && #[trigger] ok(i) implies le(n - 1, i) by {
                if i < n - 1 {
                    assert(le(b, i));
                } else {
                    assert(le(n - 1, n - 1) || le(n - 1, n - 1));
                }
            }
        }
        if ok(n - 1) && b < 0 {
            assert forall|i: int| 0 <= i < n && #[trigger] ok(i) implies le(n - 1, i) by {
                assert(le(n - 1, n - 1) || le(n - 1, n - 1));
            }
        }
    }
}

/// A limit price that clears at all has one closest to the previous close
/// among the least-difference, largest-volume prices.
pub proof fn lemma_shenzhen_price_exists(orders: Seq<AuctionOrderSnap>, previous_close: int)
    requires
        exists|k: int| 0 <= k < orders.len() && clears(orders, #[trigger] limit_at(orders, k)),
    ensures
        exists|p: Money| shenzhen_price(orders, previous_close, p),
{
    let n = orders.len() as int;
    let vol = |k: int| stats_at(orders, limit_at(orders, k)).result.volume as int;
    let ok1 = |k: int| clears(orders, limit_at(orders, k));
    let le1 = |i: int, j: int| vol(i) >= vol(j);
    lemma_best_index(n, ok1, le1);
    let k0 = choose|k: int| 0 <= k < orders.len() && clears(orders, #[trigger] limit_at(orders, k));
    assert(ok1(k0));
    let k1 = best_index(n, ok1, le1);
    assert(ok1(k1));
    let p1 = limit_at(orders, k1);
    assert(max_volume_price(orders, p1)) by {
        assert(is_limit(orders, p1));
        assert forall|k: int|
            0 <= k < orders.len() && clears(orders, #[trigger] limit_at(orders, k)) implies stats_at(
            orders,
            limit_at(orders, k),
        ).result.volume <= stats_at(orders, p1).result.volume by {
            assert(ok1(k));
            assert(le1(k1, k));
        }
    }
    let ok2 = |k: int| max_volume_price(orders, limit_at(orders, k));
    let le2 = |i: int, j: int|
        stats_at(orders, limit_at(orders, i)).aggressive_difference <= stats_at(
            orders,
            limit_at(orders, j),
        ).aggressive_difference;
    lemma_best_index(n, ok2, le2);
    assert(ok2(k1));
    let k2 = best_index(n, ok2, le2);
    let p2 = limit_at(orders, k2);
    assert(least_difference_price(orders, p2)) by {
        assert(is_limit(orders, p2));
        assert forall|k: int|
            0 <= k < orders.len() && max_volume_price(orders, #[trigger] limit_at(orders, k)) implies stats_at(
            orders,
            p2,
        ).aggressive_difference <= stats_at(orders, limit_at(orders, k)).aggressive_difference by {
            assert(ok2(k));
            assert(le2(k2, k));
        }
    }
    let ok3 = |k: int| least_difference_price(orders, limit_at(orders, k));
    let le3 = |i: int, j: int|
        no_farther(previous_close, limit_at(orders, i).cents as int, limit_at(orders, j).cents as int);
    lemma_best_index(n, ok3, le3);
    assert(ok3(k2));
    let k3 = best_index(n, ok3, le3);
    let p3 = limit_at(orders, k3);
    assert(shenzhen_price(orders, previous_close, p3)) by {
        assert(is_limit(orders, p3));
        assert forall|k: int|
            0 <= k < orders.len() && least_difference_price(orders, #[trigger] limit_at(orders, k)) implies no_farther(
            previous_close,
            p3.cents as int,
            limit_at(orders, k).cents as int,
        ) by {
            assert(ok3(k));
            assert(le3(k3, k));
        }
    }
}

/// Whatever the exchange, the clearing price fills every better-priced order
/// and the whole smaller side at the price: the volume is the smaller of the
/// buys willing to pay it and the sells willing to take it, and neither
/// better-priced side exceeds it.
pub proof fn law_clearing_fills_better_priced_orders(
    orders: Seq<AuctionOrderSnap>,
    previous_close: Money,
    exchange: StockExchange,
    price_tick: Money,
)
    requires
        spec_clearing_result(orders, previous_close, exchange, price_tick) is Some,
    ensures
        ({
            let r = spec_clearing_result(orders, previous_close, exchange, price_tick)->Some_0;
            let p = r.price.cents as int;
            let buy = interest_qty(orders, p, Interest::BuyAtOrAbove);
            let sell = interest_qty(orders, p, Interest::SellAtOrBelow);
            &&& r.volume > 0
            &&& r.volume == min_int(buy, sell)
            &&& interest_qty(orders, p, Interest::BuyAbove) <= r.volume
            &&& interest_qty(orders, p, Interest::SellBelow) <= r.volume
            &&& r.imbalance == abs(buy - sell)
        }),
{
    let r = spec_clearing_result(orders, previous_close, exchange, price_tick)->Some_0;
    if exchange == StockExchange::Shenzhen {
        lemma_shenzhen_price_exists(orders, previous_close.cents as int);
        let c = choose|p: Money| shenzhen_price(orders, previous_close.cents as int, p);
        assert(clears(orders, c));
    }
    let p = r.price.cents as int;
    lemma_interest_qty_nonneg(orders, p, Interest::BuyAtOrAbove);
    lemma_interest_qty_nonneg(orders, p, Interest::SellAtOrBelow);
    lemma_interest_qty_nonneg(orders, p, Interest::BuyAbove);
    lemma_interest_qty_nonneg(orders, p, Interest::SellBelow);
}

/// On the Shenzhen rules the clearing price is a submitted limit price and no
/// limit price matches a larger volume.
pub proof fn law_shenzhen_clears_the_largest_volume(
    orders: Seq<AuctionOrderSnap>,
    previous_close: Money,
    price_tick: Money,
    k: int,
)
    requires
        spec_clearing_result(orders, previous_close, StockExchange::Shenzhen, price_tick) is Some,
        0 <= k < orders.len(),
        clears(orders, limit_at(orders, k)),
    ensures
        ({
            let r = spec_clearing_result(orders, previous_close, StockExchange::Shenzhen, price_tick)->Some_0;
            &&& is_limit(orders, r.price)
            &&& stats_at(orders, limit_at(orders, k)).result.volume <= r.volume
        }),
{
    lemma_shenzhen_price_exists(orders, previous_close.cents as int);
    let c = choose|p: Money| shenzhen_price(orders, previous_close.cents as int, p);
    assert(max_volume_price(orders, c));
}

} // verus!
