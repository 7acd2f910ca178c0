//! Matching at the opening price: the buy orders at or above the clearing
//! price, best limit first and earlier arrival first among equal limits, are
//! paired with the sell orders at or below it, lowest limit first; each pair
//! trades the smaller remaining quantity, and the earlier order of the two is
//! the maker. The matched volume and the quantity filled per order are
//! tallied with overflow checks.
use vstd::prelude::*;

use std::collections::BTreeMap;

use super::auction::{
    clearing_result, interest_qty, lemma_shenzhen_price_exists, min_int, spec_candidate_stats, spec_clearing_result,
    AuctionOrderSnap, ClearingResult, Interest,
};
use super::market::StockExchange;
use super::remainders::{auction_remainders, filled_of, sort_by_arrival, stage_all, RemainderError, RemainderPlan};
use crate::ids::{AccountId, Money, OrderId, Side};

verus! {

broadcast use {vstd::laws_cmp::group_laws_cmp, vstd::std_specs::btree::group_btree_axioms};

/// One trade planned at the clearing price.
#[derive(Clone, Copy, Debug, PartialEq, Eq, Structural)]
pub struct PlannedTrade {
    pub buyer: AccountId,
    pub seller: AccountId,
    pub buy_order_id: OrderId,
    pub sell_order_id: OrderId,
    pub maker: AccountId,
    pub taker: AccountId,
    pub qty: u32,
}

/// Why the matching of an auction was abandoned.
#[derive(Clone, Copy, Debug, PartialEq, Eq, Structural)]
pub enum AuctionMatchError {
    /// The matched volume does not fit 64 bits.
    MatchedVolumeOverflow { buyer: AccountId },
    /// The quantity filled for one order does not fit 32 bits.
    FillOverflow { buyer: AccountId, order_id: u64 },
}

/// The planned trades, the matched volume and the quantity filled per order.
#[derive(Debug)]
pub struct AuctionMatch {
    pub trades: Vec<PlannedTrade>,
    pub matched_volume: u64,
    pub filled_by_order: BTreeMap<u64, u32>,
}

/// Buy priority: higher limit first, then earlier arrival.
pub open spec fn buy_key_le(a: AuctionOrderSnap, b: AuctionOrderSnap) -> bool {
    a.limit.cents > b.limit.cents || (a.limit.cents == b.limit.cents && a.order_id <= b.order_id)
}

/// Sell priority: lower limit first, then earlier arrival.
pub open spec fn sell_key_le(a: AuctionOrderSnap, b: AuctionOrderSnap) -> bool {
    a.limit.cents < b.limit.cents || (a.limit.cents == b.limit.cents && a.order_id <= b.order_id)
}

/// `x` placed after every element whose priority key is at most its own (stable insertion).
pub open spec fn stable_insert(s: Seq<AuctionOrderSnap>, x: AuctionOrderSnap, buy: bool) -> Seq<AuctionOrderSnap>
    decreases s.len(),
{
    if s.len() == 0 {
        seq![x]
    } else if (if buy {
        buy_key_le(s.last(), x)
    } else {
        sell_key_le(s.last(), x)
    }) {
        s.push(x)
    } else {
        stable_insert(s.drop_last(), x, buy).push(s.last())
    }
}

/// The stable sort of `s` by buy (or sell) priority.
pub open spec fn priority_sorted(s: Seq<AuctionOrderSnap>, buy: bool) -> Seq<AuctionOrderSnap>
    decreases s.len(),
{
    if s.len() == 0 {
        s
    } else {
        stable_insert(priority_sorted(s.drop_last(), buy), s.last(), buy)
    }
}

/// The orders of one side that the clearing price reaches, in queue order.
pub open spec fn eligible(orders: Seq<AuctionOrderSnap>, price: Money, buy: bool) -> Seq<AuctionOrderSnap>
    decreases orders.len(),
{
    if orders.len() == 0 {
        orders
    } else {
        let o = orders.last();
        let rest = eligible(orders.drop_last(), price, buy);
        if (buy && o.side == Side::Buy && o.limit.cents >= price.cents) || (!buy && o.side == Side::Sell
            && o.limit.cents <= price.cents) {
            rest.push(o)
        } else {
            rest
        }
    }
}

pub open spec fn min_qty(a: u32, b: u32) -> u32 {
    if a <= b {
        a
    } else {
        b
    }
}

/// `o` with `filled` of its quantity taken away.
pub open spec fn reduced(o: AuctionOrderSnap, filled: u32) -> AuctionOrderSnap {
    AuctionOrderSnap { qty: (o.qty - filled) as u32, ..o }
}

/// The trade of the two best orders.
pub open spec fn head_trade(b: AuctionOrderSnap, s: AuctionOrderSnap) -> PlannedTrade {
    PlannedTrade {
        buyer: b.owner,
        seller: s.owner,
        buy_order_id: OrderId(b.order_id),
        sell_order_id: OrderId(s.order_id),
        maker: if b.order_id < s.order_id {
            b.owner
        } else {
            s.owner
        },
        taker: if b.order_id < s.order_id {
            s.owner
        } else {
            b.owner
        },
        qty: min_qty(b.qty, s.qty),
    }
}

/// What is left of a priority queue after its head traded `qty`.
pub open spec fn after_head(q: Seq<AuctionOrderSnap>, qty: u32) -> Seq<AuctionOrderSnap> {
    if q[0].qty - qty == 0 {
        q.drop_first()
    } else {
        q.update(0, reduced(q[0], qty))
    }
}

/// The trades of two priority queues matched head to head until one runs out.
pub open spec fn match_queues(buys: Seq<AuctionOrderSnap>, sells: Seq<AuctionOrderSnap>) -> Seq<PlannedTrade>
    decreases buys.len() + sells.len(),
{
    if buys.len() == 0 || sells.len() == 0 {
        Seq::empty()
    } else {
        let t = head_trade(buys[0], sells[0]);
        seq![t] + match_queues(after_head(buys, t.qty), after_head(sells, t.qty))
    }
}

/// The trades at `price`.
pub open spec fn planned_trades(orders: Seq<AuctionOrderSnap>, price: Money) -> Seq<PlannedTrade> {
    match_queues(priority_sorted(eligible(orders, price, true), true), priority_sorted(eligible(orders, price, false), false))
}

/// The matched volume and fills of a sequence of trades, or the first overflow.
pub open spec fn tally(trades: Seq<PlannedTrade>) -> Result<(u64, Map<u64, u32>), AuctionMatchError>
    decreases trades.len(),
{
    if trades.len() == 0 {
        Ok((0, Map::empty()))
    } else {
        match tally(trades.drop_last()) {
            Err(e) => Err(e),
            Ok((volume, fills)) => {
                let t = trades.last();
                if volume + t.qty > u64::MAX {
                    Err(AuctionMatchError::MatchedVolumeOverflow { buyer: t.buyer })
                } else if filled_of(fills, t.buy_order_id.0) + t.qty > u32::MAX {
                    Err(AuctionMatchError::FillOverflow { buyer: t.buyer, order_id: t.buy_order_id.0 })
                } else {
                    let once = fills.insert(t.buy_order_id.0, (filled_of(fills, t.buy_order_id.0) + t.qty) as u32);
                    if filled_of(once, t.sell_order_id.0) + t.qty > u32::MAX {
                        Err(AuctionMatchError::FillOverflow { buyer: t.buyer, order_id: t.sell_order_id.0 })
                    } else {
                        Ok(
                            (
                                (volume + t.qty) as u64,
                                once.insert(t.sell_order_id.0, (filled_of(once, t.sell_order_id.0) + t.qty) as u32),
                            ),
                        )
                    }
                }
            },
        }
    }
}

proof fn lemma_tally_error_persists(trades: Seq<PlannedTrade>, k: int)
    requires
        0 <= k <= trades.len(),
        tally(trades.take(k)) is Err,
    ensures
        tally(trades) == tally(trades.take(k)),
    decreases trades.len() - k,
{
    if k < trades.len() {
        assert(trades.take(k + 1).drop_last() =~= trades.take(k));
        lemma_tally_error_persists(trades, k + 1);
    } else {
        assert(trades.take(k) =~= trades);
    }
}

fn key_le(a: &AuctionOrderSnap, b: &AuctionOrderSnap, buy: bool) -> (r: bool)
    ensures
        r == (if buy {
            buy_key_le(*a, *b)
        } else {
            sell_key_le(*a, *b)
        }),
{
    if buy {
        a.limit.cents > b.limit.cents || (a.limit.cents == b.limit.cents && a.order_id <= b.order_id)
    } else {
        a.limit.cents < b.limit.cents || (a.limit.cents == b.limit.cents && a.order_id <= b.order_id)
    }
}

fn insert_stably(v: &mut Vec<AuctionOrderSnap>, x: AuctionOrderSnap, buy: bool)
    ensures
        final(v)@ == stable_insert(old(v)@, x, buy),
{
    let ghost v0 = v@;
    let mut j: usize = v.len();
    assert(v0.take(j as int) =~= v0);
    assert(v0.skip(j as int) =~= Seq::<AuctionOrderSnap>::empty());
    while j > 0 && !key_le(&v[j - 1], &x, buy)
        invariant
            0 <= j <= v@.len(),
            v@ == v0,
            stable_insert(v0, x, buy) == stable_insert(v0.take(j as int), x, buy) + v0.skip(j as int),
        decreases j,
    {
        proof {
            let t = v0.take(j as int);
            assert(t.last() == v0[j - 1]);
            assert(t.drop_last() =~= v0.take(j - 1));
            assert(seq![v0[j - 1]] + v0.skip(j as int) =~= v0.skip(j - 1));
            assert(stable_insert(t, x, buy) == stable_insert(v0.take(j - 1), x, buy).push(v0[j - 1]));
            assert(stable_insert(v0.take(j - 1), x, buy).push(v0[j - 1]) + v0.skip(j as int)
                =~= stable_insert(v0.take(j - 1), x, buy) + v0.skip(j - 1));
        }
        j -= 1;
    }
    proof {
        let t = v0.take(j as int);
        if j > 0 {
            assert(t.last() == v0[j - 1]);
            assert(stable_insert(t, x, buy) == t.push(x));
        } else {
            assert(stable_insert(t, x, buy) == seq![x]);
        }
    }
    v.insert(j, x);
    assert(v@ =~= v0.take(j as int).push(x) + v0.skip(j as int));
}

/// The eligible orders of one side in priority order.
fn priority_queue(orders: &Vec<AuctionOrderSnap>, price: Money, buy: bool) -> (q: Vec<AuctionOrderSnap>)
    ensures
        q@ == priority_sorted(eligible(orders@, price, buy), buy),
{
    let mut picked: Vec<AuctionOrderSnap> = Vec::new();
    let mut i: usize = 0;
    while i < orders.len()
        invariant
            0 <= i <= orders@.len(),
            picked@ == eligible(orders@.take(i as int), price, buy),
        decreases orders@.len() - i,
    {
        proof {
            assert(orders@.take(i + 1).drop_last() =~= orders@.take(i as int));
            assert(orders@.take(i + 1).last() == orders@[i as int]);
        }
        let o = orders[i];
        let reached = if buy {
            o.side == Side::Buy && o.limit.cents >= price.cents
        } else {
            o.side == Side::Sell && o.limit.cents <= price.cents
        };
        if reached {
            picked.push(o);
        }
        i += 1;
    }
    assert(orders@.take(orders@.len() as int) =~= orders@);
    let mut sorted: Vec<AuctionOrderSnap> = Vec::new();
    let mut k: usize = 0;
    while k < picked.len()
        invariant
            0 <= k <= picked@.len(),
            sorted@ == priority_sorted(picked@.take(k as int), buy),
        decreases picked@.len() - k,
    {
        proof {
            assert(picked@.take(k + 1).drop_last() =~= picked@.take(k as int));
            assert(picked@.take(k + 1).last() == picked@[k as int]);
        }
        insert_stably(&mut sorted, picked[k], buy);
        k += 1;
    }
    assert(picked@.take(picked@.len() as int) =~= picked@);
    sorted
}

fn add_fill(fills: &mut BTreeMap<u64, u32>, order_id: u64, qty: u32) -> (ok: bool)
    ensures
        ok == (filled_of(old(fills)@, order_id) + qty <= u32::MAX),
        ok ==> final(fills)@ == old(fills)@.insert(order_id, (filled_of(old(fills)@, order_id) + qty) as u32),
        !ok ==> final(fills)@ == old(fills)@,
{
    let before: u32 = match fills.get(&order_id) {
        Some(q) => *q,
        None => 0,
    };
    assert(before == filled_of(old(fills)@, order_id));
    if before > u32::MAX - qty {
        return false;
    }
    fills.insert(order_id, before + qty);
    true
}

/// Plans the trades of an opening call auction at its clearing `price` and
/// tallies the matched volume and the quantity filled per order; an overflow
/// of either abandons the matching.
pub fn match_auction(orders: &Vec<AuctionOrderSnap>, price: Money) -> (r: Result<AuctionMatch, AuctionMatchError>)
    ensures
        match r {
            Ok(m) => m.trades@ == planned_trades(orders@, price) && tally(m.trades@) == Ok::<
                (u64, Map<u64, u32>),
                AuctionMatchError,
            >((m.matched_volume, m.filled_by_order@)),
            Err(e) => tally(planned_trades(orders@, price)) == Err::<(u64, Map<u64, u32>), AuctionMatchError>(e),
        },
{
    let mut buys = priority_queue(orders, price, true);
    let mut sells = priority_queue(orders, price, false);
    let ghost all = planned_trades(orders@, price);
    let mut trades: Vec<PlannedTrade> = Vec::new();
    let mut matched_volume: u64 = 0;
    let mut filled_by_order: BTreeMap<u64, u32> = BTreeMap::new();
    let mut bi: usize = 0;
    let mut si: usize = 0;
    assert(buys@.skip(0) =~= buys@);
    assert(sells@.skip(0) =~= sells@);
    assert(filled_by_order@ =~= Map::<u64, u32>::empty());
    while bi < buys.len() && si < sells.len()
        invariant
            0 <= bi <= buys@.len(),
            0 <= si <= sells@.len(),
            all == planned_trades(orders@, price),
            all == trades@ + match_queues(buys@.skip(bi as int), sells@.skip(si as int)),
            tally(trades@) == Ok::<(u64, Map<u64, u32>), AuctionMatchError>((matched_volume, filled_by_order@)),
        decreases buys@.len() - bi + sells@.len() - si,
    {
        let b = buys[bi];
        let s = sells[si];
        let qty = if b.qty <= s.qty {
            b.qty
        } else {
            s.qty
        };
        let maker = if b.order_id < s.order_id {
            b.owner
        } else {
            s.owner
        };
        let taker = if b.order_id < s.order_id {
            s.owner
        } else {
            b.owner
        };
        let trade = PlannedTrade {
            buyer: b.owner,
            seller: s.owner,
            buy_order_id: OrderId(b.order_id),
            sell_order_id: OrderId(s.order_id),
            maker,
            taker,
            qty,
        };
        let ghost bq = buys@.skip(bi as int);
        let ghost sq = sells@.skip(si as int);
        proof {
            assert(bq[0] == b);
            assert(sq[0] == s);
            assert(trade == head_trade(b, s));
            assert(match_queues(bq, sq) == seq![trade] + match_queues(after_head(bq, qty), after_head(sq, qty)));
        }
        let ghost prefix = trades@.push(trade);
        proof {
            assert(prefix.drop_last() =~= trades@);
            assert(prefix.last() == trade);
        }
        if matched_volume > u64::MAX - qty as u64 {
            proof {
                assert(tally(prefix) is Err);
                assert(all =~= prefix + match_queues(after_head(bq, qty), after_head(sq, qty)));
                assert(all.take(prefix.len() as int) =~= prefix);
                lemma_tally_error_persists(all, prefix.len() as int);
            }
            return Err(AuctionMatchError::MatchedVolumeOverflow { buyer: b.owner });
        }
        let ghost fills0 = filled_by_order@;
        if !add_fill(&mut filled_by_order, b.order_id, qty) {
            proof {
                assert(tally(prefix) is Err);
                assert(all =~= prefix + match_queues(after_head(bq, qty), after_head(sq, qty)));
                assert(all.take(prefix.len() as int) =~= prefix);
                lemma_tally_error_persists(all, prefix.len() as int);
            }
            return Err(AuctionMatchError::FillOverflow { buyer: b.owner, order_id: b.order_id });
        }
        if !add_fill(&mut filled_by_order, s.order_id, qty) {
            proof {
                assert(tally(prefix) is Err);
                assert(all =~= prefix + match_queues(after_head(bq, qty), after_head(sq, qty)));
                assert(all.take(prefix.len() as int) =~= prefix);
                lemma_tally_error_persists(all, prefix.len() as int);
            }
            return Err(AuctionMatchError::FillOverflow { buyer: b.owner, order_id: s.order_id });
        }
        matched_volume = matched_volume + qty as u64;
        trades.push(trade);
        let ghost buys_before = buys@;
        let ghost sells_before = sells@;
        let b_left = b.qty - qty;
        let s_left = s.qty - qty;
        buys.set(bi, AuctionOrderSnap { qty: b_left, ..b });
        sells.set(si, AuctionOrderSnap { qty: s_left, ..s });
        if b_left == 0 {
            bi += 1;
        }
        if s_left == 0 {
            si += 1;
        }
        proof {
            if b_left == 0 {
                assert(buys@.skip(bi as int) =~= after_head(bq, qty));
            } else {
                assert(buys@.skip(bi as int) =~= after_head(bq, qty));
            }
            if s_left == 0 {
                assert(sells@.skip(si as int) =~= after_head(sq, qty));
            } else {
                assert(sells@.skip(si as int) =~= after_head(sq, qty));
            }
            assert(all =~= trades@ + match_queues(buys@.skip(bi as int), sells@.skip(si as int)));
        }
    }
    proof {
        assert(match_queues(buys@.skip(bi as int), sells@.skip(si as int)) =~= Seq::<PlannedTrade>::empty());
        assert(all =~= trades@);
    }
    Ok(AuctionMatch { trades, matched_volume, filled_by_order })
}

/// The priority relation of one side.
pub open spec fn key_le_of(a: AuctionOrderSnap, b: AuctionOrderSnap, buy: bool) -> bool {
    if buy {
        buy_key_le(a, b)
    } else {
        sell_key_le(a, b)
    }
}

/// Each order has priority over every later one.
pub open spec fn in_priority_order(q: Seq<AuctionOrderSnap>, buy: bool) -> bool {
    forall|i: int, j: int| 0 <= i < j < q.len() ==> key_le_of(#[trigger] q[i], #[trigger] q[j], buy)
}

proof fn lemma_stable_insert_members(s: Seq<AuctionOrderSnap>, x: AuctionOrderSnap, buy: bool)
    ensures
        stable_insert(s, x, buy).len() == s.len() + 1,
        forall|k: int|
            0 <= k < stable_insert(s, x, buy).len() ==> (#[trigger] stable_insert(s, x, buy)[k] == x || s.contains(
                stable_insert(s, x, buy)[k],
            )),
    decreases s.len(),
{
    if s.len() > 0 && !key_le_of(s.last(), x, buy) {
        lemma_stable_insert_members(s.drop_last(), x, buy);
        let r = stable_insert(s, x, buy);
        let u = stable_insert(s.drop_last(), x, buy);
        assert forall|k: int| 0 <= k < r.len() implies (#[trigger] r[k] == x || s.contains(r[k])) by {
            if k < u.len() {
                assert(r[k] == u[k]);
                if u[k] != x {
                    let m = choose|m: int| 0 <= m < s.drop_last().len() && s.drop_last()[m] == u[k];
                    assert(s[m] == u[k]);
                }
            } else {
                assert(r[k] == s[s.len() - 1]);
            }
        }
    } else if s.len() > 0 {
        let r = stable_insert(s, x, buy);
        assert forall|k: int| 0 <= k < r.len() implies (#[trigger] r[k] == x || s.contains(r[k])) by {
            if k < s.len() {
                assert(r[k] == s[k]);
            }
        }
    }
}

proof fn lemma_stable_insert_ordered(s: Seq<AuctionOrderSnap>, x: AuctionOrderSnap, buy: bool)
    requires
        in_priority_order(s, buy),
    ensures
        in_priority_order(stable_insert(s, x, buy), buy),
    decreases s.len(),
{
    if s.len() > 0 {
        let r = stable_insert(s, x, buy);
        if key_le_of(s.last(), x, buy) {
            assert forall|i: int, j: int| 0 <= i < j < r.len() implies key_le_of(#[trigger] r[i], #[trigger] r[j], buy) by {
                if j == s.len() {
                    assert(r[i] == s[i]);
                    if i < s.len() - 1 {
                        assert(key_le_of(s[i], s[s.len() - 1], buy));
                    }
                } else {
                    assert(r[i] == s[i]);
                    assert(r[j] == s[j]);
                }
            }
        } else {
            let d = s.drop_last();
            assert(in_priority_order(d, buy)) by {
                assert forall|i: int, j: int| 0 <= i < j < d.len() implies key_le_of(#[trigger] d[i], #[trigger] d[j], buy) by {
                    assert(d[i] == s[i]);
                    assert(d[j] == s[j]);
                }
            }
            lemma_stable_insert_ordered(d, x, buy);
            lemma_stable_insert_members(d, x, buy);
            let u = stable_insert(d, x, buy);
            let last = s.last();
            assert forall|k: int| 0 <= k < u.len() implies key_le_of(#[trigger] u[k], last, buy) by {
                if u[k] == x {
                } else {
                    let m = choose|m: int| 0 <= m < d.len() && d[m] == u[k];
                    assert(d[m] == s[m]);
                    assert(key_le_of(s[m], s[s.len() - 1], buy));
                }
            }
            assert forall|i: int, j: int| 0 <= i < j < r.len() implies key_le_of(#[trigger] r[i], #[trigger] r[j], buy) by {
                assert(r[i] == u[i]);
                if j < u.len() {
                    assert(r[j] == u[j]);
                } else {
                    assert(r[j] == last);
                }
            }
        }
    }
}

/// A priority queue puts every order before the orders it has priority
/// over: buys by higher limit, sells by lower limit, then by arrival.
pub proof fn law_priority_queue_is_ordered(orders: Seq<AuctionOrderSnap>, price: Money, buy: bool)
    ensures
        in_priority_order(priority_sorted(eligible(orders, price, buy), buy), buy),
{
    lemma_priority_sorted_ordered(eligible(orders, price, buy), buy);
}

proof fn lemma_priority_sorted_ordered(s: Seq<AuctionOrderSnap>, buy: bool)
    ensures
        in_priority_order(priority_sorted(s, buy), buy),
    decreases s.len(),
{
    if s.len() > 0 {
        lemma_priority_sorted_ordered(s.drop_last(), buy);
        lemma_stable_insert_ordered(priority_sorted(s.drop_last(), buy), s.last(), buy);
    }
}

/// The matched volume is the sum of the quantities of the planned trades.
pub proof fn law_matched_volume_is_the_sum_of_trades(trades: Seq<PlannedTrade>)
    ensures
        tally(trades) matches Ok((volume, fills)) ==> volume == trade_volume(trades),
    decreases trades.len(),
{
    if trades.len() > 0 {
        law_matched_volume_is_the_sum_of_trades(trades.drop_last());
    }
}

/// The total quantity of the trades.
pub open spec fn trade_volume(trades: Seq<PlannedTrade>) -> int
    decreases trades.len(),
{
    if trades.len() == 0 {
        0
    } else {
        trade_volume(trades.drop_last()) + trades.last().qty
    }
}

/// How the opening call auction of one stock completes.
#[derive(Debug)]
pub enum AuctionCompletion {
    /// No price clears: every order moves to the continuous book unfilled.
    NoOpening { remainders: RemainderPlan },
    /// Matching at the clearing price overflowed: no opening price.
    Abandoned { error: AuctionMatchError },
    /// The opening price, its trades and what moves on to the continuous book.
    Opened { clearing: ClearingResult, matched: AuctionMatch, remainders: RemainderPlan },
}

/// Decides the completion of a stock's opening call auction from its queued
/// orders: the clearing price, the trades at that price and the unfilled
/// remainders that move on to the continuous book. Settling the trades on
/// the accounts and publishing the events follow from this plan.
pub fn complete_auction(
    orders: &Vec<AuctionOrderSnap>,
    previous_close: Money,
    exchange: StockExchange,
    price_tick: Money,
) -> (r: AuctionCompletion)
    ensures
        match spec_clearing_result(orders@, previous_close, exchange, price_tick) {
            None => r matches AuctionCompletion::NoOpening { remainders } && (remainders.orders@, remainders.stop)
                == stage_all(sort_by_arrival(orders@), Map::empty(), None),
            Some(clearing) => match tally(planned_trades(orders@, clearing.price)) {
                Err(e) => r == AuctionCompletion::Abandoned { error: e },
                Ok((volume, fills)) => r matches AuctionCompletion::Opened { clearing: c, matched, remainders } && c
                    == clearing && matched.trades@ == planned_trades(orders@, clearing.price) && matched.matched_volume
                    == volume && matched.filled_by_order@ == fills && (remainders.orders@, remainders.stop)
                    == stage_all(sort_by_arrival(orders@), fills, Some(clearing.price)) && matched.matched_volume
                    == clearing.volume,
            },
        },
{
    match clearing_result(orders, previous_close, exchange, price_tick) {
        None => {
            let no_fills: BTreeMap<u64, u32> = BTreeMap::new();
            assert(no_fills@ =~= Map::<u64, u32>::empty());
            AuctionCompletion::NoOpening { remainders: auction_remainders(orders, &no_fills, None) }
        },
        Some(clearing) => match {
            proof {
                law_matched_volume_is_the_clearing_volume(orders@, previous_close, exchange, price_tick);
            }
            match_auction(orders, clearing.price)
        } {
            Err(error) => AuctionCompletion::Abandoned { error },
            Ok(matched) => {
                let remainders = auction_remainders(orders, &matched.filled_by_order, Some(clearing.price));
                AuctionCompletion::Opened { clearing, matched, remainders }
            },
        },
    }
}

/// Completes the opening call auction of one stock from its queue: the queue
/// is taken whole (it is left empty) and decided by [`complete_auction`];
/// when the auction opens, the stock's last price becomes the opening price.
/// Settling the trades on the accounts and resting the remainders in the
/// continuous book are the host's, from the returned plan.
pub fn complete_stock_auction(
    queue: &mut Vec<AuctionOrderSnap>,
    last_price: &mut Money,
    previous_close: Money,
    exchange: StockExchange,
    price_tick: Money,
) -> (r: AuctionCompletion)
    ensures
        final(queue)@.len() == 0,
        match r {
            AuctionCompletion::Opened { clearing, matched, .. } => *final(last_price) == clearing.price
                && spec_clearing_result(old(queue)@, previous_close, exchange, price_tick) == Some(clearing)
                && matched.matched_volume == clearing.volume,
            _ => *final(last_price) == *old(last_price),
        },
        match spec_clearing_result(old(queue)@, previous_close, exchange, price_tick) {
            None => r is NoOpening,
            Some(clearing) => match tally(planned_trades(old(queue)@, clearing.price)) {
                Err(e) => r == AuctionCompletion::Abandoned { error: e },
                Ok(_) => r is Opened,
            },
        },
{
    let mut orders: Vec<AuctionOrderSnap> = Vec::new();
    std::mem::swap(&mut orders, queue);
    let r = complete_auction(&orders, previous_close, exchange, price_tick);
    match &r {
        AuctionCompletion::Opened { clearing, .. } => {
            *last_price = clearing.price;
        },
        _ => {},
    }
    r
}

// ---- no order fills beyond its quantity -------------------------------------

/// The total quantity of the orders with `id`.
pub open spec fn qty_with_id(q: Seq<AuctionOrderSnap>, id: u64) -> int
    decreases q.len(),
{
    if q.len() == 0 {
        0
    } else {
        (if q[0].order_id == id {
            q[0].qty as int
        } else {
            0
        }) + qty_with_id(q.drop_first(), id)
    }
}

/// What one trade fills of order `id`, on either side.
pub open spec fn fill_of_trade(t: PlannedTrade, id: u64) -> int {
    (if t.buy_order_id.0 == id {
        t.qty as int
    } else {
        0
    }) + (if t.sell_order_id.0 == id {
        t.qty as int
    } else {
        0
    })
}

/// What a sequence of trades fills of order `id`.
pub open spec fn trade_fill(trades: Seq<PlannedTrade>, id: u64) -> int
    decreases trades.len(),
{
    if trades.len() == 0 {
        0
    } else {
        fill_of_trade(trades[0], id) + trade_fill(trades.drop_first(), id)
    }
}

proof fn lemma_trade_fill_push(trades: Seq<PlannedTrade>, t: PlannedTrade, id: u64)
    ensures
        trade_fill(trades.push(t), id) == trade_fill(trades, id) + fill_of_trade(t, id),
    decreases trades.len(),
{
    if trades.len() > 0 {
        let p = trades.push(t);
        assert(p.drop_first() =~= trades.drop_first().push(t));
        assert(p[0] == trades[0]);
        lemma_trade_fill_push(trades.drop_first(), t, id);
        assert(trade_fill(p, id) == fill_of_trade(p[0], id) + trade_fill(p.drop_first(), id));
        assert(trade_fill(trades, id) == fill_of_trade(trades[0], id) + trade_fill(trades.drop_first(), id));
    } else {
        let p = trades.push(t);
        assert(p.drop_first() =~= Seq::<PlannedTrade>::empty());
        assert(p[0] == t);
        assert(trade_fill(p.drop_first(), id) == 0);
        assert(trade_fill(p, id) == fill_of_trade(t, id));
        assert(trade_fill(trades, id) == 0);
    }
}

proof fn lemma_qty_with_id_push(q: Seq<AuctionOrderSnap>, x: AuctionOrderSnap, id: u64)
    ensures
        qty_with_id(q.push(x), id) == qty_with_id(q, id) + (if x.order_id == id {
            x.qty as int
        } else {
            0
        }),
    decreases q.len(),
{
    let p = q.push(x);
    if q.len() > 0 {
        assert(p.drop_first() =~= q.drop_first().push(x));
        assert(p[0] == q[0]);
        lemma_qty_with_id_push(q.drop_first(), x, id);
        assert(qty_with_id(p, id) == (if p[0].order_id == id {
            p[0].qty as int
        } else {
            0
        }) + qty_with_id(p.drop_first(), id));
    } else {
        assert(p.drop_first() =~= Seq::<AuctionOrderSnap>::empty());
        assert(p[0] == x);
        assert(qty_with_id(p.drop_first(), id) == 0);
        assert(qty_with_id(q, id) == 0);
    }
}

proof fn lemma_tally_fills(trades: Seq<PlannedTrade>, id: u64)
    ensures
        tally(trades) matches Ok((volume, fills)) ==> filled_of(fills, id) == trade_fill(trades, id),
    decreases trades.len(),
{
    if trades.len() > 0 {
        lemma_tally_fills(trades.drop_last(), id);
        lemma_trade_fill_push(trades.drop_last(), trades.last(), id);
        assert(trades.drop_last().push(trades.last()) =~= trades);
    }
}

proof fn lemma_stable_insert_qty(s: Seq<AuctionOrderSnap>, x: AuctionOrderSnap, buy: bool, id: u64)
    ensures
        qty_with_id(stable_insert(s, x, buy), id) == qty_with_id(s, id) + (if x.order_id == id {
            x.qty as int
        } else {
            0
        }),
    decreases s.len(),
{
    if s.len() == 0 {
        lemma_qty_with_id_push(s, x, id);
        assert(stable_insert(s, x, buy) =~= s.push(x));
    } else if key_le_of(s.last(), x, buy) {
        lemma_qty_with_id_push(s, x, id);
        assert(stable_insert(s, x, buy) == s.push(x));
    } else {
        assert(stable_insert(s, x, buy) == stable_insert(s.drop_last(), x, buy).push(s.last()));
        lemma_stable_insert_qty(s.drop_last(), x, buy, id);
        lemma_qty_with_id_push(stable_insert(s.drop_last(), x, buy), s.last(), id);
        lemma_qty_with_id_push(s.drop_last(), s.last(), id);
        assert(s.drop_last().push(s.last()) =~= s);
    }
}

proof fn lemma_priority_sorted_qty(s: Seq<AuctionOrderSnap>, buy: bool, id: u64)
    ensures
        qty_with_id(priority_sorted(s, buy), id) == qty_with_id(s, id),
    decreases s.len(),
{
    if s.len() > 0 {
        lemma_priority_sorted_qty(s.drop_last(), buy, id);
        lemma_stable_insert_qty(priority_sorted(s.drop_last(), buy), s.last(), buy, id);
        lemma_qty_with_id_push(s.drop_last(), s.last(), id);
        assert(s.drop_last().push(s.last()) =~= s);
    }
}

proof fn lemma_eligible_qty(orders: Seq<AuctionOrderSnap>, price: Money, id: u64)
    ensures
        qty_with_id(eligible(orders, price, true), id) + qty_with_id(eligible(orders, price, false), id)
            <= qty_with_id(orders, id),
        qty_with_id(eligible(orders, price, true), id) >= 0,
        qty_with_id(eligible(orders, price, false), id) >= 0,
    decreases orders.len(),
{
    if orders.len() > 0 {
        let front = orders.drop_last();
        let o = orders.last();
        lemma_eligible_qty(front, price, id);
        lemma_qty_with_id_push(front, o, id);
        assert(front.push(o) =~= orders);
        lemma_qty_with_id_push(eligible(front, price, true), o, id);
        lemma_qty_with_id_push(eligible(front, price, false), o, id);
    }
}

proof fn lemma_qty_with_id_nonneg(q: Seq<AuctionOrderSnap>, id: u64)
    ensures
        qty_with_id(q, id) >= 0,
    decreases q.len(),
{
    if q.len() > 0 {
        lemma_qty_with_id_nonneg(q.drop_first(), id);
    }
}

proof fn lemma_after_head_qty(q: Seq<AuctionOrderSnap>, qty: u32, id: u64)
    requires
        q.len() > 0,
        qty <= q[0].qty,
    ensures
        qty_with_id(after_head(q, qty), id) == qty_with_id(q, id) - (if q[0].order_id == id {
            qty as int
        } else {
            0
        }),
{
    if q[0].qty - qty != 0 {
        let u = q.update(0, reduced(q[0], qty));
        assert(u.drop_first() =~= q.drop_first());
    }
}

proof fn lemma_match_fill_bounded(buys: Seq<AuctionOrderSnap>, sells: Seq<AuctionOrderSnap>, id: u64)
    ensures
        trade_fill(match_queues(buys, sells), id) <= qty_with_id(buys, id) + qty_with_id(sells, id),
    decreases buys.len() + sells.len(),
{
    lemma_qty_with_id_nonneg(buys, id);
    lemma_qty_with_id_nonneg(sells, id);
    if buys.len() > 0 && sells.len() > 0 {
        let t = head_trade(buys[0], sells[0]);
        let b2 = after_head(buys, t.qty);
        let s2 = after_head(sells, t.qty);
        lemma_match_fill_bounded(b2, s2, id);
        lemma_after_head_qty(buys, t.qty, id);
        lemma_after_head_qty(sells, t.qty, id);
        let all = match_queues(buys, sells);
        assert(all == seq![t] + match_queues(b2, s2));
        assert(all.drop_first() =~= match_queues(b2, s2));
        assert(all[0] == t);
    }
}

proof fn lemma_unique_id_qty(orders: Seq<AuctionOrderSnap>, k: int)
    requires
        0 <= k < orders.len(),
        forall|i: int, j: int|
            0 <= i < j < orders.len() ==> (#[trigger] orders[i]).order_id != (#[trigger] orders[j]).order_id,
    ensures
        qty_with_id(orders, orders[k].order_id) == orders[k].qty,
    decreases orders.len(),
{
    let id = orders[k].order_id;
    let rest = orders.drop_first();
    assert forall|i: int, j: int| 0 <= i < j < rest.len() implies (#[trigger] rest[i]).order_id != (
    #[trigger] rest[j]).order_id by {
        assert(rest[i] == orders[i + 1]);
        assert(rest[j] == orders[j + 1]);
    }
    if k == 0 {
        assert forall|m: int| 0 <= m < rest.len() implies (#[trigger] rest[m]).order_id != id by {
            assert(rest[m] == orders[m + 1]);
        }
        lemma_no_id_qty(rest, id);
    } else {
        assert(rest[k - 1] == orders[k]);
        lemma_unique_id_qty(rest, k - 1);
        assert(orders[0].order_id != orders[k].order_id);
    }
}

proof fn lemma_no_id_qty(q: Seq<AuctionOrderSnap>, id: u64)
    requires
        forall|m: int| 0 <= m < q.len() ==> (#[trigger] q[m]).order_id != id,
    ensures
        qty_with_id(q, id) == 0,
    decreases q.len(),
{
    if q.len() > 0 {
        let rest = q.drop_first();
        assert forall|m: int| 0 <= m < rest.len() implies (#[trigger] rest[m]).order_id != id by {
            assert(rest[m] == q[m + 1]);
        }
        lemma_no_id_qty(rest, id);
    }
}

/// Matching at the opening price never fills an order beyond its quantity
/// (orders are told apart by their arrival ids).
pub proof fn law_opening_fills_no_order_beyond_its_quantity(orders: Seq<AuctionOrderSnap>, price: Money, k: int)
    requires
        0 <= k < orders.len(),
        forall|i: int, j: int|
            0 <= i < j < orders.len() ==> (#[trigger] orders[i]).order_id != (#[trigger] orders[j]).order_id,
    ensures
        tally(planned_trades(orders, price)) matches Ok((volume, fills)) ==> filled_of(fills, orders[k].order_id)
            <= orders[k].qty,
{
    let id = orders[k].order_id;
    let buys = priority_sorted(eligible(orders, price, true), true);
    let sells = priority_sorted(eligible(orders, price, false), false);
    lemma_tally_fills(planned_trades(orders, price), id);
    lemma_match_fill_bounded(buys, sells, id);
    lemma_priority_sorted_qty(eligible(orders, price, true), true, id);
    lemma_priority_sorted_qty(eligible(orders, price, false), false, id);
    lemma_eligible_qty(orders, price, id);
    lemma_unique_id_qty(orders, k);
}

proof fn lemma_sort_by_arrival_members(s: Seq<AuctionOrderSnap>)
    ensures
        forall|k: int| 0 <= k < sort_by_arrival(s).len() ==> s.contains(#[trigger] sort_by_arrival(s)[k]),
    decreases s.len(),
{
    if s.len() > 0 {
        let front = s.drop_last();
        lemma_sort_by_arrival_members(front);
        let t = sort_by_arrival(front);
        let r = sort_by_arrival(s);
        let p = super::remainders::arrival_pos(t, s.last());
        lemma_arrival_pos_bounds(t, s.last());
        assert(r == t.insert(p, s.last()));
        assert forall|k: int| 0 <= k < r.len() implies s.contains(#[trigger] r[k]) by {
            {
                if k < p {
                    assert(r[k] == t[k]);
                    let m = choose|m: int| 0 <= m < front.len() && front[m] == t[k];
                    assert(s[m] == t[k]);
                } else if k == p {
                    assert(r[k] == s[s.len() - 1]);
                } else {
                    assert(r[k] == t[k - 1]);
                    let m = choose|m: int| 0 <= m < front.len() && front[m] == t[k - 1];
                    assert(s[m] == t[k - 1]);
                }
            }
        }
    }
}

proof fn lemma_arrival_pos_bounds(t: Seq<AuctionOrderSnap>, x: AuctionOrderSnap)
    ensures
        0 <= super::remainders::arrival_pos(t, x) <= t.len(),
    decreases t.len(),
{
    if t.len() > 0 {
        lemma_arrival_pos_bounds(t.drop_last(), x);
    }
}

proof fn lemma_stage_all_no_overfill(s: Seq<AuctionOrderSnap>, fills: Map<u64, u32>, price: Option<Money>)
    requires
        forall|k: int| 0 <= k < s.len() ==> filled_of(fills, (#[trigger] s[k]).order_id) <= s[k].qty,
    ensures
        !(stage_all(s, fills, price).1 matches Some((_, RemainderError::FillExceedsQuantity { .. }))),
    decreases s.len(),
{
    if s.len() > 0 {
        let front = s.drop_last();
        assert forall|k: int| 0 <= k < front.len() implies filled_of(fills, (#[trigger] front[k]).order_id)
            <= front[k].qty by {
            assert(front[k] == s[k]);
        }
        lemma_stage_all_no_overfill(front, fills, price);
        assert(filled_of(fills, s[s.len() - 1].order_id) <= s[s.len() - 1].qty);
    }
}

/// After an opening, no order moves on to the continuous book as overfilled:
/// staging the remainders never stops on a fill beyond an order's quantity
/// (orders are told apart by their arrival ids).
pub proof fn law_opening_remainders_are_never_overfilled(orders: Seq<AuctionOrderSnap>, price: Money)
    requires
        forall|i: int, j: int|
            0 <= i < j < orders.len() ==> (#[trigger] orders[i]).order_id != (#[trigger] orders[j]).order_id,
    ensures
        tally(planned_trades(orders, price)) matches Ok((volume, fills)) ==> !(stage_all(
            sort_by_arrival(orders),
            fills,
            Some(price),
        ).1 matches Some((_, RemainderError::FillExceedsQuantity { .. }))),
{
    if tally(planned_trades(orders, price)) is Ok {
        let fills = tally(planned_trades(orders, price))->Ok_0.1;
        let sorted = sort_by_arrival(orders);
        lemma_sort_by_arrival_members(orders);
        assert forall|k: int| 0 <= k < sorted.len() implies filled_of(fills, (#[trigger] sorted[k]).order_id)
            <= sorted[k].qty by {
            let m = choose|m: int| 0 <= m < orders.len() && orders[m] == sorted[k];
            law_opening_fills_no_order_beyond_its_quantity(orders, price, m);
        }
        lemma_stage_all_no_overfill(sorted, fills, Some(price));
    }
}


// ---- the matched volume is the clearing volume ------------------------------

/// The total quantity of a queue.
pub open spec fn queue_qty(q: Seq<AuctionOrderSnap>) -> int
    decreases q.len(),
{
    if q.len() == 0 {
        0
    } else {
        queue_qty(q.drop_last()) + q.last().qty
    }
}

proof fn lemma_queue_qty_nonneg(q: Seq<AuctionOrderSnap>)
    ensures
        queue_qty(q) >= 0,
    decreases q.len(),
{
    if q.len() > 0 {
        lemma_queue_qty_nonneg(q.drop_last());
    }
}

proof fn lemma_queue_qty_first(q: Seq<AuctionOrderSnap>)
    requires
        q.len() > 0,
    ensures
        queue_qty(q) == q[0].qty + queue_qty(q.drop_first()),
    decreases q.len(),
{
    if q.len() == 1 {
        assert(q.drop_last() =~= Seq::<AuctionOrderSnap>::empty());
        assert(q.drop_first() =~= Seq::<AuctionOrderSnap>::empty());
    } else {
        lemma_queue_qty_first(q.drop_last());
        assert(q.drop_last()[0] == q[0]);
        assert(q.drop_first().drop_last() =~= q.drop_last().drop_first());
        assert(q.drop_first().last() == q.last());
    }
}

proof fn lemma_queue_qty_after_head(q: Seq<AuctionOrderSnap>, qty: u32)
    requires
        q.len() > 0,
        qty <= q[0].qty,
    ensures
        queue_qty(after_head(q, qty)) == queue_qty(q) - qty,
        after_head(q, qty).len() <= q.len(),
        qty == q[0].qty ==> after_head(q, qty).len() < q.len(),
{
    lemma_queue_qty_first(q);
    if q[0].qty - qty != 0 {
        let u = q.update(0, reduced(q[0], qty));
        lemma_queue_qty_first(u);
        assert(u.drop_first() =~= q.drop_first());
    }
}

proof fn lemma_queue_qty_stable_insert(s: Seq<AuctionOrderSnap>, x: AuctionOrderSnap, buy: bool)
    ensures
        queue_qty(stable_insert(s, x, buy)) == queue_qty(s) + x.qty,
    decreases s.len(),
{
    if s.len() == 0 {
        assert(seq![x].drop_last() =~= Seq::<AuctionOrderSnap>::empty());
        assert(seq![x].last() == x);
        assert(queue_qty(seq![x]) == queue_qty(seq![x].drop_last()) + seq![x].last().qty);
    } else if (if buy {
        buy_key_le(s.last(), x)
    } else {
        sell_key_le(s.last(), x)
    }) {
        assert(s.push(x).drop_last() =~= s);
        assert(s.push(x).last() == x);
    } else {
        lemma_queue_qty_stable_insert(s.drop_last(), x, buy);
        let t = stable_insert(s.drop_last(), x, buy);
        assert(t.push(s.last()).drop_last() =~= t);
        assert(t.push(s.last()).last() == s.last());
        assert(queue_qty(s) == queue_qty(s.drop_last()) + s.last().qty);
    }
}

proof fn lemma_queue_qty_sorted(s: Seq<AuctionOrderSnap>, buy: bool)
    ensures
        queue_qty(priority_sorted(s, buy)) == queue_qty(s),
    decreases s.len(),
{
    if s.len() > 0 {
        lemma_queue_qty_sorted(s.drop_last(), buy);
        lemma_queue_qty_stable_insert(priority_sorted(s.drop_last(), buy), s.last(), buy);
    }
}

proof fn lemma_queue_qty_eligible(orders: Seq<AuctionOrderSnap>, price: Money)
    ensures
        queue_qty(eligible(orders, price, true)) == interest_qty(orders, price.cents as int, Interest::BuyAtOrAbove),
        queue_qty(eligible(orders, price, false)) == interest_qty(orders, price.cents as int, Interest::SellAtOrBelow),
    decreases orders.len(),
{
    if orders.len() > 0 {
        lemma_queue_qty_eligible(orders.drop_last(), price);
        let b = eligible(orders.drop_last(), price, true);
        let s = eligible(orders.drop_last(), price, false);
        assert(b.push(orders.last()).drop_last() =~= b);
        assert(s.push(orders.last()).drop_last() =~= s);
    }
}

proof fn lemma_trade_volume_prepend(t: PlannedTrade, rest: Seq<PlannedTrade>)
    ensures
        trade_volume(seq![t] + rest) == t.qty + trade_volume(rest),
    decreases rest.len(),
{
    if rest.len() == 0 {
        assert(seq![t] + rest =~= seq![t]);
        assert(seq![t].drop_last() =~= Seq::<PlannedTrade>::empty());
        assert(seq![t].last() == t);
        assert(trade_volume(seq![t]) == trade_volume(seq![t].drop_last()) + seq![t].last().qty);
    } else {
        lemma_trade_volume_prepend(t, rest.drop_last());
        assert((seq![t] + rest).drop_last() =~= seq![t] + rest.drop_last());
        assert((seq![t] + rest).last() == rest.last());
    }
}

/// Matching two queues head to head trades the smaller of their totals.
proof fn lemma_match_volume(buys: Seq<AuctionOrderSnap>, sells: Seq<AuctionOrderSnap>)
    ensures
        trade_volume(match_queues(buys, sells)) == min_int(queue_qty(buys), queue_qty(sells)),
    decreases buys.len() + sells.len(),
{
    lemma_queue_qty_nonneg(buys);
    lemma_queue_qty_nonneg(sells);
    if buys.len() == 0 || sells.len() == 0 {
        assert(trade_volume(Seq::<PlannedTrade>::empty()) == 0);
    } else {
        let t = head_trade(buys[0], sells[0]);
        lemma_queue_qty_after_head(buys, t.qty);
        lemma_queue_qty_after_head(sells, t.qty);
        lemma_match_volume(after_head(buys, t.qty), after_head(sells, t.qty));
        lemma_trade_volume_prepend(t, match_queues(after_head(buys, t.qty), after_head(sells, t.qty)));
    }
}

/// The matched volume of an opening is its clearing volume: the trades at
/// the clearing price add up to the clearing volume, so a successful tally
/// reports exactly that volume.
pub proof fn law_matched_volume_is_the_clearing_volume(
    orders: Seq<AuctionOrderSnap>,
    previous_close: Money,
    exchange: StockExchange,
    price_tick: Money,
)
    requires
        spec_clearing_result(orders, previous_close, exchange, price_tick) is Some,
    ensures
        ({
            let clearing = spec_clearing_result(orders, previous_close, exchange, price_tick)->Some_0;
            &&& trade_volume(planned_trades(orders, clearing.price)) == clearing.volume
            &&& tally(planned_trades(orders, clearing.price)) matches Ok((volume, fills)) ==> volume
                == clearing.volume
        }),
{
    let clearing = spec_clearing_result(orders, previous_close, exchange, price_tick)->Some_0;
    match exchange {
        StockExchange::Shenzhen => {
            lemma_shenzhen_price_exists(orders, previous_close.cents as int);
        },
        _ => {},
    }
    assert(spec_candidate_stats(orders, clearing.price) matches Some(s) && s.result == clearing);
    let p = clearing.price;
    lemma_queue_qty_eligible(orders, p);
    lemma_queue_qty_sorted(eligible(orders, p, true), true);
    lemma_queue_qty_sorted(eligible(orders, p, false), false);
    lemma_match_volume(priority_sorted(eligible(orders, p, true), true), priority_sorted(eligible(orders, p, false), false));
    law_matched_volume_is_the_sum_of_trades(planned_trades(orders, p));
    lemma_queue_qty_nonneg(eligible(orders, p, true));
    lemma_queue_qty_nonneg(eligible(orders, p, false));
    let st = spec_candidate_stats(orders, p)->Some_0;
    assert(st.result.volume == min_int(
        interest_qty(orders, p.cents as int, Interest::BuyAtOrAbove),
        interest_qty(orders, p.cents as int, Interest::SellAtOrBelow),
    ));
    assert(trade_volume(planned_trades(orders, p)) == min_int(
        interest_qty(orders, p.cents as int, Interest::BuyAtOrAbove),
        interest_qty(orders, p.cents as int, Interest::SellAtOrBelow),
    ));
}

} // verus!
