//! After the call auction clears, the unfilled part of each auction order
//! moves to the continuous book in the order the orders were accepted. This
//! module decides what moves: it sorts the queue by acceptance, computes each
//! remainder with its filled value, and stops at the first order whose fills
//! are inconsistent, so that nothing is swallowed silently.
use std::collections::BTreeMap;

use vstd::prelude::*;

use super::auction::AuctionOrderSnap;
use crate::ids::{AccountId, Money, OrderId, Side};

verus! {

broadcast use {vstd::laws_cmp::group_laws_cmp, vstd::std_specs::btree::group_btree_axioms};

/// An order to rest in the continuous book with its auction history.
#[derive(Clone, Copy, Debug, PartialEq, Eq, Structural)]
pub struct RemainderOrder {
    pub id: OrderId,
    pub side: Side,
    pub price: Money,
    pub qty: u32,
    pub original_qty: u32,
    pub filled_qty: u32,
    pub filled_value: Money,
    pub owner: AccountId,
    pub seq: u64,
}

/// Why the remainders of an auction cannot all be staged.
#[derive(Clone, Copy, Debug, PartialEq, Eq, Structural)]
pub enum RemainderError {
    /// More was filled than the order asked for.
    FillExceedsQuantity { order_id: u64, filled_qty: u32, qty: u32 },
    /// An order has fills but the auction has no clearing price.
    FillsWithoutClearingPrice { order_id: u64 },
    /// The filled value is beyond the range of money.
    FilledValueOverflow { order_id: u64 },
}

/// The remainders to stage in acceptance order, and the failure that stopped
/// the staging, if any, with the owner of the failing order.
#[derive(Clone, Debug, PartialEq, Eq)]
pub struct RemainderPlan {
    pub orders: Vec<RemainderOrder>,
    pub stop: Option<(AccountId, RemainderError)>,
}

/// Where `x` goes in a queue sorted by acceptance: after every order accepted no later.
pub open spec fn arrival_pos(s: Seq<AuctionOrderSnap>, x: AuctionOrderSnap) -> int
    decreases s.len(),
{
    if s.len() == 0 {
        0
    } else if s.last().order_id <= x.order_id {
        s.len() as int
    } else {
        arrival_pos(s.drop_last(), x)
    }
}

/// `s` in acceptance order; orders accepted together keep their order.
pub open spec fn sort_by_arrival(s: Seq<AuctionOrderSnap>) -> Seq<AuctionOrderSnap>
    decreases s.len(),
{
    if s.len() == 0 {
        s
    } else {
        let t = sort_by_arrival(s.drop_last());
        t.insert(arrival_pos(t, s.last()), s.last())
    }
}

pub open spec fn arrival_sorted(s: Seq<AuctionOrderSnap>) -> bool {
    forall|i: int, j: int| 0 <= i < j < s.len() ==> (#[trigger] s[i]).order_id <= (#[trigger] s[j]).order_id
}

/// The quantity already filled for an order.
pub open spec fn filled_of(fills: Map<u64, u32>, order_id: u64) -> u32 {
    if fills.contains_key(order_id) {
        fills[order_id]
    } else {
        0
    }
}

/// One step of staging: skip a fully filled order, stage a remainder, or stop.
pub open spec fn stage_step(o: AuctionOrderSnap, fills: Map<u64, u32>, price: Option<Money>) -> Option<
    Result<RemainderOrder, RemainderError>,
> {
    let filled = filled_of(fills, o.order_id);
    if filled > o.qty {
        Some(Err(RemainderError::FillExceedsQuantity { order_id: o.order_id, filled_qty: filled, qty: o.qty }))
    } else if filled == o.qty {
        None
    } else if filled != 0 && price is None {
        Some(Err(RemainderError::FillsWithoutClearingPrice { order_id: o.order_id }))
    } else if filled != 0 && (price->Some_0.cents * filled < i64::MIN || price->Some_0.cents * filled > i64::MAX) {
        Some(Err(RemainderError::FilledValueOverflow { order_id: o.order_id }))
    } else {
        Some(
            Ok(
                RemainderOrder {
                    id: OrderId(o.order_id),
                    side: o.side,
                    price: o.limit,
                    qty: (o.qty - filled) as u32,
                    original_qty: o.qty,
                    filled_qty: filled,
                    filled_value: if filled == 0 {
                        Money { cents: 0 }
                    } else {
                        Money { cents: (price->Some_0.cents * filled) as i64 }
                    },
                    owner: o.owner,
                    seq: o.order_id,
                },
            ),
        )
    }
}

/// Staging `s` in order until the first failure.
pub open spec fn stage_all(s: Seq<AuctionOrderSnap>, fills: Map<u64, u32>, price: Option<Money>) -> (
    Seq<RemainderOrder>,
    Option<(AccountId, RemainderError)>,
)
    decreases s.len(),
{
    if s.len() == 0 {
        (Seq::empty(), None)
    } else {
        let (staged, stop) = stage_all(s.drop_last(), fills, price);
        if stop is Some {
            (staged, stop)
        } else {
            match stage_step(s.last(), fills, price) {
                None => (staged, None),
                Some(Ok(r)) => (staged.push(r), None),
                Some(Err(e)) => (staged, Some((s.last().owner, e))),
            }
        }
    }
}

proof fn lemma_arrival_pos(s: Seq<AuctionOrderSnap>, x: AuctionOrderSnap)
    requires
        arrival_sorted(s),
    ensures
        0 <= arrival_pos(s, x) <= s.len(),
        forall|i: int| 0 <= i < arrival_pos(s, x) ==> (#[trigger] s[i]).order_id <= x.order_id,
        forall|i: int| arrival_pos(s, x) <= i < s.len() ==> (#[trigger] s[i]).order_id > x.order_id,
    decreases s.len(),
{
    if s.len() > 0 {
        let n = s.len() - 1;
        if s[n].order_id <= x.order_id {
            assert forall|i: int| 0 <= i < s.len() implies (#[trigger] s[i]).order_id <= x.order_id by {
                if i < n {
                    assert(s[i].order_id <= s[n].order_id);
                }
            }
        } else {
            let t = s.drop_last();
            assert forall|i: int, j: int| 0 <= i < j < t.len() implies (#[trigger] t[i]).order_id <= (
            #[trigger] t[j]).order_id by {
                assert(t[i] == s[i] && t[j] == s[j]);
            }
            lemma_arrival_pos(t, x);
            let p = arrival_pos(t, x);
            assert forall|i: int| 0 <= i < p implies (#[trigger] s[i]).order_id <= x.order_id by {
                assert(t[i] == s[i]);
            }
            assert forall|i: int| p <= i < s.len() implies (#[trigger] s[i]).order_id > x.order_id by {
                if i < n {
                    assert(t[i] == s[i]);
                }
            }
        }
    }
}

/// Sorting by acceptance gives a sorted queue of the same length.
pub proof fn lemma_sort_by_arrival(s: Seq<AuctionOrderSnap>)
    ensures
        arrival_sorted(sort_by_arrival(s)),
        sort_by_arrival(s).len() == s.len(),
    decreases s.len(),
{
    if s.len() > 0 {
        let t = sort_by_arrival(s.drop_last());
        lemma_sort_by_arrival(s.drop_last());
        lemma_arrival_pos(t, s.last());
        let p = arrival_pos(t, s.last());
        let r = t.insert(p, s.last());
        assert forall|i: int, j: int| 0 <= i < j < r.len() implies (#[trigger] r[i]).order_id <= (
        #[trigger] r[j]).order_id by {
            if j < p {
            } else if j == p {
            } else if i < p {
                assert(t[j - 1].order_id > s.last().order_id);
            } else if i == p {
                assert(t[j - 1].order_id > s.last().order_id);
            } else {
                assert(t[i - 1].order_id <= t[j - 1].order_id);
            }
        }
    }
}

fn insert_by_arrival(v: &mut Vec<AuctionOrderSnap>, x: AuctionOrderSnap)
    ensures
        final(v)@ == old(v)@.insert(arrival_pos(old(v)@, x), x),
{
    let mut p = v.len();
    assert(v@.take(p as int) =~= v@);
    while p > 0 && v[p - 1].order_id > x.order_id
        invariant
            0 <= p <= v@.len(),
            v@ == old(v)@,
            arrival_pos(v@, x) == arrival_pos(v@.take(p as int), x),
        decreases p,
    {
        proof {
            assert(v@.take(p as int).drop_last() =~= v@.take(p - 1));
        }
        p -= 1;
    }
    proof {
        if p > 0 {
            assert(v@.take(p as int).last() == v@[p - 1]);
        }
        assert(v@.take(0) =~= Seq::<AuctionOrderSnap>::empty());
    }
    v.insert(p, x);
}

/// The remainders of an auction queue to move to the continuous book, in
/// acceptance order, up to the first order whose fills are inconsistent.
pub fn auction_remainders(
    orders: &Vec<AuctionOrderSnap>,
    filled_by_order: &BTreeMap<u64, u32>,
    clearing_price: Option<Money>,
) -> (r: RemainderPlan)
    ensures
        (r.orders@, r.stop) == stage_all(sort_by_arrival(orders@), filled_by_order@, clearing_price),
{
    let mut ordered: Vec<AuctionOrderSnap> = Vec::new();
    let mut i: usize = 0;
    while i < orders.len()
        invariant
            0 <= i <= orders@.len(),
            ordered@ == sort_by_arrival(orders@.take(i as int)),
        decreases orders@.len() - i,
    {
        proof {
            assert(orders@.take(i + 1).drop_last() =~= orders@.take(i as int));
            assert(orders@.take(i + 1).last() == orders@[i as int]);
        }
        insert_by_arrival(&mut ordered, orders[i]);
        i += 1;
    }
    assert(orders@.take(orders@.len() as int) =~= orders@);
    let ghost fills = filled_by_order@;
    let mut staged: Vec<RemainderOrder> = Vec::new();
    let mut k: usize = 0;
    while k < ordered.len()
        invariant
            0 <= k <= ordered@.len(),
            ordered@ == sort_by_arrival(orders@),
            fills == filled_by_order@,
            stage_all(ordered@.take(k as int), fills, clearing_price) == (staged@, None::<(AccountId, RemainderError)>),
        decreases ordered@.len() - k,
    {
        let o = ordered[k];
        proof {
            assert(ordered@.take(k + 1).drop_last() =~= ordered@.take(k as int));
            assert(ordered@.take(k + 1).last() == o);
        }
        let filled: u32 = match filled_by_order.get(&o.order_id) {
            Some(q) => *q,
            None => 0,
        };
        assert(filled == filled_of(fills, o.order_id));
        let step: Option<(AccountId, RemainderError)> = if filled > o.qty {
            Some((o.owner, RemainderError::FillExceedsQuantity { order_id: o.order_id, filled_qty: filled, qty: o.qty }))
        } else if filled == o.qty {
            None
        } else {
            let value = if filled == 0 {
                Ok(Money { cents: 0 })
            } else {
                match clearing_price {
                    None => Err(RemainderError::FillsWithoutClearingPrice { order_id: o.order_id }),
                    Some(price) => {
                        proof {
                            assert(-0x1_0000_0000_0000_0000_0000_0000 <= price.cents as i128 * filled as i128
                                <= 0x1_0000_0000_0000_0000_0000_0000) by (nonlinear_arith)
                                requires
                                    i64::MIN <= price.cents <= i64::MAX,
                                    0 <= filled <= u32::MAX,
                            ;
                        }
                        let gross = price.cents as i128 * filled as i128;
                        if gross < i64::MIN as i128 || gross > i64::MAX as i128 {
                            Err(RemainderError::FilledValueOverflow { order_id: o.order_id })
                        } else {
                            Ok(Money { cents: gross as i64 })
                        }
                    },
                }
            };
            match value {
                Err(e) => Some((o.owner, e)),
                Ok(filled_value) => {
                    staged.push(
                        RemainderOrder {
                            id: OrderId(o.order_id),
                            side: o.side,
                            price: o.limit,
                            qty: o.qty - filled,
                            original_qty: o.qty,
                            filled_qty: filled,
                            filled_value,
                            owner: o.owner,
                            seq: o.order_id,
                        },
                    );
                    None
                },
            }
        };
        proof {
            assert(stage_all(ordered@.take(k + 1), fills, clearing_price) == (staged@, step));
        }
        if step.is_some() {
            proof {
                lemma_stage_all_stops(ordered@, fills, clearing_price, k + 1);
            }
            return RemainderPlan { orders: staged, stop: step };
        }
        k += 1;
    }
    assert(ordered@.take(ordered@.len() as int) =~= ordered@);
    RemainderPlan { orders: staged, stop: None }
}

/// Once staging has stopped, later orders change nothing.
proof fn lemma_stage_all_stops(s: Seq<AuctionOrderSnap>, fills: Map<u64, u32>, price: Option<Money>, k: int)
    requires
        0 <= k <= s.len(),
        stage_all(s.take(k), fills, price).1 is Some,
    ensures
        stage_all(s, fills, price) == stage_all(s.take(k), fills, price),
    decreases s.len(),
{
    if k == s.len() {
        assert(s.take(k) =~= s);
    } else {
        assert(s.drop_last().take(k) =~= s.take(k));
        lemma_stage_all_stops(s.drop_last(), fills, price, k);
    }
}

/// `r` is the unfilled part of `o`: same identity, side, limit and owner,
/// with the quantity filled so far and a positive remainder.
pub open spec fn remainder_of(r: RemainderOrder, o: AuctionOrderSnap, fills: Map<u64, u32>) -> bool {
    &&& r.id == OrderId(o.order_id)
    &&& r.seq == o.order_id
    &&& r.side == o.side
    &&& r.price == o.limit
    &&& r.owner == o.owner
    &&& r.original_qty == o.qty
    &&& r.filled_qty == filled_of(fills, o.order_id)
    &&& r.qty > 0
    &&& r.qty + r.filled_qty == o.qty
}

/// Staging never stages a fully filled order and never changes an order's
/// identity, side, limit or owner: every staged remainder is the unfilled
/// part of some order of the queue.
pub proof fn law_remainders_are_unfilled_parts(s: Seq<AuctionOrderSnap>, fills: Map<u64, u32>, price: Option<Money>)
    ensures
        forall|i: int|
            0 <= i < stage_all(s, fills, price).0.len() ==> exists|j: int|
                0 <= j < s.len() && remainder_of(#[trigger] stage_all(s, fills, price).0[i], #[trigger] s[j], fills),
    decreases s.len(),
{
    if s.len() > 0 {
        let t = s.drop_last();
        law_remainders_are_unfilled_parts(t, fills, price);
        let (staged, stop) = stage_all(t, fills, price);
        assert forall|i: int| 0 <= i < stage_all(s, fills, price).0.len() implies exists|j: int|
            0 <= j < s.len() && remainder_of(#[trigger] stage_all(s, fills, price).0[i], #[trigger] s[j], fills) by {
            if i < staged.len() {
                assert(stage_all(s, fills, price).0[i] == staged[i]);
                let j = choose|j: int| 0 <= j < t.len() && remainder_of(stage_all(t, fills, price).0[i], #[trigger] t[j], fills);
                assert(s[j] == t[j]);
            } else {
                assert(s[s.len() - 1] == s.last());
            }
        }
    }
}

} // verus!
