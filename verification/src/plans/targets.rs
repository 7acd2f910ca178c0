//! From a blended score to a target position weight, and from a weight to a
//! whole number of board lots.
use vstd::prelude::*;

use super::candidates::{clamp, div_round_half_even, CandidateError, SignalScore, A_SHARE_BOARD_LOT};
use crate::code_order::{has_code, insert_code, lemma_has_code_take_next, sorted_codes};
use super::book::{has_active_key, PlanBook};
use crate::ids::{AccountId, Money, StockCode};
use crate::rounding::{lemma_round_half_even_within, round_half_even};

verus! {

/// How a target share quantity was rounded to the board lot.
#[derive(Clone, Copy, Debug, PartialEq, Eq, Structural)]
pub enum QuantityRounding {
    Exact,
    BoardLotDown { raw_qty: u32 },
}

/// A target share quantity and how it was rounded.
#[derive(Clone, Copy, Debug, PartialEq, Eq, Structural)]
pub struct TargetShareQuantity {
    pub target_qty: u32,
    pub rounding: QuantityRounding,
}

/// The current weight moved by a quarter of `score * max` and kept within `0..=max`.
pub open spec fn spec_target_weight(current: int, score: int, max: int) -> int {
    clamp(current + round_half_even(score * max, 40_000), 0, max)
}

pub fn target_position_weight_bp(current_weight_bp: u32, score: SignalScore, max_stock_fraction_bp: u32) -> (r:
    Result<u32, CandidateError>)
    ensures
        r == (if current_weight_bp > 10_000 {
            Err(CandidateError::InvalidPositionFraction { value: current_weight_bp })
        } else if max_stock_fraction_bp > 10_000 {
            Err(CandidateError::InvalidPositionFraction { value: max_stock_fraction_bp })
        } else {
            Ok(spec_target_weight(current_weight_bp as int, score@, max_stock_fraction_bp as int) as u32)
        }),
        r is Ok ==> 0 <= r->Ok_0 <= max_stock_fraction_bp,
{
    if current_weight_bp > 10_000 {
        return Err(CandidateError::InvalidPositionFraction { value: current_weight_bp });
    }
    if max_stock_fraction_bp > 10_000 {
        return Err(CandidateError::InvalidPositionFraction { value: max_stock_fraction_bp });
    }
    let s = score.value() as i128;
    let m = max_stock_fraction_bp as i128;
    proof {
        assert(-10_000 * 10_000 <= s * m <= 10_000 * 10_000) by (nonlinear_arith)
            requires
                -10_000 <= s <= 10_000,
                0 <= m <= 10_000,
        ;
        lemma_round_half_even_within(s * m, 40_000, -2_500, 2_500);
    }
    let delta = div_round_half_even(s * m, 40_000);
    let moved = current_weight_bp as i128 + delta;
    let target = if moved < 0 {
        0
    } else if moved > m {
        m
    } else {
        moved
    };
    Ok(target as u32)
}

/// The whole shares that `weight_bp` of `equity` buys at `price`, before lot rounding.
pub open spec fn spec_raw_qty(weight_bp: int, equity: int, price: int) -> int {
    round_half_even(equity * weight_bp, 10_000) / price
}

/// What `target_share_quantity` returns.
pub open spec fn spec_target_share_quantity(weight_bp: u32, equity: Money, price: Money, lot_size: u32) -> Result<
    TargetShareQuantity,
    CandidateError,
> {
    let raw = spec_raw_qty(weight_bp as int, equity.cents as int, price.cents as int);
    if weight_bp > 10_000 {
        Err(CandidateError::InvalidPositionFraction { value: weight_bp })
    } else if equity.cents <= 0 {
        Err(CandidateError::NonPositiveMoney { field: "account equity", cents: equity.cents })
    } else if price.cents <= 0 {
        Err(CandidateError::NonPositiveMoney { field: "stock price", cents: price.cents })
    } else if lot_size != A_SHARE_BOARD_LOT {
        Err(CandidateError::InvalidBoardLotSize { lot_size })
    } else if raw > u32::MAX {
        Err(CandidateError::ArithmeticOverflow { step: "target share quantity" })
    } else {
        Ok(
            TargetShareQuantity {
                target_qty: (raw - raw % 100) as u32,
                rounding: if raw % 100 == 0 {
                    QuantityRounding::Exact
                } else {
                    QuantityRounding::BoardLotDown { raw_qty: raw as u32 }
                },
            },
        )
    }
}

/// Every representable target is given, in whole board lots: for a positive
/// equity and price and a weight of at most 10000 bp, whenever the value the
/// weight asks for (rounded half to even, in cents) buys a share count that
/// fits in `u32`, the target is that count rounded down to the lot of 100,
/// exact exactly when nothing was rounded away.
pub proof fn law_representable_targets_are_whole_lots(weight_bp: u32, equity: Money, price: Money)
    requires
        weight_bp <= 10_000,
        equity.cents > 0,
        price.cents > 0,
        round_half_even(equity.cents * weight_bp, 10_000) / (price.cents as int) <= u32::MAX,
    ensures
        ({
            let q = round_half_even(equity.cents * weight_bp, 10_000) / (price.cents as int);
            spec_target_share_quantity(weight_bp, equity, price, 100) matches Ok(t) && t.target_qty % 100 == 0
                && t.target_qty <= q < t.target_qty + 100 && (t.rounding == QuantityRounding::Exact <==> q % 100
                == 0) && (q % 100 != 0 ==> t.rounding == QuantityRounding::BoardLotDown { raw_qty: q as u32 })
        }),
{
    let n = equity.cents * weight_bp;
    assert(0 * 10_000 <= n <= (equity.cents as int) * 10_000) by (nonlinear_arith)
        requires
            n == equity.cents * weight_bp,
            equity.cents > 0,
            0 <= weight_bp <= 10_000,
    ;
    lemma_round_half_even_within(n, 10_000, 0, equity.cents as int);
    let v = round_half_even(n, 10_000);
    let q = v / (price.cents as int);
    assert(q >= 0) by (nonlinear_arith)
        requires
            v >= 0,
            price.cents > 0,
            q == v / (price.cents as int),
    ;
    assert(spec_raw_qty(weight_bp as int, equity.cents as int, price.cents as int) == q);
    assert((q - q % 100) % 100 == 0);
}

/// A target is refused only for an out-of-range weight, a non-positive
/// equity or price, a lot other than the A-share board lot of 100, or a
/// share count that does not fit in `u32`.
pub proof fn law_targets_are_refused_only_when_unrepresentable(
    weight_bp: u32,
    equity: Money,
    price: Money,
    lot_size: u32,
)
    ensures
        spec_target_share_quantity(weight_bp, equity, price, lot_size) is Err <==> (weight_bp > 10_000
            || equity.cents <= 0 || price.cents <= 0 || lot_size != 100 || round_half_even(
            equity.cents * weight_bp,
            10_000,
        ) / (price.cents as int) > u32::MAX),
{
}

pub fn target_share_quantity(target_weight_bp: u32, equity: Money, price: Money, lot_size: u32) -> (r: Result<
    TargetShareQuantity,
    CandidateError,
>)
    ensures
        r == spec_target_share_quantity(target_weight_bp, equity, price, lot_size),
{
    if target_weight_bp > 10_000 {
        return Err(CandidateError::InvalidPositionFraction { value: target_weight_bp });
    }
    if equity.cents() <= 0 {
        return Err(CandidateError::NonPositiveMoney { field: "account equity", cents: equity.cents() });
    }
    if price.cents() <= 0 {
        return Err(CandidateError::NonPositiveMoney { field: "stock price", cents: price.cents() });
    }
    if lot_size != A_SHARE_BOARD_LOT {
        return Err(CandidateError::InvalidBoardLotSize { lot_size });
    }
    let e = equity.cents() as i128;
    let w = target_weight_bp as i128;
    proof {
        assert(0 <= e * w <= e * 10_000) by (nonlinear_arith)
            requires
                0 < e,
                0 <= w <= 10_000,
        ;
        lemma_round_half_even_within(e * w, 10_000, 0, e as int);
    }
    let target_value = div_round_half_even(e * w, 10_000);
    let raw = (target_value as u64) / (price.cents() as u64);
    if raw > u32::MAX as u64 {
        return Err(CandidateError::ArithmeticOverflow { step: "target share quantity" });
    }
    let raw_qty = raw as u32;
    let target_qty = raw_qty - raw_qty % lot_size;
    let rounding = if target_qty == raw_qty {
        QuantityRounding::Exact
    } else {
        QuantityRounding::BoardLotDown { raw_qty }
    };
    Ok(TargetShareQuantity { target_qty, rounding })
}

/// Adds every code of `codes` to the sorted set `into`.
fn insert_all(into: &mut Vec<StockCode>, codes: &Vec<StockCode>)
    requires
        sorted_codes(old(into)@),
    ensures
        sorted_codes(final(into)@),
        forall|x: Seq<char>| #[trigger] has_code(final(into)@, x) <==> (has_code(old(into)@, x) || has_code(codes@, x)),
{
    let ghost start = into@;
    let mut i: usize = 0;
    while i < codes.len()
        invariant
            0 <= i <= codes@.len(),
            sorted_codes(into@),
            forall|x: Seq<char>| #[trigger] has_code(into@, x) <==> (has_code(start, x) || has_code(codes@.take(i as int), x)),
        decreases codes@.len() - i,
    {
        let ghost prev = into@;
        insert_code(into, &codes[i]);
        proof {
            assert forall|x: Seq<char>| has_code(into@, x) <==> (has_code(start, x) || has_code(
                codes@.take(i + 1),
                x,
            )) by {
                lemma_has_code_take_next(codes@, i as int, x);
                assert(has_code(into@, x) == (has_code(prev, x) || x == codes@[i as int]@));
                assert(has_code(prev, x) == (has_code(start, x) || has_code(codes@.take(i as int), x)));
            }
        }
        i += 1;
    }
    assert(codes@.take(codes@.len() as int) =~= codes@);
}

/// The stocks an account may assess this round: those it holds, those on its
/// watchlist and those discovered this round, each once and in code order.
pub fn eligible_candidates(held: &Vec<StockCode>, watchlist: &Vec<StockCode>, discovered_this_round: &Vec<StockCode>) -> (r:
    Vec<StockCode>)
    ensures
        sorted_codes(r@),
        forall|x: Seq<char>|
            has_code(r@, x) <==> (has_code(held@, x) || has_code(watchlist@, x) || has_code(
                discovered_this_round@,
                x,
            )),
{
    let mut out: Vec<StockCode> = Vec::new();
    let ghost empty = out@;
    insert_all(&mut out, held);
    let ghost first = out@;
    insert_all(&mut out, watchlist);
    let ghost second = out@;
    insert_all(&mut out, discovered_this_round);
    assert forall|x: Seq<char>|
        has_code(out@, x) <==> (has_code(held@, x) || has_code(watchlist@, x) || has_code(
            discovered_this_round@,
            x,
        )) by {
        assert(!has_code(empty, x));
        assert(has_code(first, x) == (has_code(empty, x) || has_code(held@, x)));
        assert(has_code(second, x) == (has_code(first, x) || has_code(watchlist@, x)));
        assert(has_code(out@, x) == (has_code(second, x) || has_code(discovered_this_round@, x)));
    }
    out
}


/// The stocks an account's decision round covers: those it holds, those its
/// beliefs are about, those with a live plan of its own (so a plan stays
/// observed after its position and belief are gone) and the one it
/// discovered, if any; each once and in code order.
pub fn root_candidate_codes(
    account: AccountId,
    held: &Vec<StockCode>,
    belief_stocks: &Vec<StockCode>,
    plans: &PlanBook,
    discovered: Option<StockCode>,
) -> (r: Vec<StockCode>)
    ensures
        sorted_codes(r@),
        forall|x: Seq<char>|
            has_code(r@, x) <==> (has_code(held@, x) || has_code(belief_stocks@, x) || has_active_key(
                plans@.plans,
                account,
                x,
            ) || (discovered matches Some(d) && d@ == x)),
{
    let mut out: Vec<StockCode> = Vec::new();
    let ghost empty = out@;
    insert_all(&mut out, held);
    let ghost first = out@;
    insert_all(&mut out, belief_stocks);
    let ghost second = out@;
    let live = plans.active_codes(account);
    insert_all(&mut out, &live);
    let ghost third = out@;
    let mut extra: Vec<StockCode> = Vec::new();
    match discovered {
        Some(d) => {
            extra.push(d);
        },
        None => {},
    }
    insert_all(&mut out, &extra);
    assert forall|x: Seq<char>|
        has_code(out@, x) <==> (has_code(held@, x) || has_code(belief_stocks@, x) || has_active_key(
            plans@.plans,
            account,
            x,
        ) || (discovered matches Some(d) && d@ == x)) by {
        assert(!has_code(empty, x));
        assert(has_code(first, x) == (has_code(empty, x) || has_code(held@, x)));
        assert(has_code(second, x) == (has_code(first, x) || has_code(belief_stocks@, x)));
        assert(has_code(third, x) == (has_code(second, x) || has_code(live@, x)));
        assert(has_code(out@, x) == (has_code(third, x) || has_code(extra@, x)));
        if has_code(extra@, x) {
            let k = choose|k: int| 0 <= k < extra@.len() && (#[trigger] extra@[k])@ == x;
            assert(extra@[k] == discovered->Some_0);
        }
        if discovered matches Some(d) && d@ == x {
            assert(extra@[0]@ == x);
        }
    }
    out
}

} // verus!
