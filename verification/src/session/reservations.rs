//! The cash an order reserves: a buyer reserves the unfilled gross value plus
//! the fees that the rest of the order adds; a seller reserves no cash.
use vstd::prelude::*;

use crate::ids::{money_of, Money, MoneyError, Side};

verus! {

/// The fee that a schedule charges on `gross`, as `calculate` may answer it.
pub open spec fn fee_is<F: Fn(Money) -> Result<Money, MoneyError>>(
    calculate: F,
    gross: Money,
    fee: Result<Money, MoneyError>,
) -> bool {
    if gross.cents == 0 {
        fee == Ok::<Money, MoneyError>(Money { cents: 0 })
    } else {
        calculate.ensures((gross,), fee)
    }
}

/// What the fee of a cumulative value grows by from `before` to `after`,
/// given the fees charged on them.
pub open spec fn spec_fee_delta(
    before_fee: Result<Money, MoneyError>,
    after_fee: Result<Money, MoneyError>,
) -> Result<Money, MoneyError> {
    match before_fee {
        Err(e) => Err(e),
        Ok(b) => match after_fee {
            Err(e) => Err(e),
            Ok(a) => money_of(a.cents - b.cents),
        },
    }
}

/// `result` is what the fee of a cumulative value grows by from `before` to
/// `after` under the schedule `calculate`: the fee on `before` (none on
/// nothing) is asked first and a refusal stops there; then the fee on `after`.
pub open spec fn fee_delta_is<F: Fn(Money) -> Result<Money, MoneyError>>(
    calculate: F,
    before: Money,
    after: Money,
    result: Result<Money, MoneyError>,
) -> bool {
    exists|before_fee: Result<Money, MoneyError>|
        {
            &&& #[trigger] fee_is(calculate, before, before_fee)
            &&& match before_fee {
                Err(e) => result == Err::<Money, MoneyError>(e),
                Ok(_) => exists|after_fee: Result<Money, MoneyError>|
                    #[trigger] calculate.ensures((after,), after_fee) && result == spec_fee_delta(
                        before_fee,
                        after_fee,
                    ),
            }
        }
}

/// The fee that the part of a cumulative value between `before` and `after`
/// adds: the fee on `after` less the fee on `before` (none on nothing yet).
pub fn fee_delta<F: Fn(Money) -> Result<Money, MoneyError>>(before: Money, after: Money, calculate: F) -> (r: Result<
    Money,
    MoneyError,
>)
    requires
        calculate.requires((after,)),
        before.cents != 0 ==> calculate.requires((before,)),
    ensures
        fee_delta_is(calculate, before, after, r),
{
    let before_fee = if before.cents == 0 {
        Ok(Money { cents: 0 })
    } else {
        calculate(before)
    };
    assert(fee_is(calculate, before, before_fee));
    let b = match before_fee {
        Err(e) => {
            return Err(e);
        },
        Ok(b) => b,
    };
    let after_fee = calculate(after);
    assert(calculate.ensures((after,), after_fee));
    let a = match after_fee {
        Err(e) => {
            assert(spec_fee_delta(before_fee, after_fee) == Err::<Money, MoneyError>(e));
            return Err(e);
        },
        Ok(a) => a,
    };
    a.checked_sub(b)
}

/// `r` is the reservation of a buy order whose unfilled part is worth
/// `remaining` and that brings the filled value from `filled` to `final_gross`:
/// the commission added, then the transfer fee added, then the sum, each step
/// stopping at the first refusal.
pub open spec fn reservation_is<C: Fn(Money) -> Result<Money, MoneyError>, T: Fn(Money) -> Result<Money, MoneyError>>(
    commission: C,
    transfer_fee: T,
    filled: Money,
    final_gross: Money,
    remaining: Money,
    r: Result<Money, MoneyError>,
) -> bool {
    exists|c: Result<Money, MoneyError>|
        {
            &&& #[trigger] fee_delta_is(commission, filled, final_gross, c)
            &&& match c {
                Err(e) => r == Err::<Money, MoneyError>(e),
                Ok(cv) => exists|t: Result<Money, MoneyError>|
                    {
                        &&& #[trigger] fee_delta_is(transfer_fee, filled, final_gross, t)
                        &&& match t {
                            Err(e) => r == Err::<Money, MoneyError>(e),
                            Ok(tv) => r == sum_of_three(remaining, cv, tv),
                        }
                    },
            }
        }
}

/// Adds three amounts left to right, stopping at the first overflow.
pub open spec fn sum_of_three(a: Money, b: Money, c: Money) -> Result<Money, MoneyError> {
    match money_of(a.cents + b.cents) {
        Err(e) => Err(e),
        Ok(ab) => money_of(ab.cents + c.cents),
    }
}

/// `r` is the reservation of a buy order of `qty` at `limit` after fills worth
/// `filled_value`: the gross value of the unfilled part and the value filled
/// once it fills must be representable; then the fees that it adds.
pub open spec fn buy_reservation_is<C: Fn(Money) -> Result<Money, MoneyError>, T: Fn(Money) -> Result<Money, MoneyError>>(
    commission: C,
    transfer_fee: T,
    limit: Money,
    qty: u32,
    filled_value: Money,
    r: Result<Money, MoneyError>,
) -> bool {
    match money_of(limit.cents * qty) {
        Err(e) => r == Err::<Money, MoneyError>(e),
        Ok(remaining) => match money_of(filled_value.cents + remaining.cents) {
            Err(e) => r == Err::<Money, MoneyError>(e),
            Ok(final_gross) => reservation_is(commission, transfer_fee, filled_value, final_gross, remaining, r),
        },
    }
}

/// The cash a buy order reserves: the gross value of its unfilled quantity at
/// its limit, plus the commission and transfer fee that this part adds to the
/// value already filled.
pub fn buy_order_reservation<C: Fn(Money) -> Result<Money, MoneyError>, T: Fn(Money) -> Result<Money, MoneyError>>(
    commission: C,
    transfer_fee: T,
    limit: Money,
    qty: u32,
    filled_value: Money,
) -> (r: Result<Money, MoneyError>)
    requires
        forall|m: Money| #[trigger] commission.requires((m,)),
        forall|m: Money| #[trigger] transfer_fee.requires((m,)),
    ensures
        buy_reservation_is(commission, transfer_fee, limit, qty, filled_value, r),
{
    let remaining = match limit.mul_shares(qty) {
        Err(e) => {
            return Err(e);
        },
        Ok(m) => m,
    };
    let final_gross = match filled_value.checked_add(remaining) {
        Err(e) => {
            return Err(e);
        },
        Ok(m) => m,
    };
    let c = fee_delta(filled_value, final_gross, commission);
    let cv = match c {
        Err(e) => {
            return Err(e);
        },
        Ok(v) => v,
    };
    let t = fee_delta(filled_value, final_gross, transfer_fee);
    let tv = match t {
        Err(e) => {
            return Err(e);
        },
        Ok(v) => v,
    };
    match remaining.checked_add(cv) {
        Err(e) => Err(e),
        Ok(sum) => sum.checked_add(tv),
    }
}

/// A seller reserves shares only: its fees come out of the sale proceeds.
pub fn live_cash_reservation<C: Fn(Money) -> Result<Money, MoneyError>, T: Fn(Money) -> Result<Money, MoneyError>>(
    commission: C,
    transfer_fee: T,
    side: Side,
    limit: Money,
    qty: u32,
    filled_value: Money,
) -> (r: Result<Money, MoneyError>)
    requires
        forall|m: Money| #[trigger] commission.requires((m,)),
        forall|m: Money| #[trigger] transfer_fee.requires((m,)),
    ensures
        side == Side::Sell ==> r == Ok::<Money, MoneyError>(Money { cents: 0 }),
        side == Side::Buy ==> buy_reservation_is(commission, transfer_fee, limit, qty, filled_value, r),
{
    match side {
        Side::Buy => buy_order_reservation(commission, transfer_fee, limit, qty, filled_value),
        Side::Sell => Ok(Money { cents: 0 }),
    }
}

} // verus!
