//! The equity of an account: its cash plus each holding valued at the last
//! price of its stock.
use vstd::prelude::*;

use crate::ids::{money_of, Money, MoneyError};

verus! {

/// Cash plus the value of the holdings `(last price, quantity)`, added in
/// order; the first value or sum that leaves the range of money fails.
pub open spec fn spec_equity(cash: Money, holdings: Seq<(Money, u32)>) -> Result<Money, MoneyError>
    decreases holdings.len(),
{
    if holdings.len() == 0 {
        Ok(cash)
    } else {
        match spec_equity(cash, holdings.drop_last()) {
            Err(e) => Err(e),
            Ok(total) => {
                let (price, qty) = holdings.last();
                match money_of(price.cents * qty) {
                    Err(e) => Err(e),
                    Ok(value) => money_of(total.cents + value.cents),
                }
            },
        }
    }
}

/// The equity of an account with `cash` and these holdings, each given by
/// the last price of its stock and the quantity held.
pub fn account_equity(cash: Money, holdings: &Vec<(Money, u32)>) -> (r: Result<Money, MoneyError>)
    ensures
        r == spec_equity(cash, holdings@),
{
    let mut total = cash;
    let mut i: usize = 0;
    while i < holdings.len()
        invariant
            0 <= i <= holdings@.len(),
            spec_equity(cash, holdings@.take(i as int)) == Ok::<Money, MoneyError>(total),
        decreases holdings@.len() - i,
    {
        proof {
            assert(holdings@.take(i + 1).drop_last() =~= holdings@.take(i as int));
            assert(holdings@.take(i + 1).last() == holdings@[i as int]);
        }
        let (price, qty) = holdings[i];
        let value = match price.mul_shares(qty) {
            Err(e) => {
                proof {
                    lemma_equity_error_persists(cash, holdings@, i + 1);
                }
                return Err(e);
            },
            Ok(v) => v,
        };
        total = match total.checked_add(value) {
            Err(e) => {
                proof {
                    lemma_equity_error_persists(cash, holdings@, i + 1);
                }
                return Err(e);
            },
            Ok(t) => t,
        };
        i += 1;
    }
    assert(holdings@.take(holdings@.len() as int) =~= holdings@);
    Ok(total)
}

proof fn lemma_equity_error_persists(cash: Money, holdings: Seq<(Money, u32)>, k: int)
    requires
        0 <= k <= holdings.len(),
        spec_equity(cash, holdings.take(k)) is Err,
    ensures
        spec_equity(cash, holdings) == spec_equity(cash, holdings.take(k)),
    decreases holdings.len() - k,
{
    if k < holdings.len() {
        assert(holdings.take(k + 1).drop_last() =~= holdings.take(k));
        lemma_equity_error_persists(cash, holdings, k + 1);
    } else {
        assert(holdings.take(k) =~= holdings);
    }
}


/// Equity is cash plus each holding at its full quantity: with no holdings it
/// is the cash; one more holding, when it can be valued, adds exactly its
/// last price times its quantity, and is refused only when that value or
/// the new total leaves the range of money.
pub proof fn law_equity_adds_each_holding_at_its_full_quantity(
    cash: Money,
    holdings: Seq<(Money, u32)>,
    price: Money,
    qty: u32,
)
    ensures
        spec_equity(cash, Seq::empty()) == Ok::<Money, MoneyError>(cash),
        spec_equity(cash, holdings.push((price, qty))) matches Ok(after) ==> (spec_equity(cash, holdings) matches Ok(
            before,
        ) && after.cents == before.cents + price.cents * qty),
        spec_equity(cash, holdings) matches Ok(before) && i64::MIN <= price.cents * qty <= i64::MAX && i64::MIN
            <= before.cents + price.cents * qty <= i64::MAX ==> spec_equity(cash, holdings.push((price, qty))) is Ok,
{
    assert(holdings.push((price, qty)).drop_last() =~= holdings);
    assert(holdings.push((price, qty)).last() == (price, qty));
}
} // verus!
