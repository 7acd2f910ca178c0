//! Identity and value types shared by the plan and session layers:
//! order side, money in cents, account/order/plan ids and stock codes.
use vstd::prelude::*;

verus! {

/// Side of an order or of a plan.
#[derive(Copy, Clone, Debug, PartialEq, Eq, Structural)]
pub enum Side {
    Buy,
    Sell,
}

/// Monetary amount in cents (signed; most business inputs must be non-negative).
#[derive(Copy, Clone, Debug, PartialEq, Eq, Structural)]
pub struct Money {
    pub cents: i64,
}

impl Money {
    pub fn zero() -> (m: Money)
        ensures
            m.cents == 0,
    {
        Money { cents: 0 }
    }

    pub fn from_cents(cents: i64) -> (m: Money)
        ensures
            m.cents == cents,
    {
        Money { cents }
    }

    pub fn cents(&self) -> (c: i64)
        ensures
            c == self.cents,
    {
        self.cents
    }
}

/// Money arithmetic that leaves the range of cents.
#[derive(Copy, Clone, Debug, PartialEq, Eq, Structural)]
pub enum MoneyError {
    Overflow,
}

/// `cents` as money, if it is in range.
pub open spec fn money_of(cents: int) -> Result<Money, MoneyError> {
    if i64::MIN <= cents <= i64::MAX {
        Ok(Money { cents: cents as i64 })
    } else {
        Err(MoneyError::Overflow)
    }
}

impl Money {
    pub fn checked_add(self, other: Money) -> (r: Result<Money, MoneyError>)
        ensures
            r == money_of(self.cents + other.cents),
    {
        let sum = self.cents as i128 + other.cents as i128;
        if sum < i64::MIN as i128 || sum > i64::MAX as i128 {
            return Err(MoneyError::Overflow);
        }
        Ok(Money { cents: sum as i64 })
    }

    pub fn checked_sub(self, other: Money) -> (r: Result<Money, MoneyError>)
        ensures
            r == money_of(self.cents - other.cents),
    {
        let diff = self.cents as i128 - other.cents as i128;
        if diff < i64::MIN as i128 || diff > i64::MAX as i128 {
            return Err(MoneyError::Overflow);
        }
        Ok(Money { cents: diff as i64 })
    }

    /// The gross value of `qty` shares at this price.
    pub fn mul_shares(self, qty: u32) -> (r: Result<Money, MoneyError>)
        ensures
            r == money_of(self.cents * qty),
    {
        proof {
            assert(-0x1_0000_0000_0000_0000_0000_0000 <= self.cents as i128 * qty as i128
                <= 0x1_0000_0000_0000_0000_0000_0000) by (nonlinear_arith)
                requires
                    i64::MIN <= self.cents <= i64::MAX,
                    0 <= qty <= u32::MAX,
            ;
        }
        let gross = self.cents as i128 * qty as i128;
        if gross < i64::MIN as i128 || gross > i64::MAX as i128 {
            return Err(MoneyError::Overflow);
        }
        Ok(Money { cents: gross as i64 })
    }
}

/// Trading account identity.
#[derive(Copy, Clone, Debug, PartialEq, Eq, PartialOrd, Ord, Hash, Structural)]
pub struct AccountId(pub u64);

/// The kind of a trading account: the player or one of the simulated kinds.
#[derive(Copy, Clone, Debug, PartialEq, Eq, Structural)]
pub enum AccountKind {
    Retail,
    Inst,
    Hot,
    Player,
}

/// Order identity (also the arrival sequence of an auction order).
#[derive(Copy, Clone, Debug, PartialEq, Eq, PartialOrd, Ord, Hash, Structural)]
pub struct OrderId(pub u64);

/// Stable plan id: allocated monotonically by the plan book and never reused.
#[derive(Copy, Clone, Debug, PartialEq, Eq, PartialOrd, Ord, Hash, Structural)]
pub struct PlanId(pub u64);

/// Stock code such as `"600101"`.
#[derive(Debug, PartialEq, Eq, Hash)]
pub struct StockCode(pub String);

impl View for StockCode {
    type V = Seq<char>;

    open spec fn view(&self) -> Seq<char> {
        self.0@
    }
}

impl Clone for StockCode {
    fn clone(&self) -> (r: Self)
        ensures
            r == *self,
    {
        StockCode(self.0.clone())
    }
}

impl StockCode {
    /// Equality of two codes by their characters.
    pub fn same_as(&self, other: &StockCode) -> (r: bool)
        ensures
            r == (self@ == other@),
    {
        self.0 == other.0
    }
}

} // verus!
