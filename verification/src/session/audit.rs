//! The fee audit of a live order envelope restored from a save: what its
//! nominal and charged fee components must satisfy before it is trusted.
use vstd::prelude::*;

use super::events::StepFatal;
use crate::ids::{Money, MoneyError, Side};

verus! {

/// The fee components of an order.
#[derive(Clone, Copy, Debug, PartialEq, Eq, Structural)]
pub struct FeeComponents {
    pub commission: Money,
    pub stamp_tax: Money,
    pub transfer_fee: Money,
}

/// The audit trail of a live order envelope.
#[derive(Clone, Copy, Debug, PartialEq, Eq, Structural)]
pub struct EnvelopeAudit {
    pub limit: Money,
    pub remaining_qty: u32,
    pub filled_qty: u32,
    pub filled_value: Money,
    /// Fees owed on the cumulative gross value.
    pub nominal: FeeComponents,
    /// Fees actually charged so far.
    pub charged: FeeComponents,
}

/// Why a restored fee audit cannot be trusted.
#[derive(Clone, Copy, Debug, PartialEq, Eq, Structural)]
pub enum AuditViolation {
    NegativeComponent,
    ChargedExceedsNominal,
    BuyerChargedDisagrees,
    /// The charged components do not add up within the range of money.
    ChargedTotalOverflow,
    SellerChargedExceedsGross,
}

pub open spec fn fee_total(f: FeeComponents) -> int {
    f.commission.cents + f.stamp_tax.cents + f.transfer_fee.cents
}

pub open spec fn has_negative(f: FeeComponents) -> bool {
    f.commission.cents < 0 || f.stamp_tax.cents < 0 || f.transfer_fee.cents < 0
}

/// What `validate_hydrated_charged_audit` answers, check by check.
pub open spec fn spec_audit_check(side: Side, audit: EnvelopeAudit) -> Result<(), AuditViolation> {
    let n = audit.nominal;
    let c = audit.charged;
    if has_negative(n) || has_negative(c) {
        Err(AuditViolation::NegativeComponent)
    } else if c.commission.cents > n.commission.cents || c.stamp_tax.cents > n.stamp_tax.cents
        || c.transfer_fee.cents > n.transfer_fee.cents {
        Err(AuditViolation::ChargedExceedsNominal)
    } else if side == Side::Buy {
        if c != n {
            Err(AuditViolation::BuyerChargedDisagrees)
        } else {
            Ok(())
        }
    } else if fee_total(c) > i64::MAX {
        Err(AuditViolation::ChargedTotalOverflow)
    } else if fee_total(c) > audit.filled_value.cents {
        Err(AuditViolation::SellerChargedExceedsGross)
    } else {
        Ok(())
    }
}

impl FeeComponents {
    /// The sum of the components, if it is a sum of money.
    pub fn total(&self) -> (r: Option<Money>)
        ensures
            match r {
                Some(m) => i64::MIN <= fee_total(*self) <= i64::MAX && m.cents == fee_total(*self),
                None => fee_total(*self) < i64::MIN || fee_total(*self) > i64::MAX,
            },
    {
        let sum = self.commission.cents as i128 + self.stamp_tax.cents as i128 + self.transfer_fee.cents as i128;
        if sum < i64::MIN as i128 || sum > i64::MAX as i128 {
            return None;
        }
        Some(Money { cents: sum as i64 })
    }
}

/// A restored fee audit is trusted only if no component is negative, nothing
/// charged exceeds what is owed, a buyer was charged exactly what is owed, and
/// a seller was not charged more than the gross value sold.
pub fn validate_hydrated_charged_audit(side: Side, audit: EnvelopeAudit) -> (r: Result<(), AuditViolation>)
    ensures
        r == spec_audit_check(side, audit),
{
    let n = audit.nominal;
    let c = audit.charged;
    if n.commission.cents < 0 || n.stamp_tax.cents < 0 || n.transfer_fee.cents < 0 || c.commission.cents < 0
        || c.stamp_tax.cents < 0 || c.transfer_fee.cents < 0 {
        return Err(AuditViolation::NegativeComponent);
    }
    if c.commission.cents > n.commission.cents || c.stamp_tax.cents > n.stamp_tax.cents || c.transfer_fee.cents
        > n.transfer_fee.cents {
        return Err(AuditViolation::ChargedExceedsNominal);
    }
    match side {
        Side::Buy => {
            if c.commission.cents != n.commission.cents || c.stamp_tax.cents != n.stamp_tax.cents
                || c.transfer_fee.cents != n.transfer_fee.cents {
                return Err(AuditViolation::BuyerChargedDisagrees);
            }
            Ok(())
        },
        Side::Sell => {
            let total = match c.total() {
                None => {
                    return Err(AuditViolation::ChargedTotalOverflow);
                },
                Some(t) => t,
            };
            if total.cents > audit.filled_value.cents {
                return Err(AuditViolation::SellerChargedExceedsGross);
            }
            Ok(())
        },
    }
}

/// The text a violation reports.
pub open spec fn violation_text(v: AuditViolation) -> Seq<char> {
    match v {
        AuditViolation::NegativeComponent => "live-order fee audit contains a negative component"@,
        AuditViolation::ChargedExceedsNominal => "live-order charged fee audit exceeds nominal fee audit"@,
        AuditViolation::BuyerChargedDisagrees => "buyer charged fee audit disagrees with nominal fee audit"@,
        AuditViolation::ChargedTotalOverflow => "charged fee total overflows"@,
        AuditViolation::SellerChargedExceedsGross => "seller charged fee audit exceeds cumulative gross value"@,
    }
}

impl AuditViolation {
    /// What the violation reports to the session.
    pub fn description(&self) -> (s: &'static str)
        ensures
            s@ == violation_text(*self),
    {
        match self {
            AuditViolation::NegativeComponent => "live-order fee audit contains a negative component",
            AuditViolation::ChargedExceedsNominal => "live-order charged fee audit exceeds nominal fee audit",
            AuditViolation::BuyerChargedDisagrees => "buyer charged fee audit disagrees with nominal fee audit",
            AuditViolation::ChargedTotalOverflow => "charged fee total overflows",
            AuditViolation::SellerChargedExceedsGross => "seller charged fee audit exceeds cumulative gross value",
        }
    }

    /// The fatal step failure that a violation during envelope projection is.
    pub fn into_fatal(&self) -> (f: StepFatal)
        ensures
            f matches StepFatal::InvariantViolation { description, location } && description@
                == violation_text(*self) && location@ == "GameSession::project_live_envelopes"@,
    {
        StepFatal::InvariantViolation {
            description: self.description().to_owned(),
            location: "GameSession::project_live_envelopes".to_owned(),
        }
    }
}

/// The stamp tax of a side: a seller pays what the schedule answers, a buyer none.
pub open spec fn stamp_tax_is<S: Fn(Money) -> Result<Money, MoneyError>>(
    stamp_tax: S,
    side: Side,
    filled_value: Money,
    st: Result<Money, MoneyError>,
) -> bool {
    if side == Side::Buy {
        st == Ok::<Money, MoneyError>(Money { cents: 0 })
    } else {
        stamp_tax.ensures((filled_value,), st)
    }
}

/// `r` is the nominal fee audit of a cumulative value: commission, then the
/// stamp tax of a seller (a buyer pays none), then the transfer fee, each
/// step stopping at the first refusal of its schedule.
pub open spec fn nominal_fees_are<
    C: Fn(Money) -> Result<Money, MoneyError>,
    S: Fn(Money) -> Result<Money, MoneyError>,
    T: Fn(Money) -> Result<Money, MoneyError>,
>(commission: C, stamp_tax: S, transfer_fee: T, side: Side, filled_value: Money, r: Result<FeeComponents, MoneyError>) -> bool {
    exists|c: Result<Money, MoneyError>|
        {
            &&& #[trigger] commission.ensures((filled_value,), c)
            &&& match c {
                Err(e) => r == Err::<FeeComponents, MoneyError>(e),
                Ok(cv) => exists|st: Result<Money, MoneyError>|
                    {
                        &&& #[trigger] stamp_tax_is(stamp_tax, side, filled_value, st)
                        &&& match st {
                            Err(e) => r == Err::<FeeComponents, MoneyError>(e),
                            Ok(sv) => exists|t: Result<Money, MoneyError>|
                                {
                                    &&& #[trigger] transfer_fee.ensures((filled_value,), t)
                                    &&& match t {
                                        Err(e) => r == Err::<FeeComponents, MoneyError>(e),
                                        Ok(tv) => r == Ok::<FeeComponents, MoneyError>(
                                            FeeComponents { commission: cv, stamp_tax: sv, transfer_fee: tv },
                                        ),
                                    }
                                },
                        }
                    },
            }
        }
}

/// The fees owed on the value filled so far; nothing is owed on nothing.
pub fn cumulative_nominal_fees<
    C: Fn(Money) -> Result<Money, MoneyError>,
    S: Fn(Money) -> Result<Money, MoneyError>,
    T: Fn(Money) -> Result<Money, MoneyError>,
>(commission: C, stamp_tax: S, transfer_fee: T, side: Side, filled_value: Money) -> (r: Result<
    FeeComponents,
    MoneyError,
>)
    requires
        commission.requires((filled_value,)),
        stamp_tax.requires((filled_value,)),
        transfer_fee.requires((filled_value,)),
    ensures
        filled_value.cents == 0 ==> r == Ok::<FeeComponents, MoneyError>(
            FeeComponents {
                commission: Money { cents: 0 },
                stamp_tax: Money { cents: 0 },
                transfer_fee: Money { cents: 0 },
            },
        ),
        filled_value.cents != 0 ==> nominal_fees_are(commission, stamp_tax, transfer_fee, side, filled_value, r),
{
    if filled_value.cents == 0 {
        return Ok(
            FeeComponents {
                commission: Money { cents: 0 },
                stamp_tax: Money { cents: 0 },
                transfer_fee: Money { cents: 0 },
            },
        );
    }
    let c = commission(filled_value);
    assert(commission.ensures((filled_value,), c));
    let cv = match c {
        Err(e) => {
            return Err(e);
        },
        Ok(v) => v,
    };
    let st = match side {
        Side::Buy => Ok(Money { cents: 0 }),
        Side::Sell => stamp_tax(filled_value),
    };
    assert(stamp_tax_is(stamp_tax, side, filled_value, st));
    let sv = match st {
        Err(e) => {
            return Err(e);
        },
        Ok(v) => v,
    };
    let t = transfer_fee(filled_value);
    assert(transfer_fee.ensures((filled_value,), t));
    let tv = match t {
        Err(e) => {
            return Err(e);
        },
        Ok(v) => v,
    };
    Ok(FeeComponents { commission: cv, stamp_tax: sv, transfer_fee: tv })
}

} // verus!
