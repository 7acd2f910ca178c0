//! Opening figures of a listed company derived from its share count.
use vstd::prelude::*;

use super::events::{fnv_fold, FNV_OFFSET_BASIS, FNV_PRIME};
use crate::ids::StockCode;
use crate::rounding::tdiv;
use vstd::utf8::encode_utf8;

verus! {

/// Opening figures in yuan: cash, receivables and fixed assets on the debit
/// side; paid-in capital and short-term debt on the credit side.
#[derive(Clone, Copy, Debug, PartialEq, Eq, Structural)]
pub struct Figures {
    pub cash: i128,
    pub receivables: i128,
    pub fixed_assets: i128,
    pub paid_in_capital: i128,
    pub short_term_debt: i128,
}

/// `x` or one, whichever is larger.
pub open spec fn at_least_one(x: int) -> int {
    if x < 1 {
        1
    } else {
        x
    }
}

impl Figures {
    /// Capital is one yuan of par value per share; cash is 30% and fixed
    /// assets 80% of it, balanced by short-term debt of 10%; each at least one yuan.
    pub fn from_total_shares(total_shares: u64) -> (f: Figures)
        ensures
            f.paid_in_capital == at_least_one(total_shares as int),
            f.cash == at_least_one(f.paid_in_capital * 30 / 100),
            f.receivables == 0,
            f.fixed_assets == at_least_one(f.paid_in_capital * 80 / 100),
            f.short_term_debt == at_least_one(f.paid_in_capital * 10 / 100),
    {
        let capital: i128 = if total_shares < 1 {
            1
        } else {
            total_shares as i128
        };
        let cash = capital * 30 / 100;
        let fixed_assets = capital * 80 / 100;
        let short_term_debt = capital * 10 / 100;
        Figures {
            cash: if cash < 1 {
                1
            } else {
                cash
            },
            receivables: 0,
            fixed_assets: if fixed_assets < 1 {
                1
            } else {
                fixed_assets
            },
            paid_in_capital: capital,
            short_term_debt: if short_term_debt < 1 {
                1
            } else {
                short_term_debt
            },
        }
    }
}


/// The operating flow of a listed industrial company, in units and cents.
#[derive(Clone, Copy, Debug, PartialEq, Eq, Structural)]
pub struct ListedFlowParams {
    pub base_daily_demand_units: i128,
    pub unit_price_excl_vat_cents: i128,
    pub receivable_credit_days: u32,
    pub raw_replenish_target_units: i128,
    pub raw_unit_cost_excl_vat_cents: i128,
    pub daily_production_units: i128,
    pub daily_conversion_cost_cents: i128,
    pub daily_admin_expense_cents: i128,
    pub bad_debt_base_bp: u32,
    pub asset_impairment_fraction_bp: u32,
}

/// The sale price of one unit, before VAT, in cents.
pub const UNIT_PRICE_EXCL_VAT_CENTS: i128 = 4_000;

/// The conversion cost of one unit, in cents.
pub const CONVERSION_CENTS_PER_UNIT: i128 = 800;

/// The administrative expense per unit, in cents.
pub const ADMIN_CENTS_PER_UNIT: i128 = 100;

/// Trading days in a year.
pub const TRADING_DAYS_PER_YEAR: i128 = 250;

/// Yearly revenue target as a multiple of capital, before the code's own factor.
pub const REVENUE_TARGET_MULTIPLE: i128 = 4;

/// FNV-1a of the code's bytes: a fixed, random-free difference between companies.
pub open spec fn code_hash(code: StockCode) -> u64 {
    fnv_fold(FNV_OFFSET_BASIS, encode_utf8(code@))
}

/// The daily demand: yearly revenue of `4 * capital * (1 + hash % 6)` yuan at
/// 40 yuan a unit over 250 days, at least 100 units.
pub open spec fn listed_daily_demand(code: StockCode, capital_yuan: int) -> int {
    let multiple = 1 + (code_hash(code) % 6) as int;
    let demand = tdiv(capital_yuan * REVENUE_TARGET_MULTIPLE * multiple, (UNIT_PRICE_EXCL_VAT_CENTS / 100)
        * TRADING_DAYS_PER_YEAR);
    if demand < 100 {
        100
    } else {
        demand
    }
}

/// The raw material cost of a unit: 2400 to 2800 cents by the code's hash.
pub open spec fn listed_raw_unit_cost(code: StockCode) -> int {
    2_400 + ((code_hash(code) >> 16u64) % 5) as int * 100
}

fn code_hash_of(code: &StockCode) -> (h: u64)
    ensures
        h == code_hash(*code),
{
    let bytes = code.0.as_str().as_bytes();
    let mut hash: u64 = FNV_OFFSET_BASIS;
    let mut i: usize = 0;
    while i < bytes.len()
        invariant
            0 <= i <= bytes@.len(),
            bytes@ == encode_utf8(code@),
            hash == fnv_fold(FNV_OFFSET_BASIS, bytes@.take(i as int)),
        decreases bytes@.len() - i,
    {
        proof {
            assert(bytes@.take(i + 1).drop_last() =~= bytes@.take(i as int));
        }
        hash = (hash ^ bytes[i] as u64).wrapping_mul(FNV_PRIME);
        i += 1;
    }
    assert(bytes@.take(bytes@.len() as int) =~= bytes@);
    hash
}

/// The operating flow of a listed company scaled by its paid-in capital,
/// with the code's own revenue factor and raw material cost; everything
/// else is a fixed game assumption (five days of credit and of raw stock).
pub fn listed_flow_params(code: &StockCode, capital_yuan: i128) -> (p: ListedFlowParams)
    requires
        -0x100_0000_0000_0000_0000_0000_0000_0000 <= capital_yuan <= 0x100_0000_0000_0000_0000_0000_0000_0000,
    ensures
        p.base_daily_demand_units == listed_daily_demand(*code, capital_yuan as int),
        p.unit_price_excl_vat_cents == UNIT_PRICE_EXCL_VAT_CENTS,
        p.receivable_credit_days == 5,
        p.raw_replenish_target_units == p.base_daily_demand_units * 5,
        p.raw_unit_cost_excl_vat_cents == listed_raw_unit_cost(*code),
        p.daily_production_units == p.base_daily_demand_units,
        p.daily_conversion_cost_cents == p.base_daily_demand_units * CONVERSION_CENTS_PER_UNIT,
        p.daily_admin_expense_cents == p.base_daily_demand_units * ADMIN_CENTS_PER_UNIT,
        p.bad_debt_base_bp == 500,
        p.asset_impairment_fraction_bp == 1_000,
{
    let hash = code_hash_of(code);
    let revenue_multiple: i128 = 1 + (hash % 6) as i128;
    let raw_unit_cost: i128 = 2_400 + ((hash >> 16) % 5) as i128 * 100;
    let unit_price_yuan = UNIT_PRICE_EXCL_VAT_CENTS / 100;
    assert(-0x100_0000_0000_0000_0000_0000_0000_0000 * 24 <= capital_yuan * REVENUE_TARGET_MULTIPLE * revenue_multiple
        <= 0x100_0000_0000_0000_0000_0000_0000_0000 * 24) by (nonlinear_arith)
        requires
            -0x100_0000_0000_0000_0000_0000_0000_0000 <= capital_yuan <= 0x100_0000_0000_0000_0000_0000_0000_0000,
            1 <= revenue_multiple <= 6,
    ;
    let raw_demand = capital_yuan * REVENUE_TARGET_MULTIPLE * revenue_multiple / (unit_price_yuan
        * TRADING_DAYS_PER_YEAR);
    let demand = if raw_demand < 100 {
        100
    } else {
        raw_demand
    };
    assert(demand <= 0x100_0000_0000_0000_0000_0000_0000_0000);
    ListedFlowParams {
        base_daily_demand_units: demand,
        unit_price_excl_vat_cents: UNIT_PRICE_EXCL_VAT_CENTS,
        receivable_credit_days: 5,
        raw_replenish_target_units: demand * 5,
        raw_unit_cost_excl_vat_cents: raw_unit_cost,
        daily_production_units: demand,
        daily_conversion_cost_cents: demand * CONVERSION_CENTS_PER_UNIT,
        daily_admin_expense_cents: demand * ADMIN_CENTS_PER_UNIT,
        bad_debt_base_bp: 500,
        asset_impairment_fraction_bp: 1_000,
    }
}

} // verus!
