//! Checks of a session's start-up inputs that the engine makes before it
//! builds any state: the start date against the trading calendar, the shape
//! of the session day, the order sizes of the NPC strategies in whole lots,
//! and the listed stocks (unique codes, the 0.01 yuan tick, share counts,
//! exchange and board consistent with the code).
use vstd::prelude::*;

use super::civil_date::{date_lt, CalendarError, CivilDate, TradingCalendar};
use super::market::{spec_exchange_of, SecurityCategory, StockCodeError, StockExchange, ASCII_0, ASCII_1, ASCII_3};
use crate::code_order::code_bytes;
use vstd::utf8::encode_utf8_decode_utf8;
use crate::ids::{AccountKind, Money, StockCode};

verus! {

/// A listed stock as the start-up checks read it.
#[derive(Clone, Debug, PartialEq, Eq)]
pub struct StockListing {
    pub code: StockCode,
    pub exchange: StockExchange,
    pub category: SecurityCategory,
    pub tick: Money,
    pub total_shares: u64,
    pub float_shares: u32,
    /// Whether the configured daily price limit is the one of the category.
    pub limit_matches_category: bool,
}

/// Why start-up inputs are refused.
#[derive(Clone, Debug, PartialEq, Eq)]
pub enum SetupError {
    NoStocks,
    /// The setup was written for another simulation policy than the current one.
    PolicyNotCurrent { policy_id: String },
    /// Formal A-share sessions settle T+1.
    T1SettlementDisabled,
    Calendar(CalendarError),
    ZeroTicksPerDay,
    /// The opening auction must be shorter than the session day.
    AuctionNotShorterThanDay { auction_ticks: u64, ticks_per_day: u64 },
    /// Both auctions together must be shorter than the session day.
    AuctionsNotShorterThanDay { auction_ticks: u64, closing_auction_ticks: u64, ticks_per_day: u64 },
    ZeroHistory,
    NegativeRetailCash,
    /// A strategy's order size is not a whole number of lots.
    OrderSizeNotWholeLots { kind: AccountKind, quantity: u32, lot_size: u32 },
    DuplicateStock { code: StockCode },
    TickNotOneCent { code: StockCode },
    ZeroTotalShares { code: StockCode },
    FloatExceedsTotal { code: StockCode, float_shares: u32, total_shares: u64 },
    InvalidCode(StockCodeError),
    ExchangeMismatch { code: StockCode, assigned: StockExchange, inferred: StockExchange },
    CategoryMismatch { code: StockCode, category: SecurityCategory },
    LimitMismatch { code: StockCode, category: SecurityCategory },
}

/// The start date, the shape of the session day, the history length and the
/// retail cash median, checked in this order.
pub open spec fn spec_setup_timing(
    calendar: TradingCalendar,
    start_date: CivilDate,
    ticks_per_day: u64,
    auction_ticks: u64,
    closing_auction_ticks: u64,
    history_len: usize,
    retail_cash_median: Money,
) -> Result<(), SetupError> {
    if date_lt(start_date, calendar.first_day) || date_lt(calendar.last_day, start_date) {
        Err(SetupError::Calendar(CalendarError::StartOutsideRuntime { date: start_date }))
    } else if ticks_per_day == 0 {
        Err(SetupError::ZeroTicksPerDay)
    } else if auction_ticks >= ticks_per_day {
        Err(SetupError::AuctionNotShorterThanDay { auction_ticks, ticks_per_day })
    } else if auction_ticks + closing_auction_ticks >= ticks_per_day {
        Err(SetupError::AuctionsNotShorterThanDay { auction_ticks, closing_auction_ticks, ticks_per_day })
    } else if history_len == 0 {
        Err(SetupError::ZeroHistory)
    } else if retail_cash_median.cents < 0 {
        Err(SetupError::NegativeRetailCash)
    } else {
        Ok(())
    }
}

pub fn validate_setup_timing(
    calendar: &TradingCalendar,
    start_date: CivilDate,
    ticks_per_day: u64,
    auction_ticks: u64,
    closing_auction_ticks: u64,
    history_len: usize,
    retail_cash_median: Money,
) -> (r: Result<(), SetupError>)
    ensures
        r == spec_setup_timing(
            *calendar,
            start_date,
            ticks_per_day,
            auction_ticks,
            closing_auction_ticks,
            history_len,
            retail_cash_median,
        ),
{
    match calendar.validate_runtime_start(start_date) {
        Err(e) => {
            return Err(SetupError::Calendar(e));
        },
        Ok(()) => {},
    }
    if ticks_per_day == 0 {
        return Err(SetupError::ZeroTicksPerDay);
    }
    if auction_ticks >= ticks_per_day {
        return Err(SetupError::AuctionNotShorterThanDay { auction_ticks, ticks_per_day });
    }
    if closing_auction_ticks >= ticks_per_day - auction_ticks {
        return Err(SetupError::AuctionsNotShorterThanDay { auction_ticks, closing_auction_ticks, ticks_per_day });
    }
    if history_len == 0 {
        return Err(SetupError::ZeroHistory);
    }
    if retail_cash_median.cents < 0 {
        return Err(SetupError::NegativeRetailCash);
    }
    Ok(())
}

/// The order size of each kind of NPC that the session has must be whole
/// lots; retail first, then institutions, then hot money.
pub open spec fn spec_order_sizes(lot_size: u32, sizes: Seq<(AccountKind, bool, u32)>) -> Result<(), SetupError>
    decreases sizes.len(),
{
    if sizes.len() == 0 {
        Ok(())
    } else {
        match spec_order_sizes(lot_size, sizes.drop_last()) {
            Err(e) => Err(e),
            Ok(()) => {
                let (kind, active, quantity) = sizes.last();
                if active && quantity % lot_size != 0 {
                    Err(SetupError::OrderSizeNotWholeLots { kind, quantity, lot_size })
                } else {
                    Ok(())
                }
            },
        }
    }
}

/// Checks that the order size of each kind of NPC present is whole lots;
/// `sizes` gives each kind, whether the session has NPCs of it, and its size.
pub fn validate_order_sizes(lot_size: u32, sizes: &Vec<(AccountKind, bool, u32)>) -> (r: Result<(), SetupError>)
    requires
        lot_size > 0,
    ensures
        r == spec_order_sizes(lot_size, sizes@),
{
    let mut i: usize = 0;
    while i < sizes.len()
        invariant
            0 <= i <= sizes@.len(),
            lot_size > 0,
            spec_order_sizes(lot_size, sizes@.take(i as int)) == Ok::<(), SetupError>(()),
        decreases sizes@.len() - i,
    {
        proof {
            assert(sizes@.take(i + 1).drop_last() =~= sizes@.take(i as int));
            assert(sizes@.take(i + 1).last() == sizes@[i as int]);
        }
        let (kind, active, quantity) = sizes[i];
        if active && quantity % lot_size != 0 {
            proof {
                lemma_order_sizes_error_persists(lot_size, sizes@, i + 1);
            }
            return Err(SetupError::OrderSizeNotWholeLots { kind, quantity, lot_size });
        }
        i += 1;
    }
    assert(sizes@.take(sizes@.len() as int) =~= sizes@);
    Ok(())
}

proof fn lemma_order_sizes_error_persists(lot_size: u32, sizes: Seq<(AccountKind, bool, u32)>, k: int)
    requires
        0 <= k <= sizes.len(),
        spec_order_sizes(lot_size, sizes.take(k)) is Err,
    ensures
        spec_order_sizes(lot_size, sizes) == spec_order_sizes(lot_size, sizes.take(k)),
    decreases sizes.len() - k,
{
    if k < sizes.len() {
        assert(sizes.take(k + 1).drop_last() =~= sizes.take(k));
        lemma_order_sizes_error_persists(lot_size, sizes, k + 1);
    } else {
        assert(sizes.take(k) =~= sizes);
    }
}

/// A ChiNext code: six digits starting 300 or 301.
pub open spec fn chinext_code(code: StockCode) -> bool {
    let b = code_bytes(code);
    b[0] == ASCII_3 && b[1] == ASCII_0 && (b[2] == ASCII_0 || b[2] == ASCII_1)
}

/// The first problem of the stock `s` that follows the stocks `before`.
pub open spec fn listing_error(before: Seq<StockListing>, s: StockListing) -> Option<SetupError> {
    if exists|j: int| 0 <= j < before.len() && (#[trigger] before[j]).code@ == s.code@ {
        Some(SetupError::DuplicateStock { code: s.code })
    } else if s.tick.cents != 1 {
        Some(SetupError::TickNotOneCent { code: s.code })
    } else if s.total_shares == 0 {
        Some(SetupError::ZeroTotalShares { code: s.code })
    } else if s.float_shares > s.total_shares {
        Some(SetupError::FloatExceedsTotal { code: s.code, float_shares: s.float_shares, total_shares: s.total_shares })
    } else {
        match spec_exchange_of(s.code) {
            Err(e) => Some(SetupError::InvalidCode(e)),
            Ok(inferred) => if s.exchange != inferred {
                Some(SetupError::ExchangeMismatch { code: s.code, assigned: s.exchange, inferred })
            } else if (s.category == SecurityCategory::ChiNext) != chinext_code(s.code) {
                Some(SetupError::CategoryMismatch { code: s.code, category: s.category })
            } else if !s.limit_matches_category {
                Some(SetupError::LimitMismatch { code: s.code, category: s.category })
            } else {
                None
            },
        }
    }
}

/// The stocks checked in order; the first problem found is the answer.
pub open spec fn spec_stock_listings(stocks: Seq<StockListing>) -> Result<(), SetupError>
    decreases stocks.len(),
{
    if stocks.len() == 0 {
        Ok(())
    } else {
        match spec_stock_listings(stocks.drop_last()) {
            Err(e) => Err(e),
            Ok(()) => match listing_error(stocks.drop_last(), stocks.last()) {
                Some(e) => Err(e),
                None => Ok(()),
            },
        }
    }
}

proof fn lemma_listings_error_persists(stocks: Seq<StockListing>, k: int)
    requires
        0 <= k <= stocks.len(),
        spec_stock_listings(stocks.take(k)) is Err,
    ensures
        spec_stock_listings(stocks) == spec_stock_listings(stocks.take(k)),
    decreases stocks.len() - k,
{
    if k < stocks.len() {
        assert(stocks.take(k + 1).drop_last() =~= stocks.take(k));
        lemma_listings_error_persists(stocks, k + 1);
    } else {
        assert(stocks.take(k) =~= stocks);
    }
}

/// Checks the listed stocks: there is at least one, and each in turn has a
/// code not seen before, the 0.01 yuan tick, shares, no more floating shares
/// than shares in total, a supported A-share code whose exchange and board
/// are the listed ones, and the daily limit of its category.
pub fn validate_stock_listings(stocks: &Vec<StockListing>) -> (r: Result<(), SetupError>)
    ensures
        r == (if stocks@.len() == 0 {
            Err(SetupError::NoStocks)
        } else {
            spec_stock_listings(stocks@)
        }),
{
    if stocks.len() == 0 {
        return Err(SetupError::NoStocks);
    }
    let mut i: usize = 0;
    while i < stocks.len()
        invariant
            0 <= i <= stocks@.len(),
            spec_stock_listings(stocks@.take(i as int)) == Ok::<(), SetupError>(()),
        decreases stocks@.len() - i,
    {
        let ghost before = stocks@.take(i as int);
        proof {
            assert(stocks@.take(i + 1).drop_last() =~= before);
            assert(stocks@.take(i + 1).last() == stocks@[i as int]);
        }
        let s = &stocks[i];
        let mut j: usize = 0;
        while j < i
            invariant
                0 <= j <= i < stocks@.len(),
                before == stocks@.take(i as int),
                s == stocks@[i as int],
                spec_stock_listings(before) == Ok::<(), SetupError>(()),
                stocks@.take(i + 1).drop_last() == before,
                stocks@.take(i + 1).last() == stocks@[i as int],
                forall|m: int| 0 <= m < j ==> (#[trigger] before[m]).code@ != s.code@,
            decreases i - j,
        {
            if stocks[j].code.same_as(&s.code) {
                proof {
                    assert(before[j as int] == stocks@[j as int]);
                    assert(listing_error(before, *s) == Some(SetupError::DuplicateStock { code: s.code }));
                    lemma_listings_error_persists(stocks@, i + 1);
                }
                return Err(SetupError::DuplicateStock { code: s.code.clone() });
            }
            assert(before[j as int] == stocks@[j as int]);
            j += 1;
        }
        let problem = listing_problem(s);
        match problem {
            Some(e) => {
                proof {
                    lemma_listings_error_persists(stocks@, i + 1);
                }
                return Err(e);
            },
            None => {},
        }
        i += 1;
    }
    assert(stocks@.take(stocks@.len() as int) =~= stocks@);
    Ok(())
}

/// The problems of one stock other than a repeated code.
fn listing_problem(s: &StockListing) -> (r: Option<SetupError>)
    ensures
        r == listing_error(Seq::empty(), *s),
{
    if s.tick.cents != 1 {
        return Some(SetupError::TickNotOneCent { code: s.code.clone() });
    }
    if s.total_shares == 0 {
        return Some(SetupError::ZeroTotalShares { code: s.code.clone() });
    }
    if s.float_shares as u64 > s.total_shares {
        return Some(
            SetupError::FloatExceedsTotal {
                code: s.code.clone(),
                float_shares: s.float_shares,
                total_shares: s.total_shares,
            },
        );
    }
    let inferred = match StockExchange::from_a_share_code(&s.code) {
        Err(e) => {
            return Some(SetupError::InvalidCode(e));
        },
        Ok(x) => x,
    };
    if s.exchange != inferred {
        return Some(SetupError::ExchangeMismatch { code: s.code.clone(), assigned: s.exchange, inferred });
    }
    let b = s.code.0.as_str().as_bytes();
    let chinext = b[0] == ASCII_3 && b[1] == ASCII_0 && (b[2] == ASCII_0 || b[2] == ASCII_1);
    let is_chinext_category = match s.category {
        SecurityCategory::ChiNext => true,
        _ => false,
    };
    if is_chinext_category != chinext {
        return Some(SetupError::CategoryMismatch { code: s.code.clone(), category: s.category });
    }
    if !s.limit_matches_category {
        return Some(SetupError::LimitMismatch { code: s.code.clone(), category: s.category });
    }
    None
}


/// Whether two texts are the same.
pub fn same_text(a: &str, b: &str) -> (r: bool)
    ensures
        r == (a@ == b@),
{
    let x = a.as_bytes();
    let y = b.as_bytes();
    proof {
        encode_utf8_decode_utf8(a@);
        encode_utf8_decode_utf8(b@);
    }
    if x.len() != y.len() {
        return false;
    }
    let mut i: usize = 0;
    while i < x.len()
        invariant
            0 <= i <= x@.len(),
            x@.len() == y@.len(),
            x@.take(i as int) == y@.take(i as int),
            x@ == vstd::utf8::encode_utf8(a@),
            y@ == vstd::utf8::encode_utf8(b@),
        decreases x@.len() - i,
    {
        if x[i] != y[i] {
            assert(x@[i as int] != y@[i as int]);
            assert(x@ != y@);
            return false;
        }
        assert(x@.take(i + 1) =~= x@.take(i as int).push(x@[i as int]));
        assert(y@.take(i + 1) =~= y@.take(i as int).push(y@[i as int]));
        i += 1;
    }
    assert(x@ =~= x@.take(x@.len() as int));
    assert(y@ =~= y@.take(y@.len() as int));
    true
}

/// The start-up inputs of a session that the engine checks itself.
#[derive(Clone, Debug, PartialEq, Eq)]
pub struct SetupChecks {
    pub stocks: Vec<StockListing>,
    pub simulation_policy_id: String,
    pub start_date: CivilDate,
    pub ticks_per_day: u64,
    pub auction_ticks: u64,
    pub closing_auction_ticks: u64,
    pub history_len: usize,
    pub retail_cash_median: Money,
    pub t1_enabled: bool,
    pub lot_size: u32,
    /// Each kind of NPC, whether the session has NPCs of it, and its order size.
    pub order_sizes: Vec<(AccountKind, bool, u32)>,
}

/// The checks of a setup in the engine's order: stocks present, the current
/// simulation policy, the start date and session day, T+1 settlement, whole-
/// lot order sizes, then the listed stocks.
pub open spec fn spec_validate_setup(setup: SetupChecks, calendar: TradingCalendar, current_policy_id: Seq<char>) -> Result<
    (),
    SetupError,
> {
    if setup.stocks@.len() == 0 {
        Err(SetupError::NoStocks)
    } else if setup.simulation_policy_id@ != current_policy_id {
        Err(SetupError::PolicyNotCurrent { policy_id: setup.simulation_policy_id })
    } else if spec_setup_timing(
        calendar,
        setup.start_date,
        setup.ticks_per_day,
        setup.auction_ticks,
        setup.closing_auction_ticks,
        setup.history_len,
        setup.retail_cash_median,
    ) is Err {
        spec_setup_timing(
            calendar,
            setup.start_date,
            setup.ticks_per_day,
            setup.auction_ticks,
            setup.closing_auction_ticks,
            setup.history_len,
            setup.retail_cash_median,
        )
    } else if !setup.t1_enabled {
        Err(SetupError::T1SettlementDisabled)
    } else if spec_order_sizes(setup.lot_size, setup.order_sizes@) is Err {
        spec_order_sizes(setup.lot_size, setup.order_sizes@)
    } else {
        spec_stock_listings(setup.stocks@)
    }
}

/// Checks a session's start-up inputs (see [`spec_validate_setup`]) against
/// the calendar and the id of the current simulation policy. The fee
/// schedule's own checks, which come after the session day and before the
/// T+1 check, and the floating-point rate and limit checks after it, are the
/// host's; the fee schedule's check refuses a lot size of zero.
pub fn validate_setup(setup: &SetupChecks, calendar: &TradingCalendar, current_policy_id: &str) -> (r: Result<
    (),
    SetupError,
>)
    requires
        setup.lot_size > 0,
    ensures
        r == spec_validate_setup(*setup, *calendar, current_policy_id@),
{
    if setup.stocks.len() == 0 {
        return Err(SetupError::NoStocks);
    }
    if !same_text(setup.simulation_policy_id.as_str(), current_policy_id) {
        return Err(SetupError::PolicyNotCurrent { policy_id: setup.simulation_policy_id.clone() });
    }
    validate_setup_timing(
        calendar,
        setup.start_date,
        setup.ticks_per_day,
        setup.auction_ticks,
        setup.closing_auction_ticks,
        setup.history_len,
        setup.retail_cash_median,
    )?;
    if !setup.t1_enabled {
        return Err(SetupError::T1SettlementDisabled);
    }
    validate_order_sizes(setup.lot_size, &setup.order_sizes)?;
    validate_stock_listings(&setup.stocks)
}

} // verus!
