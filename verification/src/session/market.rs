//! Market-level facts of the session: exchanges and security categories of
//! A shares, the deterministic random stream, daily candles and their history.
use vstd::prelude::*;
use vstd::wrapping::u64_specs::{wrapping_add, wrapping_mul};

use crate::code_order::code_bytes;
use crate::ids::{Money, StockCode};
use crate::rounding::tdiv;

verus! {

/// Listing exchange of an A share; it decides market-level rules such as the
/// opening call auction.
#[derive(Clone, Copy, Debug, PartialEq, Eq, Structural)]
pub enum StockExchange {
    Shanghai,
    Shenzhen,
}

/// Why a code is not a supported A-share code.
#[derive(Clone, Debug, PartialEq, Eq)]
pub enum StockCodeError {
    /// Not six ASCII digits.
    NotSixDigits { code: StockCode },
    /// Six digits, outside the Shanghai and Shenzhen boards this model supports.
    OutsideSupportedBoards { code: StockCode },
}

/// ASCII codes of the digits that A-share codes use.
pub const ASCII_0: u8 = 0x30;
pub const ASCII_1: u8 = 0x31;
pub const ASCII_3: u8 = 0x33;
pub const ASCII_5: u8 = 0x35;
pub const ASCII_6: u8 = 0x36;
pub const ASCII_9: u8 = 0x39;

/// Six ASCII digits.
pub open spec fn is_six_digits(b: Seq<u8>) -> bool {
    b.len() == 6 && forall|i: int| 0 <= i < 6 ==> ASCII_0 <= #[trigger] b[i] <= ASCII_9
}

/// Prefixes 600, 601, 603, 605.
pub open spec fn shanghai_prefix(b: Seq<u8>) -> bool {
    b[0] == ASCII_6 && b[1] == ASCII_0 && (b[2] == ASCII_0 || b[2] == ASCII_1 || b[2] == ASCII_3 || b[2] == ASCII_5)
}

/// Prefixes 000, 001, 002, 003, 300, 301.
pub open spec fn shenzhen_prefix(b: Seq<u8>) -> bool {
    ||| b[0] == ASCII_0 && b[1] == ASCII_0 && ASCII_0 <= b[2] <= ASCII_3
    ||| b[0] == ASCII_3 && b[1] == ASCII_0 && (b[2] == ASCII_0 || b[2] == ASCII_1)
}

/// What `StockExchange::from_a_share_code` returns.
pub open spec fn spec_exchange_of(code: StockCode) -> Result<StockExchange, StockCodeError> {
    let b = code_bytes(code);
    if !is_six_digits(b) {
        Err(StockCodeError::NotSixDigits { code })
    } else if shanghai_prefix(b) {
        Ok(StockExchange::Shanghai)
    } else if shenzhen_prefix(b) {
        Ok(StockExchange::Shenzhen)
    } else {
        Err(StockCodeError::OutsideSupportedBoards { code })
    }
}

impl StockExchange {
    /// The exchange of a six-digit Shanghai or Shenzhen A-share code.
    pub fn from_a_share_code(code: &StockCode) -> (r: Result<StockExchange, StockCodeError>)
        ensures
            r == spec_exchange_of(*code),
    {
        let b = code.0.as_str().as_bytes();
        if b.len() != 6 {
            return Err(StockCodeError::NotSixDigits { code: code.clone() });
        }
        let mut i: usize = 0;
        while i < 6
            invariant
                b@ == code_bytes(*code),
                b@.len() == 6,
                0 <= i <= 6,
                forall|k: int| 0 <= k < i ==> ASCII_0 <= #[trigger] b@[k] <= ASCII_9,
            decreases 6 - i,
        {
            if b[i] < ASCII_0 || b[i] > ASCII_9 {
                return Err(StockCodeError::NotSixDigits { code: code.clone() });
            }
            i += 1;
        }
        let (p0, p1, p2) = (b[0], b[1], b[2]);
        if p0 == ASCII_6 && p1 == ASCII_0 && (p2 == ASCII_0 || p2 == ASCII_1 || p2 == ASCII_3 || p2 == ASCII_5) {
            Ok(StockExchange::Shanghai)
        } else if (p0 == ASCII_0 && p1 == ASCII_0 && ASCII_0 <= p2 && p2 <= ASCII_3) || (p0 == ASCII_3 && p1 == ASCII_0 && (p2
            == ASCII_0 || p2 == ASCII_1)) {
            Ok(StockExchange::Shenzhen)
        } else {
            Err(StockCodeError::OutsideSupportedBoards { code: code.clone() })
        }
    }
}

/// A-share security category; it decides the price limit and the per-order
/// quantity cap.
#[derive(Clone, Copy, Debug, PartialEq, Eq, Structural)]
pub enum SecurityCategory {
    /// Main-board stock: 10% limit.
    MainBoard,
    /// Main-board stock under risk warning: 10% limit.
    StMainBoard,
    /// ChiNext stock: 20% limit and its own per-order caps.
    ChiNext,
}

impl SecurityCategory {
    /// Largest quantity of one order: ChiNext 150,000 at market and 300,000
    /// limit; the main boards 1,000,000 either way.
    pub fn max_order_qty(self, is_market: bool) -> (q: u32)
        ensures
            q == (match (self, is_market) {
                (SecurityCategory::ChiNext, true) => 150_000u32,
                (SecurityCategory::ChiNext, false) => 300_000u32,
                _ => 1_000_000u32,
            }),
    {
        match (self, is_market) {
            (SecurityCategory::ChiNext, true) => 150_000,
            (SecurityCategory::ChiNext, false) => 300_000,
            _ => 1_000_000,
        }
    }

    /// The price limit as shown to players.
    pub fn display_limit(self) -> (s: &'static str)
        ensures
            s@ == (match self {
                SecurityCategory::ChiNext => "20%"@,
                _ => "10%"@,
            }),
    {
        match self {
            SecurityCategory::MainBoard => "10%",
            SecurityCategory::StMainBoard => "10%",
            SecurityCategory::ChiNext => "20%",
        }
    }
}

/// SplitMix64: a seeded, replayable stream of `u64` (same seed, same sequence).
#[derive(Clone, Debug)]
pub struct SplitMix64 {
    state: u64,
}

/// The state after one step.
pub open spec fn splitmix_advance(state: u64) -> u64 {
    wrapping_add(state, 0x9E37_79B9_7F4A_7C15)
}

/// The output drawn from an advanced state.
pub open spec fn splitmix_output(state: u64) -> u64 {
    let z1 = wrapping_mul(state ^ (state >> 30u64), 0xBF58_476D_1CE4_E5B9);
    let z2 = wrapping_mul(z1 ^ (z1 >> 27u64), 0x94D0_49BB_1331_11EB);
    z2 ^ (z2 >> 31u64)
}

impl View for SplitMix64 {
    type V = u64;

    closed spec fn view(&self) -> u64 {
        self.state
    }
}

impl SplitMix64 {
    pub fn new(seed: u64) -> (r: SplitMix64)
        ensures
            r@ == seed,
    {
        SplitMix64 { state: seed }
    }

    /// The current state, which is what a save records.
    pub fn state(&self) -> (s: u64)
        ensures
            s == self@,
    {
        self.state
    }

    pub fn next_u64(&mut self) -> (r: u64)
        ensures
            final(self)@ == splitmix_advance(old(self)@),
            r == splitmix_output(final(self)@),
    {
        self.state = self.state.wrapping_add(0x9E37_79B9_7F4A_7C15);
        let mut z = self.state;
        z = (z ^ (z >> 30u64)).wrapping_mul(0xBF58_476D_1CE4_E5B9);
        z = (z ^ (z >> 27u64)).wrapping_mul(0x94D0_49BB_1331_11EB);
        z ^ (z >> 31u64)
    }

    /// A draw from `lo..hi` as the next output's low 32 bits modulo the
    /// width; `lo` when the range is empty, with nothing drawn.
    pub fn next_range_u32(&mut self, lo: u32, hi: u32) -> (r: u32)
        ensures
            hi <= lo ==> r == lo && final(self)@ == old(self)@,
            lo < hi ==> final(self)@ == splitmix_advance(old(self)@) && r == lo + (splitmix_output(
                final(self)@,
            ) as u32) % ((hi - lo) as u32),
    {
        if hi <= lo {
            return lo;
        }
        let draw = self.next_u64() as u32;
        lo + draw % (hi - lo)
    }
}

/// A uniform draw from `-radius..=radius` (a radius below one counts as one),
/// taken as the next output modulo the width of the range.
pub fn random_signed(rng: &mut SplitMix64, radius: i64) -> (r: i64)
    requires
        radius < 0x4000_0000_0000_0000,
    ensures
        final(rng)@ == splitmix_advance(old(rng)@),
        ({
            let rad: int = if radius < 1 { 1 } else { radius as int };
            r == (splitmix_output(final(rng)@) as int) % (2 * rad + 1) - rad
        }),
{
    let radius = if radius < 1 {
        1
    } else {
        radius
    };
    let width = (radius as u64) * 2 + 1;
    let draw = rng.next_u64();
    (draw % width) as i64 - radius
}

/// `cents` rounded to the nearest multiple of `tick` (halves up, saturating),
/// and never below one tick.
pub open spec fn spec_quantize_cents(cents: int, tick: int) -> int {
    let shifted = if cents + tick / 2 > i64::MAX {
        i64::MAX as int
    } else {
        cents + tick / 2
    };
    let q = tdiv(shifted, tick);
    (if q < 1 {
        1
    } else {
        q
    }) * tick
}

pub fn quantize_cents(cents: i64, tick: i64) -> (r: i64)
    requires
        tick > 0,
    ensures
        r == spec_quantize_cents(cents as int, tick as int),
{
    let half = tick / 2;
    let shifted = if cents > i64::MAX - half {
        i64::MAX
    } else {
        cents + half
    };
    let q = shifted / tick;
    let q = if q < 1 {
        1
    } else {
        q
    };
    proof {
        assert(q * tick <= i64::MAX) by (nonlinear_arith)
            requires
                q == 1 || q == tdiv(shifted as int, tick as int),
                shifted <= i64::MAX,
                tick > 0,
                1 <= q,
        {
            if q != 1 {
                vstd::arithmetic::div_mod::lemma_fundamental_div_mod(shifted as int, tick as int);
            }
        }
    }
    q * tick
}

/// Turnover and count of the real trades of one trading day.
#[derive(Clone, Copy, Debug, Default, PartialEq, Eq, Structural)]
pub struct DailyTradeStats {
    pub turnover_cents: u64,
    pub trade_count: u64,
}

impl DailyTradeStats {
    /// The statistics of a day whose only trade is `quantity` at `price`.
    pub fn from_trade(price: Money, quantity: u64) -> (s: DailyTradeStats)
        requires
            price.cents >= 0,
            price.cents * quantity <= u64::MAX,
        ensures
            s.turnover_cents == price.cents * quantity,
            s.trade_count == 1,
    {
        let mut stats = DailyTradeStats { turnover_cents: 0, trade_count: 0 };
        stats.record_trade(price, quantity);
        stats
    }

    /// Adds one trade of `quantity` at `price`.
    pub fn record_trade(&mut self, price: Money, quantity: u64)
        requires
            price.cents >= 0,
            old(self).turnover_cents + price.cents * quantity <= u64::MAX,
            old(self).trade_count < u64::MAX,
        ensures
            final(self).turnover_cents == old(self).turnover_cents + price.cents * quantity,
            final(self).trade_count == old(self).trade_count + 1,
    {
        let price_cents = price.cents() as u64;
        proof {
            assert(0 <= price_cents * quantity <= u64::MAX) by (nonlinear_arith)
                requires
                    0 <= price_cents * quantity,
                    self.turnover_cents + price_cents * quantity <= u64::MAX,
                    0 <= self.turnover_cents,
            ;
        }
        let gross_cents = price_cents * quantity;
        self.turnover_cents = self.turnover_cents + gross_cents;
        self.trade_count = self.trade_count + 1;
    }
}

/// One trading day of OHLCV in cents; `time` is game-relative seconds.
#[derive(Clone, Copy, Debug, PartialEq, Eq, Structural)]
pub struct DailyCandle {
    pub time: i64,
    pub open: Money,
    pub high: Money,
    pub low: Money,
    pub close: Money,
    pub volume: u64,
    /// Real trade statistics; `None` for synthetic preset history.
    pub trade_stats: Option<DailyTradeStats>,
}

/// Game-relative seconds of one day.
pub const SECONDS_PER_DAY: i64 = 86_400;

/// The active candle after a price event of `added_volume` shares at `price`
/// on session day `day`: the first real trade of the day replaces the
/// zero-volume placeholder (built from the previous close before the
/// auction), so the day opens at its first trade; later events extend the
/// high and low, set the close and add volume and trade statistics.
pub open spec fn spec_updated_candle(active: Option<DailyCandle>, day: u32, price: Money, added_volume: u64) -> DailyCandle {
    let time = (day * SECONDS_PER_DAY) as i64;
    let candle = match active {
        Some(c) => c,
        None => DailyCandle {
            time,
            open: price,
            high: price,
            low: price,
            close: price,
            volume: 0,
            trade_stats: Some(DailyTradeStats { turnover_cents: 0, trade_count: 0 }),
        },
    };
    if candle.volume == 0 && added_volume > 0 {
        DailyCandle {
            time,
            open: price,
            high: price,
            low: price,
            close: price,
            volume: added_volume,
            trade_stats: Some(DailyTradeStats { turnover_cents: (price.cents * added_volume) as u64, trade_count: 1 }),
        }
    } else {
        DailyCandle {
            high: if price.cents > candle.high.cents {
                price
            } else {
                candle.high
            },
            low: if price.cents < candle.low.cents {
                price
            } else {
                candle.low
            },
            close: price,
            volume: (candle.volume + added_volume) as u64,
            trade_stats: if added_volume > 0 {
                Some(
                    DailyTradeStats {
                        turnover_cents: (candle.trade_stats->Some_0.turnover_cents + price.cents * added_volume) as u64,
                        trade_count: (candle.trade_stats->Some_0.trade_count + 1) as u64,
                    },
                )
            } else {
                candle.trade_stats
            },
            ..candle
        }
    }
}

/// Updates the active daily candle of a stock with a price event (see
/// [`spec_updated_candle`]); `active` is the day's candle so far, if any.
pub fn update_active_daily_candle(active: Option<DailyCandle>, day: u32, price: Money, added_volume: u64) -> (c:
    DailyCandle)
    requires
        added_volume > 0 ==> price.cents >= 0,
        added_volume > 0 ==> price.cents * added_volume <= u64::MAX,
        active matches Some(a) ==> (a.volume == 0 && added_volume > 0) || {
            &&& a.volume + added_volume <= u64::MAX
            &&& added_volume > 0 ==> (a.trade_stats matches Some(t) && t.turnover_cents + price.cents * added_volume
                <= u64::MAX && t.trade_count < u64::MAX)
        },
    ensures
        c == spec_updated_candle(active, day, price, added_volume),
{
    let time = (day as i64) * SECONDS_PER_DAY;
    let candle = match active {
        Some(c) => c,
        None => DailyCandle {
            time,
            open: price,
            high: price,
            low: price,
            close: price,
            volume: 0,
            trade_stats: Some(DailyTradeStats { turnover_cents: 0, trade_count: 0 }),
        },
    };
    if candle.volume == 0 && added_volume > 0 {
        return DailyCandle {
            time,
            open: price,
            high: price,
            low: price,
            close: price,
            volume: added_volume,
            trade_stats: Some(DailyTradeStats::from_trade(price, added_volume)),
        };
    }
    let mut next = candle;
    if price.cents > next.high.cents {
        next.high = price;
    }
    if price.cents < next.low.cents {
        next.low = price;
    }
    next.close = price;
    next.volume = next.volume + added_volume;
    if added_volume > 0 {
        let mut stats = match next.trade_stats {
            Some(t) => t,
            None => {
                return next;
            },
        };
        stats.record_trade(price, added_volume);
        next.trade_stats = Some(stats);
    }
    next
}

/// How many recent days with volume the technical indicators keep.
pub const TECHNICAL_RECENT_VALID_DAYS: usize = 60;

/// How many recent daily closes a behavior observation keeps.
pub const MAX_BEHAVIOR_DAILY_HISTORY: usize = 250;

/// The complete daily history of a stock, with a bounded cache of the most
/// recent days that traded.
#[derive(Clone, Debug, PartialEq, Eq)]
pub struct DailyCandleHistory {
    candles: Vec<DailyCandle>,
    traded_count: usize,
    recent_traded: Vec<DailyCandle>,
}

/// The days of `s` that traded.
pub open spec fn traded_days(s: Seq<DailyCandle>) -> Seq<DailyCandle> {
    s.filter(|c: DailyCandle| c.volume > 0)
}

/// The last `n` elements of `s` (all of them if there are fewer).
pub open spec fn last_n<T>(s: Seq<T>, n: int) -> Seq<T> {
    if s.len() <= n {
        s
    } else {
        s.subrange(s.len() - n, s.len() as int)
    }
}

impl DailyCandleHistory {
    /// The cache agrees with the full history.
    pub closed spec fn wf(&self) -> bool {
        &&& self.traded_count == traded_days(self.candles@).len()
        &&& self.recent_traded@ == last_n(traded_days(self.candles@), TECHNICAL_RECENT_VALID_DAYS as int)
    }

    /// Every candle, oldest first.
    pub closed spec fn days(&self) -> Seq<DailyCandle> {
        self.candles@
    }

    pub fn new() -> (h: DailyCandleHistory)
        ensures
            h.wf(),
            h.days() == Seq::<DailyCandle>::empty(),
    {
        let h = DailyCandleHistory { candles: Vec::new(), traded_count: 0, recent_traded: Vec::new() };
        assert(traded_days(h.candles@) =~= Seq::<DailyCandle>::empty());
        h
    }

    /// The history of `candles`, oldest first.
    pub fn from_candles(candles: Vec<DailyCandle>) -> (h: DailyCandleHistory)
        requires
            candles@.len() < usize::MAX,
        ensures
            h.wf(),
            h.days() == candles@,
    {
        let mut history = DailyCandleHistory::new();
        let mut i: usize = 0;
        while i < candles.len()
            invariant
                0 <= i <= candles@.len(),
                candles@.len() < usize::MAX,
                history.wf(),
                history.days() == candles@.take(i as int),
            decreases candles@.len() - i,
        {
            proof {
                assert(candles@.take(i + 1) =~= candles@.take(i as int).push(candles@[i as int]));
            }
            history.push(candles[i]);
            i += 1;
        }
        assert(candles@.take(candles@.len() as int) =~= candles@);
        history
    }

    pub fn len(&self) -> (n: usize)
        ensures
            n == self.days().len(),
    {
        self.candles.len()
    }

    pub fn last(&self) -> (c: Option<&DailyCandle>)
        ensures
            c == (if self.days().len() == 0 {
                None
            } else {
                Some(&self.days().last())
            }),
    {
        if self.candles.len() == 0 {
            None
        } else {
            Some(&self.candles[self.candles.len() - 1])
        }
    }

    /// Every candle, oldest first.
    pub fn candles(&self) -> (s: &Vec<DailyCandle>)
        ensures
            s@ == self.days(),
    {
        &self.candles
    }

    /// The last `count` candles, oldest first.
    pub fn recent(&self, count: usize) -> (r: Vec<DailyCandle>)
        ensures
            r@ == last_n(self.days(), count as int),
    {
        let n = self.candles.len();
        let start = if n <= count {
            0
        } else {
            n - count
        };
        let mut out: Vec<DailyCandle> = Vec::new();
        let mut i = start;
        while i < n
            invariant
                n == self.candles@.len(),
                start <= i <= n,
                out@ == self.candles@.subrange(start as int, i as int),
            decreases n - i,
        {
            out.push(self.candles[i]);
            i += 1;
        }
        assert(self.candles@.subrange(0, n as int) =~= self.candles@);
        out
    }

    /// How many days traded.
    pub fn traded_count(&self) -> (n: usize)
        requires
            self.wf(),
        ensures
            n == traded_days(self.days()).len(),
    {
        self.traded_count
    }

    /// The most recent days that traded, at most the technical window, oldest first.
    pub fn recent_traded(&self) -> (r: &Vec<DailyCandle>)
        requires
            self.wf(),
        ensures
            r@ == last_n(traded_days(self.days()), TECHNICAL_RECENT_VALID_DAYS as int),
    {
        &self.recent_traded
    }

    /// Appends the candle of a closed day.
    pub fn push(&mut self, candle: DailyCandle)
        requires
            old(self).wf(),
            old(self).days().len() < usize::MAX,
        ensures
            final(self).wf(),
            final(self).days() == old(self).days().push(candle),
    {
        let ghost before = self.candles@;
        proof {
            broadcast use vstd::seq_lib::group_filter_ensures;

            assert(traded_days(before).len() <= before.len());
        }
        if candle.volume > 0 {
            self.traded_count = self.traded_count + 1;
            let ghost prev_recent = self.recent_traded@;
            self.recent_traded.push(candle);
            if self.recent_traded.len() > TECHNICAL_RECENT_VALID_DAYS {
                self.recent_traded.remove(0);
            }
            proof {
                let t = traded_days(before);
                assert(traded_days(before.push(candle)) =~= t.push(candle)) by {
                    broadcast use Seq::lemma_filter_push;

                }
                assert(self.recent_traded@ =~= last_n(t.push(candle), TECHNICAL_RECENT_VALID_DAYS as int));
            }
        } else {
            proof {
                assert(traded_days(before.push(candle)) =~= traded_days(before)) by {
                    broadcast use Seq::lemma_filter_push;

                }
            }
        }
        self.candles.push(candle);
    }
}

/// The close of a completed trading day, numbered from the start of the history.
#[derive(Clone, Copy, Debug, PartialEq, Eq, Structural)]
pub struct CompletedDayClose {
    pub trading_day: u32,
    pub close: Money,
}

/// The closes of the last `MAX_BEHAVIOR_DAILY_HISTORY` days of `candles`,
/// each numbered by its position in the whole history.
pub open spec fn spec_retained_closes(candles: Seq<DailyCandle>) -> Seq<CompletedDayClose> {
    let start = if candles.len() <= MAX_BEHAVIOR_DAILY_HISTORY {
        0
    } else {
        candles.len() - MAX_BEHAVIOR_DAILY_HISTORY
    };
    Seq::new(
        (candles.len() - start) as nat,
        |k: int| CompletedDayClose { trading_day: (start + k) as u32, close: candles[start + k].close },
    )
}

pub fn retained_behavior_daily_closes(candles: &Vec<DailyCandle>) -> (r: Vec<CompletedDayClose>)
    requires
        candles@.len() <= u32::MAX + 1,
    ensures
        r@ == spec_retained_closes(candles@),
{
    let n = candles.len();
    let start = if n <= MAX_BEHAVIOR_DAILY_HISTORY {
        0
    } else {
        n - MAX_BEHAVIOR_DAILY_HISTORY
    };
    let mut out: Vec<CompletedDayClose> = Vec::new();
    let mut i = start;
    while i < n
        invariant
            n == candles@.len(),
            n <= u32::MAX + 1,
            start == (if n <= MAX_BEHAVIOR_DAILY_HISTORY {
                0
            } else {
                n - MAX_BEHAVIOR_DAILY_HISTORY
            }),
            start <= i <= n,
            out@ =~= spec_retained_closes(candles@).take(i - start),
        decreases n - i,
    {
        out.push(CompletedDayClose { trading_day: i as u32, close: candles[i].close });
        i += 1;
    }
    out
}

/// The retained closes of a daily history.
pub fn retained_behavior_daily_closes_history(history: &DailyCandleHistory) -> (r: Vec<CompletedDayClose>)
    requires
        history.days().len() <= u32::MAX + 1,
    ensures
        r@ == spec_retained_closes(history.days()),
{
    retained_behavior_daily_closes(history.candles())
}

} // verus!
