//! The facts a session reports: events with their monotone sequence number,
//! rejection reasons, retail order diagnostics, fatal step failures, and the
//! state hash that detects a changed projection.
use vstd::prelude::*;

use super::auction::AuctionOrderSnap;
use super::civil_date::{CivilDate, DayStatus};
use super::civil_clock::{CivilClockError, CivilInstant};
use super::market::DailyCandle;
use crate::ids::{AccountId, Money, OrderId, Side, StockCode};

verus! {

/// Why an intent was refused before it reached a book.
#[derive(Clone, Copy, Debug, PartialEq, Eq, Structural)]
pub enum RejectionReason {
    /// Gross value plus commission exceeds the cash of a buyer.
    InsufficientCash,
    /// More than the sellable position.
    InsufficientShares,
    /// Outside the daily price limits.
    LimitExceeded,
    /// A continuous limit order outside the price cage.
    PriceCageExceeded,
    UnknownStock,
    /// The call auction takes limit orders only.
    AuctionLimitOrderRequired,
    /// Past 09:20 auction orders may not be canceled.
    AuctionOrderNotCancelable,
    /// 09:25–09:30 accepts no new orders.
    AuctionOrderEntryClosed,
    /// Not a valid A-share trading unit, or above the per-order cap.
    InvalidQuantity,
    OrderNotFound,
    OrderAlreadyFilled,
    NotOrderOwner,
}

/// The trading phase of the session.
#[derive(Clone, Copy, Debug, PartialEq, Eq, Structural)]
pub enum TradingPhase {
    CallAuction,
    /// After the opening auction and before continuous trading.
    PreOpen,
    /// 14:57–15:00: limit orders accepted, no cancellations, one match at the close.
    ClosingAuction,
    Continuous,
}

/// The phase at a tick of the session day: the opening window of
/// `auction_ticks` splits 10:5 into order entry and pre-open, and the last
/// `closing_auction_ticks` of the day are the closing auction.
pub open spec fn spec_trading_phase(tick: u64, ticks_per_day: u64, auction_ticks: u64, closing_auction_ticks: u64) -> TradingPhase {
    let day_tick = tick % ticks_per_day;
    if day_tick < auction_ticks - auction_ticks / 3 {
        TradingPhase::CallAuction
    } else if day_tick < auction_ticks {
        TradingPhase::PreOpen
    } else if day_tick >= ticks_per_day - closing_auction_ticks {
        TradingPhase::ClosingAuction
    } else {
        TradingPhase::Continuous
    }
}

pub fn trading_phase(tick: u64, ticks_per_day: u64, auction_ticks: u64, closing_auction_ticks: u64) -> (p: TradingPhase)
    requires
        ticks_per_day > 0,
        closing_auction_ticks <= ticks_per_day,
    ensures
        p == spec_trading_phase(tick, ticks_per_day, auction_ticks, closing_auction_ticks),
{
    let day_tick = tick % ticks_per_day;
    if day_tick < auction_ticks - auction_ticks / 3 {
        TradingPhase::CallAuction
    } else if day_tick < auction_ticks {
        TradingPhase::PreOpen
    } else if day_tick >= ticks_per_day - closing_auction_ticks {
        TradingPhase::ClosingAuction
    } else {
        TradingPhase::Continuous
    }
}

/// The place of a phase in the trading day.
pub open spec fn phase_rank(p: TradingPhase) -> int {
    match p {
        TradingPhase::CallAuction => 0,
        TradingPhase::PreOpen => 1,
        TradingPhase::Continuous => 2,
        TradingPhase::ClosingAuction => 3,
    }
}

/// Within one session day the phases come in order: order entry, pre-open,
/// continuous trading, closing auction (when the opening window ends before
/// the closing auction starts).
pub proof fn law_phases_follow_the_trading_day(
    day_start: u64,
    earlier: u64,
    later: u64,
    ticks_per_day: u64,
    auction_ticks: u64,
    closing_auction_ticks: u64,
)
    requires
        ticks_per_day > 0,
        auction_ticks + closing_auction_ticks <= ticks_per_day,
        day_start % ticks_per_day == 0,
        day_start <= earlier <= later < day_start + ticks_per_day,
    ensures
        phase_rank(spec_trading_phase(earlier, ticks_per_day, auction_ticks, closing_auction_ticks)) <= phase_rank(
            spec_trading_phase(later, ticks_per_day, auction_ticks, closing_auction_ticks),
        ),
{
    assert(earlier % ticks_per_day == earlier - day_start && later % ticks_per_day == later - day_start) by {
        vstd::arithmetic::div_mod::lemma_fundamental_div_mod(day_start as int, ticks_per_day as int);
        let k = day_start as int / ticks_per_day as int;
        vstd::arithmetic::div_mod::lemma_mod_multiples_vanish(k, (earlier - day_start) as int, ticks_per_day as int);
        vstd::arithmetic::div_mod::lemma_mod_multiples_vanish(k, (later - day_start) as int, ticks_per_day as int);
        vstd::arithmetic::div_mod::lemma_small_mod((earlier - day_start) as nat, ticks_per_day as nat);
        vstd::arithmetic::div_mod::lemma_small_mod((later - day_start) as nat, ticks_per_day as nat);
        assert(ticks_per_day * k + (earlier - day_start) == earlier);
        assert(ticks_per_day * k + (later - day_start) == later);
    }
}

/// Public category of a disclosure.
#[derive(Clone, Copy, Debug, PartialEq, Eq, Structural)]
pub enum CompanyDisclosureKind {
    Report { report_revision: u32 },
    Announcement,
}

/// Id of a publication in the public library.
#[derive(Clone, Copy, Debug, PartialEq, Eq, Structural)]
pub struct PublicationId(pub u64);

/// Id of a listed company.
#[derive(Clone, Copy, Debug, PartialEq, Eq, Structural)]
pub struct CompanyId(pub u64);

/// An incremental event; each carries the session's monotone sequence number.
#[derive(Clone, Debug, PartialEq)]
pub enum Event {
    Trade { seq: u64, code: StockCode, price: Money, qty: u32, maker: AccountId, taker: AccountId },
    /// The indicative match of a call auction at one tick.
    AuctionTick {
        seq: u64,
        tick: u64,
        phase: TradingPhase,
        code: StockCode,
        indicative_price: Option<Money>,
        matched_volume: u64,
        imbalance: u64,
    },
    AuctionCompleted {
        seq: u64,
        tick: u64,
        phase: TradingPhase,
        code: StockCode,
        clearing_price: Option<Money>,
        matched_volume: u64,
    },
    PriceTick {
        seq: u64,
        tick: u64,
        code: StockCode,
        last_price: Money,
        daily_candle: DailyCandle,
        /// Best five bids, highest first.
        bids: Vec<(Money, u64)>,
        /// Best five asks, lowest first.
        asks: Vec<(Money, u64)>,
    },
    DayBoundary { seq: u64, day: u32, closed_daily_candles: Vec<(StockCode, DailyCandle)> },
    CivilDateAdvanced { seq: u64, settled_date: CivilDate, next_date: CivilDate, next_status: DayStatus },
    CompanyDisclosurePublished {
        seq: u64,
        publication_id: PublicationId,
        company: CompanyId,
        published_at: CivilInstant,
        kind: CompanyDisclosureKind,
    },
    IntentRejected { seq: u64, account: AccountId, code: StockCode, reason: RejectionReason },
    SettlementError { seq: u64, account: AccountId, code: StockCode, reason: String },
    OrderCanceled { seq: u64, account: AccountId, code: StockCode, id: OrderId, remaining_qty: u32 },
    OrderAccepted {
        seq: u64,
        account: AccountId,
        code: StockCode,
        id: OrderId,
        side: Side,
        price: Money,
        remaining_qty: u32,
    },
}

/// The sequence number of an event.
pub open spec fn event_seq(e: Event) -> u64 {
    match e {
        Event::Trade { seq, .. } => seq,
        Event::AuctionTick { seq, .. } => seq,
        Event::AuctionCompleted { seq, .. } => seq,
        Event::PriceTick { seq, .. } => seq,
        Event::DayBoundary { seq, .. } => seq,
        Event::CivilDateAdvanced { seq, .. } => seq,
        Event::CompanyDisclosurePublished { seq, .. } => seq,
        Event::IntentRejected { seq, .. } => seq,
        Event::SettlementError { seq, .. } => seq,
        Event::OrderCanceled { seq, .. } => seq,
        Event::OrderAccepted { seq, .. } => seq,
    }
}

impl Event {
    /// The monotone sequence number that every event carries.
    pub fn seq(&self) -> (s: u64)
        ensures
            s == event_seq(*self),
    {
        match self {
            Event::Trade { seq, .. } => *seq,
            Event::AuctionTick { seq, .. } => *seq,
            Event::AuctionCompleted { seq, .. } => *seq,
            Event::PriceTick { seq, .. } => *seq,
            Event::DayBoundary { seq, .. } => *seq,
            Event::CivilDateAdvanced { seq, .. } => *seq,
            Event::CompanyDisclosurePublished { seq, .. } => *seq,
            Event::IntentRejected { seq, .. } => *seq,
            Event::SettlementError { seq, .. } => *seq,
            Event::OrderCanceled { seq, .. } => *seq,
            Event::OrderAccepted { seq, .. } => *seq,
        }
    }
}

/// A resting continuous order that an NPC withdraws on its own schedule.
#[derive(Clone, Debug, PartialEq)]
pub struct NpcOrderLifecycle {
    pub account: AccountId,
    pub code: StockCode,
    pub order_id: OrderId,
    /// Absolute market minute at which the order entered the book.
    pub placed_market_minute: u64,
    /// From this minute the NPC cancels it through the normal lifecycle.
    pub expires_market_minute: u64,
}

/// The identity of an order that filled completely.
#[derive(Clone, Copy, Debug, PartialEq, Eq, Structural)]
pub struct FilledOrderSnap {
    pub id: OrderId,
    pub owner: AccountId,
}

/// The call-auction queue of one stock, as saved.
#[derive(Clone, Debug, PartialEq)]
pub struct AuctionQueue {
    pub code: StockCode,
    pub orders: Vec<AuctionOrderSnap>,
}

/// NPC accounts of a new session; each count creates that many independent accounts.
#[derive(Clone, Copy, Debug, PartialEq, Eq, Structural)]
pub struct NpcSetup {
    pub retail_count: u32,
    pub inst_count: u32,
    pub hot_count: u32,
    /// Median initial cash of a retail account.
    pub retail_cash_median: Money,
}

/// A lifecycle fact of a real retail order, for diagnostics.
#[derive(Clone, Debug, PartialEq)]
pub enum RetailOrderDiagnosticEvent {
    Submitted { account: AccountId, code: StockCode, side: Side, order_id: OrderId, qty: u32 },
    Filled { account: AccountId, code: StockCode, side: Side, order_id: OrderId, qty: u32 },
    Canceled { account: AccountId, code: StockCode, order_id: OrderId, remaining_qty: u32 },
    /// A remainder that a failed auction commit did not write to the continuous book.
    Aborted { account: AccountId, code: StockCode, order_id: OrderId, remaining_qty: u32 },
    Rejected { account: AccountId, code: StockCode, reason: RejectionReason },
}

/// A failure that poisons the session.
#[derive(Clone, Debug, PartialEq, Eq)]
pub enum StepFatal {
    InvariantViolation { description: String, location: String },
}

/// Session operations that fail.
#[derive(Debug)]
pub enum SessionError {
    Step(StepFatal),
    InvalidSetup(String),
    UnknownPlayer(AccountId),
    NotPlayer(AccountId),
    ResourceLimit(String),
    InvalidSave(String),
    CivilClock(CivilClockError),
}

/// FNV-1a over length-delimited fields; not a security digest.
#[derive(Clone, Copy, Debug, PartialEq, Eq, Structural)]
pub struct StateHash(pub u64);

/// The FNV-1a prime of 64 bits.
pub const FNV_PRIME: u64 = 0x100_0000_01b3;

/// The FNV-1a offset basis of 64 bits.
pub const FNV_OFFSET_BASIS: u64 = 0xcbf2_9ce4_8422_2325;

/// FNV-1a folded over `bytes` from `h`.
pub open spec fn fnv_fold(h: u64, bytes: Seq<u8>) -> u64
    decreases bytes.len(),
{
    if bytes.len() == 0 {
        h
    } else {
        vstd::wrapping::u64_specs::wrapping_mul(fnv_fold(h, bytes.drop_last()) ^ (bytes.last() as u64), FNV_PRIME)
    }
}

/// The eight little-endian bytes of `n`.
pub open spec fn le_bytes(n: u64) -> Seq<u8> {
    Seq::new(8, |i: int| ((n >> (8 * i) as u64) & 0xff) as u8)
}

impl StateHash {
    /// A hash with nothing absorbed.
    pub fn new() -> (h: StateHash)
        ensures
            h.0 == FNV_OFFSET_BASIS,
    {
        StateHash(FNV_OFFSET_BASIS)
    }

    /// Absorbs one field given by its canonical bytes: the length as eight
    /// little-endian bytes, then the bytes.
    pub fn field_bytes(&mut self, bytes: &Vec<u8>)
        ensures
            final(self).0 == fnv_fold(old(self).0, le_bytes(bytes@.len() as u64) + bytes@),
    {
        let length = bytes.len() as u64;
        let mut prefix: Vec<u8> = Vec::new();
        let mut k: u64 = 0;
        while k < 8
            invariant
                0 <= k <= 8,
                length == bytes@.len(),
                prefix@ =~= le_bytes(length).take(k as int),
            decreases 8 - k,
        {
            prefix.push(((length >> (8 * k)) & 0xff) as u8);
            k += 1;
        }
        let ghost all = le_bytes(length) + bytes@;
        assert(prefix@ =~= le_bytes(length));
        let ghost start = self.0;
        let mut i: usize = 0;
        while i < 8
            invariant
                0 <= i <= 8,
                prefix@ == le_bytes(length),
                all == le_bytes(length) + bytes@,
                self.0 == fnv_fold(start, all.take(i as int)),
            decreases 8 - i,
        {
            proof {
                assert(all.take(i + 1).drop_last() =~= all.take(i as int));
                assert(all.take(i + 1).last() == prefix@[i as int]);
            }
            self.0 = (self.0 ^ prefix[i] as u64).wrapping_mul(FNV_PRIME);
            i += 1;
        }
        let mut j: usize = 0;
        while j < bytes.len()
            invariant
                0 <= j <= bytes@.len(),
                all == le_bytes(length) + bytes@,
                self.0 == fnv_fold(start, all.take(8 + j)),
            decreases bytes@.len() - j,
        {
            proof {
                assert(all.take(8 + j + 1).drop_last() =~= all.take(8 + j));
                assert(all.take(8 + j + 1).last() == bytes@[j as int]);
            }
            self.0 = (self.0 ^ bytes[j] as u64).wrapping_mul(FNV_PRIME);
            j += 1;
        }
        assert(all.take(8 + bytes@.len() as int) =~= all);
    }

    pub fn value(&self) -> (v: u64)
        ensures
            v == self.0,
    {
        self.0
    }
}

} // verus!
