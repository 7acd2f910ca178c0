use std::collections::BTreeMap;

use trade_engine::ids::{AccountId, AccountKind, Money, MoneyError, OrderId, Side, StockCode};
use trade_engine::session::auction::{
    auction_total_imbalance, candidate_stats, clearing_result, rounded_midpoint,
    AuctionOrderSnap, ClearingResult,
};
use trade_engine::session::audit::{
    cumulative_nominal_fees, validate_hydrated_charged_audit, AuditViolation, EnvelopeAudit, FeeComponents,
};
use trade_engine::session::civil_clock::{
    CivilDayEndReport, CivilInstant, CivilClock, CivilClockError, ClockInconsistency, CivilPhase, DueBusinessId, DueKind,
};
use trade_engine::session::civil_date::{
    default_civil_start_date, session_calendar_exchange, CalendarError, CalendarExchange,
    CivilDate, CivilDateError, DayStatus, TradingCalendar,
};
use trade_engine::session::company_figures::{listed_flow_params, Figures, ListedFlowParams};
use trade_engine::session::company_operations::{
    due_kind_of, CompanyOperationsClockWiring, ScheduledAction, ScheduledDue,
};
use trade_engine::session::disclosures::{
    disclosure_phase_observer, scheduled_slots, DisclosureDispatch, ScheduledSlot, ShockStart,
};
use trade_engine::session::events::{
    trading_phase, CompanyId, Event, RejectionReason, StateHash, StepFatal, TradingPhase,
};
use trade_engine::session::execution::{
    crosses, intent_code, same_side, suppress_noncancelable, take_exact, DependencyError, Intent,
    ParentOrderPlan, PendingNpcBatch, ReconcileScope,
};
use trade_engine::session::remainders::{auction_remainders, RemainderError};
use trade_engine::session::reservations::{buy_order_reservation, fee_delta, live_cash_reservation};
use trade_engine::session::valuation::account_equity;
use trade_engine::session::setup::{
    validate_order_sizes, validate_setup, validate_setup_timing, validate_stock_listings, SetupChecks, SetupError,
    StockListing,
};
use trade_engine::session::market::{
    quantize_cents, random_signed, retained_behavior_daily_closes,
    retained_behavior_daily_closes_history, DailyCandle, DailyCandleHistory, DailyTradeStats,
    update_active_daily_candle, SecurityCategory, SplitMix64, StockCodeError, StockExchange,
};

fn money(cents: i64) -> Money {
    Money::from_cents(cents)
}

fn code(text: &str) -> StockCode {
    StockCode(text.to_owned())
}

fn date(y: i32, m: u8, d: u8) -> CivilDate {
    CivilDate::from_ymd(y, m, d).unwrap()
}

fn order(owner: u64, side: Side, limit: i64, qty: u32, id: u64) -> AuctionOrderSnap {
    AuctionOrderSnap {
        owner: AccountId(owner),
        side,
        limit: money(limit),
        qty,
        order_id: id,
    }
}

#[test]
fn exchange_is_read_from_the_a_share_code() {
    assert_eq!(StockExchange::from_a_share_code(&code("600101")), Ok(StockExchange::Shanghai));
    assert_eq!(StockExchange::from_a_share_code(&code("605001")), Ok(StockExchange::Shanghai));
    assert_eq!(StockExchange::from_a_share_code(&code("000812")), Ok(StockExchange::Shenzhen));
    assert_eq!(StockExchange::from_a_share_code(&code("300260")), Ok(StockExchange::Shenzhen));
    assert_eq!(
        StockExchange::from_a_share_code(&code("688001")),
        Err(StockCodeError::OutsideSupportedBoards { code: code("688001") })
    );
    assert_eq!(
        StockExchange::from_a_share_code(&code("60010")),
        Err(StockCodeError::NotSixDigits { code: code("60010") })
    );
    assert_eq!(
        StockExchange::from_a_share_code(&code("60010a")),
        Err(StockCodeError::NotSixDigits { code: code("60010a") })
    );
}

#[test]
fn order_caps_and_limits_follow_the_category() {
    assert_eq!(SecurityCategory::ChiNext.max_order_qty(true), 150_000);
    assert_eq!(SecurityCategory::ChiNext.max_order_qty(false), 300_000);
    assert_eq!(SecurityCategory::MainBoard.max_order_qty(true), 1_000_000);
    assert_eq!(SecurityCategory::StMainBoard.max_order_qty(false), 1_000_000);
    assert_eq!(SecurityCategory::ChiNext.display_limit(), "20%");
    assert_eq!(SecurityCategory::StMainBoard.display_limit(), "10%");
}

#[test]
fn splitmix_replays_the_reference_sequence() {
    let mut rng = SplitMix64::new(0);
    assert_eq!(rng.next_u64(), 0xe220_a839_7b1d_cdaf);
    assert_eq!(rng.next_u64(), 0x6e78_9e6a_a1b9_65f4);
    let mut a = SplitMix64::new(77);
    let mut b = SplitMix64::new(77);
    for _ in 0..10 {
        assert_eq!(a.next_u64(), b.next_u64());
    }
}

#[test]
fn random_signed_draws_within_the_radius() {
    let mut rng = SplitMix64::new(42);
    assert_eq!(random_signed(&mut rng, 3), 2);
    assert_eq!(rng.state(), 0x9e37_79b9_7f4a_7c3f);
    let mut rng = SplitMix64::new(9);
    for _ in 0..100 {
        let v = random_signed(&mut rng, 0);
        assert!((-1..=1).contains(&v));
    }
}

#[test]
fn quantized_prices_are_whole_ticks_of_at_least_one_tick() {
    assert_eq!(quantize_cents(1_234, 10), 1_230);
    assert_eq!(quantize_cents(1_235, 10), 1_240);
    assert_eq!(quantize_cents(-50, 10), 10);
    assert_eq!(quantize_cents(i64::MAX, 10), i64::MAX / 10 * 10);
}

fn candle(day: i64, close: i64, volume: u64) -> DailyCandle {
    DailyCandle {
        time: day * 86_400,
        open: money(close),
        high: money(close),
        low: money(close),
        close: money(close),
        volume,
        trade_stats: None,
    }
}

#[test]
fn daily_history_keeps_every_day_and_counts_traded_ones() {
    let mut history = DailyCandleHistory::new();
    history.push(candle(0, 1_000, 0));
    history.push(candle(1, 1_010, 500));
    history.push(candle(2, 1_020, 700));
    assert_eq!(history.len(), 3);
    assert_eq!(history.traded_count(), 2);
    assert_eq!(history.recent_traded().len(), 2);
    assert_eq!(history.recent_traded()[0].close, money(1_010));
    assert_eq!(history.last().unwrap().close, money(1_020));
    assert_eq!(history.recent(2), vec![candle(1, 1_010, 500), candle(2, 1_020, 700)]);
    let closes = retained_behavior_daily_closes_history(&history);
    assert_eq!(closes.len(), 3);
    assert_eq!(closes[2].trading_day, 2);
    assert_eq!(closes[2].close, money(1_020));
}

#[test]
fn recent_traded_days_are_bounded() {
    let mut history = DailyCandleHistory::new();
    for day in 0..100 {
        history.push(candle(day, 1_000 + day, 1));
    }
    assert_eq!(history.len(), 100);
    assert_eq!(history.traded_count(), 100);
    assert_eq!(history.recent_traded().len(), 60);
    assert_eq!(history.recent_traded()[0].close, money(1_040));
}

#[test]
fn retained_closes_keep_the_last_250_days_with_their_positions() {
    let candles: Vec<DailyCandle> = (0..300).map(|day| candle(day, 1_000 + day, 1)).collect();
    let closes = retained_behavior_daily_closes(&candles);
    assert_eq!(closes.len(), 250);
    assert_eq!(closes[0].trading_day, 50);
    assert_eq!(closes[0].close, money(1_050));
    assert_eq!(closes[249].trading_day, 299);
}

#[test]
fn trade_stats_accumulate_turnover_and_count() {
    let mut stats = DailyTradeStats::from_trade(money(1_000), 300);
    stats.record_trade(money(1_010), 100);
    assert_eq!(stats.turnover_cents, 401_000);
    assert_eq!(stats.trade_count, 2);
}

#[test]
fn a_single_crossing_price_clears_on_both_exchanges() {
    let orders = vec![
        order(1, Side::Buy, 1_010, 100, 1),
        order(2, Side::Buy, 1_000, 100, 2),
        order(3, Side::Sell, 990, 100, 3),
        order(4, Side::Sell, 1_000, 100, 4),
    ];
    let expected = Some(ClearingResult {
        price: money(1_000),
        volume: 200,
        imbalance: 0,
    });
    assert_eq!(clearing_result(&orders, money(1_000), StockExchange::Shanghai, money(10)), expected);
    assert_eq!(clearing_result(&orders, money(1_000), StockExchange::Shenzhen, money(10)), expected);
    assert_eq!(candidate_stats(&orders, money(1_010)), None);
}

#[test]
fn shanghai_takes_the_midpoint_and_shenzhen_the_price_nearest_the_close() {
    let orders = vec![order(1, Side::Buy, 1_020, 100, 1), order(2, Side::Sell, 1_000, 100, 2)];
    assert_eq!(
        clearing_result(&orders, money(1_015), StockExchange::Shanghai, money(10)),
        Some(ClearingResult {
            price: money(1_010),
            volume: 100,
            imbalance: 0
        })
    );
    assert_eq!(
        clearing_result(&orders, money(1_015), StockExchange::Shenzhen, money(10)),
        Some(ClearingResult {
            price: money(1_020),
            volume: 100,
            imbalance: 0
        })
    );
    assert_eq!(
        clearing_result(&orders, money(1_010), StockExchange::Shenzhen, money(10)),
        Some(ClearingResult {
            price: money(1_000),
            volume: 100,
            imbalance: 0
        })
    );
}

#[test]
fn no_cross_means_no_clearing_price() {
    let orders = vec![order(1, Side::Buy, 990, 100, 1), order(2, Side::Sell, 1_000, 100, 2)];
    assert_eq!(clearing_result(&orders, money(1_000), StockExchange::Shanghai, money(10)), None);
    assert_eq!(clearing_result(&vec![], money(1_000), StockExchange::Shenzhen, money(10)), None);
    assert_eq!(auction_total_imbalance(&orders), 0);
}

#[test]
fn midpoint_rounds_half_up_to_the_tick() {
    assert_eq!(rounded_midpoint(money(1_000), money(1_020), money(10)), Some(money(1_010)));
    assert_eq!(rounded_midpoint(money(1_000), money(1_010), money(10)), Some(money(1_010)));
    assert_eq!(rounded_midpoint(money(1_000), money(1_010), money(0)), None);
}

#[test]
fn total_imbalance_is_buys_against_sells() {
    let orders = vec![
        order(1, Side::Buy, 1_000, 300, 1),
        order(2, Side::Sell, 1_000, 100, 2),
        order(3, Side::Buy, 990, 100, 3),
    ];
    assert_eq!(auction_total_imbalance(&orders), 300);
}

fn limit(c: &str, side: Side, price: i64, qty: u32) -> Intent {
    Intent::PlaceLimit {
        code: code(c),
        side,
        price: money(price),
        qty,
    }
}

#[test]
fn take_exact_removes_only_the_first_exact_match() {
    let mut desired = vec![
        limit("600101", Side::Buy, 1_000, 100),
        limit("600101", Side::Buy, 1_000, 200),
        limit("600101", Side::Buy, 1_000, 200),
    ];
    assert!(take_exact(&mut desired, &code("600101"), Side::Buy, money(1_000), 200));
    assert_eq!(
        desired,
        vec![limit("600101", Side::Buy, 1_000, 100), limit("600101", Side::Buy, 1_000, 200)]
    );
    assert!(!take_exact(&mut desired, &code("600101"), Side::Sell, money(1_000), 200));
    assert_eq!(desired.len(), 2);
}

#[test]
fn crossing_and_same_side_intents_are_recognised() {
    let buy = limit("600101", Side::Buy, 1_010, 100);
    assert!(crosses(&buy, &code("600101"), Side::Sell, money(1_000)));
    assert!(!crosses(&buy, &code("600101"), Side::Sell, money(1_020)));
    assert!(!crosses(&buy, &code("600102"), Side::Sell, money(1_000)));
    let market = Intent::PlaceMarket {
        code: code("600101"),
        side: Side::Sell,
        qty: 100,
    };
    assert!(crosses(&market, &code("600101"), Side::Buy, money(1)));
    assert!(same_side(&buy, &code("600101"), Side::Buy));
    assert!(!same_side(&market, &code("600101"), Side::Sell));
    let cancel = Intent::Cancel {
        code: code("000812"),
        id: OrderId(4),
    };
    assert_eq!(intent_code(&cancel), &code("000812"));
}

#[test]
fn a_noncancelable_auction_order_suppresses_duplicates_and_crosses() {
    let mut desired = vec![
        limit("600101", Side::Buy, 1_000, 100),
        limit("600101", Side::Sell, 990, 100),
        limit("600101", Side::Sell, 1_200, 100),
        limit("600102", Side::Buy, 1_000, 100),
    ];
    suppress_noncancelable(
        &mut desired,
        &code("600101"),
        Side::Buy,
        money(1_000),
        &ReconcileScope::AllWorkingOrders,
    );
    assert_eq!(
        desired,
        vec![limit("600101", Side::Sell, 1_200, 100), limit("600102", Side::Buy, 1_000, 100)]
    );
    suppress_noncancelable(
        &mut desired,
        &code("600101"),
        Side::Buy,
        money(1_000),
        &ReconcileScope::ReviewedStocks(vec![code("600101")]),
    );
    assert_eq!(desired, vec![limit("600102", Side::Buy, 1_000, 100)]);
}

#[test]
fn dependencies_must_pair_a_cancellation_with_a_later_placement() {
    let cancel = Intent::Cancel {
        code: code("600101"),
        id: OrderId(1),
    };
    let place = limit("600101", Side::Buy, 1_000, 100);
    let batch = |deps: Vec<(usize, usize)>, intents: Vec<(AccountId, Intent)>| PendingNpcBatch {
        observed_tick: 0,
        observed_accounts: vec![AccountId(1)],
        intents,
        dependencies: deps,
    };
    let good = vec![(AccountId(1), cancel.clone()), (AccountId(1), place.clone())];
    assert_eq!(batch(vec![(0, 1)], good.clone()).validate_dependencies(), Ok(()));
    assert_eq!(
        batch(vec![(1, 0)], good.clone()).validate_dependencies(),
        Err(DependencyError::NotEarlierAndLater { before: 1, after: 0 })
    );
    assert_eq!(
        batch(vec![(0, 1), (0, 1)], good.clone()).validate_dependencies(),
        Err(DependencyError::Duplicated { before: 0, after: 1 })
    );
    let reversed = vec![(AccountId(1), place.clone()), (AccountId(1), cancel.clone())];
    assert_eq!(
        batch(vec![(0, 1)], reversed).validate_dependencies(),
        Err(DependencyError::PredecessorNotCancellation { before: 0, after: 1 })
    );
    let two_cancels = vec![(AccountId(1), cancel.clone()), (AccountId(1), cancel.clone())];
    assert_eq!(
        batch(vec![(0, 1)], two_cancels).validate_dependencies(),
        Err(DependencyError::SuccessorNotPlacement { before: 0, after: 1 })
    );
    let other_account = vec![(AccountId(1), cancel.clone()), (AccountId(2), place.clone())];
    assert_eq!(
        batch(vec![(0, 1)], other_account).validate_dependencies(),
        Err(DependencyError::DifferentAccountOrStock { before: 0, after: 1 })
    );
}

#[test]
fn parent_order_remaining_quantity() {
    let plan = ParentOrderPlan {
        code: code("600101"),
        side: Side::Buy,
        target_qty: 10_000,
        filled_qty: 3_700,
        child_qty: 1_000,
        active_child_order_id: None,
        active_child_remaining_qty: None,
        linked_plan_id: None,
        limit_price: money(1_000),
        expires_market_minute: 240,
    };
    assert_eq!(plan.remaining_qty(), 6_300);
}

fn calendar() -> TradingCalendar {
    TradingCalendar {
        first_day: date(2030, 1, 1),
        last_day: date(2030, 12, 31),
        closed_days: vec![date(2030, 1, 1), date(2030, 1, 5), date(2030, 1, 6)],
    }
}

#[test]
fn civil_dates_roll_over_months_years_and_leap_days() {
    assert_eq!(date(2030, 1, 31).next(), Ok(date(2030, 2, 1)));
    assert_eq!(date(2030, 12, 31).next(), Ok(date(2031, 1, 1)));
    assert_eq!(date(2032, 2, 28).next(), Ok(date(2032, 2, 29)));
    assert_eq!(date(2030, 2, 28).next(), Ok(date(2030, 3, 1)));
    assert_eq!(date(2199, 12, 31).next(), Err(CivilDateError::BeyondWindow));
    assert_eq!(
        CivilDate::from_ymd(2030, 2, 29),
        Err(CivilDateError::InvalidDate {
            year: 2030,
            month: 2,
            day: 29
        })
    );
    assert!(CivilDate::from_ymd(2000, 2, 29).is_ok());
    assert!(CivilDate::from_ymd(1900, 2, 29).is_err());
    assert_eq!(default_civil_start_date(), date(2030, 1, 1));
    assert_eq!(session_calendar_exchange(StockExchange::Shenzhen), CalendarExchange::Szse);
}

#[test]
fn the_calendar_answers_within_its_window() {
    let cal = calendar();
    assert_eq!(cal.day_status(date(2030, 1, 2)), Ok(DayStatus::Trading));
    assert_eq!(cal.day_status(date(2030, 1, 5)), Ok(DayStatus::Closed));
    assert_eq!(
        cal.day_status(date(2031, 1, 1)),
        Err(CalendarError::OutsideCalendar { date: date(2031, 1, 1) })
    );
}

#[test]
fn the_clock_dispatches_each_due_item_exactly_once_on_its_day() {
    let mut clock = CivilClock::new(date(2030, 1, 1), calendar()).unwrap();
    assert_eq!(clock.phase(), CivilPhase::ClosedDay);
    let later = clock.register_due(date(2030, 1, 3), DueKind::InterestAccrual).unwrap();
    let sooner = clock.register_due(date(2030, 1, 2), DueKind::ContractMaturity).unwrap();
    assert_eq!(later.id, DueBusinessId(1));
    assert_eq!(sooner.id, DueBusinessId(2));
    assert_eq!(clock.pending_due(), &vec![sooner, later]);

    let first = clock.end_day(date(2030, 1, 1)).unwrap();
    assert!(first.dispatched_due.is_empty());
    assert_eq!(first.next_date, date(2030, 1, 2));
    assert_eq!(first.next_status, DayStatus::Trading);
    assert_eq!(first.disclosure_instant.hour, 18);
    assert_eq!(clock.phase(), CivilPhase::IntradayTrading);

    let second = clock.end_day(date(2030, 1, 2)).unwrap();
    assert_eq!(second.dispatched_due, vec![sooner]);
    assert_eq!(clock.pending_due(), &vec![later]);
    assert_eq!(clock.settled_through(), Some(date(2030, 1, 2)));
    assert_eq!(clock.current_date(), date(2030, 1, 3));
    assert_eq!(clock.completed_trading_sessions_expected(), Ok(2));
}

#[test]
fn a_civil_day_end_waits_for_every_expected_market_session() {
    let mut clock = CivilClock::new(date(2030, 1, 1), calendar()).unwrap();
    let saved = clock.save();
    assert_eq!(
        clock.end_civil_day(1),
        Err(CivilClockError::MarketSessionOutOfSync {
            date: date(2030, 1, 1),
            completed_sessions: 1,
            expected_sessions: 0,
        })
    );
    assert_eq!(clock.save(), saved);
    let first = clock.end_civil_day(0).unwrap();
    assert_eq!(first.settled_date, date(2030, 1, 1));
    assert_eq!(clock.current_date(), date(2030, 1, 2));
    assert_eq!(
        clock.end_civil_day(0),
        Err(CivilClockError::MarketSessionOutOfSync {
            date: date(2030, 1, 2),
            completed_sessions: 0,
            expected_sessions: 1,
        })
    );
    assert_eq!(clock.end_civil_day(1).unwrap().settled_date, date(2030, 1, 2));
}

#[test]
fn refused_day_ends_leave_the_clock_unchanged() {
    let mut clock = CivilClock::new(date(2030, 1, 1), calendar()).unwrap();
    let due = clock.register_due(date(2030, 1, 2), DueKind::InterestAccrual).unwrap();
    clock.end_day(date(2030, 1, 1)).unwrap();
    let saved = clock.save();

    assert_eq!(
        clock.end_day(date(2030, 1, 1)),
        Err(CivilClockError::DuplicateDayEnd {
            date: date(2030, 1, 1),
            settled_through: Some(date(2030, 1, 1))
        })
    );
    assert_eq!(
        clock.end_day(date(2030, 1, 4)),
        Err(CivilClockError::SkippedCivilDays {
            from: date(2030, 1, 2),
            to: date(2030, 1, 4),
            unprocessed: vec![due]
        })
    );
    assert_eq!(clock.save(), saved);
    assert_eq!(
        clock.register_due(date(2030, 1, 1), DueKind::InterestAccrual),
        Err(CivilClockError::DueRegistrationInPast {
            kind: DueKind::InterestAccrual,
            due_date: date(2030, 1, 1),
            current: date(2030, 1, 2)
        })
    );
    assert_eq!(
        clock.register_due(date(2031, 1, 2), DueKind::InterestAccrual),
        Err(CivilClockError::Calendar(CalendarError::OutsideCalendar { date: date(2031, 1, 2) }))
    );
    assert_eq!(clock.save(), saved);
}

#[test]
fn the_clock_stops_at_the_last_day_of_its_calendar() {
    let cal = TradingCalendar {
        first_day: date(2030, 1, 1),
        last_day: date(2030, 1, 1),
        closed_days: vec![],
    };
    let mut clock = CivilClock::new(date(2030, 1, 1), cal).unwrap();
    assert_eq!(
        clock.end_day(date(2030, 1, 1)),
        Err(CivilClockError::BeyondRuntimeCeiling {
            next: date(2030, 1, 2),
            ceiling: date(2030, 1, 1)
        })
    );
    assert_eq!(
        CivilClock::new(date(2031, 1, 1), calendar()).map(|_| ()),
        Err(CivilClockError::Calendar(CalendarError::StartOutsideRuntime {
            date: date(2031, 1, 1)
        }))
    );
}

#[test]
fn a_saved_clock_restores_to_the_same_state() {
    let mut clock = CivilClock::new(date(2030, 1, 1), calendar()).unwrap();
    clock.register_due(date(2030, 1, 9), DueKind::InterestAccrual).unwrap();
    clock.register_due(date(2030, 1, 3), DueKind::ContractMaturity).unwrap();
    clock.end_day(date(2030, 1, 1)).unwrap();
    let save = clock.save();
    let restored = CivilClock::from_parts(date(2030, 1, 1), &save, calendar()).unwrap();
    assert_eq!(restored.save(), save);
    assert_eq!(restored.start_date(), date(2030, 1, 1));

    let mut shuffled = save.clone();
    shuffled.pending_due.reverse();
    let sorted = CivilClock::from_parts(date(2030, 1, 1), &shuffled, calendar()).unwrap();
    assert_eq!(sorted.pending_due(), &save.pending_due);

    let mut early = save.clone();
    early.current_date = date(2029, 12, 31);
    assert_eq!(
        CivilClock::from_parts(date(2030, 1, 1), &early, calendar()).map(|_| ()),
        Err(CivilClockError::SaveInconsistent {
            detail: ClockInconsistency::CurrentBeforeStart
        })
    );
}

#[test]
fn syncing_the_scheduler_twice_registers_each_item_once() {
    let mut clock = CivilClock::new(date(2030, 1, 1), calendar()).unwrap();
    let mut wiring = CompanyOperationsClockWiring::new();
    let pending = vec![
        ScheduledDue {
            id: 10,
            due_date: date(2030, 1, 4),
            action: ScheduledAction::InterestAccrual,
        },
        ScheduledDue {
            id: 11,
            due_date: date(2030, 1, 7),
            action: ScheduledAction::ContractMaturity,
        },
    ];
    assert_eq!(wiring.install(&mut clock, &pending), Ok(2));
    assert_eq!(wiring.sync(&mut clock, &pending), Ok(0));
    assert_eq!(clock.pending_due().len(), 2);
    assert_eq!(clock.pending_due()[1].kind, DueKind::ContractMaturity);
    assert_eq!(wiring.mirrored_count(), 2);
    wiring.prune_dispatched(&vec![pending[1]]);
    assert_eq!(wiring.mirrored_count(), 1);
    wiring.adopt_all_pending(&pending);
    assert_eq!(wiring.mirrored_count(), 2);
    assert_eq!(due_kind_of(&ScheduledAction::InterestAccrual), DueKind::InterestAccrual);
}

#[test]
fn every_event_reports_its_sequence_number() {
    let event = Event::IntentRejected {
        seq: 7,
        account: AccountId(1),
        code: code("600101"),
        reason: RejectionReason::UnknownStock,
    };
    assert_eq!(event.seq(), 7);
    let trade = Event::Trade {
        seq: 11,
        code: code("600101"),
        price: money(1_000),
        qty: 100,
        maker: AccountId(1),
        taker: AccountId(2),
    };
    assert_eq!(trade.seq(), 11);
}

fn fees(commission: i64, stamp_tax: i64, transfer_fee: i64) -> FeeComponents {
    FeeComponents {
        commission: money(commission),
        stamp_tax: money(stamp_tax),
        transfer_fee: money(transfer_fee),
    }
}

fn audit(nominal: FeeComponents, charged: FeeComponents, filled_value: i64) -> EnvelopeAudit {
    EnvelopeAudit {
        limit: money(1_000),
        remaining_qty: 100,
        filled_qty: 100,
        filled_value: money(filled_value),
        nominal,
        charged,
    }
}

#[test]
fn restored_fee_audits_are_checked() {
    assert_eq!(
        validate_hydrated_charged_audit(Side::Buy, audit(fees(500, 0, 1), fees(500, 0, 1), 100_000)),
        Ok(())
    );
    assert_eq!(
        validate_hydrated_charged_audit(Side::Buy, audit(fees(500, 0, 1), fees(400, 0, 1), 100_000)),
        Err(AuditViolation::BuyerChargedDisagrees)
    );
    assert_eq!(
        validate_hydrated_charged_audit(Side::Sell, audit(fees(500, 50, 1), fees(400, 50, 1), 100_000)),
        Ok(())
    );
    assert_eq!(
        validate_hydrated_charged_audit(Side::Sell, audit(fees(500, 50, 1), fees(500, 50, 1), 300)),
        Err(AuditViolation::SellerChargedExceedsGross)
    );
    assert_eq!(
        validate_hydrated_charged_audit(Side::Sell, audit(fees(500, 50, 1), fees(600, 50, 1), 100_000)),
        Err(AuditViolation::ChargedExceedsNominal)
    );
    assert_eq!(
        validate_hydrated_charged_audit(Side::Sell, audit(fees(-1, 50, 1), fees(0, 50, 1), 100_000)),
        Err(AuditViolation::NegativeComponent)
    );
    match AuditViolation::NegativeComponent.into_fatal() {
        StepFatal::InvariantViolation { description, location } => {
            assert_eq!(description, "live-order fee audit contains a negative component");
            assert_eq!(location, "GameSession::project_live_envelopes");
        }
    }
}

#[test]
fn state_hash_absorbs_length_delimited_fields() {
    let mut hash = StateHash::new();
    hash.field_bytes(&vec![]);
    assert_eq!(hash.value(), 0xa8c7_f832_281a_39c5);
    let mut other = StateHash::new();
    other.field_bytes(&b"abc".to_vec());
    assert_eq!(other.value(), 0xc11a_b6d2_519b_c2b2);
}

#[test]
fn opening_figures_follow_the_share_count() {
    let figures = Figures::from_total_shares(1_000);
    assert_eq!(figures.paid_in_capital, 1_000);
    assert_eq!(figures.cash, 300);
    assert_eq!(figures.fixed_assets, 800);
    assert_eq!(figures.short_term_debt, 100);
    let tiny = Figures::from_total_shares(0);
    assert_eq!(tiny.paid_in_capital, 1);
    assert_eq!(tiny.cash, 1);
    assert_eq!(tiny.fixed_assets, 1);
    assert_eq!(tiny.short_term_debt, 1);
}


#[test]
fn auction_remainders_move_in_acceptance_order_with_their_fills() {
    let orders = vec![
        order(7, Side::Buy, 1_000, 300, 3),
        order(8, Side::Sell, 990, 200, 1),
        order(9, Side::Buy, 1_010, 100, 2),
    ];
    let mut fills = BTreeMap::new();
    fills.insert(3u64, 100u32);
    fills.insert(1u64, 200u32);
    let plan = auction_remainders(&orders, &fills, Some(money(1_000)));
    assert_eq!(plan.stop, None);
    assert_eq!(plan.orders.len(), 2);
    assert_eq!(plan.orders[0].id, OrderId(2));
    assert_eq!(plan.orders[0].qty, 100);
    assert_eq!(plan.orders[0].filled_value, money(0));
    assert_eq!(plan.orders[1].id, OrderId(3));
    assert_eq!(plan.orders[1].qty, 200);
    assert_eq!(plan.orders[1].filled_qty, 100);
    assert_eq!(plan.orders[1].filled_value, money(100_000));
    assert_eq!(plan.orders[1].owner, AccountId(7));

    let mut overfilled = BTreeMap::new();
    overfilled.insert(2u64, 500u32);
    let stopped = auction_remainders(&orders, &overfilled, Some(money(1_000)));
    assert_eq!(stopped.orders.len(), 1);
    assert_eq!(stopped.orders[0].id, OrderId(1));
    assert_eq!(
        stopped.stop,
        Some((
            AccountId(9),
            RemainderError::FillExceedsQuantity {
                order_id: 2,
                filled_qty: 500,
                qty: 100
            }
        ))
    );

    let mut partial = BTreeMap::new();
    partial.insert(1u64, 50u32);
    let unpriced = auction_remainders(&orders, &partial, None);
    assert!(unpriced.orders.is_empty());
    assert_eq!(
        unpriced.stop,
        Some((AccountId(8), RemainderError::FillsWithoutClearingPrice { order_id: 1 }))
    );
}

#[test]
fn disclosures_go_out_once_per_window() {
    let at = |d: CivilDate, hour: u8| CivilInstant {
        date: d,
        hour,
        minute: 0,
        second: 0,
    };
    let shocks = vec![
        ShockStart {
            company: CompanyId(1),
            shock_index: 0,
            starts_on: date(2030, 1, 2),
        },
        ShockStart {
            company: CompanyId(2),
            shock_index: 0,
            starts_on: date(2030, 1, 3),
        },
    ];
    let slots = vec![
        ScheduledSlot {
            company: CompanyId(1),
            fiscal_year: 2029,
            kind_index: 0,
            instant: at(date(2030, 1, 2), 9),
        },
        ScheduledSlot {
            company: CompanyId(2),
            fiscal_year: 2029,
            kind_index: 0,
            instant: at(date(2030, 1, 3), 9),
        },
    ];
    let mut dispatch = DisclosureDispatch::new(None);
    let first = dispatch.plan_day_end(date(2030, 1, 2), at(date(2030, 1, 2), 18), &shocks, &slots);
    assert_eq!(first.announcements, vec![shocks[0]]);
    assert_eq!(first.scheduled, vec![slots[0]]);
    dispatch.commit_announcements(date(2030, 1, 2));
    dispatch.commit_scheduled(at(date(2030, 1, 2), 18));

    let repeat = dispatch.plan_day_end(date(2030, 1, 2), at(date(2030, 1, 2), 18), &shocks, &slots);
    assert!(repeat.announcements.is_empty());
    assert!(repeat.scheduled.is_empty());

    let next = dispatch.plan_day_end(date(2030, 1, 3), at(date(2030, 1, 3), 18), &shocks, &slots);
    assert_eq!(next.announcements, vec![shocks[1]]);
    assert_eq!(next.scheduled, vec![slots[1]]);
    assert_eq!(dispatch.published_through(), Some(at(date(2030, 1, 2), 18)));
}

#[test]
fn a_day_end_dispatch_moves_both_cursors_and_repeats_as_nothing() {
    let at = |d: CivilDate, hour: u8| CivilInstant {
        date: d,
        hour,
        minute: 0,
        second: 0,
    };
    let shocks = vec![ShockStart {
        company: CompanyId(3),
        shock_index: 1,
        starts_on: date(2030, 1, 2),
    }];
    let slots = vec![
        ScheduledSlot {
            company: CompanyId(3),
            fiscal_year: 2029,
            kind_index: 1,
            instant: at(date(2029, 12, 31), 18),
        },
        ScheduledSlot {
            company: CompanyId(3),
            fiscal_year: 2029,
            kind_index: 2,
            instant: at(date(2030, 1, 2), 18),
        },
        ScheduledSlot {
            company: CompanyId(3),
            fiscal_year: 2030,
            kind_index: 0,
            instant: at(date(2030, 1, 2), 19),
        },
    ];
    let report = CivilDayEndReport {
        settled_date: date(2030, 1, 2),
        dispatched_due: Vec::new(),
        disclosure_instant: at(date(2030, 1, 2), 18),
        next_date: date(2030, 1, 3),
        next_status: DayStatus::Trading,
    };
    disclosure_phase_observer(report.disclosure_instant);
    let mut dispatch = DisclosureDispatch::new(Some(at(date(2029, 12, 31), 18)));
    let plan = dispatch.run_day_end(&report, &shocks, &slots);
    assert_eq!(plan.announcements, shocks);
    assert_eq!(plan.scheduled, vec![slots[1]]);
    assert_eq!(dispatch.published_through(), Some(at(date(2030, 1, 2), 18)));
    assert_eq!(dispatch.announced_through(), Some(date(2030, 1, 2)));

    let again = dispatch.run_day_end(&report, &shocks, &slots);
    assert!(again.announcements.is_empty());
    assert!(again.scheduled.is_empty());
}

fn commission(m: Money) -> Result<Money, MoneyError> {
    Ok(money((m.cents() * 3 / 10_000).max(500)))
}

fn transfer_fee(m: Money) -> Result<Money, MoneyError> {
    Ok(money(m.cents() / 100_000))
}

fn stamp_tax(m: Money) -> Result<Money, MoneyError> {
    Ok(money(m.cents() / 1_000))
}

#[test]
fn a_buy_reserves_its_gross_and_the_fees_it_adds() {
    assert_eq!(
        buy_order_reservation(commission, transfer_fee, money(1_000), 1_000, money(0)),
        Ok(money(1_000_510))
    );
    assert_eq!(
        buy_order_reservation(commission, transfer_fee, money(1_000), 1_000, money(500_000)),
        Ok(money(1_000_010))
    );
    assert_eq!(
        live_cash_reservation(commission, transfer_fee, Side::Sell, money(1_000), 1_000, money(0)),
        Ok(money(0))
    );
    assert_eq!(
        buy_order_reservation(commission, transfer_fee, money(i64::MAX), 2, money(0)),
        Err(MoneyError::Overflow)
    );
    assert_eq!(fee_delta(money(0), money(2_000_000), commission), Ok(money(600)));
    assert_eq!(
        fee_delta(money(10), money(20), |_| Err(MoneyError::Overflow)),
        Err(MoneyError::Overflow)
    );
}

#[test]
fn nominal_fees_charge_stamp_tax_to_sellers_only() {
    assert_eq!(
        cumulative_nominal_fees(commission, stamp_tax, transfer_fee, Side::Sell, money(1_000_000)),
        Ok(fees(500, 1_000, 10))
    );
    assert_eq!(
        cumulative_nominal_fees(commission, stamp_tax, transfer_fee, Side::Buy, money(1_000_000)),
        Ok(fees(500, 0, 10))
    );
    assert_eq!(
        cumulative_nominal_fees(commission, stamp_tax, transfer_fee, Side::Sell, money(0)),
        Ok(fees(0, 0, 0))
    );
}

#[test]
fn the_first_real_trade_opens_the_active_candle() {
    let placeholder = update_active_daily_candle(None, 2, money(1_000), 0);
    assert_eq!(placeholder.time, 2 * 86_400);
    assert_eq!(placeholder.open, money(1_000));
    assert_eq!(placeholder.volume, 0);
    assert_eq!(
        placeholder.trade_stats,
        Some(DailyTradeStats {
            turnover_cents: 0,
            trade_count: 0
        })
    );
    let opened = update_active_daily_candle(Some(placeholder), 2, money(1_010), 100);
    assert_eq!(opened.open, money(1_010));
    assert_eq!(opened.low, money(1_010));
    assert_eq!(opened.volume, 100);
    assert_eq!(
        opened.trade_stats,
        Some(DailyTradeStats {
            turnover_cents: 101_000,
            trade_count: 1
        })
    );
    let higher = update_active_daily_candle(Some(opened), 2, money(1_020), 50);
    assert_eq!((higher.open, higher.high, higher.low, higher.close), (money(1_010), money(1_020), money(1_010), money(1_020)));
    assert_eq!(higher.volume, 150);
    assert_eq!(
        higher.trade_stats,
        Some(DailyTradeStats {
            turnover_cents: 152_000,
            trade_count: 2
        })
    );
    let quote = update_active_daily_candle(Some(higher), 2, money(1_005), 0);
    assert_eq!((quote.low, quote.close, quote.volume), (money(1_005), money(1_005), 150));
    assert_eq!(quote.trade_stats, higher.trade_stats);
}

#[test]
fn equity_is_cash_plus_holdings_at_their_last_price() {
    assert_eq!(
        account_equity(money(1_000), &vec![(money(100), 3), (money(50), 10)]),
        Ok(money(1_800))
    );
    assert_eq!(account_equity(money(-50), &Vec::new()), Ok(money(-50)));
    assert_eq!(
        account_equity(money(0), &vec![(money(i64::MAX), 2)]),
        Err(MoneyError::Overflow)
    );
    assert_eq!(
        account_equity(money(i64::MAX), &vec![(money(1), 1)]),
        Err(MoneyError::Overflow)
    );
}

#[test]
fn first_auction_trade_replaces_provisional_previous_close_on_gap_up_days() {
    let mut day = 0u32;
    let mut previous_close = money(1_000);
    for auction_open_cents in [1_100, 1_250, 1_400] {
        let auction_open = money(auction_open_cents);
        let close = money(auction_open_cents + 20);
        let mut active = Some(update_active_daily_candle(None, day, previous_close, 0));
        active = Some(update_active_daily_candle(active, day, auction_open, 100));
        let candle = update_active_daily_candle(active, day, close, 50);
        assert_eq!(candle.open, auction_open);
        assert_ne!(candle.open, previous_close);
        assert_eq!(candle.close, close);
        assert_eq!(candle.volume, 150);
        day += 1;
        previous_close = close;
    }
}

#[test]
fn first_auction_trade_replaces_provisional_previous_close_on_gap_down_days() {
    let mut day = 0u32;
    let mut previous_close = money(1_000);
    for auction_open_cents in [900, 800, 700] {
        let auction_open = money(auction_open_cents);
        let close = money(auction_open_cents - 20);
        let mut active = Some(update_active_daily_candle(None, day, previous_close, 0));
        active = Some(update_active_daily_candle(active, day, auction_open, 100));
        let candle = update_active_daily_candle(active, day, close, 50);
        assert!(candle.open.cents() < previous_close.cents());
        assert_eq!(candle.open, auction_open);
        assert_eq!(candle.high, auction_open);
        assert_eq!(candle.low, close);
        assert_eq!(candle.close, close);
        assert_eq!(candle.volume, 150);
        day += 1;
        previous_close = close;
    }
}

#[test]
fn the_session_day_runs_through_its_phases_in_order() {
    let phase = |tick: u64| trading_phase(tick, 100, 15, 10);
    assert_eq!(phase(0), TradingPhase::CallAuction);
    assert_eq!(phase(9), TradingPhase::CallAuction);
    assert_eq!(phase(10), TradingPhase::PreOpen);
    assert_eq!(phase(14), TradingPhase::PreOpen);
    assert_eq!(phase(15), TradingPhase::Continuous);
    assert_eq!(phase(89), TradingPhase::Continuous);
    assert_eq!(phase(90), TradingPhase::ClosingAuction);
    assert_eq!(phase(199), TradingPhase::ClosingAuction);
    assert_eq!(phase(200), TradingPhase::CallAuction);
}

#[test]
fn setup_timing_is_checked_in_order() {
    let cal = calendar();
    let check = |start: CivilDate, tpd: u64, auction: u64, closing: u64, history: usize, cash: i64| {
        validate_setup_timing(&cal, start, tpd, auction, closing, history, money(cash))
    };
    assert_eq!(check(date(2030, 1, 2), 100, 15, 10, 30, 1_000), Ok(()));
    assert_eq!(
        check(date(2031, 1, 2), 0, 15, 10, 30, 1_000),
        Err(SetupError::Calendar(CalendarError::StartOutsideRuntime { date: date(2031, 1, 2) }))
    );
    assert_eq!(check(date(2030, 1, 2), 0, 15, 10, 30, 1_000), Err(SetupError::ZeroTicksPerDay));
    assert_eq!(
        check(date(2030, 1, 2), 15, 15, 0, 30, 1_000),
        Err(SetupError::AuctionNotShorterThanDay { auction_ticks: 15, ticks_per_day: 15 })
    );
    assert_eq!(
        check(date(2030, 1, 2), 25, 15, 10, 30, 1_000),
        Err(SetupError::AuctionsNotShorterThanDay {
            auction_ticks: 15,
            closing_auction_ticks: 10,
            ticks_per_day: 25
        })
    );
    assert_eq!(
        check(date(2030, 1, 2), 100, 15, u64::MAX, 30, 1_000),
        Err(SetupError::AuctionsNotShorterThanDay {
            auction_ticks: 15,
            closing_auction_ticks: u64::MAX,
            ticks_per_day: 100
        })
    );
    assert_eq!(check(date(2030, 1, 2), 100, 15, 10, 0, 1_000), Err(SetupError::ZeroHistory));
    assert_eq!(check(date(2030, 1, 2), 100, 15, 10, 30, -1), Err(SetupError::NegativeRetailCash));
}

#[test]
fn strategy_order_sizes_must_be_whole_lots_for_kinds_present() {
    assert_eq!(
        validate_order_sizes(
            100,
            &vec![
                (AccountKind::Retail, false, 150),
                (AccountKind::Inst, true, 300),
                (AccountKind::Hot, true, 250)
            ]
        ),
        Err(SetupError::OrderSizeNotWholeLots {
            kind: AccountKind::Hot,
            quantity: 250,
            lot_size: 100
        })
    );
    assert_eq!(
        validate_order_sizes(100, &vec![(AccountKind::Retail, true, 200), (AccountKind::Inst, true, 1_000)]),
        Ok(())
    );
}

fn listing(text: &str, exchange: StockExchange, category: SecurityCategory) -> StockListing {
    StockListing {
        code: code(text),
        exchange,
        category,
        tick: money(1),
        total_shares: 1_000_000,
        float_shares: 500_000,
        limit_matches_category: true,
    }
}

#[test]
fn listed_stocks_must_be_consistent_with_their_codes() {
    let main = listing("600101", StockExchange::Shanghai, SecurityCategory::MainBoard);
    let growth = listing("300001", StockExchange::Shenzhen, SecurityCategory::ChiNext);
    assert_eq!(validate_stock_listings(&vec![main.clone(), growth.clone()]), Ok(()));
    assert_eq!(validate_stock_listings(&Vec::new()), Err(SetupError::NoStocks));
    assert_eq!(
        validate_stock_listings(&vec![main.clone(), growth.clone(), main.clone()]),
        Err(SetupError::DuplicateStock { code: code("600101") })
    );
    let mut coarse = main.clone();
    coarse.tick = money(10);
    assert_eq!(
        validate_stock_listings(&vec![coarse]),
        Err(SetupError::TickNotOneCent { code: code("600101") })
    );
    let mut empty = main.clone();
    empty.total_shares = 0;
    assert_eq!(
        validate_stock_listings(&vec![empty]),
        Err(SetupError::ZeroTotalShares { code: code("600101") })
    );
    let mut loose = main.clone();
    loose.float_shares = 2_000_000;
    assert_eq!(
        validate_stock_listings(&vec![loose]),
        Err(SetupError::FloatExceedsTotal {
            code: code("600101"),
            float_shares: 2_000_000,
            total_shares: 1_000_000
        })
    );
    let odd = listing("12345", StockExchange::Shanghai, SecurityCategory::MainBoard);
    assert_eq!(
        validate_stock_listings(&vec![odd]),
        Err(SetupError::InvalidCode(StockCodeError::NotSixDigits { code: code("12345") }))
    );
    let moved = listing("600101", StockExchange::Shenzhen, SecurityCategory::MainBoard);
    assert_eq!(
        validate_stock_listings(&vec![moved]),
        Err(SetupError::ExchangeMismatch {
            code: code("600101"),
            assigned: StockExchange::Shenzhen,
            inferred: StockExchange::Shanghai
        })
    );
    let misfiled = listing("300001", StockExchange::Shenzhen, SecurityCategory::MainBoard);
    assert_eq!(
        validate_stock_listings(&vec![misfiled]),
        Err(SetupError::CategoryMismatch {
            code: code("300001"),
            category: SecurityCategory::MainBoard
        })
    );
    let mut wide = growth.clone();
    wide.limit_matches_category = false;
    assert_eq!(
        validate_stock_listings(&vec![main, wide]),
        Err(SetupError::LimitMismatch {
            code: code("300001"),
            category: SecurityCategory::ChiNext
        })
    );
}

#[test]
fn listed_flow_scales_with_capital_and_the_code() {
    // FNV-1a("600101") % 6 == 5 (factor 6) and its 16-bit shift % 5 == 0.
    let flow = listed_flow_params(&StockCode("600101".to_owned()), 100_000_000);
    assert_eq!(
        flow,
        ListedFlowParams {
            base_daily_demand_units: 240_000,
            unit_price_excl_vat_cents: 4_000,
            receivable_credit_days: 5,
            raw_replenish_target_units: 1_200_000,
            raw_unit_cost_excl_vat_cents: 2_400,
            daily_production_units: 240_000,
            daily_conversion_cost_cents: 192_000_000,
            daily_admin_expense_cents: 24_000_000,
            bad_debt_base_bp: 500,
            asset_impairment_fraction_bp: 1_000,
        }
    );
    let other = listed_flow_params(&StockCode("002156".to_owned()), 100_000_000);
    assert_eq!(other.base_daily_demand_units, 160_000);
    assert_eq!(other.raw_unit_cost_excl_vat_cents, 2_600);
    // A small company still sells a hundred units a day.
    assert_eq!(listed_flow_params(&StockCode("600101".to_owned()), 1_000).base_daily_demand_units, 100);
}

#[test]
fn a_setup_needs_the_current_policy_and_t1_settlement() {
    let cal = calendar();
    let setup = SetupChecks {
        stocks: vec![listing("600101", StockExchange::Shanghai, SecurityCategory::MainBoard)],
        simulation_policy_id: "policy-v2".to_owned(),
        start_date: date(2030, 1, 2),
        ticks_per_day: 100,
        auction_ticks: 15,
        closing_auction_ticks: 10,
        history_len: 30,
        retail_cash_median: money(1_000),
        t1_enabled: true,
        lot_size: 100,
        order_sizes: vec![(AccountKind::Retail, true, 200)],
    };
    assert_eq!(validate_setup(&setup, &cal, "policy-v2"), Ok(()));
    assert_eq!(
        validate_setup(&setup, &cal, "policy-v3"),
        Err(SetupError::PolicyNotCurrent {
            policy_id: "policy-v2".to_owned()
        })
    );
    let mut same_day = setup.clone();
    same_day.t1_enabled = false;
    assert_eq!(validate_setup(&same_day, &cal, "policy-v2"), Err(SetupError::T1SettlementDisabled));
    // The session day is checked before settlement, and the policy before both.
    same_day.ticks_per_day = 0;
    assert_eq!(validate_setup(&same_day, &cal, "policy-v2"), Err(SetupError::ZeroTicksPerDay));
    assert_eq!(
        validate_setup(&same_day, &cal, "policy-v1"),
        Err(SetupError::PolicyNotCurrent {
            policy_id: "policy-v2".to_owned()
        })
    );
    let mut empty = setup.clone();
    empty.stocks.clear();
    empty.simulation_policy_id = "other".to_owned();
    assert_eq!(validate_setup(&empty, &cal, "policy-v2"), Err(SetupError::NoStocks));
}

#[test]
fn a_due_the_clock_refuses_stays_unmirrored_for_the_next_sync() {
    let mut clock = CivilClock::new(date(2030, 1, 1), calendar()).unwrap();
    let mut wiring = CompanyOperationsClockWiring::new();
    let pending = vec![
        ScheduledDue {
            id: 20,
            due_date: date(2030, 1, 4),
            action: ScheduledAction::InterestAccrual,
        },
        ScheduledDue {
            id: 21,
            due_date: date(2029, 12, 31),
            action: ScheduledAction::ContractMaturity,
        },
    ];
    assert!(wiring.sync(&mut clock, &pending).is_err());
    // The first item was registered and mirrored; the refused one was not.
    assert_eq!(wiring.mirrored_count(), 1);
    assert_eq!(clock.pending_due().len(), 1);
    assert_eq!(wiring.sync(&mut clock, &pending[..1].to_vec()), Ok(0));
}

#[test]
fn the_day_end_schedule_lists_each_company_year_and_kind_in_order() {
    let schedule = |kind: u8, year: i32, offset: u8| -> Result<CivilInstant, CivilDateError> {
        Ok(CivilInstant {
            date: CivilDate::from_ymd(year + 1, 3 + kind, 1 + offset)?,
            hour: 18,
            minute: 0,
            second: 0,
        })
    };
    let companies = vec![(CompanyId(1), 0u8), (CompanyId(2), 5u8)];
    let slots = scheduled_slots(&companies, 2, 2030, schedule).unwrap();
    let keys: Vec<(u64, i32, u8)> = slots.iter().map(|s| (s.company.0, s.fiscal_year, s.kind_index)).collect();
    assert_eq!(
        keys,
        vec![
            (1, 2029, 0),
            (1, 2029, 1),
            (1, 2030, 0),
            (1, 2030, 1),
            (2, 2029, 0),
            (2, 2029, 1),
            (2, 2030, 0),
            (2, 2030, 1),
        ]
    );
    assert_eq!(slots[5].instant.date, date(2030, 4, 6));
    // A kind the schedule cannot date stops the list with its error.
    let bad = scheduled_slots(&companies, 11, 2030, schedule);
    assert!(bad.is_err());
}
