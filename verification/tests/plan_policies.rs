use trade_engine::ids::{Money, OrderId, PlanId, Side, StockCode};
use trade_engine::plans::allocation::{
    allocate_soft_budgets, div_round_half_even, AllocationClass, AllocationConstraint,
    AllocationError, AllocationExperience, AllocationFunds, AllocationPolicy, AllocationRequest,
};
use trade_engine::plans::candidates::{normalized_score, CandidateError, SignalScore};
use trade_engine::plans::experience_read::{
    read_allocation_experience, ExperienceError, ExperienceHolding, ExperienceReadRequest,
};
use trade_engine::plans::quote_policy::{
    decide_quote, ActiveQuote, BookTop, QuoteAction, QuoteDecisionInputs, QuoteError, QuoteReason,
};
use trade_engine::plans::state::{PauseReason, Urgency};
use trade_engine::plans::targets::{
    eligible_candidates, target_position_weight_bp, target_share_quantity, QuantityRounding,
    TargetShareQuantity,
};
use trade_engine::plans::urgency::{
    assess_recovery, assess_urgency, PatienceStyle, PauseAssessment, RecoveryAssessment,
    RecoveryInputs, UrgencyError, UrgencyInputs, UrgencyPolicy, UrgencyReason,
};
use trade_engine::plans::validation::reverse_crosses_threshold;

fn money(cents: i64) -> Money {
    Money::from_cents(cents)
}

fn code(text: &str) -> StockCode {
    StockCode(text.to_owned())
}

#[test]
fn half_even_rounding_sends_ties_to_the_even_neighbour() {
    assert_eq!(div_round_half_even(5, 2), 2);
    assert_eq!(div_round_half_even(7, 2), 4);
    assert_eq!(div_round_half_even(-5, 2), -2);
    assert_eq!(div_round_half_even(-7, 2), -4);
    assert_eq!(div_round_half_even(10, 3), 3);
    assert_eq!(div_round_half_even(11, 3), 4);
    assert_eq!(div_round_half_even(-11, 3), -4);
}

#[test]
fn normalized_scores_are_clamped_and_need_a_positive_threshold() {
    assert_eq!(normalized_score(150, 300).unwrap().value(), 5_000);
    assert_eq!(normalized_score(900, 300).unwrap().value(), 10_000);
    assert_eq!(normalized_score(-900, 300).unwrap().value(), -10_000);
    assert_eq!(
        normalized_score(1, 0),
        Err(CandidateError::InvalidThreshold { threshold: 0 })
    );
}

#[test]
fn target_weight_moves_by_a_quarter_of_the_score_times_the_cap() {
    let score = SignalScore::new(4_000).unwrap();
    // 4000 * 2000 / 40000 = 200
    assert_eq!(target_position_weight_bp(500, score, 2_000), Ok(700));
    let strong = SignalScore::new(10_000).unwrap();
    assert_eq!(target_position_weight_bp(1_900, strong, 2_000), Ok(2_000));
    let negative = SignalScore::new(-10_000).unwrap();
    assert_eq!(target_position_weight_bp(100, negative, 2_000), Ok(0));
    assert_eq!(
        target_position_weight_bp(10_001, score, 2_000),
        Err(CandidateError::InvalidPositionFraction { value: 10_001 })
    );
    assert_eq!(
        target_position_weight_bp(0, score, 10_001),
        Err(CandidateError::InvalidPositionFraction { value: 10_001 })
    );
}

#[test]
fn target_quantity_rounds_down_to_the_board_lot() {
    // 10% of 1,000,000.00 yuan at 12.34 yuan: 10,000,000 / 1,234 = 8,103 shares.
    assert_eq!(
        target_share_quantity(1_000, money(100_000_000), money(1_234), 100),
        Ok(TargetShareQuantity {
            target_qty: 8_100,
            rounding: QuantityRounding::BoardLotDown { raw_qty: 8_103 },
        })
    );
    assert_eq!(
        target_share_quantity(1_000, money(100_000_000), money(1_000), 100),
        Ok(TargetShareQuantity {
            target_qty: 10_000,
            rounding: QuantityRounding::Exact,
        })
    );
    assert_eq!(
        target_share_quantity(1_000, money(0), money(1_000), 100),
        Err(CandidateError::NonPositiveMoney {
            field: "account equity",
            cents: 0
        })
    );
    assert_eq!(
        target_share_quantity(1_000, money(100), money(-1), 100),
        Err(CandidateError::NonPositiveMoney {
            field: "stock price",
            cents: -1
        })
    );
    assert_eq!(
        target_share_quantity(1_000, money(100), money(1), 200),
        Err(CandidateError::InvalidBoardLotSize { lot_size: 200 })
    );
    assert_eq!(
        target_share_quantity(10_000, money(i64::MAX), money(1), 100),
        Err(CandidateError::ArithmeticOverflow {
            step: "target share quantity"
        })
    );
}

#[test]
fn eligible_candidates_are_the_union_in_code_order() {
    let held = vec![code("600101"), code("000812")];
    let watchlist = vec![code("300260"), code("600101")];
    let discovered = vec![code("002156"), code("000812")];
    assert_eq!(
        eligible_candidates(&held, &watchlist, &discovered),
        vec![code("000812"), code("002156"), code("300260"), code("600101")]
    );
}

#[test]
fn experience_read_reports_drawdown_from_the_peak() {
    let request = ExperienceReadRequest {
        failure_influence: Ok(2),
        equity: money(750_000),
        holding: Some(ExperienceHolding {
            code: code("600101"),
            cost: money(1_000),
            long_stuck: Ok(true),
        }),
        drawdown_observed: true,
        peak_equity: Some(money(1_000_000)),
    };
    let read = read_allocation_experience(&request).unwrap();
    assert_eq!(read.failure_influence, 2);
    assert!(read.long_stuck);
    assert_eq!(read.drawdown_bp, Some(2_500));

    let refused = ExperienceReadRequest {
        failure_influence: Err(ExperienceError {
            reason: "state not initialised".to_owned(),
        }),
        equity: money(1),
        holding: None,
        drawdown_observed: false,
        peak_equity: None,
    };
    assert_eq!(
        read_allocation_experience(&refused),
        Err(ExperienceError {
            reason: "state not initialised".to_owned()
        })
    );
}

fn urgency_inputs() -> UrgencyInputs {
    UrgencyInputs {
        side: Side::Buy,
        return_30min_bp: Some(-100),
        return_1min_bp: Some(-10),
        risk_pressure_pause: false,
        adverse_selection_pause: false,
        risk_reduction_active: false,
        account_drawdown_bp: None,
        remaining_trading_days: 5,
        confidence_bp: 6_000,
        style: PatienceStyle::Other,
    }
}

#[test]
fn urgency_follows_its_precedence() {
    let policy = UrgencyPolicy::default_policy();
    let normal = assess_urgency(&urgency_inputs(), &policy).unwrap();
    assert_eq!(normal.urgency, Urgency::Normal);
    assert_eq!(normal.reason, UrgencyReason::DefaultNormal);
    assert_eq!(normal.pause, PauseAssessment::Clear);

    let deadline = assess_urgency(
        &UrgencyInputs {
            remaining_trading_days: 1,
            ..urgency_inputs()
        },
        &policy,
    )
    .unwrap();
    assert_eq!(deadline.reason, UrgencyReason::HorizonDeadline);

    let drawdown = assess_urgency(
        &UrgencyInputs {
            risk_reduction_active: true,
            account_drawdown_bp: Some(2_000),
            remaining_trading_days: 1,
            ..urgency_inputs()
        },
        &policy,
    )
    .unwrap();
    assert_eq!(drawdown.urgency, Urgency::Urgent);
    assert_eq!(drawdown.reason, UrgencyReason::RiskReductionDrawdown);

    let low = assess_urgency(
        &UrgencyInputs {
            confidence_bp: 3_999,
            ..urgency_inputs()
        },
        &policy,
    )
    .unwrap();
    assert_eq!(low.urgency, Urgency::Patient);
    assert_eq!(low.reason, UrgencyReason::LowConfidence);
}

#[test]
fn an_accelerating_drop_pauses_a_buyer() {
    let policy = UrgencyPolicy::default_policy();
    let falling = assess_urgency(
        &UrgencyInputs {
            return_30min_bp: Some(-300),
            return_1min_bp: Some(-75),
            ..urgency_inputs()
        },
        &policy,
    )
    .unwrap();
    assert_eq!(
        falling.pause,
        PauseAssessment::PauseAndRequestCancel(PauseReason::IntradayDropAcceleration)
    );
    assert!(falling.pause.is_pause_requested());
}

#[test]
fn urgency_inputs_out_of_range_are_refused() {
    let policy = UrgencyPolicy::default_policy();
    assert_eq!(
        assess_urgency(
            &UrgencyInputs {
                confidence_bp: 10_001,
                ..urgency_inputs()
            },
            &policy
        ),
        Err(UrgencyError::InvalidInput {
            field: "confidence_bp",
            value: 10_001
        })
    );
}

#[test]
fn recovery_resumes_only_on_a_clear_own_observation_with_a_strong_signal() {
    let policy = UrgencyPolicy::default_policy();
    let inputs = |next: bool, pause: PauseAssessment, score: i32| RecoveryInputs {
        is_next_own_observation: next,
        pause,
        signal_score_bp: score,
    };
    assert_eq!(
        assess_recovery(&inputs(false, PauseAssessment::Clear, 5_000), &policy),
        Ok(RecoveryAssessment::WaitForOwnObservation)
    );
    assert_eq!(
        assess_recovery(&inputs(true, PauseAssessment::Clear, 2_000), &policy),
        Ok(RecoveryAssessment::Resume)
    );
    assert_eq!(
        assess_recovery(&inputs(true, PauseAssessment::Clear, 1_999), &policy),
        Ok(RecoveryAssessment::ReviseOrTerminate)
    );
    assert_eq!(
        assess_recovery(
            &inputs(
                true,
                PauseAssessment::PauseAndRequestCancel(PauseReason::RiskPressure),
                9_000
            ),
            &policy
        ),
        Ok(RecoveryAssessment::RemainPaused)
    );
}

fn quote_inputs() -> QuoteDecisionInputs {
    QuoteDecisionInputs {
        side: Side::Buy,
        urgency: Urgency::Normal,
        pause: PauseAssessment::Clear,
        book: BookTop {
            best_bid: Some(money(1_000)),
            best_ask: Some(money(1_010)),
        },
        protection_limit: money(1_050),
        band_down: money(900),
        band_up: money(1_100),
        tick: money(1),
        cage_bound: None,
        desired_qty: 200,
        lot_size: 100,
        max_order_qty: 1_000_000,
        available_sell_qty: 0,
        active_order: None,
        cancellable_now: true,
    }
}

#[test]
fn a_normal_buyer_probes_the_opposite_quote() {
    let decision = decide_quote(&quote_inputs()).unwrap();
    assert_eq!(
        decision.action,
        QuoteAction::Submit {
            price: money(1_010),
            qty: 200
        }
    );
    assert_eq!(decision.reason, QuoteReason::OppositeQuoteProbe);
}

#[test]
fn a_quote_is_capped_by_the_protection_limit_and_kept_when_unchanged() {
    let inputs = QuoteDecisionInputs {
        urgency: Urgency::Urgent,
        protection_limit: money(1_020),
        active_order: Some(ActiveQuote {
            order_id: OrderId(9),
            price: money(1_020),
            qty: 200,
        }),
        ..quote_inputs()
    };
    let decision = decide_quote(&inputs).unwrap();
    assert_eq!(decision.action, QuoteAction::Keep { order_id: OrderId(9) });
    assert_eq!(decision.reason, QuoteReason::ExistingQuoteMatches);
}

#[test]
fn a_paused_plan_cancels_its_quote_when_it_may() {
    let inputs = QuoteDecisionInputs {
        pause: PauseAssessment::PauseAndRequestCancel(PauseReason::RiskPressure),
        active_order: Some(ActiveQuote {
            order_id: OrderId(3),
            price: money(1_000),
            qty: 200,
        }),
        ..quote_inputs()
    };
    let decision = decide_quote(&inputs).unwrap();
    assert_eq!(decision.action, QuoteAction::Cancel { order_id: OrderId(3) });
    assert_eq!(decision.reason, QuoteReason::PauseRequested);
}

#[test]
fn an_empty_book_waits() {
    let inputs = QuoteDecisionInputs {
        book: BookTop {
            best_bid: None,
            best_ask: None,
        },
        ..quote_inputs()
    };
    let decision = decide_quote(&inputs).unwrap();
    assert_eq!(decision.action, QuoteAction::Wait);
    assert_eq!(decision.reason, QuoteReason::EmptyBook);
}

#[test]
fn quotes_violating_router_guards_are_refused() {
    assert_eq!(
        decide_quote(&QuoteDecisionInputs {
            tick: money(0),
            ..quote_inputs()
        }),
        Err(QuoteError::InvalidGuardrail {
            field: "tick",
            cents: 0
        })
    );
    assert_eq!(
        decide_quote(&QuoteDecisionInputs {
            band_up: money(1_005),
            ..quote_inputs()
        }),
        Err(QuoteError::OutsidePriceBand {
            price: money(1_010),
            band_down: money(900),
            band_up: money(1_005)
        })
    );
    assert_eq!(
        decide_quote(&QuoteDecisionInputs {
            desired_qty: 150,
            ..quote_inputs()
        }),
        Err(QuoteError::InvalidQuantity { qty: 150 })
    );
}

fn buy_request(plan: u64, class: AllocationClass, confidence: u32, cash: i64) -> AllocationRequest {
    AllocationRequest {
        plan_id: PlanId(plan),
        code: code("600101"),
        side: Side::Buy,
        class,
        confidence_bp: confidence,
        requested_cash: money(cash),
        fee_reserve: money(5),
        requested_sell_qty: 0,
        sellable_qty: 0,
        experience: AllocationExperience::default(),
    }
}

#[test]
fn budgets_serve_priority_first_and_keep_the_cash_reserve() {
    let funds = AllocationFunds {
        cash: money(10_000),
        frozen_cash: money(0),
        equity: money(10_000),
    };
    let requests = vec![
        buy_request(1, AllocationClass::NewOpportunity, 9_000, 6_000),
        buy_request(2, AllocationClass::ExistingPlan, 5_000, 6_000),
    ];
    let result =
        allocate_soft_budgets(&funds, &requests, &AllocationPolicy::default_policy()).unwrap();
    assert_eq!(result.available_cash, money(10_000));
    assert_eq!(result.cash_reserve, money(1_000));
    assert_eq!(result.grants[0].plan_id, PlanId(2));
    assert_eq!(result.grants[0].allocated_cash, money(6_005));
    assert_eq!(result.grants[0].constraint, None);
    assert_eq!(result.grants[1].plan_id, PlanId(1));
    assert_eq!(result.grants[1].allocated_cash, money(2_995));
    assert_eq!(
        result.grants[1].constraint,
        Some(AllocationConstraint::InsufficientAvailableCash)
    );
    assert_eq!(result.total_allocated, money(9_000));
}

#[test]
fn duplicate_plan_requests_are_refused() {
    let funds = AllocationFunds {
        cash: money(10_000),
        frozen_cash: money(0),
        equity: money(10_000),
    };
    let requests = vec![
        buy_request(1, AllocationClass::NewOpportunity, 9_000, 100),
        buy_request(1, AllocationClass::NewOpportunity, 9_000, 100),
    ];
    assert_eq!(
        allocate_soft_budgets(&funds, &requests, &AllocationPolicy::default_policy()),
        Err(AllocationError::DuplicatePlanRequest { plan_id: PlanId(1) })
    );
}

#[test]
fn a_reversal_needs_a_score_beyond_the_threshold_in_the_new_direction() {
    assert!(reverse_crosses_threshold(Side::Buy, Side::Sell, -3_000, 3_000));
    assert!(!reverse_crosses_threshold(Side::Buy, Side::Sell, -2_999, 3_000));
    assert!(reverse_crosses_threshold(Side::Sell, Side::Buy, 3_000, 3_000));
}
