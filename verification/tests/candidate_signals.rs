use trade_engine::ids::Money;
use trade_engine::plans::candidates::{
    CandidateError, PerShareValuation, RelativeStrengthIndex, SignalContribution,
    SignalUnavailableReason, SimpleMovingAverage, TechnicalError, ValuationOutcome,
};
use trade_engine::session::decision_chain::{
    build_candidate_signals, SignalReadings, TechnicalReadings,
};

fn score(c: &SignalContribution) -> Option<i32> {
    c.score.map(|s| s.value())
}

fn readings(technical: Option<TechnicalReadings>) -> SignalReadings {
    SignalReadings {
        thirty_minute_return_bp: Some(150),
        five_day_return_bp: Some(500),
        relative_volume_bp: Some(15_000),
        order_book_imbalance_bp: Some(2_000),
        technical,
    }
}

fn sma(cents: i64) -> Result<SimpleMovingAverage, TechnicalError> {
    Ok(SimpleMovingAverage {
        average: Money::from_cents(cents),
    })
}

#[test]
fn market_readings_feed_trend_and_price_volume_without_a_belief() {
    let signals = build_candidate_signals(Money::from_cents(1_000), None, &readings(None)).unwrap();
    // 150/300 and 500/1000 are both half strength.
    assert_eq!(score(&signals.trend), Some(5_000));
    // Volume 1.5x normal signed by the rising return (5000) and imbalance 2000, equally weighted.
    assert_eq!(score(&signals.price_volume), Some(3_500));
    assert_eq!(score(&signals.fundamental), None);
    assert_eq!(
        signals.fundamental.unavailable_atoms,
        vec![SignalUnavailableReason::FundamentalUnavailable]
    );
    assert_eq!(score(&signals.technical), None);
    assert_eq!(
        signals.technical.unavailable_atoms,
        vec![SignalUnavailableReason::MissingSma20, SignalUnavailableReason::MissingRsi14]
    );
    assert_eq!(
        signals.experience.unavailable_atoms,
        vec![SignalUnavailableReason::MissingObservation]
    );
}

#[test]
fn a_valuation_and_indicators_complete_the_families() {
    let valuation = ValuationOutcome::Available {
        per_share: PerShareValuation {
            pessimistic: Money::from_cents(1_050),
            optimistic: Money::from_cents(1_150),
        },
    };
    let technical = TechnicalReadings {
        sma20: sma(1_050),
        sma60: sma(1_000),
        rsi14: Ok(RelativeStrengthIndex { value: 30 }),
    };
    let signals =
        build_candidate_signals(Money::from_cents(1_000), Some(valuation), &readings(Some(technical)))
            .unwrap();
    // Midpoint 11 yuan is 1000 bp above the price: half of the 2000 bp scale.
    assert_eq!(score(&signals.fundamental), Some(5_000));
    // SMA20 500 bp above SMA60 and RSI 20 below 50 are both full strength.
    assert_eq!(score(&signals.technical), Some(10_000));
}

#[test]
fn a_bad_valuation_fails_before_a_bad_indicator() {
    let inverted = ValuationOutcome::Available {
        per_share: PerShareValuation {
            pessimistic: Money::from_cents(1_200),
            optimistic: Money::from_cents(1_100),
        },
    };
    let broken = TechnicalReadings {
        sma20: sma(1_050),
        sma60: sma(0),
        rsi14: Err(TechnicalError::InsufficientHistory),
    };
    assert_eq!(
        build_candidate_signals(Money::from_cents(1_000), Some(inverted), &readings(Some(broken))),
        Err(CandidateError::InvertedValuationRange {
            low_cents: 1_200,
            high_cents: 1_100
        })
    );
    assert_eq!(
        build_candidate_signals(Money::from_cents(1_000), None, &readings(Some(broken))),
        Err(CandidateError::NonPositiveMoney {
            field: "SMA60",
            cents: 0
        })
    );
}
