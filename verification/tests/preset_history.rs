use trade_engine::ids::Money;
use trade_engine::session::preset_candles::generate_preset_daily_candles;

fn money(cents: i64) -> Money {
    Money::from_cents(cents)
}

#[test]
fn preset_history_is_a_deterministic_walk_of_a_year() {
    let history = generate_preset_daily_candles(42, 7, money(1), money(1_000), 1_000, 1_000_000);
    let days = history.candles();
    assert_eq!(days.len(), 360);
    let oldest = days[0];
    assert_eq!(oldest.time, -360 * 86_400);
    assert_eq!(
        (oldest.open, oldest.high, oldest.low, oldest.close, oldest.volume),
        (money(1_371), money(1_374), money(1_328), money(1_331), 860)
    );
    let newest = days[359];
    assert_eq!(newest.time, -86_400);
    assert_eq!(
        (newest.open, newest.high, newest.low, newest.close, newest.volume),
        (money(1_038), money(1_044), money(987), money(1_000), 833)
    );
    assert!(days.iter().all(|d| d.trade_stats.is_none()));
    assert!(days.windows(2).all(|w| w[0].time + 86_400 == w[1].time));

    let again = generate_preset_daily_candles(42, 7, money(1), money(1_000), 1_000, 1_000_000);
    assert_eq!(again.candles(), history.candles());
}

#[test]
fn preset_prices_stay_on_the_tick_grid_after_the_first_close() {
    let history = generate_preset_daily_candles(5, 0, money(10), money(1_003), 1_000, 0);
    let days = history.candles();
    assert_eq!(
        (days[0].open, days[0].high, days[0].low, days[0].close, days[0].volume),
        (money(1_040), money(1_080), money(1_040), money(1_080), 88)
    );
    assert_eq!(
        (days[359].open, days[359].high, days[359].low, days[359].close, days[359].volume),
        (money(1_000), money(1_010), money(980), money(1_003), 161)
    );
    assert!(days[..359].iter().all(|d| d.close.cents() % 10 == 0));
    assert!(days.iter().all(|d| d.open.cents() % 10 == 0 && d.low.cents() >= 10));
}
