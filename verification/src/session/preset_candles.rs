//! The synthetic daily history that a new session starts with, one stock at a
//! time: a random walk of 360 days drawn from the stock's own stream (so that
//! it leaves the session's generator untouched), kept between a third and
//! three times the initial price, on the tick grid. Each day draws, in order,
//! the body of the candle, its upper and lower wicks, its volume and the gap
//! to the next day.
use vstd::prelude::*;

use super::market::{
    quantize_cents, random_signed, spec_quantize_cents, splitmix_advance, splitmix_output, DailyCandle,
    DailyCandleHistory, SplitMix64, SECONDS_PER_DAY,
};
use crate::ids::Money;
use crate::rounding::tdiv;

verus! {

/// The number of days of preset history.
pub const PRESET_HISTORY_DAYS: usize = 360;

/// Mixed into the seed of each stock's preset stream.
pub const PRESET_STREAM_SALT: u64 = 0xD1A1_C4AD_1E50_0360;

/// `x` saturated to the range of `i64`.
pub open spec fn sat_i64(x: int) -> int {
    if x > i64::MAX {
        i64::MAX as int
    } else if x < i64::MIN {
        i64::MIN as int
    } else {
        x
    }
}

pub open spec fn max_i(a: int, b: int) -> int {
    if a >= b {
        a
    } else {
        b
    }
}

pub open spec fn min_i(a: int, b: int) -> int {
    if a <= b {
        a
    } else {
        b
    }
}

/// `x` clamped to `lo..=hi`.
pub open spec fn clamp_i(x: int, lo: int, hi: int) -> int {
    if x < lo {
        lo
    } else if x > hi {
        hi
    } else {
        x
    }
}

/// A signed draw of at most `radius` (at least one) either way from `out`.
pub open spec fn signed_draw(out: u64, radius: int) -> int {
    let rad = max_i(radius, 1);
    (out as int) % (2 * rad + 1) - rad
}

/// The fixed inputs of one stock's preset walk.
pub struct PresetShape {
    pub tick: int,
    pub limit_bps: int,
    pub lowest: int,
    pub highest: int,
    pub base_volume: int,
}

/// One day of the walk from generator state `rng` and previous close
/// `close`, `recency` days before the start: the day's candle, and the
/// generator state and close that the day before it starts from.
pub open spec fn preset_step(rng: u64, close: int, recency: int, shape: PresetShape) -> (DailyCandle, u64, int) {
    let tick = shape.tick;
    let r1 = splitmix_advance(rng);
    let body_radius = max_i(tdiv(sat_i64(close * shape.limit_bps), 20_000), tick);
    let body_delta = signed_draw(splitmix_output(r1), tdiv(body_radius, tick)) * tick;
    let open = spec_quantize_cents(clamp_i(sat_i64(close - body_delta), shape.lowest, shape.highest), tick);
    let wick_radius = max_i(tdiv(sat_i64(close * shape.limit_bps), 50_000), tick);
    let r2 = splitmix_advance(r1);
    let upper = ((splitmix_output(r2) as int) % (tdiv(wick_radius, tick) + 1)) * tick;
    let r3 = splitmix_advance(r2);
    let lower = ((splitmix_output(r3) as int) % (tdiv(wick_radius, tick) + 1)) * tick;
    let high = spec_quantize_cents(min_i(sat_i64(max_i(open, close) + upper), shape.highest), tick);
    let low = spec_quantize_cents(max_i(sat_i64(min_i(open, close) - lower), tick), tick);
    let r4 = splitmix_advance(r3);
    let volume = shape.base_volume + (splitmix_output(r4) as int) % max_i(shape.base_volume * 5, 1);
    let gap_radius = max_i(tdiv(sat_i64(open * shape.limit_bps), 80_000), tick);
    let r5 = splitmix_advance(r4);
    let gap_delta = signed_draw(splitmix_output(r5), tdiv(gap_radius, tick)) * tick;
    let next_close = spec_quantize_cents(clamp_i(sat_i64(open - gap_delta), shape.lowest, shape.highest), tick);
    (
        DailyCandle {
            time: (-(recency + 1) * SECONDS_PER_DAY) as i64,
            open: Money { cents: open as i64 },
            high: Money { cents: high as i64 },
            low: Money { cents: low as i64 },
            close: Money { cents: close as i64 },
            volume: volume as u64,
            trade_stats: None,
        },
        r5,
        next_close,
    )
}

/// The generator state and close after `k` days of the walk.
pub open spec fn preset_state(seed: u64, anchor: int, shape: PresetShape, k: nat) -> (u64, int)
    decreases k,
{
    if k == 0 {
        (seed, anchor)
    } else {
        let (rng, close) = preset_state(seed, anchor, shape, (k - 1) as nat);
        let step = preset_step(rng, close, k - 1, shape);
        (step.1, step.2)
    }
}

/// The candle of the day `k` days before the start.
pub open spec fn preset_candle(seed: u64, anchor: int, shape: PresetShape, k: nat) -> DailyCandle {
    let (rng, close) = preset_state(seed, anchor, shape, k);
    preset_step(rng, close, k as int, shape).0
}

/// The shape of a stock's walk: the tick (at least a cent), the bounds of a
/// third and three times the anchor price, and the base volume.
pub open spec fn preset_shape(tick_cents: int, anchor: int, limit_bps: int, float_shares: int) -> PresetShape {
    PresetShape {
        tick: tick_cents,
        limit_bps,
        lowest: spec_quantize_cents(max_i(anchor / 3, tick_cents), tick_cents),
        highest: spec_quantize_cents(sat_i64(anchor * 3), tick_cents),
        base_volume: max_i(float_shares, 100_000) / 1_250,
    }
}

/// The preset history of one stock, oldest day first.
pub open spec fn spec_preset_history(
    seed: u64,
    code_hash: u64,
    tick: Money,
    initial_price: Money,
    limit_bps: i64,
    float_shares: u32,
) -> Seq<DailyCandle> {
    let tick_cents = max_i(tick.cents as int, 1);
    let anchor = max_i(initial_price.cents as int, tick_cents);
    let shape = preset_shape(tick_cents, anchor, limit_bps as int, float_shares as int);
    Seq::new(
        PRESET_HISTORY_DAYS as nat,
        |j: int| preset_candle(seed ^ code_hash ^ PRESET_STREAM_SALT, anchor, shape, (PRESET_HISTORY_DAYS - 1 - j) as nat),
    )
}

proof fn lemma_quantize_monotone(a: int, b: int, t: int)
    requires
        0 <= a <= b,
        0 < t,
    ensures
        spec_quantize_cents(a, t) <= spec_quantize_cents(b, t),
{
    let sa = if a + t / 2 > i64::MAX {
        i64::MAX as int
    } else {
        a + t / 2
    };
    let sb = if b + t / 2 > i64::MAX {
        i64::MAX as int
    } else {
        b + t / 2
    };
    assert(0 <= sa <= sb);
    vstd::arithmetic::div_mod::lemma_div_is_ordered(sa, sb, t);
    let qa = sa / t;
    let qb = sb / t;
    let ma = if qa < 1 {
        1
    } else {
        qa
    };
    let mb = if qb < 1 {
        1
    } else {
        qb
    };
    assert(ma <= mb);
    assert(ma * t <= mb * t) by (nonlinear_arith)
        requires
            ma <= mb,
            t > 0,
    ;
}

proof fn lemma_quantize_at_least_tick(a: int, t: int)
    requires
        0 < t,
    ensures
        spec_quantize_cents(a, t) >= t,
{
    let s = if a + t / 2 > i64::MAX {
        i64::MAX as int
    } else {
        a + t / 2
    };
    let q = tdiv(s, t);
    let m = if q < 1 {
        1
    } else {
        q
    };
    assert(m * t >= t) by (nonlinear_arith)
        requires
            m >= 1,
            t > 0,
    ;
}

fn sat_mul(a: i64, b: i64) -> (r: i64)
    ensures
        r == sat_i64(a * b),
{
    assert(-0x4000_0000_0000_0000_0000_0000_0000_0000 <= (a as i128) * (b as i128)
        <= 0x4000_0000_0000_0000_0000_0000_0000_0000) by (nonlinear_arith)
        requires
            i64::MIN <= a <= i64::MAX,
            i64::MIN <= b <= i64::MAX,
    ;
    let wide = (a as i128) * (b as i128);
    if wide > i64::MAX as i128 {
        i64::MAX
    } else if wide < i64::MIN as i128 {
        i64::MIN
    } else {
        wide as i64
    }
}

fn sat_add(a: i64, b: i64) -> (r: i64)
    ensures
        r == sat_i64(a + b),
{
    let wide = (a as i128) + (b as i128);
    if wide > i64::MAX as i128 {
        i64::MAX
    } else if wide < i64::MIN as i128 {
        i64::MIN
    } else {
        wide as i64
    }
}

fn sat_sub(a: i64, b: i64) -> (r: i64)
    ensures
        r == sat_i64(a - b),
{
    let wide = (a as i128) - (b as i128);
    if wide > i64::MAX as i128 {
        i64::MAX
    } else if wide < i64::MIN as i128 {
        i64::MIN
    } else {
        wide as i64
    }
}

fn clamp(x: i64, lo: i64, hi: i64) -> (r: i64)
    requires
        lo <= hi,
    ensures
        r == clamp_i(x as int, lo as int, hi as int),
{
    if x < lo {
        lo
    } else if x > hi {
        hi
    } else {
        x
    }
}

/// The scaled radius `value * limit_bps / divisor`, at least one tick.
fn radius(value: i64, limit_bps: i64, divisor: i64, tick: i64) -> (r: i64)
    requires
        divisor >= 20_000,
        tick > 0,
    ensures
        r == max_i(tdiv(sat_i64(value * limit_bps), divisor as int), tick as int),
        tick <= r,
        r == tick || r <= i64::MAX / 20_000,
{
    let scaled = sat_mul(value, limit_bps) / divisor;
    proof {
        let s = sat_i64(value * limit_bps);
        if s >= 0 {
            assert(s / (divisor as int) <= i64::MAX / 20_000) by (nonlinear_arith)
                requires
                    0 <= s <= i64::MAX,
                    divisor >= 20_000,
            {
                vstd::arithmetic::div_mod::lemma_div_is_ordered_by_denominator(s, 20_000, divisor as int);
                vstd::arithmetic::div_mod::lemma_div_is_ordered(s, i64::MAX as int, 20_000);
            }
        }
    }
    if scaled >= tick {
        scaled
    } else {
        tick
    }
}

/// A signed whole number of ticks within `radius`.
fn signed_ticks(rng: &mut SplitMix64, radius: i64, tick: i64) -> (r: i64)
    requires
        tick > 0,
        tick <= radius,
        radius == tick || radius <= i64::MAX / 20_000,
    ensures
        final(rng)@ == splitmix_advance(old(rng)@),
        r == signed_draw(splitmix_output(final(rng)@), tdiv(radius as int, tick as int)) * tick,
{
    let ticks = radius / tick;
    proof {
        assert(ticks <= radius) by (nonlinear_arith)
            requires
                ticks == radius / tick,
                tick >= 1,
                radius >= 0,
        ;
        assert(ticks >= 1) by (nonlinear_arith)
            requires
                ticks == radius / tick,
                tick >= 1,
                radius >= tick,
        {
            vstd::arithmetic::div_mod::lemma_div_is_ordered(tick as int, radius as int, tick as int);
            vstd::arithmetic::div_mod::lemma_div_basics(tick as int);
        }
    }
    assert(ticks < 0x4000_0000_0000_0000) by {
        if radius != tick {
            assert(radius <= i64::MAX / 20_000);
        } else {
            assert(ticks == 1) by (nonlinear_arith)
                requires
                    ticks == radius / tick,
                    radius == tick,
                    tick >= 1,
            ;
        }
    }
    let d = random_signed(rng, ticks);
    proof {
        let rad: int = max_i(ticks as int, 1);
        let out = splitmix_output(rng@);
        assert(-rad <= d <= rad) by (nonlinear_arith)
            requires
                d == (out as int) % (2 * rad + 1) - rad,
                rad >= 1,
        ;
        assert(rad * tick <= radius) by (nonlinear_arith)
            requires
                rad == ticks,
                ticks == radius / tick,
                tick >= 1,
                radius >= 0,
        {
            vstd::arithmetic::div_mod::lemma_fundamental_div_mod(radius as int, tick as int);
        }
        assert(-radius <= d * tick <= radius) by (nonlinear_arith)
            requires
                -rad <= d <= rad,
                rad * tick <= radius,
                tick >= 1,
        ;
    }
    d * tick
}

/// A draw of whole ticks from zero to `radius`.
fn wick_ticks(rng: &mut SplitMix64, radius: i64, tick: i64) -> (r: i64)
    requires
        tick > 0,
        tick <= radius,
    ensures
        final(rng)@ == splitmix_advance(old(rng)@),
        r == ((splitmix_output(final(rng)@) as int) % (tdiv(radius as int, tick as int) + 1)) * tick,
        0 <= r <= radius,
{
    let ticks = radius / tick;
    let width = (ticks as u64) + 1;
    let draw = rng.next_u64() % width;
    proof {
        assert(draw <= ticks);
        assert(draw * tick <= radius) by (nonlinear_arith)
            requires
                draw <= ticks,
                ticks == radius / tick,
                tick >= 1,
                radius >= 0,
        {
            vstd::arithmetic::div_mod::lemma_fundamental_div_mod(radius as int, tick as int);
        }
    }
    (draw as i64) * tick
}

/// The synthetic history that a new session gives one stock, oldest day
/// first (see [`spec_preset_history`]); `code_hash` is the stock's seed
/// component and `limit_bps` its daily price limit in basis points.
pub fn generate_preset_daily_candles(
    seed: u64,
    code_hash: u64,
    tick: Money,
    initial_price: Money,
    limit_bps: i64,
    float_shares: u32,
) -> (h: DailyCandleHistory)
    requires
        limit_bps >= 1,
    ensures
        h.wf(),
        h.days() == spec_preset_history(seed, code_hash, tick, initial_price, limit_bps, float_shares),
{
    let ghost stream = seed ^ code_hash ^ PRESET_STREAM_SALT;
    let mut rng = SplitMix64::new(seed ^ code_hash ^ PRESET_STREAM_SALT);
    let tick_c: i64 = if tick.cents >= 1 {
        tick.cents
    } else {
        1
    };
    let anchor: i64 = if initial_price.cents >= tick_c {
        initial_price.cents
    } else {
        tick_c
    };
    let lowest = quantize_cents(if anchor / 3 >= tick_c {
        anchor / 3
    } else {
        tick_c
    }, tick_c);
    let highest = quantize_cents(sat_mul(anchor, 3), tick_c);
    proof {
        let a3 = max_i(anchor as int / 3, tick_c as int);
        assert(a3 <= sat_i64(anchor * 3));
        lemma_quantize_monotone(a3, sat_i64(anchor * 3), tick_c as int);
    }
    let base_volume: u64 = (if float_shares >= 100_000 {
        float_shares
    } else {
        100_000
    } as u64) / 1_250;
    let ghost shape = preset_shape(tick_c as int, anchor as int, limit_bps as int, float_shares as int);
    let mut close = anchor;
    let mut newest_first: Vec<DailyCandle> = Vec::new();
    let mut recency: usize = 0;
    while recency < PRESET_HISTORY_DAYS
        invariant
            0 <= recency <= PRESET_HISTORY_DAYS,
            tick_c >= 1,
            limit_bps >= 1,
            lowest <= highest,
            lowest == shape.lowest,
            highest == shape.highest,
            shape == preset_shape(tick_c as int, anchor as int, limit_bps as int, float_shares as int),
            base_volume == shape.base_volume,
            base_volume <= 0xffff_ffffu64 / 1_250,
            shape.tick == tick_c,
            shape.limit_bps == limit_bps,
            close >= tick_c,
            (rng@, close as int) == preset_state(stream, anchor as int, shape, recency as nat),
            newest_first@.len() == recency,
            forall|k: int| 0 <= k < recency ==> newest_first@[k] == preset_candle(stream, anchor as int, shape, k as nat),
        decreases PRESET_HISTORY_DAYS - recency,
    {
        let ghost rng0 = rng@;
        let body_radius = radius(close, limit_bps, 20_000, tick_c);
        let body_delta = signed_ticks(&mut rng, body_radius, tick_c);
        let open = quantize_cents(clamp(sat_sub(close, body_delta), lowest, highest), tick_c);
        proof {
            lemma_quantize_at_least_tick(clamp_i(sat_i64(close - body_delta), lowest as int, highest as int), tick_c as int);
        }
        let wick_radius = radius(close, limit_bps, 50_000, tick_c);
        let upper = wick_ticks(&mut rng, wick_radius, tick_c);
        let lower = wick_ticks(&mut rng, wick_radius, tick_c);
        let top = if open >= close {
            open
        } else {
            close
        };
        let bottom = if open <= close {
            open
        } else {
            close
        };
        let raised = sat_add(top, upper);
        let high = quantize_cents(if raised <= highest {
            raised
        } else {
            highest
        }, tick_c);
        let lowered = sat_sub(bottom, lower);
        let low = quantize_cents(if lowered >= tick_c {
            lowered
        } else {
            tick_c
        }, tick_c);
        let spread = if base_volume * 5 >= 1 {
            base_volume * 5
        } else {
            1
        };
        let draw = rng.next_u64() % spread;
        let volume = base_volume + draw;
        let candle = DailyCandle {
            time: -((recency as i64) + 1) * SECONDS_PER_DAY,
            open: Money { cents: open },
            high: Money { cents: high },
            low: Money { cents: low },
            close: Money { cents: close },
            volume,
            trade_stats: None,
        };
        let gap_radius = radius(open, limit_bps, 80_000, tick_c);
        let gap_delta = signed_ticks(&mut rng, gap_radius, tick_c);
        let next_close = quantize_cents(clamp(sat_sub(open, gap_delta), lowest, highest), tick_c);
        proof {
            lemma_quantize_at_least_tick(clamp_i(sat_i64(open - gap_delta), lowest as int, highest as int), tick_c as int);
            let step = preset_step(rng0, close as int, recency as int, shape);
            assert(candle == step.0);
            assert(rng@ == step.1);
            assert(next_close == step.2);
        }
        newest_first.push(candle);
        close = next_close;
        recency += 1;
    }
    let mut oldest_first: Vec<DailyCandle> = Vec::new();
    let mut j: usize = 0;
    while j < PRESET_HISTORY_DAYS
        invariant
            0 <= j <= PRESET_HISTORY_DAYS,
            newest_first@.len() == PRESET_HISTORY_DAYS,
            oldest_first@.len() == j,
            forall|k: int| 0 <= k < j ==> oldest_first@[k] == newest_first@[PRESET_HISTORY_DAYS - 1 - k],
        decreases PRESET_HISTORY_DAYS - j,
    {
        oldest_first.push(newest_first[PRESET_HISTORY_DAYS - 1 - j]);
        j += 1;
    }
    let ghost expected = spec_preset_history(seed, code_hash, tick, initial_price, limit_bps, float_shares);
    assert(oldest_first@ =~= expected) by {
        assert forall|k: int| 0 <= k < PRESET_HISTORY_DAYS implies oldest_first@[k] == expected[k] by {
            assert(newest_first@[PRESET_HISTORY_DAYS - 1 - k] == preset_candle(
                stream,
                anchor as int,
                shape,
                (PRESET_HISTORY_DAYS - 1 - k) as nat,
            ));
        }
    }
    DailyCandleHistory::from_candles(oldest_first)
}

} // verus!
