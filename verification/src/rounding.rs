//! Rounding of integer ratios to the nearest integer, ties to even.
use vstd::prelude::*;
use vstd::arithmetic::div_mod::lemma_fundamental_div_mod;

verus! {

pub open spec fn abs(x: int) -> int {
    if x < 0 {
        -x
    } else {
        x
    }
}

/// `r` is `n / d` rounded to the nearest integer, ties to the even neighbour.
pub open spec fn half_even_ok(n: int, d: int, r: int) -> bool {
    let e = n - r * d;
    2 * abs(e) < d || (2 * abs(e) == d && r % 2 == 0)
}

/// The nearest integer to `n / d`, ties to even.
pub open spec fn round_half_even(n: int, d: int) -> int {
    choose|r: int| half_even_ok(n, d, r)
}

/// Truncating division as Rust computes it for a positive divisor.
pub open spec fn tdiv(n: int, d: int) -> int {
    if n >= 0 {
        n / d
    } else {
        -((-n) / d)
    }
}

/// The ratio rounded half to even is unique.
pub proof fn lemma_half_even_unique(n: int, d: int, r1: int, r2: int)
    requires
        d > 0,
        half_even_ok(n, d, r1),
        half_even_ok(n, d, r2),
    ensures
        r1 == r2,
{
    let e1 = n - r1 * d;
    let e2 = n - r2 * d;
    assert((r2 - r1) * d == e1 - e2) by (nonlinear_arith)
        requires
            e1 == n - r1 * d,
            e2 == n - r2 * d,
    ;
    if r1 < r2 {
        assert((r2 - r1) * d >= d) by (nonlinear_arith)
            requires
                r2 - r1 >= 1,
                d > 0,
        ;
        assert(r2 - r1 == 1) by {
            if r2 - r1 >= 2 {
                assert((r2 - r1) * d >= 2 * d) by (nonlinear_arith)
                    requires
                        r2 - r1 >= 2,
                        d > 0,
                ;
            }
        }
        assert(r2 * d == r1 * d + d) by (nonlinear_arith)
            requires
                r2 == r1 + 1,
        ;
    } else if r2 < r1 {
        assert((r1 - r2) * d >= d) by (nonlinear_arith)
            requires
                r1 - r2 >= 1,
                d > 0,
        ;
        assert((r1 - r2) * d == e2 - e1) by (nonlinear_arith)
            requires
                (r2 - r1) * d == e1 - e2,
        ;
        assert(r1 - r2 == 1) by {
            if r1 - r2 >= 2 {
                assert((r1 - r2) * d >= 2 * d) by (nonlinear_arith)
                    requires
                        r1 - r2 >= 2,
                        d > 0,
                ;
            }
        }
        assert(r1 * d == r2 * d + d) by (nonlinear_arith)
            requires
                r1 == r2 + 1,
        ;
    }
}

/// Any witness is the rounded value.
pub proof fn lemma_round_half_even_is(n: int, d: int, r: int)
    requires
        d > 0,
        half_even_ok(n, d, r),
    ensures
        round_half_even(n, d) == r,
{
    let c = round_half_even(n, d);
    assert(half_even_ok(n, d, c));
    lemma_half_even_unique(n, d, c, r);
}

/// The rounding of a non-negative ratio from its quotient and remainder.
pub proof fn lemma_half_even_from_parts(n: int, d: int)
    requires
        n >= 0,
        d > 0,
    ensures
        ({
            let q = n / d;
            let rem = n % d;
            let r = if 2 * rem < d {
                q
            } else if 2 * rem > d {
                q + 1
            } else if q % 2 != 0 {
                q + 1
            } else {
                q
            };
            half_even_ok(n, d, r)
        }),
{
    lemma_fundamental_div_mod(n, d);
    let q = n / d;
    let rem = n % d;
    assert(n - q * d == rem) by (nonlinear_arith)
        requires
            n == d * q + rem,
    ;
    assert(n - (q + 1) * d == rem - d) by (nonlinear_arith)
        requires
            n == d * q + rem,
    ;
}

/// Rounding is odd-symmetric: rounding `-n` gives the negation.
pub proof fn lemma_half_even_neg(n: int, d: int, r: int)
    requires
        half_even_ok(n, d, r),
    ensures
        half_even_ok(-n, d, -r),
{
    assert(-n - (-r) * d == -(n - r * d)) by (nonlinear_arith);
    assert(abs(-n - (-r) * d) == abs(n - r * d));
    assert((-r) % 2 == 0 <==> r % 2 == 0);
}

/// The rounded ratio always exists.
pub proof fn lemma_round_half_even_exists(n: int, d: int)
    requires
        d > 0,
    ensures
        half_even_ok(n, d, round_half_even(n, d)),
{
    let q = if n >= 0 { n } else { -n };
    lemma_half_even_from_parts(q, d);
    let m = q / d;
    let rem = q % d;
    let rq = if 2 * rem < d {
        m
    } else if 2 * rem > d {
        m + 1
    } else if m % 2 != 0 {
        m + 1
    } else {
        m
    };
    if n < 0 {
        lemma_half_even_neg(q, d, rq);
        assert(half_even_ok(n, d, -rq));
    } else {
        assert(half_even_ok(n, d, rq));
    }
}

/// A ratio between two integers rounds to a value between them.
pub proof fn lemma_round_half_even_within(n: int, d: int, lo: int, hi: int)
    requires
        d > 0,
        lo * d <= n <= hi * d,
    ensures
        lo <= round_half_even(n, d) <= hi,
{
    lemma_round_half_even_exists(n, d);
    let r = round_half_even(n, d);
    let e = n - r * d;
    assert(2 * abs(e) <= d);
    if r > hi {
        assert(r * d >= (hi + 1) * d) by (nonlinear_arith)
            requires
                r >= hi + 1,
                d > 0,
        ;
        assert((hi + 1) * d == hi * d + d) by (nonlinear_arith);
    }
    if r < lo {
        assert(r * d <= (lo - 1) * d) by (nonlinear_arith)
            requires
                r <= lo - 1,
                d > 0,
        ;
        assert((lo - 1) * d == lo * d - d) by (nonlinear_arith);
    }
}

} // verus!
