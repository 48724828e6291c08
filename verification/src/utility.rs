use vstd::arithmetic::div_mod::{lemma_div_is_ordered, lemma_div_multiples_vanish};
use vstd::math::abs;
use vstd::prelude::*;

verus! {

/// Number of fractional steps in one unit: every scalar quantity in this
/// crate is a fixed-point value counted in units of `1 / SCALE`.
pub const SCALE: i64 = 65536;

/// Largest magnitude a fixed-point product is allowed to reach, chosen so
/// that every intermediate value stays well inside the machine word.
pub const FXMAX: i64 = 0x4000_0000_0000_0000;

/// Largest magnitude a fixed-point dividend is allowed to reach.
pub const DIVMAX: i64 = 0x2000_0000_0000;

/// Truncating (round-toward-zero) division: the meaning of `/` on the
/// machine's signed integers, stated over mathematical integers.
pub open spec fn tdiv(a: int, b: int) -> int {
    if a >= 0 {
        a / b
    } else {
        -((-a) / b)
    }
}

/// The product of two fixed-point scalars, rounded toward zero.
pub open spec fn fx_mul_spec(a: int, b: int) -> int {
    tdiv(a * b, SCALE as int)
}

/// The quotient of two fixed-point scalars, rounded toward zero.
pub open spec fn fx_div_spec(a: int, b: int) -> int {
    tdiv(a * (SCALE as int), b)
}

/// The integer square root: the largest `r` with `r * r <= n`.
pub open spec fn sqrt_floor(n: int) -> int {
    choose|r: int| 0 <= r && #[trigger] (r * r) <= n && n < (r + 1) * (r + 1)
}

/// Truncating division never grows a magnitude: `|a / b| <= m / b` whenever
/// `|a| <= m`.
pub proof fn lemma_tdiv_bound(a: int, b: int, m: int)
    requires
        b > 0,
        abs(a) <= m,
    ensures
        abs(tdiv(a, b)) <= m / b,
        m >= 0,
{
    if a >= 0 {
        lemma_div_is_ordered(0, a, b);
        lemma_div_is_ordered(a, m, b);
    } else {
        lemma_div_is_ordered(0, -a, b);
        lemma_div_is_ordered(-a, m, b);
    }
}

/// Bounds on both factors bound a rounded fixed-point product.
pub proof fn lemma_fx_mul_mag(a: int, b: int, ma: int, mb: int)
    requires
        abs(a) <= ma,
        abs(b) <= mb,
    ensures
        abs(fx_mul_spec(a, b)) <= ma * mb / (SCALE as int),
        abs(a * b) <= ma * mb,
{
    assert(abs(a * b) <= ma * mb) by (nonlinear_arith)
        requires
            abs(a) <= ma,
            abs(b) <= mb,
    ;
    lemma_tdiv_bound(a * b, SCALE as int, ma * mb);
}

/// Two integers under the same square-root floor characterization are equal.
pub proof fn lemma_sqrt_floor_unique(n: int, p: int, q: int)
    requires
        0 <= p && p * p <= n && n < (p + 1) * (p + 1),
        0 <= q && q * q <= n && n < (q + 1) * (q + 1),
    ensures
        p == q,
{
    assert(p == q) by (nonlinear_arith)
        requires
            0 <= p && p * p <= n && n < (p + 1) * (p + 1),
            0 <= q && q * q <= n && n < (q + 1) * (q + 1),
    ;
}

/// A witness pins `sqrt_floor` down.
pub proof fn lemma_sqrt_floor_is(n: int, r: int)
    requires
        0 <= r && r * r <= n && n < (r + 1) * (r + 1),
    ensures
        sqrt_floor(n) == r,
{
    let picked = choose|q: int| 0 <= q && #[trigger] (q * q) <= n && n < (q + 1) * (q + 1);
    lemma_sqrt_floor_unique(n, picked, r);
}

/// The product of two fixed-point scalars.
pub fn fx_mul(a: i64, b: i64) -> (r: i64)
    requires
        abs((a as int) * (b as int)) <= FXMAX * SCALE,
    ensures
        r as int == fx_mul_spec(a as int, b as int),
        abs(r as int) <= FXMAX,
{
    proof {
        lemma_tdiv_bound((a as int) * (b as int), SCALE as int, (FXMAX * SCALE) as int);
        lemma_div_multiples_vanish(FXMAX as int, SCALE as int);
    }
    let p: i128 = (a as i128) * (b as i128);
    let q: i128 = p / (SCALE as i128);
    q as i64
}

/// The quotient of two fixed-point scalars; the divisor must be positive.
pub fn fx_div(a: i64, b: i64) -> (r: i64)
    requires
        b > 0,
        abs(a as int) <= DIVMAX,
    ensures
        r as int == fx_div_spec(a as int, b as int),
        abs(r as int) <= DIVMAX * SCALE,
{
    proof {
        assert(abs((a as int) * (SCALE as int)) <= DIVMAX * SCALE) by (nonlinear_arith)
            requires
                abs(a as int) <= DIVMAX,
        ;
        lemma_tdiv_bound((a as int) * (SCALE as int), b as int, (DIVMAX * SCALE) as int);
        lemma_div_is_ordered(1, b as int, 1);
        assert((DIVMAX * SCALE) / (b as int) <= DIVMAX * SCALE) by {
            vstd::arithmetic::div_mod::lemma_div_is_ordered_by_denominator(
                DIVMAX * SCALE,
                1,
                b as int,
            );
            assert((DIVMAX * SCALE) / 1 == DIVMAX * SCALE);
        }
    }
    let p: i128 = (a as i128) * (SCALE as i128);
    let q: i128 = p / (b as i128);
    q as i64
}

/// The integer square root of `n`, by bisection.
pub fn isqrt(n: u128) -> (r: u64)
    requires
        n < 0x4000_0000_0000_0000_0000_0000_0000_0000,
    ensures
        r as int == sqrt_floor(n as int),
        (r as int) * (r as int) <= n as int,
        (n as int) < (r as int + 1) * (r as int + 1),
{
    let mut lo: u128 = 0;
    let mut hi: u128 = 0x8000_0000_0000_0000;
    proof {
        assert((hi as int) * (hi as int) > n as int) by (nonlinear_arith)
            requires
                hi == 0x8000_0000_0000_0000u128,
                n < 0x4000_0000_0000_0000_0000_0000_0000_0000u128,
        ;
    }
    while lo + 1 < hi
        invariant
            0 <= lo < hi <= 0x8000_0000_0000_0000,
            (lo as int) * (lo as int) <= n as int,
            (n as int) < (hi as int) * (hi as int),
        decreases hi - lo,
    {
        let mid: u128 = lo + (hi - lo) / 2;
        proof {
            assert((mid as int) * (mid as int) <= 0x8000_0000_0000_0000int
                * 0x8000_0000_0000_0000int) by (nonlinear_arith)
                requires
                    0 <= mid as int <= 0x8000_0000_0000_0000int,
            ;
        }
        if mid * mid <= n {
            lo = mid;
        } else {
            hi = mid;
        }
    }
    proof {
        lemma_sqrt_floor_is(n as int, lo as int);
    }
    lo as u64
}

/// Clamp a scalar into the closed interval `[min, max]`.
pub fn clamp(x: i64, min: i64, max: i64) -> (r: i64)
    requires
        min <= max,
    ensures
        r == if x < min {
            min
        } else if x > max {
            max
        } else {
            x
        },
        min <= r <= max,
{
    if x < min {
        min
    } else if x > max {
        max
    } else {
        x
    }
}

/// Relies on `rand::Rng::gen_range` over an `i64` range: the result is drawn
/// from the half-open range that was asked for, which must be non-empty.
#[verifier::external_body]
pub fn rand_range(min: i64, max: i64) -> (r: i64)
    requires
        min < max,
    ensures
        min <= r < max,
{
    rand::Rng::gen_range(&mut rand::thread_rng(), min..max)
}

/// A uniformly drawn fixed-point scalar in `[0, 1)`.
pub fn rand() -> (r: i64)
    ensures
        0 <= r < SCALE,
{
    rand_range(0, SCALE)
}

} // verus!
