//! Fixed-point numbers for lengths, coordinates and ratios.
//!
//! A [`Real`] counts millionths: `UNIT` stands for one pixel (or for the
//! ratio one). Sums and differences saturate at the ends of the 64-bit
//! range, quotients round towards minus infinity.

use vstd::prelude::*;
use vstd::arithmetic::div_mod::lemma_fundamental_div_mod;
use vstd::arithmetic::div_mod::lemma_fundamental_div_mod_converse;

verus! {

/// A fixed-point number with six decimal places.
pub type Real = i64;

/// The number one as a [`Real`].
pub const UNIT: Real = 1_000_000;

/// The divisor that turns the product of a percentage and a length, both
/// fixed-point, back into a fixed-point length.
pub const PERCENT_DIVISOR: i128 = 100_000_000;

/// The nearest representable number to `x`.
pub open spec fn clamp(x: int) -> Real {
    if x < i64::MIN {
        i64::MIN
    } else if x > i64::MAX {
        i64::MAX
    } else {
        x as i64
    }
}

/// The saturating sum of two numbers.
pub open spec fn spec_plus(a: Real, b: Real) -> Real {
    clamp(a + b)
}

/// The saturating difference of two numbers.
pub open spec fn spec_minus(a: Real, b: Real) -> Real {
    clamp(a - b)
}

/// `pct` percent of `base`, rounded down and saturating.
pub open spec fn spec_percent(pct: Real, base: Real) -> Real {
    clamp((pct * base) / (PERCENT_DIVISOR as int))
}

/// Half of `a`, rounded down.
pub open spec fn spec_half(a: Real) -> Real {
    (a / 2) as Real
}

/// The smaller of two numbers.
pub open spec fn spec_lesser(a: Real, b: Real) -> Real {
    if b < a {
        b
    } else {
        a
    }
}

/// The larger of two numbers.
pub open spec fn spec_greater(a: Real, b: Real) -> Real {
    if b > a {
        b
    } else {
        a
    }
}

/// Brings a wide intermediate result back into the range of [`Real`].
fn saturate(x: i128) -> (r: Real)
    ensures
        r == clamp(x as int),
{
    if x < i64::MIN as i128 {
        i64::MIN
    } else if x > i64::MAX as i128 {
        i64::MAX
    } else {
        x as i64
    }
}

/// Division that rounds towards minus infinity.
fn floor_div(n: i128, d: i128) -> (q: i128)
    requires
        d > 0,
        n > i128::MIN,
    ensures
        q == (n as int) / (d as int),
{
    if n >= 0 {
        n / d
    } else {
        let m: i128 = -n;
        let q: i128 = m / d;
        let r: i128 = m % d;
        proof {
            lemma_fundamental_div_mod(m as int, d as int);
        }
        if r == 0 {
            proof {
                assert(n == (-(q as int)) * d + 0) by (nonlinear_arith)
                    requires
                        -n == d * q + 0,
                ;
                lemma_fundamental_div_mod_converse(n as int, d as int, -(q as int), 0);
            }
            -q
        } else {
            proof {
                assert(n == (-(q as int) - 1) * d + (d - r)) by (nonlinear_arith)
                    requires
                        -n == d * q + r,
                ;
                lemma_fundamental_div_mod_converse(n as int, d as int, -(q as int) - 1, (d - r) as int);
            }
            -q - 1
        }
    }
}

/// The saturating sum of two numbers.
#[verifier::when_used_as_spec(spec_plus)]
pub fn plus(a: Real, b: Real) -> (r: Real)
    ensures
        r == spec_plus(a, b),
{
    saturate(a as i128 + b as i128)
}

/// The saturating difference of two numbers.
#[verifier::when_used_as_spec(spec_minus)]
pub fn minus(a: Real, b: Real) -> (r: Real)
    ensures
        r == spec_minus(a, b),
{
    saturate(a as i128 - b as i128)
}

/// `pct` percent of `base`: both are fixed-point, so `50 * UNIT` percent of
/// `base` is half of it. The quotient is rounded down and saturates.
#[verifier::when_used_as_spec(spec_percent)]
pub fn percent(pct: Real, base: Real) -> (r: Real)
    ensures
        r == spec_percent(pct, base),
{
    assert(-0x4000_0000_0000_0000_0000_0000_0000_0000 < pct * base
        <= 0x4000_0000_0000_0000_0000_0000_0000_0000) by (nonlinear_arith)
        requires
            -0x8000_0000_0000_0000 <= pct < 0x8000_0000_0000_0000,
            -0x8000_0000_0000_0000 <= base < 0x8000_0000_0000_0000,
    ;
    let product: i128 = pct as i128 * base as i128;
    saturate(floor_div(product, PERCENT_DIVISOR))
}

/// Half of `a`, rounded down.
#[verifier::when_used_as_spec(spec_half)]
pub fn half(a: Real) -> (r: Real)
    ensures
        r == spec_half(a),
{
    saturate(floor_div(a as i128, 2))
}

/// The smaller of two numbers.
#[verifier::when_used_as_spec(spec_lesser)]
pub fn lesser(a: Real, b: Real) -> (r: Real)
    ensures
        r == spec_lesser(a, b),
{
    if b < a {
        b
    } else {
        a
    }
}

/// The larger of two numbers.
#[verifier::when_used_as_spec(spec_greater)]
pub fn greater(a: Real, b: Real) -> (r: Real)
    ensures
        r == spec_greater(a, b),
{
    if b > a {
        b
    } else {
        a
    }
}

} // verus!
