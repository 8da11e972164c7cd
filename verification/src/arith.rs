//! Arithmetic on [`Currency`] that stays inside its bounds.
//!
//! Division and remainder of mathematical integers are written out here with the quotient
//! truncated toward zero, as the machine computes them; `/` and `%` between `int` values in a
//! contract are the Euclidean ones.

use crate::types::Currency;
use vstd::prelude::*;

verus! {

/// `value`, or the bound of [`Currency`] that it lies beyond.
pub open spec fn saturate(value: int) -> Currency {
    if value > Currency::MAX {
        Currency::MAX
    } else if value < Currency::MIN {
        Currency::MIN
    } else {
        value as Currency
    }
}

/// Whether `value` is a value of [`Currency`].
pub open spec fn fits(value: int) -> bool {
    Currency::MIN <= value <= Currency::MAX
}

/// The magnitude of an integer.
pub open spec fn abs(v: int) -> int {
    if v < 0 {
        -v
    } else {
        v
    }
}

/// The quotient of `n` by `d` rounded to the nearest integer, for `d != 0`; half way between
/// two, the one farther from zero.
pub open spec fn round_ratio(n: int, d: int) -> int {
    let magnitude = (2 * abs(n) + abs(d)) / (2 * abs(d));
    if (n < 0) != (d < 0) {
        -magnitude
    } else {
        magnitude
    }
}

/// The quotient of `a` by `b` truncated toward zero, for `b != 0`: that of the magnitude of
/// `a`, with the sign of `a` given back.
pub open spec fn trunc_div(a: int, b: int) -> int {
    if a >= 0 {
        a / b
    } else {
        -((-a) / b)
    }
}

/// What is left of `a` after `trunc_div(a, b)` times `b`, for `b != 0`: it has the sign of `a`
/// and is nearer to zero than `b`.
pub open spec fn trunc_rem(a: int, b: int) -> int {
    if a >= 0 {
        a % b
    } else {
        -((-a) % b)
    }
}

/// A quotient is no farther from zero than the dividend, so that only the least value
/// divided by `-1` leaves the bounds of [`Currency`].
pub proof fn lemma_trunc_div_bounds(a: int, b: int)
    requires
        b != 0,
    ensures
        a >= 0 ==> -a <= trunc_div(a, b) <= a,
        a < 0 ==> a <= trunc_div(a, b) <= -a,
        (a == Currency::MIN && b == -1) ==> trunc_div(a, b) == Currency::MAX + 1,
        (fits(a) && !(a == Currency::MIN && b == -1)) ==> fits(trunc_div(a, b)),
{
    let m = if a >= 0 {
        a
    } else {
        -a
    };
    assert(-m <= m / b <= m) by (nonlinear_arith)
        requires
            m >= 0,
            b != 0,
    ;
    if b == -1 {
        assert(m / b == -m) by (nonlinear_arith)
            requires
                b == -1,
        ;
    }
    if b != -1 && b != 1 && m > 0 {
        assert(-m < m / b < m) by (nonlinear_arith)
            requires
                m > 0,
                b != 0,
                b != 1,
                b != -1,
        ;
    }
}

/// The quotient times the divisor, and the remainder, make the dividend; the remainder is
/// nearer to zero than the divisor and has the sign of the dividend.
pub proof fn lemma_trunc_div_rem(a: int, b: int)
    requires
        b != 0,
    ensures
        trunc_div(a, b) * b + trunc_rem(a, b) == a,
        b > 0 ==> -b < trunc_rem(a, b) < b,
        b < 0 ==> b < trunc_rem(a, b) < -b,
        a >= 0 ==> trunc_rem(a, b) >= 0,
        a <= 0 ==> trunc_rem(a, b) <= 0,
{
    let m = if a >= 0 {
        a
    } else {
        -a
    };
    assert(m == (m / b) * b + m % b && 0 <= m % b && (b > 0 ==> m % b < b) && (b < 0 ==> m % b
        < -b)) by (nonlinear_arith)
        requires
            b != 0,
    ;
    if a < 0 {
        assert((-(m / b)) * b == -((m / b) * b)) by (nonlinear_arith);
    }
    if a == 0 {
        assert(0int % b == 0) by (nonlinear_arith)
            requires
                b != 0,
        ;
    }
}

/// The sum, held to the bounds of [`Currency`].
pub fn saturating_add(a: Currency, b: Currency) -> (r: Currency)
    ensures
        r == saturate(a + b),
{
    match a.checked_add(b) {
        Some(sum) => sum,
        None => if b > 0 {
            Currency::MAX
        } else {
            Currency::MIN
        },
    }
}

/// The difference, held to the bounds of [`Currency`].
pub fn saturating_sub(a: Currency, b: Currency) -> (r: Currency)
    ensures
        r == saturate(a - b),
{
    match a.checked_sub(b) {
        Some(difference) => difference,
        None => if b < 0 {
            Currency::MAX
        } else {
            Currency::MIN
        },
    }
}

/// The product, held to the bounds of [`Currency`].
pub fn saturating_mul(a: Currency, b: Currency) -> (r: Currency)
    ensures
        r == saturate(a * b),
{
    match a.checked_mul(b) {
        Some(product) => product,
        None => {
            if (a < 0) == (b < 0) {
                assert(a * b >= 0) by (nonlinear_arith)
                    requires
                        (a < 0) == (b < 0),
                ;
                Currency::MAX
            } else {
                assert(a * b <= 0) by (nonlinear_arith)
                    requires
                        (a < 0) != (b < 0),
                ;
                Currency::MIN
            }
        },
    }
}

/// The quotient truncated toward zero, held to the bounds of [`Currency`]: the least value
/// divided by `-1` gives the greatest.
pub fn saturating_div(a: Currency, b: Currency) -> (r: Currency)
    requires
        b != 0,
    ensures
        r == saturate(trunc_div(a as int, b as int)),
{
    proof {
        lemma_trunc_div_bounds(a as int, b as int);
    }
    if a == Currency::MIN && b == -1 {
        Currency::MAX
    } else {
        a / b
    }
}

/// The quotient truncated toward zero, or `None` where there is none in [`Currency`]: for a
/// divisor of zero, and for the least value divided by `-1`.
pub fn checked_div(a: Currency, b: Currency) -> (r: Option<Currency>)
    ensures
        r == if b == 0 || !fits(trunc_div(a as int, b as int)) {
            None
        } else {
            Some(trunc_div(a as int, b as int) as Currency)
        },
{
    if b == 0 || (a == Currency::MIN && b == -1) {
        proof {
            if b != 0 {
                lemma_trunc_div_bounds(a as int, b as int);
            }
        }
        None
    } else {
        proof {
            lemma_trunc_div_bounds(a as int, b as int);
        }
        Some(a / b)
    }
}

/// `value` times `numerator` over `denominator`, rounded to the nearest integer, half going
/// away from zero, and held to the bounds of [`Currency`]. The product is exact, whatever its
/// size.
pub fn scale_ratio(value: Currency, numerator: Currency, denominator: Currency) -> (r: Currency)
    requires
        denominator != 0,
    ensures
        r == saturate(round_ratio(value * numerator, denominator as int)),
{
    assert(-0x4000_0000_0000_0000_0000_0000_0000_0000 <= value * numerator
        <= 0x4000_0000_0000_0000_0000_0000_0000_0000) by (nonlinear_arith)
        requires
            -0x8000_0000_0000_0000 <= value <= 0x8000_0000_0000_0000,
            -0x8000_0000_0000_0000 <= numerator <= 0x8000_0000_0000_0000,
    ;
    let product: i128 = (value as i128) * (numerator as i128);
    let top: u128 = if product < 0 {
        (-product) as u128
    } else {
        product as u128
    };
    let divisor: i128 = denominator as i128;
    let bottom: u128 = if divisor < 0 {
        (-divisor) as u128
    } else {
        divisor as u128
    };
    let magnitude: u128 = (2 * top + bottom) / (2 * bottom);
    assert(magnitude == (2 * abs(product as int) + abs(denominator as int)) / (2 * abs(
        denominator as int,
    )));
    if (product < 0) != (denominator < 0) {
        if magnitude > 0x8000_0000_0000_0000 {
            Currency::MIN
        } else {
            (-(magnitude as i128)) as Currency
        }
    } else {
        if magnitude > 0x7fff_ffff_ffff_ffff {
            Currency::MAX
        } else {
            magnitude as Currency
        }
    }
}

} // verus!
