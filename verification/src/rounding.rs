//! Rounding an amount of metal to a whole number of scrap or of refined.

use crate::arith::trunc_rem;
use vstd::arithmetic::div_mod::{
    lemma_fundamental_div_mod, lemma_fundamental_div_mod_converse, lemma_mod_bound,
};
use vstd::prelude::*;

verus! {

/// Rounding methods for metal values.
///
/// Up is toward the greater value and down toward the lesser one, whatever the sign: rounding
/// a debt of 22 refined and 8 scrap up gives a debt of 22 refined, rounding it down one of 23.
#[derive(Debug, PartialEq, Eq, Clone, Copy, Structural)]
pub enum Rounding {
    /// Rounds up to the nearest scrap.
    UpScrap,
    /// Rounds down to the nearest scrap.
    DownScrap,
    /// Rounds to the nearest refined; a value half way between two goes away from zero.
    Refined,
    /// Rounds up to the nearest refined.
    UpRefined,
    /// Rounds down to the nearest refined.
    DownRefined,
    /// No rounding.
    NoRounding,
}

/// The greatest multiple of `unit` that is not above `value`.
pub open spec fn floor_to(value: int, unit: int) -> int {
    value - value % unit
}

/// The least multiple of `unit` that is not below `value`.
pub open spec fn ceil_to(value: int, unit: int) -> int {
    if value % unit == 0 {
        value
    } else {
        value - value % unit + unit
    }
}

/// The multiple of the even `unit` nearest to `value`; half way between two, the one farther
/// from zero.
pub open spec fn nearest_to(value: int, unit: int) -> int {
    if value >= 0 {
        floor_to(value + unit / 2, unit)
    } else {
        -floor_to(-value + unit / 2, unit)
    }
}

/// What a metal value becomes under a rounding method.
pub open spec fn round_metal_spec(metal: int, rounding: Rounding) -> int {
    match rounding {
        Rounding::UpScrap => ceil_to(metal, 2),
        Rounding::DownScrap => floor_to(metal, 2),
        Rounding::Refined => nearest_to(metal, 18),
        Rounding::UpRefined => ceil_to(metal, 18),
        Rounding::DownRefined => floor_to(metal, 18),
        Rounding::NoRounding => metal,
    }
}

/// The multiples of `unit` next to `value`, told from the remainder that the machine
/// computes, which has the sign of `value`.
pub proof fn lemma_round_by_remainder(value: int, unit: int)
    requires
        unit == 2 || unit == 18,
    ensures
        -unit < trunc_rem(value, unit) < unit,
        value >= 0 ==> trunc_rem(value, unit) >= 0,
        value <= 0 ==> trunc_rem(value, unit) <= 0,
        floor_to(value, unit) == if trunc_rem(value, unit) < 0 {
            value - trunc_rem(value, unit) - unit
        } else {
            value - trunc_rem(value, unit)
        },
        ceil_to(value, unit) == if trunc_rem(value, unit) > 0 {
            value - trunc_rem(value, unit) + unit
        } else {
            value - trunc_rem(value, unit)
        },
        nearest_to(value, unit) == if 2 * trunc_rem(value, unit) >= unit {
            value - trunc_rem(value, unit) + unit
        } else if 2 * trunc_rem(value, unit) <= -unit {
            value - trunc_rem(value, unit) - unit
        } else {
            value - trunc_rem(value, unit)
        },
{
    if unit == 2 {
        lemma_shifted_remainders(value, 2, 1);
    } else {
        lemma_shifted_remainders(value, 18, 9);
    }
}

/// The remainder of the negative of a value, and those of the value and of its negative
/// moved up by `half`, told from the remainder of the value.
pub proof fn lemma_shifted_remainders(value: int, unit: int, half: int)
    requires
        (unit == 2 && half == 1) || (unit == 18 && half == 9),
    ensures
        0 <= value % unit < unit,
        (-value) % unit == if value % unit == 0 {
            0
        } else {
            unit - value % unit
        },
        (value + half) % unit == if value % unit < half {
            value % unit + half
        } else {
            value % unit - half
        },
        (-value + half) % unit == if (-value) % unit < half {
            (-value) % unit + half
        } else {
            (-value) % unit - half
        },
{
    let q = value / unit;
    let r = value % unit;
    lemma_fundamental_div_mod(value, unit);
    lemma_mod_bound(value, unit);
    assert(value == unit * q + r);
    let (nq, nr) = if r == 0 {
        (-q, 0int)
    } else {
        (-q - 1, unit - r)
    };
    if unit == 2 {
        assert(-value == nq * 2 + nr);
    } else {
        assert(-value == nq * 18 + nr);
    }
    lemma_fundamental_div_mod_converse(-value, unit, nq, nr);
    let (uq, ur) = if r < half {
        (q, r + half)
    } else {
        (q + 1, r - half)
    };
    if unit == 2 {
        assert(value + half == uq * 2 + ur);
    } else {
        assert(value + half == uq * 18 + ur);
    }
    lemma_fundamental_div_mod_converse(value + half, unit, uq, ur);
    let (dq, dr) = if nr < half {
        (nq, nr + half)
    } else {
        (nq + 1, nr - half)
    };
    if unit == 2 {
        assert(-value + half == dq * 2 + dr);
    } else {
        assert(-value + half == dq * 18 + dr);
    }
    lemma_fundamental_div_mod_converse(-value + half, unit, dq, dr);
}

/// Rounding down or up gives a multiple of the unit, and so does the negative of one.
pub proof fn lemma_rounded_is_multiple(value: int, unit: int)
    requires
        unit == 2 || unit == 18,
    ensures
        floor_to(value, unit) % unit == 0,
        ceil_to(value, unit) % unit == 0,
        (-floor_to(value, unit)) % unit == 0,
{
    let q = value / unit;
    lemma_fundamental_div_mod(value, unit);
    lemma_mod_bound(value, unit);
    assert(value == unit * q + value % unit);
    if unit == 2 {
        assert(floor_to(value, unit) == q * 2 + 0);
        assert(floor_to(value, unit) + unit == (q + 1) * 2 + 0);
        assert(-floor_to(value, unit) == (-q) * 2 + 0);
    } else {
        assert(floor_to(value, unit) == q * 18 + 0);
        assert(floor_to(value, unit) + unit == (q + 1) * 18 + 0);
        assert(-floor_to(value, unit) == (-q) * 18 + 0);
    }
    lemma_fundamental_div_mod_converse(floor_to(value, unit), unit, q, 0);
    lemma_fundamental_div_mod_converse(
        floor_to(value, unit) + unit,
        unit,
        q + 1,
        0,
    );
    lemma_fundamental_div_mod_converse(
        -floor_to(value, unit),
        unit,
        -q,
        0,
    );
}

} // verus!
