use crate::arith::{
    checked_div, fits, round_ratio, saturate, saturating_add, saturating_div, saturating_mul,
    saturating_sub, scale_ratio, trunc_div,
};
use crate::grammar::thousands_spec;
use crate::helpers::thousands;
use crate::numeral::{cents_text, push_cents};
use crate::types::Currency;
use core::cmp::Ordering;
use vstd::prelude::*;
use vstd::std_specs::cmp::PartialOrdSpecImpl;
use vstd::string::*;

verus! {

/// For storing cash values.
#[derive(Debug, PartialEq, Eq, Ord, Clone, Copy, Hash, Structural)]
pub struct USDCurrencies {
    /// Cash value in cents.
    pub usd: Currency,
}

impl Default for USDCurrencies {
    fn default() -> (currencies: USDCurrencies)
        ensures
            currencies == (USDCurrencies { usd: 0 }),
    {
        USDCurrencies { usd: 0 }
    }
}

impl PartialOrd for USDCurrencies {
    fn partial_cmp(&self, other: &USDCurrencies) -> (order: Option<Ordering>) {
        if self.usd > other.usd {
            Some(Ordering::Greater)
        } else if self.usd < other.usd {
            Some(Ordering::Less)
        } else {
            Some(Ordering::Equal)
        }
    }
}

impl PartialOrdSpecImpl for USDCurrencies {
    open spec fn obeys_partial_cmp_spec() -> bool {
        true
    }

    open spec fn partial_cmp_spec(&self, other: &USDCurrencies) -> Option<Ordering> {
        if self.usd > other.usd {
            Some(Ordering::Greater)
        } else if self.usd < other.usd {
            Some(Ordering::Less)
        } else {
            Some(Ordering::Equal)
        }
    }
}

impl USDCurrencies {
    /// The value in weapons of the cash, where a key costs `key_price_cents` cents and
    /// `key_price_weapons` weapons: the cash times the price in weapons over the price in
    /// cents, rounded to the nearest weapon and held to the bounds of [`Currency`]. At a price
    /// of zero cents any cash is worth without bound, so the result is the bound on the side
    /// of the product's sign.
    pub open spec fn to_weapons_spec(
        &self,
        key_price_cents: Currency,
        key_price_weapons: Currency,
    ) -> Currency {
        if key_price_cents == 0 {
            if self.usd * key_price_weapons > 0 {
                Currency::MAX
            } else if self.usd * key_price_weapons < 0 {
                Currency::MIN
            } else {
                0
            }
        } else {
            saturate(round_ratio(self.usd * key_price_weapons, key_price_cents as int))
        }
    }

    /// How the cash is written: a `$`, then the dollars with thousands places, a point and
    /// the cents in two digits; the `-` of a debt stands behind the `$`.
    pub open spec fn text(&self) -> Seq<char> {
        seq!['$'] + thousands_spec(cents_text(self.usd))
    }

    /// The sum, held to the bounds of [`Currency`].
    pub open spec fn saturating_sum(self, rhs: USDCurrencies) -> USDCurrencies {
        USDCurrencies { usd: saturate(self.usd + rhs.usd) }
    }

    /// The difference, held to the bounds of [`Currency`].
    pub open spec fn saturating_difference(self, rhs: USDCurrencies) -> USDCurrencies {
        USDCurrencies { usd: saturate(self.usd - rhs.usd) }
    }

    /// The cash multiplied by `rhs`, held to the bounds of [`Currency`].
    pub open spec fn saturating_product(self, rhs: Currency) -> USDCurrencies {
        USDCurrencies { usd: saturate(self.usd * rhs) }
    }

    /// The cash divided by `rhs` with the quotient truncated toward zero, held to the bounds
    /// of [`Currency`].
    pub open spec fn saturating_quotient(self, rhs: Currency) -> USDCurrencies {
        USDCurrencies { usd: saturate(trunc_div(self.usd as int, rhs as int)) }
    }

    /// The cash times `numerator` over `denominator`, rounded to the nearest cent, half a cent
    /// going away from zero, and held to the bounds of [`Currency`].
    pub open spec fn scaled(self, numerator: Currency, denominator: Currency) -> USDCurrencies {
        USDCurrencies { usd: saturate(round_ratio(self.usd * numerator, denominator as int)) }
    }

    /// The sum, where it is a value of [`Currency`].
    pub open spec fn checked_sum(self, rhs: USDCurrencies) -> Option<USDCurrencies> {
        if fits(self.usd + rhs.usd) {
            Some(USDCurrencies { usd: (self.usd + rhs.usd) as Currency })
        } else {
            None
        }
    }

    /// The difference, where it is a value of [`Currency`].
    pub open spec fn checked_difference(self, rhs: USDCurrencies) -> Option<USDCurrencies> {
        if fits(self.usd - rhs.usd) {
            Some(USDCurrencies { usd: (self.usd - rhs.usd) as Currency })
        } else {
            None
        }
    }

    /// The cash multiplied by `rhs`, where the product is a value of [`Currency`].
    pub open spec fn checked_product(self, rhs: Currency) -> Option<USDCurrencies> {
        if fits(self.usd * rhs) {
            Some(USDCurrencies { usd: (self.usd * rhs) as Currency })
        } else {
            None
        }
    }

    /// The cash divided by `rhs` with the quotient truncated toward zero, where `rhs` is not
    /// zero and the quotient is a value of [`Currency`].
    pub open spec fn checked_quotient(self, rhs: Currency) -> Option<USDCurrencies> {
        if rhs != 0 && fits(trunc_div(self.usd as int, rhs as int)) {
            Some(USDCurrencies { usd: trunc_div(self.usd as int, rhs as int) as Currency })
        } else {
            None
        }
    }

    /// Creates a new [`USDCurrencies`] with `0` `usd`. Same as `USDCurrencies::default()`.
    pub fn new() -> (currencies: USDCurrencies)
        ensures
            currencies == (USDCurrencies { usd: 0 }),
    {
        USDCurrencies { usd: 0 }
    }

    /// Converts currencies to a value in weapons using the key prices.
    pub fn to_weapons(&self, key_price_cents: Currency, key_price_weapons: Currency) -> (weapons:
        Currency)
        ensures
            weapons == self.to_weapons_spec(key_price_cents, key_price_weapons),
    {
        if key_price_cents == 0 {
            assert(self.usd * key_price_weapons > 0 <==> (self.usd > 0 && key_price_weapons > 0)
                || (self.usd < 0 && key_price_weapons < 0)) by (nonlinear_arith);
            assert(self.usd * key_price_weapons < 0 <==> (self.usd > 0 && key_price_weapons < 0)
                || (self.usd < 0 && key_price_weapons > 0)) by (nonlinear_arith);
            if self.usd == 0 || key_price_weapons == 0 {
                0
            } else if (self.usd > 0) == (key_price_weapons > 0) {
                Currency::MAX
            } else {
                Currency::MIN
            }
        } else {
            scale_ratio(self.usd, key_price_weapons, key_price_cents)
        }
    }

    /// Checks if the currencies do not contain any value.
    pub fn is_empty(&self) -> (empty: bool)
        ensures
            empty == (self.usd == 0),
    {
        self.usd == 0
    }

    /// Checked integer multiplication. Computes `self * rhs`, returning `None` if overflow
    /// occurred.
    pub fn checked_mul(&self, rhs: Currency) -> (product: Option<USDCurrencies>)
        ensures
            product == self.checked_product(rhs),
    {
        match self.usd.checked_mul(rhs) {
            Some(usd) => Some(USDCurrencies { usd }),
            None => None,
        }
    }

    /// Checked integer division. Computes `self / rhs`, returning `None` if `rhs == 0` or the
    /// division results in overflow.
    pub fn checked_div(&self, rhs: Currency) -> (quotient: Option<USDCurrencies>)
        ensures
            quotient == self.checked_quotient(rhs),
    {
        match checked_div(self.usd, rhs) {
            Some(usd) => Some(USDCurrencies { usd }),
            None => None,
        }
    }

    /// Adds currencies. `None` if the result overflows integer bounds.
    pub fn checked_add(&self, other: &USDCurrencies) -> (sum: Option<USDCurrencies>)
        ensures
            sum == self.checked_sum(*other),
    {
        match self.usd.checked_add(other.usd) {
            Some(usd) => Some(USDCurrencies { usd }),
            None => None,
        }
    }

    /// Subtracts currencies. `None` if the result overflows integer bounds.
    pub fn checked_sub(&self, other: &USDCurrencies) -> (difference: Option<USDCurrencies>)
        ensures
            difference == self.checked_difference(*other),
    {
        match self.usd.checked_sub(other.usd) {
            Some(usd) => Some(USDCurrencies { usd }),
            None => None,
        }
    }

    /// Writes the cash: `$1,234.56`.
    pub fn to_string(&self) -> (text: String)
        ensures
            text@ == self.text(),
    {
        let mut numeral = String::new();
        push_cents(&mut numeral, self.usd);
        assert(numeral@ =~= cents_text(self.usd));
        proof {
            reveal_strlit("$");
        }
        assert("$"@ =~= seq!['$']);
        let mut text = String::new();
        text.append("$");
        text.append(thousands(numeral).as_str());
        assert(text@ =~= self.text());
        text
    }

    /// The cash times `numerator` over `denominator`, which is not zero, rounded to the nearest
    /// cent and held to the bounds of [`Currency`]: multiplying by two and a half is scaling by
    /// 5 over 2, dividing by it scaling by 2 over 5.
    pub fn scale(&self, numerator: Currency, denominator: Currency) -> (scaled: USDCurrencies)
        requires
            denominator != 0,
        ensures
            scaled == self.scaled(numerator, denominator),
    {
        USDCurrencies { usd: scale_ratio(self.usd, numerator, denominator) }
    }

    /// Adds `other` to the cash in place, held to the bounds of [`Currency`].
    pub fn add_assign(&mut self, other: USDCurrencies)
        ensures
            *final(self) == old(self).saturating_sum(other),
    {
        self.usd = saturating_add(self.usd, other.usd);
    }

    /// Subtracts `other` from the cash in place, held to the bounds of [`Currency`].
    pub fn sub_assign(&mut self, other: USDCurrencies)
        ensures
            *final(self) == old(self).saturating_difference(other),
    {
        self.usd = saturating_sub(self.usd, other.usd);
    }

    /// Multiplies the cash in place, held to the bounds of [`Currency`].
    pub fn mul_assign(&mut self, other: Currency)
        ensures
            *final(self) == old(self).saturating_product(other),
    {
        self.usd = saturating_mul(self.usd, other);
    }

    /// Divides the cash in place by a number that is not zero, held to the bounds of
    /// [`Currency`].
    pub fn div_assign(&mut self, other: Currency)
        requires
            other != 0,
        ensures
            *final(self) == old(self).saturating_quotient(other),
    {
        self.usd = saturating_div(self.usd, other);
    }
}

} // verus!
