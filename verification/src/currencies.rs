use crate::arith::{
    checked_div, fits, round_ratio, saturate, saturating_add, saturating_div, saturating_mul,
    saturating_sub, scale_ratio, trunc_div, trunc_rem,
};
use crate::constants::{KEYS_SYMBOL, KEY_SYMBOL};
use crate::error::ParseError;
use crate::grammar::{amounts_text, parse_currency_spec};
use crate::helpers::{
    checked_round_metal, checked_to_metal, checked_to_metal_spec, parse_currency_from_string,
    pluralize, print_amounts, round_metal, to_metal, to_metal_spec,
};
use crate::numeral::{int_text, metal_text, push_int, push_metal};
use crate::rounding::{round_metal_spec, Rounding};
use crate::types::Currency;
use core::cmp::Ordering;
use vstd::prelude::*;
use vstd::std_specs::cmp::PartialOrdSpecImpl;
use vstd::std_specs::convert::TryFromSpecImpl;
use vstd::string::*;

verus! {

/// For storing item currencies values.
///
/// The two fields are independent: either may be negative, zero or extreme. Values are
/// ordered by their keys first and by their weapons second.
#[derive(Debug, PartialEq, Eq, Ord, Clone, Copy, Hash, Structural)]
pub struct Currencies {
    /// Amount of keys.
    pub keys: Currency,
    /// Amount of metal expressed as weapons. It's recommended to use the `ONE_REF`, `ONE_REC`,
    /// `ONE_SCRAP`, and `ONE_WEAPON` constants to perform arithmetic.
    pub weapons: Currency,
}

impl Default for Currencies {
    fn default() -> (currencies: Currencies)
        ensures
            currencies == (Currencies { keys: 0, weapons: 0 }),
    {
        Currencies { keys: 0, weapons: 0 }
    }
}

impl PartialOrd for Currencies {
    fn partial_cmp(&self, other: &Currencies) -> (order: Option<Ordering>) {
        if self.keys > other.keys {
            Some(Ordering::Greater)
        } else if self.keys < other.keys {
            Some(Ordering::Less)
        } else if self.weapons > other.weapons {
            Some(Ordering::Greater)
        } else if self.weapons < other.weapons {
            Some(Ordering::Less)
        } else {
            Some(Ordering::Equal)
        }
    }
}

impl PartialOrdSpecImpl for Currencies {
    open spec fn obeys_partial_cmp_spec() -> bool {
        true
    }

    open spec fn partial_cmp_spec(&self, other: &Currencies) -> Option<Ordering> {
        if self.keys > other.keys {
            Some(Ordering::Greater)
        } else if self.keys < other.keys {
            Some(Ordering::Less)
        } else if self.weapons > other.weapons {
            Some(Ordering::Greater)
        } else if self.weapons < other.weapons {
            Some(Ordering::Less)
        } else {
            Some(Ordering::Equal)
        }
    }
}

impl Currencies {
    /// What a value in weapons is worth in keys and weapons at `key_price_weapons` a key: the
    /// quotient truncated toward zero, held to the bounds of [`Currency`], and what is left.
    pub open spec fn from_weapons_spec(weapons: int, key_price_weapons: int) -> Currencies {
        Currencies {
            keys: saturate(trunc_div(weapons, key_price_weapons)),
            weapons: trunc_rem(weapons, key_price_weapons) as Currency,
        }
    }

    /// The value in weapons at `key_price` weapons a key, held to the bounds of [`Currency`].
    pub open spec fn to_weapons_spec(&self, key_price: Currency) -> Currency {
        to_metal_spec(self.weapons as int, self.keys as int, key_price as int)
    }

    /// The value with its weapons rounded.
    pub open spec fn round_spec(self, rounding: Rounding) -> Currencies {
        Currencies {
            keys: self.keys,
            weapons: round_metal_spec(self.weapons as int, rounding) as Currency,
        }
    }

    /// The value expressed anew at `key_price_weapons` a key.
    pub open spec fn neaten_spec(&self, key_price_weapons: Currency) -> Currencies {
        Self::from_weapons_spec(
            self.to_weapons_spec(key_price_weapons) as int,
            key_price_weapons as int,
        )
    }

    /// The sum, field by field, each held to the bounds of [`Currency`].
    pub open spec fn saturating_sum(self, rhs: Currencies) -> Currencies {
        Currencies {
            keys: saturate(self.keys + rhs.keys),
            weapons: saturate(self.weapons + rhs.weapons),
        }
    }

    /// The difference, field by field, each held to the bounds of [`Currency`].
    pub open spec fn saturating_difference(self, rhs: Currencies) -> Currencies {
        Currencies {
            keys: saturate(self.keys - rhs.keys),
            weapons: saturate(self.weapons - rhs.weapons),
        }
    }

    /// Both fields multiplied by `rhs`, each held to the bounds of [`Currency`].
    pub open spec fn saturating_product(self, rhs: Currency) -> Currencies {
        Currencies { keys: saturate(self.keys * rhs), weapons: saturate(self.weapons * rhs) }
    }

    /// Both fields divided by `rhs` with the quotient truncated toward zero, each held to the
    /// bounds of [`Currency`].
    pub open spec fn saturating_quotient(self, rhs: Currency) -> Currencies {
        Currencies {
            keys: saturate(trunc_div(self.keys as int, rhs as int)),
            weapons: saturate(trunc_div(self.weapons as int, rhs as int)),
        }
    }

    /// Both fields times `numerator` over `denominator`, each rounded to the nearest integer,
    /// half going away from zero, and held to the bounds of [`Currency`].
    pub open spec fn scaled(self, numerator: Currency, denominator: Currency) -> Currencies {
        Currencies {
            keys: saturate(round_ratio(self.keys * numerator, denominator as int)),
            weapons: saturate(round_ratio(self.weapons * numerator, denominator as int)),
        }
    }

    /// The sum, field by field, where both sums are values of [`Currency`].
    pub open spec fn checked_sum(self, rhs: Currencies) -> Option<Currencies> {
        if fits(self.keys + rhs.keys) && fits(self.weapons + rhs.weapons) {
            Some(
                Currencies {
                    keys: (self.keys + rhs.keys) as Currency,
                    weapons: (self.weapons + rhs.weapons) as Currency,
                },
            )
        } else {
            None
        }
    }

    /// The difference, field by field, where both differences are values of [`Currency`].
    pub open spec fn checked_difference(self, rhs: Currencies) -> Option<Currencies> {
        if fits(self.keys - rhs.keys) && fits(self.weapons - rhs.weapons) {
            Some(
                Currencies {
                    keys: (self.keys - rhs.keys) as Currency,
                    weapons: (self.weapons - rhs.weapons) as Currency,
                },
            )
        } else {
            None
        }
    }

    /// Both fields multiplied by `rhs`, where both products are values of [`Currency`].
    pub open spec fn checked_product(self, rhs: Currency) -> Option<Currencies> {
        if fits(self.keys * rhs) && fits(self.weapons * rhs) {
            Some(
                Currencies {
                    keys: (self.keys * rhs) as Currency,
                    weapons: (self.weapons * rhs) as Currency,
                },
            )
        } else {
            None
        }
    }

    /// Both fields divided by `rhs` with the quotient truncated toward zero, where `rhs` is
    /// not zero and both quotients are values of [`Currency`].
    pub open spec fn checked_quotient(self, rhs: Currency) -> Option<Currencies> {
        if rhs != 0 && fits(trunc_div(self.keys as int, rhs as int)) && fits(
            trunc_div(self.weapons as int, rhs as int),
        ) {
            Some(
                Currencies {
                    keys: trunc_div(self.keys as int, rhs as int) as Currency,
                    weapons: trunc_div(self.weapons as int, rhs as int) as Currency,
                },
            )
        } else {
            None
        }
    }

    /// The value in weapons at `key_price` weapons a key, where the product and the sum are
    /// values of [`Currency`].
    pub open spec fn checked_to_weapons_spec(&self, key_price: Currency) -> Option<Currency> {
        checked_to_metal_spec(self.weapons as int, self.keys as int, key_price as int)
    }

    /// Whether both fields are at least those of `other`.
    pub open spec fn can_afford_spec(&self, other: &Currencies) -> bool {
        self.keys >= other.keys && self.weapons >= other.weapons
    }

    /// How the value is written: the keys as an integer with `key` behind one key and `keys`
    /// behind any other number, the metal in refined with `ref` behind it.
    pub open spec fn text(&self) -> Seq<char> {
        amounts_text(
            int_text(self.keys as int),
            if self.keys == 1 {
                KEY_SYMBOL@
            } else {
                KEYS_SYMBOL@
            },
            metal_text(self.weapons),
            self.keys != 0,
            self.weapons != 0,
        )
    }

    /// The value that a text stands for.
    pub open spec fn parse_spec(text: Seq<char>) -> Result<Currencies, ParseError> {
        match parse_currency_spec(text) {
            Ok((keys, weapons)) => Ok(Currencies { keys, weapons }),
            Err(e) => Err(e),
        }
    }

    /// The value that the fields of a record stand for, where a field that is missing counts
    /// zero; `None` for a record that stands for no value at all.
    pub open spec fn from_fields_spec(
        keys: Option<Currency>,
        weapons: Option<Currency>,
    ) -> Option<Currencies> {
        let keys = match keys {
            Some(count) => count,
            None => 0,
        };
        let weapons = match weapons {
            Some(count) => count,
            None => 0,
        };
        if keys == 0 && weapons == 0 {
            None
        } else {
            Some(Currencies { keys, weapons })
        }
    }

    /// The fields of the record that stands for the value: a field that is zero is left out.
    pub open spec fn fields_spec(&self) -> (Option<Currency>, Option<Currency>) {
        (
            if self.keys == 0 {
                None
            } else {
                Some(self.keys)
            },
            if self.weapons == 0 {
                None
            } else {
                Some(self.weapons)
            },
        )
    }

    /// Creates a new [`Currencies`] with `0` keys and `0` weapons. Same as
    /// `Currencies::default()`.
    pub fn new() -> (currencies: Currencies)
        ensures
            currencies == (Currencies { keys: 0, weapons: 0 }),
    {
        Currencies { keys: 0, weapons: 0 }
    }

    /// Converts a weapon value into the appropriate number of keys and weapons using the given
    /// key price (represented as weapons), which is not zero.
    ///
    /// The division truncates toward zero, so the weapons that are left have the sign of the
    /// value. This method is saturating.
    pub fn from_weapons(weapons: Currency, key_price_weapons: Currency) -> (currencies: Currencies)
        requires
            key_price_weapons != 0,
        ensures
            currencies == Self::from_weapons_spec(weapons as int, key_price_weapons as int),
    {
        let left = if key_price_weapons == -1 {
            assert((-(weapons as int)) % -1 == 0 && (weapons as int) % -1 == 0);
            0
        } else {
            weapons % key_price_weapons
        };
        Currencies { keys: saturating_div(weapons, key_price_weapons), weapons: left }
    }

    /// Converts currencies to a weapon value using the given key price (represented as
    /// weapons).
    ///
    /// This method is saturating.
    pub fn to_weapons(&self, key_price: Currency) -> (total: Currency)
        ensures
            total == self.to_weapons_spec(key_price),
    {
        to_metal(self.weapons, self.keys, key_price)
    }

    /// Converts currencies to a weapon value using the given key price (represented as
    /// weapons). In cases where the result overflows or underflows beyond the limit for
    /// [`Currency`], `None` will be returned.
    pub fn checked_to_weapons(&self, key_price: Currency) -> (total: Option<Currency>)
        ensures
            total == self.checked_to_weapons_spec(key_price),
    {
        checked_to_metal(self.weapons, self.keys, key_price)
    }

    /// Checks if the currencies do not contain any value.
    pub fn is_empty(&self) -> (empty: bool)
        ensures
            empty == (self.keys == 0 && self.weapons == 0),
    {
        self.keys == 0 && self.weapons == 0
    }

    /// Rounds the weapon value using the given rounding method and returns the rounded value;
    /// `self` is left as it is. The rounded weapons have to be a value of [`Currency`].
    pub fn round(self, rounding: &Rounding) -> (rounded: Currencies)
        requires
            fits(round_metal_spec(self.weapons as int, *rounding)),
        ensures
            rounded == self.round_spec(*rounding),
    {
        Currencies { keys: self.keys, weapons: round_metal(self.weapons, rounding) }
    }

    /// Rounds the weapon value using the given rounding method, or gives `None` where the
    /// rounded weapons are no value of [`Currency`].
    pub fn checked_round(self, rounding: &Rounding) -> (rounded: Option<Currencies>)
        ensures
            rounded == if fits(round_metal_spec(self.weapons as int, *rounding)) {
                Some(self.round_spec(*rounding))
            } else {
                None
            },
    {
        match checked_round_metal(self.weapons, rounding) {
            Some(weapons) => Some(Currencies { keys: self.keys, weapons }),
            None => None,
        }
    }

    /// Neatens currencies. If the `weapons` value is over `key_price_weapons`, the `weapons`
    /// value will be converted to `keys`, with the remainder remaining as `weapons`. The key
    /// price is not zero.
    ///
    /// This method is saturating.
    pub fn neaten(&self, key_price_weapons: Currency) -> (neat: Currencies)
        requires
            key_price_weapons != 0,
        ensures
            neat == self.neaten_spec(key_price_weapons),
    {
        Self::from_weapons(self.to_weapons(key_price_weapons), key_price_weapons)
    }

    /// Checks whether the currencies have enough `keys` and `weapons` to afford the `other`
    /// currencies. This is simply `self.keys >= other.keys && self.weapons >= other.weapons`.
    pub fn can_afford(&self, other: &Currencies) -> (enough: bool)
        ensures
            enough == self.can_afford_spec(other),
    {
        self.keys >= other.keys && self.weapons >= other.weapons
    }

    /// Checked integer multiplication. Computes `self * rhs` for each field, returning `None`
    /// if overflow occurred.
    pub fn checked_mul(&self, rhs: Currency) -> (product: Option<Currencies>)
        ensures
            product == self.checked_product(rhs),
    {
        match (self.keys.checked_mul(rhs), self.weapons.checked_mul(rhs)) {
            (Some(keys), Some(weapons)) => Some(Currencies { keys, weapons }),
            _ => None,
        }
    }

    /// Checked integer division. Computes `self / rhs`, returning `None` if `rhs == 0` or the
    /// division results in overflow.
    pub fn checked_div(&self, rhs: Currency) -> (quotient: Option<Currencies>)
        ensures
            quotient == self.checked_quotient(rhs),
    {
        match (checked_div(self.keys, rhs), checked_div(self.weapons, rhs)) {
            (Some(keys), Some(weapons)) => Some(Currencies { keys, weapons }),
            _ => None,
        }
    }

    /// Adds currencies. `None` if the result overflows integer bounds.
    pub fn checked_add(&self, other: Currencies) -> (sum: Option<Currencies>)
        ensures
            sum == self.checked_sum(other),
    {
        match (self.keys.checked_add(other.keys), self.weapons.checked_add(other.weapons)) {
            (Some(keys), Some(weapons)) => Some(Currencies { keys, weapons }),
            _ => None,
        }
    }

    /// Subtracts currencies. `None` if the result overflows integer bounds.
    pub fn checked_sub(&self, other: Currencies) -> (difference: Option<Currencies>)
        ensures
            difference == self.checked_difference(other),
    {
        match (self.keys.checked_sub(other.keys), self.weapons.checked_sub(other.weapons)) {
            (Some(keys), Some(weapons)) => Some(Currencies { keys, weapons }),
            _ => None,
        }
    }

    /// Makes a value from the fields of a record, the keys and the metal in weapons. A field
    /// that is missing counts zero, and a record that stands for no value at all is refused.
    pub fn from_fields(keys: Option<Currency>, weapons: Option<Currency>) -> (currencies: Option<
        Currencies,
    >)
        ensures
            currencies == Self::from_fields_spec(keys, weapons),
    {
        let keys = match keys {
            Some(count) => count,
            None => 0,
        };
        let weapons = match weapons {
            Some(count) => count,
            None => 0,
        };
        if keys == 0 && weapons == 0 {
            None
        } else {
            Some(Currencies { keys, weapons })
        }
    }

    /// The fields of the record that stands for the value, the keys and the metal in weapons:
    /// a field that is zero is left out.
    pub fn fields(&self) -> (record: (Option<Currency>, Option<Currency>))
        ensures
            record == self.fields_spec(),
    {
        (
            if self.keys == 0 {
                None
            } else {
                Some(self.keys)
            },
            if self.weapons == 0 {
                None
            } else {
                Some(self.weapons)
            },
        )
    }

    /// Writes the value: `2 keys, 23.44 ref`, `1 key`, `0.5 ref`, and `0 keys, 0 ref` for
    /// the empty one.
    pub fn to_string(&self) -> (text: String)
        ensures
            text@ == self.text(),
    {
        let mut keys = String::new();
        push_int(&mut keys, self.keys);
        let mut metal = String::new();
        push_metal(&mut metal, self.weapons);
        assert(keys@ =~= int_text(self.keys as int));
        assert(metal@ =~= metal_text(self.weapons));
        print_amounts(
            keys.as_str(),
            pluralize(self.keys, KEY_SYMBOL, KEYS_SYMBOL),
            metal.as_str(),
            self.keys != 0,
            self.weapons != 0,
        )
    }

    /// Both fields times `numerator` over `denominator`, which is not zero, each rounded to
    /// the nearest integer and held to the bounds of [`Currency`]: multiplying by two and a
    /// half is scaling by 5 over 2, dividing by it scaling by 2 over 5.
    pub fn scale(&self, numerator: Currency, denominator: Currency) -> (scaled: Currencies)
        requires
            denominator != 0,
        ensures
            scaled == self.scaled(numerator, denominator),
    {
        Currencies {
            keys: scale_ratio(self.keys, numerator, denominator),
            weapons: scale_ratio(self.weapons, numerator, denominator),
        }
    }

    /// Adds `other` to the value in place, each field held to the bounds of [`Currency`].
    pub fn add_assign(&mut self, other: Currencies)
        ensures
            *final(self) == old(self).saturating_sum(other),
    {
        self.keys = saturating_add(self.keys, other.keys);
        self.weapons = saturating_add(self.weapons, other.weapons);
    }

    /// Subtracts `other` from the value in place, each field held to the bounds of
    /// [`Currency`].
    pub fn sub_assign(&mut self, other: Currencies)
        ensures
            *final(self) == old(self).saturating_difference(other),
    {
        self.keys = saturating_sub(self.keys, other.keys);
        self.weapons = saturating_sub(self.weapons, other.weapons);
    }

    /// Multiplies the value in place, each field held to the bounds of [`Currency`].
    pub fn mul_assign(&mut self, other: Currency)
        ensures
            *final(self) == old(self).saturating_product(other),
    {
        self.keys = saturating_mul(self.keys, other);
        self.weapons = saturating_mul(self.weapons, other);
    }

    /// Divides the value in place by a number that is not zero, each field held to the bounds
    /// of [`Currency`].
    pub fn div_assign(&mut self, other: Currency)
        requires
            other != 0,
        ensures
            *final(self) == old(self).saturating_quotient(other),
    {
        self.keys = saturating_div(self.keys, other);
        self.weapons = saturating_div(self.weapons, other);
    }
}

impl<'a> TryFrom<&'a str> for Currencies {
    type Error = ParseError;

    fn try_from(string: &'a str) -> (r: Result<Currencies, ParseError>) {
        match parse_currency_from_string(string) {
            Ok((keys, weapons)) => Ok(Currencies { keys, weapons }),
            Err(e) => Err(e),
        }
    }
}

impl<'a> TryFromSpecImpl<&'a str> for Currencies {
    open spec fn obeys_try_from_spec() -> bool {
        true
    }

    open spec fn try_from_spec(string: &'a str) -> Result<Currencies, ParseError> {
        Currencies::parse_spec(string@)
    }
}

impl<'a> TryFrom<&'a String> for Currencies {
    type Error = ParseError;

    fn try_from(string: &'a String) -> (r: Result<Currencies, ParseError>) {
        match parse_currency_from_string(string.as_str()) {
            Ok((keys, weapons)) => Ok(Currencies { keys, weapons }),
            Err(e) => Err(e),
        }
    }
}

impl<'a> TryFromSpecImpl<&'a String> for Currencies {
    open spec fn obeys_try_from_spec() -> bool {
        true
    }

    open spec fn try_from_spec(string: &'a String) -> Result<Currencies, ParseError> {
        Currencies::parse_spec(string@)
    }
}

impl TryFrom<String> for Currencies {
    type Error = ParseError;

    fn try_from(string: String) -> (r: Result<Currencies, ParseError>) {
        match parse_currency_from_string(string.as_str()) {
            Ok((keys, weapons)) => Ok(Currencies { keys, weapons }),
            Err(e) => Err(e),
        }
    }
}

impl TryFromSpecImpl<String> for Currencies {
    open spec fn obeys_try_from_spec() -> bool {
        true
    }

    open spec fn try_from_spec(string: String) -> Result<Currencies, ParseError> {
        Currencies::parse_spec(string@)
    }
}

impl core::str::FromStr for Currencies {
    type Err = ParseError;

    fn from_str(string: &str) -> (r: Result<Currencies, ParseError>)
        ensures
            r == Currencies::parse_spec(string@),
    {
        match parse_currency_from_string(string) {
            Ok((keys, weapons)) => Ok(Currencies { keys, weapons }),
            Err(e) => Err(e),
        }
    }
}

} // verus!
