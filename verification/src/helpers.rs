//! Conversions between keys and metal, rounding, and the reading and writing of text.

use crate::arith::{fits, saturate, saturating_add, saturating_mul};
use crate::constants::{KEYS_SYMBOL, KEY_SYMBOL, METAL_SYMBOL, ONE_REF, ONE_SCRAP};
use crate::error::ParseError;
use crate::grammar::{
    amounts_text, clauses_spec, count_view, denomination_of, grouped, parse_currencies_spec,
    parse_currency_spec, thousands_spec, Denomination,
};
use crate::numeral::{chars_of, parse_int, parse_metal};
use crate::rounding::{lemma_round_by_remainder, round_metal_spec, Rounding};
use crate::scan::{find_char, is_word, skip_spaces, skip_spaces_back, trim, trim_start};
use crate::types::Currency;
use vstd::arithmetic::div_mod::{
    lemma_fundamental_div_mod, lemma_fundamental_div_mod_converse, lemma_mod_bound,
};
use vstd::prelude::*;
use vstd::string::*;

verus! {

/// The value in weapons of `keys` keys and `metal` weapons at `key_price` weapons a key, with
/// the product and then the sum held to the bounds of [`Currency`].
pub open spec fn to_metal_spec(metal: int, keys: int, key_price: int) -> Currency {
    saturate(saturate(keys * key_price) + metal)
}

/// Converts currencies to a metal value using the given key price (represented as weapons).
/// This method is saturating.
pub fn to_metal(metal: Currency, keys: Currency, key_price: Currency) -> (total: Currency)
    ensures
        total == to_metal_spec(metal as int, keys as int, key_price as int),
{
    saturating_add(saturating_mul(keys, key_price), metal)
}

/// The value in weapons of `keys` keys and `metal` weapons at `key_price` weapons a key, where
/// the product and the sum are values of [`Currency`].
pub open spec fn checked_to_metal_spec(metal: int, keys: int, key_price: int) -> Option<Currency> {
    if fits(keys * key_price) && fits(keys * key_price + metal) {
        Some((keys * key_price + metal) as Currency)
    } else {
        None
    }
}

/// Converts currencies to a metal value using the given key price (represented as weapons).
/// In cases where the product or the sum overflows or underflows beyond the limit for
/// [`Currency`], `None` is returned.
pub fn checked_to_metal(metal: Currency, keys: Currency, key_price: Currency) -> (total: Option<
    Currency,
>)
    ensures
        total == checked_to_metal_spec(metal as int, keys as int, key_price as int),
{
    match keys.checked_mul(key_price) {
        Some(keys_value) => metal.checked_add(keys_value),
        None => None,
    }
}

/// Pluralizes a value using an integer as the test.
pub fn pluralize<'a>(amount: Currency, singular: &'a str, plural: &'a str) -> (word: &'a str)
    ensures
        word == if amount == 1 {
            singular
        } else {
            plural
        },
{
    if amount == 1 {
        singular
    } else {
        plural
    }
}

/// The number of refined that an amount of weapons is, where it is a whole number of them.
pub fn whole_refined(weapons: Currency) -> (refined: Option<Currency>)
    ensures
        refined == if weapons % 18 == 0 {
            Some((weapons / 18) as Currency)
        } else {
            None
        },
{
    proof {
        let q = weapons as int / 18;
        lemma_fundamental_div_mod(weapons as int, 18);
        lemma_mod_bound(weapons as int, 18);
        lemma_mod_bound(-weapons, 18);
        if weapons as int % 18 == 0 {
            assert(-weapons == (-q) * 18 + 0);
            lemma_fundamental_div_mod_converse(-weapons, 18, -q, 0);
        } else {
            lemma_fundamental_div_mod(-weapons, 18);
            if (-weapons) % 18 == 0 {
                assert(weapons as int == (-((-weapons) / 18)) * 18 + 0);
                lemma_fundamental_div_mod_converse(weapons as int, 18, -((-weapons) / 18), 0);
            }
        }
    }
    if weapons % ONE_REF == 0 {
        Some(weapons / ONE_REF)
    } else {
        None
    }
}

/// How far a metal value is from what it rounds to, and in which direction.
fn rounding_step(metal: Currency, rounding: &Rounding) -> (step: Currency)
    ensures
        metal + step == round_metal_spec(metal as int, *rounding),
        -18 < step < 18,
{
    proof {
        lemma_round_by_remainder(metal as int, 2);
        lemma_round_by_remainder(metal as int, 18);
    }
    match *rounding {
        Rounding::UpScrap => {
            if metal % ONE_SCRAP != 0 {
                1
            } else {
                0
            }
        },
        Rounding::DownScrap => {
            if metal % ONE_SCRAP != 0 {
                -1
            } else {
                0
            }
        },
        Rounding::Refined => {
            let remainder = metal % ONE_REF;
            if remainder >= ONE_REF / 2 {
                ONE_REF - remainder
            } else if remainder <= -(ONE_REF / 2) {
                -ONE_REF - remainder
            } else {
                -remainder
            }
        },
        Rounding::UpRefined => {
            let remainder = metal % ONE_REF;
            if remainder > 0 {
                ONE_REF - remainder
            } else {
                -remainder
            }
        },
        Rounding::DownRefined => {
            let remainder = metal % ONE_REF;
            if remainder < 0 {
                -ONE_REF - remainder
            } else {
                -remainder
            }
        },
        Rounding::NoRounding => 0,
    }
}

/// Rounds a metal value. The rounded value has to be one of [`Currency`], which it is for
/// every value that is at least 17 weapons away from both bounds.
pub fn round_metal(metal: Currency, rounding: &Rounding) -> (rounded: Currency)
    requires
        fits(round_metal_spec(metal as int, *rounding)),
    ensures
        rounded == round_metal_spec(metal as int, *rounding),
{
    metal + rounding_step(metal, rounding)
}

/// Rounds a metal value, or gives `None` where the rounded value is none of [`Currency`].
pub fn checked_round_metal(metal: Currency, rounding: &Rounding) -> (rounded: Option<Currency>)
    ensures
        rounded == if fits(round_metal_spec(metal as int, *rounding)) {
            Some(round_metal_spec(metal as int, *rounding) as Currency)
        } else {
            None
        },
{
    metal.checked_add(rounding_step(metal, rounding))
}

/// What the characters from `from` up to `to` name.
pub(crate) fn denomination_at(chars: &Vec<char>, from: usize, to: usize) -> (named: Option<
    Denomination,
>)
    requires
        from <= to <= chars.len(),
    ensures
        named == denomination_of(chars@.subrange(from as int, to as int)),
{
    if is_word(chars, from, to, &chars_of(METAL_SYMBOL)) {
        Some(Denomination::Metal)
    } else if is_word(chars, from, to, &chars_of(KEYS_SYMBOL)) || is_word(
        chars,
        from,
        to,
        &chars_of(KEY_SYMBOL),
    ) {
        Some(Denomination::Keys)
    } else {
        None
    }
}

/// Parses currencies from a string: finds the numerals for the keys and for the metal, and
/// hands them out as they were written.
///
/// A text of white space alone gives [`ParseError::NoCurrenciesDetected`]. Else the clauses
/// that the commas part are read in turn, and the first that is wrong gives the error: an
/// empty one [`ParseError::MissingCount`], one of a single word
/// [`ParseError::MissingCurrencyName`], one with a second space
/// [`ParseError::UnexpectedToken`], one whose second word names no currency
/// [`ParseError::InvalidCurrencyName`].
pub fn parse_currencies<'a>(string: &'a str) -> (r: Result<
    (Option<&'a str>, Option<&'a str>),
    ParseError,
>)
    ensures
        match parse_currencies_spec(string@) {
            Ok(found) => r matches Ok(counts) && count_view(counts.0) == found.0 && count_view(
                counts.1,
            ) == found.1,
            Err(e) => r matches Err(error) && error == e,
        },
{
    let chars = chars_of(string);
    let n = chars.len();
    let mut keys: Option<&'a str> = None;
    let mut metal: Option<&'a str> = None;
    let mut pos: usize = 0;
    let start = skip_spaces(&chars, 0, n);
    let stop = skip_spaces_back(&chars, start, n);
    proof {
        assert(chars@.subrange(0, n as int) =~= string@);
        assert(trim_start(string@) =~= chars@.subrange(start as int, n as int));
        assert(trim(string@) =~= chars@.subrange(start as int, stop as int));
    }
    if start == stop {
        return Err(ParseError::NoCurrenciesDetected);
    }
    assert(string@.skip(0) =~= string@);
    loop
        invariant
            pos <= n,
            n == chars.len(),
            chars@ == string@,
            trim(string@).len() > 0,
            clauses_spec(string@, (None, None)) == clauses_spec(
                string@.skip(pos as int),
                (count_view(keys), count_view(metal)),
            ),
        decreases n - pos,
    {
        let end = find_char(&chars, pos, n, ',');
        let first = skip_spaces(&chars, pos, end);
        let last = skip_spaces_back(&chars, first, end);
        let space = find_char(&chars, first, last, ' ');
        let ghost rest = string@.skip(pos as int);
        let ghost clause = rest.take(end - pos);
        let ghost words = trim(clause);
        proof {
            assert(rest =~= chars@.subrange(pos as int, n as int));
            assert(clause =~= chars@.subrange(pos as int, end as int));
            assert(trim_start(clause) =~= chars@.subrange(first as int, end as int));
            assert(words =~= chars@.subrange(first as int, last as int));
        }
        if first == last {
            return Err(ParseError::MissingCount);
        }
        if space == last {
            return Err(ParseError::MissingCurrencyName);
        }
        let name = space + 1;
        let extra = find_char(&chars, name, last, ' ');
        proof {
            assert(words.skip(space - first + 1) =~= chars@.subrange(name as int, last as int));
        }
        if extra < last {
            return Err(ParseError::UnexpectedToken);
        }
        let count = string.substring_char(first, space);
        proof {
            assert(words.take(space - first) =~= string@.subrange(first as int, space as int));
        }
        match denomination_at(&chars, name, last) {
            None => {
                return Err(ParseError::InvalidCurrencyName);
            },
            Some(Denomination::Metal) => {
                metal = Some(count);
            },
            Some(Denomination::Keys) => {
                keys = Some(count);
            },
        }
        if end == n {
            return Ok((keys, metal));
        }
        proof {
            assert(rest.skip(end - pos + 1) =~= string@.skip(end + 1));
        }
        pos = end + 1;
    }
}

/// Parses currencies from a string: the number of keys and the amount of metal in weapons.
///
/// The text is one clause or several with commas between them, each a numeral, a space and
/// the name of a currency: `key` or `keys` behind an integer, `ref` behind a decimal number of
/// refined. A currency that is not named counts zero, and one that is named twice counts what
/// its last clause says. Where the clauses are in order, a count of keys that is no integer of
/// [`Currency`] gives [`ParseError::ParseInt`], and then a count of metal that is no decimal
/// numeral [`ParseError::ParseFloat`]; an amount of metal beyond the bounds of [`Currency`]
/// is held to them.
pub fn parse_currency_from_string(string: &str) -> (r: Result<(Currency, Currency), ParseError>)
    ensures
        r == parse_currency_spec(string@),
{
    let (keys, metal) = match parse_currencies(string) {
        Ok(counts) => counts,
        Err(e) => {
            return Err(e);
        },
    };
    let keys = match keys {
        None => 0,
        Some(numeral) => match parse_int(numeral) {
            Ok(value) => value,
            Err(e) => {
                return Err(ParseError::ParseInt(e));
            },
        },
    };
    let weapons = match metal {
        None => 0,
        Some(numeral) => match parse_metal(numeral) {
            Ok(value) => value,
            Err(e) => {
                return Err(ParseError::ParseFloat(e));
            },
        },
    };
    Ok((keys, weapons))
}

/// Writes a number of keys and an amount of metal, given their numerals and the word for the
/// keys, and for each whether the amount is other than zero.
pub fn print_amounts(
    keys: &str,
    keys_word: &str,
    metal: &str,
    has_keys: bool,
    has_metal: bool,
) -> (text: String)
    ensures
        text@ == amounts_text(keys@, keys_word@, metal@, has_keys, has_metal),
{
    proof {
        reveal_strlit(" ");
        reveal_strlit(", ");
    }
    assert(" "@ =~= seq![' ']);
    assert(", "@ =~= seq![',', ' ']);
    let mut text = String::new();
    if has_keys || !has_metal {
        text.append(keys);
        text.append(" ");
        text.append(keys_word);
    }
    if has_keys == has_metal {
        text.append(", ");
    }
    if has_metal || !has_keys {
        text.append(metal);
        text.append(" ");
        text.append(METAL_SYMBOL);
    }
    assert(text@ =~= amounts_text(keys@, keys_word@, metal@, has_keys, has_metal));
    text
}

/// Adds thousands places to a number string e.g. "1000" becomes "1,000".
pub fn thousands(string: String) -> (output: String)
    ensures
        output@ == thousands_spec(string@),
{
    let text = string.as_str();
    let chars = chars_of(text);
    let n = chars.len();
    let point = find_char(&chars, 0, n, '.');
    assert(chars@.subrange(0, n as int) =~= string@);
    let start: usize = if point > 0 && chars[0] == '-' {
        1
    } else {
        0
    };
    let ghost digits = string@.subrange(start as int, point as int);
    proof {
        reveal_strlit(",");
        assert(","@ =~= seq![',']);
        assert(string@.take(point as int).len() == point);
        if start == 1 {
            assert(string@.take(point as int).skip(1) =~= digits);
        } else {
            assert(string@.take(point as int) =~= digits);
        }
    }
    let mut output = String::new();
    output.append(text.substring_char(0, start));
    let ghost sign = string@.subrange(0, start as int);
    let length = point - start;
    let head: usize = if length == 0 {
        0
    } else if length % 3 == 0 {
        3
    } else {
        length % 3
    };
    let mut pos: usize = start + head;
    output.append(text.substring_char(start, pos));
    assert(digits.take(head as int) =~= string@.subrange(start as int, pos as int));
    while pos < point
        invariant
            start <= pos <= point <= n,
            n == chars.len(),
            text@ == string@,
            chars@ == string@,
            digits == string@.subrange(start as int, point as int),
            (point - pos) % 3 == 0,
            point > start ==> pos > start,
            output@ == sign + grouped(digits.take(pos - start)),
            ","@ == seq![','],
        decreases point - pos,
    {
        output.append(",");
        output.append(text.substring_char(pos, pos + 3));
        proof {
            let longer = digits.take(pos - start + 3);
            assert(longer.take(longer.len() - 3) =~= digits.take(pos - start));
            assert(longer.skip(longer.len() - 3) =~= string@.subrange(pos as int, pos + 3));
            assert(output@ =~= sign + grouped(longer));
        }
        pos = pos + 3;
    }
    output.append(text.substring_char(point, n));
    proof {
        assert(digits.take(point - start) =~= digits);
        assert(string@.subrange(point as int, n as int) =~= string@.skip(point as int));
        if start == 1 {
            assert(sign =~= seq!['-']);
        } else {
            assert(sign =~= Seq::<char>::empty());
        }
        assert(output@ =~= thousands_spec(string@));
    }
    output
}

} // verus!
