//! What holds of [`Currencies`] for all values: of its arithmetic, of rounding, of the order,
//! of the fields of a record and of reading what was written.

use crate::arith::{fits, lemma_trunc_div_bounds, lemma_trunc_div_rem, saturate};
use crate::constants::{KEYS_SYMBOL, KEY_SYMBOL, METAL_SYMBOL};
use crate::currencies::Currencies;
use crate::error::ParseError;
use crate::grammar::{
    lemma_clause_reads_back, lemma_one_clause, lemma_symbols, lemma_two_clauses, Denomination,
};
use crate::numeral::{int_text, is_digit, metal_text};
use crate::numeral_lemmas::{lemma_int_text_reads_back, lemma_metal_text_reads_back};
use crate::rounding::{
    lemma_rounded_is_multiple, lemma_shifted_remainders, round_metal_spec, Rounding,
};
use crate::scan::{lemma_space_run, lemma_space_tail};
use core::cmp::Ordering;
use vstd::arithmetic::div_mod::{
    lemma_fundamental_div_mod, lemma_fundamental_div_mod_converse, lemma_mod_bound,
};
use vstd::prelude::*;
use vstd::std_specs::cmp::PartialOrdSpec;

verus! {

/// The checked sum is the saturating sum wherever neither field's true sum leaves the bounds
/// of the integer type, and `None` wherever one does; the saturating sum then holds, in that
/// field, the bound that the true sum lies beyond.
pub proof fn law_checked_add_agrees_with_saturating_add(a: Currencies, b: Currencies)
    ensures
        (fits(a.keys + b.keys) && fits(a.weapons + b.weapons)) ==> a.checked_sum(b) == Some(
            a.saturating_sum(b),
        ),
        !(fits(a.keys + b.keys) && fits(a.weapons + b.weapons)) ==> a.checked_sum(b).is_none(),
        a.saturating_sum(b).keys == saturate(a.keys + b.keys),
        a.saturating_sum(b).weapons == saturate(a.weapons + b.weapons),
        a.keys + b.keys > i64::MAX ==> a.saturating_sum(b).keys == i64::MAX,
        a.keys + b.keys < i64::MIN ==> a.saturating_sum(b).keys == i64::MIN,
        a.weapons + b.weapons > i64::MAX ==> a.saturating_sum(b).weapons == i64::MAX,
        a.weapons + b.weapons < i64::MIN ==> a.saturating_sum(b).weapons == i64::MIN,
{
}

/// The same of the difference.
pub proof fn law_checked_sub_agrees_with_saturating_sub(a: Currencies, b: Currencies)
    ensures
        (fits(a.keys - b.keys) && fits(a.weapons - b.weapons)) ==> a.checked_difference(b) == Some(
            a.saturating_difference(b),
        ),
        !(fits(a.keys - b.keys) && fits(a.weapons - b.weapons)) ==> a.checked_difference(
            b,
        ).is_none(),
{
}

/// The same of the product by an integer.
pub proof fn law_checked_mul_agrees_with_saturating_mul(a: Currencies, factor: i64)
    ensures
        (fits(a.keys * factor) && fits(a.weapons * factor)) ==> a.checked_product(factor) == Some(
            a.saturating_product(factor),
        ),
        !(fits(a.keys * factor) && fits(a.weapons * factor)) ==> a.checked_product(
            factor,
        ).is_none(),
{
}

/// The same of the quotient by an integer that is not zero: only the least value divided by
/// `-1` has none.
pub proof fn law_checked_div_agrees_with_saturating_div(a: Currencies, divisor: i64)
    requires
        divisor != 0,
    ensures
        a.checked_quotient(divisor).is_some() ==> a.checked_quotient(divisor) == Some(
            a.saturating_quotient(divisor),
        ),
        a.checked_quotient(divisor).is_none() <==> divisor == -1 && (a.keys == i64::MIN
            || a.weapons == i64::MIN),
        a.checked_quotient(0).is_none(),
{
    lemma_trunc_div_bounds(a.keys as int, divisor as int);
    lemma_trunc_div_bounds(a.weapons as int, divisor as int);
}

/// The checked value in weapons is the saturating one wherever neither the product nor the
/// sum leaves the bounds of the integer type, and `None` wherever one does.
pub proof fn law_checked_to_weapons_agrees_with_to_weapons(a: Currencies, key_price: i64)
    ensures
        a.checked_to_weapons_spec(key_price).is_some() ==> a.checked_to_weapons_spec(key_price)
            == Some(a.to_weapons_spec(key_price)),
        a.checked_to_weapons_spec(key_price).is_none() <==> !fits(a.keys * key_price) || !fits(
            a.keys * key_price + a.weapons,
        ),
{
}

/// A value that is a whole number of refined is left as it is by every rounding method.
pub proof fn law_round_keeps_whole_refined(metal: int, rounding: Rounding)
    requires
        metal % 18 == 0,
    ensures
        round_metal_spec(metal, rounding) == metal,
{
    let q = metal / 18;
    lemma_fundamental_div_mod(metal, 18);
    assert(metal == (9 * q) * 2 + 0);
    lemma_fundamental_div_mod_converse(metal, 2, 9 * q, 0);
    lemma_shifted_remainders(metal, 18, 9);
}

/// Rounding to the nearest refined gives a whole number of refined, so rounding once more
/// changes nothing.
pub proof fn law_round_refined_is_idempotent(metal: int)
    ensures
        round_metal_spec(metal, Rounding::Refined) % 18 == 0,
        round_metal_spec(round_metal_spec(metal, Rounding::Refined), Rounding::Refined)
            == round_metal_spec(metal, Rounding::Refined),
{
    let once = round_metal_spec(metal, Rounding::Refined);
    if metal >= 0 {
        lemma_rounded_is_multiple(metal + 9, 18);
    } else {
        lemma_rounded_is_multiple(-metal + 9, 18);
    }
    law_round_keeps_whole_refined(once, Rounding::Refined);
}

/// Every rounding method gives a value that it leaves as it is.
pub proof fn law_round_is_idempotent(metal: int, rounding: Rounding)
    ensures
        round_metal_spec(round_metal_spec(metal, rounding), rounding) == round_metal_spec(
            metal,
            rounding,
        ),
{
    match rounding {
        Rounding::UpScrap | Rounding::DownScrap => {
            lemma_rounded_is_multiple(metal, 2);
        },
        Rounding::Refined => {
            law_round_refined_is_idempotent(metal);
        },
        Rounding::UpRefined | Rounding::DownRefined => {
            lemma_rounded_is_multiple(metal, 18);
        },
        Rounding::NoRounding => {},
    }
}

/// Rounding moves a value by less than the unit it rounds to, up never below the value and
/// down never above it.
pub proof fn law_round_stays_near(metal: int, rounding: Rounding)
    ensures
        metal <= round_metal_spec(metal, Rounding::UpScrap) < metal + 2,
        metal - 2 < round_metal_spec(metal, Rounding::DownScrap) <= metal,
        metal <= round_metal_spec(metal, Rounding::UpRefined) < metal + 18,
        metal - 18 < round_metal_spec(metal, Rounding::DownRefined) <= metal,
        metal - 9 <= round_metal_spec(metal, Rounding::Refined) <= metal + 9,
{
    lemma_mod_bound(metal, 2);
    lemma_mod_bound(metal, 18);
    lemma_mod_bound(metal + 9, 18);
    lemma_mod_bound(-metal + 9, 18);
}

/// Every value can afford itself.
pub proof fn law_can_afford_is_reflexive(a: Currencies)
    ensures
        a.can_afford_spec(&a),
{
}

/// To afford is transitive, and two values that afford each other are equal.
pub proof fn law_can_afford_is_an_order(a: Currencies, b: Currencies, c: Currencies)
    ensures
        a.can_afford_spec(&b) && b.can_afford_spec(&c) ==> a.can_afford_spec(&c),
        a.can_afford_spec(&b) && b.can_afford_spec(&a) ==> a == b,
{
}

/// Writing a value and reading what was written gives the value back, the empty one too.
pub proof fn law_text_reads_back(a: Currencies)
    ensures
        Currencies::parse_spec(a.text()) == Ok::<Currencies, ParseError>(a),
{
    lemma_symbols();
    lemma_int_text_reads_back(a.keys);
    lemma_metal_text_reads_back(a.weapons);
    let keys = int_text(a.keys as int);
    let word = if a.keys == 1 {
        KEY_SYMBOL@
    } else {
        KEYS_SYMBOL@
    };
    let metal = metal_text(a.weapons);
    let none = Seq::<char>::empty();
    let keys_clause = none + keys + seq![' '] + word;
    let text = a.text();
    assert(is_digit(keys[0]) || keys[0] == '-' || keys[0] == '.');
    if (a.keys != 0) == (a.weapons != 0) {
        let metal_clause = seq![' '] + metal + seq![' '] + METAL_SYMBOL@;
        lemma_clause_reads_back(none, keys, word, Denomination::Keys);
        lemma_clause_reads_back(seq![' '], metal, METAL_SYMBOL@, Denomination::Metal);
        lemma_two_clauses(
            keys_clause,
            metal_clause,
            (None, None),
            Denomination::Keys,
            keys,
            Denomination::Metal,
            metal,
        );
        assert(text =~= keys_clause + seq![','] + metal_clause);
        assert(text[0] == keys[0]);
        lemma_space_run(text, 0);
        assert(text.last() == METAL_SYMBOL@.last());
        lemma_space_tail(text, 0);
    } else if a.keys != 0 {
        lemma_clause_reads_back(none, keys, word, Denomination::Keys);
        lemma_one_clause(keys_clause, (None, None), Denomination::Keys, keys);
        assert(text =~= keys_clause);
    } else {
        let metal_clause = none + metal + seq![' '] + METAL_SYMBOL@;
        lemma_clause_reads_back(none, metal, METAL_SYMBOL@, Denomination::Metal);
        lemma_one_clause(metal_clause, (None, None), Denomination::Metal, metal);
        assert(text =~= metal_clause);
    }
}

/// The record of a value that is not empty is read back as the value, and that of the empty
/// value is refused.
pub proof fn law_fields_read_back(a: Currencies)
    ensures
        Currencies::from_fields_spec(a.fields_spec().0, a.fields_spec().1) == if a.keys == 0
            && a.weapons == 0 {
            None
        } else {
            Some(a)
        },
{
}

/// Where the value in weapons of `a` is one of the integer type, neatening keeps it: the new
/// keys times the price and the new weapons make the same sum. The weapons that are left are
/// fewer than a key costs and have the sign of the value.
pub proof fn law_neaten_keeps_value(a: Currencies, key_price: i64)
    requires
        key_price != 0,
        a.checked_to_weapons_spec(key_price).is_some(),
        !(a.keys * key_price + a.weapons == i64::MIN && key_price == -1),
    ensures
        a.neaten_spec(key_price).keys * key_price + a.neaten_spec(key_price).weapons == a.keys
            * key_price + a.weapons,
        key_price > 0 ==> -key_price < a.neaten_spec(key_price).weapons < key_price,
        key_price < 0 ==> key_price < a.neaten_spec(key_price).weapons < -key_price,
        a.keys * key_price + a.weapons >= 0 ==> a.neaten_spec(key_price).weapons >= 0,
        a.keys * key_price + a.weapons <= 0 ==> a.neaten_spec(key_price).weapons <= 0,
{
    let total = a.keys * key_price + a.weapons;
    assert(a.to_weapons_spec(key_price) == total);
    lemma_trunc_div_bounds(total, key_price as int);
    lemma_trunc_div_rem(total, key_price as int);
}

/// Any two values are ordered, by their keys first and by their weapons where the keys are
/// the same; only a value and itself are equal in the order.
pub proof fn law_order_is_by_keys_first(a: Currencies, b: Currencies)
    ensures
        a.partial_cmp_spec(&b).is_some(),
        a.partial_cmp_spec(&b) == Some(Ordering::Less) <==> a.keys < b.keys || (a.keys == b.keys
            && a.weapons < b.weapons),
        a.partial_cmp_spec(&b) == Some(Ordering::Equal) <==> a == b,
        a.partial_cmp_spec(&b) == Some(Ordering::Greater) <==> b.partial_cmp_spec(&a) == Some(
            Ordering::Less,
        ),
{
}

/// The order is transitive.
pub proof fn law_order_is_transitive(a: Currencies, b: Currencies, c: Currencies)
    requires
        a.partial_cmp_spec(&b) == Some(Ordering::Less),
        b.partial_cmp_spec(&c) == Some(Ordering::Less),
    ensures
        a.partial_cmp_spec(&c) == Some(Ordering::Less),
{
}

} // verus!
