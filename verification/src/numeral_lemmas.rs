//! What holds of the numerals: of the digits that stand for a number, of the rounding of an
//! amount of metal, and of reading what was written.

use crate::error::NumberError;
use crate::numeral::{
    digit_char, digit_of, digit_run, digits_value, fraction_part, hundredths_of, int_text,
    is_decimal, is_digit, is_plain, magnitude_of, metal_text, metal_weapons, nat_digits,
    parse_int_spec, parse_metal_spec, point_text, pow10, tail_part, unsigned_part, whole_part,
};
use crate::types::Currency;
use vstd::arithmetic::div_mod::{
    lemma_div_denominator, lemma_fundamental_div_mod, lemma_fundamental_div_mod_converse,
    lemma_mod_bound,
};
use vstd::prelude::*;

verus! {

/// The first `k` characters of `s` are digits and the next one, if there is one, is none:
/// then `s` starts with `k` digits.
pub proof fn lemma_digit_run(s: Seq<char>, k: int)
    requires
        0 <= k <= s.len(),
        forall|i: int| 0 <= i < k ==> is_digit(#[trigger] s[i]),
        k < s.len() ==> !is_digit(s[k]),
    ensures
        digit_run(s) == k,
    decreases s.len(),
{
    if k > 0 {
        let rest = s.skip(1);
        assert forall|i: int| 0 <= i < k - 1 implies is_digit(#[trigger] rest[i]) by {
            assert(rest[i] == s[i + 1]);
        }
        lemma_digit_run(rest, k - 1);
    }
}

/// The digits that `s` starts with are digits, and what follows them is none.
pub proof fn lemma_digit_run_is_run(s: Seq<char>)
    ensures
        0 <= digit_run(s) <= s.len(),
        forall|i: int| 0 <= i < digit_run(s) ==> is_digit(#[trigger] s[i]),
        digit_run(s) < s.len() ==> !is_digit(s[digit_run(s)]),
    decreases s.len(),
{
    if s.len() > 0 && is_digit(s[0]) {
        let rest = s.skip(1);
        lemma_digit_run_is_run(rest);
        assert forall|i: int| 0 <= i < digit_run(s) implies is_digit(#[trigger] s[i]) by {
            if i > 0 {
                assert(s[i] == rest[i - 1]);
            }
        }
        if digit_run(s) < s.len() {
            assert(s[digit_run(s)] == rest[digit_run(rest)]);
        }
    }
}

/// A sequence of digits stands for a number that is not negative, and a longer start of it
/// stands for no less.
pub proof fn lemma_digits_value_grows(s: Seq<char>, j: int, k: int)
    requires
        0 <= j <= k <= s.len(),
        forall|i: int| 0 <= i < k ==> is_digit(#[trigger] s[i]),
    ensures
        0 <= digits_value(s.take(j)) <= digits_value(s.take(k)),
    decreases k,
{
    if k == 0 {
        assert(s.take(j) =~= s.take(k));
    } else if j == k {
        lemma_digits_value_grows(s, j - 1, k - 1);
        assert(s.take(k).drop_last() =~= s.take(k - 1));
    } else {
        lemma_digits_value_grows(s, j, k - 1);
        assert(s.take(k).drop_last() =~= s.take(k - 1));
        assert(s.take(k).last() == s[k - 1]);
    }
}

/// One more digit behind a sequence of digits: ten times the number, and the digit.
pub proof fn lemma_digits_value_push(s: Seq<char>, k: int)
    requires
        0 <= k < s.len(),
    ensures
        digits_value(s.take(k + 1)) == 10 * digits_value(s.take(k)) + digit_of(s[k]),
{
    assert(s.take(k + 1).drop_last() =~= s.take(k));
    assert(s.take(k + 1).last() == s[k]);
}

/// A digit before a sequence of digits counts by the power of ten of their number.
pub proof fn lemma_digits_value_front(c: char, t: Seq<char>)
    ensures
        digits_value(seq![c] + t) == digit_of(c) * pow10(t.len()) + digits_value(t),
    decreases t.len(),
{
    let s = seq![c] + t;
    if t.len() == 0 {
        assert(s.drop_last() =~= Seq::<char>::empty());
        assert(s.last() == c);
        assert(digits_value(s.drop_last()) == 0);
    } else {
        lemma_digits_value_front(c, t.drop_last());
        assert(s.drop_last() =~= seq![c] + t.drop_last());
        assert(s.last() == t.last());
        assert(pow10(t.len()) == 10 * pow10(t.drop_last().len()));
        assert(10 * (digit_of(c) * pow10(t.drop_last().len())) == digit_of(c) * pow10(t.len()))
            by (nonlinear_arith)
            requires
                pow10(t.len()) == 10 * pow10(t.drop_last().len()),
        ;
    }
}

/// A power of ten is positive.
pub proof fn lemma_pow10_positive(k: nat)
    ensures
        pow10(k) > 0,
    decreases k,
{
    if k > 0 {
        lemma_pow10_positive((k - 1) as nat);
    }
}

/// A sequence of digits stands for a number below the power of ten of their number.
pub proof fn lemma_digits_below_power(t: Seq<char>)
    requires
        forall|i: int| 0 <= i < t.len() ==> is_digit(#[trigger] t[i]),
    ensures
        0 <= digits_value(t) < pow10(t.len()),
    decreases t.len(),
{
    if t.len() > 0 {
        let front = t.drop_last();
        assert forall|i: int| 0 <= i < front.len() implies is_digit(#[trigger] front[i]) by {
            assert(front[i] == t[i]);
        }
        lemma_digits_below_power(front);
        assert(is_digit(t.last()));
        assert(pow10(t.len()) == 10 * pow10(front.len()));
    }
}

/// The digits of a number are digits, at least one of them, and stand for the number.
pub proof fn lemma_nat_digits(n: int)
    requires
        n >= 0,
    ensures
        nat_digits(n).len() >= 1,
        forall|i: int| 0 <= i < nat_digits(n).len() ==> is_digit(#[trigger] nat_digits(n)[i]),
        digits_value(nat_digits(n)) == n,
    decreases n,
{
    if n < 10 {
        let s = nat_digits(n);
        assert(s.drop_last() =~= Seq::<char>::empty());
        assert(digits_value(s.drop_last()) == 0);
        assert(s.last() == digit_char(n));
    } else {
        lemma_nat_digits(n / 10);
        let s = nat_digits(n);
        assert(s.drop_last() =~= nat_digits(n / 10));
        assert(s.last() == digit_char(n % 10));
    }
}

/// Rounding 18 times a decimal number: the whole part counts 18 each, and of the fraction
/// only how many 36ths it holds.
pub proof fn lemma_metal_rounding(whole: int, part: int, scale: int)
    requires
        whole >= 0,
        0 <= part < scale,
    ensures
        (2 * 18 * (whole * scale + part) + scale) / (2 * scale) == 18 * whole + (36 * part / scale
            + 1) / 2,
        0 <= 36 * part / scale < 36,
{
    let t = 36 * part / scale;
    let u = 36 * part % scale;
    lemma_fundamental_div_mod(36 * part, scale);
    lemma_mod_bound(36 * part, scale);
    assert(36 * part == scale * t + u);
    let a = 36 * whole + t + 1;
    let x = 2 * 18 * (whole * scale + part) + scale;
    assert(x == a * scale + u) by (nonlinear_arith)
        requires
            x == 2 * 18 * (whole * scale + part) + scale,
            36 * part == scale * t + u,
            a == 36 * whole + t + 1,
    ;
    assert(0 <= t < 36) by (nonlinear_arith)
        requires
            36 * part == scale * t + u,
            0 <= u < scale,
            0 <= part < scale,
    ;
    assert(x >= 0) by (nonlinear_arith)
        requires
            x == a * scale + u,
            a >= 0,
            scale > 0,
            u >= 0,
    ;
    lemma_fundamental_div_mod_converse(x, scale, a, u);
    lemma_div_denominator(x, scale, 2);
    assert(scale * 2 == 2 * scale);
    assert(x / (2 * scale) == a / 2);
}

/// How many 36ths a fraction holds, digit by digit from the last: each digit takes up what
/// the digits behind it carry over.
pub proof fn lemma_fraction_carry(c: char, t: Seq<char>)
    requires
        is_digit(c),
        forall|i: int| 0 <= i < t.len() ==> is_digit(#[trigger] t[i]),
    ensures
        36 * digits_value(seq![c] + t) / pow10((t.len() + 1) as nat) == (36 * digit_of(c) + 36
            * digits_value(t) / pow10(t.len())) / 10,
        0 <= digits_value(t) < pow10(t.len()),
        0 <= digits_value(seq![c] + t) < pow10((t.len() + 1) as nat),
{
    let p = pow10(t.len());
    let v = digits_value(t);
    let d = digit_of(c);
    lemma_pow10_positive(t.len());
    lemma_digits_value_front(c, t);
    lemma_digits_below_power(t);
    assert(pow10((t.len() + 1) as nat) == 10 * p);
    let x = 36 * (d * p + v);
    assert(x == (36 * d) * p + 36 * v) by (nonlinear_arith)
        requires
            x == 36 * (d * p + v),
    ;
    lemma_fundamental_div_mod(36 * v, p);
    lemma_mod_bound(36 * v, p);
    let q = 36 * v / p;
    let r = 36 * v % p;
    assert(x == (36 * d + q) * p + r) by (nonlinear_arith)
        requires
            x == (36 * d) * p + 36 * v,
            36 * v == p * q + r,
    ;
    assert(q >= 0) by (nonlinear_arith)
        requires
            36 * v == p * q + r,
            v >= 0,
            0 <= r < p,
    ;
    assert(x >= 0) by (nonlinear_arith)
        requires
            x == (36 * d + q) * p + r,
            d >= 0,
            q >= 0,
            p > 0,
            r >= 0,
    ;
    lemma_fundamental_div_mod_converse(x, p, 36 * d + q, r);
    lemma_div_denominator(x, p, 10);
    assert(p * 10 == 10 * p);
    assert(d * p + v < 10 * p) by (nonlinear_arith)
        requires
            0 <= d < 10,
            0 <= v < p,
    ;
    assert(d * p + v >= 0) by (nonlinear_arith)
        requires
            0 <= d < 10,
            0 <= v < p,
    ;
}

/// The numeral of an integer is not empty, holds digits and at most a `-`, and is read back
/// as the integer.
pub proof fn lemma_int_text_reads_back(v: Currency)
    ensures
        int_text(v as int).len() >= 1,
        is_plain(int_text(v as int)),
        parse_int_spec(int_text(v as int)) == Ok::<Currency, NumberError>(v),
{
    let s = int_text(v as int);
    let m = magnitude_of(v);
    lemma_nat_digits(m);
    let body = unsigned_part(s);
    if v < 0 {
        assert(s[0] == '-');
        assert(body =~= nat_digits(m));
    } else {
        assert(is_digit(s[0]));
        assert(body =~= nat_digits(m));
    }
    lemma_digit_run(body, body.len() as int);
    assert(body.take(body.len() as int) =~= body);
    assert forall|i: int| 0 <= i < s.len() implies is_digit(#[trigger] s[i]) || s[i] == '-' || s[i]
        == '.' by {
        if v < 0 && i > 0 {
            assert(s[i] == nat_digits(m)[i - 1]);
        }
    }
}

/// The numeral in refined of an amount of weapons is not empty, holds digits and at most a
/// `-` and a point, and is read back as the amount.
pub proof fn lemma_metal_text_reads_back(weapons: Currency)
    ensures
        metal_text(weapons).len() >= 1,
        is_plain(metal_text(weapons)),
        parse_metal_spec(metal_text(weapons)) == Ok::<Currency, NumberError>(weapons),
{
    let s = metal_text(weapons);
    let m = magnitude_of(weapons);
    let left = m % 18;
    let hundredths = hundredths_of(left);
    let digits = nat_digits(m / 18);
    let point = if left == 0 {
        Seq::<char>::empty()
    } else {
        point_text(hundredths)
    };
    lemma_nat_digits(m / 18);
    let body = unsigned_part(s);
    if weapons < 0 {
        assert(s[0] == '-');
        assert(body =~= digits + point);
    } else {
        assert(s[0] == digits[0]);
        assert(is_digit(s[0]));
        assert(body =~= digits + point);
    }
    assert forall|i: int| 0 <= i < digits.len() implies is_digit(#[trigger] body[i]) by {
        assert(body[i] == digits[i]);
    }
    if left != 0 {
        assert(body[digits.len() as int] == '.');
    }
    lemma_digit_run(body, digits.len() as int);
    assert(whole_part(s) =~= digits);
    assert(tail_part(s) =~= point);
    let fraction = fraction_part(s);
    if left == 0 {
        assert(fraction =~= Seq::<char>::empty());
        assert(digits_value(fraction) == 0);
        assert(pow10(fraction.len()) == 1);
        let scaled = digits_value(digits) * pow10(fraction.len()) + digits_value(fraction);
        lemma_metal_rounding(m / 18, 0, 1);
        assert(36 * 0 / 1 == 0);
        assert(scaled == (m / 18) * 1 + 0);
        assert(m == 18 * (m / 18));
        assert(metal_weapons(weapons < 0, digits, fraction) == weapons);
    } else {
        let high = digit_char(hundredths / 10);
        let low = digit_char(hundredths % 10);
        assert(0 < hundredths < 100);
        assert(fraction =~= seq![high, low]);
        assert(is_digit(high) && is_digit(low));
        assert(fraction.drop_last() =~= seq![high]);
        assert(fraction.drop_last().drop_last() =~= Seq::<char>::empty());
        assert(digits_value(seq![high]) == digit_of(high)) by {
            assert(seq![high].drop_last() =~= Seq::<char>::empty());
            assert(digits_value(Seq::<char>::empty()) == 0);
        }
        assert(digits_value(fraction) == hundredths);
        assert(pow10(2) == 100) by {
            assert(pow10(1) == 10 * pow10(0));
            assert(pow10(2) == 10 * pow10(1));
        }
        lemma_metal_rounding(m / 18, hundredths, 100);
        assert((36 * hundredths / 100 + 1) / 2 == left);
        assert(metal_weapons(weapons < 0, digits, fraction) == weapons);
    }
    lemma_digit_run(fraction, fraction.len() as int);
    assert(is_decimal(s));
    assert forall|i: int| 0 <= i < s.len() implies is_digit(#[trigger] s[i]) || s[i] == '-' || s[i]
        == '.' by {
        let shift = if weapons < 0 {
            1int
        } else {
            0int
        };
        if i >= shift {
            assert(s[i] == body[i - shift]);
            if i - shift >= digits.len() {
                assert(body[i - shift] == point[i - shift - digits.len()]);
            }
        }
    }
}

} // verus!
