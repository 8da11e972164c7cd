//! Decimal numerals: how integers and amounts of metal are written, and how they are read.
//!
//! An integer is written with its digits and a `-` before a negative one. An amount of metal,
//! held in weapons, is written in refined: the whole refined, and behind a point the hundredths
//! that the weapons left over come to, cut off to two places. Reading an amount multiplies the
//! numeral by 18 and rounds to the nearest weapon, so that what was written is read back as it
//! was. All of it is exact: no binary fraction stands between a numeral and its value.

use crate::arith::saturate;
use crate::error::NumberError;
use crate::numeral_lemmas::{
    lemma_digit_run, lemma_digit_run_is_run, lemma_digits_below_power, lemma_digits_value_grows,
    lemma_digits_value_push, lemma_fraction_carry, lemma_metal_rounding, lemma_pow10_positive,
};
use crate::types::Currency;
use vstd::prelude::*;
use vstd::string::*;

verus! {

/// Whether `c` is one of the ten digits.
pub open spec fn is_digit(c: char) -> bool {
    '0' <= c && c <= '9'
}

/// The number that the digit `c` stands for.
pub open spec fn digit_of(c: char) -> int {
    c as int - '0' as int
}

/// The digit that stands for `d`, a number below ten.
pub open spec fn digit_char(d: int) -> char {
    (('0' as int) + d) as char
}

/// The number that a sequence of digits stands for; zero for the empty one.
pub open spec fn digits_value(s: Seq<char>) -> int
    decreases s.len(),
{
    if s.len() == 0 {
        0
    } else {
        10 * digits_value(s.drop_last()) + digit_of(s.last())
    }
}

/// The digits of `n`, a number that is not negative, without leading zeros; `0` for zero.
pub open spec fn nat_digits(n: int) -> Seq<char>
    decreases n,
{
    if n < 10 {
        seq![digit_char(n)]
    } else {
        nat_digits(n / 10).push(digit_char(n % 10))
    }
}

/// The numeral of an integer: its digits, behind a `-` where it is negative.
pub open spec fn int_text(v: int) -> Seq<char> {
    if v < 0 {
        seq!['-'] + nat_digits(-v)
    } else {
        nat_digits(v)
    }
}

/// How many digits `s` starts with.
pub open spec fn digit_run(s: Seq<char>) -> int
    decreases s.len(),
{
    if s.len() == 0 || !is_digit(s[0]) {
        0
    } else {
        1 + digit_run(s.skip(1))
    }
}

/// Ten to the power `k`.
pub open spec fn pow10(k: nat) -> int
    decreases k,
{
    if k == 0 {
        1
    } else {
        10 * pow10((k - 1) as nat)
    }
}

/// What is left of a numeral behind its sign, if it has one.
pub open spec fn unsigned_part(s: Seq<char>) -> Seq<char> {
    if s.len() > 0 && (s[0] == '-' || s[0] == '+') {
        s.skip(1)
    } else {
        s
    }
}

/// What an integer numeral stands for: an optional sign and then digits only, at least one.
///
/// The digits that the numeral starts with are read first: where they stand for a number
/// outside [`Currency`], that is the error, whatever follows them.
pub open spec fn parse_int_spec(s: Seq<char>) -> Result<Currency, NumberError> {
    let body = unsigned_part(s);
    let magnitude = digits_value(body.take(digit_run(body)));
    let value = if s.len() > 0 && s[0] == '-' {
        -magnitude
    } else {
        magnitude
    };
    if s.len() == 0 {
        Err(NumberError::Empty)
    } else if body.len() == 0 {
        Err(NumberError::InvalidDigit)
    } else if value > Currency::MAX {
        Err(NumberError::PosOverflow)
    } else if value < Currency::MIN {
        Err(NumberError::NegOverflow)
    } else if digit_run(body) < body.len() {
        Err(NumberError::InvalidDigit)
    } else {
        Ok(value as Currency)
    }
}

/// The amount in weapons that a numeral of refined stands for, given the digits before and
/// behind its point: 18 times the number, rounded to the nearest weapon, half a weapon going
/// away from zero, and the result held to the bounds of [`Currency`].
pub open spec fn metal_weapons(negative: bool, whole: Seq<char>, fraction: Seq<char>) -> Currency {
    let scale = pow10(fraction.len());
    let scaled = digits_value(whole) * scale + digits_value(fraction);
    let magnitude = (2 * 18 * scaled + scale) / (2 * scale);
    saturate(
        if negative {
            -magnitude
        } else {
            magnitude
        },
    )
}

/// The digits of a decimal numeral before its point.
pub open spec fn whole_part(s: Seq<char>) -> Seq<char> {
    unsigned_part(s).take(digit_run(unsigned_part(s)))
}

/// What follows the digits that a decimal numeral starts with: nothing, or a point and the
/// digits of the fraction.
pub open spec fn tail_part(s: Seq<char>) -> Seq<char> {
    unsigned_part(s).skip(digit_run(unsigned_part(s)))
}

/// The digits of a decimal numeral behind its point.
pub open spec fn fraction_part(s: Seq<char>) -> Seq<char> {
    if tail_part(s).len() > 0 {
        tail_part(s).skip(1)
    } else {
        tail_part(s)
    }
}

/// Whether `s` is a decimal numeral: an optional sign, digits, and optionally a point and
/// more digits, with at least one digit before or behind the point.
pub open spec fn is_decimal(s: Seq<char>) -> bool {
    &&& tail_part(s).len() > 0 ==> tail_part(s)[0] == '.'
    &&& digit_run(fraction_part(s)) == fraction_part(s).len()
    &&& whole_part(s).len() + fraction_part(s).len() > 0
}

/// What a numeral of refined stands for in weapons.
pub open spec fn parse_metal_spec(s: Seq<char>) -> Result<Currency, NumberError> {
    if s.len() == 0 {
        Err(NumberError::Empty)
    } else if !is_decimal(s) {
        Err(NumberError::InvalidDigit)
    } else {
        Ok(metal_weapons(s[0] == '-', whole_part(s), fraction_part(s)))
    }
}

/// The magnitude of a value of [`Currency`].
pub open spec fn magnitude_of(v: Currency) -> int {
    if v < 0 {
        -v
    } else {
        v as int
    }
}

/// The hundredths of a refined that `left` weapons come to, cut off to a whole number.
pub open spec fn hundredths_of(left: int) -> int {
    left * 100 / 18
}

/// Two digits behind a point.
pub open spec fn point_text(hundredths: int) -> Seq<char> {
    seq!['.', digit_char(hundredths / 10), digit_char(hundredths % 10)]
}

/// The numeral in refined of an amount of weapons: the whole refined, and where weapons are
/// left over, a point and their hundredths of a refined, cut off to two places.
pub open spec fn metal_text(weapons: Currency) -> Seq<char> {
    let magnitude = magnitude_of(weapons);
    let sign = if weapons < 0 {
        seq!['-']
    } else {
        Seq::<char>::empty()
    };
    let point = if magnitude % 18 == 0 {
        Seq::<char>::empty()
    } else {
        point_text(hundredths_of(magnitude % 18))
    };
    sign + nat_digits(magnitude / 18) + point
}

/// The numeral in dollars of an amount of cents, with two digits behind the point.
pub open spec fn cents_text(cents: Currency) -> Seq<char> {
    let magnitude = magnitude_of(cents);
    let sign = if cents < 0 {
        seq!['-']
    } else {
        Seq::<char>::empty()
    };
    sign + nat_digits(magnitude / 100) + point_text(magnitude % 100)
}

/// The characters of a text, one by one.
pub fn chars_of(text: &str) -> (chars: Vec<char>)
    ensures
        chars@ == text@,
{
    let mut chars: Vec<char> = Vec::new();
    for c in it: text.chars()
        invariant
            chars@ == it.seq().take(it.index() as int),
            it.seq() == text@,
    {
        chars.push(c);
    }
    chars
}

/// Whether `c` is one of the ten digits.
pub fn is_digit_char(c: char) -> (digit: bool)
    ensures
        digit == is_digit(c),
{
    '0' <= c && c <= '9'
}

/// The number that a digit stands for.
pub(crate) fn digit_number(c: char) -> (d: u8)
    requires
        is_digit(c),
    ensures
        d == digit_of(c),
        d < 10,
{
    (c as u8) - 48
}

/// The text of one digit.
pub(crate) fn digit_str(d: u8) -> (s: &'static str)
    requires
        d < 10,
    ensures
        s@ == seq![digit_char(d as int)],
{
    proof {
        reveal_strlit("0");
        reveal_strlit("1");
        reveal_strlit("2");
        reveal_strlit("3");
        reveal_strlit("4");
        reveal_strlit("5");
        reveal_strlit("6");
        reveal_strlit("7");
        reveal_strlit("8");
        reveal_strlit("9");
    }
    let s = if d == 0 {
        "0"
    } else if d == 1 {
        "1"
    } else if d == 2 {
        "2"
    } else if d == 3 {
        "3"
    } else if d == 4 {
        "4"
    } else if d == 5 {
        "5"
    } else if d == 6 {
        "6"
    } else if d == 7 {
        "7"
    } else if d == 8 {
        "8"
    } else {
        "9"
    };
    assert(s@ =~= seq![digit_char(d as int)]);
    s
}

/// Writes the digits of `n` behind `out`.
pub fn push_nat(out: &mut String, n: u64)
    ensures
        final(out)@ == old(out)@ + nat_digits(n as int),
    decreases n,
{
    if n >= 10 {
        push_nat(out, n / 10);
    }
    out.append(digit_str((n % 10) as u8));
    assert(out@ =~= old(out)@ + nat_digits(n as int));
}

/// The magnitude of a value of [`Currency`].
pub fn magnitude(v: Currency) -> (m: u64)
    ensures
        m == magnitude_of(v),
{
    if v < 0 {
        (-(v as i128)) as u64
    } else {
        v as u64
    }
}

/// Writes a `-` behind `out` where `v` is negative.
pub fn push_sign(out: &mut String, v: Currency)
    ensures
        final(out)@ == old(out)@ + if v < 0 {
            seq!['-']
        } else {
            Seq::<char>::empty()
        },
{
    if v < 0 {
        proof {
            reveal_strlit("-");
        }
        assert("-"@ =~= seq!['-']);
        out.append("-");
    } else {
        assert(out@ =~= out@ + Seq::<char>::empty());
    }
}

/// Writes the numeral of `v` behind `out`.
pub fn push_int(out: &mut String, v: Currency)
    ensures
        final(out)@ == old(out)@ + int_text(v as int),
{
    push_sign(out, v);
    push_nat(out, magnitude(v));
    assert(out@ =~= old(out)@ + int_text(v as int));
}

/// Writes a point and two digits behind `out`.
pub(crate) fn push_point(out: &mut String, hundredths: u64)
    requires
        hundredths < 100,
    ensures
        final(out)@ == old(out)@ + point_text(hundredths as int),
{
    proof {
        reveal_strlit(".");
    }
    assert("."@ =~= seq!['.']);
    out.append(".");
    out.append(digit_str((hundredths / 10) as u8));
    out.append(digit_str((hundredths % 10) as u8));
    assert(out@ =~= old(out)@ + point_text(hundredths as int));
}

/// Writes the numeral in refined of an amount of weapons behind `out`.
pub fn push_metal(out: &mut String, weapons: Currency)
    ensures
        final(out)@ == old(out)@ + metal_text(weapons),
{
    let m = magnitude(weapons);
    push_sign(out, weapons);
    push_nat(out, m / 18);
    let left = m % 18;
    if left != 0 {
        push_point(out, left * 100 / 18);
    }
    assert(out@ =~= old(out)@ + metal_text(weapons));
}

/// Writes the numeral in dollars of an amount of cents behind `out`.
pub fn push_cents(out: &mut String, cents: Currency)
    ensures
        final(out)@ == old(out)@ + cents_text(cents),
{
    let m = magnitude(cents);
    push_sign(out, cents);
    push_nat(out, m / 100);
    push_point(out, m % 100);
    assert(out@ =~= old(out)@ + cents_text(cents));
}

/// Reads an integer numeral: an optional sign and then digits only, at least one.
pub fn parse_int(text: &str) -> (r: Result<Currency, NumberError>)
    ensures
        r == parse_int_spec(text@),
{
    let chars = chars_of(text);
    let n = chars.len();
    if n == 0 {
        return Err(NumberError::Empty);
    }
    let negative = chars[0] == '-';
    let start: usize = if chars[0] == '-' || chars[0] == '+' {
        1
    } else {
        0
    };
    let ghost body = unsigned_part(text@);
    assert(body =~= chars@.skip(start as int));
    if start == n {
        return Err(NumberError::InvalidDigit);
    }
    let limit: i128 = if negative {
        0x8000_0000_0000_0000
    } else {
        0x7fff_ffff_ffff_ffff
    };
    let mut acc: i128 = 0;
    let mut i: usize = start;
    while i < n
        invariant
            start <= i <= n,
            n == chars.len(),
            start <= 1,
            body == chars@.skip(start as int),
            forall|j: int| 0 <= j < i - start ==> is_digit(#[trigger] body[j]),
            acc == digits_value(body.take(i - start)),
            0 <= acc <= limit,
            text@.len() > 0,
            body == unsigned_part(text@),
            negative == (text@[0] == '-'),
            limit == if negative {
                0x8000_0000_0000_0000i128
            } else {
                0x7fff_ffff_ffff_ffffi128
            },
        decreases n - i,
    {
        let c = chars[i];
        assert(c == body[i - start]);
        if !is_digit_char(c) {
            proof {
                lemma_digit_run(body, i - start);
            }
            return Err(NumberError::InvalidDigit);
        }
        let next: i128 = acc * 10 + (digit_number(c) as i128);
        proof {
            lemma_digits_value_push(body, i - start);
        }
        if next > limit {
            proof {
                lemma_digit_run_is_run(body);
                let run = digit_run(body);
                if run < i - start + 1 {
                    assert(!is_digit(body[run]));
                    assert(false);
                }
                lemma_digits_value_grows(body.take(run), i - start + 1, run);
                assert(body.take(run).take(i - start + 1) =~= body.take(i - start + 1));
                assert(body.take(run).take(run) =~= body.take(run));
            }
            return Err(
                if negative {
                    NumberError::NegOverflow
                } else {
                    NumberError::PosOverflow
                },
            );
        }
        acc = next;
        i = i + 1;
    }
    proof {
        lemma_digit_run(body, body.len() as int);
    }
    Ok(
        if negative {
            (-acc) as Currency
        } else {
            acc as Currency
        },
    )
}

/// Reads a numeral of refined and gives the amount in weapons: an optional sign, digits, and
/// optionally a point and more digits, with at least one digit. The amount is 18 times the
/// number, rounded to the nearest weapon and held to the bounds of [`Currency`].
pub fn parse_metal(text: &str) -> (r: Result<Currency, NumberError>)
    ensures
        r == parse_metal_spec(text@),
{
    let chars = chars_of(text);
    let n = chars.len();
    if n == 0 {
        return Err(NumberError::Empty);
    }
    let negative = chars[0] == '-';
    let start: usize = if chars[0] == '-' || chars[0] == '+' {
        1
    } else {
        0
    };
    let ghost body = unsigned_part(text@);
    assert(body =~= chars@.skip(start as int));
    // The digits before the point. A number above the cap is worth more weapons than
    // `Currency` holds, whatever follows.
    let cap: u64 = 0x0800_0000_0000_0000;
    let mut whole: u64 = 0;
    let mut huge = false;
    let mut i: usize = start;
    while i < n && is_digit_char(chars[i])
        invariant
            start <= i <= n,
            n == chars.len(),
            body == chars@.skip(start as int),
            forall|j: int| 0 <= j < i - start ==> is_digit(#[trigger] body[j]),
            !huge ==> whole == digits_value(body.take(i - start)),
            huge ==> digits_value(body.take(i - start)) > cap,
            whole <= cap,
            cap == 0x0800_0000_0000_0000,
        decreases n - i,
    {
        let d = digit_number(chars[i]) as u64;
        assert(chars[i as int] == body[i - start]);
        proof {
            lemma_digits_value_push(body, i - start);
        }
        if !huge {
            let next = whole * 10 + d;
            if next > cap {
                huge = true;
            } else {
                whole = next;
            }
        }
        i = i + 1;
    }
    let point = i;
    proof {
        if i < n {
            assert(chars[i as int] == body[i - start]);
        }
        lemma_digit_run(body, i - start);
        assert(whole_part(text@) == body.take(i - start));
        assert(tail_part(text@) == body.skip(i - start));
    }
    let ghost whole_digits = whole_part(text@);
    let mut first: usize = i;
    if i < n {
        assert(tail_part(text@)[0] == chars[i as int]);
        if chars[i] != '.' {
            return Err(NumberError::InvalidDigit);
        }
        first = i + 1;
    }
    let ghost fraction = fraction_part(text@);
    assert(fraction =~= chars@.skip(first as int));
    let mut j: usize = first;
    while j < n
        invariant
            first <= j <= n,
            n == chars.len(),
            fraction == chars@.skip(first as int),
            fraction == fraction_part(text@),
            text@.len() > 0,
            forall|k: int| 0 <= k < j - first ==> is_digit(#[trigger] fraction[k]),
        decreases n - j,
    {
        assert(chars[j as int] == fraction[j - first]);
        if !is_digit_char(chars[j]) {
            proof {
                lemma_digit_run(fraction, j - first);
            }
            return Err(NumberError::InvalidDigit);
        }
        j = j + 1;
    }
    proof {
        lemma_digit_run(fraction, fraction.len() as int);
    }
    if point - start + (n - first) == 0 {
        return Err(NumberError::InvalidDigit);
    }
    assert(is_decimal(text@));
    // How many 36ths of a refined the fraction holds, from the last digit on.
    let mut carry: u64 = 0;
    let mut k: usize = n;
    while k > first
        invariant
            first <= k <= n,
            n == chars.len(),
            fraction == chars@.skip(first as int),
            forall|m: int| 0 <= m < fraction.len() ==> is_digit(#[trigger] fraction[m]),
            carry == 36 * digits_value(fraction.skip(k - first)) / pow10((n - k) as nat),
            carry < 36,
        decreases k,
    {
        k = k - 1;
        assert(chars[k as int] == fraction[k - first]);
        let d = digit_number(chars[k]) as u64;
        proof {
            let rest = fraction.skip(k - first + 1);
            assert(fraction.skip(k - first) =~= seq![fraction[k - first]] + rest);
            assert forall|m: int| 0 <= m < rest.len() implies is_digit(#[trigger] rest[m]) by {
                assert(rest[m] == fraction[k - first + 1 + m]);
            }
            lemma_fraction_carry(fraction[k - first], rest);
        }
        carry = (36 * d + carry) / 10;
    }
    assert(fraction.skip(0) =~= fraction);
    proof {
        lemma_digits_below_power(fraction);
        lemma_pow10_positive(fraction.len());
        assert forall|m: int| 0 <= m < whole_digits.len() implies is_digit(
            #[trigger] whole_digits[m],
        ) by {
            assert(whole_digits[m] == body[m]);
        }
        lemma_digits_below_power(whole_digits);
        lemma_metal_rounding(
            digits_value(whole_digits),
            digits_value(fraction),
            pow10(fraction.len()),
        );
    }
    let rounded: u64 = (carry + 1) / 2;
    if huge {
        assert(18 * digits_value(whole_digits) + rounded > 0x8000_0000_0000_0000);
        return Ok(
            if negative {
                Currency::MIN
            } else {
                Currency::MAX
            },
        );
    }
    let amount: i128 = 18 * (whole as i128) + (rounded as i128);
    Ok(
        if negative {
            if amount > 0x8000_0000_0000_0000 {
                Currency::MIN
            } else {
                (-amount) as Currency
            }
        } else {
            if amount > 0x7fff_ffff_ffff_ffff {
                Currency::MAX
            } else {
                amount as Currency
            }
        },
    )
}

/// Whether `s` holds nothing but digits, `-` and `.`: the characters of the numerals that
/// this module writes.
pub open spec fn is_plain(s: Seq<char>) -> bool {
    forall|i: int| 0 <= i < s.len() ==> is_digit(#[trigger] s[i]) || s[i] == '-' || s[i] == '.'
}

} // verus!
