//! How amounts are written as text, and what a text stands for.
//!
//! A text is one clause or several with commas between them. A clause is a numeral, one
//! space and the name of a currency, with any white space around it: `key` or `keys` behind a
//! number of keys, `ref` behind an amount of refined metal, in any case of the letters.

use crate::constants::{KEYS_SYMBOL, KEY_SYMBOL, METAL_SYMBOL};
use crate::error::{NumberError, ParseError};
use crate::numeral::{is_digit, is_plain, parse_int_spec, parse_metal_spec};
use crate::scan::{
    index_of, is_space, lemma_index_of, lemma_index_of_is_first, lemma_space_run,
    lemma_space_tail, lower, same_word, space_run, space_tail, trim, trim_start,
};
use crate::types::Currency;
use vstd::prelude::*;
use vstd::string::*;

verus! {

/// What a clause counts: keys or metal.
#[derive(Debug, PartialEq, Eq, Clone, Copy, Structural)]
pub enum Denomination {
    /// The clause counts keys.
    Keys,
    /// The clause counts refined metal.
    Metal,
}

/// The numerals that a text holds for the keys and for the metal, each as it was written.
pub type Counts = (Option<Seq<char>>, Option<Seq<char>>);

/// What a currency name names, whatever the case of its letters: `ref` names metal, `keys`
/// and `key` name keys.
pub open spec fn denomination_of(name: Seq<char>) -> Option<Denomination> {
    if same_word(name, METAL_SYMBOL@) {
        Some(Denomination::Metal)
    } else if same_word(name, KEYS_SYMBOL@) || same_word(name, KEY_SYMBOL@) {
        Some(Denomination::Keys)
    } else {
        None
    }
}

/// What one clause says. Without the white space around it, it is a numeral, one space and
/// a currency name: where it is empty the count is missing, where it holds no space the name
/// is missing, where it holds a second space there is a token too many.
pub open spec fn clause_spec(clause: Seq<char>) -> Result<(Denomination, Seq<char>), ParseError> {
    let words = trim(clause);
    let space = index_of(words, ' ');
    let name = words.skip(space as int + 1);
    if words.len() == 0 {
        Err(ParseError::MissingCount)
    } else if space >= words.len() {
        Err(ParseError::MissingCurrencyName)
    } else if index_of(name, ' ') < name.len() {
        Err(ParseError::UnexpectedToken)
    } else {
        match denomination_of(name) {
            None => Err(ParseError::InvalidCurrencyName),
            Some(denomination) => Ok((denomination, words.take(space as int))),
        }
    }
}

/// The counts `found` so far, with the one of a further clause in its place.
pub open spec fn with_count(found: Counts, denomination: Denomination, count: Seq<char>) -> Counts {
    match denomination {
        Denomination::Keys => (Some(count), found.1),
        Denomination::Metal => (found.0, Some(count)),
    }
}

/// What the clauses of `s` say, read one after the other: the clauses are what the commas
/// part, a later count takes the place of an earlier one for the same currency, and the
/// first clause that is wrong gives the error.
pub open spec fn clauses_spec(s: Seq<char>, found: Counts) -> Result<Counts, ParseError>
    decreases s.len(),
{
    let comma = index_of(s, ',');
    match clause_spec(s.take(comma as int)) {
        Err(e) => Err(e),
        Ok((denomination, count)) => {
            let next = with_count(found, denomination, count);
            if comma >= s.len() {
                Ok(next)
            } else {
                clauses_spec(s.skip(comma as int + 1), next)
            }
        },
    }
}

/// The numerals that a text holds for the keys and for the metal. A text of white space
/// alone holds no clause.
pub open spec fn parse_currencies_spec(s: Seq<char>) -> Result<Counts, ParseError> {
    if trim(s).len() == 0 {
        Err(ParseError::NoCurrenciesDetected)
    } else {
        clauses_spec(s, (None, None))
    }
}

/// The number of keys that a count stands for; zero where there is no count.
pub open spec fn keys_of(count: Option<Seq<char>>) -> Result<Currency, NumberError> {
    match count {
        None => Ok(0),
        Some(numeral) => parse_int_spec(numeral),
    }
}

/// The weapons that a count of refined stands for; zero where there is no count.
pub open spec fn metal_of(count: Option<Seq<char>>) -> Result<Currency, NumberError> {
    match count {
        None => Ok(0),
        Some(numeral) => parse_metal_spec(numeral),
    }
}

/// The keys and the weapons that a text stands for. The clauses are read first, then the
/// count of keys, then the count of metal: the first that is wrong gives the error.
pub open spec fn parse_currency_spec(s: Seq<char>) -> Result<(Currency, Currency), ParseError> {
    match parse_currencies_spec(s) {
        Err(e) => Err(e),
        Ok(found) => match keys_of(found.0) {
            Err(e) => Err(ParseError::ParseInt(e)),
            Ok(keys) => match metal_of(found.1) {
                Err(e) => Err(ParseError::ParseFloat(e)),
                Ok(weapons) => Ok((keys, weapons)),
            },
        },
    }
}

/// The characters of a count, where there is one.
pub open spec fn count_view(count: Option<&str>) -> Option<Seq<char>> {
    match count {
        Some(numeral) => Some(numeral@),
        None => None,
    }
}

/// How a number of keys and an amount of metal are written, from their numerals and the word
/// for the keys: both, with a comma between them, where both amounts are there or where
/// neither is, else only the one that is.
pub open spec fn amounts_text(
    keys: Seq<char>,
    keys_word: Seq<char>,
    metal: Seq<char>,
    has_keys: bool,
    has_metal: bool,
) -> Seq<char> {
    if has_keys == has_metal {
        keys + seq![' '] + keys_word + seq![',', ' '] + metal + seq![' '] + METAL_SYMBOL@
    } else if has_keys {
        keys + seq![' '] + keys_word
    } else {
        metal + seq![' '] + METAL_SYMBOL@
    }
}

/// The characters of `digits` in groups of three, counted from the last, with a comma between
/// one group and the next.
pub open spec fn grouped(digits: Seq<char>) -> Seq<char>
    decreases digits.len(),
{
    if digits.len() <= 3 {
        digits
    } else {
        grouped(digits.take(digits.len() - 3)) + seq![','] + digits.skip(digits.len() - 3)
    }
}

/// A numeral with thousands places: what stands before the first point is grouped by three,
/// a `-` at the start staying before the groups; the point and what follows stay as they are.
pub open spec fn thousands_spec(s: Seq<char>) -> Seq<char> {
    let point = index_of(s, '.') as int;
    let whole = s.take(point);
    if whole.len() > 0 && whole[0] == '-' {
        seq!['-'] + grouped(whole.skip(1)) + s.skip(point)
    } else {
        grouped(whole) + s.skip(point)
    }
}

/// The three currency names, letter by letter, and what each names.
pub proof fn lemma_symbols()
    ensures
        KEY_SYMBOL@ == seq!['k', 'e', 'y'],
        KEYS_SYMBOL@ == seq!['k', 'e', 'y', 's'],
        METAL_SYMBOL@ == seq!['r', 'e', 'f'],
        denomination_of(KEY_SYMBOL@) == Some(Denomination::Keys),
        denomination_of(KEYS_SYMBOL@) == Some(Denomination::Keys),
        denomination_of(METAL_SYMBOL@) == Some(Denomination::Metal),
{
    reveal_strlit("key");
    reveal_strlit("keys");
    reveal_strlit("ref");
    assert(KEY_SYMBOL@ =~= seq!['k', 'e', 'y']);
    assert(KEYS_SYMBOL@ =~= seq!['k', 'e', 'y', 's']);
    assert(METAL_SYMBOL@ =~= seq!['r', 'e', 'f']);
    assert(same_word(KEY_SYMBOL@, KEY_SYMBOL@));
    assert(same_word(KEYS_SYMBOL@, KEYS_SYMBOL@));
    assert(same_word(METAL_SYMBOL@, METAL_SYMBOL@));
    assert(!same_word(KEY_SYMBOL@, METAL_SYMBOL@)) by {
        assert(lower(KEY_SYMBOL@[0]) != lower(METAL_SYMBOL@[0]));
    }
}

/// A clause that was written is read as it was written: white space, then a numeral of
/// digits, `-` and `.`, a space and a currency name.
pub proof fn lemma_clause_reads_back(
    pad: Seq<char>,
    count: Seq<char>,
    name: Seq<char>,
    denomination: Denomination,
)
    requires
        forall|i: int| 0 <= i < pad.len() ==> is_space(#[trigger] pad[i]),
        count.len() >= 1,
        is_plain(count),
        name == KEY_SYMBOL@ || name == KEYS_SYMBOL@ || name == METAL_SYMBOL@,
        denomination_of(name) == Some(denomination),
    ensures
        clause_spec(pad + count + seq![' '] + name) == Ok::<(Denomination, Seq<char>), ParseError>(
            (denomination, count),
        ),
        index_of(pad + count + seq![' '] + name, ',') == (pad + count + seq![' '] + name).len(),
        pad.len() == 0 ==> space_run(pad + count + seq![' '] + name) == 0,
        space_tail(pad + count + seq![' '] + name) == 0,
{
    lemma_symbols();
    let clause = pad + count + seq![' '] + name;
    let words = count + seq![' '] + name;
    assert forall|i: int| 0 <= i < count.len() implies !is_space(#[trigger] count[i]) && count[i]
        != ',' by {
        assert(is_digit(count[i]) || count[i] == '-' || count[i] == '.');
    }
    assert forall|i: int| 0 <= i < name.len() implies !is_space(#[trigger] name[i]) && name[i]
        != ',' by {}
    assert forall|i: int| 0 <= i < pad.len() implies #[trigger] pad[i] != ',' by {
        assert(is_space(pad[i]));
    }
    // no comma anywhere
    assert forall|i: int| 0 <= i < clause.len() implies #[trigger] clause[i] != ',' by {
        if i < pad.len() {
            assert(clause[i] == pad[i]);
        } else if i < pad.len() + count.len() {
            assert(clause[i] == count[i - pad.len()]);
        } else if i == pad.len() + count.len() {
        } else {
            assert(clause[i] == name[i - pad.len() - count.len() - 1]);
        }
    }
    lemma_index_of(clause, ',', clause.len() as int);
    // the white space around the words
    assert forall|i: int| 0 <= i < pad.len() implies is_space(#[trigger] clause[i]) by {
        assert(clause[i] == pad[i]);
    }
    assert(clause[pad.len() as int] == count[0]);
    lemma_space_run(clause, pad.len() as int);
    assert(trim_start(clause) =~= words);
    assert(words.last() == name.last());
    lemma_space_tail(words, 0);
    assert(trim(clause) =~= words);
    assert(clause.last() == name.last());
    lemma_space_tail(clause, 0);
    // the space between the numeral and the name
    assert forall|i: int| 0 <= i < count.len() implies #[trigger] words[i] != ' ' by {
        assert(words[i] == count[i]);
    }
    assert(words[count.len() as int] == ' ');
    lemma_index_of(words, ' ', count.len() as int);
    assert(words.skip(count.len() as int + 1) =~= name);
    assert(words.take(count.len() as int) =~= count);
    assert forall|i: int| 0 <= i < name.len() implies #[trigger] name[i] != ' ' by {}
    lemma_index_of(name, ' ', name.len() as int);
}

/// A text of one clause that stands for `denomination` gives its count.
pub proof fn lemma_one_clause(
    s: Seq<char>,
    found: Counts,
    denomination: Denomination,
    count: Seq<char>,
)
    requires
        index_of(s, ',') == s.len(),
        clause_spec(s) == Ok::<(Denomination, Seq<char>), ParseError>((denomination, count)),
    ensures
        clauses_spec(s, found) == Ok::<Counts, ParseError>(with_count(found, denomination, count)),
{
    assert(s.take(s.len() as int) =~= s);
}

/// A text of two clauses gives the count of the first and then that of the second.
pub proof fn lemma_two_clauses(
    first: Seq<char>,
    second: Seq<char>,
    found: Counts,
    first_names: Denomination,
    first_count: Seq<char>,
    second_names: Denomination,
    second_count: Seq<char>,
)
    requires
        index_of(first, ',') == first.len(),
        index_of(second, ',') == second.len(),
        clause_spec(first) == Ok::<(Denomination, Seq<char>), ParseError>(
            (first_names, first_count),
        ),
        clause_spec(second) == Ok::<(Denomination, Seq<char>), ParseError>(
            (second_names, second_count),
        ),
    ensures
        clauses_spec(first + seq![','] + second, found) == Ok::<Counts, ParseError>(
            with_count(with_count(found, first_names, first_count), second_names, second_count),
        ),
{
    let s = first + seq![','] + second;
    lemma_index_of_is_first(first, ',');
    assert forall|i: int| 0 <= i < first.len() implies #[trigger] s[i] != ',' by {
        assert(s[i] == first[i]);
    }
    assert(s[first.len() as int] == ',');
    lemma_index_of(s, ',', first.len() as int);
    assert(s.take(first.len() as int) =~= first);
    assert(s.skip(first.len() as int + 1) =~= second);
    lemma_one_clause(
        second,
        with_count(found, first_names, first_count),
        second_names,
        second_count,
    );
}

} // verus!
