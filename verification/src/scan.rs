//! Finding characters and white space in a text.

use vstd::prelude::*;

verus! {

/// Whether `c` is white space: a space, one of the controls from the tabulator to the
/// carriage return, or one of the other characters that Unicode gives the property
/// `White_Space`.
pub open spec fn is_space(c: char) -> bool {
    ||| c == ' '
    ||| ('\t' <= c && c <= '\r')
    ||| c == '\u{85}'
    ||| c == '\u{a0}'
    ||| c == '\u{1680}'
    ||| ('\u{2000}' <= c && c <= '\u{200a}')
    ||| c == '\u{2028}'
    ||| c == '\u{2029}'
    ||| c == '\u{202f}'
    ||| c == '\u{205f}'
    ||| c == '\u{3000}'
}

/// Where `c` first stands in `s`; the length of `s` where it stands nowhere.
pub open spec fn index_of(s: Seq<char>, c: char) -> nat
    decreases s.len(),
{
    if s.len() == 0 || s[0] == c {
        0
    } else {
        1 + index_of(s.skip(1), c)
    }
}

/// How many characters of white space `s` starts with.
pub open spec fn space_run(s: Seq<char>) -> nat
    decreases s.len(),
{
    if s.len() == 0 || !is_space(s[0]) {
        0
    } else {
        1 + space_run(s.skip(1))
    }
}

/// How many characters of white space `s` ends with.
pub open spec fn space_tail(s: Seq<char>) -> nat
    decreases s.len(),
{
    if s.len() == 0 || !is_space(s.last()) {
        0
    } else {
        1 + space_tail(s.drop_last())
    }
}

/// `s` without the white space that it starts with.
pub open spec fn trim_start(s: Seq<char>) -> Seq<char> {
    s.skip(space_run(s) as int)
}

/// `s` without the white space that it starts and ends with.
pub open spec fn trim(s: Seq<char>) -> Seq<char> {
    trim_start(s).take(trim_start(s).len() - space_tail(trim_start(s)))
}

/// The letter `c` as a small letter, where it is one of the 26 capital letters; else `c`.
pub open spec fn lower(c: char) -> char {
    if 'A' <= c && c <= 'Z' {
        ((c as int) + 32) as char
    } else {
        c
    }
}

/// Whether `a` and `b` are the same but for the case of the 26 letters.
pub open spec fn same_word(a: Seq<char>, b: Seq<char>) -> bool {
    &&& a.len() == b.len()
    &&& forall|i: int| 0 <= i < a.len() ==> lower(#[trigger] a[i]) == lower(b[i])
}

/// `c` is not among the first `k` characters of `s`, and is the next one if there is one:
/// then `k` is where `c` first stands.
pub proof fn lemma_index_of(s: Seq<char>, c: char, k: int)
    requires
        0 <= k <= s.len(),
        forall|i: int| 0 <= i < k ==> #[trigger] s[i] != c,
        k < s.len() ==> s[k] == c,
    ensures
        index_of(s, c) == k,
    decreases s.len(),
{
    if k > 0 {
        let rest = s.skip(1);
        assert forall|i: int| 0 <= i < k - 1 implies #[trigger] rest[i] != c by {
            assert(rest[i] == s[i + 1]);
        }
        lemma_index_of(rest, c, k - 1);
    }
}

/// Where `c` first stands, it stands, and nowhere before.
pub proof fn lemma_index_of_is_first(s: Seq<char>, c: char)
    ensures
        index_of(s, c) <= s.len(),
        forall|i: int| 0 <= i < index_of(s, c) ==> #[trigger] s[i] != c,
        index_of(s, c) < s.len() ==> s[index_of(s, c) as int] == c,
    decreases s.len(),
{
    if s.len() > 0 && s[0] != c {
        let rest = s.skip(1);
        lemma_index_of_is_first(rest, c);
        assert forall|i: int| 0 <= i < index_of(s, c) implies #[trigger] s[i] != c by {
            if i > 0 {
                assert(s[i] == rest[i - 1]);
            }
        }
        if index_of(s, c) < s.len() {
            assert(s[index_of(s, c) as int] == rest[index_of(rest, c) as int]);
        }
    }
}

/// The first `k` characters of `s` are white space and the next one, if there is one, is
/// none: then `s` starts with `k` characters of white space.
pub proof fn lemma_space_run(s: Seq<char>, k: int)
    requires
        0 <= k <= s.len(),
        forall|i: int| 0 <= i < k ==> is_space(#[trigger] s[i]),
        k < s.len() ==> !is_space(s[k]),
    ensures
        space_run(s) == k,
    decreases s.len(),
{
    if k > 0 {
        let rest = s.skip(1);
        assert forall|i: int| 0 <= i < k - 1 implies is_space(#[trigger] rest[i]) by {
            assert(rest[i] == s[i + 1]);
        }
        lemma_space_run(rest, k - 1);
    }
}

/// The last `k` characters of `s` are white space and the one before them, if there is one,
/// is none: then `s` ends with `k` characters of white space.
pub proof fn lemma_space_tail(s: Seq<char>, k: int)
    requires
        0 <= k <= s.len(),
        forall|i: int| s.len() - k <= i < s.len() ==> is_space(#[trigger] s[i]),
        k < s.len() ==> !is_space(s[s.len() - k - 1]),
    ensures
        space_tail(s) == k,
    decreases s.len(),
{
    if k > 0 {
        let rest = s.drop_last();
        assert forall|i: int| rest.len() - (k - 1) <= i < rest.len() implies is_space(
            #[trigger] rest[i],
        ) by {
            assert(rest[i] == s[i]);
        }
        lemma_space_tail(rest, k - 1);
    }
}

/// Whether `c` is white space.
pub fn is_space_char(c: char) -> (space: bool)
    ensures
        space == is_space(c),
{
    c == ' ' || ('\t' <= c && c <= '\r') || c == '\u{85}' || c == '\u{a0}' || c == '\u{1680}' || (
    '\u{2000}' <= c && c <= '\u{200a}') || c == '\u{2028}' || c == '\u{2029}' || c == '\u{202f}'
        || c == '\u{205f}' || c == '\u{3000}'
}

/// The small letter of a capital letter, and any other character as it is.
pub fn lower_char(c: char) -> (small: char)
    ensures
        small == lower(c),
{
    if 'A' <= c && c <= 'Z' {
        ((c as u8) + 32) as char
    } else {
        c
    }
}

/// Where `c` first stands among the characters from `from` up to `to`; `to` where it stands
/// nowhere among them.
pub(crate) fn find_char(chars: &Vec<char>, from: usize, to: usize, c: char) -> (at: usize)
    requires
        from <= to <= chars.len(),
    ensures
        from <= at <= to,
        at - from == index_of(chars@.subrange(from as int, to as int), c),
        forall|i: int| from <= i < at ==> #[trigger] chars[i] != c,
        at < to ==> chars[at as int] == c,
{
    let mut at = from;
    while at < to && chars[at] != c
        invariant
            from <= at <= to <= chars.len(),
            forall|i: int| from <= i < at ==> #[trigger] chars[i] != c,
        decreases to - at,
    {
        at = at + 1;
    }
    proof {
        let part = chars@.subrange(from as int, to as int);
        assert forall|i: int| 0 <= i < at - from implies #[trigger] part[i] != c by {
            assert(part[i] == chars[from + i]);
        }
        lemma_index_of(part, c, at - from);
    }
    at
}

/// Where the white space ends that the characters from `from` up to `to` start with.
pub(crate) fn skip_spaces(chars: &Vec<char>, from: usize, to: usize) -> (at: usize)
    requires
        from <= to <= chars.len(),
    ensures
        from <= at <= to,
        at - from == space_run(chars@.subrange(from as int, to as int)),
{
    let mut at = from;
    while at < to && is_space_char(chars[at])
        invariant
            from <= at <= to <= chars.len(),
            forall|i: int| from <= i < at ==> is_space(#[trigger] chars[i]),
        decreases to - at,
    {
        at = at + 1;
    }
    proof {
        let part = chars@.subrange(from as int, to as int);
        assert forall|i: int| 0 <= i < at - from implies is_space(#[trigger] part[i]) by {
            assert(part[i] == chars[from + i]);
        }
        lemma_space_run(part, at - from);
    }
    at
}

/// Where the white space starts that the characters from `from` up to `to` end with.
pub(crate) fn skip_spaces_back(chars: &Vec<char>, from: usize, to: usize) -> (at: usize)
    requires
        from <= to <= chars.len(),
    ensures
        from <= at <= to,
        to - at == space_tail(chars@.subrange(from as int, to as int)),
{
    let mut at = to;
    while at > from && is_space_char(chars[at - 1])
        invariant
            from <= at <= to <= chars.len(),
            forall|i: int| at <= i < to ==> is_space(#[trigger] chars[i]),
        decreases at,
    {
        at = at - 1;
    }
    proof {
        let part = chars@.subrange(from as int, to as int);
        assert forall|i: int| part.len() - (to - at) <= i < part.len() implies is_space(
            #[trigger] part[i],
        ) by {
            assert(part[i] == chars[from + i]);
        }
        lemma_space_tail(part, to - at);
    }
    at
}

/// Whether the characters from `from` up to `to` are `word`, but for the case of the letters.
pub(crate) fn is_word(chars: &Vec<char>, from: usize, to: usize, word: &Vec<char>) -> (same: bool)
    requires
        from <= to <= chars.len(),
    ensures
        same == same_word(chars@.subrange(from as int, to as int), word@),
{
    let ghost part = chars@.subrange(from as int, to as int);
    if to - from != word.len() {
        return false;
    }
    let mut i: usize = 0;
    while i < word.len()
        invariant
            from <= to <= chars.len(),
            to - from == word.len(),
            i <= word.len(),
            part == chars@.subrange(from as int, to as int),
            forall|j: int| 0 <= j < i ==> lower(#[trigger] part[j]) == lower(word[j]),
        decreases word.len() - i,
    {
        assert(part[i as int] == chars[from + i]);
        if lower_char(chars[from + i]) != lower_char(word[i]) {
            return false;
        }
        i = i + 1;
    }
    true
}

} // verus!
