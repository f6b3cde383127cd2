//! Text helpers: comparison, prefixes, trimming and decimal digits.

use vstd::prelude::*;

verus! {

/// `str::eq`: two strings are equal when they hold the same characters.
pub assume_specification[ <str as PartialEq>::eq ](a: &str, b: &str) -> (equal: bool)
    ensures
        equal == (a@ == b@),
;

/// The characters of an optional string.
pub open spec fn string_view(text: Option<String>) -> Option<Seq<char>> {
    match text {
        Some(text) => Some(text@),
        None => None,
    }
}

/// The characters of a list of strings.
pub open spec fn text_views(texts: Seq<String>) -> Seq<Seq<char>> {
    Seq::new(texts.len(), |i: int| texts[i]@)
}

/// The characters of an optional string slice.
pub open spec fn str_view(text: Option<&str>) -> Option<Seq<char>> {
    match text {
        Some(text) => Some(text@),
        None => None,
    }
}

/// An owned copy of an optional string slice.
pub fn owned(text: Option<&str>) -> (copy: Option<String>)
    ensures
        string_view(copy) == str_view(text),
{
    match text {
        Some(text) => Some(text.to_owned()),
        None => None,
    }
}

/// The characters with Unicode's White_Space property.
pub open spec fn is_white_space(c: char) -> bool {
    ||| '\u{9}' <= c <= '\u{d}'
    ||| c == ' '
    ||| c == '\u{85}'
    ||| c == '\u{a0}'
    ||| c == '\u{1680}'
    ||| '\u{2000}' <= c <= '\u{200a}'
    ||| c == '\u{2028}'
    ||| c == '\u{2029}'
    ||| c == '\u{202f}'
    ||| c == '\u{205f}'
    ||| c == '\u{3000}'
}

/// A text without the white space that it starts with.
pub open spec fn trimmed_start(text: Seq<char>) -> Seq<char>
    decreases text.len(),
{
    if text.len() > 0 && is_white_space(text.first()) {
        trimmed_start(text.drop_first())
    } else {
        text
    }
}

/// A text without the white space that it ends with.
pub open spec fn trimmed_end(text: Seq<char>) -> Seq<char>
    decreases text.len(),
{
    if text.len() > 0 && is_white_space(text.last()) {
        trimmed_end(text.drop_last())
    } else {
        text
    }
}

/// A text without the white space at its two ends.
pub open spec fn trimmed(text: Seq<char>) -> Seq<char> {
    trimmed_end(trimmed_start(text))
}

/// A text of white space alone, or of nothing.
pub open spec fn is_blank(text: Seq<char>) -> bool {
    forall|i: int| 0 <= i < text.len() ==> is_white_space(#[trigger] text[i])
}

/// What is left of a text after trimming is empty exactly where the text is
/// blank.
pub proof fn lemma_trimmed_blank(text: Seq<char>)
    ensures
        trimmed(text).len() == 0 <==> is_blank(text),
{
    lemma_trimmed_start(text);
    if trimmed_start(text).len() > 0 {
        lemma_trimmed_end(trimmed_start(text));
    }
}

proof fn lemma_trimmed_start(text: Seq<char>)
    ensures
        trimmed_start(text).len() == 0 <==> is_blank(text),
        trimmed_start(text).len() > 0 ==> !is_white_space(trimmed_start(text).first()),
    decreases text.len(),
{
    if text.len() > 0 && is_white_space(text.first()) {
        let rest = text.drop_first();
        lemma_trimmed_start(rest);
        if is_blank(rest) {
            assert forall|i: int| 0 <= i < text.len() implies is_white_space(#[trigger] text[i]) by {
                if i > 0 {
                    assert(rest[i - 1] == text[i]);
                }
            }
        }
        if is_blank(text) {
            assert forall|i: int| 0 <= i < rest.len() implies is_white_space(#[trigger] rest[i]) by {
                assert(rest[i] == text[i + 1]);
            }
        }
    }
}

proof fn lemma_trimmed_end(text: Seq<char>)
    requires
        text.len() > 0,
        !is_white_space(text.first()),
    ensures
        trimmed_end(text).len() > 0,
    decreases text.len(),
{
    if is_white_space(text.last()) {
        assert(text.len() > 1);
        assert(text.drop_last().first() == text.first());
        lemma_trimmed_end(text.drop_last());
    }
}

/// `str::trim` takes off the white space at both ends, where white space is
/// what has Unicode's White_Space property.
pub assume_specification[ str::trim ](text: &str) -> (rest: &str)
    ensures
        rest@ == trimmed(text@),
;

/// Whether a text is blank.
pub fn blank(text: &str) -> (result: bool)
    ensures
        result == is_blank(text@),
{
    proof {
        lemma_trimmed_blank(text@);
    }
    text.trim().is_empty()
}

/// `text` starts with `prefix`.
pub open spec fn has_prefix(text: Seq<char>, prefix: Seq<char>) -> bool {
    prefix.len() <= text.len() && text.subrange(0, prefix.len() as int) == prefix
}

/// `str::starts_with` with a string as the pattern: whether the text begins
/// with the prefix.
#[verifier::external_body]
pub(crate) fn starts_with(text: &str, prefix: &str) -> (result: bool)
    ensures
        result == has_prefix(text@, prefix@),
{
    text.starts_with(prefix)
}

/// A character with the letters `A` to `Z` made small.
pub open spec fn ascii_lower(c: char) -> char {
    if 'A' <= c <= 'Z' {
        (c as int + 32) as char
    } else {
        c
    }
}

/// The two texts differ at most in the case of the letters `A` to `Z`.
pub open spec fn same_ignoring_ascii_case(a: Seq<char>, b: Seq<char>) -> bool {
    a.len() == b.len() && forall|i: int|
        0 <= i < a.len() ==> ascii_lower(#[trigger] a[i]) == ascii_lower(b[i])
}

/// `str::eq_ignore_ascii_case` compares as if the letters `A` to `Z` were
/// small.
pub assume_specification[ str::eq_ignore_ascii_case ](a: &str, b: &str) -> (equal: bool)
    ensures
        equal == same_ignoring_ascii_case(a@, b@),
;

/// The digit of a number below ten.
pub open spec fn digit(number: nat) -> char {
    (48 + number) as char
}

/// A number in decimal digits, without leading zeros.
pub open spec fn decimal(number: nat) -> Seq<char>
    decreases number,
{
    if number < 10 {
        seq![digit(number)]
    } else {
        decimal(number / 10).push(digit(number % 10))
    }
}

/// An integer in decimal digits, with a minus sign where it is negative.
pub open spec fn signed_decimal(number: int) -> Seq<char> {
    if number < 0 {
        seq!['-'] + decimal((-number) as nat)
    } else {
        decimal(number as nat)
    }
}

fn digit_text(number: u64) -> (text: &'static str)
    requires
        number < 10,
    ensures
        text@ == seq![digit(number as nat)],
{
    proof {
        reveal_strlit("0");
        reveal_strlit("1");
        reveal_strlit("2");
        reveal_strlit("3");
        reveal_strlit("4");
        reveal_strlit("5");
        reveal_strlit("6");
        reveal_strlit("7");
        reveal_strlit("8");
        reveal_strlit("9");
    }
    let text = match number {
        0 => "0",
        1 => "1",
        2 => "2",
        3 => "3",
        4 => "4",
        5 => "5",
        6 => "6",
        7 => "7",
        8 => "8",
        _ => "9",
    };
    assert(text@ =~= seq![digit(number as nat)]);
    text
}

/// A number in decimal digits.
pub fn decimal_text(number: u64) -> (text: String)
    ensures
        text@ == decimal(number as nat),
    decreases number,
{
    if number < 10 {
        digit_text(number).to_owned()
    } else {
        let mut text = decimal_text(number / 10);
        let ghost start = text@;
        text.append(digit_text(number % 10));
        assert(text@ =~= start.push(digit(number as nat % 10)));
        text
    }
}

/// An integer in decimal digits, with a minus sign where it is negative.
pub fn signed_decimal_text(number: i64) -> (text: String)
    ensures
        text@ == signed_decimal(number as int),
{
    if number < 0 {
        proof {
            reveal_strlit("-");
        }
        let mut text = "-".to_owned();
        let size: u64 = (-(number + 1)) as u64 + 1;
        text.append(decimal_text(size).as_str());
        assert(text@ =~= seq!['-'] + decimal((-number) as nat));
        text
    } else {
        decimal_text(number as u64)
    }
}

/// Different numbers have different digits.
pub proof fn lemma_decimal_injective(a: nat, b: nat)
    requires
        decimal(a) == decimal(b),
    ensures
        a == b,
    decreases a,
{
    lemma_decimal_length(a);
    lemma_decimal_length(b);
    if a < 10 && b < 10 {
        assert(seq![digit(a)][0] == seq![digit(b)][0]);
    } else if a >= 10 && b >= 10 {
        let x = decimal(a / 10);
        let y = decimal(b / 10);
        assert(x.push(digit(a % 10)).last() == y.push(digit(b % 10)).last());
        assert(x =~= x.push(digit(a % 10)).drop_last());
        assert(y =~= y.push(digit(b % 10)).drop_last());
        lemma_decimal_injective(a / 10, b / 10);
    }
}

proof fn lemma_decimal_length(number: nat)
    ensures
        decimal(number).len() >= 1,
        number >= 10 ==> decimal(number).len() >= 2,
    decreases number,
{
    if number >= 10 {
        lemma_decimal_length(number / 10);
    }
}

} // verus!
