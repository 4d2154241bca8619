//! Text operations the library takes from the standard library.

use vstd::prelude::*;
use vstd::string::{StrSliceExecFns, StringExecFns};

verus! {

/// `text` with every character replaced by its lower-case mapping.
pub uninterp spec fn lowercase(text: Seq<char>) -> Seq<char>;

/// The value of a decimal digit, or `None` for any other character.
pub open spec fn digit_value(c: char) -> Option<int> {
    if c == '0' {
        Some(0)
    } else if c == '1' {
        Some(1)
    } else if c == '2' {
        Some(2)
    } else if c == '3' {
        Some(3)
    } else if c == '4' {
        Some(4)
    } else if c == '5' {
        Some(5)
    } else if c == '6' {
        Some(6)
    } else if c == '7' {
        Some(7)
    } else if c == '8' {
        Some(8)
    } else if c == '9' {
        Some(9)
    } else {
        None
    }
}

/// The decimal digit for a value from 0 to 9.
pub open spec fn digit_char(d: int) -> char {
    if d == 0 {
        '0'
    } else if d == 1 {
        '1'
    } else if d == 2 {
        '2'
    } else if d == 3 {
        '3'
    } else if d == 4 {
        '4'
    } else if d == 5 {
        '5'
    } else if d == 6 {
        '6'
    } else if d == 7 {
        '7'
    } else if d == 8 {
        '8'
    } else {
        '9'
    }
}

/// The number that a non-empty run of decimal digits writes, or `None`
/// where `digits` is empty or holds anything but digits.
pub open spec fn spec_digits_value(digits: Seq<char>) -> Option<int>
    decreases digits.len(),
{
    if digits.len() == 0 {
        None
    } else if digits.len() == 1 {
        digit_value(digits[0])
    } else {
        match (spec_digits_value(digits.drop_last()), digit_value(digits.last())) {
            (Some(value), Some(d)) => Some(10 * value + d),
            _ => None,
        }
    }
}

/// The integer that `text` writes in decimal: an optional plus or minus
/// sign and then digits alone, at least one, for a number that fits in an
/// `i64`. Any other text writes none.
pub open spec fn parsed_integer(text: Seq<char>) -> Option<i64> {
    let signed = text.len() > 0 && (text[0] == '-' || text[0] == '+');
    let digits = if signed {
        text.subrange(1, text.len() as int)
    } else {
        text
    };
    match spec_digits_value(digits) {
        Some(value) => {
            let number = if signed && text[0] == '-' {
                -value
            } else {
                value
            };
            if i64::MIN <= number <= i64::MAX {
                Some(number as i64)
            } else {
                None
            }
        },
        None => None,
    }
}

/// The digits of a natural number, without leading zeros.
pub open spec fn spec_digits(n: nat) -> Seq<char>
    decreases n,
{
    if n < 10 {
        seq![digit_char(n as int)]
    } else {
        spec_digits(n / 10).push(digit_char((n % 10) as int))
    }
}

/// `text` without its leading and trailing white space.
pub uninterp spec fn trimmed(text: Seq<char>) -> Seq<char>;

/// Calls std's `str::to_lowercase`. Trusted: the outcome is the one named by
/// `lowercase`.
#[verifier::external_body]
pub(crate) fn std_to_lowercase(text: &str) -> (r: String)
    ensures
        r@ == lowercase(text@),
{
    text.to_lowercase()
}

/// Calls std's `str::parse` for `i64`; a parse error becomes `None`.
/// Trusted: the text parses exactly where it is an optional sign and then
/// decimal digits for a number in range, and to that number.
#[verifier::external_body]
pub(crate) fn std_parse_i64(text: &str) -> (r: Option<i64>)
    ensures
        r == parsed_integer(text@),
{
    match text.parse::<i64>() {
        Ok(value) => Some(value),
        Err(_) => None,
    }
}

/// Calls std's `str::trim`. Trusted: the outcome is the one named by
/// `trimmed`.
#[verifier::external_body]
pub(crate) fn std_trim(text: &str) -> (r: &str)
    ensures
        r@ == trimmed(text@),
{
    text.trim()
}

/// The decimal writing of an integer: its digits, after a minus sign where
/// it is negative.
pub open spec fn decimal(value: int) -> Seq<char> {
    if value < 0 {
        seq!['-'] + spec_digits((-value) as nat)
    } else {
        spec_digits(value as nat)
    }
}

/// Calls std's `ToString::to_string` on an `i128`. Trusted: the outcome is
/// the decimal writing of the number.
#[verifier::external_body]
pub(crate) fn std_i128_to_string(value: i128) -> (r: String)
    ensures
        r@ == decimal(value as int),
{
    value.to_string()
}

/// Whether two texts are equal once both are brought to lower case.
pub open spec fn same_ignoring_case(a: Seq<char>, b: Seq<char>) -> bool {
    lowercase(a) == lowercase(b)
}

/// A list of texts by their characters.
pub open spec fn texts_view(texts: Seq<String>) -> Seq<Seq<char>> {
    Seq::new(texts.len(), |i: int| texts[i]@)
}

/// A list of rows of texts by their characters.
pub open spec fn rows_view(rows: Seq<Vec<String>>) -> Seq<Seq<Seq<char>>> {
    Seq::new(rows.len(), |i: int| texts_view(rows[i]@))
}

/// The first `n` characters of `text` cut at each `separator`: the parts
/// between the separators, in order, empty parts included.
pub open spec fn spec_split_upto(text: Seq<char>, n: int, separator: char) -> Seq<Seq<char>>
    decreases n,
{
    if n <= 0 {
        seq![Seq::empty()]
    } else {
        let earlier = spec_split_upto(text, n - 1, separator);
        if text[n - 1] == separator {
            earlier.push(Seq::empty())
        } else {
            earlier.update(earlier.len() - 1, earlier.last().push(text[n - 1]))
        }
    }
}

/// `text` cut at each `separator`.
pub open spec fn spec_split(text: Seq<char>, separator: char) -> Seq<Seq<char>> {
    spec_split_upto(text, text.len() as int, separator)
}

/// The first `n` of `parts`, each without its surrounding white space, the
/// ones that are empty then left out.
pub open spec fn spec_trimmed_parts(parts: Seq<Seq<char>>, n: int) -> Seq<Seq<char>>
    decreases n,
{
    if n <= 0 {
        Seq::empty()
    } else if trimmed(parts[n - 1]).len() == 0 {
        spec_trimmed_parts(parts, n - 1)
    } else {
        spec_trimmed_parts(parts, n - 1).push(trimmed(parts[n - 1]))
    }
}

/// A cut text has at least one part, and no part holds the separator.
pub proof fn lemma_split_upto(text: Seq<char>, n: int, separator: char)
    requires
        0 <= n <= text.len(),
    ensures
        spec_split_upto(text, n, separator).len() >= 1,
        forall|p: int, c: int|
            0 <= p < spec_split_upto(text, n, separator).len() && 0 <= c < spec_split_upto(
                text,
                n,
                separator,
            )[p].len() ==> (#[trigger] spec_split_upto(text, n, separator)[p][c]) != separator,
    decreases n,
{
    if n > 0 {
        lemma_split_upto(text, n - 1, separator);
    }
}

/// Cuts `text` at each `separator`.
pub fn split(text: &str, separator: char) -> (r: Vec<String>)
    ensures
        texts_view(r@) == spec_split(text@, separator),
{
    let n = text.unicode_len();
    let mut parts: Vec<String> = Vec::new();
    let mut start: usize = 0;
    let mut i: usize = 0;
    assert(text@.subrange(0, 0) =~= Seq::<char>::empty());
    assert(texts_view(parts@).push(text@.subrange(0, 0)) =~= spec_split_upto(text@, 0, separator));
    while i < n
        invariant
            n == text@.len(),
            0 <= start <= i <= n,
            texts_view(parts@).push(text@.subrange(start as int, i as int)) == spec_split_upto(
                text@,
                i as int,
                separator,
            ),
        decreases n - i,
    {
        let ghost before = texts_view(parts@);
        let ghost open = text@.subrange(start as int, i as int);
        if text.get_char(i) == separator {
            parts.push(String::from_str(text.substring_char(start, i)));
            start = i + 1;
            assert(texts_view(parts@) =~= before.push(open));
            assert(text@.subrange(start as int, i as int + 1) =~= Seq::<char>::empty());
        } else {
            assert(text@.subrange(start as int, i as int + 1) =~= open.push(text@[i as int]));
            assert(before.push(open).update(before.len() as int, open.push(text@[i as int]))
                =~= before.push(open.push(text@[i as int])));
        }
        i = i + 1;
    }
    let ghost before = texts_view(parts@);
    parts.push(String::from_str(text.substring_char(start, n)));
    assert(texts_view(parts@) =~= before.push(text@.subrange(start as int, n as int)));
    parts
}

/// The parts of `text` between commas, each without its surrounding white
/// space, the ones that are empty then left out.
pub fn comma_separated(text: &str) -> (r: Vec<String>)
    ensures
        texts_view(r@) == spec_trimmed_parts(
            spec_split(text@, ','),
            spec_split(text@, ',').len() as int,
        ),
{
    let parts = split(text, ',');
    let mut out: Vec<String> = Vec::new();
    let mut i: usize = 0;
    assert(texts_view(out@) =~= Seq::empty());
    assert(texts_view(parts@).len() == parts.len());
    while i < parts.len()
        invariant
            0 <= i <= parts.len(),
            texts_view(out@) == spec_trimmed_parts(texts_view(parts@), i as int),
        decreases parts.len() - i,
    {
        let inner = std_trim(parts[i].as_str());
        assert(texts_view(parts@)[i as int] == parts@[i as int]@);
        if !inner.is_empty() {
            let ghost before = texts_view(out@);
            out.push(String::from_str(inner));
            assert(texts_view(out@) =~= before.push(inner@));
        }
        i = i + 1;
    }
    out
}

} // verus!
