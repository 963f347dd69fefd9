//! Identifiers: a claim generation, a run or an operation is named by the 128 bits of a UUID.
use vstd::arithmetic::power::pow;
use vstd::prelude::*;
use vstd::string::*;

use crate::text::{chars_of, strip_prefix, text_of, without_prefix};

verus! {

/// The number of an issue. Issue numbers are positive; readers of text and of records refuse 0.
pub type IssueNumber = u64;

/// The 128 bits of a UUID, the first byte on top: identifiers are ordered as these numbers are.
pub type Id = u128;

/// The lower-case hexadecimal digit of a number below sixteen.
pub open spec fn hex_digit(n: int) -> char {
    if n < 10 {
        (48 + n) as char
    } else {
        (87 + n) as char
    }
}

/// The hexadecimal digit at place `place` of the 32 digits of an identifier.
pub open spec fn id_digit(id: u128, place: int) -> char {
    hex_digit((id as int / pow(16, (31 - place) as nat)) % 16)
}

/// The text of an identifier: groups of 8, 4, 4, 4 and 12 hexadecimal digits between hyphens.
pub open spec fn id_text(id: u128) -> Seq<char> {
    Seq::new(
        36,
        |i: int|
            if i == 8 || i == 13 || i == 18 || i == 23 {
                '-'
            } else {
                id_digit(
                    id,
                    i - (if i < 8 {
                        0int
                    } else if i < 13 {
                        1
                    } else if i < 18 {
                        2
                    } else if i < 23 {
                        3
                    } else {
                        4
                    }),
                )
            },
    )
}

/// The first group of digits of an identifier, by which people tell generations apart.
pub open spec fn short_text(id: u128) -> Seq<char> {
    id_text(id).take(8)
}

/// The identifier that a text is one of the accepted notations of, if it is one.
pub uninterp spec fn parsed_id(text: Seq<char>) -> Option<u128>;

/// `Uuid::to_string` writes the hyphenated lower-case form of the bits given to
/// `Uuid::from_u128`, and `Uuid::parse_str` reads that form back as the same bits.
#[verifier::external_body]
pub(crate) fn id_string(id: Id) -> (text: String)
    ensures
        text@ == id_text(id),
        parsed_id(text@) == Some(id),
{
    uuid::Uuid::from_u128(id).to_string()
}

/// `Uuid::parse_str` reads the hyphenated, simple, braced and URN notations of a UUID and refuses
/// everything else. Which texts these are stays unsaid; the result is named by the text alone.
#[verifier::external_body]
pub(crate) fn parse_id(text: &str) -> (id: Option<Id>)
    ensures
        id == parsed_id(text@),
{
    let id = uuid::Uuid::parse_str(text).ok()?;
    Some(id.as_u128())
}

/// The first eight digits of an identifier.
pub fn short_id(id: Id) -> (text: String)
    ensures
        text@ == short_text(id),
{
    let full = id_string(id);
    let chars = chars_of(full.as_str());
    let short = text_of(&chars, 0, 8);
    assert(short@ =~= short_text(id));
    short
}

pub open spec fn is_digit(c: char) -> bool {
    '0' <= c && c <= '9'
}

pub open spec fn all_digits(text: Seq<char>) -> bool {
    forall|i: int| 0 <= i < text.len() ==> is_digit(#[trigger] text[i])
}

/// The number that decimal digits stand for.
pub open spec fn digits_value(digits: Seq<char>) -> nat
    decreases digits.len(),
{
    if digits.len() == 0 {
        0
    } else {
        digits_value(digits.drop_last()) * 10 + (digits.last() as u32 - 48) as nat
    }
}

/// The positive number of 64 bits that decimal digits stand for.
pub open spec fn number_in(digits: Seq<char>) -> Option<IssueNumber> {
    if digits.len() > 0 && all_digits(digits) && 0 < digits_value(digits) <= u64::MAX {
        Some(digits_value(digits) as u64)
    } else {
        None
    }
}

/// The issue that a text names: decimal digits, perhaps behind a plus sign, of a positive number
/// of 64 bits.
pub open spec fn parsed_issue(text: Seq<char>) -> Option<IssueNumber> {
    match without_prefix(text, "+"@) {
        Some(digits) => number_in(digits),
        None => number_in(text),
    }
}

proof fn more_digits_are_more(digits: Seq<char>, end: int)
    requires
        0 <= end <= digits.len(),
    ensures
        digits_value(digits.take(end)) <= digits_value(digits),
    decreases digits.len() - end,
{
    if end < digits.len() {
        assert(digits.take(end + 1).drop_last() =~= digits.take(end));
        more_digits_are_more(digits, end + 1);
    } else {
        assert(digits.take(end) =~= digits);
    }
}

/// Reads the number of an issue.
pub fn parse_issue_number(text: &str) -> (issue: Option<IssueNumber>)
    ensures
        issue == parsed_issue(text@),
{
    match strip_prefix(text, "+") {
        Some(digits) => parse_digits(digits.as_str()),
        None => parse_digits(text),
    }
}

fn parse_digits(digits: &str) -> (number: Option<IssueNumber>)
    ensures
        number == number_in(digits@),
{
    let chars = chars_of(digits);
    if chars.len() == 0 {
        return None;
    }
    let mut value: u64 = 0;
    let mut i: usize = 0;
    assert(digits@.take(0) =~= Seq::empty());
    while i < chars.len()
        invariant
            i <= chars.len(),
            chars@ == digits@,
            value == digits_value(digits@.take(i as int)),
            forall|j: int| 0 <= j < i ==> is_digit(#[trigger] digits@[j]),
        decreases chars.len() - i,
    {
        let c = chars[i];
        proof {
            assert(digits@.take(i + 1).drop_last() =~= digits@.take(i as int));
            assert(digits@.take(i + 1).last() == c);
            more_digits_are_more(digits@, i + 1);
        }
        if !('0' <= c && c <= '9') {
            assert(!is_digit(digits@[i as int]));
            return None;
        }
        let digit: u64 = (c as u32 - 48) as u64;
        match value.checked_mul(10) {
            Some(tens) => match tens.checked_add(digit) {
                Some(sum) => {
                    value = sum;
                },
                None => {
                    return None;
                },
            },
            None => {
                return None;
            },
        }
        i = i + 1;
    }
    assert(digits@.take(i as int) =~= digits@);
    if value == 0 {
        None
    } else {
        Some(value)
    }
}

} // verus!
