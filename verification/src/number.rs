//! The number scanner: sign, integer part, fraction and exponent, ended by a
//! delimiter or by the end of the text.

use crate::classes::{delimiter, delimiter_set, digit, is_digit, non_zero_digit};
use crate::error::{fail, failed, ErrorKind, ParseError};
use crate::text::{blanks, chars_of, digits, skip_blanks, skip_digits, text_between};
use crate::types::{outcome, Node, Number, ValueToken};
use vstd::prelude::*;

verus! {

/// Whether `c` starts an exponent.
pub open spec fn is_exponent_mark(c: char) -> bool {
    c == 'e' || c == 'E'
}

/// Whether `c` is the sign of an exponent.
pub open spec fn is_sign(c: char) -> bool {
    c == '+' || c == '-'
}

/// Where a number ends whose exponent, if it has one, starts at `at`. What
/// stands at `at` is neither a decimal point nor a delimiter: it must be the
/// mark of an exponent, with an optional sign and at least one digit after
/// it, and a delimiter or the end of the text after the digits.
///
/// Fails with `LeadingZero` where a digit stands at `at`, which is a digit
/// after a zero; with `IncompleteNumber` where no digit follows the mark and
/// the sign; else with `UnexpectedCharacter`.
pub open spec fn scan_exponent(s: Seq<char>, at: int, delimiters: Set<char>) -> Result<
    int,
    ParseError,
> {
    if !is_exponent_mark(s[at]) {
        if is_digit(s[at]) {
            failed(ErrorKind::LeadingZero, at)
        } else {
            failed(ErrorKind::UnexpectedCharacter, at)
        }
    } else {
        let first = if at + 1 < s.len() && is_sign(s[at + 1]) {
            at + 2
        } else {
            at + 1
        };
        if first >= s.len() || !is_digit(s[first]) {
            failed(ErrorKind::IncompleteNumber, first)
        } else {
            let end = first + digits(s, first);
            if end >= s.len() || delimiters.contains(s[end]) {
                Ok(end)
            } else {
                failed(ErrorKind::UnexpectedCharacter, end)
            }
        }
    }
}

/// Where a number ends whose fraction digits start at `at`, after the
/// decimal point. The fraction may have no digit. After it the text ends, a
/// delimiter stands, or an exponent starts; anything else gives
/// `UnexpectedCharacter`.
pub open spec fn scan_fraction(s: Seq<char>, at: int, delimiters: Set<char>) -> Result<
    int,
    ParseError,
> {
    let end = at + digits(s, at);
    if end >= s.len() {
        Ok(end)
    } else if is_exponent_mark(s[end]) {
        scan_exponent(s, end, delimiters)
    } else if delimiters.contains(s[end]) {
        Ok(end)
    } else {
        failed(ErrorKind::UnexpectedCharacter, end)
    }
}

/// Where a number ends whose integer part ends before `at`: there, if the
/// text ends or a delimiter stands there, else after the fraction or the
/// exponent that starts there.
pub open spec fn scan_after_integer(s: Seq<char>, at: int, delimiters: Set<char>) -> Result<
    int,
    ParseError,
> {
    if at >= s.len() {
        Ok(at)
    } else if s[at] == '.' {
        scan_fraction(s, at + 1, delimiters)
    } else if delimiters.contains(s[at]) {
        Ok(at)
    } else {
        scan_exponent(s, at, delimiters)
    }
}

/// Where the number ends that starts at `at` with its sign or first digit.
/// The integer part is one zero, or a digit other than zero and all the
/// digits that follow it.
///
/// Fails with `IncompleteNumber` where no digit stands at the start or
/// after the sign, and as the scan of what follows the integer part fails.
pub open spec fn scan_number_end(s: Seq<char>, at: int, delimiters: Set<char>) -> Result<
    int,
    ParseError,
> {
    let first = if at < s.len() && s[at] == '-' {
        at + 1
    } else {
        at
    };
    if first >= s.len() || !is_digit(s[first]) {
        failed(ErrorKind::IncompleteNumber, first)
    } else if s[first] == '0' {
        scan_after_integer(s, first + 1, delimiters)
    } else {
        let end = first + digits(s, first);
        if end < s.len() && delimiters.contains(s[end]) {
            Ok(end)
        } else {
            scan_after_integer(s, end, delimiters)
        }
    }
}

/// The number that stands in `s` at `at`, after blanks. Its text is what
/// stands between the blanks and the place where scanning stopped, as it is
/// written; its `skip` counts the blanks too. With no delimiters the number
/// must run to the end of `s`.
pub open spec fn scan_number(s: Seq<char>, at: int, delimiters: Set<char>) -> Result<
    Node,
    ParseError,
> {
    let begin = at + blanks(s, at);
    match scan_number_end(s, begin, delimiters) {
        Ok(end) => Ok(Node::Number { skip: (end - at) as nat, text: s.subrange(begin, end) }),
        Err(e) => Err(e),
    }
}

fn exponent_end(chars: &[char], at: usize, delimiters: &str) -> (r: Result<usize, ParseError>)
    requires
        at < chars.len(),
    ensures
        r matches Ok(end) ==> scan_exponent(chars@, at as int, delimiter_set(delimiters@)) == Ok::<
            int,
            ParseError,
        >(end as int) && at < end <= chars.len(),
        r matches Err(e) ==> scan_exponent(chars@, at as int, delimiter_set(delimiters@)) == Err::<
            int,
            ParseError,
        >(e),
{
    let mark = chars[at];
    if !(mark == 'e' || mark == 'E') {
        if digit(mark) {
            return fail(ErrorKind::LeadingZero, at);
        } else {
            return fail(ErrorKind::UnexpectedCharacter, at);
        }
    }
    let mut first = at + 1;
    if first < chars.len() && (chars[first] == '+' || chars[first] == '-') {
        first += 1;
    }
    if first >= chars.len() || !digit(chars[first]) {
        return fail(ErrorKind::IncompleteNumber, first);
    }
    let end = skip_digits(chars, first);
    if end >= chars.len() || delimiter(delimiters, chars[end]) {
        Ok(end)
    } else {
        fail(ErrorKind::UnexpectedCharacter, end)
    }
}

fn fraction_end(chars: &[char], at: usize, delimiters: &str) -> (r: Result<usize, ParseError>)
    requires
        at <= chars.len(),
    ensures
        r matches Ok(end) ==> scan_fraction(chars@, at as int, delimiter_set(delimiters@)) == Ok::<
            int,
            ParseError,
        >(end as int) && at <= end <= chars.len(),
        r matches Err(e) ==> scan_fraction(chars@, at as int, delimiter_set(delimiters@)) == Err::<
            int,
            ParseError,
        >(e),
{
    let end = skip_digits(chars, at);
    if end >= chars.len() {
        Ok(end)
    } else if chars[end] == 'e' || chars[end] == 'E' {
        exponent_end(chars, end, delimiters)
    } else if delimiter(delimiters, chars[end]) {
        Ok(end)
    } else {
        fail(ErrorKind::UnexpectedCharacter, end)
    }
}

fn after_integer_end(chars: &[char], at: usize, delimiters: &str) -> (r: Result<
    usize,
    ParseError,
>)
    requires
        at <= chars.len(),
    ensures
        r matches Ok(end) ==> scan_after_integer(chars@, at as int, delimiter_set(delimiters@))
            == Ok::<int, ParseError>(end as int) && at <= end <= chars.len(),
        r matches Err(e) ==> scan_after_integer(chars@, at as int, delimiter_set(delimiters@))
            == Err::<int, ParseError>(e),
{
    if at >= chars.len() {
        Ok(at)
    } else if chars[at] == '.' {
        fraction_end(chars, at + 1, delimiters)
    } else if delimiter(delimiters, chars[at]) {
        Ok(at)
    } else {
        exponent_end(chars, at, delimiters)
    }
}

fn number_end(chars: &[char], at: usize, delimiters: &str) -> (r: Result<usize, ParseError>)
    requires
        at <= chars.len(),
    ensures
        r matches Ok(end) ==> scan_number_end(chars@, at as int, delimiter_set(delimiters@))
            == Ok::<int, ParseError>(end as int) && at < end <= chars.len(),
        r matches Err(e) ==> scan_number_end(chars@, at as int, delimiter_set(delimiters@))
            == Err::<int, ParseError>(e),
{
    let mut first = at;
    if first < chars.len() && chars[first] == '-' {
        first += 1;
    }
    if first >= chars.len() {
        return fail(ErrorKind::IncompleteNumber, first);
    }
    if chars[first] == '0' {
        after_integer_end(chars, first + 1, delimiters)
    } else if non_zero_digit(chars[first]) {
        let end = skip_digits(chars, first);
        if end < chars.len() && delimiter(delimiters, chars[end]) {
            Ok(end)
        } else {
            after_integer_end(chars, end, delimiters)
        }
    } else {
        fail(ErrorKind::IncompleteNumber, first)
    }
}

/// Scans the number that stands in `chars` at `start`, after blanks.
pub fn number_at(chars: &[char], start: usize, delimiters: &str) -> (r: Result<
    ValueToken,
    ParseError,
>)
    requires
        start <= chars.len(),
    ensures
        outcome(r) == scan_number(chars@, start as int, delimiter_set(delimiters@)),
        r matches Ok(token) ==> start + token@.skip() <= chars.len(),
{
    let begin = skip_blanks(chars, start);
    match number_end(chars, begin, delimiters) {
        Ok(end) => Ok(
            ValueToken::NumberToken {
                skip: end - start,
                token: Number { value_as_string: text_between(chars, begin, end) },
            },
        ),
        Err(e) => Err(e),
    }
}

/// Scans the number that `number` starts with, after blanks. `delimiters` is
/// a regular expression for the characters that may follow the number, or
/// the empty text where only the end of `number` may follow.
pub fn parse_number(number: &str, delimiters: &str) -> (r: Result<ValueToken, ParseError>)
    ensures
        outcome(r) == scan_number(number@, 0, delimiter_set(delimiters@)),
{
    let chars = chars_of(number);
    number_at(chars.as_slice(), 0, delimiters)
}

} // verus!
