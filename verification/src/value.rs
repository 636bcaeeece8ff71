//! The value dispatcher: the first character that is no blank decides which
//! scanner takes the value.

use crate::array::{array_at, scan_array};
use crate::classes::{delimiter, delimiter_set, digit_or_dash, is_digit_or_dash};
use crate::error::{fail, failed, ErrorKind, ParseError};
use crate::number::{number_at, scan_number};
use crate::object::{object_at, scan_object};
use crate::string::{scan_string, string_at};
use crate::text::{blanks, chars_of, has_word, skip_blanks};
use crate::types::{outcome, Node, ValueToken};
use vstd::prelude::*;

verus! {

/// The value that stands in `s` at `at`, after blanks. The first character
/// that is no blank decides its kind: `[` an array, `{` an object, `"` a
/// string, `-` or a digit a number, and `t`, `f` or `n` the word `true`,
/// `false` or `null`, which must stand there in full. The `skip` of the value
/// counts the blanks too. `delimiters` holds the characters that may end a
/// number here.
///
/// Fails as the scanner of that kind fails; with `UnexpectedCharacter` where
/// the word is not complete, where the text ends before a value starts, and
/// on any other first character but a delimiter, which gives `ExpectedValue`.
pub open spec fn scan_value(s: Seq<char>, at: int, delimiters: Set<char>) -> Result<
    Node,
    ParseError,
>
    decreases s.len() - at, 2int,
{
    let first = at + blanks(s, at);
    if first >= s.len() {
        failed(ErrorKind::UnexpectedCharacter, first)
    } else if s[first] == '[' {
        scan_array(s, at)
    } else if s[first] == 'f' {
        if has_word(s, first, seq!['f', 'a', 'l', 's', 'e']) {
            Ok(Node::False { skip: (first + 5 - at) as nat, token: false })
        } else {
            failed(ErrorKind::UnexpectedCharacter, first)
        }
    } else if s[first] == 'n' {
        if has_word(s, first, seq!['n', 'u', 'l', 'l']) {
            Ok(Node::Null { skip: (first + 4 - at) as nat })
        } else {
            failed(ErrorKind::UnexpectedCharacter, first)
        }
    } else if is_digit_or_dash(s[first]) {
        scan_number(s, at, delimiters)
    } else if s[first] == '{' {
        scan_object(s, at)
    } else if s[first] == '"' {
        scan_string(s, at)
    } else if s[first] == 't' {
        if has_word(s, first, seq!['t', 'r', 'u', 'e']) {
            Ok(Node::True { skip: (first + 4 - at) as nat, token: true })
        } else {
            failed(ErrorKind::UnexpectedCharacter, first)
        }
    } else if delimiters.contains(s[first]) {
        failed(ErrorKind::ExpectedValue, first)
    } else {
        failed(ErrorKind::UnexpectedCharacter, first)
    }
}

/// Whether the characters of `word` stand in `chars` at `at`.
fn word_at(chars: &[char], at: usize, word: &[char]) -> (found: bool)
    requires
        at <= chars.len(),
    ensures
        found == has_word(chars@, at as int, word@),
{
    if chars.len() - at < word.len() {
        return false;
    }
    let mut seen: usize = 0;
    while seen < word.len()
        invariant
            seen <= word.len(),
            at + word.len() <= chars.len(),
            chars@.subrange(at as int, at + seen) == word@.subrange(0, seen as int),
        decreases word.len() - seen,
    {
        if chars[at + seen] != word[seen] {
            assert(chars@.subrange(at as int, at + word.len())[seen as int] != word@[seen as int]);
            return false;
        }
        assert(chars@.subrange(at as int, at + seen + 1) =~= chars@.subrange(
            at as int,
            at + seen,
        ).push(chars@[at + seen]));
        assert(word@.subrange(0, seen + 1) =~= word@.subrange(0, seen as int).push(
            word@[seen as int],
        ));
        seen += 1;
    }
    assert(word@.subrange(0, seen as int) =~= word@);
    true
}

/// Scans the value that stands in `chars` at `start`, after blanks.
pub fn value_at(chars: &[char], start: usize, delimiters: &str) -> (r: Result<
    ValueToken,
    ParseError,
>)
    requires
        start <= chars.len(),
    ensures
        outcome(r) == scan_value(chars@, start as int, delimiter_set(delimiters@)),
        r matches Ok(token) ==> start + token@.skip() <= chars.len(),
    decreases chars.len() - start, 2int,
{
    let first = skip_blanks(chars, start);
    if first >= chars.len() {
        return fail(ErrorKind::UnexpectedCharacter, first);
    }
    let ch = chars[first];
    if ch == '[' {
        array_at(chars, start)
    } else if ch == 'f' {
        if word_at(chars, first, &['f', 'a', 'l', 's', 'e']) {
            Ok(ValueToken::FalseToken { skip: first + 5 - start, token: false })
        } else {
            fail(ErrorKind::UnexpectedCharacter, first)
        }
    } else if ch == 'n' {
        if word_at(chars, first, &['n', 'u', 'l', 'l']) {
            Ok(ValueToken::NullToken { skip: first + 4 - start })
        } else {
            fail(ErrorKind::UnexpectedCharacter, first)
        }
    } else if digit_or_dash(ch) {
        number_at(chars, start, delimiters)
    } else if ch == '{' {
        object_at(chars, start)
    } else if ch == '"' {
        string_at(chars, start)
    } else if ch == 't' {
        if word_at(chars, first, &['t', 'r', 'u', 'e']) {
            Ok(ValueToken::TrueToken { skip: first + 4 - start, token: true })
        } else {
            fail(ErrorKind::UnexpectedCharacter, first)
        }
    } else if delimiter(delimiters, ch) {
        fail(ErrorKind::ExpectedValue, first)
    } else {
        fail(ErrorKind::UnexpectedCharacter, first)
    }
}

/// Scans the value that `value` starts with, after blanks. `delimiters` is a
/// regular expression for the characters that may end a number here, or the
/// empty text where only the end of `value` may.
pub fn parse_value(value: &str, delimiters: &str) -> (r: Result<ValueToken, ParseError>)
    ensures
        outcome(r) == scan_value(value@, 0, delimiter_set(delimiters@)),
{
    let chars = chars_of(value);
    value_at(chars.as_slice(), 0, delimiters)
}

} // verus!
