//! The array scanner: values between brackets, separated by commas.

use crate::classes::{array_delimiters, delimiter_set, lemma_class_patterns, ARRAY_DELIMITERS};
use crate::error::{fail, failed, ErrorKind, ParseError};
use crate::text::{blanks, chars_of, skip_blanks};
use crate::types::{
    lemma_with_front_first, nodes, outcome, with_first, with_front, Array, Node, ValueToken,
};
use crate::value::{scan_value, value_at};
use vstd::prelude::*;

verus! {

/// The elements of an array of which one is due at `at`, after blanks, up to
/// the closing bracket, and the position after that bracket. Each element is
/// a value that a blank, a comma or a closing bracket may end; blanks may
/// stand before and after each.
///
/// Fails as the scan of an element fails; with `TrailingOrUnexpectedComma`
/// where a comma or the closing bracket stands in place of an element; with
/// `ExpectedDelimiter` where neither a comma nor the closing bracket follows
/// an element, or the text ends first.
pub open spec fn scan_elements(s: Seq<char>, at: int) -> Result<(Seq<Node>, int), ParseError>
    decreases s.len() - at, 3int,
{
    let first = at + blanks(s, at);
    if first >= s.len() {
        failed(ErrorKind::ExpectedDelimiter, first)
    } else if s[first] == ']' || s[first] == ',' {
        failed(ErrorKind::TrailingOrUnexpectedComma, first)
    } else {
        match scan_value(s, first, array_delimiters()) {
            Err(e) => Err(e),
            Ok(value) => {
                let next = first + value.skip() + blanks(s, first + value.skip());
                if next >= s.len() {
                    failed(ErrorKind::ExpectedDelimiter, next)
                } else if s[next] == ']' {
                    Ok((seq![value], next + 1))
                } else if s[next] == ',' {
                    with_first(value, scan_elements(s, next + 1))
                } else {
                    failed(ErrorKind::ExpectedDelimiter, next)
                }
            },
        }
    }
}

/// The array that stands in `s` at `at`, after blanks. Its `skip` counts the
/// blanks, both brackets and all that stands between them; the `skip` of an
/// element starts at the element's first character. Nothing but blanks
/// between the brackets is the empty array.
///
/// Fails with `ExpectedDelimiter` where the text ends before the opening
/// bracket, with `UnexpectedCharacter` where something else stands in its
/// place, and as the scan of the elements fails.
pub open spec fn scan_array(s: Seq<char>, at: int) -> Result<Node, ParseError>
    decreases s.len() - at, 1int,
{
    let open = at + blanks(s, at);
    if open >= s.len() {
        failed(ErrorKind::ExpectedDelimiter, open)
    } else if s[open] != '[' {
        failed(ErrorKind::UnexpectedCharacter, open)
    } else {
        let first = open + 1 + blanks(s, open + 1);
        if first < s.len() && s[first] == ']' {
            Ok(Node::Array { skip: (first + 1 - at) as nat, values: Seq::empty() })
        } else {
            match scan_elements(s, open + 1) {
                Ok((values, end)) => Ok(Node::Array { skip: (end - at) as nat, values }),
                Err(e) => Err(e),
            }
        }
    }
}

/// Scans the array that stands in `chars` at `start`, after blanks.
pub fn array_at(chars: &[char], start: usize) -> (r: Result<ValueToken, ParseError>)
    requires
        start <= chars.len(),
    ensures
        outcome(r) == scan_array(chars@, start as int),
        r matches Ok(token) ==> start + token@.skip() <= chars.len(),
    decreases chars.len() - start, 1int,
{
    let open = skip_blanks(chars, start);
    if open >= chars.len() {
        return fail(ErrorKind::ExpectedDelimiter, open);
    }
    if chars[open] != '[' {
        return fail(ErrorKind::UnexpectedCharacter, open);
    }
    let mut values: Vec<Box<ValueToken>> = Vec::new();
    let first = skip_blanks(chars, open + 1);
    if first < chars.len() && chars[first] == ']' {
        let token = ValueToken::ArrayToken { skip: first + 1 - start, token: Array { values } };
        assert(token@->Array_values =~= Seq::<Node>::empty());
        return Ok(token);
    }
    let mut at: usize = open + 1;
    proof {
        lemma_class_patterns();
        assert(nodes(values@) + Seq::<Node>::empty() =~= Seq::<Node>::empty());
    }
    loop
        invariant
            start <= open < at <= chars.len(),
            scan_array(chars@, start as int) == match scan_elements(chars@, open + 1) {
                Ok((values, end)) => Ok::<Node, ParseError>(
                    Node::Array { skip: (end - start) as nat, values },
                ),
                Err(e) => Err(e),
            },
            scan_elements(chars@, open + 1) == with_front(
                nodes(values@),
                scan_elements(chars@, at as int),
            ),
            delimiter_set(ARRAY_DELIMITERS@) == array_delimiters(),
        decreases chars.len() - at,
    {
        let first = skip_blanks(chars, at);
        if first >= chars.len() {
            return fail(ErrorKind::ExpectedDelimiter, first);
        }
        if chars[first] == ']' || chars[first] == ',' {
            return fail(ErrorKind::TrailingOrUnexpectedComma, first);
        }
        let value = match value_at(chars, first, ARRAY_DELIMITERS) {
            Ok(value) => value,
            Err(e) => {
                return Err(e);
            },
        };
        let next = skip_blanks(chars, first + value.skip());
        if next >= chars.len() {
            return fail(ErrorKind::ExpectedDelimiter, next);
        }
        let ghost before = values@;
        let ghost node = value@;
        if chars[next] == ']' {
            values.push(Box::new(value));
            let token = ValueToken::ArrayToken { skip: next + 1 - start, token: Array { values } };
            assert(token@->Array_values =~= nodes(before) + seq![node]);
            return Ok(token);
        } else if chars[next] == ',' {
            values.push(Box::new(value));
            proof {
                assert(nodes(values@) =~= nodes(before).push(node));
                lemma_with_front_first(nodes(before), node, scan_elements(chars@, next + 1));
            }
            at = next + 1;
        } else {
            return fail(ErrorKind::ExpectedDelimiter, next);
        }
    }
}

/// Scans the array that `array` starts with, after blanks.
pub fn parse_array(array: &str) -> (r: Result<ValueToken, ParseError>)
    ensures
        outcome(r) == scan_array(array@, 0),
{
    let chars = chars_of(array);
    array_at(chars.as_slice(), 0)
}

} // verus!
