//! The pair scanner: a key, a colon and a value.

use crate::classes::{lemma_class_patterns, object_delimiters, OBJECT_DELIMITERS};
use crate::error::{fail, failed, ErrorKind, ParseError};
use crate::string::{lemma_string_body_end, scan_string_body, string_body_at};
use crate::text::{blanks, chars_of, skip_blanks};
use crate::types::{outcome, Member, Node, Pair, ValueToken};
use crate::value::{scan_value, value_at};
use vstd::prelude::*;

verus! {

/// The member that stands in `s` at `at`, after blanks, and the characters
/// consumed from `at` to the end of its value: a string as the key, a colon,
/// and a value that a blank, a comma or a closing brace may end. Blanks may
/// stand on both sides of the colon.
///
/// Fails with `ExpectedStringKey` where no quote opens the key, as the
/// string scanner fails on the key, with `ExpectedDelimiter` where no colon
/// follows the key, and as the scan of the value fails.
pub open spec fn scan_member(s: Seq<char>, at: int) -> Result<(Member, nat), ParseError>
    decreases s.len() - at, 2int,
{
    let first = at + blanks(s, at);
    if first >= s.len() || s[first] != '"' {
        failed(ErrorKind::ExpectedStringKey, first)
    } else {
        match scan_string_body(s, first + 1) {
            Err(e) => Err(e),
            Ok((key, after_key)) => {
                let colon = after_key + blanks(s, after_key);
                if colon >= s.len() || s[colon] != ':' {
                    failed(ErrorKind::ExpectedDelimiter, colon)
                } else {
                    proof {
                        lemma_string_body_end(s, first + 1);
                    }
                    match scan_value(s, colon + 1, object_delimiters()) {
                        Err(e) => Err(e),
                        Ok(value) => Ok(
                            (
                                Member { key, value: Box::new(value) },
                                (colon + 1 + value.skip() - at) as nat,
                            ),
                        ),
                    }
                }
            },
        }
    }
}

/// The pair that stands in `s` at `at`, after blanks. Its `skip` counts the
/// blanks and ends with the value; the `skip` of the value starts after the
/// colon.
pub open spec fn scan_pair(s: Seq<char>, at: int) -> Result<Node, ParseError> {
    match scan_member(s, at) {
        Ok((member, skip)) => Ok(Node::Pair { skip, member }),
        Err(e) => Err(e),
    }
}

/// Scans the pair that stands in `chars` at `start`, after blanks.
pub fn pair_at(chars: &[char], start: usize) -> (r: Result<(Pair, usize), ParseError>)
    requires
        start <= chars.len(),
    ensures
        r matches Ok((pair, end)) ==> scan_member(chars@, start as int) == Ok::<
            (Member, nat),
            ParseError,
        >((pair@, (end - start) as nat)) && start <= end <= chars.len(),
        r matches Err(e) ==> scan_member(chars@, start as int) == Err::<(Member, nat), ParseError>(
            e,
        ),
    decreases chars.len() - start, 2int,
{
    let first = skip_blanks(chars, start);
    if first >= chars.len() || chars[first] != '"' {
        return fail(ErrorKind::ExpectedStringKey, first);
    }
    let (key, after_key) = match string_body_at(chars, first + 1) {
        Ok(scanned) => scanned,
        Err(e) => {
            return Err(e);
        },
    };
    let colon = skip_blanks(chars, after_key);
    if colon >= chars.len() || chars[colon] != ':' {
        return fail(ErrorKind::ExpectedDelimiter, colon);
    }
    proof {
        lemma_class_patterns();
    }
    match value_at(chars, colon + 1, OBJECT_DELIMITERS) {
        Ok(value) => {
            let end = colon + 1 + value.skip();
            Ok((Pair { key, value: Box::new(value) }, end))
        },
        Err(e) => Err(e),
    }
}

/// Scans the pair that `pair` starts with, after blanks.
pub fn parse_pair(pair: &str) -> (r: Result<ValueToken, ParseError>)
    ensures
        outcome(r) == scan_pair(pair@, 0),
{
    let chars = chars_of(pair);
    match pair_at(chars.as_slice(), 0) {
        Ok((token, skip)) => Ok(ValueToken::PairToken { skip, token }),
        Err(e) => Err(e),
    }
}

} // verus!
