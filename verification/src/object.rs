//! The object scanner: pairs between braces, separated by commas.

use crate::error::{fail, failed, ErrorKind, ParseError};
use crate::pair::{pair_at, scan_member};
use crate::text::{blanks, chars_of, skip_blanks};
use crate::types::{
    lemma_with_front_first, members, outcome, with_first, with_front, Member, Node, Object, Pair,
    ValueToken,
};
use vstd::prelude::*;

verus! {

/// The members of an object of which one is due at `at`, after blanks, up to
/// the closing brace, and the position after that brace. Blanks may stand
/// before and after each member; keys may repeat.
///
/// Fails as the scan of a member fails; with `TrailingOrUnexpectedComma`
/// where a comma or the closing brace stands in place of a member; with
/// `ExpectedDelimiter` where neither a comma nor the closing brace follows a
/// member, or the text ends first.
pub open spec fn scan_members(s: Seq<char>, at: int) -> Result<(Seq<Member>, int), ParseError>
    decreases s.len() - at, 3int,
{
    let first = at + blanks(s, at);
    if first >= s.len() {
        failed(ErrorKind::ExpectedDelimiter, first)
    } else if s[first] == '}' || s[first] == ',' {
        failed(ErrorKind::TrailingOrUnexpectedComma, first)
    } else {
        match scan_member(s, first) {
            Err(e) => Err(e),
            Ok((member, skip)) => {
                let next = first + skip + blanks(s, first + skip);
                if next >= s.len() {
                    failed(ErrorKind::ExpectedDelimiter, next)
                } else if s[next] == '}' {
                    Ok((seq![member], next + 1))
                } else if s[next] == ',' {
                    with_first(member, scan_members(s, next + 1))
                } else {
                    failed(ErrorKind::ExpectedDelimiter, next)
                }
            },
        }
    }
}

/// The object that stands in `s` at `at`, after blanks. Its `skip` counts the
/// blanks, both braces and all that stands between them. Nothing but blanks
/// between the braces is the empty object.
///
/// Fails with `ExpectedDelimiter` where the text ends before the opening
/// brace, with `UnexpectedCharacter` where something else stands in its
/// place, and as the scan of the members fails.
pub open spec fn scan_object(s: Seq<char>, at: int) -> Result<Node, ParseError>
    decreases s.len() - at, 1int,
{
    let open = at + blanks(s, at);
    if open >= s.len() {
        failed(ErrorKind::ExpectedDelimiter, open)
    } else if s[open] != '{' {
        failed(ErrorKind::UnexpectedCharacter, open)
    } else {
        let first = open + 1 + blanks(s, open + 1);
        if first < s.len() && s[first] == '}' {
            Ok(Node::Object { skip: (first + 1 - at) as nat, members: Seq::empty() })
        } else {
            match scan_members(s, open + 1) {
                Ok((members, end)) => Ok(Node::Object { skip: (end - at) as nat, members }),
                Err(e) => Err(e),
            }
        }
    }
}

/// Scans the object that stands in `chars` at `start`, after blanks.
pub fn object_at(chars: &[char], start: usize) -> (r: Result<ValueToken, ParseError>)
    requires
        start <= chars.len(),
    ensures
        outcome(r) == scan_object(chars@, start as int),
        r matches Ok(token) ==> start + token@.skip() <= chars.len(),
    decreases chars.len() - start, 1int,
{
    let open = skip_blanks(chars, start);
    if open >= chars.len() {
        return fail(ErrorKind::ExpectedDelimiter, open);
    }
    if chars[open] != '{' {
        return fail(ErrorKind::UnexpectedCharacter, open);
    }
    let mut pairs: Vec<Pair> = Vec::new();
    let first = skip_blanks(chars, open + 1);
    if first < chars.len() && chars[first] == '}' {
        let token = ValueToken::ObjectToken {
            skip: first + 1 - start,
            token: Object { members: pairs },
        };
        assert(token@->Object_members =~= Seq::<Member>::empty());
        return Ok(token);
    }
    let mut at: usize = open + 1;
    proof {
        assert(members(pairs@) + Seq::<Member>::empty() =~= Seq::<Member>::empty());
    }
    loop
        invariant
            start <= open < at <= chars.len(),
            scan_object(chars@, start as int) == match scan_members(chars@, open + 1) {
                Ok((members, end)) => Ok::<Node, ParseError>(
                    Node::Object { skip: (end - start) as nat, members },
                ),
                Err(e) => Err(e),
            },
            scan_members(chars@, open + 1) == with_front(
                members(pairs@),
                scan_members(chars@, at as int),
            ),
        decreases chars.len() - at,
    {
        let first = skip_blanks(chars, at);
        if first >= chars.len() {
            return fail(ErrorKind::ExpectedDelimiter, first);
        }
        if chars[first] == '}' || chars[first] == ',' {
            return fail(ErrorKind::TrailingOrUnexpectedComma, first);
        }
        let (pair, end) = match pair_at(chars, first) {
            Ok(scanned) => scanned,
            Err(e) => {
                return Err(e);
            },
        };
        let next = skip_blanks(chars, end);
        if next >= chars.len() {
            return fail(ErrorKind::ExpectedDelimiter, next);
        }
        let ghost before = pairs@;
        let ghost member = pair@;
        if chars[next] == '}' {
            pairs.push(pair);
            let token = ValueToken::ObjectToken {
                skip: next + 1 - start,
                token: Object { members: pairs },
            };
            assert(token@->Object_members =~= members(before) + seq![member]);
            return Ok(token);
        } else if chars[next] == ',' {
            pairs.push(pair);
            proof {
                assert(members(pairs@) =~= members(before).push(member));
                lemma_with_front_first(members(before), member, scan_members(chars@, next + 1));
            }
            at = next + 1;
        } else {
            return fail(ErrorKind::ExpectedDelimiter, next);
        }
    }
}

/// Scans the object that `object` starts with, after blanks.
pub fn parse_object(object: &str) -> (r: Result<ValueToken, ParseError>)
    ensures
        outcome(r) == scan_object(object@, 0),
{
    let chars = chars_of(object);
    object_at(chars.as_slice(), 0)
}

} // verus!
