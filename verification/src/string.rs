//! The string scanner: a quoted text with its escapes resolved.

use crate::error::{fail, failed, ErrorKind, ParseError};
use crate::text::{blanks, chars_of, skip_blanks};
use crate::types::{lemma_with_front_first, outcome, with_first, with_front, Node, ValueToken};
use vstd::prelude::*;

verus! {

/// `char::from_u32`: the character whose code is `code` where `code` is a
/// Unicode scalar value, and nothing for a surrogate or for a number above
/// the last code point.
pub assume_specification[ char::from_u32 ](code: u32) -> (ch: Option<char>)
    ensures
        ch == if is_scalar(code as int) {
            Some(code as char)
        } else {
            None::<char>
        },
;

/// Whether `c` is a hexadecimal digit, in either case.
pub open spec fn is_hex_digit(c: char) -> bool {
    '0' <= c <= '9' || 'a' <= c <= 'f' || 'A' <= c <= 'F'
}

/// The number that a hexadecimal digit stands for.
pub open spec fn hex_value(c: char) -> int {
    if '0' <= c <= '9' {
        c as int - '0' as int
    } else if 'a' <= c <= 'f' {
        c as int - 'a' as int + 10
    } else {
        c as int - 'A' as int + 10
    }
}

/// Whether four hexadecimal digits stand in `s` from `at` on.
pub open spec fn is_hex4(s: Seq<char>, at: int) -> bool {
    &&& 0 <= at
    &&& at + 4 <= s.len()
    &&& is_hex_digit(s[at])
    &&& is_hex_digit(s[at + 1])
    &&& is_hex_digit(s[at + 2])
    &&& is_hex_digit(s[at + 3])
}

/// The number that the four hexadecimal digits from `at` on stand for.
pub open spec fn hex4(s: Seq<char>, at: int) -> int {
    ((hex_value(s[at]) * 16 + hex_value(s[at + 1])) * 16 + hex_value(s[at + 2])) * 16 + hex_value(
        s[at + 3],
    )
}

/// Whether `code` is a Unicode scalar value.
pub open spec fn is_scalar(code: int) -> bool {
    0 <= code < 0xD800 || 0xE000 <= code <= 0x10FFFF
}

/// The character that a backslash and `c` stand for, where `c` is one of the
/// one-letter escapes.
pub open spec fn escaped(c: char) -> Option<char> {
    if c == '"' || c == '\\' || c == '/' {
        Some(c)
    } else if c == 'b' {
        Some('\u{8}')
    } else if c == 'f' {
        Some('\u{c}')
    } else if c == 'n' {
        Some('\n')
    } else if c == 'r' {
        Some('\r')
    } else if c == 't' {
        Some('\t')
    } else {
        None
    }
}

/// The rest of a string whose opening quote stands before `at`: the decoded
/// text up to the closing quote, and the position after that quote. A
/// backslash and one of `"`, `\`, `/`, `b`, `f`, `n`, `r`, `t` stand for one
/// character, and so do `\u` and four hexadecimal digits, in either case.
///
/// Fails with `UnterminatedString` where the text ends before the closing
/// quote, with `UnexpectedCharacter` on a line feed or a carriage return,
/// with `InvalidEscape` on any other character after a backslash, and with
/// `InvalidUnicodeEscape` where less than four characters follow `\u`, one
/// of the four is no hexadecimal digit, or they give a surrogate.
pub open spec fn scan_string_body(s: Seq<char>, at: int) -> Result<(Seq<char>, int), ParseError>
    decreases s.len() - at,
{
    if at < 0 || at >= s.len() {
        failed(ErrorKind::UnterminatedString, at)
    } else if s[at] == '"' {
        Ok((Seq::empty(), at + 1))
    } else if s[at] == '\\' {
        if at + 1 >= s.len() {
            failed(ErrorKind::UnterminatedString, at + 1)
        } else if s[at + 1] == 'u' {
            if at + 2 >= s.len() {
                failed(ErrorKind::UnterminatedString, at + 2)
            } else if !is_hex4(s, at + 2) || !is_scalar(hex4(s, at + 2)) {
                failed(ErrorKind::InvalidUnicodeEscape, at + 2)
            } else {
                with_first(hex4(s, at + 2) as char, scan_string_body(s, at + 6))
            }
        } else {
            match escaped(s[at + 1]) {
                Some(c) => with_first(c, scan_string_body(s, at + 2)),
                None => failed(ErrorKind::InvalidEscape, at + 1),
            }
        }
    } else if s[at] == '\n' || s[at] == '\r' {
        failed(ErrorKind::UnexpectedCharacter, at)
    } else {
        with_first(s[at], scan_string_body(s, at + 1))
    }
}

/// The string that stands in `s` at `at`, after blanks. Its `skip` counts the
/// blanks, both quotes and all that stands between them.
///
/// Fails with `UnterminatedString` where the text ends before the opening
/// quote, with `UnexpectedCharacter` where something else stands in its
/// place, and as the scan of the rest fails.
pub open spec fn scan_string(s: Seq<char>, at: int) -> Result<Node, ParseError> {
    let open = at + blanks(s, at);
    if open >= s.len() {
        failed(ErrorKind::UnterminatedString, open)
    } else if s[open] != '"' {
        failed(ErrorKind::UnexpectedCharacter, open)
    } else {
        match scan_string_body(s, open + 1) {
            Ok((text, end)) => Ok(Node::String { skip: (end - at) as nat, text }),
            Err(e) => Err(e),
        }
    }
}

/// A string ends after the place where its body starts.
pub proof fn lemma_string_body_end(s: Seq<char>, at: int)
    requires
        0 <= at,
    ensures
        scan_string_body(s, at) matches Ok((_, end)) ==> at < end <= s.len(),
    decreases s.len() - at,
{
    if at < s.len() && s[at] != '"' {
        if s[at] == '\\' {
            if at + 1 < s.len() {
                if s[at + 1] == 'u' {
                    if is_hex4(s, at + 2) {
                        lemma_string_body_end(s, at + 6);
                    }
                } else {
                    lemma_string_body_end(s, at + 2);
                }
            }
        } else {
            lemma_string_body_end(s, at + 1);
        }
    }
}

/// The number that `ch` stands for as a hexadecimal digit, if it is one.
fn hex_digit(ch: char) -> (value: Option<u32>)
    ensures
        value is Some == is_hex_digit(ch),
        value matches Some(v) ==> v == hex_value(ch),
{
    if ch >= '0' && ch <= '9' {
        Some(ch as u32 - '0' as u32)
    } else if ch >= 'a' && ch <= 'f' {
        Some(ch as u32 - 'a' as u32 + 10)
    } else if ch >= 'A' && ch <= 'F' {
        Some(ch as u32 - 'A' as u32 + 10)
    } else {
        None
    }
}

/// The character that the four hexadecimal digits at `at` stand for.
fn unicode_escape(chars: &[char], at: usize) -> (ch: Option<char>)
    requires
        at <= chars.len(),
    ensures
        ch is Some == (is_hex4(chars@, at as int) && is_scalar(hex4(chars@, at as int))),
        ch matches Some(c) ==> c == hex4(chars@, at as int) as char,
{
    if chars.len() - at < 4 {
        return None;
    }
    let code: u32 = match (
        hex_digit(chars[at]),
        hex_digit(chars[at + 1]),
        hex_digit(chars[at + 2]),
        hex_digit(chars[at + 3]),
    ) {
        (Some(a), Some(b), Some(c), Some(d)) => ((a * 16 + b) * 16 + c) * 16 + d,
        _ => {
            return None;
        },
    };
    char::from_u32(code)
}

/// Scans the rest of a string whose opening quote stands before `from`: the
/// decoded text, and the position after the closing quote.
pub fn string_body_at(chars: &[char], from: usize) -> (r: Result<(String, usize), ParseError>)
    requires
        from <= chars.len(),
    ensures
        r matches Ok((text, end)) ==> scan_string_body(chars@, from as int) == Ok::<
            (Seq<char>, int),
            ParseError,
        >((text@, end as int)) && from < end <= chars.len(),
        r matches Err(e) ==> scan_string_body(chars@, from as int) == Err::<
            (Seq<char>, int),
            ParseError,
        >(e),
{
    let mut text = String::new();
    let mut at: usize = from;
    loop
        invariant
            from <= at <= chars.len(),
            scan_string_body(chars@, from as int) == with_front(
                text@,
                scan_string_body(chars@, at as int),
            ),
        decreases chars.len() - at,
    {
        if at >= chars.len() {
            return fail(ErrorKind::UnterminatedString, at);
        }
        let ch = chars[at];
        if ch == '"' {
            assert(text@ + Seq::<char>::empty() =~= text@);
            return Ok((text, at + 1));
        } else if ch == '\\' {
            if at + 1 >= chars.len() {
                return fail(ErrorKind::UnterminatedString, at + 1);
            }
            let mark = chars[at + 1];
            let decoded: char;
            if mark == 'u' {
                if at + 2 >= chars.len() {
                    return fail(ErrorKind::UnterminatedString, at + 2);
                }
                match unicode_escape(chars, at + 2) {
                    Some(c) => {
                        decoded = c;
                    },
                    None => {
                        return fail(ErrorKind::InvalidUnicodeEscape, at + 2);
                    },
                }
                proof {
                    lemma_with_front_first(text@, decoded, scan_string_body(chars@, at + 6));
                }
                at += 6;
            } else {
                if mark == '"' || mark == '\\' || mark == '/' {
                    decoded = mark;
                } else if mark == 'b' {
                    decoded = '\u{8}';
                } else if mark == 'f' {
                    decoded = '\u{c}';
                } else if mark == 'n' {
                    decoded = '\n';
                } else if mark == 'r' {
                    decoded = '\r';
                } else if mark == 't' {
                    decoded = '\t';
                } else {
                    return fail(ErrorKind::InvalidEscape, at + 1);
                }
                proof {
                    lemma_with_front_first(text@, decoded, scan_string_body(chars@, at + 2));
                }
                at += 2;
            }
            text.push(decoded);
        } else if ch == '\n' || ch == '\r' {
            return fail(ErrorKind::UnexpectedCharacter, at);
        } else {
            proof {
                lemma_with_front_first(text@, ch, scan_string_body(chars@, at + 1));
            }
            text.push(ch);
            at += 1;
        }
    }
}

/// Scans the string that stands in `chars` at `start`, after blanks.
pub fn string_at(chars: &[char], start: usize) -> (r: Result<ValueToken, ParseError>)
    requires
        start <= chars.len(),
    ensures
        outcome(r) == scan_string(chars@, start as int),
        r matches Ok(token) ==> start + token@.skip() <= chars.len(),
{
    let open = skip_blanks(chars, start);
    if open >= chars.len() {
        return fail(ErrorKind::UnterminatedString, open);
    }
    if chars[open] != '"' {
        return fail(ErrorKind::UnexpectedCharacter, open);
    }
    match string_body_at(chars, open + 1) {
        Ok((text, end)) => Ok(ValueToken::StringToken { skip: end - start, token: text }),
        Err(e) => Err(e),
    }
}

/// Scans the string that `string` starts with, after blanks: the text between
/// its quotes with the escapes resolved, and the characters consumed.
pub fn parse_string(string: &str) -> (r: Result<ValueToken, ParseError>)
    ensures
        outcome(r) == scan_string(string@, 0),
{
    let chars = chars_of(string);
    string_at(chars.as_slice(), 0)
}

} // verus!
