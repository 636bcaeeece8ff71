//! Strings as they are written between quotes, and the string scanner on
//! what they are written as.

use crate::error::ParseError;
use crate::laws::words::{lemma_word_char, lemma_word_parts};
use crate::string::{hex4, hex_value, is_hex_digit, is_scalar, scan_string, scan_string_body};
use crate::text::{blanks, has_word};
use crate::types::Node;
use vstd::prelude::*;

verus! {

/// The character of a hexadecimal digit, in lower case.
pub open spec fn hex_char(d: int) -> char {
    if d < 10 {
        ('0' as int + d) as char
    } else {
        ('a' as int + d - 10) as char
    }
}

/// A character is a Unicode scalar value.
pub proof fn lemma_char_is_scalar(c: char)
    ensures
        is_scalar(c as int),
{
}

/// A hexadecimal digit stands for the number it was written from.
pub proof fn lemma_hex_char(d: int)
    requires
        0 <= d < 16,
    ensures
        is_hex_digit(hex_char(d)),
        hex_value(hex_char(d)) == d,
{
    assert('0' as int == 48 && '9' as int == 57 && 'a' as int == 97 && 'f' as int == 102);
    assert(hex_char(d) as int == if d < 10 {
        48 + d
    } else {
        87 + d
    });
}

/// How one character of a string is written between the quotes: a quote, a
/// backslash and the control characters escaped, any other as it is.
pub open spec fn escape_char(c: char) -> Seq<char> {
    if c == '"' {
        seq!['\\', '"']
    } else if c == '\\' {
        seq!['\\', '\\']
    } else if c == '\u{8}' {
        seq!['\\', 'b']
    } else if c == '\u{c}' {
        seq!['\\', 'f']
    } else if c == '\n' {
        seq!['\\', 'n']
    } else if c == '\r' {
        seq!['\\', 'r']
    } else if c == '\t' {
        seq!['\\', 't']
    } else if (c as int) < 0x20 {
        seq!['\\', 'u', '0', '0', hex_char(c as int / 16), hex_char(c as int % 16)]
    } else {
        seq![c]
    }
}

/// The characters of `t` from `from` on as they are written in a string,
/// and the closing quote.
pub open spec fn quoted_rest(t: Seq<char>, from: int) -> Seq<char>
    decreases t.len() - from,
{
    if from < 0 || from >= t.len() {
        seq!['"']
    } else {
        escape_char(t[from]) + quoted_rest(t, from + 1)
    }
}

/// `t` as a string: between quotes, with its characters escaped.
pub open spec fn quoted(t: Seq<char>) -> Seq<char> {
    seq!['"'] + quoted_rest(t, 0)
}

/// The written rest of a string is scanned back as the characters it was
/// written from.
pub proof fn lemma_string_rest(s: Seq<char>, at: int, t: Seq<char>, from: int)
    requires
        0 <= from <= t.len(),
        has_word(s, at, quoted_rest(t, from)),
    ensures
        scan_string_body(s, at) == Ok::<(Seq<char>, int), ParseError>(
            (t.subrange(from, t.len() as int), at + quoted_rest(t, from).len()),
        ),
    decreases t.len() - from,
{
    if from >= t.len() {
        lemma_word_char(s, at, quoted_rest(t, from), 0);
        assert(t.subrange(from, t.len() as int) =~= Seq::<char>::empty());
    } else {
        let c = t[from];
        let written = escape_char(c);
        lemma_word_parts(s, at, written, quoted_rest(t, from + 1));
        lemma_string_rest(s, at + written.len(), t, from + 1);
        assert(seq![c] + t.subrange(from + 1, t.len() as int) =~= t.subrange(
            from,
            t.len() as int,
        ));
        let code = c as int;
        if c == '"' || c == '\\' || c == '\u{8}' || c == '\u{c}' || c == '\n' || c == '\r' || c
            == '\t' {
            assert(written.len() == 2);
            lemma_word_char(s, at, written, 0);
            lemma_word_char(s, at, written, 1);
        } else if code < 0x20 {
            assert(written.len() == 6);
            lemma_word_char(s, at, written, 0);
            lemma_word_char(s, at, written, 1);
            lemma_word_char(s, at, written, 2);
            lemma_word_char(s, at, written, 3);
            lemma_word_char(s, at, written, 4);
            lemma_word_char(s, at, written, 5);
            lemma_char_is_scalar(c);
            assert(0 <= code / 16 < 2 && 0 <= code % 16 < 16) by (nonlinear_arith)
                requires
                    0 <= code < 32,
            ;
            lemma_hex_char(code / 16);
            lemma_hex_char(code % 16);
            lemma_hex_char(0);
            assert(hex4(s, at + 2) == code);
            assert(hex4(s, at + 2) as char == c);
        } else {
            assert(written.len() == 1);
            lemma_word_char(s, at, written, 0);
        }
    }
}

/// A written string that stands in `s` at `at` is scanned back as the
/// characters it was written from.
pub proof fn lemma_string(s: Seq<char>, at: int, t: Seq<char>)
    requires
        has_word(s, at, quoted(t)),
    ensures
        scan_string(s, at) == Ok::<Node, ParseError>(
            Node::String { skip: quoted(t).len(), text: t },
        ),
{
    lemma_word_parts(s, at, seq!['"'], quoted_rest(t, 0));
    lemma_word_char(s, at, seq!['"'], 0);
    lemma_string_rest(s, at + 1, t, 0);
    assert(t.subrange(0, t.len() as int) =~= t);
    assert(blanks(s, at) == 0);
}

} // verus!
