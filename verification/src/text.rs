//! Texts as sequences of characters: reading a `&str` into characters,
//! copying a stretch of characters out, and skipping runs of blanks or digits.

use crate::classes::{digit, is_digit, is_whitespace, whitespace};
use vstd::prelude::*;

verus! {

/// `std::string::String::push`: afterwards the text is what it was, with `ch`
/// appended.
pub assume_specification[ std::string::String::push ](text: &mut std::string::String, ch: char)
    ensures
        final(text)@ == old(text)@.push(ch),
;

/// The characters of `text`, in order.
pub fn chars_of(text: &str) -> (chars: Vec<char>)
    ensures
        chars@ == text@,
{
    let mut chars: Vec<char> = Vec::new();
    for ch in it: text.chars()
        invariant
            chars@ == it.seq().take(it.index() as int),
    {
        chars.push(ch);
    }
    chars
}

/// The characters of `chars` from `from` up to `to`, as a text.
pub fn text_between(chars: &[char], from: usize, to: usize) -> (text: String)
    requires
        from <= to <= chars.len(),
    ensures
        text@ == chars@.subrange(from as int, to as int),
{
    let mut text = String::new();
    let mut at: usize = from;
    while at < to
        invariant
            from <= at <= to <= chars.len(),
            text@ == chars@.subrange(from as int, at as int),
        decreases to - at,
    {
        text.push(chars[at]);
        at += 1;
    }
    text
}

/// Whether `word` stands in `s` at `at`.
pub open spec fn has_word(s: Seq<char>, at: int, word: Seq<char>) -> bool {
    0 <= at && at + word.len() <= s.len() && s.subrange(at, at + word.len()) =~= word
}

/// How many blanks stand in a row in `s` from position `at` on.
pub open spec fn blanks(s: Seq<char>, at: int) -> nat
    decreases s.len() - at,
{
    if 0 <= at < s.len() && is_whitespace(s[at]) {
        1 + blanks(s, at + 1)
    } else {
        0
    }
}

/// How many digits stand in a row in `s` from position `at` on.
pub open spec fn digits(s: Seq<char>, at: int) -> nat
    decreases s.len() - at,
{
    if 0 <= at < s.len() && is_digit(s[at]) {
        1 + digits(s, at + 1)
    } else {
        0
    }
}

/// A run of blanks ends inside the text or at its end.
pub proof fn lemma_blanks_end(s: Seq<char>, at: int)
    requires
        0 <= at <= s.len(),
    ensures
        at + blanks(s, at) <= s.len(),
        at + blanks(s, at) < s.len() ==> !is_whitespace(s[at + blanks(s, at)]),
    decreases s.len() - at,
{
    if at < s.len() && is_whitespace(s[at]) {
        lemma_blanks_end(s, at + 1);
    }
}

/// A run of digits ends inside the text or at its end.
pub proof fn lemma_digits_end(s: Seq<char>, at: int)
    requires
        0 <= at <= s.len(),
    ensures
        at + digits(s, at) <= s.len(),
        at + digits(s, at) < s.len() ==> !is_digit(s[at + digits(s, at)]),
    decreases s.len() - at,
{
    if at < s.len() && is_digit(s[at]) {
        lemma_digits_end(s, at + 1);
    }
}

/// The position of the first character at or after `from` that is no blank.
pub fn skip_blanks(chars: &[char], from: usize) -> (to: usize)
    requires
        from <= chars.len(),
    ensures
        to == from + blanks(chars@, from as int),
        to <= chars.len(),
{
    let mut to: usize = from;
    while to < chars.len() && whitespace(chars[to])
        invariant
            from <= to <= chars.len(),
            from + blanks(chars@, from as int) == to + blanks(chars@, to as int),
        decreases chars.len() - to,
    {
        to += 1;
    }
    to
}

/// The position of the first character at or after `from` that is no digit.
pub fn skip_digits(chars: &[char], from: usize) -> (to: usize)
    requires
        from <= chars.len(),
    ensures
        to == from + digits(chars@, from as int),
        to <= chars.len(),
{
    let mut to: usize = from;
    while to < chars.len() && digit(chars[to])
        invariant
            from <= to <= chars.len(),
            from + digits(chars@, from as int) == to + digits(chars@, to as int),
        decreases chars.len() - to,
    {
        to += 1;
    }
    to
}

/// The character of a decimal digit.
pub open spec fn digit_char(d: nat) -> char {
    (('0' as u8 + d) as u8) as char
}

/// `n` in decimal digits, without leading zeros.
pub open spec fn decimal(n: nat) -> Seq<char>
    decreases n,
{
    if n < 10 {
        seq![digit_char(n)]
    } else {
        decimal(n / 10).push(digit_char(n % 10))
    }
}

/// Appends `n` in decimal digits.
pub fn push_decimal(out: &mut String, n: usize)
    ensures
        final(out)@ == old(out)@ + decimal(n as nat),
    decreases n,
{
    if n >= 10 {
        push_decimal(out, n / 10);
    }
    out.push(('0' as u8 + (n % 10) as u8) as char);
    assert(out@ =~= old(out)@ + decimal(n as nat));
}

} // verus!
