//! The character classes of the grammar, written as bracketed class patterns
//! and decided by the `regex` crate.

use regex::Regex;
use vstd::prelude::*;

verus! {

/// Blank characters that may surround tokens.
pub const WHITESPACE: &'static str = "[ \\n\\r\\t]";

/// Decimal digits.
pub const DIGIT: &'static str = "[0-9]";

/// Digits that may start an integer part of more than one digit.
pub const NON_ZERO_DIGIT: &'static str = "[1-9]";

/// Characters that start a number.
pub const DIGIT_OR_DASH: &'static str = "[-0-9]";

/// Characters that end a number inside an array.
pub const ARRAY_DELIMITERS: &'static str = "[ \\n\\r\\t\\],]";

/// Characters that end a number inside an object.
pub const OBJECT_DELIMITERS: &'static str = "[ \\n\\r\\t\\},]";

/// Whether `c` is a blank: a space, a line feed, a carriage return or a tab.
pub open spec fn is_whitespace(c: char) -> bool {
    c == ' ' || c == '\n' || c == '\r' || c == '\t'
}

/// Whether `c` is one of the ten decimal digits.
pub open spec fn is_digit(c: char) -> bool {
    '0' <= c <= '9'
}

/// Whether `c` is a decimal digit other than zero.
pub open spec fn is_non_zero_digit(c: char) -> bool {
    '1' <= c <= '9'
}

/// Whether `c` can start a number.
pub open spec fn is_digit_or_dash(c: char) -> bool {
    c == '-' || is_digit(c)
}

/// The characters that end a number inside an array.
pub open spec fn array_delimiters() -> Set<char> {
    Set::new(|c: char| is_whitespace(c) || c == ']' || c == ',')
}

/// The characters that end a number inside an object.
pub open spec fn object_delimiters() -> Set<char> {
    Set::new(|c: char| is_whitespace(c) || c == '}' || c == ',')
}

/// The characters that end a number standing alone.
pub open spec fn blank_delimiters() -> Set<char> {
    Set::new(|c: char| is_whitespace(c))
}

/// The characters that a class pattern of this grammar stands for; `None` for
/// any other text.
pub open spec fn class_chars(pattern: Seq<char>) -> Option<Set<char>> {
    if pattern == WHITESPACE@ {
        Some(blank_delimiters())
    } else if pattern == DIGIT@ {
        Some(Set::new(|c: char| is_digit(c)))
    } else if pattern == NON_ZERO_DIGIT@ {
        Some(Set::new(|c: char| is_non_zero_digit(c)))
    } else if pattern == DIGIT_OR_DASH@ {
        Some(Set::new(|c: char| is_digit_or_dash(c)))
    } else if pattern == ARRAY_DELIMITERS@ {
        Some(array_delimiters())
    } else if pattern == OBJECT_DELIMITERS@ {
        Some(object_delimiters())
    } else {
        None
    }
}

/// Whether the regular expression `pattern` matches the text that holds `ch`
/// alone, as the `regex` crate decides it; a pattern that the crate refuses
/// matches nothing.
pub uninterp spec fn pattern_matches(pattern: Seq<char>, ch: char) -> bool;

/// The delimiter set that `pattern` names: none for the empty text, the
/// class for a class pattern of this grammar, and for any other pattern the
/// characters that it matches.
pub open spec fn delimiter_set(pattern: Seq<char>) -> Set<char> {
    if pattern.len() == 0 {
        Set::empty()
    } else {
        match class_chars(pattern) {
            Some(class) => class,
            None => Set::new(|ch: char| pattern_matches(pattern, ch)),
        }
    }
}

/// What each class pattern of the grammar stands for.
pub proof fn lemma_class_patterns()
    ensures
        class_chars(WHITESPACE@) == Some(blank_delimiters()),
        class_chars(DIGIT@) == Some(Set::new(|c: char| is_digit(c))),
        class_chars(NON_ZERO_DIGIT@) == Some(Set::new(|c: char| is_non_zero_digit(c))),
        class_chars(DIGIT_OR_DASH@) == Some(Set::new(|c: char| is_digit_or_dash(c))),
        class_chars(ARRAY_DELIMITERS@) == Some(array_delimiters()),
        class_chars(OBJECT_DELIMITERS@) == Some(object_delimiters()),
        delimiter_set(WHITESPACE@) == blank_delimiters(),
        delimiter_set(ARRAY_DELIMITERS@) == array_delimiters(),
        delimiter_set(OBJECT_DELIMITERS@) == object_delimiters(),
{
    reveal_strlit("[ \\n\\r\\t]");
    reveal_strlit("[0-9]");
    reveal_strlit("[1-9]");
    reveal_strlit("[-0-9]");
    reveal_strlit("[ \\n\\r\\t\\],]");
    reveal_strlit("[ \\n\\r\\t\\},]");
    assert(WHITESPACE@.len() == 9);
    assert(DIGIT@.len() == 5 && DIGIT@[1] == '0');
    assert(NON_ZERO_DIGIT@.len() == 5 && NON_ZERO_DIGIT@[1] == '1');
    assert(DIGIT_OR_DASH@.len() == 6);
    assert(ARRAY_DELIMITERS@.len() == 12 && ARRAY_DELIMITERS@[9] == ']');
    assert(OBJECT_DELIMITERS@.len() == 12 && OBJECT_DELIMITERS@[9] == '}');
}

/// Compiles `pattern` with `regex::Regex::new` and asks `Regex::is_match`
/// whether the text that holds `ch` alone matches; a pattern that does not
/// compile matches nothing. For a class pattern of this grammar the answer
/// is whether `ch` belongs to the class.
#[verifier::external_body]
fn matches_pattern(pattern: &str, ch: char) -> (found: bool)
    ensures
        found == pattern_matches(pattern@, ch),
        class_chars(pattern@) matches Some(class) ==> found == class.contains(ch),
{
    match Regex::new(pattern) {
        Ok(class) => class.is_match(ch.encode_utf8(&mut [0u8; 4])),
        Err(_) => false,
    }
}

/// Whether `ch` is a blank.
pub fn whitespace(ch: char) -> (b: bool)
    ensures
        b == is_whitespace(ch),
{
    proof {
        lemma_class_patterns();
    }
    matches_pattern(WHITESPACE, ch)
}

/// Whether `ch` is a decimal digit.
pub fn digit(ch: char) -> (b: bool)
    ensures
        b == is_digit(ch),
{
    proof {
        lemma_class_patterns();
    }
    matches_pattern(DIGIT, ch)
}

/// Whether `ch` is a digit other than zero.
pub fn non_zero_digit(ch: char) -> (b: bool)
    ensures
        b == is_non_zero_digit(ch),
{
    proof {
        lemma_class_patterns();
    }
    matches_pattern(NON_ZERO_DIGIT, ch)
}

/// Whether `ch` can start a number.
pub fn digit_or_dash(ch: char) -> (b: bool)
    ensures
        b == is_digit_or_dash(ch),
{
    proof {
        lemma_class_patterns();
    }
    matches_pattern(DIGIT_OR_DASH, ch)
}

/// Whether `ch` belongs to the delimiter set that `delimiters` names.
pub fn delimiter(delimiters: &str, ch: char) -> (b: bool)
    ensures
        b == delimiter_set(delimiters@).contains(ch),
{
    !delimiters.is_empty() && matches_pattern(delimiters, ch)
}

} // verus!
