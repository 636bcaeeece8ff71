//! What holds of every failure: its offset lies in the text that was
//! scanned, at or after the place where the scan started, the end of the
//! text included.

use crate::array::{scan_array, scan_elements};
use crate::classes::{array_delimiters, blank_delimiters, is_digit_or_dash, object_delimiters};
use crate::error::ParseError;
use crate::json::scan_document;
use crate::laws::skips::{lemma_member_within, lemma_value_within};
use crate::number::{
    is_sign, scan_after_integer, scan_exponent, scan_fraction, scan_number, scan_number_end,
};
use crate::object::{scan_members, scan_object};
use crate::pair::scan_member;
use crate::string::{is_hex4, lemma_string_body_end, scan_string, scan_string_body};
use crate::text::{blanks, digits, lemma_blanks_end, lemma_digits_end};
use crate::value::scan_value;
use vstd::prelude::*;

verus! {

/// Whether `r`, if it is a failure, has its offset from `at` up to `end`.
pub open spec fn fails_within<T>(r: Result<T, ParseError>, at: int, end: int) -> bool {
    r matches Err(e) ==> at <= e.offset <= end
}

/// The rest of a string fails inside the text.
pub proof fn lemma_string_failure(s: Seq<char>, at: int)
    requires
        0 <= at <= s.len() <= usize::MAX,
    ensures
        fails_within(scan_string_body(s, at), at, s.len() as int),
    decreases s.len() - at,
{
    if at < s.len() && s[at] != '"' {
        if s[at] == '\\' {
            if at + 1 < s.len() {
                if s[at + 1] == 'u' {
                    if is_hex4(s, at + 2) {
                        lemma_string_failure(s, at + 6);
                    }
                } else {
                    lemma_string_failure(s, at + 2);
                }
            }
        } else {
            lemma_string_failure(s, at + 1);
        }
    }
}

/// An exponent fails inside the text.
pub proof fn lemma_exponent_failure(s: Seq<char>, at: int, delimiters: Set<char>)
    requires
        0 <= at < s.len() <= usize::MAX,
    ensures
        fails_within(scan_exponent(s, at, delimiters), at, s.len() as int),
{
    let first = if at + 1 < s.len() && is_sign(s[at + 1]) {
        at + 2
    } else {
        at + 1
    };
    if first < s.len() {
        lemma_digits_end(s, first);
    }
}

/// A number fails inside the text.
pub proof fn lemma_number_failure(s: Seq<char>, at: int, delimiters: Set<char>)
    requires
        0 <= at <= s.len() <= usize::MAX,
    ensures
        fails_within(scan_number_end(s, at, delimiters), at, s.len() as int),
{
    let first = if at < s.len() && s[at] == '-' {
        at + 1
    } else {
        at
    };
    if first < s.len() {
        lemma_digits_end(s, first);
        let after = if s[first] == '0' {
            first + 1
        } else {
            first + digits(s, first)
        };
        if after < s.len() {
            lemma_exponent_failure(s, after, delimiters);
            lemma_digits_end(s, after + 1);
            let mark = after + 1 + digits(s, after + 1);
            if mark < s.len() {
                lemma_exponent_failure(s, mark, delimiters);
            }
            assert(fails_within(scan_fraction(s, after + 1, delimiters), at, s.len() as int));
            assert(fails_within(scan_after_integer(s, after, delimiters), at, s.len() as int));
        }
    }
}

/// A value fails inside the text, at or after the place where its scan
/// started.
#[verifier::rlimit(50)]
pub proof fn lemma_value_failure(s: Seq<char>, at: int, delimiters: Set<char>)
    requires
        0 <= at <= s.len() <= usize::MAX,
    ensures
        fails_within(scan_value(s, at, delimiters), at, s.len() as int),
    decreases s.len() - at, 2int,
{
    lemma_blanks_end(s, at);
    let first = at + blanks(s, at);
    if first < s.len() {
        if s[first] == '[' {
            lemma_array_failure(s, at);
            assert(scan_value(s, at, delimiters) == scan_array(s, at));
        } else if s[first] == 'f' || s[first] == 'n' {
        } else if is_digit_or_dash(s[first]) {
            lemma_number_failure(s, first, delimiters);
            assert(scan_value(s, at, delimiters) == scan_number(s, at, delimiters));
        } else if s[first] == '{' {
            lemma_object_failure(s, at);
            assert(scan_value(s, at, delimiters) == scan_object(s, at));
        } else if s[first] == '"' {
            lemma_string_failure(s, first + 1);
            assert(scan_value(s, at, delimiters) == scan_string(s, at));
        }
    }
}

/// An array fails inside the text.
pub proof fn lemma_array_failure(s: Seq<char>, at: int)
    requires
        0 <= at <= s.len() <= usize::MAX,
    ensures
        fails_within(scan_array(s, at), at, s.len() as int),
    decreases s.len() - at, 1int,
{
    lemma_blanks_end(s, at);
    let open = at + blanks(s, at);
    if open < s.len() {
        lemma_blanks_end(s, open + 1);
        lemma_elements_failure(s, open + 1);
    }
}

/// The elements of an array fail inside the text.
pub proof fn lemma_elements_failure(s: Seq<char>, at: int)
    requires
        0 <= at <= s.len() <= usize::MAX,
    ensures
        fails_within(scan_elements(s, at), at, s.len() as int),
    decreases s.len() - at, 3int,
{
    lemma_blanks_end(s, at);
    let first = at + blanks(s, at);
    if first < s.len() && !(s[first] == ']' || s[first] == ',') {
        lemma_value_failure(s, first, array_delimiters());
        lemma_value_within(s, first, array_delimiters());
        if let Ok(value) = scan_value(s, first, array_delimiters()) {
            lemma_blanks_end(s, first + value.skip());
            let next = first + value.skip() + blanks(s, first + value.skip());
            if next < s.len() && s[next] == ',' {
                lemma_elements_failure(s, next + 1);
            }
        }
    }
}

/// An object fails inside the text.
pub proof fn lemma_object_failure(s: Seq<char>, at: int)
    requires
        0 <= at <= s.len() <= usize::MAX,
    ensures
        fails_within(scan_object(s, at), at, s.len() as int),
    decreases s.len() - at, 1int,
{
    lemma_blanks_end(s, at);
    let open = at + blanks(s, at);
    if open < s.len() {
        lemma_blanks_end(s, open + 1);
        lemma_members_failure(s, open + 1);
    }
}

/// The members of an object fail inside the text.
pub proof fn lemma_members_failure(s: Seq<char>, at: int)
    requires
        0 <= at <= s.len() <= usize::MAX,
    ensures
        fails_within(scan_members(s, at), at, s.len() as int),
    decreases s.len() - at, 3int,
{
    lemma_blanks_end(s, at);
    let first = at + blanks(s, at);
    if first < s.len() && !(s[first] == '}' || s[first] == ',') {
        lemma_member_failure(s, first);
        lemma_member_within(s, first);
        if let Ok((member, skip)) = scan_member(s, first) {
            lemma_blanks_end(s, first + skip);
            let next = first + skip + blanks(s, first + skip);
            if next < s.len() && s[next] == ',' {
                lemma_members_failure(s, next + 1);
            }
        }
    }
}

/// A member fails inside the text.
pub proof fn lemma_member_failure(s: Seq<char>, at: int)
    requires
        0 <= at <= s.len() <= usize::MAX,
    ensures
        fails_within(scan_member(s, at), at, s.len() as int),
    decreases s.len() - at, 2int,
{
    lemma_blanks_end(s, at);
    let first = at + blanks(s, at);
    if first < s.len() && s[first] == '"' {
        lemma_string_failure(s, first + 1);
        lemma_string_body_end(s, first + 1);
        if let Ok((key, after_key)) = scan_string_body(s, first + 1) {
            lemma_blanks_end(s, after_key);
            let colon = after_key + blanks(s, after_key);
            if colon < s.len() && s[colon] == ':' {
                lemma_value_failure(s, colon + 1, object_delimiters());
            }
        }
    }
}

/// A document fails at a place of the text, its end included.
pub proof fn lemma_document_failure(s: Seq<char>)
    requires
        s.len() <= usize::MAX,
    ensures
        scan_document(s) matches Err(e) ==> e.offset <= s.len(),
{
    lemma_blanks_end(s, 0);
    let first = blanks(s, 0) as int;
    if first < s.len() {
        lemma_value_failure(s, first, blank_delimiters());
    }
}

} // verus!
