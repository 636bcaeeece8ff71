//! What holds of every `skip`: it is positive, it stays inside the text, and
//! blanks in front of a value add to it and to nothing else.

use crate::array::{scan_array, scan_elements};
use crate::classes::{array_delimiters, blank_delimiters, is_digit_or_dash, object_delimiters};
use crate::error::ParseError;
use crate::json::scan_document;
use crate::laws::words::lemma_blanks_split;
use crate::number::{is_sign, scan_exponent, scan_number, scan_number_end};
use crate::object::{scan_members, scan_object};
use crate::pair::scan_member;
use crate::string::{lemma_string_body_end, scan_string, scan_string_body};
use crate::text::{blanks, digits, lemma_blanks_end, lemma_digits_end};
use crate::types::Node;
use crate::value::scan_value;
use vstd::prelude::*;

verus! {

/// A number ends after the place where it starts, and inside the text.
pub proof fn lemma_number_within(s: Seq<char>, at: int, delimiters: Set<char>)
    requires
        0 <= at <= s.len(),
    ensures
        scan_number_end(s, at, delimiters) matches Ok(end) ==> at < end <= s.len(),
{
    let first = if at < s.len() && s[at] == '-' {
        at + 1
    } else {
        at
    };
    if first < s.len() {
        lemma_digits_end(s, first);
        let after = if s[first] == '0' {
            first + 1
        } else {
            first + digits(s, first)
        };
        if after < s.len() {
            lemma_digits_end(s, after + 1);
            let mark = after + 1 + digits(s, after + 1);
            lemma_exponent_within(s, after, delimiters);
            if mark < s.len() {
                lemma_exponent_within(s, mark, delimiters);
            }
        }
    }
}

/// An exponent ends after the place where it starts, and inside the text.
pub proof fn lemma_exponent_within(s: Seq<char>, at: int, delimiters: Set<char>)
    requires
        0 <= at < s.len(),
    ensures
        scan_exponent(s, at, delimiters) matches Ok(end) ==> at < end <= s.len(),
{
    let first = if at + 1 < s.len() && is_sign(s[at + 1]) {
        at + 2
    } else {
        at + 1
    };
    if first < s.len() {
        lemma_digits_end(s, first);
    }
}

/// Each scan consumes at least one character and no more than the text
/// holds from where it starts: `skip` is positive and stays inside the text.
#[verifier::rlimit(50)]
pub proof fn lemma_value_within(s: Seq<char>, at: int, delimiters: Set<char>)
    requires
        0 <= at <= s.len(),
    ensures
        scan_value(s, at, delimiters) matches Ok(node) ==> 0 < node.skip() && at + node.skip()
            <= s.len(),
    decreases s.len() - at, 2int,
{
    lemma_blanks_end(s, at);
    let first = at + blanks(s, at);
    if first < s.len() {
        if s[first] == '[' {
            lemma_array_within(s, at);
            assert(scan_value(s, at, delimiters) == scan_array(s, at));
        } else if s[first] == 'f' || s[first] == 'n' {
        } else if is_digit_or_dash(s[first]) {
            lemma_number_within(s, first, delimiters);
            assert(scan_value(s, at, delimiters) == scan_number(s, at, delimiters));
        } else if s[first] == '{' {
            lemma_object_within(s, at);
            assert(scan_value(s, at, delimiters) == scan_object(s, at));
        } else if s[first] == '"' {
            lemma_string_body_end(s, first + 1);
            assert(scan_value(s, at, delimiters) == scan_string(s, at));
        }
    }
}

/// An array ends after the place where it starts, and inside the text.
pub proof fn lemma_array_within(s: Seq<char>, at: int)
    requires
        0 <= at <= s.len(),
    ensures
        scan_array(s, at) matches Ok(node) ==> 0 < node.skip() && at + node.skip() <= s.len(),
    decreases s.len() - at, 1int,
{
    lemma_blanks_end(s, at);
    let open = at + blanks(s, at);
    if open < s.len() {
        lemma_blanks_end(s, open + 1);
        lemma_elements_within(s, open + 1);
    }
}

/// The elements of an array end after the place where they start, and
/// inside the text.
pub proof fn lemma_elements_within(s: Seq<char>, at: int)
    requires
        0 <= at <= s.len(),
    ensures
        scan_elements(s, at) matches Ok((_, end)) ==> at < end <= s.len(),
    decreases s.len() - at, 3int,
{
    lemma_blanks_end(s, at);
    let first = at + blanks(s, at);
    if first < s.len() && !(s[first] == ']' || s[first] == ',') {
        lemma_value_within(s, first, array_delimiters());
        if let Ok(value) = scan_value(s, first, array_delimiters()) {
            lemma_blanks_end(s, first + value.skip());
            let next = first + value.skip() + blanks(s, first + value.skip());
            if next < s.len() && s[next] == ',' {
                lemma_elements_within(s, next + 1);
            }
        }
    }
}

/// An object ends after the place where it starts, and inside the text.
pub proof fn lemma_object_within(s: Seq<char>, at: int)
    requires
        0 <= at <= s.len(),
    ensures
        scan_object(s, at) matches Ok(node) ==> 0 < node.skip() && at + node.skip() <= s.len(),
    decreases s.len() - at, 1int,
{
    lemma_blanks_end(s, at);
    let open = at + blanks(s, at);
    if open < s.len() {
        lemma_blanks_end(s, open + 1);
        lemma_members_within(s, open + 1);
    }
}

/// The members of an object end after the place where they start, and
/// inside the text.
pub proof fn lemma_members_within(s: Seq<char>, at: int)
    requires
        0 <= at <= s.len(),
    ensures
        scan_members(s, at) matches Ok((_, end)) ==> at < end <= s.len(),
    decreases s.len() - at, 3int,
{
    lemma_blanks_end(s, at);
    let first = at + blanks(s, at);
    if first < s.len() && !(s[first] == '}' || s[first] == ',') {
        lemma_member_within(s, first);
        if let Ok((member, skip)) = scan_member(s, first) {
            lemma_blanks_end(s, first + skip);
            let next = first + skip + blanks(s, first + skip);
            if next < s.len() && s[next] == ',' {
                lemma_members_within(s, next + 1);
            }
        }
    }
}

/// A member ends after the place where it starts, and inside the text.
pub proof fn lemma_member_within(s: Seq<char>, at: int)
    requires
        0 <= at <= s.len(),
    ensures
        scan_member(s, at) matches Ok((_, skip)) ==> 0 < skip && at + skip <= s.len(),
    decreases s.len() - at, 2int,
{
    lemma_blanks_end(s, at);
    let first = at + blanks(s, at);
    if first < s.len() && s[first] == '"' {
        lemma_string_body_end(s, first + 1);
        if let Ok((key, after_key)) = scan_string_body(s, first + 1) {
            lemma_blanks_end(s, after_key);
            let colon = after_key + blanks(s, after_key);
            if colon < s.len() && s[colon] == ':' {
                lemma_value_within(s, colon + 1, object_delimiters());
            }
        }
    }
}

/// A document's `skip` is positive and stays inside the text, and so does
/// the `skip` of its root.
pub proof fn lemma_document_within(s: Seq<char>)
    ensures
        scan_document(s) matches Ok(document) ==> 0 < document.token.skip() <= document.skip
            <= s.len(),
{
    lemma_blanks_end(s, 0);
    let first = blanks(s, 0) as int;
    if first < s.len() {
        lemma_value_within(s, first, blank_delimiters());
    }
}

/// What a scan produced, with `lead` more characters consumed in front.
pub open spec fn outcome_after(r: Result<Node, ParseError>, lead: nat) -> Result<Node, ParseError> {
    match r {
        Ok(node) => Ok(node.after(lead)),
        Err(e) => Err(e),
    }
}

/// Blanks before a value add to its `skip` and change nothing else: neither
/// what the value holds, nor whether and where the scan fails.
pub proof fn lemma_blanks_before_value(s: Seq<char>, at: int, lead: nat, delimiters: Set<char>)
    requires
        0 <= at,
        lead <= blanks(s, at),
    ensures
        scan_value(s, at, delimiters) == outcome_after(
            scan_value(s, at + lead, delimiters),
            lead,
        ),
{
    lemma_blanks_split(s, at, lead);
    let first = at + blanks(s, at);
    if first < s.len() {
        lemma_blanks_end(s, at);
        if s[first] == '[' {
            lemma_blanks_end(s, first + 1);
            lemma_elements_within(s, first + 1);
        } else if s[first] == '{' {
            lemma_blanks_end(s, first + 1);
            lemma_members_within(s, first + 1);
        } else if s[first] == '"' {
            lemma_string_body_end(s, first + 1);
        } else {
            lemma_number_within(s, first, delimiters);
        }
    }
}

} // verus!
