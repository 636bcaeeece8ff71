//! Numbers by their parts, and the number scanner on what they are
//! written as.

use crate::classes::{array_delimiters, blank_delimiters, is_digit, object_delimiters};
use crate::error::ParseError;
use crate::laws::skips::{lemma_exponent_within, lemma_number_within};
use crate::laws::words::{all_digits, lemma_digits_of_word, lemma_word_char, lemma_word_parts};
use crate::number::{
    is_exponent_mark, is_sign, scan_after_integer, scan_exponent, scan_number, scan_number_end,
};
use crate::text::{blanks, digits, has_word, lemma_blanks_end, lemma_digits_end};
use crate::types::Node;
use vstd::prelude::*;

verus! {

/// The exponent of a number: its mark, its sign if it has one, its digits.
pub ghost struct Exponent {
    pub mark: char,
    pub sign: Option<char>,
    pub digits: Seq<char>,
}

/// A number, by its parts.
pub ghost struct Numeral {
    pub negative: bool,
    pub integer: Seq<char>,
    pub fraction: Option<Seq<char>>,
    pub exponent: Option<Exponent>,
}

impl Exponent {
    /// A mark, a sign if any, and at least one digit.
    pub open spec fn valid(self) -> bool {
        &&& is_exponent_mark(self.mark)
        &&& self.sign matches Some(c) ==> is_sign(c)
        &&& self.digits.len() > 0
        &&& all_digits(self.digits)
    }

    /// This exponent written out.
    pub open spec fn text(self) -> Seq<char> {
        seq![self.mark] + (match self.sign {
            Some(c) => seq![c],
            None => Seq::empty(),
        }) + self.digits
    }
}

impl Numeral {
    /// An integer part without a needless zero in front, a fraction and an
    /// exponent with at least one digit each.
    pub open spec fn valid(self) -> bool {
        &&& self.integer.len() > 0
        &&& all_digits(self.integer)
        &&& self.integer.len() > 1 ==> self.integer[0] != '0'
        &&& self.fraction matches Some(f) ==> f.len() > 0 && all_digits(f)
        &&& self.exponent matches Some(e) ==> e.valid()
    }

    /// What follows the integer part: the fraction after its point, and the
    /// exponent.
    pub open spec fn tail(self) -> Seq<char> {
        (match self.fraction {
            Some(f) => seq!['.'] + f,
            None => Seq::empty(),
        }) + (match self.exponent {
            Some(e) => e.text(),
            None => Seq::empty(),
        })
    }

    /// This number written out.
    pub open spec fn text(self) -> Seq<char> {
        (if self.negative {
            seq!['-']
        } else {
            Seq::empty()
        }) + self.integer + self.tail()
    }
}

/// Whether a number may end before position `at` of `s`: `s` ends there, or
/// a delimiter stands there.
pub open spec fn number_may_end(s: Seq<char>, at: int, delimiters: Set<char>) -> bool {
    at == s.len() || (0 <= at < s.len() && delimiters.contains(s[at]))
}

/// Whether no delimiter could go on with a number.
pub open spec fn apart_from_numbers(delimiters: Set<char>) -> bool {
    forall|c: char| #[trigger]
        delimiters.contains(c) ==> !is_digit(c) && c != '.' && !is_exponent_mark(c)
}

/// An exponent that stands in `s` at `at`, before the end of a number, is
/// scanned to its end.
pub proof fn lemma_exponent(s: Seq<char>, at: int, e: Exponent, delimiters: Set<char>)
    requires
        e.valid(),
        has_word(s, at, e.text()),
        number_may_end(s, at + e.text().len(), delimiters),
        apart_from_numbers(delimiters),
    ensures
        scan_exponent(s, at, delimiters) == Ok::<int, ParseError>(at + e.text().len()),
{
    let sign = match e.sign {
        Some(c) => seq![c],
        None => Seq::empty(),
    };
    lemma_word_parts(s, at, seq![e.mark] + sign, e.digits);
    lemma_word_parts(s, at, seq![e.mark], sign);
    lemma_word_char(s, at, seq![e.mark], 0);
    let first = at + 1 + sign.len();
    lemma_word_char(s, first, e.digits, 0);
    if e.sign is Some {
        lemma_word_char(s, at + 1, sign, 0);
    }
    lemma_digits_of_word(s, first, e.digits);
}

/// What follows the integer part of a number is scanned to the number's end.
pub proof fn lemma_number_tail(s: Seq<char>, at: int, n: Numeral, delimiters: Set<char>)
    requires
        n.valid(),
        has_word(s, at, n.tail()),
        number_may_end(s, at + n.tail().len(), delimiters),
        apart_from_numbers(delimiters),
    ensures
        scan_after_integer(s, at, delimiters) == Ok::<int, ParseError>(at + n.tail().len()),
{
    let fraction = match n.fraction {
        Some(f) => seq!['.'] + f,
        None => Seq::empty(),
    };
    let exponent = match n.exponent {
        Some(e) => e.text(),
        None => Seq::empty(),
    };
    lemma_word_parts(s, at, fraction, exponent);
    let mid = at + fraction.len();
    if let Some(e) = n.exponent {
        lemma_exponent(s, mid, e, delimiters);
        lemma_word_char(s, mid, exponent, 0);
    }
    if let Some(f) = n.fraction {
        lemma_word_parts(s, at, seq!['.'], f);
        lemma_word_char(s, at, seq!['.'], 0);
        lemma_digits_of_word(s, at + 1, f);
    }
}

/// A number that stands in `s` at `at`, before a place where a number may
/// end, is scanned as itself.
pub proof fn lemma_number(s: Seq<char>, at: int, n: Numeral, delimiters: Set<char>)
    requires
        n.valid(),
        has_word(s, at, n.text()),
        number_may_end(s, at + n.text().len(), delimiters),
        apart_from_numbers(delimiters),
    ensures
        scan_number(s, at, delimiters) == Ok::<Node, ParseError>(
            Node::Number { skip: n.text().len(), text: n.text() },
        ),
{
    let sign = if n.negative {
        seq!['-']
    } else {
        Seq::empty()
    };
    lemma_word_parts(s, at, sign + n.integer, n.tail());
    lemma_word_parts(s, at, sign, n.integer);
    let first = at + sign.len();
    lemma_word_char(s, first, n.integer, 0);
    if n.negative {
        lemma_word_char(s, at, sign, 0);
    }
    assert(blanks(s, at) == 0);
    let after = first + n.integer.len();
    lemma_number_tail(s, after, n, delimiters);
    if n.tail().len() > 0 {
        lemma_word_char(s, after, n.tail(), 0);
    }
    if n.integer[0] != '0' {
        lemma_digits_of_word(s, first, n.integer);
    }
    assert(scan_number_end(s, at, delimiters) == Ok::<int, ParseError>(at + n.text().len()));
    assert(s.subrange(at, at + n.text().len()) == n.text());
}

/// The delimiter sets of the grammar hold nothing that could go on with a
/// number.
pub proof fn lemma_delimiters_apart()
    ensures
        apart_from_numbers(array_delimiters()),
        apart_from_numbers(object_delimiters()),
        apart_from_numbers(blank_delimiters()),
{
}

/// Whether `t` is a decimal literal: a minus sign or none, at least one
/// digit, then a point and any digits or neither, then an exponent or none,
/// which is a mark, a sign or none, and at least one digit.
pub open spec fn is_decimal_literal(t: Seq<char>) -> bool {
    let first: int = if t.len() > 0 && t[0] == '-' {
        1
    } else {
        0
    };
    let point = first + digits(t, first);
    let mark = if point < t.len() && t[point] == '.' {
        point + 1 + digits(t, point + 1)
    } else {
        point
    };
    let exponent = if mark + 1 < t.len() && is_sign(t[mark + 1]) {
        mark + 2
    } else {
        mark + 1
    };
    let end = if mark < t.len() && is_exponent_mark(t[mark]) {
        exponent + digits(t, exponent)
    } else {
        mark
    };
    &&& first < point
    &&& mark < t.len() && is_exponent_mark(t[mark]) ==> exponent < end
    &&& end == t.len()
}

/// The digits in a row in a stretch of `s` are those in `s`, as far as the
/// stretch goes.
pub proof fn lemma_digits_in_stretch(s: Seq<char>, from: int, to: int, at: int)
    requires
        0 <= from <= at <= to <= s.len(),
    ensures
        digits(s.subrange(from, to), at - from) == if at + digits(s, at) <= to {
            digits(s, at)
        } else {
            (to - at) as nat
        },
    decreases to - at,
{
    if at < to && is_digit(s[at]) {
        lemma_digits_in_stretch(s, from, to, at + 1);
    }
}

/// Where the first digit of the number stands that starts at `begin` with
/// its sign or first digit.
pub open spec fn sign_end(s: Seq<char>, begin: int) -> int {
    if begin < s.len() && s[begin] == '-' {
        begin + 1
    } else {
        begin
    }
}

/// Where the integer part of the number ends that starts at `begin` with
/// its sign or first digit.
pub open spec fn integer_end(s: Seq<char>, begin: int) -> int {
    let first = sign_end(s, begin);
    if first < s.len() && s[first] == '0' {
        first + 1
    } else {
        first + digits(s, first)
    }
}

/// A number that is scanned to `end` has an integer part of at least one
/// digit, which the stretch up to `end` holds in full, and what follows the
/// integer part is scanned to `end` as well.
pub proof fn lemma_integer_part(s: Seq<char>, begin: int, end: int, delimiters: Set<char>)
    requires
        0 <= begin <= s.len(),
        scan_number_end(s, begin, delimiters) == Ok::<int, ParseError>(end),
    ensures
        sign_end(s, begin) < integer_end(s, begin) <= end <= s.len(),
        digits(s.subrange(begin, end), sign_end(s, begin) - begin) == integer_end(s, begin)
            - sign_end(s, begin),
        integer_end(s, begin) == end || scan_after_integer(s, integer_end(s, begin), delimiters)
            == Ok::<int, ParseError>(end),
{
    lemma_number_within(s, begin, delimiters);
    let first = sign_end(s, begin);
    lemma_digits_end(s, first);
    assert(digits(s, first + 1) == if first + 1 < s.len() && is_digit(s[first + 1]) {
        1 + digits(s, first + 2)
    } else {
        0
    });
    lemma_tail_within(s, integer_end(s, begin), delimiters);
    lemma_digits_in_stretch(s, begin, end, first);
}

/// What follows the integer part of a number ends at or after the place
/// where it starts, and inside the text.
pub proof fn lemma_tail_within(s: Seq<char>, at: int, delimiters: Set<char>)
    requires
        0 <= at <= s.len(),
    ensures
        scan_after_integer(s, at, delimiters) matches Ok(end) ==> at <= end <= s.len(),
{
    if at < s.len() {
        lemma_digits_end(s, at + 1);
        lemma_exponent_within(s, at, delimiters);
        let mark = at + 1 + digits(s, at + 1);
        if mark < s.len() {
            lemma_exponent_within(s, mark, delimiters);
        }
    }
}

/// What follows the integer part of a number and is scanned to `end` is a
/// point and any digits or neither, then an exponent or none, and the
/// stretch up to `end` holds all of it.
pub proof fn lemma_tail_part(s: Seq<char>, begin: int, at: int, end: int, delimiters: Set<char>)
    requires
        0 <= begin <= at < end <= s.len(),
        scan_after_integer(s, at, delimiters) == Ok::<int, ParseError>(end),
    ensures
        ({
            let t = s.subrange(begin, end);
            let point = at - begin;
            let mark = if t[point] == '.' {
                point + 1 + digits(t, point + 1)
            } else {
                point
            };
            let exponent = if mark + 1 < t.len() && is_sign(t[mark + 1]) {
                mark + 2
            } else {
                mark + 1
            };
            if mark < t.len() {
                is_exponent_mark(t[mark]) && digits(t, exponent) > 0 && exponent + digits(
                    t,
                    exponent,
                ) == t.len()
            } else {
                mark == t.len()
            }
        }),
{
    let t = s.subrange(begin, end);
    let mark = if s[at] == '.' {
        at + 1 + digits(s, at + 1)
    } else {
        at
    };
    if s[at] == '.' {
        lemma_digits_end(s, at + 1);
        if mark < s.len() {
            lemma_exponent_within(s, mark, delimiters);
        }
        lemma_digits_in_stretch(s, begin, end, at + 1);
    }
    if mark < end {
        let exponent = if mark + 1 < s.len() && is_sign(s[mark + 1]) {
            mark + 2
        } else {
            mark + 1
        };
        lemma_digits_end(s, exponent);
        lemma_digits_in_stretch(s, begin, end, exponent);
    }
}

/// The text of a number token is a decimal literal, whatever the delimiters.
pub proof fn lemma_number_text_is_decimal(s: Seq<char>, at: int, delimiters: Set<char>)
    requires
        0 <= at <= s.len(),
    ensures
        scan_number(s, at, delimiters) matches Ok(Node::Number { text, .. }) ==> is_decimal_literal(
            text,
        ),
{
    lemma_blanks_end(s, at);
    let begin = at + blanks(s, at);
    if let Ok(end) = scan_number_end(s, begin, delimiters) {
        lemma_integer_part(s, begin, end, delimiters);
        let point = integer_end(s, begin);
        if point < end {
            lemma_tail_part(s, begin, point, end, delimiters);
        }
    }
}

} // verus!
