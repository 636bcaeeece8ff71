//! Words that stand in a text, and runs of blanks and digits among them.

use crate::classes::{is_digit, is_whitespace};
use crate::text::{blanks, digits, has_word};
use vstd::prelude::*;

verus! {

/// Whether `d` holds nothing but digits.
pub open spec fn all_digits(d: Seq<char>) -> bool {
    forall|i: int| 0 <= i < d.len() ==> is_digit(#[trigger] d[i])
}

/// Where `front + back` stands, `front` stands, and `back` after it.
pub proof fn lemma_word_parts(s: Seq<char>, at: int, front: Seq<char>, back: Seq<char>)
    requires
        has_word(s, at, front + back),
    ensures
        has_word(s, at, front),
        has_word(s, at + front.len(), back),
{
    let whole = s.subrange(at, at + (front + back).len());
    assert(s.subrange(at, at + front.len()) =~= front) by {
        assert forall|k: int| 0 <= k < front.len() implies s[at + k] == front[k] by {
            assert(whole[k] == (front + back)[k]);
        }
    }
    assert(s.subrange(at + front.len(), at + front.len() + back.len()) =~= back) by {
        assert forall|k: int| 0 <= k < back.len() implies s[at + front.len() + k] == back[k] by {
            assert(whole[front.len() + k] == (front + back)[front.len() + k]);
        }
    }
}

/// The character at place `k` of a word that stands in `s` at `at`.
pub proof fn lemma_word_char(s: Seq<char>, at: int, word: Seq<char>, k: int)
    requires
        has_word(s, at, word),
        0 <= k < word.len(),
    ensures
        s[at + k] == word[k],
{
    assert(s.subrange(at, at + word.len())[k] == word[k]);
}

/// A run of digits that stands in `s` at `at` and is not followed by a digit
/// is counted whole.
pub proof fn lemma_digits_of_word(s: Seq<char>, at: int, d: Seq<char>)
    requires
        has_word(s, at, d),
        all_digits(d),
        at + d.len() == s.len() || !is_digit(s[at + d.len()]),
    ensures
        digits(s, at) == d.len(),
    decreases d.len(),
{
    if d.len() > 0 {
        lemma_word_char(s, at, d, 0);
        assert(seq![d[0]] + d.drop_first() =~= d);
        lemma_word_parts(s, at, seq![d[0]], d.drop_first());
        assert(all_digits(d.drop_first())) by {
            assert forall|i: int| 0 <= i < d.drop_first().len() implies is_digit(
                #[trigger] d.drop_first()[i],
            ) by {
                assert(d.drop_first()[i] == d[i + 1]);
            }
        }
        lemma_digits_of_word(s, at + 1, d.drop_first());
    }
}

/// Whether `pad` holds nothing but blanks.
pub open spec fn all_blank(pad: Seq<char>) -> bool {
    forall|i: int| 0 <= i < pad.len() ==> is_whitespace(#[trigger] pad[i])
}

/// A run of blanks that stands in `s` at `at` and is not followed by a blank
/// is counted whole.
pub proof fn lemma_blanks_of_word(s: Seq<char>, at: int, pad: Seq<char>)
    requires
        has_word(s, at, pad),
        all_blank(pad),
        at + pad.len() == s.len() || !is_whitespace(s[at + pad.len()]),
    ensures
        blanks(s, at) == pad.len(),
    decreases pad.len(),
{
    if pad.len() > 0 {
        lemma_word_char(s, at, pad, 0);
        assert(seq![pad[0]] + pad.drop_first() =~= pad);
        lemma_word_parts(s, at, seq![pad[0]], pad.drop_first());
        assert(all_blank(pad.drop_first())) by {
            assert forall|i: int| 0 <= i < pad.drop_first().len() implies is_whitespace(
                #[trigger] pad.drop_first()[i],
            ) by {
                assert(pad.drop_first()[i] == pad[i + 1]);
            }
        }
        lemma_blanks_of_word(s, at + 1, pad.drop_first());
    }
}

/// The blanks from `at` on are `lead` blanks and those after them.
pub proof fn lemma_blanks_split(s: Seq<char>, at: int, lead: nat)
    requires
        0 <= at,
        lead <= blanks(s, at),
    ensures
        blanks(s, at) == lead + blanks(s, at + lead),
    decreases lead,
{
    if lead > 0 {
        lemma_blanks_split(s, at + 1, (lead - 1) as nat);
    }
}

} // verus!
