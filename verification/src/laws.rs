//! The scanners against the texts of JSON: every value, written out with or
//! without blanks, is scanned back as itself, and no `skip` leaves the text.

pub mod failures;
pub mod numeral;
pub mod quoted;
pub mod skips;
pub mod value;
pub mod words;

use crate::classes::blank_delimiters;
use crate::error::ParseError;
use crate::json::scan_document;
use crate::laws::numeral::lemma_delimiters_apart;
use crate::laws::value::{lemma_bare_node, lemma_text_start, lemma_value, Entry, Value};
use crate::laws::words::{all_blank, lemma_blanks_of_word, lemma_word_char, lemma_word_parts};
use crate::text::blanks;
use crate::types::{Document, Node};
use vstd::prelude::*;

verus! {

/// Every JSON value, written out with no blank, is scanned back as itself:
/// the scan takes the whole text, and the tokens have the kinds, the order,
/// the keys and the texts of the value.
pub proof fn lemma_minimal_text_scans_back(v: Value)
    requires
        v.valid(),
    ensures
        scan_document(v.minimal_text()) == Ok::<Document, ParseError>(
            Document { skip: v.minimal_text().len(), token: v.minimal_node() },
        ),
{
    let s = v.minimal_text();
    lemma_text_start(v, Seq::empty());
    lemma_delimiters_apart();
    assert(s.subrange(0, s.len() as int) =~= s);
    assert(blanks(s, 0) == 0);
    lemma_value(s, 0, v, Seq::empty(), blank_delimiters());
}

/// Blanks where the grammar allows them change nothing but `skip`: a value
/// written out with the blanks `pad` around it and at each such place inside
/// it is scanned to the end of the value, and its tokens hold what the
/// tokens of the minimal text hold.
pub proof fn lemma_blanks_change_only_skip(v: Value, pad: Seq<char>)
    requires
        v.valid(),
        all_blank(pad),
    ensures
        scan_document(pad + v.text(pad) + pad) == Ok::<Document, ParseError>(
            Document { skip: pad.len() + v.text(pad).len(), token: v.node(pad) },
        ),
        v.node(pad).bare() == v.minimal_node().bare(),
{
    let s = pad + v.text(pad) + pad;
    lemma_text_start(v, pad);
    lemma_delimiters_apart();
    lemma_bare_node(v, pad);
    assert(s.subrange(0, s.len() as int) =~= s);
    lemma_word_parts(s, 0, pad + v.text(pad), pad);
    lemma_word_parts(s, 0, pad, v.text(pad));
    let first = pad.len() as int;
    let after = first + v.text(pad).len();
    lemma_word_char(s, first, v.text(pad), 0);
    lemma_blanks_of_word(s, 0, pad);
    if pad.len() > 0 {
        lemma_word_char(s, after, pad, 0);
    }
    lemma_value(s, first, v, pad, blank_delimiters());
}

/// The members of an object come out in the order in which they stand, one
/// for each, whether or not keys repeat.
pub proof fn lemma_members_keep_order(entries: Seq<Entry>, pad: Seq<char>)
    requires
        Value::Object(entries).valid(),
        all_blank(pad),
    ensures
        scan_document(pad + Value::Object(entries).text(pad) + pad) matches Ok(document)
            && document.token matches Node::Object { members, .. } && members.len()
            == entries.len() && forall|i: int|
            0 <= i < entries.len() ==> (#[trigger] members[i]).key == entries[i].key,
{
    lemma_blanks_change_only_skip(Value::Object(entries), pad);
    let members = Value::Object(entries).node(pad)->Object_members;
    assert forall|i: int| 0 <= i < entries.len() implies (#[trigger] members[i]).key
        == entries[i].key by {
        assert(members[i] == entries[i].member(pad));
    }
}

} // verus!
