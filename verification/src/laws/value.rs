//! JSON values, what they are written as, and the scanners on that.

use crate::array::{scan_array, scan_elements};
use crate::classes::{array_delimiters, is_digit, object_delimiters};
use crate::error::ParseError;
use crate::laws::numeral::{
    apart_from_numbers, lemma_delimiters_apart, lemma_number, number_may_end, Numeral,
};
use crate::laws::quoted::{lemma_string, lemma_string_rest, quoted, quoted_rest};
use crate::laws::skips::lemma_blanks_before_value;
use crate::laws::words::{all_blank, lemma_blanks_of_word, lemma_word_char, lemma_word_parts};
use crate::object::{scan_members, scan_object};
use crate::pair::scan_member;
use crate::string::scan_string_body;
use crate::text::{blanks, has_word};
use crate::types::{Member, Node};
use crate::value::scan_value;
use vstd::prelude::*;

verus! {

/// A member of an object, by its parts.
pub ghost struct Entry {
    pub key: Seq<char>,
    pub value: Value,
}

/// A JSON value.
pub ghost enum Value {
    Null,
    Bool(bool),
    Number(Numeral),
    String(Seq<char>),
    Array(Seq<Value>),
    Object(Seq<Entry>),
}

impl Value {
    /// Whether each number in this value is written as JSON allows.
    pub open spec fn valid(self) -> bool
        decreases self,
    {
        match self {
            Value::Number(n) => n.valid(),
            Value::Array(values) => forall|i: int|
                0 <= i < values.len() ==> (#[trigger] values[i]).valid(),
            Value::Object(entries) => forall|i: int|
                0 <= i < entries.len() ==> (#[trigger] entries[i]).value.valid(),
            _ => true,
        }
    }

    /// This value written out, with `pad` at each place where the grammar
    /// allows blanks inside it: after an opening and before a closing bracket
    /// or brace, and on both sides of each comma and colon.
    pub open spec fn text(self, pad: Seq<char>) -> Seq<char>
        decreases self, 0nat,
    {
        match self {
            Value::Null => seq!['n', 'u', 'l', 'l'],
            Value::Bool(b) => if b {
                seq!['t', 'r', 'u', 'e']
            } else {
                seq!['f', 'a', 'l', 's', 'e']
            },
            Value::Number(n) => n.text(),
            Value::String(t) => quoted(t),
            Value::Array(values) => seq!['['] + pad + elements_text(values, 0, pad),
            Value::Object(entries) => seq!['{'] + pad + entries_text(entries, 0, pad),
        }
    }

    /// This value written out with no blank.
    pub open spec fn minimal_text(self) -> Seq<char> {
        self.text(Seq::empty())
    }

    /// The token that this value is scanned as where it stands written out
    /// with no blank.
    pub open spec fn minimal_node(self) -> Node {
        self.node(Seq::empty())
    }

    /// The token that this value is scanned as where it stands written out
    /// with `pad`: the `skip` of a token is the length of what was written,
    /// and that of a member's value counts the blanks after the colon too.
    pub open spec fn node(self, pad: Seq<char>) -> Node
        decreases self,
    {
        match self {
            Value::Null => Node::Null { skip: 4 },
            Value::Bool(b) => if b {
                Node::True { skip: 4, token: true }
            } else {
                Node::False { skip: 5, token: false }
            },
            Value::Number(n) => Node::Number { skip: n.text().len(), text: n.text() },
            Value::String(t) => Node::String { skip: quoted(t).len(), text: t },
            Value::Array(values) => Node::Array {
                skip: self.text(pad).len(),
                values: Seq::new(
                    values.len(),
                    |i: int|
                        if 0 <= i < values.len() {
                            values[i].node(pad)
                        } else {
                            Node::Null { skip: 0 }
                        },
                ),
            },
            Value::Object(entries) => Node::Object {
                skip: self.text(pad).len(),
                members: Seq::new(
                    entries.len(),
                    |i: int|
                        if 0 <= i < entries.len() {
                            entries[i].member(pad)
                        } else {
                            Member { key: Seq::empty(), value: Box::new(Node::Null { skip: 0 }) }
                        },
                ),
            },
        }
    }
}

impl Entry {
    /// This member written out: the key as a string, a colon with `pad` on
    /// both sides, and the value.
    pub open spec fn text(self, pad: Seq<char>) -> Seq<char>
        decreases self, 1nat,
    {
        quoted(self.key) + pad + seq![':'] + pad + self.value.text(pad)
    }

    /// The member that this entry is scanned as.
    pub open spec fn member(self, pad: Seq<char>) -> Member
        decreases self,
    {
        Member { key: self.key, value: Box::new(self.value.node(pad).after(pad.len())) }
    }
}

/// What stands between two elements or members: a comma and `pad`; after
/// the last one, nothing.
pub open spec fn separator(more: bool, pad: Seq<char>) -> Seq<char> {
    if more {
        seq![','] + pad
    } else {
        Seq::empty()
    }
}

/// The elements of an array from `from` on, written out, and the closing
/// bracket.
pub open spec fn elements_text(values: Seq<Value>, from: nat, pad: Seq<char>) -> Seq<char>
    decreases values, values.len() - from,
{
    if from >= values.len() {
        seq![']']
    } else {
        values[from as int].text(pad) + pad + separator(from + 1 < values.len(), pad)
            + elements_text(values, from + 1, pad)
    }
}

/// The members of an object from `from` on, written out, and the closing
/// brace.
pub open spec fn entries_text(entries: Seq<Entry>, from: nat, pad: Seq<char>) -> Seq<char>
    decreases entries, entries.len() - from,
{
    if from >= entries.len() {
        seq!['}']
    } else {
        entries[from as int].text(pad) + pad + separator(from + 1 < entries.len(), pad)
            + entries_text(entries, from + 1, pad)
    }
}

/// Whether a value's text can start with `c`.
pub open spec fn starts_value(c: char) -> bool {
    c == '[' || c == '{' || c == '"' || c == 't' || c == 'f' || c == 'n' || c == '-' || is_digit(c)
}

/// A value's text is as long as the `skip` of its token, and starts with a
/// character that only a value starts with.
pub proof fn lemma_text_start(v: Value, pad: Seq<char>)
    requires
        v.valid(),
    ensures
        v.text(pad).len() == v.node(pad).skip(),
        v.text(pad).len() > 0,
        starts_value(v.text(pad)[0]),
{
}

/// The tokens of the elements of an array from `from` on.
pub open spec fn nodes_from(values: Seq<Value>, from: nat, pad: Seq<char>) -> Seq<Node> {
    Seq::new((values.len() - from) as nat, |i: int| values[from + i].node(pad))
}

/// The members that the entries of an object from `from` on are scanned as.
pub open spec fn members_from(entries: Seq<Entry>, from: nat, pad: Seq<char>) -> Seq<Member> {
    Seq::new((entries.len() - from) as nat, |i: int| entries[from + i].member(pad))
}

/// What the elements of an array from `from` on are written as is not empty
/// and starts with the first of them, or with the closing bracket.
pub proof fn lemma_elements_text_start(values: Seq<Value>, from: nat, pad: Seq<char>)
    requires
        forall|i: int| 0 <= i < values.len() ==> (#[trigger] values[i]).valid(),
    ensures
        elements_text(values, from, pad).len() > 0,
        from >= values.len() ==> elements_text(values, from, pad)[0] == ']',
        from < values.len() ==> starts_value(elements_text(values, from, pad)[0]),
{
    if from < values.len() {
        lemma_text_start(values[from as int], pad);
    }
}

/// What the members of an object from `from` on are written as is not empty
/// and starts with the quote of the first key, or with the closing brace.
pub proof fn lemma_entries_text_start(entries: Seq<Entry>, from: nat, pad: Seq<char>)
    ensures
        entries_text(entries, from, pad).len() > 0,
        from >= entries.len() ==> entries_text(entries, from, pad)[0] == '}',
        from < entries.len() ==> entries_text(entries, from, pad)[0] == '"',
{
    if from < entries.len() {
        let entry = entries[from as int];
        assert(quoted(entry.key)[0] == '"');
        assert(entry.text(pad)[0] == '"');
    }
}

/// A value that stands written out in `s` at `at` is scanned as itself,
/// whatever stands before it, and whatever follows if only a number is
/// followed by a delimiter or by the end of `s`.
#[verifier::rlimit(50)]
pub proof fn lemma_value(s: Seq<char>, at: int, v: Value, pad: Seq<char>, delimiters: Set<char>)
    requires
        v.valid(),
        all_blank(pad),
        has_word(s, at, v.text(pad)),
        number_may_end(s, at + v.text(pad).len(), delimiters),
        apart_from_numbers(delimiters),
    ensures
        scan_value(s, at, delimiters) == Ok::<Node, ParseError>(v.node(pad)),
    decreases v, 0nat,
{
    lemma_text_start(v, pad);
    lemma_word_char(s, at, v.text(pad), 0);
    assert(blanks(s, at) == 0);
    match v {
        Value::Null => {},
        Value::Bool(b) => {},
        Value::Number(n) => {
            lemma_number(s, at, n, delimiters);
        },
        Value::String(t) => {
            lemma_string(s, at, t);
        },
        Value::Array(values) => {
            lemma_array(s, at, values, pad);
        },
        Value::Object(entries) => {
            lemma_object(s, at, entries, pad);
        },
    }
}

/// An array that stands written out in `s` at `at` is scanned as itself.
pub proof fn lemma_array(s: Seq<char>, at: int, values: Seq<Value>, pad: Seq<char>)
    requires
        Value::Array(values).valid(),
        all_blank(pad),
        has_word(s, at, Value::Array(values).text(pad)),
    ensures
        scan_array(s, at) == Ok::<Node, ParseError>(Value::Array(values).node(pad)),
    decreases values, values.len() + 1,
{
    let v = Value::Array(values);
    let rest = elements_text(values, 0, pad);
    lemma_word_parts(s, at, seq!['['] + pad, rest);
    lemma_word_parts(s, at, seq!['['], pad);
    lemma_word_char(s, at, seq!['['], 0);
    assert(blanks(s, at) == 0);
    lemma_elements_text_start(values, 0, pad);
    let first = at + 1 + pad.len();
    lemma_word_char(s, first, rest, 0);
    lemma_blanks_of_word(s, at + 1, pad);
    if values.len() == 0 {
        assert(v.node(pad)->Array_values =~= Seq::<Node>::empty());
    } else {
        lemma_elements(s, at + 1, values, 0, pad);
        assert(v.node(pad)->Array_values =~= nodes_from(values, 0, pad));
    }
}

/// An object that stands written out in `s` at `at` is scanned as itself.
pub proof fn lemma_object(s: Seq<char>, at: int, entries: Seq<Entry>, pad: Seq<char>)
    requires
        Value::Object(entries).valid(),
        all_blank(pad),
        has_word(s, at, Value::Object(entries).text(pad)),
    ensures
        scan_object(s, at) == Ok::<Node, ParseError>(Value::Object(entries).node(pad)),
    decreases entries, entries.len() + 1,
{
    let v = Value::Object(entries);
    let rest = entries_text(entries, 0, pad);
    lemma_word_parts(s, at, seq!['{'] + pad, rest);
    lemma_word_parts(s, at, seq!['{'], pad);
    lemma_word_char(s, at, seq!['{'], 0);
    assert(blanks(s, at) == 0);
    lemma_entries_text_start(entries, 0, pad);
    let first = at + 1 + pad.len();
    lemma_word_char(s, first, rest, 0);
    lemma_blanks_of_word(s, at + 1, pad);
    if entries.len() == 0 {
        assert(v.node(pad)->Object_members =~= Seq::<Member>::empty());
    } else {
        lemma_entries(s, at + 1, entries, 0, pad);
        assert(v.node(pad)->Object_members =~= members_from(entries, 0, pad));
    }
}

/// An element that stands written out in `s` at `first`, before blanks and
/// a comma or the closing bracket at `next`, is scanned as itself, and the
/// scan of the array goes on at `next`.
pub proof fn lemma_element(s: Seq<char>, first: int, v: Value, pad: Seq<char>, next: int)
    requires
        v.valid(),
        all_blank(pad),
        has_word(s, first, v.text(pad)),
        has_word(s, first + v.text(pad).len(), pad),
        next == first + v.text(pad).len() + pad.len(),
        next < s.len(),
        s[next] == ',' || s[next] == ']',
    ensures
        blanks(s, first) == 0,
        s[first] != ',' && s[first] != ']',
        scan_value(s, first, array_delimiters()) == Ok::<Node, ParseError>(v.node(pad)),
        first + v.node(pad).skip() + blanks(s, first + v.node(pad).skip()) == next,
    decreases v, 1nat,
{
    let word = v.text(pad);
    lemma_text_start(v, pad);
    lemma_delimiters_apart();
    lemma_word_char(s, first, word, 0);
    let after = first + word.len();
    lemma_blanks_of_word(s, after, pad);
    if pad.len() > 0 {
        lemma_word_char(s, after, pad, 0);
    }
    lemma_value(s, first, v, pad, array_delimiters());
}

/// The elements of an array that stand written out in `s` after the blanks
/// at `at`, up to the closing bracket, are scanned as themselves.
#[verifier::rlimit(50)]
pub proof fn lemma_elements(s: Seq<char>, at: int, values: Seq<Value>, from: nat, pad: Seq<char>)
    requires
        from < values.len(),
        forall|i: int| 0 <= i < values.len() ==> (#[trigger] values[i]).valid(),
        all_blank(pad),
        has_word(s, at, pad),
        has_word(s, at + pad.len(), elements_text(values, from, pad)),
    ensures
        scan_elements(s, at) == Ok::<(Seq<Node>, int), ParseError>(
            (
                nodes_from(values, from, pad),
                at + pad.len() + elements_text(values, from, pad).len(),
            ),
        ),
    decreases values, values.len() - from,
{
    let v = values[from as int];
    let word = v.text(pad);
    let more = from + 1 < values.len();
    let rest = elements_text(values, from + 1, pad);
    let first = at + pad.len();
    let next = first + word.len() + pad.len();
    lemma_word_parts(s, first, word + pad + separator(more, pad), rest);
    lemma_word_parts(s, first, word + pad, separator(more, pad));
    lemma_word_parts(s, first, word, pad);
    lemma_elements_text_start(values, from, pad);
    lemma_elements_text_start(values, from + 1, pad);
    lemma_word_char(s, first, elements_text(values, from, pad), 0);
    lemma_blanks_of_word(s, at, pad);
    if more {
        lemma_word_parts(s, next, seq![','], pad);
        lemma_word_char(s, next, seq![','], 0);
        lemma_element(s, first, v, pad, next);
        lemma_elements(s, next + 1, values, from + 1, pad);
        assert(seq![v.node(pad)] + nodes_from(values, from + 1, pad) =~= nodes_from(
            values,
            from,
            pad,
        ));
    } else {
        lemma_word_char(s, next, rest, 0);
        lemma_element(s, first, v, pad, next);
        assert(seq![v.node(pad)] =~= nodes_from(values, from, pad));
    }
}

/// A key that stands written out in `s` at `first`, before blanks and a
/// colon, is scanned as itself, and the colon is found.
pub proof fn lemma_key(s: Seq<char>, first: int, key: Seq<char>, pad: Seq<char>)
    requires
        all_blank(pad),
        has_word(s, first, quoted(key) + pad + seq![':']),
    ensures
        blanks(s, first) == 0,
        s[first] == '"',
        scan_string_body(s, first + 1) == Ok::<(Seq<char>, int), ParseError>(
            (key, first + quoted(key).len()),
        ),
        blanks(s, first + quoted(key).len()) == pad.len(),
        s[first + quoted(key).len() + pad.len()] == ':',
{
    lemma_word_parts(s, first, quoted(key) + pad, seq![':']);
    lemma_word_parts(s, first, quoted(key), pad);
    lemma_word_parts(s, first, seq!['"'], quoted_rest(key, 0));
    lemma_word_char(s, first, seq!['"'], 0);
    lemma_string_rest(s, first + 1, key, 0);
    assert(key.subrange(0, key.len() as int) =~= key);
    let after_key = first + quoted(key).len();
    lemma_word_char(s, after_key + pad.len(), seq![':'], 0);
    lemma_blanks_of_word(s, after_key, pad);
}

/// A member's value that stands written out in `s` after the blanks at
/// `at`, before blanks and a comma or the closing brace at `next`, is
/// scanned as itself, and the scan of the object goes on at `next`.
pub proof fn lemma_member_value(s: Seq<char>, at: int, v: Value, pad: Seq<char>, next: int)
    requires
        v.valid(),
        all_blank(pad),
        has_word(s, at, pad),
        has_word(s, at + pad.len(), v.text(pad)),
        has_word(s, at + pad.len() + v.text(pad).len(), pad),
        next == at + pad.len() + v.text(pad).len() + pad.len(),
        next < s.len(),
        s[next] == ',' || s[next] == '}',
    ensures
        scan_value(s, at, object_delimiters()) == Ok::<Node, ParseError>(
            v.node(pad).after(pad.len()),
        ),
        v.node(pad).after(pad.len()).skip() == pad.len() + v.text(pad).len(),
        blanks(s, next - pad.len()) == pad.len(),
    decreases v, 1nat,
{
    let word = v.text(pad);
    lemma_text_start(v, pad);
    lemma_delimiters_apart();
    let start = at + pad.len();
    lemma_word_char(s, start, word, 0);
    lemma_blanks_of_word(s, at, pad);
    let after = start + word.len();
    lemma_blanks_of_word(s, after, pad);
    if pad.len() > 0 {
        lemma_word_char(s, after, pad, 0);
    }
    lemma_value(s, start, v, pad, object_delimiters());
    lemma_blanks_before_value(s, at, pad.len(), object_delimiters());
}

/// A member that stands written out in `s` at `first`, before blanks and a
/// comma or the closing brace at `next`, is scanned as itself, and the scan
/// of the object goes on at `next`.
#[verifier::rlimit(50)]
pub proof fn lemma_member(s: Seq<char>, first: int, entry: Entry, pad: Seq<char>, next: int)
    requires
        entry.value.valid(),
        all_blank(pad),
        has_word(s, first, entry.text(pad)),
        has_word(s, first + entry.text(pad).len(), pad),
        next == first + entry.text(pad).len() + pad.len(),
        next < s.len(),
        s[next] == ',' || s[next] == '}',
    ensures
        blanks(s, first) == 0,
        s[first] != ',' && s[first] != '}',
        scan_member(s, first) == Ok::<(Member, nat), ParseError>(
            (entry.member(pad), entry.text(pad).len()),
        ),
        blanks(s, first + entry.text(pad).len()) == pad.len(),
    decreases entry, 2nat,
{
    let v = entry.value;
    let key = quoted(entry.key) + pad + seq![':'];
    lemma_word_parts(s, first, key + pad, v.text(pad));
    lemma_word_parts(s, first, key, pad);
    lemma_key(s, first, entry.key, pad);
    let colon = first + quoted(entry.key).len() + pad.len();
    lemma_member_value(s, colon + 1, v, pad, next);
}

/// The members of an object that stand written out in `s` after the blanks
/// at `at`, up to the closing brace, are scanned as themselves.
#[verifier::rlimit(50)]
pub proof fn lemma_entries(s: Seq<char>, at: int, entries: Seq<Entry>, from: nat, pad: Seq<char>)
    requires
        from < entries.len(),
        forall|i: int| 0 <= i < entries.len() ==> (#[trigger] entries[i]).value.valid(),
        all_blank(pad),
        has_word(s, at, pad),
        has_word(s, at + pad.len(), entries_text(entries, from, pad)),
    ensures
        scan_members(s, at) == Ok::<(Seq<Member>, int), ParseError>(
            (
                members_from(entries, from, pad),
                at + pad.len() + entries_text(entries, from, pad).len(),
            ),
        ),
    decreases entries, entries.len() - from,
{
    let entry = entries[from as int];
    let word = entry.text(pad);
    let more = from + 1 < entries.len();
    let rest = entries_text(entries, from + 1, pad);
    let first = at + pad.len();
    let next = first + word.len() + pad.len();
    lemma_word_parts(s, first, word + pad + separator(more, pad), rest);
    lemma_word_parts(s, first, word + pad, separator(more, pad));
    lemma_word_parts(s, first, word, pad);
    lemma_entries_text_start(entries, from, pad);
    lemma_entries_text_start(entries, from + 1, pad);
    lemma_blanks_of_word(s, at, pad);
    if more {
        lemma_word_parts(s, next, seq![','], pad);
        lemma_word_char(s, next, seq![','], 0);
        lemma_member(s, first, entry, pad, next);
        lemma_entries(s, next + 1, entries, from + 1, pad);
        assert(seq![entry.member(pad)] + members_from(entries, from + 1, pad) =~= members_from(
            entries,
            from,
            pad,
        ));
    } else {
        lemma_word_char(s, next, rest, 0);
        lemma_member(s, first, entry, pad, next);
        assert(seq![entry.member(pad)] =~= members_from(entries, from, pad));
    }
}

/// Characters consumed in front of a token do not show in what it holds.
pub proof fn lemma_bare_after(node: Node, lead: nat)
    ensures
        node.after(lead).bare() == node.bare(),
{
}

/// Blanks between the parts of a value do not show in what its tokens hold.
pub proof fn lemma_bare_node(v: Value, pad: Seq<char>)
    ensures
        v.node(pad).bare() == v.minimal_node().bare(),
    decreases v,
{
    let none = Seq::<char>::empty();
    match v {
        Value::Array(values) => {
            assert forall|i: int| 0 <= i < values.len() implies (#[trigger] values[i]).node(
                pad,
            ).bare() == values[i].node(none).bare() by {
                lemma_bare_node(values[i], pad);
            }
            assert(v.node(pad).bare()->Array_values =~= v.node(none).bare()->Array_values);
        },
        Value::Object(entries) => {
            assert forall|i: int| 0 <= i < entries.len() implies (*(#[trigger] entries[i]).member(
                pad,
            ).value).bare() == (*entries[i].member(none).value).bare() by {
                lemma_bare_node(entries[i].value, pad);
                lemma_bare_after(entries[i].value.node(pad), pad.len());
                lemma_bare_after(entries[i].value.node(none), none.len());
            }
            assert(v.node(pad).bare()->Object_members =~= v.node(none).bare()->Object_members);
        },
        _ => {},
    }
}

} // verus!
