//! An indented rendering of a token tree, for reading: each token with its
//! kind, its `skip` and what it holds.

use crate::text::{decimal, push_decimal};
use crate::types::{Array, Member, Node, Object, Pair, ValueToken};
use vstd::prelude::*;
use vstd::string::StringExecFns;

verus! {

/// Two blanks for each level of `indent`.
pub open spec fn indentation(indent: nat) -> Seq<char> {
    Seq::new(2 * indent, |i: int| ' ')
}

/// `true` or `false`.
pub open spec fn truth(b: bool) -> Seq<char> {
    if b {
        "true"@
    } else {
        "false"@
    }
}

/// The rendering of `node` where `margin` starts each line but the first.
/// What an array or an object holds is rendered one item to a line, two
/// blanks further in, with a comma after each item but the last.
pub open spec fn render_within(node: Node, margin: Seq<char>) -> Seq<char>
    decreases node, 0nat,
{
    match node {
        Node::Array { skip, values } => "ArrayToken (skip: "@ + decimal(skip) + ") [\n"@
            + render_values(values, margin, values.len()) + margin + "]"@,
        Node::Object { skip, members } => "ObjectToken (skip: "@ + decimal(skip) + ") {\n"@
            + render_members(members, margin, members.len()) + margin + "}"@,
        Node::String { skip, text } => "StringToken (skip: "@ + decimal(skip) + ") \""@ + text
            + "\""@,
        Node::Number { skip, text } => "NumberToken (skip: "@ + decimal(skip) + ") "@ + text,
        Node::True { skip, token } => "TrueToken (skip: "@ + decimal(skip) + ") "@ + truth(token),
        Node::False { skip, token } => "FalseToken (skip: "@ + decimal(skip) + ") "@ + truth(
            token,
        ),
        Node::Null { skip } => "NullToken (skip: "@ + decimal(skip) + ")"@,
        Node::Pair { skip, member } => "PairToken (skip: "@ + decimal(skip) + ") "@
            + render_member(member, margin),
    }
}

/// A key between quotes, a colon and the rendering of the value.
pub open spec fn render_member(member: Member, margin: Seq<char>) -> Seq<char>
    decreases member, 0nat,
{
    "\""@ + member.key + "\": "@ + render_within(*member.value, margin + "  "@)
}

/// The lines of the first `upto` elements of an array.
pub open spec fn render_values(values: Seq<Node>, margin: Seq<char>, upto: nat) -> Seq<char>
    decreases values, upto,
{
    if upto == 0 || upto > values.len() {
        Seq::empty()
    } else {
        render_values(values, margin, (upto - 1) as nat) + margin + "  "@ + render_within(
            values[upto - 1],
            margin + "  "@,
        ) + (if upto < values.len() {
            ","@
        } else {
            Seq::empty()
        }) + "\n"@
    }
}

/// The lines of the first `upto` members of an object.
pub open spec fn render_members(members: Seq<Member>, margin: Seq<char>, upto: nat) -> Seq<char>
    decreases members, upto,
{
    if upto == 0 || upto > members.len() {
        Seq::empty()
    } else {
        render_members(members, margin, (upto - 1) as nat) + margin + "  "@ + render_member(
            members[upto - 1],
            margin,
        ) + (if upto < members.len() {
            ","@
        } else {
            Seq::empty()
        }) + "\n"@
    }
}

/// The rendering of `node` at the nesting level `indent`.
pub open spec fn render(node: Node, indent: nat) -> Seq<char> {
    render_within(node, indentation(indent))
}

/// Rendering depends on nothing but the tree and the level: tokens with the
/// same model are rendered alike.
pub proof fn lemma_render_of_equal_trees(first: ValueToken, second: ValueToken, indent: nat)
    requires
        first@ == second@,
    ensures
        render(first@, indent) == render(second@, indent),
{
}

/// Appends the rendering of `token`, with `margin` at the start of each line
/// but the first.
fn render_into(out: &mut String, token: &ValueToken, margin: &str)
    ensures
        final(out)@ == old(out)@ + render_within(token@, margin@),
    decreases token, 1nat,
{
    match token {
        ValueToken::ArrayToken { skip, token: array } => {
            out.append("ArrayToken (skip: ");
            push_decimal(out, *skip);
            out.append(") [\n");
            values_into(out, array, margin);
            out.append(margin);
            out.append("]");
            assert(out@ =~= old(out)@ + render_within(token@, margin@));
        },
        ValueToken::ObjectToken { skip, token: object } => {
            out.append("ObjectToken (skip: ");
            push_decimal(out, *skip);
            out.append(") {\n");
            members_into(out, object, margin);
            out.append(margin);
            out.append("}");
            assert(out@ =~= old(out)@ + render_within(token@, margin@));
        },
        ValueToken::StringToken { skip, token: text } => {
            out.append("StringToken (skip: ");
            push_decimal(out, *skip);
            out.append(") \"");
            out.append(text.as_str());
            out.append("\"");
            assert(out@ =~= old(out)@ + render_within(token@, margin@));
        },
        ValueToken::NumberToken { skip, token: number } => {
            out.append("NumberToken (skip: ");
            push_decimal(out, *skip);
            out.append(") ");
            out.append(number.value_as_string.as_str());
            assert(out@ =~= old(out)@ + render_within(token@, margin@));
        },
        ValueToken::TrueToken { skip, token: value } => {
            out.append("TrueToken (skip: ");
            push_decimal(out, *skip);
            out.append(") ");
            out.append(if *value { "true" } else { "false" });
            assert(out@ =~= old(out)@ + render_within(token@, margin@));
        },
        ValueToken::FalseToken { skip, token: value } => {
            out.append("FalseToken (skip: ");
            push_decimal(out, *skip);
            out.append(") ");
            out.append(if *value { "true" } else { "false" });
            assert(out@ =~= old(out)@ + render_within(token@, margin@));
        },
        ValueToken::NullToken { skip } => {
            out.append("NullToken (skip: ");
            push_decimal(out, *skip);
            out.append(")");
            assert(out@ =~= old(out)@ + render_within(token@, margin@));
        },
        ValueToken::PairToken { skip, token: pair } => {
            out.append("PairToken (skip: ");
            push_decimal(out, *skip);
            out.append(") ");
            member_into(out, pair, margin);
            assert(out@ =~= old(out)@ + render_within(token@, margin@));
        },
    }
}

/// Appends the lines of the elements of `array`.
fn values_into(out: &mut String, array: &Array, margin: &str)
    ensures
        final(out)@ == old(out)@ + render_values(array@, margin@, array@.len()),
    decreases array, 0nat,
{
    let ghost values = array@;
    let mut inner = String::from_str(margin);
    inner.append("  ");
    let mut done: usize = 0;
    while done < array.values.len()
        invariant
            done <= array.values.len(),
            values.len() == array.values.len(),
            forall|i: int| 0 <= i < values.len() ==> values[i] == array.values[i]@,
            inner@ == margin@ + "  "@,
            out@ == old(out)@ + render_values(values, margin@, done as nat),
        decreases array.values.len() - done,
    {
        out.append(margin);
        out.append("  ");
        render_into(out, &array.values[done], inner.as_str());
        if done < array.values.len() - 1 {
            out.append(",");
        }
        out.append("\n");
        done += 1;
        assert(out@ =~= old(out)@ + render_values(values, margin@, done as nat));
    }
}

/// Appends the lines of the members of `object`.
fn members_into(out: &mut String, object: &Object, margin: &str)
    ensures
        final(out)@ == old(out)@ + render_members(object@, margin@, object@.len()),
    decreases object, 0nat,
{
    let ghost members = object@;
    let mut done: usize = 0;
    while done < object.members.len()
        invariant
            done <= object.members.len(),
            members.len() == object.members.len(),
            forall|i: int| 0 <= i < members.len() ==> members[i] == object.members[i]@,
            out@ == old(out)@ + render_members(members, margin@, done as nat),
        decreases object.members.len() - done,
    {
        out.append(margin);
        out.append("  ");
        member_into(out, &object.members[done], margin);
        if done < object.members.len() - 1 {
            out.append(",");
        }
        out.append("\n");
        done += 1;
        assert(out@ =~= old(out)@ + render_members(members, margin@, done as nat));
    }
}

/// Appends the rendering of `pair`.
fn member_into(out: &mut String, pair: &Pair, margin: &str)
    ensures
        final(out)@ == old(out)@ + render_member(pair@, margin@),
    decreases pair, 0nat,
{
    out.append("\"");
    out.append(pair.key.as_str());
    out.append("\": ");
    let mut inner = String::from_str(margin);
    inner.append("  ");
    render_into(out, &pair.value, inner.as_str());
    assert(out@ =~= old(out)@ + render_member(pair@, margin@));
}

/// Renders `token` for reading, as it stands at the nesting level `indent`:
/// kind and `skip` of each token, and what an array or an object holds one
/// item to a line, each level two blanks further in.
pub fn pretty_print_token(token: &ValueToken, indent: usize) -> (text: String)
    ensures
        text@ == render(token@, indent as nat),
{
    let mut margin = String::new();
    let mut level: usize = 0;
    while level < indent
        invariant
            level <= indent,
            margin@ == indentation(level as nat),
        decreases indent - level,
    {
        margin.append("  ");
        level += 1;
        proof {
            reveal_strlit("  ");
            assert(margin@ =~= indentation(level as nat));
        }
    }
    let mut text = String::new();
    render_into(&mut text, token, margin.as_str());
    assert(text@ =~= render(token@, indent as nat));
    text
}

} // verus!
