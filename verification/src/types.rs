//! The token tree that scanning produces, and its mathematical model.

use crate::error::ParseError;
use vstd::prelude::*;

verus! {

/// A scanned document: its root and the characters consumed from the start
/// of the text, leading blanks included.
#[derive(Debug)]
pub struct Json {
    pub skip: usize,
    pub token: Box<ValueToken>,
}

/// A scanned construct. `skip` counts the characters that its scan consumed,
/// from the first character the scanner looked at.
#[allow(inconsistent_fields)]
#[derive(Debug)]
pub enum ValueToken {
    ArrayToken { skip: usize, token: Array },
    FalseToken { skip: usize, token: bool },
    NullToken { skip: usize },
    NumberToken { skip: usize, token: Number },
    ObjectToken { skip: usize, token: Object },
    PairToken { skip: usize, token: Pair },
    StringToken { skip: usize, token: String },
    TrueToken { skip: usize, token: bool },
}

/// The elements of an array, in order.
#[derive(Debug)]
pub struct Array {
    pub values: Vec<Box<ValueToken>>,
}

/// A number, as the text that was scanned.
#[derive(Debug)]
pub struct Number {
    pub value_as_string: String,
}

/// The members of an object, in order; keys may repeat.
#[derive(Debug)]
pub struct Object {
    pub members: Vec<Pair>,
}

/// A member of an object.
#[derive(Debug)]
pub struct Pair {
    pub key: String,
    pub value: Box<ValueToken>,
}

/// The model of a [`ValueToken`].
#[allow(inconsistent_fields)]
pub ghost enum Node {
    Array { skip: nat, values: Seq<Node> },
    False { skip: nat, token: bool },
    Null { skip: nat },
    Number { skip: nat, text: Seq<char> },
    Object { skip: nat, members: Seq<Member> },
    Pair { skip: nat, member: Member },
    String { skip: nat, text: Seq<char> },
    True { skip: nat, token: bool },
}

/// The model of a [`Pair`].
pub ghost struct Member {
    pub key: Seq<char>,
    pub value: Box<Node>,
}

/// The model of a [`Json`].
pub ghost struct Document {
    pub skip: nat,
    pub token: Node,
}

impl Node {
    /// The characters that the scan of this construct consumed.
    pub open spec fn skip(self) -> nat {
        match self {
            Node::Array { skip, .. } => skip,
            Node::False { skip, .. } => skip,
            Node::Null { skip } => skip,
            Node::Number { skip, .. } => skip,
            Node::Object { skip, .. } => skip,
            Node::Pair { skip, .. } => skip,
            Node::String { skip, .. } => skip,
            Node::True { skip, .. } => skip,
        }
    }

    /// This token with `lead` more characters consumed in front of it.
    pub open spec fn after(self, lead: nat) -> Node {
        match self {
            Node::Array { skip, values } => Node::Array { skip: lead + skip, values },
            Node::False { skip, token } => Node::False { skip: lead + skip, token },
            Node::Null { skip } => Node::Null { skip: lead + skip },
            Node::Number { skip, text } => Node::Number { skip: lead + skip, text },
            Node::Object { skip, members } => Node::Object { skip: lead + skip, members },
            Node::Pair { skip, member } => Node::Pair { skip: lead + skip, member },
            Node::String { skip, text } => Node::String { skip: lead + skip, text },
            Node::True { skip, token } => Node::True { skip: lead + skip, token },
        }
    }

    /// This token with every `skip` in it set to zero: its kind and what it
    /// holds, without the places.
    pub open spec fn bare(self) -> Node
        decreases self,
    {
        match self {
            Node::Array { skip, values } => Node::Array {
                skip: 0,
                values: Seq::new(
                    values.len(),
                    |i: int|
                        if 0 <= i < values.len() {
                            values[i].bare()
                        } else {
                            Node::Null { skip: 0 }
                        },
                ),
            },
            Node::False { skip, token } => Node::False { skip: 0, token },
            Node::Null { skip } => Node::Null { skip: 0 },
            Node::Number { skip, text } => Node::Number { skip: 0, text },
            Node::Object { skip, members } => Node::Object {
                skip: 0,
                members: Seq::new(
                    members.len(),
                    |i: int|
                        if 0 <= i < members.len() {
                            Member {
                                key: members[i].key,
                                value: Box::new((*members[i].value).bare()),
                            }
                        } else {
                            Member { key: Seq::empty(), value: Box::new(Node::Null { skip: 0 }) }
                        },
                ),
            },
            Node::Pair { skip, member } => Node::Pair {
                skip: 0,
                member: Member { key: member.key, value: Box::new((*member.value).bare()) },
            },
            Node::String { skip, text } => Node::String { skip: 0, text },
            Node::True { skip, token } => Node::True { skip: 0, token },
        }
    }
}

impl ValueToken {
    /// The characters that the scan of this construct consumed.
    pub fn skip(&self) -> (skip: usize)
        ensures
            skip == self@.skip(),
    {
        match self {
            ValueToken::ArrayToken { skip, .. } => *skip,
            ValueToken::FalseToken { skip, .. } => *skip,
            ValueToken::NullToken { skip } => *skip,
            ValueToken::NumberToken { skip, .. } => *skip,
            ValueToken::ObjectToken { skip, .. } => *skip,
            ValueToken::PairToken { skip, .. } => *skip,
            ValueToken::StringToken { skip, .. } => *skip,
            ValueToken::TrueToken { skip, .. } => *skip,
        }
    }

    /// The model of this token.
    pub open spec fn node(&self) -> Node
        decreases self,
    {
        match self {
            ValueToken::ArrayToken { skip, token } => Node::Array {
                skip: *skip as nat,
                values: token.nodes(),
            },
            ValueToken::FalseToken { skip, token } => Node::False {
                skip: *skip as nat,
                token: *token,
            },
            ValueToken::NullToken { skip } => Node::Null { skip: *skip as nat },
            ValueToken::NumberToken { skip, token } => Node::Number {
                skip: *skip as nat,
                text: token.value_as_string@,
            },
            ValueToken::ObjectToken { skip, token } => Node::Object {
                skip: *skip as nat,
                members: token.members(),
            },
            ValueToken::PairToken { skip, token } => Node::Pair {
                skip: *skip as nat,
                member: token.member(),
            },
            ValueToken::StringToken { skip, token } => Node::String {
                skip: *skip as nat,
                text: token@,
            },
            ValueToken::TrueToken { skip, token } => Node::True {
                skip: *skip as nat,
                token: *token,
            },
        }
    }
}

impl Array {
    /// The models of the elements.
    pub open spec fn nodes(&self) -> Seq<Node>
        decreases self,
    {
        Seq::new(
            self.values.len() as nat,
            |i: int|
                if 0 <= i < self.values.len() {
                    self.values[i].node()
                } else {
                    Node::Null { skip: 0 }
                },
        )
    }
}

impl Object {
    /// The models of the members.
    pub open spec fn members(&self) -> Seq<Member>
        decreases self,
    {
        Seq::new(
            self.members.len() as nat,
            |i: int|
                if 0 <= i < self.members.len() {
                    self.members[i].member()
                } else {
                    Member { key: Seq::empty(), value: Box::new(Node::Null { skip: 0 }) }
                },
        )
    }
}

impl Pair {
    /// The model of this member.
    pub open spec fn member(&self) -> Member
        decreases self,
    {
        Member { key: self.key@, value: Box::new(self.value.node()) }
    }
}

impl View for ValueToken {
    type V = Node;

    open spec fn view(&self) -> Node {
        self.node()
    }
}

impl View for Array {
    type V = Seq<Node>;

    open spec fn view(&self) -> Seq<Node> {
        self.nodes()
    }
}

impl View for Object {
    type V = Seq<Member>;

    open spec fn view(&self) -> Seq<Member> {
        self.members()
    }
}

impl View for Pair {
    type V = Member;

    open spec fn view(&self) -> Member {
        self.member()
    }
}

impl View for Json {
    type V = Document;

    open spec fn view(&self) -> Document {
        Document { skip: self.skip as nat, token: self.token@ }
    }
}

/// The models of the elements of an array.
pub open spec fn nodes(values: Seq<Box<ValueToken>>) -> Seq<Node> {
    Seq::new(values.len(), |i: int| values[i]@)
}

/// The models of the members of an object.
pub open spec fn members(pairs: Seq<Pair>) -> Seq<Member> {
    Seq::new(pairs.len(), |i: int| pairs[i]@)
}

/// What scanning produced, with the token replaced by its model.
pub open spec fn outcome(r: Result<ValueToken, ParseError>) -> Result<Node, ParseError> {
    match r {
        Ok(token) => Ok(token@),
        Err(e) => Err(e),
    }
}

/// A scanned list, with the position after it, that has `first` put in front.
pub open spec fn with_first<T>(first: T, rest: Result<(Seq<T>, int), ParseError>) -> Result<
    (Seq<T>, int),
    ParseError,
> {
    match rest {
        Ok((items, end)) => Ok((seq![first] + items, end)),
        Err(e) => Err(e),
    }
}

/// A scanned list, with the position after it, that has `front` put in front.
pub open spec fn with_front<T>(front: Seq<T>, rest: Result<(Seq<T>, int), ParseError>) -> Result<
    (Seq<T>, int),
    ParseError,
> {
    match rest {
        Ok((items, end)) => Ok((front + items, end)),
        Err(e) => Err(e),
    }
}

/// Putting `front` and then `first` in front is putting `front` with `first`
/// appended in front.
pub proof fn lemma_with_front_first<T>(
    front: Seq<T>,
    first: T,
    rest: Result<(Seq<T>, int), ParseError>,
)
    ensures
        with_front(front, with_first(first, rest)) == with_front(front.push(first), rest),
{
    if let Ok((items, end)) = rest {
        assert(front + (seq![first] + items) =~= front.push(first) + items);
    }
}

} // verus!
