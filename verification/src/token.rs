//! The lexical units of an expression, and the words that describe them.

use vstd::prelude::*;
use vstd::std_specs::cmp::PartialEqSpecImpl;
use crate::error::Kind;

verus! {

/// One of the four binary operators.
#[derive(Debug, Clone, Copy, PartialEq, Eq, Structural)]
pub enum Operator {
    Add,
    Sub,
    Mul,
    Div,
}

impl Operator {
    /// The character by which the operator is written.
    pub open spec fn sign(self) -> char {
        match self {
            Operator::Add => '+',
            Operator::Sub => '-',
            Operator::Mul => '*',
            Operator::Div => '/',
        }
    }

    /// Whether the operator binds tighter than addition and subtraction.
    pub open spec fn prior(self) -> bool {
        self == Operator::Mul || self == Operator::Div
    }
}

/// The classes of characters of which whole runs are read.
pub enum Class {
    Blank,
    Digit,
    Letter,
}

impl Class {
    /// Whether `c` belongs to the class.
    pub open spec fn has(self, c: char) -> bool {
        match self {
            Class::Blank => c == ' ' || c == '\r' || c == '\n',
            Class::Digit => '0' <= c <= '9',
            Class::Letter => 'a' <= c <= 'z' || 'A' <= c <= 'Z',
        }
    }

    /// Whether `text` is a run of the class: not empty, and made of its
    /// characters alone.
    pub open spec fn run(self, text: Seq<char>) -> bool {
        text.len() > 0 && forall|i: int| 0 <= i < text.len() ==> self.has(#[trigger] text[i])
    }
}

/// One lexical unit, with the text it was read from where it has any.
#[derive(Debug)]
pub enum Item {
    Number(String),
    Operator(Operator),
    Ident(String),
    Lparent,
    Rparent,
    Comma,
}

/// What an [`Item`] stands for in contracts: the same unit over a sequence
/// of characters.
pub enum Token {
    Number(Seq<char>),
    Operator(Operator),
    Ident(Seq<char>),
    Lparent,
    Rparent,
    Comma,
}

impl Token {
    /// A number is written in digits alone and a name in letters alone.
    pub open spec fn well_formed(self) -> bool {
        match self {
            Token::Number(text) => Class::Digit.run(text),
            Token::Ident(text) => Class::Letter.run(text),
            _ => true,
        }
    }

    /// The class of the token.
    pub open spec fn kind(self) -> Kind {
        match self {
            Token::Number(_) => Kind::Number,
            Token::Operator(_) => Kind::Operator,
            Token::Ident(_) => Kind::Ident,
            Token::Lparent => Kind::Lparent,
            Token::Rparent => Kind::Rparent,
            Token::Comma => Kind::Comma,
        }
    }
}

impl View for Item {
    type V = Token;

    open spec fn view(&self) -> Token {
        match *self {
            Item::Number(text) => Token::Number(text@),
            Item::Operator(op) => Token::Operator(op),
            Item::Ident(text) => Token::Ident(text@),
            Item::Lparent => Token::Lparent,
            Item::Rparent => Token::Rparent,
            Item::Comma => Token::Comma,
        }
    }
}

impl Item {
    /// The class of the token.
    pub fn kind(&self) -> (kind: Kind)
        ensures
            kind == self@.kind(),
    {
        match self {
            Item::Number(_) => Kind::Number,
            Item::Operator(_) => Kind::Operator,
            Item::Ident(_) => Kind::Ident,
            Item::Lparent => Kind::Lparent,
            Item::Rparent => Kind::Rparent,
            Item::Comma => Kind::Comma,
        }
    }
}

impl PartialEq for Item {
    fn eq(&self, other: &Self) -> (equal: bool) {
        match (self, other) {
            (Item::Number(a), Item::Number(b)) => *a == *b,
            (Item::Operator(a), Item::Operator(b)) => *a == *b,
            (Item::Ident(a), Item::Ident(b)) => *a == *b,
            (Item::Lparent, Item::Lparent) => true,
            (Item::Rparent, Item::Rparent) => true,
            (Item::Comma, Item::Comma) => true,
            _ => false,
        }
    }
}

impl PartialEqSpecImpl for Item {
    open spec fn obeys_eq_spec() -> bool {
        true
    }

    open spec fn eq_spec(&self, other: &Self) -> bool {
        self@ == other@
    }
}

impl Clone for Item {
    fn clone(&self) -> (copy: Self)
        ensures
            copy@ == self@,
    {
        match self {
            Item::Number(text) => Item::Number(text.clone()),
            Item::Operator(op) => Item::Operator(*op),
            Item::Ident(text) => Item::Ident(text.clone()),
            Item::Lparent => Item::Lparent,
            Item::Rparent => Item::Rparent,
            Item::Comma => Item::Comma,
        }
    }
}

} // verus!
