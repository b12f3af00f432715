//! The ways in which an expression can be refused.

use vstd::prelude::*;
use crate::method::Function;

verus! {

/// What stood at a place in the text: the class of a token, or the end.
#[derive(Debug, Clone, Copy, PartialEq, Eq, Structural)]
pub enum Kind {
    Number,
    Operator,
    Ident,
    Lparent,
    Rparent,
    Comma,
    End,
}

/// Why a text is no expression. Every one of these ends the evaluation.
#[derive(Debug, Clone, Copy, PartialEq, Eq, Structural)]
pub enum Error {
    /// The character belongs to no token.
    Lex(char),
    /// The grammar asks for the first token; the second was found.
    Expected(Kind, Kind),
    /// An expression has to begin here, and what was found begins none.
    ExpressionExpected(Kind),
    /// A comma follows an expression that is no argument of a call.
    StrayComma,
    /// The function was called with this many arguments, which it does not
    /// take.
    Arity(Function, usize),
}

} // verus!
