//! The expression tree that the parser builds.

use vstd::prelude::*;
use crate::token::{Class, Operator};

verus! {

/// A binary operation on two expressions.
#[derive(Debug, PartialEq)]
pub struct Infix {
    pub value: Operator,
    pub left: Box<Expr>,
    pub right: Box<Expr>,
}

/// An expression: a number as it was written, an operation on two
/// expressions, or a named function with its arguments in order.
#[derive(Debug, PartialEq)]
pub enum Expr {
    Literal(String),
    Operator(Infix),
    Eval(String, Vec<Box<Expr>>),
}

/// What an [`Expr`] stands for in contracts: the same tree over sequences.
pub enum Tree {
    Literal(Seq<char>),
    Operator(Operator, Box<Tree>, Box<Tree>),
    Eval(Seq<char>, Seq<Tree>),
}

impl Tree {
    /// Every number in the tree is written in digits alone, and every name
    /// in letters alone.
    pub open spec fn well_formed(self) -> bool
        decreases self,
    {
        match self {
            Tree::Literal(text) => Class::Digit.run(text),
            Tree::Operator(_, left, right) => left.well_formed() && right.well_formed(),
            Tree::Eval(name, params) => Class::Letter.run(name) && forall|i: int|
                0 <= i < params.len() ==> (#[trigger] params[i]).well_formed(),
        }
    }
}

impl Expr {
    /// The tree that the expression stands for.
    pub open spec fn tree(&self) -> Tree
        decreases self,
    {
        match self {
            Expr::Literal(text) => Tree::Literal(text@),
            Expr::Operator(infix) => Tree::Operator(
                infix.value,
                Box::new(infix.left.tree()),
                Box::new(infix.right.tree()),
            ),
            Expr::Eval(name, params) => Tree::Eval(
                name@,
                Seq::new(
                    params.len() as nat,
                    |i: int|
                        if 0 <= i < params.len() {
                            params[i].tree()
                        } else {
                            Tree::Literal(Seq::empty())
                        },
                ),
            ),
        }
    }
}

impl View for Expr {
    type V = Tree;

    open spec fn view(&self) -> Tree {
        self.tree()
    }
}

impl Infix {
    /// The operation `value` on `left` and `right`.
    pub fn new(value: Operator, left: Expr, right: Expr) -> (infix: Self)
        ensures
            infix.value == value,
            infix.left@ == left@,
            infix.right@ == right@,
    {
        Infix { value, left: Box::new(left), right: Box::new(right) }
    }
}

} // verus!
