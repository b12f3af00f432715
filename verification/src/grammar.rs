//! The grammar of expressions, as functions from the state of the tokenizer
//! to what is read and the state that is left.
//!
//! ```text
//! expression := term ( ("+" | "-") term )*
//! term       := primary ( ("*" | "/") primary )*
//! primary    := number | call | "(" expression ")"
//! call       := name "(" [ expression ( "," expression )* ] ")"
//! ```
//!
//! Operators of one level associate to the left. Each function gives the
//! state in which reading stopped together with the tree or the error, so
//! that a failure says where it happened.
//!
//! There is no sign in front of a primary: `-` is the operator of
//! subtraction alone, so a text that begins with it holds no expression.
//!
//! A function that goes on reading after another has returned compares how
//! much the two states leave to read. The comparison only shows that the
//! definitions are well founded: the lemmas below prove that it holds in
//! every valid state, so that the branch behind it is never taken.

use vstd::prelude::*;
use crate::error::{Error, Kind};
use crate::lexer::{lemma_scan, scan, Cursor};
use crate::token::Token;
use crate::tree::Tree;

verus! {

/// A tree or an error, and the state in which reading stopped.
pub type Parsed = (Result<Tree, Error>, Cursor);

/// What stands at the cursor: the class of the remembered token, or the end.
pub open spec fn found(c: Cursor) -> Kind {
    match c.cache {
        Some(token) => token.kind(),
        None => Kind::End,
    }
}

/// Reads the next token. It fails at a character that begins none.
pub open spec fn advance(c: Cursor) -> (Result<(), Error>, Cursor) {
    let next = scan(c.source, c.index);
    match next.fault() {
        Some(error) => (Err(error), next),
        None => (Ok(()), next),
    }
}

/// Reads past the token `target`. It fails, and stays, where another token
/// stands or none.
pub open spec fn expect(c: Cursor, target: Token) -> (Result<(), Error>, Cursor) {
    if c.cache == Some(target) {
        advance(c)
    } else {
        (Err(Error::Expected(target.kind(), found(c))), c)
    }
}

/// `"(" expression ")"`, at a left parenthesis.
pub open spec fn group(c: Cursor) -> Parsed
    decreases c.rest(), 0nat,
{
    let (opened, inner) = advance(c);
    if opened is Err {
        (Err(opened->Err_0), inner)
    } else if inner.rest() < c.rest() {
        let (tree, after) = expression(inner);
        if tree is Err {
            (tree, after)
        } else {
            let (closed, next) = expect(after, Token::Rparent);
            if closed is Err {
                (Err(closed->Err_0), next)
            } else {
                (tree, next)
            }
        }
    } else {
        arbitrary()
    }
}

/// `( "," expression )*`: the arguments that follow those in `list`.
pub open spec fn arguments(list: Seq<Tree>, c: Cursor) -> (Result<Seq<Tree>, Error>, Cursor)
    decreases c.rest(), 0nat,
{
    if c.cache == Some(Token::Comma) {
        let (comma, inner) = advance(c);
        if comma is Err {
            (Err(comma->Err_0), inner)
        } else if inner.rest() < c.rest() {
            let (tree, after) = expression(inner);
            if tree is Err {
                (Err(tree->Err_0), after)
            } else if after.rest() < c.rest() {
                arguments(list.push(tree->Ok_0), after)
            } else {
                arbitrary()
            }
        } else {
            arbitrary()
        }
    } else {
        (Ok(list), c)
    }
}

/// `name "(" [ expression ( "," expression )* ] ")"`, at a name.
pub open spec fn call(c: Cursor) -> Parsed
    decreases c.rest(), 0nat,
{
    let (named, paren) = advance(c);
    if named is Err {
        (Err(named->Err_0), paren)
    } else {
        let (opened, inner) = expect(paren, Token::Lparent);
        if opened is Err {
            (Err(opened->Err_0), inner)
        } else {
            let (list, after) = if inner.cache is None || inner.cache == Some(Token::Rparent) {
                (Ok(Seq::empty()), inner)
            } else if inner.rest() < c.rest() {
                let (tree, more) = expression(inner);
                if tree is Err {
                    (Err(tree->Err_0), more)
                } else if more.rest() < c.rest() {
                    arguments(seq![tree->Ok_0], more)
                } else {
                    arbitrary()
                }
            } else {
                arbitrary()
            };
            if list is Err {
                (Err(list->Err_0), after)
            } else {
                let (closed, next) = expect(after, Token::Rparent);
                if closed is Err {
                    (Err(closed->Err_0), next)
                } else {
                    (Ok(Tree::Eval(c.cache->0->Ident_0, list->Ok_0)), next)
                }
            }
        }
    }
}

/// `number | call | "(" expression ")"`.
pub open spec fn primary(c: Cursor) -> Parsed
    decreases c.rest(), 1nat,
{
    match c.cache {
        Some(Token::Number(text)) => {
            let (read, next) = advance(c);
            if read is Err {
                (Err(read->Err_0), next)
            } else {
                (Ok(Tree::Literal(text)), next)
            }
        },
        Some(Token::Ident(_)) => call(c),
        Some(Token::Lparent) => group(c),
        _ => (Err(Error::ExpressionExpected(found(c))), c),
    }
}

/// `( ("*" | "/") primary )*`, applied to `left` from the left.
pub open spec fn factors(left: Tree, c: Cursor) -> Parsed
    decreases c.rest(), 0nat,
{
    match c.cache {
        Some(Token::Operator(op)) if op.prior() => {
            let (read, inner) = advance(c);
            if read is Err {
                (Err(read->Err_0), inner)
            } else if inner.rest() < c.rest() {
                let (right, after) = primary(inner);
                if right is Err {
                    (right, after)
                } else if after.rest() < c.rest() {
                    factors(Tree::Operator(op, Box::new(left), Box::new(right->Ok_0)), after)
                } else {
                    arbitrary()
                }
            } else {
                arbitrary()
            }
        },
        _ => (Ok(left), c),
    }
}

/// `primary ( ("*" | "/") primary )*`.
pub open spec fn term(c: Cursor) -> Parsed
    decreases c.rest(), 2nat,
{
    let (first, after) = primary(c);
    if first is Err {
        (first, after)
    } else if after.rest() <= c.rest() {
        factors(first->Ok_0, after)
    } else {
        arbitrary()
    }
}

/// `( ("+" | "-") term )*`, applied to `left` from the left.
pub open spec fn terms(left: Tree, c: Cursor) -> Parsed
    decreases c.rest(), 0nat,
{
    match c.cache {
        Some(Token::Operator(op)) if !op.prior() => {
            let (read, inner) = advance(c);
            if read is Err {
                (Err(read->Err_0), inner)
            } else if inner.rest() < c.rest() {
                let (right, after) = term(inner);
                if right is Err {
                    (right, after)
                } else if after.rest() < c.rest() {
                    terms(Tree::Operator(op, Box::new(left), Box::new(right->Ok_0)), after)
                } else {
                    arbitrary()
                }
            } else {
                arbitrary()
            }
        },
        _ => (Ok(left), c),
    }
}

/// What follows the first primary of an expression: the factors of its first
/// term, then the terms that are added to it or taken from it.
pub open spec fn tail(left: Tree, c: Cursor) -> Parsed {
    let (first, after) = factors(left, c);
    if first is Err {
        (first, after)
    } else {
        terms(first->Ok_0, after)
    }
}

/// `term ( ("+" | "-") term )*`.
pub open spec fn expression(c: Cursor) -> Parsed
    decreases c.rest(), 3nat,
{
    let (first, after) = term(c);
    if first is Err {
        (first, after)
    } else if after.rest() <= c.rest() {
        terms(first->Ok_0, after)
    } else {
        arbitrary()
    }
}

/// The whole text. A tokenizer that is stopped at a character that begins
/// no token fails with it, and an empty text holds no expression, which is
/// no error. Otherwise one expression is read. A comma behind it is an
/// error; anything else that follows is left unread.
pub open spec fn parse(c: Cursor) -> (Result<Option<Tree>, Error>, Cursor) {
    if c.fault() is Some {
        (Err(c.fault()->0), c)
    } else if c.cache is None {
        (Ok(None), c)
    } else {
        let (tree, after) = expression(c);
        if tree is Err {
            (Err(tree->Err_0), after)
        } else if after.cache == Some(Token::Comma) {
            (Err(Error::StrayComma), after)
        } else {
            (Ok(Some(tree->Ok_0)), after)
        }
    }
}

/// Reading went on from `c` in order: the state that is left is valid, of
/// the same text, and leaves no more to read than `c` did.
pub open spec fn follows(next: Cursor, c: Cursor) -> bool {
    &&& next.valid()
    &&& next.source == c.source
    &&& next.rest() <= c.rest()
}

/// A tree that was read is well formed, and reading it used up a token.
pub open spec fn sound(parsed: Parsed, c: Cursor) -> bool {
    &&& follows(parsed.1, c)
    &&& parsed.0 matches Ok(tree) ==> tree.well_formed() && parsed.1.rest() < c.rest()
}

/// Reading a token goes on in order, and from a remembered token it uses
/// that token up.
pub proof fn lemma_advance(c: Cursor)
    requires
        c.valid(),
    ensures
        follows(advance(c).1, c),
        c.cache is Some ==> advance(c).1.rest() < c.rest(),
        advance(c).0 is Ok ==> advance(c).1.fault() is None,
{
    lemma_scan(c);
}

/// Reading past a token goes on in order, and uses the token up where it
/// succeeds.
pub proof fn lemma_expect(c: Cursor, target: Token)
    requires
        c.valid(),
    ensures
        follows(expect(c, target).1, c),
        expect(c, target).0 is Ok ==> expect(c, target).1.rest() < c.rest() && expect(
            c,
            target,
        ).1.fault() is None,
{
    lemma_scan(c);
}

/// Reading an expression in parentheses goes on in order.
pub proof fn lemma_group(c: Cursor)
    requires
        c.valid(),
        c.cache is Some,
    ensures
        sound(group(c), c),
    decreases c.rest(), 0nat,
{
    lemma_advance(c);
    let (opened, inner) = advance(c);
    if opened is Ok {
        lemma_expression(inner);
        let (tree, after) = expression(inner);
        if tree is Ok {
            lemma_expect(after, Token::Rparent);
        }
    }
}

/// Reading further arguments goes on in order, and adds well-formed trees
/// to well-formed ones.
pub proof fn lemma_arguments(list: Seq<Tree>, c: Cursor)
    requires
        c.valid(),
    ensures
        follows(arguments(list, c).1, c),
        (forall|i: int| 0 <= i < list.len() ==> (#[trigger] list[i]).well_formed()) ==> (arguments(
            list,
            c,
        ).0 matches Ok(all) ==> forall|i: int|
            0 <= i < all.len() ==> (#[trigger] all[i]).well_formed()),
    decreases c.rest(), 0nat,
{
    if c.cache == Some(Token::Comma) {
        lemma_advance(c);
        let (comma, inner) = advance(c);
        if comma is Ok {
            lemma_expression(inner);
            let (tree, after) = expression(inner);
            if tree is Ok {
                lemma_arguments(list.push(tree->Ok_0), after);
            }
        }
    }
}

/// Reading a call goes on in order.
pub proof fn lemma_call(c: Cursor)
    requires
        c.valid(),
        c.cache matches Some(Token::Ident(_)),
    ensures
        sound(call(c), c),
    decreases c.rest(), 0nat,
{
    lemma_advance(c);
    let (named, paren) = advance(c);
    if named is Ok {
        lemma_expect(paren, Token::Lparent);
        let (opened, inner) = expect(paren, Token::Lparent);
        if opened is Ok {
            let (list, after) = if inner.cache is None || inner.cache == Some(Token::Rparent) {
                (Ok(Seq::<Tree>::empty()), inner)
            } else {
                lemma_expression(inner);
                let (tree, more) = expression(inner);
                if tree is Ok {
                    lemma_arguments(seq![tree->Ok_0], more);
                    arguments(seq![tree->Ok_0], more)
                } else {
                    (Err(tree->Err_0), more)
                }
            };
            if list is Ok {
                lemma_expect(after, Token::Rparent);
            }
        }
    }
}

/// Reading a primary goes on in order.
pub proof fn lemma_primary(c: Cursor)
    requires
        c.valid(),
    ensures
        sound(primary(c), c),
    decreases c.rest(), 1nat,
{
    match c.cache {
        Some(Token::Number(text)) => {
            lemma_advance(c);
        },
        Some(Token::Ident(_)) => {
            lemma_call(c);
        },
        Some(Token::Lparent) => {
            lemma_group(c);
        },
        _ => {},
    }
}

/// Reading factors goes on in order and stops in front of a token that is
/// no multiplication and no division; on a well-formed tree it builds a
/// well-formed one.
pub proof fn lemma_factors(left: Tree, c: Cursor)
    requires
        c.valid(),
    ensures
        follows(factors(left, c).1, c),
        factors(left, c).0 is Ok ==> !(factors(left, c).1.cache matches Some(Token::Operator(op))
            && op.prior()),
        left.well_formed() ==> (factors(left, c).0 matches Ok(tree) ==> tree.well_formed()),
    decreases c.rest(), 0nat,
{
    match c.cache {
        Some(Token::Operator(op)) if op.prior() => {
            lemma_advance(c);
            let (read, inner) = advance(c);
            if read is Ok {
                lemma_primary(inner);
                let (right, after) = primary(inner);
                if right is Ok {
                    lemma_factors(
                        Tree::Operator(op, Box::new(left), Box::new(right->Ok_0)),
                        after,
                    );
                }
            }
        },
        _ => {},
    }
}

/// Reading a term goes on in order.
pub proof fn lemma_term(c: Cursor)
    requires
        c.valid(),
    ensures
        sound(term(c), c),
    decreases c.rest(), 2nat,
{
    lemma_primary(c);
    let (first, after) = primary(c);
    if first is Ok {
        lemma_factors(first->Ok_0, after);
    }
}

/// Reading further terms goes on in order; on a well-formed tree it builds
/// a well-formed one.
pub proof fn lemma_terms(left: Tree, c: Cursor)
    requires
        c.valid(),
    ensures
        follows(terms(left, c).1, c),
        left.well_formed() ==> (terms(left, c).0 matches Ok(tree) ==> tree.well_formed()),
    decreases c.rest(), 0nat,
{
    match c.cache {
        Some(Token::Operator(op)) if !op.prior() => {
            lemma_advance(c);
            let (read, inner) = advance(c);
            if read is Ok {
                lemma_term(inner);
                let (right, after) = term(inner);
                if right is Ok {
                    lemma_terms(Tree::Operator(op, Box::new(left), Box::new(right->Ok_0)), after);
                }
            }
        },
        _ => {},
    }
}

/// Reading an expression goes on in order. A tree that is read is well
/// formed, so each of its numbers is written in digits alone, and reading
/// it used up a token.
pub proof fn lemma_expression(c: Cursor)
    requires
        c.valid(),
    ensures
        sound(expression(c), c),
    decreases c.rest(), 3nat,
{
    lemma_term(c);
    let (first, after) = term(c);
    if first is Ok {
        lemma_terms(first->Ok_0, after);
    }
}

/// A term is its first primary with the factors that follow it.
pub proof fn lemma_term_is(c: Cursor)
    requires
        c.valid(),
    ensures
        term(c) == ({
            let (first, after) = primary(c);
            if first is Err {
                (first, after)
            } else {
                factors(first->Ok_0, after)
            }
        }),
{
    lemma_primary(c);
}

/// An expression is its first primary with what follows it.
pub proof fn lemma_expression_is(c: Cursor)
    requires
        c.valid(),
    ensures
        expression(c) == ({
            let (first, after) = primary(c);
            if first is Err {
                (first, after)
            } else {
                tail(first->Ok_0, after)
            }
        }),
{
    lemma_term_is(c);
    lemma_term(c);
}

/// Reading a whole text goes on in order, and a tree that is read is well
/// formed.
pub proof fn lemma_reading(c: Cursor)
    requires
        c.valid(),
    ensures
        follows(parse(c).1, c),
        parse(c).0 matches Ok(Some(tree)) ==> tree.well_formed(),
{
    lemma_expression(c);
}

} // verus!
