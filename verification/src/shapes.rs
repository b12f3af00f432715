//! What the simplest texts are read as.

use vstd::prelude::*;
use crate::error::Error;
use crate::grammar::{expression, factors, parse, primary, term, terms};
use crate::lexer::{lemma_span_to, scan, Cursor};
use crate::token::{Class, Operator, Token};
use crate::tree::Tree;

verus! {

/// A text that is one number, written in digits, is read as that number:
/// the tree is the literal with the text as it stands, and nothing is left.
pub proof fn lemma_number(text: Seq<char>)
    requires
        Class::Digit.run(text),
    ensures
        parse(scan(text, 0)) == (
            Ok::<Option<Tree>, Error>(Some(Tree::Literal(text))),
            Cursor { source: text, index: text.len() as int, cache: None },
        ),
{
    let len = text.len() as int;
    lemma_span_to(text, 0, 0, Class::Blank);
    lemma_span_to(text, 0, len, Class::Digit);
    lemma_span_to(text, len, len, Class::Blank);
    assert(text.subrange(0, len) =~= text);
    let first = Cursor { source: text, index: len, cache: Some(Token::Number(text)) };
    let last = Cursor { source: text, index: len, cache: None };
    assert(scan(text, 0) == first);
    assert(scan(text, len) == last);
    assert(primary(first) == (Ok::<Tree, Error>(Tree::Literal(text)), last));
    assert(term(first) == primary(first));
    assert(expression(first) == primary(first));
}

/// Whether `text` is made of blanks alone; it may be empty.
pub open spec fn blank(text: Seq<char>) -> bool {
    forall|i: int| 0 <= i < text.len() ==> Class::Blank.has(#[trigger] text[i])
}

/// Two numbers with an operator between them, with or without blanks round
/// the operator, are read as that operation on the two numbers, the first
/// on the left, and nothing is left. This holds of each of the four
/// operators.
pub proof fn lemma_operation(
    a: Seq<char>,
    before: Seq<char>,
    op: Operator,
    behind: Seq<char>,
    b: Seq<char>,
)
    requires
        Class::Digit.run(a),
        Class::Digit.run(b),
        blank(before),
        blank(behind),
    ensures
        ({
            let text = a + before + seq![op.sign()] + behind + b;
            parse(scan(text, 0)) == (
                Ok::<Option<Tree>, Error>(
                    Some(
                        Tree::Operator(
                            op,
                            Box::new(Tree::Literal(a)),
                            Box::new(Tree::Literal(b)),
                        ),
                    ),
                ),
                Cursor { source: text, index: text.len() as int, cache: None },
            )
        }),
{
    let text = a + before + seq![op.sign()] + behind + b;
    let len = text.len() as int;
    let first = a.len() as int;
    let sign = first + before.len();
    let second = sign + 1 + behind.len();
    assert forall|i: int| 0 <= i < a.len() implies Class::Digit.has(#[trigger] text[i]) by {
        assert(text[i] == a[i]);
    }
    assert forall|i: int| a.len() <= i < sign implies Class::Blank.has(#[trigger] text[i]) by {
        assert(text[i] == before[i - a.len()]);
    }
    assert(text[sign] == op.sign());
    assert forall|i: int| sign + 1 <= i < second implies Class::Blank.has(#[trigger] text[i]) by {
        assert(text[i] == behind[i - sign - 1]);
    }
    assert forall|i: int| second <= i < len implies Class::Digit.has(#[trigger] text[i]) by {
        assert(text[i] == b[i - second]);
    }
    assert(Class::Digit.has(text[0]) && Class::Digit.has(text[second]));
    lemma_span_to(text, 0, 0, Class::Blank);
    lemma_span_to(text, 0, first, Class::Digit);
    lemma_span_to(text, first, sign, Class::Blank);
    lemma_span_to(text, sign + 1, second, Class::Blank);
    lemma_span_to(text, second, len, Class::Digit);
    lemma_span_to(text, len, len, Class::Blank);
    assert(text.subrange(0, first) =~= a);
    assert(text.subrange(second, len) =~= b);

    let c0 = Cursor { source: text, index: first, cache: Some(Token::Number(a)) };
    let c1 = Cursor { source: text, index: sign + 1, cache: Some(Token::Operator(op)) };
    let c2 = Cursor { source: text, index: len, cache: Some(Token::Number(b)) };
    let c3 = Cursor { source: text, index: len, cache: None };
    assert(scan(text, 0) == c0);
    assert(scan(text, first) == c1);
    assert(scan(text, sign + 1) == c2);
    assert(scan(text, len) == c3);

    let left = Tree::Literal(a);
    let right = Tree::Literal(b);
    let whole = Tree::Operator(op, Box::new(left), Box::new(right));
    assert(primary(c0) == (Ok::<Tree, Error>(left), c1));
    assert(primary(c2) == (Ok::<Tree, Error>(right), c3));
    assert(factors(right, c3) == (Ok::<Tree, Error>(right), c3));
    assert(factors(whole, c3) == (Ok::<Tree, Error>(whole), c3));
    assert(terms(whole, c3) == (Ok::<Tree, Error>(whole), c3));
    if op.prior() {
        assert(factors(left, c1) == (Ok::<Tree, Error>(whole), c3));
        assert(term(c0) == (Ok::<Tree, Error>(whole), c3));
    } else {
        assert(factors(left, c1) == (Ok::<Tree, Error>(left), c1));
        assert(term(c0) == (Ok::<Tree, Error>(left), c1));
        assert(term(c2) == (Ok::<Tree, Error>(right), c3));
        assert(terms(left, c1) == (Ok::<Tree, Error>(whole), c3));
    }
    assert(expression(c0) == (Ok::<Tree, Error>(whole), c3));
}

} // verus!
