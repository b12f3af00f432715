//! The parser: it pulls tokens from the tokenizer, one ahead, and builds the
//! tree of one expression by recursive descent.

use vstd::prelude::*;
use crate::error::{Error, Kind};
use crate::grammar::{
    advance, arguments, call, expect, expression, factors, follows, found, group, lemma_advance,
    lemma_call, lemma_expression_is, lemma_group, lemma_term_is, parse, primary, tail, terms,
};
use crate::lexer::{scan, Cursor, Lexer};
use crate::token::{Item, Operator, Token};
use crate::tree::{Expr, Infix, Tree};

verus! {

/// The tree that was built, or the error.
pub open spec fn grown(result: Result<Expr, Error>) -> Result<Tree, Error> {
    match result {
        Ok(expr) => Ok(expr@),
        Err(error) => Err(error),
    }
}

/// The tree that was built if the text held an expression, or the error.
pub open spec fn read(result: Result<Option<Expr>, Error>) -> Result<Option<Tree>, Error> {
    match result {
        Ok(Some(expr)) => Ok(Some(expr@)),
        Ok(None) => Ok(None),
        Err(error) => Err(error),
    }
}

/// A parser over the tokens of a text.
pub struct Parser(Lexer);

impl View for Parser {
    type V = Cursor;

    closed spec fn view(&self) -> Cursor {
        self.0@
    }
}

impl Parser {
    /// A parser over `text`, with the first token read.
    pub fn new<'a>(text: &'a str) -> (parser: Self)
        ensures
            parser@ == scan(text@, 0),
            parser@.valid(),
    {
        Parser(Lexer::new(text))
    }

    /// Reads the next token.
    #[inline(always)]
    fn advance(&mut self) -> (result: Result<(), Error>)
        requires
            old(self)@.valid(),
        ensures
            (result, final(self)@) == advance(old(self)@),
            follows(final(self)@, old(self)@),
            old(self)@.cache is Some ==> final(self)@.rest() < old(self)@.rest(),
    {
        proof {
            lemma_advance(self@);
        }
        match self.0.next() {
            Ok(_) => Ok(()),
            Err(error) => Err(error),
        }
    }

    /// What stands at the cursor.
    #[inline(always)]
    fn found(&self) -> (kind: Kind)
        ensures
            kind == found(self@),
    {
        match self.0.current() {
            Some(item) => item.kind(),
            None => Kind::End,
        }
    }

    /// `"(" expression ")"`, at the left parenthesis.
    #[inline(always)]
    fn block(&mut self) -> (result: Result<Expr, Error>)
        requires
            old(self)@.valid(),
            old(self)@.cache is Some,
        ensures
            (grown(result), final(self)@) == group(old(self)@),
            follows(final(self)@, old(self)@),
            result is Ok ==> final(self)@.rest() < old(self)@.rest(),
        decreases old(self)@.rest(), 0nat,
    {
        proof {
            lemma_group(self@);
        }
        match self.advance() {
            Ok(_) => {},
            Err(error) => return Err(error),
        }
        let expr = match self.next() {
            Ok(expr) => expr,
            Err(error) => return Err(error),
        };
        match self.expect(Item::Rparent) {
            Ok(_) => Ok(expr),
            Err(error) => Err(error),
        }
    }

    /// What follows the first primary `expr` of an expression: the factors
    /// of its first term, then the further terms.
    #[inline(always)]
    #[verifier::loop_isolation(false)]
    fn attempt(&mut self, expr: Expr) -> (result: Result<Expr, Error>)
        requires
            old(self)@.valid(),
        ensures
            (grown(result), final(self)@) == tail(expr@, old(self)@),
            follows(final(self)@, old(self)@),
        decreases old(self)@.rest(), 1nat,
    {
        let mut expr = match self.prior_operator(expr) {
            Ok(expr) => expr,
            Err(error) => return Err(error),
        };
        let ghost goal = terms(expr@, self@);
        loop
            invariant
                follows(self@, old(self)@),
                terms(expr@, self@) == goal,
                !(self@.cache matches Some(Token::Operator(op)) && op.prior()),
            decreases self@.rest(),
        {
            match self.0.current() {
                Some(Item::Operator(op)) => {
                    match self.advance() {
                        Ok(_) => {},
                        Err(error) => return Err(error),
                    }
                    proof {
                        lemma_term_is(self@);
                    }
                    let value = match self.value() {
                        Ok(value) => value,
                        Err(error) => return Err(error),
                    };
                    let right = match self.prior_operator(value) {
                        Ok(right) => right,
                        Err(error) => return Err(error),
                    };
                    expr = Expr::Operator(Infix::new(op, expr, right));
                },
                _ => return Ok(expr),
            }
        }
    }

    /// `( ("*" | "/") primary )*`: the factors that follow `expr` in a term.
    #[inline(always)]
    #[verifier::loop_isolation(false)]
    fn prior_operator(&mut self, expr: Expr) -> (result: Result<Expr, Error>)
        requires
            old(self)@.valid(),
        ensures
            (grown(result), final(self)@) == factors(expr@, old(self)@),
            follows(final(self)@, old(self)@),
            result is Ok ==> !(final(self)@.cache matches Some(Token::Operator(op)) && op.prior()),
        decreases old(self)@.rest(), 0nat,
    {
        let mut expr = expr;
        let ghost goal = factors(expr@, self@);
        loop
            invariant
                follows(self@, old(self)@),
                factors(expr@, self@) == goal,
            decreases self@.rest(),
        {
            match self.0.current() {
                Some(Item::Operator(op)) => {
                    match op {
                        Operator::Mul | Operator::Div => {
                            match self.advance() {
                                Ok(_) => {},
                                Err(error) => return Err(error),
                            }
                            let right = match self.value() {
                                Ok(right) => right,
                                Err(error) => return Err(error),
                            };
                            expr = Expr::Operator(Infix::new(op, expr, right));
                        },
                        _ => return Ok(expr),
                    }
                },
                _ => return Ok(expr),
            }
        }
    }

    /// `number | call | "(" expression ")"`.
    #[inline(always)]
    fn value(&mut self) -> (result: Result<Expr, Error>)
        requires
            old(self)@.valid(),
        ensures
            (grown(result), final(self)@) == primary(old(self)@),
            follows(final(self)@, old(self)@),
            result is Ok ==> final(self)@.rest() < old(self)@.rest(),
        decreases old(self)@.rest(), 1nat,
    {
        match self.0.current() {
            Some(Item::Number(val)) => {
                match self.advance() {
                    Ok(_) => Ok(Expr::Literal(val)),
                    Err(error) => Err(error),
                }
            },
            Some(Item::Ident(name)) => self.eval(name),
            Some(Item::Lparent) => self.block(),
            _ => Err(Error::ExpressionExpected(self.found())),
        }
    }

    /// Reads past the token `target`.
    #[inline(always)]
    fn expect(&mut self, target: Item) -> (result: Result<(), Error>)
        requires
            old(self)@.valid(),
        ensures
            (result, final(self)@) == expect(old(self)@, target@),
            follows(final(self)@, old(self)@),
            result is Ok ==> final(self)@.rest() < old(self)@.rest(),
    {
        let hit = match self.0.current() {
            Some(item) => item == target,
            None => false,
        };
        if !hit {
            Err(Error::Expected(target.kind(), self.found()))
        } else {
            self.advance()
        }
    }

    /// `name "(" [ expression ( "," expression )* ] ")"`, at the name.
    #[inline(always)]
    #[verifier::loop_isolation(false)]
    fn eval(&mut self, name: String) -> (result: Result<Expr, Error>)
        requires
            old(self)@.valid(),
            old(self)@.cache == Some(Token::Ident(name@)),
        ensures
            (grown(result), final(self)@) == call(old(self)@),
            follows(final(self)@, old(self)@),
            result is Ok ==> final(self)@.rest() < old(self)@.rest(),
        decreases old(self)@.rest(), 0nat,
    {
        proof {
            lemma_call(self@);
        }
        match self.advance() {
            Ok(_) => {},
            Err(error) => return Err(error),
        }
        let mut params: Vec<Box<Expr>> = Vec::new();
        let ghost mut list: Seq<Tree> = Seq::empty();

        match self.expect(Item::Lparent) {
            Ok(_) => {},
            Err(error) => return Err(error),
        }
        let first = match self.0.current() {
            Some(item) => item != Item::Rparent,
            None => false,
        };
        if first {
            let expr = match self.next() {
                Ok(expr) => expr,
                Err(error) => return Err(error),
            };
            proof {
                list = list.push(expr@);
            }
            params.push(Box::new(expr));
            let ghost goal = arguments(list, self@);
            let mut more = match self.0.current() {
                Some(Item::Comma) => true,
                _ => false,
            };
            while more
                invariant
                    follows(self@, old(self)@),
                    self@.rest() < old(self)@.rest(),
                    more == (self@.cache == Some(Token::Comma)),
                    arguments(list, self@) == goal,
                    list.len() == params.len(),
                    forall|i: int| 0 <= i < list.len() ==> list[i] == (#[trigger] params[i]).tree(),
                decreases self@.rest(),
            {
                match self.advance() {
                    Ok(_) => {},
                    Err(error) => return Err(error),
                }
                let expr = match self.next() {
                    Ok(expr) => expr,
                    Err(error) => return Err(error),
                };
                proof {
                    list = list.push(expr@);
                }
                params.push(Box::new(expr));
                more = match self.0.current() {
                    Some(Item::Comma) => true,
                    _ => false,
                };
            }
        }
        match self.expect(Item::Rparent) {
            Ok(_) => {
                let expr = Expr::Eval(name, params);
                assert(expr@ == Tree::Eval(name@, list)) by {
                    assert(expr@->Eval_1 =~= list);
                }
                Ok(expr)
            },
            Err(error) => Err(error),
        }
    }

    /// `term ( ("+" | "-") term )*`: one expression.
    #[inline(always)]
    fn next(&mut self) -> (result: Result<Expr, Error>)
        requires
            old(self)@.valid(),
        ensures
            (grown(result), final(self)@) == expression(old(self)@),
            follows(final(self)@, old(self)@),
        decreases old(self)@.rest(), 3nat,
    {
        proof {
            lemma_expression_is(self@);
        }
        let first = match self.value() {
            Ok(first) => first,
            Err(error) => return Err(error),
        };
        self.attempt(first)
    }

    /// Reads the expression that the text holds. A text that is empty or
    /// blank holds none, which is no error. A comma behind the expression is
    /// an error; what else follows it is left unread.
    pub fn parse(&mut self) -> (result: Result<Option<Expr>, Error>)
        ensures
            (read(result), final(self)@) == parse(old(self)@),
            follows(final(self)@, old(self)@),
    {
        match self.0.error() {
            Some(error) => return Err(error),
            None => {},
        }
        if self.0.current().is_none() {
            return Ok(None);
        }
        match self.next() {
            Ok(expr) => {
                match self.0.current() {
                    Some(Item::Comma) => Err(Error::StrayComma),
                    _ => Ok(Some(expr)),
                }
            },
            Err(error) => Err(error),
        }
    }
}

} // verus!
