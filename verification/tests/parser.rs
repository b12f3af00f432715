use finger::error::{Error, Kind};
use finger::parser::Parser;
use finger::token::Operator;
use finger::tree::{Expr, Infix};

fn parse(text: &str) -> Result<Option<Expr>, Error> {
    Parser::new(text).parse()
}

fn tree(text: &str) -> Expr {
    parse(text).unwrap().unwrap()
}

fn num(text: &str) -> Expr {
    Expr::Literal(text.to_string())
}

fn op(value: Operator, left: Expr, right: Expr) -> Expr {
    Expr::Operator(Infix { value, left: Box::new(left), right: Box::new(right) })
}

fn call(name: &str, params: Vec<Expr>) -> Expr {
    Expr::Eval(name.to_string(), params.into_iter().map(Box::new).collect())
}

#[test]
fn parse_number() {
    assert_eq!(tree("42"), num("42"));
    assert_eq!(tree("  007 "), num("007"));
}

#[test]
fn parse_each_operator() {
    assert_eq!(tree("1 + 2"), op(Operator::Add, num("1"), num("2")));
    assert_eq!(tree("1 - 2"), op(Operator::Sub, num("1"), num("2")));
    assert_eq!(tree("1 * 2"), op(Operator::Mul, num("1"), num("2")));
    assert_eq!(tree("1 / 2"), op(Operator::Div, num("1"), num("2")));
    assert_eq!(tree("1+2"), op(Operator::Add, num("1"), num("2")));
}

#[test]
fn parse_multiplication_binds_tighter() {
    assert_eq!(
        tree("1 + 1 * 2"),
        op(Operator::Add, num("1"), op(Operator::Mul, num("1"), num("2")))
    );
    assert_eq!(
        tree("2 + 4 / 2"),
        op(Operator::Add, num("2"), op(Operator::Div, num("4"), num("2")))
    );
    assert_eq!(
        tree("1 * 2 + 3"),
        op(Operator::Add, op(Operator::Mul, num("1"), num("2")), num("3"))
    );
    assert_eq!(
        tree("1 * 2 + 3 * 4 - 5"),
        op(
            Operator::Sub,
            op(
                Operator::Add,
                op(Operator::Mul, num("1"), num("2")),
                op(Operator::Mul, num("3"), num("4"))
            ),
            num("5")
        )
    );
}

#[test]
fn parse_associates_to_the_left() {
    assert_eq!(
        tree("8 - 2 - 1"),
        op(Operator::Sub, op(Operator::Sub, num("8"), num("2")), num("1"))
    );
    assert_eq!(
        tree("8 / 2 * 3"),
        op(Operator::Mul, op(Operator::Div, num("8"), num("2")), num("3"))
    );
}

#[test]
fn parse_parentheses_group() {
    assert_eq!(
        tree("(1 + 1) * 2"),
        op(Operator::Mul, op(Operator::Add, num("1"), num("1")), num("2"))
    );
    assert_eq!(
        tree("2 * (1 + 1)"),
        op(Operator::Mul, num("2"), op(Operator::Add, num("1"), num("1")))
    );
    assert_eq!(tree("((7))"), num("7"));
    assert_eq!(
        tree("(1 + 2) - (3)"),
        op(Operator::Sub, op(Operator::Add, num("1"), num("2")), num("3"))
    );
}

#[test]
fn parse_calls() {
    assert_eq!(tree("sin(90)"), call("sin", vec![num("90")]));
    assert_eq!(tree("rand()"), call("rand", vec![]));
    assert_eq!(tree("foo(1,2)"), call("foo", vec![num("1"), num("2")]));
    assert_eq!(
        tree("f(1 + 2, g(3), (4))"),
        call(
            "f",
            vec![op(Operator::Add, num("1"), num("2")), call("g", vec![num("3")]), num("4")]
        )
    );
}

#[test]
fn parse_call_is_a_primary() {
    assert_eq!(
        tree("2 * sin(90) + 1"),
        op(
            Operator::Add,
            op(Operator::Mul, num("2"), call("sin", vec![num("90")])),
            num("1")
        )
    );
    assert_eq!(
        tree("sin(90) + 1"),
        op(Operator::Add, call("sin", vec![num("90")]), num("1"))
    );
}

#[test]
fn parse_empty_text_holds_no_expression() {
    assert_eq!(parse(""), Ok(None));
    assert_eq!(parse(" \r\n "), Ok(None));
}

#[test]
fn parse_refuses_operator_where_expression_begins() {
    assert_eq!(parse("+"), Err(Error::ExpressionExpected(Kind::Operator)));
    assert_eq!(parse("* 2"), Err(Error::ExpressionExpected(Kind::Operator)));
    assert_eq!(parse("1 + * 2"), Err(Error::ExpressionExpected(Kind::Operator)));
}

#[test]
fn parse_refuses_leading_minus() {
    assert_eq!(parse("-2"), Err(Error::ExpressionExpected(Kind::Operator)));
    assert_eq!(parse("1 - -2"), Err(Error::ExpressionExpected(Kind::Operator)));
}

#[test]
fn parse_refuses_missing_operand() {
    assert_eq!(parse("1 +"), Err(Error::ExpressionExpected(Kind::End)));
    assert_eq!(parse("1 *"), Err(Error::ExpressionExpected(Kind::End)));
    assert_eq!(parse("("), Err(Error::ExpressionExpected(Kind::End)));
    assert_eq!(parse("()"), Err(Error::ExpressionExpected(Kind::Rparent)));
}

#[test]
fn parse_refuses_unmatched_parenthesis() {
    assert_eq!(parse("(1"), Err(Error::Expected(Kind::Rparent, Kind::End)));
    assert_eq!(parse("(1 2"), Err(Error::Expected(Kind::Rparent, Kind::Number)));
    assert_eq!(parse(")"), Err(Error::ExpressionExpected(Kind::Rparent)));
}

#[test]
fn parse_refuses_unfinished_call() {
    assert_eq!(parse("sin(1"), Err(Error::Expected(Kind::Rparent, Kind::End)));
    assert_eq!(parse("sin("), Err(Error::Expected(Kind::Rparent, Kind::End)));
    assert_eq!(parse("sin"), Err(Error::Expected(Kind::Lparent, Kind::End)));
    assert_eq!(parse("sin 1"), Err(Error::Expected(Kind::Lparent, Kind::Number)));
    assert_eq!(parse("f(1,"), Err(Error::ExpressionExpected(Kind::End)));
    assert_eq!(parse("f(1,)"), Err(Error::ExpressionExpected(Kind::Rparent)));
    assert_eq!(parse("f(,1)"), Err(Error::ExpressionExpected(Kind::Comma)));
}

#[test]
fn parse_refuses_comma_outside_call() {
    assert_eq!(parse("1,2"), Err(Error::StrayComma));
    assert_eq!(parse("1 + 2 , 3"), Err(Error::StrayComma));
    assert_eq!(parse(","), Err(Error::ExpressionExpected(Kind::Comma)));
    assert_eq!(parse("(1,2)"), Err(Error::Expected(Kind::Rparent, Kind::Comma)));
}

#[test]
fn parse_refuses_unknown_character() {
    assert_eq!(parse("$"), Err(Error::Lex('$')));
    assert_eq!(parse("1 + $"), Err(Error::Lex('$')));
    assert_eq!(parse("1 $"), Err(Error::Lex('$')));
    assert_eq!(parse("0.2 / 2"), Err(Error::Lex('.')));
}

#[test]
fn parse_leaves_what_follows_unread() {
    assert_eq!(tree("1 2"), num("1"));
    assert_eq!(tree("1 2 $"), num("1"));
    assert_eq!(tree("1 + 2 ) 3"), op(Operator::Add, num("1"), num("2")));
    assert_eq!(tree("1 sin"), num("1"));
}

#[test]
fn parse_again_after_the_end() {
    let mut parser = Parser::new("1 + 2");
    assert_eq!(parser.parse(), Ok(Some(op(Operator::Add, num("1"), num("2")))));
    assert_eq!(parser.parse(), Ok(None));
}

#[test]
fn parse_again_after_an_error() {
    let mut parser = Parser::new("1 + $");
    assert_eq!(parser.parse(), Err(Error::Lex('$')));
    assert_eq!(parser.parse(), Err(Error::Lex('$')));
}

#[test]
fn infix_new_boxes_both_sides() {
    let infix = Infix::new(Operator::Div, num("1"), num("0"));
    assert_eq!(infix.value, Operator::Div);
    assert_eq!(*infix.left, num("1"));
    assert_eq!(*infix.right, num("0"));
}
