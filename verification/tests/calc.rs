use finger::method::{method, Function};
use finger::parser::Parser;
use finger::token::Operator;
use finger::tree::Expr;

fn eval(expr: &Expr) -> f64 {
    match expr {
        Expr::Literal(text) => text.parse::<f64>().unwrap(),
        Expr::Operator(infix) => {
            let left = eval(&infix.left);
            let right = eval(&infix.right);
            match infix.value {
                Operator::Add => left + right,
                Operator::Sub => left - right,
                Operator::Mul => left * right,
                Operator::Div => left / right,
            }
        }
        Expr::Eval(name, params) => {
            let values: Vec<f64> = params.iter().map(|param| eval(param)).collect();
            match method(name, values.len()).unwrap() {
                Some(Function::Sin) => (values[0] * std::f64::consts::PI / 180.0).sin(),
                None => 0.0,
            }
        }
    }
}

fn value(text: &str) -> f64 {
    match Parser::new(text).parse().unwrap() {
        Some(expr) => eval(&expr),
        None => 0.0,
    }
}

fn calc(text: &str) -> String {
    format!("{}", value(text))
}

#[test]
fn add() {
    let result = calc("1 + 1");
    assert_eq!(result, "2");
}

#[test]
fn sub() {
    let result = calc("234 - 1");
    assert_eq!(result, "233");
}

#[test]
fn mul() {
    let result = calc("128 * 2");
    assert_eq!(result, "256");
}

#[test]
fn div() {
    let result = calc("1024 / 2");
    assert_eq!(result, "512");
}

#[test]
fn sin() {
    let result = calc("sin(90)");
    assert_eq!(result, "1");
}

#[test]
fn add_mul() {
    let result = calc("1 + 1 * 2");
    assert_eq!(result, "3");
}

#[test]
fn add_div() {
    let result = calc("2 + 4 / 2");
    assert_eq!(result, "4");
}

#[test]
fn number_comes_back_as_written() {
    assert_eq!(calc("0"), "0");
    assert_eq!(calc("7"), "7");
    assert_eq!(calc("1234567890"), "1234567890");
    assert_eq!(calc("007"), "7");
}

#[test]
fn operators_follow_the_floating_point_rules() {
    assert_eq!(value("7 + 3"), 7.0 + 3.0);
    assert_eq!(value("7 - 30"), 7.0 - 30.0);
    assert_eq!(value("7 * 3"), 7.0 * 3.0);
    assert_eq!(value("7 / 3"), 7.0 / 3.0);
    assert_eq!(calc("1 / 4"), "0.25");
    assert_eq!(calc("3 - 5"), "-2");
}

#[test]
fn subtraction_associates_to_the_left() {
    assert_eq!(calc("8 - 2 - 1"), "5");
}

#[test]
fn parentheses_override_precedence() {
    assert_eq!(calc("(1 + 1) * 2"), "4");
    assert_eq!(calc("1 * 2 + 3"), "5");
}

#[test]
fn sine_takes_degrees() {
    assert_eq!(value("sin(0)"), 0.0);
    assert!((value("sin(30)") - 0.5).abs() < 1e-12);
    assert_eq!(value("sin(90)"), 1.0);
    assert!(value("sin(180)").abs() < 1e-12);
    assert_eq!(calc("2 * sin(90) + 1"), "3");
}

#[test]
fn unknown_function_is_zero() {
    assert_eq!(calc("foo(1,2)"), "0");
    assert_eq!(calc("cos(0)"), "0");
    assert_eq!(calc("rand()"), "0");
    assert_eq!(calc("1 + foo(1,2)"), "1");
}

#[test]
fn division_by_zero_is_infinite() {
    assert!(value("1/0").is_infinite());
    assert!(value("1/0") > 0.0);
    assert_eq!(calc("1/0"), "inf");
    assert!(value("0/0").is_nan());
}

#[test]
fn empty_text_is_zero() {
    assert_eq!(calc(""), "0");
}

#[test]
fn malformed_text_is_refused() {
    assert!(Parser::new("+").parse().is_err());
    assert!(Parser::new("(1").parse().is_err());
    assert!(Parser::new("1,2").parse().is_err());
    assert!(Parser::new("0.2 / 2").parse().is_err());
    assert!(Parser::new("-0.2 / 2").parse().is_err());
    assert!(method("sin", 2).is_err());
}
