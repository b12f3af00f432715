use finger::error::Error;
use finger::method::{method, Function};

#[test]
fn method_sin_takes_one_argument() {
    assert_eq!(method("sin", 1), Ok(Some(Function::Sin)));
    assert_eq!(Function::Sin.arity(), 1);
}

#[test]
fn method_sin_refuses_other_counts() {
    assert_eq!(method("sin", 0), Err(Error::Arity(Function::Sin, 0)));
    assert_eq!(method("sin", 2), Err(Error::Arity(Function::Sin, 2)));
    assert_eq!(method("sin", 7), Err(Error::Arity(Function::Sin, 7)));
}

#[test]
fn method_unknown_name_is_no_error() {
    assert_eq!(method("foo", 2), Ok(None));
    assert_eq!(method("cos", 1), Ok(None));
    assert_eq!(method("rand", 0), Ok(None));
    assert_eq!(method("", 0), Ok(None));
}

#[test]
fn method_names_are_matched_letter_for_letter() {
    assert_eq!(method("Sin", 1), Ok(None));
    assert_eq!(method("SIN", 1), Ok(None));
    assert_eq!(method("sine", 1), Ok(None));
    assert_eq!(method("si", 1), Ok(None));
    assert_eq!(method("sín", 1), Ok(None));
}

#[test]
fn lookup_knows_sin_alone() {
    assert_eq!(Function::lookup("sin"), Some(Function::Sin));
    assert_eq!(Function::lookup("tan"), None);
}
