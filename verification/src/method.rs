//! The named functions that an expression can call, and what a call of a
//! name with a number of arguments comes to.

use vstd::prelude::*;
use crate::error::Error;

verus! {

/// The functions that an expression can call by name.
#[derive(Debug, Clone, Copy, PartialEq, Eq, Structural)]
pub enum Function {
    /// The sine of an angle given in degrees.
    Sin,
}

impl Function {
    /// The function that is known by `name`, if one is. Names are matched
    /// letter for letter, capitals apart from small letters.
    pub open spec fn named(name: Seq<char>) -> Option<Function> {
        if name == "sin"@ {
            Some(Function::Sin)
        } else {
            None
        }
    }

    /// The number of arguments that the function takes.
    pub open spec fn spec_arity(self) -> usize {
        match self {
            Function::Sin => 1,
        }
    }

    /// The function that is known by `name`, if one is.
    pub fn lookup(name: &str) -> (function: Option<Function>)
        ensures
            function == Function::named(name@),
    {
        proof {
            reveal_strlit("sin");
        }
        if name.unicode_len() == 3 && name.get_char(0) == 's' && name.get_char(1) == 'i'
            && name.get_char(2) == 'n' {
            assert(name@ =~= "sin"@);
            Some(Function::Sin)
        } else {
            None
        }
    }

    /// The number of arguments that the function takes.
    #[verifier::when_used_as_spec(spec_arity)]
    pub fn arity(self) -> (count: usize)
        ensures
            count == self.spec_arity(),
    {
        match self {
            Function::Sin => 1,
        }
    }
}

/// What a call of `name` with `count` arguments comes to: a known function
/// that takes so many arguments is applied to them; a known function that
/// takes another number is an error; and a name that is not known is no
/// error, the call has no function and its value is zero.
pub open spec fn dispatch(name: Seq<char>, count: usize) -> Result<Option<Function>, Error> {
    match Function::named(name) {
        Some(function) => if count == function.spec_arity() {
            Ok(Some(function))
        } else {
            Err(Error::Arity(function, count))
        },
        None => Ok(None),
    }
}

/// Decides what the call of `name` with `count` arguments comes to.
pub fn method(name: &str, count: usize) -> (result: Result<Option<Function>, Error>)
    ensures
        result == dispatch(name@, count),
{
    match Function::lookup(name) {
        Some(function) => if count == function.arity() {
            Ok(Some(function))
        } else {
            Err(Error::Arity(function, count))
        },
        None => Ok(None),
    }
}

} // verus!
