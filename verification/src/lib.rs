//! An evaluator front end for arithmetic expressions written as text.
//!
//! The text is cut into tokens by [`lexer::Lexer`], the tokens are read into
//! an expression tree by [`parser::Parser`], and [`method::method`] decides
//! how a named function of the tree is applied.

pub mod error;
pub mod grammar;
pub mod lexer;
pub mod method;
pub mod parser;
pub mod shapes;
pub mod token;
pub mod tree;
