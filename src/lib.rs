//! A line-oriented evaluator for a small assignment language over `i32` values.
//!
//! Each source line is split into fragments, classified into tokens and run
//! against a variable environment: a lone identifier prints its value, and
//! `name = expression` stores the value of the expression under `name`.

pub mod error;
pub mod ops;
pub mod lexer;
pub mod env;
pub mod interpreter;
pub mod laws;
pub mod tree;

pub use env::{Array, Environment, Value, Variable};
pub use error::EvalError;
pub use interpreter::Interpreter;
pub use lexer::{
    convert_token, parse_i32, parse_line, tokenize, ArithmeticOperandHead, ArithmeticOperandTail, Token,
};
pub use ops::{apply, BinaryOp};
