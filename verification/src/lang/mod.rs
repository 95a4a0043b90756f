//! Qwy Script, the command language of Qwy3: tokenizing, parsing with static typing,
//! and evaluation of programs. Programs are statically typed: a program that parses
//! only calls functions on arguments of the types they expect.

pub mod eval;
pub mod model;
pub mod parse;
pub mod soundness;
pub mod spans;
pub mod tokenize;
pub mod typing;
pub mod values;

pub use eval::{run, run_would_fail, Output};
pub use parse::{parse, ExpressionParsingError};
pub use tokenize::{can_be_tokenized, tokenize};
pub use typing::{
    Context, ExpressionTypingError, FunctionCallTypingError, TypeContext,
};
pub use values::{
    BuiltInFunctionBody, Expression, Function, FunctionBody, FunctionTypeSignature, Span, Token,
    Type, TypeConstraints, Value,
};
