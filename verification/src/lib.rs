//! A small dynamically-typed expression language: tokenizer, Pratt parser,
//! syntax tree and tree-walking evaluator, with machine-checked contracts.

pub mod text;
pub mod token;
pub mod lexer;
pub mod lexing;
pub mod ast;
pub mod object;
pub mod evaluator;
pub mod environment;
pub mod repl;
pub mod prompt;
pub mod grammar;
pub mod descent;
pub mod parser;
pub mod expressions;
pub mod compound;
pub mod canonical;
pub mod round_trip;
pub mod precedence;
pub mod chains;
