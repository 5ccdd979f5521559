//! A table-driven lexical analyzer and a precedence-climbing expression parser.

pub mod classes;
pub mod automaton;
pub mod text;
pub mod token;
pub mod number;
pub mod lexer;
pub mod lexer_laws;
pub mod ast;
pub mod grammar;
pub mod grammar_laws;
pub mod parser;
pub mod printer;
