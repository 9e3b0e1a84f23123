//! A tiny expression language on top of the machine: a lexer for its
//! operator, number and identifier tokens, and a parser that folds token
//! pairs into comparison nodes.

pub mod lexer;
pub mod parser;
