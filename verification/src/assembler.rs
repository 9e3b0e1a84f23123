//! The text assembler: a lexer for register, number, address and label
//! words, an abstract-syntax layer that resolves labels to byte offsets,
//! and a parser that turns mnemonic token runs into decoded instructions
//! ready to be written into memory.

pub mod error;
pub mod parser;
pub mod program;
pub mod tokens;
