//! The assembler's error type.

use crate::assembler::tokens::Token;
use vstd::prelude::*;

verus! {

/// What stopped the assembler: an unknown mnemonic, an identifier where
/// none fits, a token out of place, an unknown register name, a malformed
/// number, or an empty source text.
#[derive(Debug)]
pub enum ParseError {
    InvalidKeyWord(String),
    InvalidIdent(String),
    InvalidToken(Token),
    InvalidRegister(String),
    InvalidNumber,
    EmptyFile,
}

} // verus!
