//! A software-emulated CPU: a register machine that executes a compact,
//! variable-length bytecode instruction set against a flat, byte-addressable
//! memory space.
//!
//! The crate is organised around the pieces of such a machine:
//! byte-addressable [`memory`], the register file in [`registers`], the
//! instruction set with its encoder and decoder in [`opcodes`], and the
//! fetch-decode-execute engine in [`cpu`].  Errors of the individual layers
//! are aggregated in [`error`], and the laws the engine obeys are proved in
//! [`laws`].  Around the core stand the text [`assembler`] and a small
//! expression [`lang`]uage front end.

pub mod assembler;
pub mod cpu;
pub mod digits;
pub mod error;
pub mod lang;
pub mod laws;
pub mod memory;
pub mod opcodes;
pub mod registers;
pub mod stack;
