//! The CPU-level error sum type: every failure of the lower layers is
//! wrapped losslessly in exactly one variant.

use crate::memory;
use crate::opcodes;
use crate::registers;
use vstd::prelude::*;

verus! {

/// A fatal condition reported by `step()` or `execute()`: a memory or
/// address-arithmetic fault, an unknown opcode byte, or an unknown register
/// byte.  `StepLimit` is reported only by the run loop, when a program has
/// executed `u64::MAX` instructions without halting.
#[derive(Debug)]
pub enum Error {
    MemError(memory::Error),
    OpCodeError(opcodes::Error),
    RegisterError(registers::Error),
    StepLimit,
}

impl From<memory::Error> for Error {
    fn from(value: memory::Error) -> (r: Self) {
        Error::MemError(value)
    }
}

impl vstd::std_specs::convert::FromSpecImpl<memory::Error> for Error {
    open spec fn obeys_from_spec() -> bool {
        true
    }

    open spec fn from_spec(value: memory::Error) -> Self {
        Error::MemError(value)
    }
}

impl From<opcodes::Error> for Error {
    fn from(value: opcodes::Error) -> (r: Self) {
        Error::OpCodeError(value)
    }
}

impl vstd::std_specs::convert::FromSpecImpl<opcodes::Error> for Error {
    open spec fn obeys_from_spec() -> bool {
        true
    }

    open spec fn from_spec(value: opcodes::Error) -> Self {
        Error::OpCodeError(value)
    }
}

impl From<registers::Error> for Error {
    fn from(value: registers::Error) -> (r: Self) {
        Error::RegisterError(value)
    }
}

impl vstd::std_specs::convert::FromSpecImpl<registers::Error> for Error {
    open spec fn obeys_from_spec() -> bool {
        true
    }

    open spec fn from_spec(value: registers::Error) -> Self {
        Error::RegisterError(value)
    }
}

} // verus!
