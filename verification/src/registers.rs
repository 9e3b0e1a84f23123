//! The register file: a fixed set of 32-bit named registers (instruction
//! pointer, stack pointer, frame pointer, eight general-purpose registers),
//! indexable by register identifier.

use vstd::prelude::*;

verus! {

/// Errors of the register layer: an operand byte that names no register, or
/// a register name that no register carries.
#[derive(Debug)]
pub enum Error {
    InvalidRegister(u8),
    InvalidConversion(String),
}

/// A register identifier.  It never holds data itself; it names a slot in
/// the register file.
#[derive(Clone, Copy, Debug, PartialEq, Eq, Structural)]
pub enum Register {
    IP,
    SP,
    FP,
    R1,
    R2,
    R3,
    R4,
    R5,
    R6,
    R7,
    R8,
}

/// How many registers the register file holds.
pub const REGISTER_COUNT: usize = 11;

/// The 8-bit encoding of a register identifier, for use inside instruction
/// bytes.
pub open spec fn spec_register_code(r: Register) -> u8 {
    match r {
        Register::IP => 0,
        Register::SP => 1,
        Register::FP => 2,
        Register::R1 => 3,
        Register::R2 => 4,
        Register::R3 => 5,
        Register::R4 => 6,
        Register::R5 => 7,
        Register::R6 => 8,
        Register::R7 => 9,
        Register::R8 => 10,
    }
}

/// The register a byte encodes, if any.
pub open spec fn spec_register_from_u8(value: u8) -> Option<Register> {
    if value == 0 {
        Some(Register::IP)
    } else if value == 1 {
        Some(Register::SP)
    } else if value == 2 {
        Some(Register::FP)
    } else if value == 3 {
        Some(Register::R1)
    } else if value == 4 {
        Some(Register::R2)
    } else if value == 5 {
        Some(Register::R3)
    } else if value == 6 {
        Some(Register::R4)
    } else if value == 7 {
        Some(Register::R5)
    } else if value == 8 {
        Some(Register::R6)
    } else if value == 9 {
        Some(Register::R7)
    } else if value == 10 {
        Some(Register::R8)
    } else {
        None
    }
}

/// Decoding a register operand byte: the register it encodes, or
/// `InvalidRegister` carrying the unknown byte.
pub open spec fn spec_decode_register(value: u8) -> Result<Register, Error> {
    match spec_register_from_u8(value) {
        Some(r) => Ok(r),
        None => Err(Error::InvalidRegister(value)),
    }
}

/// The register a lower-case name denotes, if any.
pub open spec fn spec_register_from_chars(s: Seq<char>) -> Option<Register> {
    if s == "ip"@ {
        Some(Register::IP)
    } else if s == "sp"@ {
        Some(Register::SP)
    } else if s == "fp"@ {
        Some(Register::FP)
    } else if s == "r1"@ {
        Some(Register::R1)
    } else if s == "r2"@ {
        Some(Register::R2)
    } else if s == "r3"@ {
        Some(Register::R3)
    } else if s == "r4"@ {
        Some(Register::R4)
    } else if s == "r5"@ {
        Some(Register::R5)
    } else if s == "r6"@ {
        Some(Register::R6)
    } else if s == "r7"@ {
        Some(Register::R7)
    } else if s == "r8"@ {
        Some(Register::R8)
    } else {
        None
    }
}

/// Character-for-character equality of two text slices.
pub fn text_eq(a: &str, b: &str) -> (r: bool)
    ensures
        r == (a@ == b@),
{
    let n = a.unicode_len();
    if n != b.unicode_len() {
        return false;
    }
    let mut i: usize = 0;
    while i < n
        invariant
            i <= n,
            n == a@.len(),
            n == b@.len(),
            forall|k: int| 0 <= k < i ==> a@[k] == b@[k],
        decreases n - i,
    {
        if a.get_char(i) != b.get_char(i) {
            return false;
        }
        i += 1;
    }
    proof {
        assert(a@ =~= b@);
    }
    true
}

impl Register {
    /// How many registers there are.
    pub fn len() -> (n: usize)
        ensures
            n == REGISTER_COUNT,
    {
        11
    }

    /// The 8-bit encoding of this register.
    pub fn code(self) -> (c: u8)
        ensures
            c == spec_register_code(self),
    {
        match self {
            Register::IP => 0,
            Register::SP => 1,
            Register::FP => 2,
            Register::R1 => 3,
            Register::R2 => 4,
            Register::R3 => 5,
            Register::R4 => 6,
            Register::R5 => 7,
            Register::R6 => 8,
            Register::R7 => 9,
            Register::R8 => 10,
        }
    }

    /// Decode a register operand byte; `InvalidRegister` reports an unknown
    /// byte, and exactly the bytes `0..=10` decode.
    pub fn from_u8(value: u8) -> (r: Result<Register, Error>)
        ensures
            r == spec_decode_register(value),
    {
        match value {
            0 => Ok(Register::IP),
            1 => Ok(Register::SP),
            2 => Ok(Register::FP),
            3 => Ok(Register::R1),
            4 => Ok(Register::R2),
            5 => Ok(Register::R3),
            6 => Ok(Register::R4),
            7 => Ok(Register::R5),
            8 => Ok(Register::R6),
            9 => Ok(Register::R7),
            10 => Ok(Register::R8),
            _ => Err(Error::InvalidRegister(value)),
        }
    }

    /// Parse a lower-case register name such as `"r1"` or `"sp"`.
    pub fn from_str(s: &str) -> (r: Result<Register, Error>)
        ensures
            match r {
                Ok(reg) => spec_register_from_chars(s@) == Some(reg),
                Err(e) => spec_register_from_chars(s@) is None && (e
                    matches Error::InvalidConversion(t) && t@ == s@),
            },
    {
        if text_eq(s, "ip") {
            Ok(Register::IP)
        } else if text_eq(s, "sp") {
            Ok(Register::SP)
        } else if text_eq(s, "fp") {
            Ok(Register::FP)
        } else if text_eq(s, "r1") {
            Ok(Register::R1)
        } else if text_eq(s, "r2") {
            Ok(Register::R2)
        } else if text_eq(s, "r3") {
            Ok(Register::R3)
        } else if text_eq(s, "r4") {
            Ok(Register::R4)
        } else if text_eq(s, "r5") {
            Ok(Register::R5)
        } else if text_eq(s, "r6") {
            Ok(Register::R6)
        } else if text_eq(s, "r7") {
            Ok(Register::R7)
        } else if text_eq(s, "r8") {
            Ok(Register::R8)
        } else {
            Err(Error::InvalidConversion(s.to_owned()))
        }
    }
}

/// Splitting an unsigned word into its upper and lower half.
pub trait WordSize {
    type Output;

    /// The upper half, as a mathematical value.
    spec fn spec_upper(&self) -> Self::Output;

    /// The lower half, as a mathematical value.
    spec fn spec_lower(&self) -> Self::Output;

    /// The upper half of the word.
    fn upper(&self) -> (r: Self::Output)
        ensures
            r == self.spec_upper(),
    ;

    /// The lower half of the word.
    fn lower(&self) -> (r: Self::Output)
        ensures
            r == self.spec_lower(),
    ;
}

impl WordSize for u16 {
    type Output = u8;

    open spec fn spec_upper(&self) -> u8 {
        (*self / 0x100) as u8
    }

    open spec fn spec_lower(&self) -> u8 {
        (*self % 0x100) as u8
    }

    fn upper(&self) -> (r: u8) {
        (*self / 0x100) as u8
    }

    fn lower(&self) -> (r: u8) {
        (*self % 0x100) as u8
    }
}

impl WordSize for u32 {
    type Output = u16;

    open spec fn spec_upper(&self) -> u16 {
        (*self / 0x10000) as u16
    }

    open spec fn spec_lower(&self) -> u16 {
        (*self % 0x10000) as u16
    }

    fn upper(&self) -> (r: u16) {
        (*self / 0x10000) as u16
    }

    fn lower(&self) -> (r: u16) {
        (*self % 0x10000) as u16
    }
}

/// The register file: one 32-bit word per register identifier.  Its view is
/// the sequence of the register words, indexed by register code.
#[derive(Debug)]
pub struct Registers([u32; 11]);

impl View for Registers {
    type V = Seq<u32>;

    closed spec fn view(&self) -> Seq<u32> {
        self.0@
    }
}

/// A register file always holds exactly one word per register identifier.
pub broadcast proof fn lemma_registers_len(r: Registers)
    ensures
        #![trigger r@]
        r@.len() == REGISTER_COUNT,
{
}

impl Default for Registers {
    /// All registers zero, except the stack pointer, which starts at the top
    /// of the address space.
    fn default() -> (r: Self)
        ensures
            r@.len() == REGISTER_COUNT,
            r@[spec_register_code(Register::SP) as int] == u32::MAX,
            forall|k: int|
                0 <= k < r@.len() && k != spec_register_code(Register::SP) as int ==> r@[k] == 0,
    {
        let mut regs = [0u32; 11];
        regs[1] = u32::MAX;
        Registers(regs)
    }
}

impl Registers {
    /// A register file for a run: the instruction pointer at
    /// `program_start`, the stack pointer at `stack_start`, the frame
    /// pointer just under the stack pointer, everything else zero.
    pub fn new(program_start: u32, stack_start: u32) -> (r: Self)
        ensures
            r@.len() == REGISTER_COUNT,
            r@[spec_register_code(Register::IP) as int] == program_start,
            r@[spec_register_code(Register::SP) as int] == stack_start,
            r@[spec_register_code(Register::FP) as int] == vstd::wrapping::u32_specs::wrapping_sub(
                stack_start,
                2,
            ),
            forall|k: int| 3 <= k < r@.len() ==> r@[k] == 0,
    {
        let mut regs = [0u32; 11];
        regs[0] = program_start;
        regs[1] = stack_start;
        regs[2] = stack_start.wrapping_sub(2);
        Registers(regs)
    }

    /// Reset the instruction pointer to `start`.
    pub fn program_start(&mut self, start: u32)
        ensures
            final(self)@ == old(self)@.update(spec_register_code(Register::IP) as int, start),
    {
        self.0[0] = start;
    }

    /// Reset the stack pointer to `end`.
    pub fn program_end(&mut self, end: u32)
        ensures
            final(self)@ == old(self)@.update(spec_register_code(Register::SP) as int, end),
    {
        self.0[1] = end;
    }

    /// The word a register holds.
    pub fn get(&self, register: Register) -> (v: u32)
        ensures
            v == self@[spec_register_code(register) as int],
    {
        self.0[register.code() as usize]
    }

    /// Store `val` in a register.
    pub fn set(&mut self, register: Register, val: u32)
        ensures
            final(self)@ == old(self)@.update(spec_register_code(register) as int, val),
    {
        self.0[register.code() as usize] = val;
    }

    /// All register words, in register-code order.
    pub fn as_slice(&self) -> (r: &[u32; 11])
        ensures
            r@ == self@,
    {
        &self.0
    }

    /// The lower 16 bits of the word a register holds.
    pub fn get_upper(&self, register: Register) -> (r: u16)
        ensures
            r == self@[spec_register_code(register) as int] % 0x10000,
    {
        (self.0[register.code() as usize] % 0x10000) as u16
    }

    /// The upper 16 bits of the word a register holds.
    pub fn get_lower(&self, register: Register) -> (r: u16)
        ensures
            r == self@[spec_register_code(register) as int] / 0x10000,
    {
        (self.0[register.code() as usize] / 0x10000) as u16
    }
}

} // verus!
