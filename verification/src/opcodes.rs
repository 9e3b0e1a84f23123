//! The instruction set: the mapping between a one-byte opcode, its fixed
//! total encoded length, and a decoded instruction value carrying typed
//! operands (registers, addresses, sized immediates).
//!
//! [`encode`] and [`decode`] are total, deterministic and mutually inverse
//! for well-formed instructions; [`lemma_encode_decode`] proves the round
//! trip.

use crate::memory::Address;
use crate::registers::spec_decode_register;
use crate::registers::spec_register_code;
use crate::registers::Register;
use vstd::bytes::{spec_u16_from_le_bytes, spec_u16_to_le_bytes};
use vstd::bytes::{spec_u32_from_le_bytes, spec_u32_to_le_bytes};
use vstd::bytes::{u16_from_le_bytes, u16_to_le_bytes, u32_from_le_bytes, u32_to_le_bytes};
use vstd::bytes::{lemma_auto_spec_u16_to_from_le_bytes, lemma_auto_spec_u32_to_from_le_bytes};
use vstd::prelude::*;
use vstd::slice::slice_subrange;

verus! {

/// Errors of the instruction-set layer: a byte that names no opcode, or a
/// byte that names no comparison outcome.
#[derive(Clone, Copy, Debug, PartialEq, Eq, Structural)]
pub enum Error {
    InvalidOpCode(u8),
    InvalidComparison(u8),
}

/// The instruction mnemonics.  Each opcode owns one byte value (its
/// position in this enumeration) and a fixed total encoded length.
#[derive(Clone, Copy, Debug, PartialEq, Eq, Structural)]
pub enum OpCode {
    MovRegMem,
    MovRegReg,
    MovRegU8,
    MovRegU16,
    MovRegU32,
    MovMemReg,
    MovMemU8,
    MovMemU16,
    MovMemU32,
    AddRegReg,
    AddRegMem,
    AddMemReg,
    AddRegU8,
    AddRegU16,
    AddRegU32,
    IncReg,
    IncMem,
    PushReg,
    PushMem,
    PushU8,
    PushU16,
    PushU32,
    PopReg,
    CmpReg,
    CmpU8,
    CmpU16,
    CmpU32,
    Jump,
    JumpGe,
    JumpGte,
    JumpLe,
    JumpLte,
    Call,
    Load,
    Halt,
    Ret,
    Interrupt,
    InterruptReg,
    StoreReg,
    StoreU8,
    StoreU16,
    StoreU32,
}

/// The one-byte encoding of an opcode: its position in the enumeration.
pub open spec fn spec_opcode_code(op: OpCode) -> u8 {
    match op {
        OpCode::MovRegMem => 0,
        OpCode::MovRegReg => 1,
        OpCode::MovRegU8 => 2,
        OpCode::MovRegU16 => 3,
        OpCode::MovRegU32 => 4,
        OpCode::MovMemReg => 5,
        OpCode::MovMemU8 => 6,
        OpCode::MovMemU16 => 7,
        OpCode::MovMemU32 => 8,
        OpCode::AddRegReg => 9,
        OpCode::AddRegMem => 10,
        OpCode::AddMemReg => 11,
        OpCode::AddRegU8 => 12,
        OpCode::AddRegU16 => 13,
        OpCode::AddRegU32 => 14,
        OpCode::IncReg => 15,
        OpCode::IncMem => 16,
        OpCode::PushReg => 17,
        OpCode::PushMem => 18,
        OpCode::PushU8 => 19,
        OpCode::PushU16 => 20,
        OpCode::PushU32 => 21,
        OpCode::PopReg => 22,
        OpCode::CmpReg => 23,
        OpCode::CmpU8 => 24,
        OpCode::CmpU16 => 25,
        OpCode::CmpU32 => 26,
        OpCode::Jump => 27,
        OpCode::JumpGe => 28,
        OpCode::JumpGte => 29,
        OpCode::JumpLe => 30,
        OpCode::JumpLte => 31,
        OpCode::Call => 32,
        OpCode::Load => 33,
        OpCode::Halt => 34,
        OpCode::Ret => 35,
        OpCode::Interrupt => 36,
        OpCode::InterruptReg => 37,
        OpCode::StoreReg => 38,
        OpCode::StoreU8 => 39,
        OpCode::StoreU16 => 40,
        OpCode::StoreU32 => 41,
    }
}

/// The opcode a byte encodes, if any.
pub open spec fn spec_opcode_from_u8(value: u8) -> Result<OpCode, Error> {
    if value == 0 {
        Ok(OpCode::MovRegMem)
    } else if value == 1 {
        Ok(OpCode::MovRegReg)
    } else if value == 2 {
        Ok(OpCode::MovRegU8)
    } else if value == 3 {
        Ok(OpCode::MovRegU16)
    } else if value == 4 {
        Ok(OpCode::MovRegU32)
    } else if value == 5 {
        Ok(OpCode::MovMemReg)
    } else if value == 6 {
        Ok(OpCode::MovMemU8)
    } else if value == 7 {
        Ok(OpCode::MovMemU16)
    } else if value == 8 {
        Ok(OpCode::MovMemU32)
    } else if value == 9 {
        Ok(OpCode::AddRegReg)
    } else if value == 10 {
        Ok(OpCode::AddRegMem)
    } else if value == 11 {
        Ok(OpCode::AddMemReg)
    } else if value == 12 {
        Ok(OpCode::AddRegU8)
    } else if value == 13 {
        Ok(OpCode::AddRegU16)
    } else if value == 14 {
        Ok(OpCode::AddRegU32)
    } else if value == 15 {
        Ok(OpCode::IncReg)
    } else if value == 16 {
        Ok(OpCode::IncMem)
    } else if value == 17 {
        Ok(OpCode::PushReg)
    } else if value == 18 {
        Ok(OpCode::PushMem)
    } else if value == 19 {
        Ok(OpCode::PushU8)
    } else if value == 20 {
        Ok(OpCode::PushU16)
    } else if value == 21 {
        Ok(OpCode::PushU32)
    } else if value == 22 {
        Ok(OpCode::PopReg)
    } else if value == 23 {
        Ok(OpCode::CmpReg)
    } else if value == 24 {
        Ok(OpCode::CmpU8)
    } else if value == 25 {
        Ok(OpCode::CmpU16)
    } else if value == 26 {
        Ok(OpCode::CmpU32)
    } else if value == 27 {
        Ok(OpCode::Jump)
    } else if value == 28 {
        Ok(OpCode::JumpGe)
    } else if value == 29 {
        Ok(OpCode::JumpGte)
    } else if value == 30 {
        Ok(OpCode::JumpLe)
    } else if value == 31 {
        Ok(OpCode::JumpLte)
    } else if value == 32 {
        Ok(OpCode::Call)
    } else if value == 33 {
        Ok(OpCode::Load)
    } else if value == 34 {
        Ok(OpCode::Halt)
    } else if value == 35 {
        Ok(OpCode::Ret)
    } else if value == 36 {
        Ok(OpCode::Interrupt)
    } else if value == 37 {
        Ok(OpCode::InterruptReg)
    } else if value == 38 {
        Ok(OpCode::StoreReg)
    } else if value == 39 {
        Ok(OpCode::StoreU8)
    } else if value == 40 {
        Ok(OpCode::StoreU16)
    } else if value == 41 {
        Ok(OpCode::StoreU32)
    } else {
        Err(Error::InvalidOpCode(value))
    }
}

/// The fixed total encoded length of an instruction with this opcode: the
/// opcode byte plus its operand bytes.
pub open spec fn spec_increment_amount(op: OpCode) -> u8 {
    match op {
        OpCode::MovRegMem => 6,
        OpCode::MovRegReg => 3,
        OpCode::MovRegU8 => 3,
        OpCode::MovRegU16 => 4,
        OpCode::MovRegU32 => 6,
        OpCode::MovMemReg => 6,
        OpCode::MovMemU8 => 6,
        OpCode::MovMemU16 => 7,
        OpCode::MovMemU32 => 9,
        OpCode::AddRegReg => 3,
        OpCode::AddRegMem => 6,
        OpCode::AddMemReg => 6,
        OpCode::AddRegU8 => 3,
        OpCode::AddRegU16 => 4,
        OpCode::AddRegU32 => 6,
        OpCode::IncReg => 2,
        OpCode::IncMem => 5,
        OpCode::PushReg => 2,
        OpCode::PushMem => 5,
        OpCode::PushU8 => 2,
        OpCode::PushU16 => 3,
        OpCode::PushU32 => 5,
        OpCode::PopReg => 2,
        OpCode::CmpReg => 3,
        OpCode::CmpU8 => 3,
        OpCode::CmpU16 => 5,
        OpCode::CmpU32 => 9,
        OpCode::Jump => 5,
        OpCode::JumpGe => 5,
        OpCode::JumpGte => 5,
        OpCode::JumpLe => 5,
        OpCode::JumpLte => 5,
        OpCode::Call => 5,
        OpCode::Load => 6,
        OpCode::Halt => 1,
        OpCode::Ret => 1,
        OpCode::Interrupt => 5,
        OpCode::InterruptReg => 6,
        OpCode::StoreReg => 6,
        OpCode::StoreU8 => 6,
        OpCode::StoreU16 => 7,
        OpCode::StoreU32 => 9,
    }
}

impl OpCode {
    /// The one-byte encoding of this opcode.
    pub fn code(self) -> (c: u8)
        ensures
            c == spec_opcode_code(self),
    {
        match self {
            OpCode::MovRegMem => 0,
            OpCode::MovRegReg => 1,
            OpCode::MovRegU8 => 2,
            OpCode::MovRegU16 => 3,
            OpCode::MovRegU32 => 4,
            OpCode::MovMemReg => 5,
            OpCode::MovMemU8 => 6,
            OpCode::MovMemU16 => 7,
            OpCode::MovMemU32 => 8,
            OpCode::AddRegReg => 9,
            OpCode::AddRegMem => 10,
            OpCode::AddMemReg => 11,
            OpCode::AddRegU8 => 12,
            OpCode::AddRegU16 => 13,
            OpCode::AddRegU32 => 14,
            OpCode::IncReg => 15,
            OpCode::IncMem => 16,
            OpCode::PushReg => 17,
            OpCode::PushMem => 18,
            OpCode::PushU8 => 19,
            OpCode::PushU16 => 20,
            OpCode::PushU32 => 21,
            OpCode::PopReg => 22,
            OpCode::CmpReg => 23,
            OpCode::CmpU8 => 24,
            OpCode::CmpU16 => 25,
            OpCode::CmpU32 => 26,
            OpCode::Jump => 27,
            OpCode::JumpGe => 28,
            OpCode::JumpGte => 29,
            OpCode::JumpLe => 30,
            OpCode::JumpLte => 31,
            OpCode::Call => 32,
            OpCode::Load => 33,
            OpCode::Halt => 34,
            OpCode::Ret => 35,
            OpCode::Interrupt => 36,
            OpCode::InterruptReg => 37,
            OpCode::StoreReg => 38,
            OpCode::StoreU8 => 39,
            OpCode::StoreU16 => 40,
            OpCode::StoreU32 => 41,
        }
    }

    /// Decode an opcode byte; `InvalidOpCode` reports an unknown byte, and
    /// exactly the bytes `0..=41` decode.
    pub fn from_u8(value: u8) -> (r: Result<OpCode, Error>)
        ensures
            r == spec_opcode_from_u8(value),
    {
        match value {
            0 => Ok(OpCode::MovRegMem),
            1 => Ok(OpCode::MovRegReg),
            2 => Ok(OpCode::MovRegU8),
            3 => Ok(OpCode::MovRegU16),
            4 => Ok(OpCode::MovRegU32),
            5 => Ok(OpCode::MovMemReg),
            6 => Ok(OpCode::MovMemU8),
            7 => Ok(OpCode::MovMemU16),
            8 => Ok(OpCode::MovMemU32),
            9 => Ok(OpCode::AddRegReg),
            10 => Ok(OpCode::AddRegMem),
            11 => Ok(OpCode::AddMemReg),
            12 => Ok(OpCode::AddRegU8),
            13 => Ok(OpCode::AddRegU16),
            14 => Ok(OpCode::AddRegU32),
            15 => Ok(OpCode::IncReg),
            16 => Ok(OpCode::IncMem),
            17 => Ok(OpCode::PushReg),
            18 => Ok(OpCode::PushMem),
            19 => Ok(OpCode::PushU8),
            20 => Ok(OpCode::PushU16),
            21 => Ok(OpCode::PushU32),
            22 => Ok(OpCode::PopReg),
            23 => Ok(OpCode::CmpReg),
            24 => Ok(OpCode::CmpU8),
            25 => Ok(OpCode::CmpU16),
            26 => Ok(OpCode::CmpU32),
            27 => Ok(OpCode::Jump),
            28 => Ok(OpCode::JumpGe),
            29 => Ok(OpCode::JumpGte),
            30 => Ok(OpCode::JumpLe),
            31 => Ok(OpCode::JumpLte),
            32 => Ok(OpCode::Call),
            33 => Ok(OpCode::Load),
            34 => Ok(OpCode::Halt),
            35 => Ok(OpCode::Ret),
            36 => Ok(OpCode::Interrupt),
            37 => Ok(OpCode::InterruptReg),
            38 => Ok(OpCode::StoreReg),
            39 => Ok(OpCode::StoreU8),
            40 => Ok(OpCode::StoreU16),
            41 => Ok(OpCode::StoreU32),
            _ => Err(Error::InvalidOpCode(value)),
        }
    }

    /// The fixed total encoded length of an instruction with this opcode,
    /// used both to size the operand fetch and to advance the instruction
    /// pointer.
    pub fn increment_amount(&self) -> (n: u8)
        ensures
            n == spec_increment_amount(*self),
            1 <= n <= 9,
    {
        match self {
            OpCode::MovRegMem => 6,
            OpCode::MovRegReg => 3,
            OpCode::MovRegU8 => 3,
            OpCode::MovRegU16 => 4,
            OpCode::MovRegU32 => 6,
            OpCode::MovMemReg => 6,
            OpCode::MovMemU8 => 6,
            OpCode::MovMemU16 => 7,
            OpCode::MovMemU32 => 9,
            OpCode::AddRegReg => 3,
            OpCode::AddRegMem => 6,
            OpCode::AddMemReg => 6,
            OpCode::AddRegU8 => 3,
            OpCode::AddRegU16 => 4,
            OpCode::AddRegU32 => 6,
            OpCode::IncReg => 2,
            OpCode::IncMem => 5,
            OpCode::PushReg => 2,
            OpCode::PushMem => 5,
            OpCode::PushU8 => 2,
            OpCode::PushU16 => 3,
            OpCode::PushU32 => 5,
            OpCode::PopReg => 2,
            OpCode::CmpReg => 3,
            OpCode::CmpU8 => 3,
            OpCode::CmpU16 => 5,
            OpCode::CmpU32 => 9,
            OpCode::Jump => 5,
            OpCode::JumpGe => 5,
            OpCode::JumpGte => 5,
            OpCode::JumpLe => 5,
            OpCode::JumpLte => 5,
            OpCode::Call => 5,
            OpCode::Load => 6,
            OpCode::Halt => 1,
            OpCode::Ret => 1,
            OpCode::Interrupt => 5,
            OpCode::InterruptReg => 6,
            OpCode::StoreReg => 6,
            OpCode::StoreU8 => 6,
            OpCode::StoreU16 => 7,
            OpCode::StoreU32 => 9,
        }
    }
}

/// A sized immediate: an 8-, 16- or 32-bit unsigned integer, tagged by
/// width.  The width determines how many encoded bytes follow an opcode.
#[derive(Clone, Copy, Debug, PartialEq, Eq, Structural)]
pub enum Value {
    U8(u8),
    U16(u16),
    U32(u32),
}

impl Value {
    /// The numeric value, widened to a 32-bit word.
    pub open spec fn spec_as_u32(self) -> u32 {
        match self {
            Value::U8(v) => v as u32,
            Value::U16(v) => v as u32,
            Value::U32(v) => v,
        }
    }

    /// The number of bytes this immediate occupies in an encoding.
    pub open spec fn spec_width(self) -> int {
        match self {
            Value::U8(_) => 1,
            Value::U16(_) => 2,
            Value::U32(_) => 4,
        }
    }

    /// The little-endian encoding of this immediate.
    pub open spec fn spec_bytes(self) -> Seq<u8> {
        match self {
            Value::U8(v) => seq![v],
            Value::U16(v) => spec_u16_to_le_bytes(v),
            Value::U32(v) => spec_u32_to_le_bytes(v),
        }
    }

    /// The numeric value, widened to a 32-bit word.
    pub fn as_u32(self) -> (r: u32)
        ensures
            r == self.spec_as_u32(),
    {
        match self {
            Value::U8(v) => v as u32,
            Value::U16(v) => v as u32,
            Value::U32(v) => v,
        }
    }
}

/// The outcome of the last comparison, consumed by conditional jumps.
#[derive(Clone, Copy, Debug, PartialEq, Eq, Structural)]
pub enum Comparison {
    Eq,
    Ne,
    Lt,
    Lte,
    Gt,
    Gte,
}

/// The comparison outcome a byte encodes, if any.
pub open spec fn spec_comparison_from_u8(value: u8) -> Result<Comparison, Error> {
    if value == 0 {
        Ok(Comparison::Eq)
    } else if value == 1 {
        Ok(Comparison::Ne)
    } else if value == 2 {
        Ok(Comparison::Lt)
    } else if value == 3 {
        Ok(Comparison::Lte)
    } else if value == 4 {
        Ok(Comparison::Gt)
    } else if value == 5 {
        Ok(Comparison::Gte)
    } else {
        Err(Error::InvalidComparison(value))
    }
}

impl Comparison {
    /// Decode a comparison byte; exactly the bytes `0..=5` decode.
    pub fn from_u8(value: u8) -> (r: Result<Comparison, Error>)
        ensures
            r == spec_comparison_from_u8(value),
    {
        match value {
            0 => Ok(Comparison::Eq),
            1 => Ok(Comparison::Ne),
            2 => Ok(Comparison::Lt),
            3 => Ok(Comparison::Lte),
            4 => Ok(Comparison::Gt),
            5 => Ok(Comparison::Gte),
            _ => Err(Error::InvalidComparison(value)),
        }
    }
}

/// A decoded operation with typed operands, ready for execution.  A family
/// of related opcodes collapses to one variant parameterized by a `Value`
/// width.
#[derive(Clone, Copy, Debug, PartialEq, Eq, Structural)]
pub enum Instruction {
    MovRegMem(Register, Address),
    MovRegReg(Register, Register),
    MovRegNum(Register, Value),
    MovMemReg(Address, Register),
    MovMemNum(Address, Value),
    AddRegReg(Register, Register),
    AddRegNum(Register, Value),
    AddRegMem(Register, Address),
    AddMemReg(Address, Register),
    IncReg(Register),
    IncMem(Address),
    PushReg(Register),
    PushMem(Address),
    PushVal(Value),
    PopReg(Register),
    CmpReg(Register, Register),
    CmpVal(Value, Value),
    Jump(Address),
    JumpGe(Address),
    JumpGte(Address),
    JumpLt(Address),
    JumpLte(Address),
    Call(Address),
    Load(Register, Address),
    StoreReg(Address, Register),
    StoreVal(Address, Value),
    Interrupt(u32),
    InterruptReg(Register),
    Halt,
    Ret,
}

impl Instruction {
    /// The opcode under which this instruction is encoded.
    pub open spec fn spec_opcode(self) -> OpCode {
        match self {
            Instruction::MovRegMem(_, _) => OpCode::MovRegMem,
            Instruction::MovRegReg(_, _) => OpCode::MovRegReg,
            Instruction::MovRegNum(_, v) => match v {
                Value::U8(_) => OpCode::MovRegU8,
                Value::U16(_) => OpCode::MovRegU16,
                Value::U32(_) => OpCode::MovRegU32,
            },
            Instruction::MovMemReg(_, _) => OpCode::MovMemReg,
            Instruction::MovMemNum(_, v) => match v {
                Value::U8(_) => OpCode::MovMemU8,
                Value::U16(_) => OpCode::MovMemU16,
                Value::U32(_) => OpCode::MovMemU32,
            },
            Instruction::AddRegReg(_, _) => OpCode::AddRegReg,
            Instruction::AddRegNum(_, v) => match v {
                Value::U8(_) => OpCode::AddRegU8,
                Value::U16(_) => OpCode::AddRegU16,
                Value::U32(_) => OpCode::AddRegU32,
            },
            Instruction::AddRegMem(_, _) => OpCode::AddRegMem,
            Instruction::AddMemReg(_, _) => OpCode::AddMemReg,
            Instruction::IncReg(_) => OpCode::IncReg,
            Instruction::IncMem(_) => OpCode::IncMem,
            Instruction::PushReg(_) => OpCode::PushReg,
            Instruction::PushMem(_) => OpCode::PushMem,
            Instruction::PushVal(v) => match v {
                Value::U8(_) => OpCode::PushU8,
                Value::U16(_) => OpCode::PushU16,
                Value::U32(_) => OpCode::PushU32,
            },
            Instruction::PopReg(_) => OpCode::PopReg,
            Instruction::CmpReg(_, _) => OpCode::CmpReg,
            Instruction::CmpVal(v, _) => match v {
                Value::U8(_) => OpCode::CmpU8,
                Value::U16(_) => OpCode::CmpU16,
                Value::U32(_) => OpCode::CmpU32,
            },
            Instruction::Jump(_) => OpCode::Jump,
            Instruction::JumpGe(_) => OpCode::JumpGe,
            Instruction::JumpGte(_) => OpCode::JumpGte,
            Instruction::JumpLt(_) => OpCode::JumpLe,
            Instruction::JumpLte(_) => OpCode::JumpLte,
            Instruction::Call(_) => OpCode::Call,
            Instruction::Load(_, _) => OpCode::Load,
            Instruction::StoreReg(_, _) => OpCode::StoreReg,
            Instruction::StoreVal(_, v) => match v {
                Value::U8(_) => OpCode::StoreU8,
                Value::U16(_) => OpCode::StoreU16,
                Value::U32(_) => OpCode::StoreU32,
            },
            Instruction::Interrupt(_) => OpCode::Interrupt,
            Instruction::InterruptReg(_) => OpCode::InterruptReg,
            Instruction::Halt => OpCode::Halt,
            Instruction::Ret => OpCode::Ret,
        }
    }

    /// Well-formedness: the two immediates of a value comparison carry the
    /// same width, so that the instruction has one encoding.
    pub open spec fn wf(self) -> bool {
        match self {
            Instruction::CmpVal(a, b) => a.spec_width() == b.spec_width(),
            _ => true,
        }
    }

    /// The opcode under which this instruction is encoded.
    pub fn opcode(&self) -> (op: OpCode)
        ensures
            op == self.spec_opcode(),
    {
        match *self {
            Instruction::MovRegMem(_, _) => OpCode::MovRegMem,
            Instruction::MovRegReg(_, _) => OpCode::MovRegReg,
            Instruction::MovRegNum(_, v) => match v {
                Value::U8(_) => OpCode::MovRegU8,
                Value::U16(_) => OpCode::MovRegU16,
                Value::U32(_) => OpCode::MovRegU32,
            },
            Instruction::MovMemReg(_, _) => OpCode::MovMemReg,
            Instruction::MovMemNum(_, v) => match v {
                Value::U8(_) => OpCode::MovMemU8,
                Value::U16(_) => OpCode::MovMemU16,
                Value::U32(_) => OpCode::MovMemU32,
            },
            Instruction::AddRegReg(_, _) => OpCode::AddRegReg,
            Instruction::AddRegNum(_, v) => match v {
                Value::U8(_) => OpCode::AddRegU8,
                Value::U16(_) => OpCode::AddRegU16,
                Value::U32(_) => OpCode::AddRegU32,
            },
            Instruction::AddRegMem(_, _) => OpCode::AddRegMem,
            Instruction::AddMemReg(_, _) => OpCode::AddMemReg,
            Instruction::IncReg(_) => OpCode::IncReg,
            Instruction::IncMem(_) => OpCode::IncMem,
            Instruction::PushReg(_) => OpCode::PushReg,
            Instruction::PushMem(_) => OpCode::PushMem,
            Instruction::PushVal(v) => match v {
                Value::U8(_) => OpCode::PushU8,
                Value::U16(_) => OpCode::PushU16,
                Value::U32(_) => OpCode::PushU32,
            },
            Instruction::PopReg(_) => OpCode::PopReg,
            Instruction::CmpReg(_, _) => OpCode::CmpReg,
            Instruction::CmpVal(v, _) => match v {
                Value::U8(_) => OpCode::CmpU8,
                Value::U16(_) => OpCode::CmpU16,
                Value::U32(_) => OpCode::CmpU32,
            },
            Instruction::Jump(_) => OpCode::Jump,
            Instruction::JumpGe(_) => OpCode::JumpGe,
            Instruction::JumpGte(_) => OpCode::JumpGte,
            Instruction::JumpLt(_) => OpCode::JumpLe,
            Instruction::JumpLte(_) => OpCode::JumpLte,
            Instruction::Call(_) => OpCode::Call,
            Instruction::Load(_, _) => OpCode::Load,
            Instruction::StoreReg(_, _) => OpCode::StoreReg,
            Instruction::StoreVal(_, v) => match v {
                Value::U8(_) => OpCode::StoreU8,
                Value::U16(_) => OpCode::StoreU16,
                Value::U32(_) => OpCode::StoreU32,
            },
            Instruction::Interrupt(_) => OpCode::Interrupt,
            Instruction::InterruptReg(_) => OpCode::InterruptReg,
            Instruction::Halt => OpCode::Halt,
            Instruction::Ret => OpCode::Ret,
        }
    }
}

/// The address encoded little-endian in `w[i..i+4]`.
pub open spec fn spec_addr_at(w: Seq<u8>, i: int) -> Address {
    Address(spec_u32_from_le_bytes(w.subrange(i, i + 4)))
}

/// The 16-bit word encoded little-endian in `w[i..i+2]`.
pub open spec fn spec_u16_at(w: Seq<u8>, i: int) -> u16 {
    spec_u16_from_le_bytes(w.subrange(i, i + 2))
}

/// The 32-bit word encoded little-endian in `w[i..i+4]`.
pub open spec fn spec_u32_at(w: Seq<u8>, i: int) -> u32 {
    spec_u32_from_le_bytes(w.subrange(i, i + 4))
}

/// The operand bytes of an instruction: everything after the opcode byte,
/// in the order the operands appear in memory.
pub open spec fn spec_operands(inst: Instruction) -> Seq<u8> {
    match inst {
        Instruction::MovRegMem(r, a) => seq![spec_register_code(r)] + spec_u32_to_le_bytes(a.0),
        Instruction::MovRegReg(r, r1) => seq![spec_register_code(r), spec_register_code(r1)],
        Instruction::MovRegNum(r, v) => seq![spec_register_code(r)] + v.spec_bytes(),
        Instruction::MovMemReg(a, r) => spec_u32_to_le_bytes(a.0) + seq![spec_register_code(r)],
        Instruction::MovMemNum(a, v) => spec_u32_to_le_bytes(a.0) + v.spec_bytes(),
        Instruction::AddRegReg(r, r1) => seq![spec_register_code(r), spec_register_code(r1)],
        Instruction::AddRegNum(r, v) => seq![spec_register_code(r)] + v.spec_bytes(),
        Instruction::AddRegMem(r, a) => seq![spec_register_code(r)] + spec_u32_to_le_bytes(a.0),
        Instruction::AddMemReg(a, r) => spec_u32_to_le_bytes(a.0) + seq![spec_register_code(r)],
        Instruction::IncReg(r) => seq![spec_register_code(r)],
        Instruction::IncMem(a) => spec_u32_to_le_bytes(a.0),
        Instruction::PushReg(r) => seq![spec_register_code(r)],
        Instruction::PushMem(a) => spec_u32_to_le_bytes(a.0),
        Instruction::PushVal(v) => v.spec_bytes(),
        Instruction::PopReg(r) => seq![spec_register_code(r)],
        Instruction::CmpReg(r, r1) => seq![spec_register_code(r), spec_register_code(r1)],
        Instruction::CmpVal(v, v1) => v.spec_bytes() + v1.spec_bytes(),
        Instruction::Jump(a) => spec_u32_to_le_bytes(a.0),
        Instruction::JumpGe(a) => spec_u32_to_le_bytes(a.0),
        Instruction::JumpGte(a) => spec_u32_to_le_bytes(a.0),
        Instruction::JumpLt(a) => spec_u32_to_le_bytes(a.0),
        Instruction::JumpLte(a) => spec_u32_to_le_bytes(a.0),
        Instruction::Call(a) => spec_u32_to_le_bytes(a.0),
        Instruction::Load(r, a) => seq![spec_register_code(r)] + spec_u32_to_le_bytes(a.0),
        Instruction::StoreReg(a, r) => seq![spec_register_code(r)] + spec_u32_to_le_bytes(a.0),
        Instruction::StoreVal(a, v) => spec_u32_to_le_bytes(a.0) + v.spec_bytes(),
        Instruction::Interrupt(idx) => spec_u32_to_le_bytes(idx),
        Instruction::InterruptReg(r) => seq![spec_register_code(r), 0, 0, 0, 0],
        Instruction::Halt => Seq::empty(),
        Instruction::Ret => Seq::empty(),
    }
}

/// Decoding of an operand window `w` (the bytes after the opcode byte,
/// sized to `spec_increment_amount(op) - 1`) under opcode `op`.
pub open spec fn spec_decode(w: Seq<u8>, op: OpCode) -> Result<
    Instruction,
    crate::registers::Error,
> {
    match op {
        OpCode::MovRegMem => match spec_decode_register(w[0]) {
            Ok(r) => Ok(Instruction::MovRegMem(r, spec_addr_at(w, 1))),
            Err(e) => Err(e),
        },
        OpCode::MovRegReg => match (spec_decode_register(w[0]), spec_decode_register(w[1])) {
            (Ok(r), Ok(r1)) => Ok(Instruction::MovRegReg(r, r1)),
            (Err(e), _) => Err(e),
            (_, Err(e)) => Err(e),
        },
        OpCode::MovRegU8 => match spec_decode_register(w[0]) {
            Ok(r) => Ok(Instruction::MovRegNum(r, Value::U8(w[1]))),
            Err(e) => Err(e),
        },
        OpCode::MovRegU16 => match spec_decode_register(w[0]) {
            Ok(r) => Ok(Instruction::MovRegNum(r, Value::U16(spec_u16_at(w, 1)))),
            Err(e) => Err(e),
        },
        OpCode::MovRegU32 => match spec_decode_register(w[0]) {
            Ok(r) => Ok(Instruction::MovRegNum(r, Value::U32(spec_u32_at(w, 1)))),
            Err(e) => Err(e),
        },
        OpCode::MovMemReg => match spec_decode_register(w[4]) {
            Ok(r) => Ok(Instruction::MovMemReg(spec_addr_at(w, 0), r)),
            Err(e) => Err(e),
        },
        OpCode::MovMemU8 => Ok(Instruction::MovMemNum(spec_addr_at(w, 0), Value::U8(w[4]))),
        OpCode::MovMemU16 => Ok(
            Instruction::MovMemNum(spec_addr_at(w, 0), Value::U16(spec_u16_at(w, 4))),
        ),
        OpCode::MovMemU32 => Ok(
            Instruction::MovMemNum(spec_addr_at(w, 0), Value::U32(spec_u32_at(w, 4))),
        ),
        OpCode::AddRegReg => match (spec_decode_register(w[0]), spec_decode_register(w[1])) {
            (Ok(r), Ok(r1)) => Ok(Instruction::AddRegReg(r, r1)),
            (Err(e), _) => Err(e),
            (_, Err(e)) => Err(e),
        },
        OpCode::AddRegMem => match spec_decode_register(w[0]) {
            Ok(r) => Ok(Instruction::AddRegMem(r, spec_addr_at(w, 1))),
            Err(e) => Err(e),
        },
        OpCode::AddMemReg => match spec_decode_register(w[4]) {
            Ok(r) => Ok(Instruction::AddMemReg(spec_addr_at(w, 0), r)),
            Err(e) => Err(e),
        },
        OpCode::AddRegU8 => match spec_decode_register(w[0]) {
            Ok(r) => Ok(Instruction::AddRegNum(r, Value::U8(w[1]))),
            Err(e) => Err(e),
        },
        OpCode::AddRegU16 => match spec_decode_register(w[0]) {
            Ok(r) => Ok(Instruction::AddRegNum(r, Value::U16(spec_u16_at(w, 1)))),
            Err(e) => Err(e),
        },
        OpCode::AddRegU32 => match spec_decode_register(w[0]) {
            Ok(r) => Ok(Instruction::AddRegNum(r, Value::U32(spec_u32_at(w, 1)))),
            Err(e) => Err(e),
        },
        OpCode::IncReg => match spec_decode_register(w[0]) {
            Ok(r) => Ok(Instruction::IncReg(r)),
            Err(e) => Err(e),
        },
        OpCode::IncMem => Ok(Instruction::IncMem(spec_addr_at(w, 0))),
        OpCode::PushReg => match spec_decode_register(w[0]) {
            Ok(r) => Ok(Instruction::PushReg(r)),
            Err(e) => Err(e),
        },
        OpCode::PushMem => Ok(Instruction::PushMem(spec_addr_at(w, 0))),
        OpCode::PushU8 => Ok(Instruction::PushVal(Value::U8(w[0]))),
        OpCode::PushU16 => Ok(Instruction::PushVal(Value::U16(spec_u16_at(w, 0)))),
        OpCode::PushU32 => Ok(Instruction::PushVal(Value::U32(spec_u32_at(w, 0)))),
        OpCode::PopReg => match spec_decode_register(w[0]) {
            Ok(r) => Ok(Instruction::PopReg(r)),
            Err(e) => Err(e),
        },
        OpCode::CmpReg => match (spec_decode_register(w[0]), spec_decode_register(w[1])) {
            (Ok(r), Ok(r1)) => Ok(Instruction::CmpReg(r, r1)),
            (Err(e), _) => Err(e),
            (_, Err(e)) => Err(e),
        },
        OpCode::CmpU8 => Ok(Instruction::CmpVal(Value::U8(w[0]), Value::U8(w[1]))),
        OpCode::CmpU16 => Ok(
            Instruction::CmpVal(Value::U16(spec_u16_at(w, 0)), Value::U16(spec_u16_at(w, 2))),
        ),
        OpCode::CmpU32 => Ok(
            Instruction::CmpVal(Value::U32(spec_u32_at(w, 0)), Value::U32(spec_u32_at(w, 4))),
        ),
        OpCode::Jump => Ok(Instruction::Jump(spec_addr_at(w, 0))),
        OpCode::JumpGe => Ok(Instruction::JumpGe(spec_addr_at(w, 0))),
        OpCode::JumpGte => Ok(Instruction::JumpGte(spec_addr_at(w, 0))),
        OpCode::JumpLe => Ok(Instruction::JumpLt(spec_addr_at(w, 0))),
        OpCode::JumpLte => Ok(Instruction::JumpLte(spec_addr_at(w, 0))),
        OpCode::Call => Ok(Instruction::Call(spec_addr_at(w, 0))),
        OpCode::Load => match spec_decode_register(w[0]) {
            Ok(r) => Ok(Instruction::Load(r, spec_addr_at(w, 1))),
            Err(e) => Err(e),
        },
        OpCode::Halt => Ok(Instruction::Halt),
        OpCode::Ret => Ok(Instruction::Ret),
        OpCode::Interrupt => Ok(Instruction::Interrupt(spec_u32_at(w, 0))),
        OpCode::InterruptReg => match spec_decode_register(w[0]) {
            Ok(r) => Ok(Instruction::InterruptReg(r)),
            Err(e) => Err(e),
        },
        OpCode::StoreReg => match spec_decode_register(w[0]) {
            Ok(r) => Ok(Instruction::StoreReg(spec_addr_at(w, 1), r)),
            Err(e) => Err(e),
        },
        OpCode::StoreU8 => Ok(Instruction::StoreVal(spec_addr_at(w, 0), Value::U8(w[4]))),
        OpCode::StoreU16 => Ok(
            Instruction::StoreVal(spec_addr_at(w, 0), Value::U16(spec_u16_at(w, 4))),
        ),
        OpCode::StoreU32 => Ok(
            Instruction::StoreVal(spec_addr_at(w, 0), Value::U32(spec_u32_at(w, 4))),
        ),
    }
}

/// Read the address encoded little-endian at `w[i..i+4]`.
fn addr_at(w: &[u8], i: usize) -> (a: Address)
    requires
        i + 4 <= w@.len() <= usize::MAX,
    ensures
        a == spec_addr_at(w@, i as int),
{
    Address(u32_from_le_bytes(slice_subrange(w, i, i + 4)))
}

/// Read the 16-bit word encoded little-endian at `w[i..i+2]`.
fn u16_at(w: &[u8], i: usize) -> (v: u16)
    requires
        i + 2 <= w@.len() <= usize::MAX,
    ensures
        v == spec_u16_at(w@, i as int),
{
    u16_from_le_bytes(slice_subrange(w, i, i + 2))
}

/// Read the 32-bit word encoded little-endian at `w[i..i+4]`.
fn u32_at(w: &[u8], i: usize) -> (v: u32)
    requires
        i + 4 <= w@.len() <= usize::MAX,
    ensures
        v == spec_u32_at(w@, i as int),
{
    u32_from_le_bytes(slice_subrange(w, i, i + 4))
}

/// Read the byte at `w[i]`.
fn byte_at(w: &[u8], i: usize) -> (b: u8)
    requires
        i < w@.len(),
    ensures
        b == w@[i as int],
{
    *vstd::slice::slice_index_get(w, i)
}

/// Decode a register operand byte at `w[i]`.
fn reg_at(w: &[u8], i: usize) -> (r: Result<Register, crate::registers::Error>)
    requires
        i < w@.len(),
    ensures
        r == spec_decode_register(w@[i as int]),
{
    Register::from_u8(byte_at(w, i))
}

/// Decode an operand window under an opcode.
///
/// The caller passes the operand window (post-opcode) sized exactly to
/// `increment_amount() - 1`; decoding never re-reads the opcode byte.  The
/// result is exactly `spec_decode`: the only failure is a register operand
/// byte that names no register.
pub fn decode(op: OpCode, operands: &[u8]) -> (r: Result<Instruction, crate::registers::Error>)
    requires
        operands@.len() == spec_increment_amount(op) - 1,
    ensures
        r == spec_decode(operands@, op),
{
    let w = operands;
    match op {
        OpCode::MovRegMem => match reg_at(w, 0) {
            Ok(r) => Ok(Instruction::MovRegMem(r, addr_at(w, 1))),
            Err(e) => Err(e),
        },
        OpCode::MovRegReg => match reg_at(w, 0) {
            Ok(r) => match reg_at(w, 1) {
                Ok(r1) => Ok(Instruction::MovRegReg(r, r1)),
                Err(e) => Err(e),
            },
            Err(e) => Err(e),
        },
        OpCode::MovRegU8 => match reg_at(w, 0) {
            Ok(r) => Ok(Instruction::MovRegNum(r, Value::U8(byte_at(w, 1)))),
            Err(e) => Err(e),
        },
        OpCode::MovRegU16 => match reg_at(w, 0) {
            Ok(r) => Ok(Instruction::MovRegNum(r, Value::U16(u16_at(w, 1)))),
            Err(e) => Err(e),
        },
        OpCode::MovRegU32 => match reg_at(w, 0) {
            Ok(r) => Ok(Instruction::MovRegNum(r, Value::U32(u32_at(w, 1)))),
            Err(e) => Err(e),
        },
        OpCode::MovMemReg => match reg_at(w, 4) {
            Ok(r) => Ok(Instruction::MovMemReg(addr_at(w, 0), r)),
            Err(e) => Err(e),
        },
        OpCode::MovMemU8 => Ok(Instruction::MovMemNum(addr_at(w, 0), Value::U8(byte_at(w, 4)))),
        OpCode::MovMemU16 => Ok(Instruction::MovMemNum(addr_at(w, 0), Value::U16(u16_at(w, 4)))),
        OpCode::MovMemU32 => Ok(Instruction::MovMemNum(addr_at(w, 0), Value::U32(u32_at(w, 4)))),
        OpCode::AddRegReg => match reg_at(w, 0) {
            Ok(r) => match reg_at(w, 1) {
                Ok(r1) => Ok(Instruction::AddRegReg(r, r1)),
                Err(e) => Err(e),
            },
            Err(e) => Err(e),
        },
        OpCode::AddRegMem => match reg_at(w, 0) {
            Ok(r) => Ok(Instruction::AddRegMem(r, addr_at(w, 1))),
            Err(e) => Err(e),
        },
        OpCode::AddMemReg => match reg_at(w, 4) {
            Ok(r) => Ok(Instruction::AddMemReg(addr_at(w, 0), r)),
            Err(e) => Err(e),
        },
        OpCode::AddRegU8 => match reg_at(w, 0) {
            Ok(r) => Ok(Instruction::AddRegNum(r, Value::U8(byte_at(w, 1)))),
            Err(e) => Err(e),
        },
        OpCode::AddRegU16 => match reg_at(w, 0) {
            Ok(r) => Ok(Instruction::AddRegNum(r, Value::U16(u16_at(w, 1)))),
            Err(e) => Err(e),
        },
        OpCode::AddRegU32 => match reg_at(w, 0) {
            Ok(r) => Ok(Instruction::AddRegNum(r, Value::U32(u32_at(w, 1)))),
            Err(e) => Err(e),
        },
        OpCode::IncReg => match reg_at(w, 0) {
            Ok(r) => Ok(Instruction::IncReg(r)),
            Err(e) => Err(e),
        },
        OpCode::IncMem => Ok(Instruction::IncMem(addr_at(w, 0))),
        OpCode::PushReg => match reg_at(w, 0) {
            Ok(r) => Ok(Instruction::PushReg(r)),
            Err(e) => Err(e),
        },
        OpCode::PushMem => Ok(Instruction::PushMem(addr_at(w, 0))),
        OpCode::PushU8 => Ok(Instruction::PushVal(Value::U8(byte_at(w, 0)))),
        OpCode::PushU16 => Ok(Instruction::PushVal(Value::U16(u16_at(w, 0)))),
        OpCode::PushU32 => Ok(Instruction::PushVal(Value::U32(u32_at(w, 0)))),
        OpCode::PopReg => match reg_at(w, 0) {
            Ok(r) => Ok(Instruction::PopReg(r)),
            Err(e) => Err(e),
        },
        OpCode::CmpReg => match reg_at(w, 0) {
            Ok(r) => match reg_at(w, 1) {
                Ok(r1) => Ok(Instruction::CmpReg(r, r1)),
                Err(e) => Err(e),
            },
            Err(e) => Err(e),
        },
        OpCode::CmpU8 => Ok(
            Instruction::CmpVal(Value::U8(byte_at(w, 0)), Value::U8(byte_at(w, 1))),
        ),
        OpCode::CmpU16 => Ok(
            Instruction::CmpVal(Value::U16(u16_at(w, 0)), Value::U16(u16_at(w, 2))),
        ),
        OpCode::CmpU32 => Ok(
            Instruction::CmpVal(Value::U32(u32_at(w, 0)), Value::U32(u32_at(w, 4))),
        ),
        OpCode::Jump => Ok(Instruction::Jump(addr_at(w, 0))),
        OpCode::JumpGe => Ok(Instruction::JumpGe(addr_at(w, 0))),
        OpCode::JumpGte => Ok(Instruction::JumpGte(addr_at(w, 0))),
        OpCode::JumpLe => Ok(Instruction::JumpLt(addr_at(w, 0))),
        OpCode::JumpLte => Ok(Instruction::JumpLte(addr_at(w, 0))),
        OpCode::Call => Ok(Instruction::Call(addr_at(w, 0))),
        OpCode::Load => match reg_at(w, 0) {
            Ok(r) => Ok(Instruction::Load(r, addr_at(w, 1))),
            Err(e) => Err(e),
        },
        OpCode::Halt => Ok(Instruction::Halt),
        OpCode::Ret => Ok(Instruction::Ret),
        OpCode::Interrupt => Ok(Instruction::Interrupt(u32_at(w, 0))),
        OpCode::InterruptReg => match reg_at(w, 0) {
            Ok(r) => Ok(Instruction::InterruptReg(r)),
            Err(e) => Err(e),
        },
        OpCode::StoreReg => match reg_at(w, 0) {
            Ok(r) => Ok(Instruction::StoreReg(addr_at(w, 1), r)),
            Err(e) => Err(e),
        },
        OpCode::StoreU8 => Ok(Instruction::StoreVal(addr_at(w, 0), Value::U8(byte_at(w, 4)))),
        OpCode::StoreU16 => Ok(Instruction::StoreVal(addr_at(w, 0), Value::U16(u16_at(w, 4)))),
        OpCode::StoreU32 => Ok(Instruction::StoreVal(addr_at(w, 0), Value::U32(u32_at(w, 4)))),
    }
}

/// Append the little-endian bytes of an address.
fn emit_addr(out: &mut Vec<u8>, a: Address)
    ensures
        final(out)@ == old(out)@ + spec_u32_to_le_bytes(a.0),
        final(out)@.len() == old(out)@.len() + 4,
{
    let mut b = u32_to_le_bytes(a.0);
    out.append(&mut b);
}

/// Append the little-endian bytes of an immediate.
fn emit_val(out: &mut Vec<u8>, v: Value)
    ensures
        final(out)@ == old(out)@ + v.spec_bytes(),
        final(out)@.len() == old(out)@.len() + v.spec_width(),
{
    proof {
        lemma_auto_spec_u16_to_from_le_bytes();
        lemma_auto_spec_u32_to_from_le_bytes();
    }
    match v {
        Value::U8(x) => out.push(x),
        Value::U16(x) => {
            let mut b = u16_to_le_bytes(x);
            out.append(&mut b);
        },
        Value::U32(x) => {
            let mut b = u32_to_le_bytes(x);
            out.append(&mut b);
        },
    }
}

/// Encode an instruction into its opcode and its operand bytes.
///
/// Encoding is total and deterministic; for well-formed instructions it is
/// the inverse of [`decode`] (see [`lemma_encode_decode`]) and produces
/// exactly `increment_amount() - 1` operand bytes.
#[verifier::rlimit(60)]
#[verifier::spinoff_prover]
pub fn encode(inst: Instruction) -> (r: (OpCode, Vec<u8>))
    ensures
        r.0 == inst.spec_opcode(),
        r.1@ == spec_operands(inst),
        r.1@.len() <= 8,
{
    let op = inst.opcode();
    let mut out: Vec<u8> = Vec::new();
    match inst {
        Instruction::MovRegMem(r, a) => {
            out.push(r.code());
            emit_addr(&mut out, a);
        },
        Instruction::MovRegReg(r, r1) => {
            out.push(r.code());
            out.push(r1.code());
        },
        Instruction::MovRegNum(r, v) => {
            out.push(r.code());
            emit_val(&mut out, v);
        },
        Instruction::MovMemReg(a, r) => {
            emit_addr(&mut out, a);
            out.push(r.code());
        },
        Instruction::MovMemNum(a, v) => {
            emit_addr(&mut out, a);
            emit_val(&mut out, v);
        },
        Instruction::AddRegReg(r, r1) => {
            out.push(r.code());
            out.push(r1.code());
        },
        Instruction::AddRegNum(r, v) => {
            out.push(r.code());
            emit_val(&mut out, v);
        },
        Instruction::AddRegMem(r, a) => {
            out.push(r.code());
            emit_addr(&mut out, a);
        },
        Instruction::AddMemReg(a, r) => {
            emit_addr(&mut out, a);
            out.push(r.code());
        },
        Instruction::IncReg(r) => {
            out.push(r.code());
        },
        Instruction::IncMem(a) => {
            emit_addr(&mut out, a);
        },
        Instruction::PushReg(r) => {
            out.push(r.code());
        },
        Instruction::PushMem(a) => {
            emit_addr(&mut out, a);
        },
        Instruction::PushVal(v) => {
            emit_val(&mut out, v);
        },
        Instruction::PopReg(r) => {
            out.push(r.code());
        },
        Instruction::CmpReg(r, r1) => {
            out.push(r.code());
            out.push(r1.code());
        },
        Instruction::CmpVal(v, v1) => {
            emit_val(&mut out, v);
            emit_val(&mut out, v1);
        },
        Instruction::Jump(a) => {
            emit_addr(&mut out, a);
        },
        Instruction::JumpGe(a) => {
            emit_addr(&mut out, a);
        },
        Instruction::JumpGte(a) => {
            emit_addr(&mut out, a);
        },
        Instruction::JumpLt(a) => {
            emit_addr(&mut out, a);
        },
        Instruction::JumpLte(a) => {
            emit_addr(&mut out, a);
        },
        Instruction::Call(a) => {
            emit_addr(&mut out, a);
        },
        Instruction::Load(r, a) => {
            out.push(r.code());
            emit_addr(&mut out, a);
        },
        Instruction::StoreReg(a, r) => {
            out.push(r.code());
            emit_addr(&mut out, a);
        },
        Instruction::StoreVal(a, v) => {
            emit_addr(&mut out, a);
            emit_val(&mut out, v);
        },
        Instruction::Interrupt(idx) => {
            let mut b = u32_to_le_bytes(idx);
            out.append(&mut b);
        },
        Instruction::InterruptReg(r) => {
            out.push(r.code());
            out.push(0);
            out.push(0);
            out.push(0);
            out.push(0);
        },
        Instruction::Halt => {},
        Instruction::Ret => {},
    }
    proof {
        assert(out@ =~= spec_operands(inst));
    }
    (op, out)
}

/// The operand bytes of a well-formed instruction fill its opcode's fixed
/// length exactly: one opcode byte plus `spec_operands` gives
/// `spec_increment_amount` bytes.
pub proof fn lemma_operands_len(inst: Instruction)
    requires
        inst.wf(),
    ensures
        spec_operands(inst).len() + 1 == spec_increment_amount(inst.spec_opcode()),
{
    lemma_auto_spec_u16_to_from_le_bytes();
    lemma_auto_spec_u32_to_from_le_bytes();
}

/// Round trip: decoding an encoded well-formed instruction under its own
/// opcode yields the instruction again, for all legal operand values.
pub proof fn lemma_encode_decode(inst: Instruction)
    requires
        inst.wf(),
    ensures
        spec_decode(spec_operands(inst), inst.spec_opcode()) == Ok::<
            Instruction,
            crate::registers::Error,
        >(inst),
{
    lemma_auto_spec_u16_to_from_le_bytes();
    lemma_auto_spec_u32_to_from_le_bytes();
    lemma_register_code_roundtrip();
    let w = spec_operands(inst);
    match inst {
        Instruction::MovRegMem(r, a) => {
            assert(w.subrange(1, 5) =~= spec_u32_to_le_bytes(a.0));
        },
        Instruction::MovRegReg(r, r1) => {},
        Instruction::MovRegNum(r, v) => {
            assert(w.subrange(1, 1 + v.spec_width()) =~= v.spec_bytes());
            lemma_value_at(v, w, 1);
        },
        Instruction::MovMemReg(a, r) => {
            assert(w.subrange(0, 4) =~= spec_u32_to_le_bytes(a.0));
            assert(w[4] == spec_register_code(r));
        },
        Instruction::MovMemNum(a, v) => {
            assert(w.subrange(0, 4) =~= spec_u32_to_le_bytes(a.0));
            assert(w.subrange(4, 4 + v.spec_width()) =~= v.spec_bytes());
            lemma_value_at(v, w, 4);
        },
        Instruction::AddRegReg(r, r1) => {},
        Instruction::AddRegNum(r, v) => {
            assert(w.subrange(1, 1 + v.spec_width()) =~= v.spec_bytes());
            lemma_value_at(v, w, 1);
        },
        Instruction::AddRegMem(r, a) => {
            assert(w.subrange(1, 5) =~= spec_u32_to_le_bytes(a.0));
        },
        Instruction::AddMemReg(a, r) => {
            assert(w.subrange(0, 4) =~= spec_u32_to_le_bytes(a.0));
            assert(w[4] == spec_register_code(r));
        },
        Instruction::IncReg(r) => {},
        Instruction::IncMem(a) => {
            assert(w.subrange(0, 4) =~= spec_u32_to_le_bytes(a.0));
        },
        Instruction::PushReg(r) => {},
        Instruction::PushMem(a) => {
            assert(w.subrange(0, 4) =~= spec_u32_to_le_bytes(a.0));
        },
        Instruction::PushVal(v) => {
            assert(w.subrange(0, v.spec_width()) =~= v.spec_bytes());
            lemma_value_at(v, w, 0);
        },
        Instruction::PopReg(r) => {},
        Instruction::CmpReg(r, r1) => {},
        Instruction::CmpVal(v, v1) => {
            assert(w.subrange(0, v.spec_width()) =~= v.spec_bytes());
            assert(w.subrange(v.spec_width(), v.spec_width() + v1.spec_width())
                =~= v1.spec_bytes());
            lemma_value_at(v, w, 0);
            lemma_value_at(v1, w, v.spec_width());
        },
        Instruction::Jump(a) => {
            assert(w.subrange(0, 4) =~= spec_u32_to_le_bytes(a.0));
        },
        Instruction::JumpGe(a) => {
            assert(w.subrange(0, 4) =~= spec_u32_to_le_bytes(a.0));
        },
        Instruction::JumpGte(a) => {
            assert(w.subrange(0, 4) =~= spec_u32_to_le_bytes(a.0));
        },
        Instruction::JumpLt(a) => {
            assert(w.subrange(0, 4) =~= spec_u32_to_le_bytes(a.0));
        },
        Instruction::JumpLte(a) => {
            assert(w.subrange(0, 4) =~= spec_u32_to_le_bytes(a.0));
        },
        Instruction::Call(a) => {
            assert(w.subrange(0, 4) =~= spec_u32_to_le_bytes(a.0));
        },
        Instruction::Load(r, a) => {
            assert(w.subrange(1, 5) =~= spec_u32_to_le_bytes(a.0));
        },
        Instruction::StoreReg(a, r) => {
            assert(w.subrange(1, 5) =~= spec_u32_to_le_bytes(a.0));
        },
        Instruction::StoreVal(a, v) => {
            assert(w.subrange(0, 4) =~= spec_u32_to_le_bytes(a.0));
            assert(w.subrange(4, 4 + v.spec_width()) =~= v.spec_bytes());
            lemma_value_at(v, w, 4);
        },
        Instruction::Interrupt(idx) => {
            assert(w.subrange(0, 4) =~= spec_u32_to_le_bytes(idx));
        },
        Instruction::InterruptReg(r) => {},
        Instruction::Halt => {},
        Instruction::Ret => {},
    }
}

/// Decoding a register code byte yields the register it came from.
proof fn lemma_register_code_roundtrip()
    ensures
        forall|r: Register| #[trigger] spec_decode_register(spec_register_code(r)) == Ok::<
            Register,
            crate::registers::Error,
        >(r),
{
}

/// An immediate's bytes, read back at the offset where they stand in `w`,
/// give back the immediate's value.
proof fn lemma_value_at(v: Value, w: Seq<u8>, i: int)
    requires
        0 <= i,
        i + v.spec_width() <= w.len(),
        w.subrange(i, i + v.spec_width()) == v.spec_bytes(),
    ensures
        v matches Value::U8(x) ==> w[i] == x,
        v matches Value::U16(x) ==> spec_u16_at(w, i) == x,
        v matches Value::U32(x) ==> spec_u32_at(w, i) == x,
{
    lemma_auto_spec_u16_to_from_le_bytes();
    lemma_auto_spec_u32_to_from_le_bytes();
    match v {
        Value::U8(x) => {
            assert(w.subrange(i, i + 1)[0] == w[i]);
        },
        Value::U16(x) => {
            assert(w.subrange(i, i + 2) == spec_u16_to_le_bytes(x));
            assert(spec_u16_from_le_bytes(spec_u16_to_le_bytes(x)) == x);
        },
        Value::U32(x) => {
            assert(w.subrange(i, i + 4) == spec_u32_to_le_bytes(x));
            assert(spec_u32_from_le_bytes(spec_u32_to_le_bytes(x)) == x);
        },
    }
}

} // verus!
