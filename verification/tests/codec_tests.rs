//! Tests of the instruction set: encode/decode round trips for every
//! opcode, the fixed encoded lengths, and the error cases.

use vm_cpu::memory::Address;
use vm_cpu::opcodes::{decode, encode, Comparison, Instruction, OpCode, Value};
use vm_cpu::registers::Register;

/// Encode, then decode under the produced opcode, and expect the starting
/// instruction back.
fn round_trip(inst: Instruction) {
    let (op, operands) = encode(inst);
    assert_eq!(operands.len() + 1, op.increment_amount() as usize);
    let back = decode(op, operands.as_slice()).unwrap();
    assert!(back == inst);
}

#[test]
fn round_trip_every_opcode() {
    let r = Register::R3;
    let a = Address(0xDEADBEEF);
    for v in [Value::U8(0), Value::U8(u8::MAX), Value::U16(u16::MAX), Value::U32(u32::MAX)] {
        round_trip(Instruction::MovRegNum(r, v));
        round_trip(Instruction::MovMemNum(a, v));
        round_trip(Instruction::AddRegNum(r, v));
        round_trip(Instruction::PushVal(v));
        round_trip(Instruction::CmpVal(v, v));
        round_trip(Instruction::StoreVal(a, v));
    }
    round_trip(Instruction::MovRegMem(r, a));
    round_trip(Instruction::MovRegReg(Register::IP, Register::R8));
    round_trip(Instruction::MovMemReg(a, r));
    round_trip(Instruction::AddRegReg(r, Register::R5));
    round_trip(Instruction::AddRegMem(r, a));
    round_trip(Instruction::AddMemReg(a, r));
    round_trip(Instruction::IncReg(r));
    round_trip(Instruction::IncMem(a));
    round_trip(Instruction::PushReg(r));
    round_trip(Instruction::PushMem(a));
    round_trip(Instruction::PopReg(r));
    round_trip(Instruction::CmpReg(r, Register::R4));
    round_trip(Instruction::CmpVal(Value::U16(0), Value::U16(65535)));
    round_trip(Instruction::Jump(Address(0)));
    round_trip(Instruction::JumpGe(Address(u32::MAX)));
    round_trip(Instruction::JumpGte(a));
    round_trip(Instruction::JumpLt(a));
    round_trip(Instruction::JumpLte(a));
    round_trip(Instruction::Call(a));
    round_trip(Instruction::Load(r, a));
    round_trip(Instruction::StoreReg(a, r));
    round_trip(Instruction::Interrupt(12345));
    round_trip(Instruction::InterruptReg(r));
    round_trip(Instruction::Halt);
    round_trip(Instruction::Ret);
}

#[test]
fn opcode_bytes_round_trip() {
    for b in 0..=41u8 {
        let op = OpCode::from_u8(b).unwrap();
        assert_eq!(op.code(), b);
    }
    assert!(matches!(
        OpCode::from_u8(42),
        Err(vm_cpu::opcodes::Error::InvalidOpCode(42))
    ));
}

#[test]
fn increment_amounts() {
    assert_eq!(OpCode::MovRegU8.increment_amount(), 3);
    assert_eq!(OpCode::MovRegU32.increment_amount(), 6);
    assert_eq!(OpCode::MovMemU32.increment_amount(), 9);
    assert_eq!(OpCode::PushReg.increment_amount(), 2);
    assert_eq!(OpCode::Jump.increment_amount(), 5);
    assert_eq!(OpCode::StoreU8.increment_amount(), 6);
    assert_eq!(OpCode::Halt.increment_amount(), 1);
    assert_eq!(OpCode::Ret.increment_amount(), 1);
}

#[test]
fn decode_rejects_bad_register_bytes() {
    let (op, mut operands) = encode(Instruction::MovRegReg(Register::R1, Register::R2));
    operands[0] = 200;
    assert!(matches!(
        decode(op, operands.as_slice()),
        Err(vm_cpu::registers::Error::InvalidRegister(200))
    ));
}

#[test]
fn comparison_bytes() {
    assert!(Comparison::from_u8(0).unwrap() == Comparison::Eq);
    assert!(Comparison::from_u8(4).unwrap() == Comparison::Gt);
    assert!(Comparison::from_u8(5).unwrap() == Comparison::Gte);
    assert!(matches!(
        Comparison::from_u8(6),
        Err(vm_cpu::opcodes::Error::InvalidComparison(6))
    ));
}

#[test]
fn value_widths() {
    assert_eq!(Value::U8(9).as_u32(), 9);
    assert_eq!(Value::U16(999).as_u32(), 999);
    assert_eq!(Value::U32(99999).as_u32(), 99999);
}
