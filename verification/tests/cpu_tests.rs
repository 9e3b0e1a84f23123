//! Tests of the CPU execution engine: one test per instruction family, the
//! interrupt scenarios, and the halt behaviour.

use core::ops::ControlFlow;
use vm_cpu::error::Error;
use vm_cpu::memory::Error as MemError;
use vm_cpu::opcodes::Error as OpError;
use vm_cpu::registers::Error as RegError;
use vm_cpu::cpu::Cpu;
use vm_cpu::memory::{Address, CpuMemory};
use vm_cpu::opcodes::{Instruction, OpCode, Value};
use vm_cpu::registers::Register;

fn setup_cpu(bytes: &[u8]) -> Cpu {
    let mut mem = CpuMemory::default();
    mem.write_bytes(Address(0), bytes).unwrap();
    Cpu::new(mem, 0, u16::MAX as u32, Address(0))
}

#[test]
fn mov_reg_mem() {
    // MovRegMem stores the register word into memory.
    let mut cpu = setup_cpu(&[]);
    cpu.execute_instruction(Instruction::MovRegNum(Register::R2, Value::U32(0xAABBCCDD)))
        .unwrap();
    cpu.execute_instruction(Instruction::MovRegMem(Register::R2, Address(100)))
        .unwrap();
    assert_eq!(cpu.memory().read_u32(Address(100)).unwrap(), 0xAABBCCDD);
}

#[test]
fn mov_reg_reg() {
    let mut cpu = setup_cpu(&[]);
    cpu.execute_instruction(Instruction::MovRegNum(Register::R1, Value::U8(7)))
        .unwrap();
    cpu.execute_instruction(Instruction::MovRegReg(Register::R2, Register::R1))
        .unwrap();
    assert_eq!(cpu.registers().get(Register::R2), 7);
}

#[test]
fn mov_reg_num() {
    let mut cpu = setup_cpu(&[]);
    cpu.execute_instruction(Instruction::MovRegNum(Register::R3, Value::U16(513)))
        .unwrap();
    assert_eq!(cpu.registers().get(Register::R3), 513);
}

#[test]
fn mov_mem_reg() {
    // MovMemReg loads the memory word into the register.
    let mut cpu = setup_cpu(&[]);
    cpu.memory_mut().write_u32(Address(40), 99).unwrap();
    cpu.execute_instruction(Instruction::MovMemReg(Address(40), Register::R4))
        .unwrap();
    assert_eq!(cpu.registers().get(Register::R4), 99);
}

#[test]
fn mov_mem_num() {
    let mut cpu = setup_cpu(&[]);
    cpu.execute_instruction(Instruction::MovMemNum(Address(60), Value::U16(0x1234)))
        .unwrap();
    assert_eq!(cpu.memory().read_u16(Address(60)).unwrap(), 0x1234);
}

#[test]
fn add_reg_reg() {
    let mut cpu = setup_cpu(&[]);
    cpu.execute_instruction(Instruction::MovRegNum(Register::R1, Value::U8(2)))
        .unwrap();
    cpu.execute_instruction(Instruction::MovRegNum(Register::R2, Value::U8(3)))
        .unwrap();
    cpu.execute_instruction(Instruction::AddRegReg(Register::R1, Register::R2))
        .unwrap();
    assert_eq!(cpu.registers().get(Register::R1), 5);
}

#[test]
fn add_reg_num() {
    let mut cpu = setup_cpu(&[]);
    cpu.execute_instruction(Instruction::MovRegNum(Register::R1, Value::U8(2)))
        .unwrap();
    cpu.execute_instruction(Instruction::AddRegNum(Register::R1, Value::U32(40)))
        .unwrap();
    assert_eq!(cpu.registers().get(Register::R1), 42);
    // Register addition wraps at the 32-bit boundary.
    cpu.execute_instruction(Instruction::MovRegNum(Register::R2, Value::U32(u32::MAX)))
        .unwrap();
    cpu.execute_instruction(Instruction::AddRegNum(Register::R2, Value::U8(1)))
        .unwrap();
    assert_eq!(cpu.registers().get(Register::R2), 0);
}

#[test]
fn add_reg_mem() {
    let mut cpu = setup_cpu(&[]);
    cpu.memory_mut().write_u32(Address(80), 10).unwrap();
    cpu.execute_instruction(Instruction::MovRegNum(Register::R1, Value::U8(5)))
        .unwrap();
    cpu.execute_instruction(Instruction::AddRegMem(Register::R1, Address(80)))
        .unwrap();
    assert_eq!(cpu.registers().get(Register::R1), 15);
}

#[test]
fn add_mem_reg() {
    let mut cpu = setup_cpu(&[]);
    cpu.memory_mut().write_u32(Address(80), 10).unwrap();
    cpu.execute_instruction(Instruction::MovRegNum(Register::R1, Value::U8(5)))
        .unwrap();
    cpu.execute_instruction(Instruction::AddMemReg(Address(80), Register::R1))
        .unwrap();
    assert_eq!(cpu.memory().read_u32(Address(80)).unwrap(), 15);
}

#[test]
fn inc_reg() {
    let mut cpu = setup_cpu(&[]);
    cpu.execute_instruction(Instruction::IncReg(Register::R5)).unwrap();
    cpu.execute_instruction(Instruction::IncReg(Register::R5)).unwrap();
    assert_eq!(cpu.registers().get(Register::R5), 2);
}

#[test]
fn inc_mem() {
    let mut cpu = setup_cpu(&[]);
    cpu.memory_mut().write_u32(Address(50), 41).unwrap();
    cpu.execute_instruction(Instruction::IncMem(Address(50))).unwrap();
    assert_eq!(cpu.memory().read_u32(Address(50)).unwrap(), 42);
}

#[test]
fn push_reg() {
    let mut cpu = setup_cpu(&[
        2, // MovRegU8
        3, // R1
        10,
        17, // PushReg
        3,  // R1
        34, // Halt
    ]);
    cpu.execute().unwrap();
    // The least significant byte of the pushed word sits just under the
    // starting stack pointer.
    assert_eq!(
        cpu.memory().read(Address(u16::MAX as u32 - 1)).unwrap(),
        10
    );
}

#[test]
fn push_mem() {
    let mut mem = CpuMemory::default();
    let bytes = &[
        18, // PushMem
        6, 0, 0, 0, 34, // Halt at 5
        90, // the word at address 6
    ];
    mem.write_bytes(Address(0), bytes).unwrap();
    let mut cpu = Cpu::new(mem, 0, u16::MAX as u32, Address(0));
    cpu.execute().unwrap();
    assert_eq!(
        cpu.memory().read(Address(u16::MAX as u32 - 1)).unwrap(),
        90
    );
}

#[test]
fn push_val() {
    let mut cpu = setup_cpu(&[]);
    let sp0 = cpu.registers().get(Register::SP);
    cpu.execute_instruction(Instruction::PushVal(Value::U16(7))).unwrap();
    assert_eq!(cpu.registers().get(Register::SP), sp0 - 4);
    cpu.execute_instruction(Instruction::PopReg(Register::R8)).unwrap();
    assert_eq!(cpu.registers().get(Register::R8), 7);
    assert_eq!(cpu.registers().get(Register::SP), sp0);
}

#[test]
fn pop_reg() {
    // Values pop in reverse push order, and the stack pointer balances.
    let mut cpu = setup_cpu(&[]);
    let sp0 = cpu.registers().get(Register::SP);
    cpu.execute_instruction(Instruction::PushVal(Value::U32(111))).unwrap();
    cpu.execute_instruction(Instruction::PushVal(Value::U32(222))).unwrap();
    cpu.execute_instruction(Instruction::PushVal(Value::U32(333))).unwrap();
    cpu.execute_instruction(Instruction::PopReg(Register::R1)).unwrap();
    cpu.execute_instruction(Instruction::PopReg(Register::R2)).unwrap();
    cpu.execute_instruction(Instruction::PopReg(Register::R3)).unwrap();
    assert_eq!(cpu.registers().get(Register::R1), 333);
    assert_eq!(cpu.registers().get(Register::R2), 222);
    assert_eq!(cpu.registers().get(Register::R3), 111);
    assert_eq!(cpu.registers().get(Register::SP), sp0);
}

#[test]
fn cmp_reg() {
    let mut cpu = setup_cpu(&[]);
    cpu.execute_instruction(Instruction::MovRegNum(Register::R1, Value::U8(4)))
        .unwrap();
    cpu.execute_instruction(Instruction::MovRegNum(Register::R2, Value::U8(9)))
        .unwrap();
    cpu.execute_instruction(Instruction::CmpReg(Register::R1, Register::R2))
        .unwrap();
    // R1 < R2, so a less-than jump is taken and a greater-than jump is not.
    cpu.execute_instruction(Instruction::JumpGe(Address(77))).unwrap();
    assert_eq!(cpu.registers().get(Register::IP), 0);
    cpu.execute_instruction(Instruction::JumpLt(Address(77))).unwrap();
    assert_eq!(cpu.registers().get(Register::IP), 77);
}

#[test]
fn cmp_val() {
    let mut cpu = setup_cpu(&[]);
    cpu.execute_instruction(Instruction::CmpVal(Value::U8(5), Value::U8(5)))
        .unwrap();
    cpu.execute_instruction(Instruction::JumpLt(Address(50))).unwrap();
    cpu.execute_instruction(Instruction::JumpGe(Address(50))).unwrap();
    assert_eq!(cpu.registers().get(Register::IP), 0);
    cpu.execute_instruction(Instruction::CmpVal(Value::U16(9), Value::U16(3)))
        .unwrap();
    cpu.execute_instruction(Instruction::JumpGe(Address(50))).unwrap();
    assert_eq!(cpu.registers().get(Register::IP), 50);
}

#[test]
fn jump() {
    let mut cpu = setup_cpu(&[
        27, // Jump
        6, 0, 0, 0, 34, // Halt at 5
        34, // Halt at 6
    ]);
    cpu.step().unwrap();
    assert_eq!(cpu.registers().get(Register::IP), 6);
}

#[test]
fn jump_ge() {
    // JumpGe is taken exactly on a greater-than outcome.
    let mut cpu = setup_cpu(&[]);
    cpu.execute_instruction(Instruction::CmpVal(Value::U8(3), Value::U8(3)))
        .unwrap();
    cpu.execute_instruction(Instruction::JumpGe(Address(60))).unwrap();
    assert_eq!(cpu.registers().get(Register::IP), 0);
    cpu.execute_instruction(Instruction::CmpVal(Value::U8(4), Value::U8(3)))
        .unwrap();
    cpu.execute_instruction(Instruction::JumpGe(Address(60))).unwrap();
    assert_eq!(cpu.registers().get(Register::IP), 60);
}

#[test]
fn jump_gte() {
    // JumpGte is taken on a greater-than outcome, but an equal outcome
    // records Eq, which does not take it.
    let mut cpu = setup_cpu(&[]);
    cpu.execute_instruction(Instruction::CmpVal(Value::U8(4), Value::U8(3)))
        .unwrap();
    cpu.execute_instruction(Instruction::JumpGte(Address(61))).unwrap();
    assert_eq!(cpu.registers().get(Register::IP), 61);
}

#[test]
fn jump_lt() {
    let mut cpu = setup_cpu(&[]);
    cpu.execute_instruction(Instruction::CmpVal(Value::U8(2), Value::U8(3)))
        .unwrap();
    cpu.execute_instruction(Instruction::JumpLt(Address(62))).unwrap();
    assert_eq!(cpu.registers().get(Register::IP), 62);
}

#[test]
fn jump_lte() {
    let mut cpu = setup_cpu(&[]);
    cpu.execute_instruction(Instruction::CmpVal(Value::U8(2), Value::U8(3)))
        .unwrap();
    cpu.execute_instruction(Instruction::JumpLte(Address(63))).unwrap();
    assert_eq!(cpu.registers().get(Register::IP), 63);
    // An equal outcome does not take the less-than-or-equal jump.
    cpu.execute_instruction(Instruction::CmpVal(Value::U8(3), Value::U8(3)))
        .unwrap();
    cpu.execute_instruction(Instruction::JumpLte(Address(9))).unwrap();
    assert_eq!(cpu.registers().get(Register::IP), 63);
}

#[test]
fn call() {
    let mut cpu = setup_cpu(&[]);
    let sp0 = cpu.registers().get(Register::SP);
    cpu.execute_instruction(Instruction::MovRegNum(Register::R1, Value::U8(5)))
        .unwrap();
    cpu.execute_instruction(Instruction::Call(Address(200))).unwrap();
    // The call jumped, built a six-word frame and pointed FP at its base.
    assert_eq!(cpu.registers().get(Register::IP), 200);
    assert_eq!(cpu.registers().get(Register::SP), sp0 - 24);
    assert_eq!(cpu.registers().get(Register::FP), sp0 - 24);
}

#[test]
fn load() {
    let mut cpu = setup_cpu(&[]);
    cpu.memory_mut().write_u32(Address(90), 1234).unwrap();
    cpu.execute_instruction(Instruction::Load(Register::R6, Address(90)))
        .unwrap();
    assert_eq!(cpu.registers().get(Register::R6), 1234);
}

#[test]
fn store_reg() {
    let mut cpu = setup_cpu(&[
        2, // MovRegU8
        3, // R1
        9,
        38, // StoreReg
        3,  // R1
        10, 0, 0, 0, 34, // Halt
    ]);
    cpu.execute().unwrap();
    assert_eq!(cpu.memory().read_u32(Address(10)).unwrap(), 9);
}

#[test]
fn store_val() {
    let mut cpu = setup_cpu(&[
        39, // StoreU8
        5, 0, 0, 0, 10,
    ]);
    let _ = cpu.step().unwrap();
    assert!(cpu.memory().read(Address(5)).unwrap() == 10);
}

#[test]
fn interrupt() {
    // The interrupt redirects the instruction pointer through the table,
    // not by sequential advancement.
    let mut mem = CpuMemory::default();
    let bytes = &[
        36, // Interrupt
        20, 0, 0, 0, // index 20
        15, // IncReg at 5
        3,  // R1
        34, // Halt at 7
    ];
    mem.write_bytes(Address(0), bytes).unwrap();
    // Table base 10: the handler entry for index 20 sits at 30 and points
    // at the IncReg instruction.
    mem.write_u32(Address(30), 5).unwrap();
    let mut cpu = Cpu::new(mem, 0, u16::MAX as u32, Address(10));
    cpu.step().unwrap();
    assert_eq!(cpu.registers().get(Register::IP), 5);
    cpu.step().unwrap();
    assert_eq!(cpu.registers().get(Register::R1), 1);
    assert_eq!(cpu.registers().get(Register::IP), 7);
    assert!(cpu.step().unwrap() == ControlFlow::Break(()));
}

#[test]
fn interrupt_reg() {
    let mut mem = CpuMemory::default();
    let bytes = &[
        2, // MovRegU8
        3, // R1
        6, // index 6
        37, // InterruptReg at 3
        3, 0, 0, 0, 0, // R1 and padding
        15, // IncReg at 9
        3,  // R1
        34, // Halt at 11
    ];
    mem.write_bytes(Address(0), bytes).unwrap();
    // Table base 10: the entry for index 6 sits at 16 and points at the
    // IncReg instruction.
    mem.write_u32(Address(16), 9).unwrap();
    let mut cpu = Cpu::new(mem, 0, u16::MAX as u32, Address(10));
    cpu.step().unwrap();
    cpu.step().unwrap();
    assert_eq!(cpu.registers().get(Register::IP), 9);
    cpu.step().unwrap();
    assert_eq!(cpu.registers().get(Register::R1), 7);
}

#[test]
fn halt() {
    let mut cpu = setup_cpu(&[34]);
    assert!(cpu.step().unwrap() == ControlFlow::Break(()));
    // Halt is terminal: stepping again changes nothing and reports the
    // halt signal again.
    assert!(cpu.step().unwrap() == ControlFlow::Break(()));
    assert_eq!(cpu.registers().get(Register::IP), 0);
}

#[test]
fn ret() {
    // Call then Ret restores R1-R4, IP, SP and FP, whatever the callee did
    // to the general registers.
    let mut cpu = setup_cpu(&[]);
    cpu.execute_instruction(Instruction::MovRegNum(Register::R1, Value::U8(11)))
        .unwrap();
    cpu.execute_instruction(Instruction::MovRegNum(Register::R4, Value::U8(44)))
        .unwrap();
    let sp0 = cpu.registers().get(Register::SP);
    let fp0 = cpu.registers().get(Register::FP);
    cpu.execute_instruction(Instruction::Call(Address(300))).unwrap();
    // The callee scrambles the saved registers.
    cpu.execute_instruction(Instruction::MovRegNum(Register::R1, Value::U8(0)))
        .unwrap();
    cpu.execute_instruction(Instruction::IncReg(Register::R4)).unwrap();
    cpu.execute_instruction(Instruction::Ret).unwrap();
    assert_eq!(cpu.registers().get(Register::R1), 11);
    assert_eq!(cpu.registers().get(Register::R4), 44);
    assert_eq!(cpu.registers().get(Register::IP), 0);
    assert_eq!(cpu.registers().get(Register::SP), sp0);
    assert_eq!(cpu.registers().get(Register::FP), fp0);
}

#[test]
fn read_mem_u32() {
    let mut mem = CpuMemory::default();
    mem.write_bytes(Address(0), &[6, 0, 0, 0]).unwrap();
    let cpu = Cpu::new(mem, 0, u16::MAX as u32, Address(0));
    assert!(cpu.memory().read_u32(Address(0)).unwrap() == 6);
}

#[test]
fn step_advances_ip_by_increment() {
    // A non-control-flow instruction advances IP by its opcode's fixed
    // length.
    let mut cpu = setup_cpu(&[
        2, // MovRegU8 (length 3)
        3, 10, 34, // Halt
    ]);
    cpu.step().unwrap();
    assert_eq!(
        cpu.registers().get(Register::IP),
        OpCode::MovRegU8.increment_amount() as u32
    );
}

#[test]
fn invalid_opcode_is_fatal() {
    let mut cpu = setup_cpu(&[250]);
    match cpu.step() {
        Err(Error::OpCodeError(OpError::InvalidOpCode(b))) => assert_eq!(b, 250),
        other => panic!("expected an invalid-opcode fault, got {:?}", other),
    }
}

#[test]
fn invalid_register_is_fatal() {
    let mut cpu = setup_cpu(&[
        2,  // MovRegU8
        99, // no such register
        1,
    ]);
    match cpu.step() {
        Err(Error::RegisterError(RegError::InvalidRegister(b))) => assert_eq!(b, 99),
        other => panic!("expected an invalid-register fault, got {:?}", other),
    }
}

#[test]
fn out_of_bounds_store_is_fatal() {
    let mut cpu = setup_cpu(&[]);
    let r = cpu.execute_instruction(Instruction::StoreVal(Address(0x0200_0000), Value::U8(1)));
    match r {
        Err(Error::MemError(MemError::InvalidAddress(a))) => assert_eq!(a, 0x0200_0000),
        other => panic!("expected an invalid-address fault, got {:?}", other),
    }
}

#[test]
fn loader_writes_image_and_resets_ip() {
    let mut cpu = setup_cpu(&[]);
    let program = [
        Instruction::MovRegNum(Register::R1, Value::U8(40)),
        Instruction::MovRegNum(Register::R2, Value::U8(41)),
        Instruction::Halt,
    ];
    cpu.write_instructions_to_memory(&program).unwrap();
    assert_eq!(cpu.registers().get(Register::IP), 0);
    assert_eq!(cpu.memory().read(Address(0)).unwrap(), 2); // MovRegU8
    assert_eq!(cpu.memory().read(Address(6)).unwrap(), 34); // Halt
    cpu.execute().unwrap();
    assert_eq!(cpu.registers().get(Register::R1), 40);
    assert_eq!(cpu.registers().get(Register::R2), 41);
}

#[test]
fn push_reg_val() {
    let _cpu = Cpu::new(CpuMemory::default(), 0, u16::MAX as u32, Address(0));
}

#[test]
fn push_below_zero_is_stack_overflow() {
    let mut cpu = setup_cpu(&[]);
    cpu.execute_instruction(Instruction::MovRegNum(Register::SP, Value::U8(2)))
        .unwrap();
    assert!(matches!(
        cpu.execute_instruction(Instruction::PushVal(Value::U8(1))),
        Err(Error::MemError(MemError::StackOverflow))
    ));
}
