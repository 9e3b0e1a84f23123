//! The CPU execution engine: it owns one register file and one memory, runs
//! the fetch-decode-execute loop, and owns the comparison flags and the
//! interrupt-table state.
//!
//! The whole machine is modelled by [`CpuView`], and every mutation of the
//! machine is specified against the spec-level transition functions in this
//! module, with [`spec_step`] describing one full fetch-decode-execute
//! cycle.

use crate::error::Error;
use crate::memory;
use crate::memory::{
    spec_get, spec_read, spec_read_u32, spec_write_bytes, Address, CpuMemory,
};
use crate::opcodes::{
    decode, spec_decode, spec_increment_amount, spec_opcode_code, spec_opcode_from_u8,
    spec_operands, Comparison, Instruction, OpCode, Value,
};
use crate::registers::{spec_register_code, Register, Registers};
use core::ops::ControlFlow;
use vstd::bytes::{spec_u32_from_le_bytes, spec_u32_to_le_bytes};
use vstd::bytes::u32_to_le_bytes;
use vstd::prelude::*;
use vstd::wrapping::u32_specs;

verus! {

broadcast use crate::registers::lemma_registers_len;

/// The comparison flags: a single field holding the outcome of the last
/// comparison, read by the conditional jumps.
#[derive(Debug)]
pub struct Flags {
    cmp: Comparison,
}

impl View for Flags {
    type V = Comparison;

    closed spec fn view(&self) -> Comparison {
        self.cmp
    }
}

impl Default for Flags {
    /// Flags start out as `Eq`.
    fn default() -> (r: Self)
        ensures
            r@ == Comparison::Eq,
    {
        Flags { cmp: Comparison::Eq }
    }
}

/// The mathematical model of the whole machine: the comparison flags, the
/// register words indexed by register code, the interrupt-table base, the
/// re-entrancy guard, the relocation base, and the memory bytes.
#[verifier::ext_equal]
pub struct CpuView {
    pub cmp: Comparison,
    pub regs: Seq<u32>,
    pub table: u32,
    pub in_interrupt: bool,
    pub base: u32,
    pub mem: Seq<u8>,
}

/// The word register `r` holds in state `s`.
pub open spec fn spec_reg(s: CpuView, r: Register) -> u32 {
    s.regs[spec_register_code(r) as int]
}

/// State `s` with register `r` set to `v`.
pub open spec fn spec_with_reg(s: CpuView, r: Register, v: u32) -> CpuView {
    CpuView { regs: s.regs.update(spec_register_code(r) as int, v), ..s }
}

/// State `s` with memory `m`.
pub open spec fn spec_with_mem(s: CpuView, m: Seq<u8>) -> CpuView {
    CpuView { mem: m, ..s }
}

/// Program-relative addressing: every address in the instruction stream is
/// resolved by adding the program-start base.  `StackOverflow` when the sum
/// leaves the 32-bit address space.
pub open spec fn spec_reloc(s: CpuView, a: u32) -> Result<u32, memory::Error> {
    if s.base + a > u32::MAX {
        Err(memory::Error::StackOverflow)
    } else {
        Ok((s.base + a) as u32)
    }
}

/// The 32-bit word a `pop` starting at stack pointer `sp` yields: `push`
/// stores the least significant byte highest, directly under the old stack
/// pointer.
pub open spec fn spec_stack_word(m: Seq<u8>, sp: u32) -> u32 {
    spec_u32_from_le_bytes(seq![m[sp + 3], m[sp + 2], m[sp + 1], m[sp as int]])
}

/// The effect of a successful push of `v`: its four little-endian bytes at
/// descending addresses starting just under the stack pointer (least
/// significant byte highest), and the stack pointer moved down by four.
pub open spec fn spec_pushed(s: CpuView, v: u32) -> CpuView {
    let sp = spec_reg(s, Register::SP);
    let b = spec_u32_to_le_bytes(v);
    let m = s.mem.update(sp - 1, b[0]).update(sp - 2, b[1]).update(sp - 3, b[2]).update(
        sp - 4,
        b[3],
    );
    spec_with_reg(spec_with_mem(s, m), Register::SP, (sp - 4) as u32)
}

/// Push `v`: write its four little-endian bytes at descending addresses
/// starting just under the stack pointer, then move the stack pointer down
/// by four.  `InvalidAddress` when the write would fall outside memory,
/// `StackOverflow` when the stack pointer would sink below zero.
pub open spec fn spec_push(s: CpuView, v: u32) -> Result<CpuView, memory::Error> {
    let sp = spec_reg(s, Register::SP);
    if sp > s.mem.len() {
        Err(memory::Error::InvalidAddress((sp - 1) as u32))
    } else if sp < 4 {
        Err(memory::Error::StackOverflow)
    } else {
        Ok(spec_pushed(s, v))
    }
}

/// Pop: read the word on top of the stack, then move the stack pointer up
/// by four.  `StackOverflow` when the stack pointer would pass `u32::MAX`,
/// `InvalidAddress` when the read falls outside memory.
pub open spec fn spec_pop(s: CpuView) -> Result<(CpuView, u32), memory::Error> {
    let sp = spec_reg(s, Register::SP);
    if sp + 4 > u32::MAX {
        Err(memory::Error::StackOverflow)
    } else if sp + 3 >= s.mem.len() {
        Err(
            memory::Error::InvalidAddress(
                if sp >= s.mem.len() {
                    sp
                } else {
                    s.mem.len() as u32
                },
            ),
        )
    } else {
        Ok((spec_with_reg(s, Register::SP, (sp + 4) as u32), spec_stack_word(s.mem, sp)))
    }
}

/// The CPU: flags, register file, interrupt-table base, re-entrancy guard,
/// program-start base, and one memory.
#[derive(Debug)]
pub struct Cpu {
    flags: Flags,
    registers: Registers,
    interrupt_table: Address,
    in_interrupt: bool,
    program_start: Address,
    memory: CpuMemory,
}

impl View for Cpu {
    type V = CpuView;

    closed spec fn view(&self) -> CpuView {
        CpuView {
            cmp: self.flags@,
            regs: self.registers@,
            table: self.interrupt_table.0,
            in_interrupt: self.in_interrupt,
            base: self.program_start.0,
            mem: self.memory@,
        }
    }
}

impl Cpu {
    /// A machine ready to run: the instruction pointer at `program_start`,
    /// the stack pointer at `stack_start`, the frame pointer two below it,
    /// the general-purpose registers zero, flags `Eq`, and the re-entrancy
    /// guard clear.
    pub fn new(
        memory: CpuMemory,
        program_start: u32,
        stack_start: u32,
        interrupt_table: Address,
    ) -> (r: Self)
        ensures
            r@.cmp == Comparison::Eq,
            r@.regs.len() == 11,
            spec_reg(r@, Register::IP) == program_start,
            spec_reg(r@, Register::SP) == stack_start,
            spec_reg(r@, Register::FP) == u32_specs::wrapping_sub(stack_start, 2),
            forall|k: int| 3 <= k < 11 ==> r@.regs[k] == 0,
            r@.table == interrupt_table.0,
            !r@.in_interrupt,
            r@.base == program_start,
            r@.mem == memory@,
    {
        Cpu {
            memory,
            registers: Registers::new(program_start, stack_start),
            interrupt_table,
            in_interrupt: false,
            program_start: Address(program_start),
            flags: Flags::default(),
        }
    }

    /// The register file.
    pub fn registers(&self) -> (r: &Registers)
        ensures
            r@ == self@.regs,
    {
        &self.registers
    }

    /// The memory.
    pub fn memory(&self) -> (r: &CpuMemory)
        ensures
            r@ == self@.mem,
    {
        &self.memory
    }

    /// The memory, for loading a program image before execution starts.
    pub fn memory_mut(&mut self) -> (r: &mut CpuMemory)
        ensures
            r@ == old(self)@.mem,
            final(self)@ == (CpuView { mem: final(r)@, ..old(self)@ }),
    {
        &mut self.memory
    }

    /// Push `val` onto the stack.  Runs of pushes balance against runs of
    /// pops: see [`crate::laws::lemma_stack_balance`].
    fn push_stack(&mut self, val: u32) -> (r: Result<(), memory::Error>)
        ensures
            match spec_push(old(self)@, val) {
                Ok(v) => r == Ok::<(), memory::Error>(()) && final(self)@ == v,
                Err(e) => r == Err::<(), memory::Error>(e) && final(self)@ == old(self)@,
            },
    {
        let sp = self.registers.get(Register::SP);
        if sp as u64 > self.memory.len() as u64 {
            return Err(memory::Error::InvalidAddress(sp - 1));
        }
        if sp < 4 {
            return Err(memory::Error::StackOverflow);
        }
        let bytes = u32_to_le_bytes(val);
        let _ = self.memory.write(Address(sp - 1), bytes[0]);
        let _ = self.memory.write(Address(sp - 2), bytes[1]);
        let _ = self.memory.write(Address(sp - 3), bytes[2]);
        let _ = self.memory.write(Address(sp - 4), bytes[3]);
        self.registers.set(Register::SP, sp - 4);
        Ok(())
    }

    /// Pop the word on top of the stack.  Against a run of pushes, pops
    /// return the pushed words last in, first out, and restore the stack
    /// pointer: see [`crate::laws::lemma_stack_balance`].
    fn pop_stack(&mut self) -> (r: Result<u32, memory::Error>)
        ensures
            match spec_pop(old(self)@) {
                Ok((v, w)) => r == Ok::<u32, memory::Error>(w) && final(self)@ == v,
                Err(e) => r == Err::<u32, memory::Error>(e) && final(self)@ == old(self)@,
            },
    {
        let sp = self.registers.get(Register::SP);
        if sp > u32::MAX - 4 {
            return Err(memory::Error::StackOverflow);
        }
        if (sp as u64) + 3 >= self.memory.len() as u64 {
            return Err(memory::Error::InvalidAddress(if sp as u64 >= self.memory.len() as u64 {
                sp
            } else {
                self.memory.len() as u32
            }));
        }
        let b0 = match self.memory.read(Address(sp + 3)) {
            Ok(b) => b,
            Err(_) => return Err(memory::Error::StackOverflow),
        };
        let b1 = match self.memory.read(Address(sp + 2)) {
            Ok(b) => b,
            Err(_) => return Err(memory::Error::StackOverflow),
        };
        let b2 = match self.memory.read(Address(sp + 1)) {
            Ok(b) => b,
            Err(_) => return Err(memory::Error::StackOverflow),
        };
        let b3 = match self.memory.read(Address(sp)) {
            Ok(b) => b,
            Err(_) => return Err(memory::Error::StackOverflow),
        };
        let mut word: Vec<u8> = Vec::new();
        word.push(b0);
        word.push(b1);
        word.push(b2);
        word.push(b3);
        proof {
            assert(word@ =~= seq![
                old(self)@.mem[sp + 3],
                old(self)@.mem[sp + 2],
                old(self)@.mem[sp + 1],
                old(self)@.mem[sp as int],
            ]);
        }
        let val = vstd::bytes::u32_from_le_bytes(word.as_slice());
        self.registers.set(Register::SP, sp + 4);
        Ok(val)
    }
}

/// Pairwise comparison of two 32-bit words, as the comparison instructions
/// record it: `Eq`, `Gt` or `Lt`.
pub open spec fn spec_compare(x: u32, y: u32) -> Comparison {
    if x == y {
        Comparison::Eq
    } else if x > y {
        Comparison::Gt
    } else {
        Comparison::Lt
    }
}

/// Reading the 32-bit word at program-relative address `a`.
pub open spec fn spec_load_u32(s: CpuView, a: u32) -> Result<u32, memory::Error> {
    match spec_reloc(s, a) {
        Err(e) => Err(e),
        Ok(t) => spec_read_u32(s.mem, t),
    }
}

/// Writing bytes `bs` at program-relative address `a`: the memory effect,
/// or the fault, of the store-style instructions.
pub open spec fn spec_store(s: CpuView, a: u32, bs: Seq<u8>) -> (CpuView, Result<bool, Error>) {
    match spec_reloc(s, a) {
        Err(e) => (s, Err(Error::MemError(e))),
        Ok(t) => match spec_write_bytes(s.mem, t, bs) {
            Err(e) => (s, Err(Error::MemError(e))),
            Ok(m) => (spec_with_mem(s, m), Ok(false)),
        },
    }
}

/// The context save of `Call` and of a first-level interrupt: push R1, R2,
/// R3, R4 and the current instruction pointer in that order, then a
/// frame-size word, and point the frame pointer at the base of the new
/// frame.  The frame-size word is the distance from the new frame pointer
/// up to the old one, so that `Ret` can restore it.
pub open spec fn spec_save(s: CpuView) -> Result<CpuView, memory::Error> {
    let sp = spec_reg(s, Register::SP);
    let fp = spec_reg(s, Register::FP);
    let ip = spec_reg(s, Register::IP);
    if sp > s.mem.len() {
        Err(memory::Error::InvalidAddress((sp - 1) as u32))
    } else if sp < 24 {
        Err(memory::Error::StackOverflow)
    } else {
        let fs = u32_specs::wrapping_sub(fp, (sp - 24) as u32);
        let s1 = spec_pushed(
            spec_pushed(
                spec_pushed(
                    spec_pushed(
                        spec_pushed(spec_pushed(s, spec_reg(s, Register::R1)), spec_reg(s, Register::R2)),
                        spec_reg(s, Register::R3),
                    ),
                    spec_reg(s, Register::R4),
                ),
                ip,
            ),
            fs,
        );
        Ok(spec_with_reg(s1, Register::FP, (sp - 24) as u32))
    }
}

/// `Call(a)`: save the caller context as a fixed six-word frame, then jump
/// to the program-relative target.  On a fault the machine is unchanged.
pub open spec fn spec_call(s: CpuView, a: u32) -> (CpuView, Result<bool, Error>) {
    match spec_reloc(s, a) {
        Err(e) => (s, Err(Error::MemError(e))),
        Ok(t) => match spec_save(s) {
            Err(e) => (s, Err(Error::MemError(e))),
            Ok(s1) => (spec_with_reg(s1, Register::IP, t), Ok(false)),
        },
    }
}

/// `Ret`: with the frame pointer at the base of a frame built by
/// [`spec_save`], restore the saved registers in reverse order, leave the
/// stack pointer above the frame, and move the frame pointer back up by the
/// saved frame size.  On a fault the machine is unchanged.
pub open spec fn spec_ret(s: CpuView) -> Result<CpuView, memory::Error> {
    let fp = spec_reg(s, Register::FP);
    if fp + 24 > u32::MAX {
        Err(memory::Error::StackOverflow)
    } else if fp + 23 >= s.mem.len() {
        Err(
            memory::Error::InvalidAddress(
                if fp >= s.mem.len() {
                    fp
                } else {
                    s.mem.len() as u32
                },
            ),
        )
    } else {
        let fs = spec_stack_word(s.mem, fp);
        let ip = spec_stack_word(s.mem, (fp + 4) as u32);
        let r4 = spec_stack_word(s.mem, (fp + 8) as u32);
        let r3 = spec_stack_word(s.mem, (fp + 12) as u32);
        let r2 = spec_stack_word(s.mem, (fp + 16) as u32);
        let r1 = spec_stack_word(s.mem, (fp + 20) as u32);
        let s1 = spec_with_reg(
            spec_with_reg(
                spec_with_reg(
                    spec_with_reg(
                        spec_with_reg(
                            spec_with_reg(s, Register::SP, (fp + 24) as u32),
                            Register::IP,
                            ip,
                        ),
                        Register::R4,
                        r4,
                    ),
                    Register::R3,
                    r3,
                ),
                Register::R2,
                r2,
            ),
            Register::R1,
            r1,
        );
        Ok(spec_with_reg(s1, Register::FP, u32_specs::wrapping_add(fp, fs)))
    }
}

/// Interrupt dispatch for index `idx`: outside an interrupt the caller
/// context is saved as by `Call`; a nested interrupt skips the save.  The
/// handler address is then read from the interrupt table at `table + idx`,
/// the re-entrancy guard is set, and the instruction pointer jumps to the
/// handler.  A failing table read after the save leaves the saved context
/// in place.
pub open spec fn spec_interrupt(s: CpuView, idx: u32) -> (CpuView, Result<(), memory::Error>) {
    if s.table + idx > u32::MAX {
        (s, Err(memory::Error::StackOverflow))
    } else {
        let ptr = (s.table + idx) as u32;
        let saved = if s.in_interrupt {
            Ok(s)
        } else {
            spec_save(s)
        };
        match saved {
            Err(e) => (s, Err(e)),
            Ok(s1) => match spec_read_u32(s1.mem, ptr) {
                Err(e) => (s1, Err(e)),
                Ok(h) => (
                    CpuView { in_interrupt: true, ..spec_with_reg(s1, Register::IP, h) },
                    Ok(()),
                ),
            },
        }
    }
}

/// One instruction's effect on the machine: the next state, and either the
/// continue/halt signal or the fault.  Every fault leaves the machine
/// unchanged, except a failing interrupt-table read after a context save.
pub open spec fn spec_exec_inst(s: CpuView, inst: Instruction) -> (CpuView, Result<bool, Error>) {
    match inst {
        Instruction::MovRegMem(r, a) => spec_store(
            s,
            a.0,
            spec_u32_to_le_bytes(spec_reg(s, r)),
        ),
        Instruction::MovRegReg(r, r1) => (spec_with_reg(s, r, spec_reg(s, r1)), Ok(false)),
        Instruction::MovRegNum(r, v) => (spec_with_reg(s, r, v.spec_as_u32()), Ok(false)),
        Instruction::MovMemReg(a, r) => match spec_load_u32(s, a.0) {
            Err(e) => (s, Err(Error::MemError(e))),
            Ok(val) => (spec_with_reg(s, r, val), Ok(false)),
        },
        Instruction::MovMemNum(a, v) => spec_store(s, a.0, v.spec_bytes()),
        Instruction::AddRegReg(r, r1) => (
            spec_with_reg(s, r, u32_specs::wrapping_add(spec_reg(s, r), spec_reg(s, r1))),
            Ok(false),
        ),
        Instruction::AddRegNum(r, v) => (
            spec_with_reg(s, r, u32_specs::wrapping_add(spec_reg(s, r), v.spec_as_u32())),
            Ok(false),
        ),
        Instruction::AddRegMem(r, a) => match spec_load_u32(s, a.0) {
            Err(e) => (s, Err(Error::MemError(e))),
            Ok(val) => (
                spec_with_reg(s, r, u32_specs::wrapping_add(spec_reg(s, r), val)),
                Ok(false),
            ),
        },
        Instruction::AddMemReg(a, r) => match spec_load_u32(s, a.0) {
            Err(e) => (s, Err(Error::MemError(e))),
            Ok(val) => spec_store(
                s,
                a.0,
                spec_u32_to_le_bytes(u32_specs::wrapping_add(val, spec_reg(s, r))),
            ),
        },
        Instruction::IncReg(r) => (
            spec_with_reg(s, r, u32_specs::wrapping_add(spec_reg(s, r), 1)),
            Ok(false),
        ),
        Instruction::IncMem(a) => match spec_load_u32(s, a.0) {
            Err(e) => (s, Err(Error::MemError(e))),
            Ok(val) => spec_store(s, a.0, spec_u32_to_le_bytes(u32_specs::wrapping_add(val, 1))),
        },
        Instruction::PushReg(r) => match spec_push(s, spec_reg(s, r)) {
            Err(e) => (s, Err(Error::MemError(e))),
            Ok(v) => (v, Ok(false)),
        },
        Instruction::PushMem(a) => match spec_load_u32(s, a.0) {
            Err(e) => (s, Err(Error::MemError(e))),
            Ok(val) => match spec_push(s, val) {
                Err(e) => (s, Err(Error::MemError(e))),
                Ok(v) => (v, Ok(false)),
            },
        },
        Instruction::PushVal(v) => match spec_push(s, v.spec_as_u32()) {
            Err(e) => (s, Err(Error::MemError(e))),
            Ok(v2) => (v2, Ok(false)),
        },
        Instruction::PopReg(r) => match spec_pop(s) {
            Err(e) => (s, Err(Error::MemError(e))),
            Ok((v, w)) => (spec_with_reg(v, r, w), Ok(false)),
        },
        Instruction::CmpReg(r, r1) => (
            CpuView { cmp: spec_compare(spec_reg(s, r), spec_reg(s, r1)), ..s },
            Ok(false),
        ),
        Instruction::CmpVal(v, v1) => (
            CpuView { cmp: spec_compare(v.spec_as_u32(), v1.spec_as_u32()), ..s },
            Ok(false),
        ),
        Instruction::Jump(a) => match spec_reloc(s, a.0) {
            Err(e) => (s, Err(Error::MemError(e))),
            Ok(t) => (spec_with_reg(s, Register::IP, t), Ok(false)),
        },
        Instruction::JumpGe(a) => if s.cmp == Comparison::Gt {
            match spec_reloc(s, a.0) {
                Err(e) => (s, Err(Error::MemError(e))),
                Ok(t) => (spec_with_reg(s, Register::IP, t), Ok(false)),
            }
        } else {
            (s, Ok(false))
        },
        Instruction::JumpGte(a) => if s.cmp == Comparison::Gt || s.cmp == Comparison::Gte {
            match spec_reloc(s, a.0) {
                Err(e) => (s, Err(Error::MemError(e))),
                Ok(t) => (spec_with_reg(s, Register::IP, t), Ok(false)),
            }
        } else {
            (s, Ok(false))
        },
        Instruction::JumpLt(a) => if s.cmp == Comparison::Lt {
            match spec_reloc(s, a.0) {
                Err(e) => (s, Err(Error::MemError(e))),
                Ok(t) => (spec_with_reg(s, Register::IP, t), Ok(false)),
            }
        } else {
            (s, Ok(false))
        },
        Instruction::JumpLte(a) => if s.cmp == Comparison::Lt || s.cmp == Comparison::Lte {
            match spec_reloc(s, a.0) {
                Err(e) => (s, Err(Error::MemError(e))),
                Ok(t) => (spec_with_reg(s, Register::IP, t), Ok(false)),
            }
        } else {
            (s, Ok(false))
        },
        Instruction::Call(a) => spec_call(s, a.0),
        Instruction::Load(r, a) => match spec_load_u32(s, a.0) {
            Err(e) => (s, Err(Error::MemError(e))),
            Ok(val) => (spec_with_reg(s, r, val), Ok(false)),
        },
        Instruction::StoreReg(a, r) => spec_store(s, a.0, spec_u32_to_le_bytes(spec_reg(s, r))),
        Instruction::StoreVal(a, v) => spec_store(s, a.0, v.spec_bytes()),
        Instruction::Interrupt(idx) => {
            let (v, res) = spec_interrupt(s, idx);
            match res {
                Err(e) => (v, Err(Error::MemError(e))),
                Ok(()) => (v, Ok(false)),
            }
        },
        Instruction::InterruptReg(r) => {
            let (v, res) = spec_interrupt(s, spec_reg(s, r));
            match res {
                Err(e) => (v, Err(Error::MemError(e))),
                Ok(()) => (v, Ok(false)),
            }
        },
        Instruction::Halt => (s, Ok(true)),
        Instruction::Ret => match spec_ret(s) {
            Err(e) => (s, Err(Error::MemError(e))),
            Ok(v) => (v, Ok(false)),
        },
    }
}

impl Cpu {
    /// Compare two words and record the outcome in the flags.
    fn set_compare(&mut self, x: u32, y: u32)
        ensures
            final(self)@ == (CpuView { cmp: spec_compare(x, y), ..old(self)@ }),
    {
        if x == y {
            self.flags.cmp = Comparison::Eq;
        } else if x > y {
            self.flags.cmp = Comparison::Gt;
        } else {
            self.flags.cmp = Comparison::Lt;
        }
    }

    /// Write an immediate at `t`, one, two or four bytes wide.
    fn write_value(&mut self, t: Address, v: Value) -> (r: Result<(), memory::Error>)
        ensures
            match spec_write_bytes(old(self)@.mem, t.0, v.spec_bytes()) {
                Ok(m) => r == Ok::<(), memory::Error>(()) && final(self)@ == spec_with_mem(
                    old(self)@,
                    m,
                ),
                Err(e) => r == Err::<(), memory::Error>(e) && final(self)@ == old(self)@,
            },
    {
        match v {
            Value::U8(num) => {
                let r = self.memory.write(t, num);
                proof {
                    if t.0 < old(self)@.mem.len() {
                        assert(old(self)@.mem.update(t.0 as int, num) =~= crate::memory::seq_overwrite(
                            old(self)@.mem,
                            t.0 as int,
                            seq![num],
                        ));
                    }
                }
                r
            },
            Value::U16(num) => self.memory.write_u16(t, num),
            Value::U32(num) => self.memory.write_u32(t, num),
        }
    }

    /// Resolve a program-relative address against the program start.
    fn reloc(&self, a: u32) -> (r: Result<Address, memory::Error>)
        ensures
            match r {
                Ok(t) => spec_reloc(self@, a) == Ok::<u32, memory::Error>(t.0),
                Err(e) => spec_reloc(self@, a) == Err::<u32, memory::Error>(e),
            },
    {
        self.program_start.offset(a)
    }

    /// Read the 32-bit word at program-relative address `a`.
    fn load_u32(&self, a: u32) -> (r: Result<u32, memory::Error>)
        ensures
            r == spec_load_u32(self@, a),
    {
        match self.reloc(a) {
            Ok(t) => self.memory.read_u32(t),
            Err(e) => Err(e),
        }
    }

    /// Save the caller context (R1-R4, the instruction pointer, and a
    /// frame-size word) as one frame, and point the frame pointer at its
    /// base.  The save happens entirely or not at all.  A frame built here
    /// is what `Ret` unwinds: see
    /// [`crate::laws::lemma_call_ret_symmetry`].
    fn save_stack(&mut self) -> (r: Result<(), memory::Error>)
        ensures
            match spec_save(old(self)@) {
                Ok(v) => r == Ok::<(), memory::Error>(()) && final(self)@ == v,
                Err(e) => r == Err::<(), memory::Error>(e) && final(self)@ == old(self)@,
            },
    {
        let sp = self.registers.get(Register::SP);
        let fp = self.registers.get(Register::FP);
        let ip = self.registers.get(Register::IP);
        if sp as u64 > self.memory.len() as u64 {
            return Err(memory::Error::InvalidAddress(sp - 1));
        }
        if sp < 24 {
            return Err(memory::Error::StackOverflow);
        }
        let r1 = self.registers.get(Register::R1);
        let r2 = self.registers.get(Register::R2);
        let r3 = self.registers.get(Register::R3);
        let r4 = self.registers.get(Register::R4);
        let fs = fp.wrapping_sub(sp - 24);
        let _ = self.push_stack(r1);
        let _ = self.push_stack(r2);
        let _ = self.push_stack(r3);
        let _ = self.push_stack(r4);
        let _ = self.push_stack(ip);
        let _ = self.push_stack(fs);
        self.registers.set(Register::FP, sp - 24);
        Ok(())
    }

    /// Unwind the frame the frame pointer points at: restore the saved
    /// registers in reverse order, leave the stack pointer above the frame,
    /// and move the frame pointer back up by the saved frame size.  The
    /// restore happens entirely or not at all.  After a `Call`, this
    /// restores the caller's R1-R4, instruction pointer, frame pointer and
    /// stack pointer, whatever the callee did meanwhile: see
    /// [`crate::laws::lemma_call_ret_symmetry`].
    #[verifier::rlimit(60)]
    fn restore_stack(&mut self) -> (r: Result<(), memory::Error>)
        ensures
            match spec_ret(old(self)@) {
                Ok(v) => r == Ok::<(), memory::Error>(()) && final(self)@ == v,
                Err(e) => r == Err::<(), memory::Error>(e) && final(self)@ == old(self)@,
            },
    {
        let fp = self.registers.get(Register::FP);
        if fp > u32::MAX - 24 {
            return Err(memory::Error::StackOverflow);
        }
        if (fp as u64) + 23 >= self.memory.len() as u64 {
            return Err(memory::Error::InvalidAddress(if fp as u64 >= self.memory.len() as u64 {
                fp
            } else {
                self.memory.len() as u32
            }));
        }
        self.registers.set(Register::SP, fp);
        proof {
            assert(spec_reg(self@, Register::SP) == fp);
        }
        let fs = match self.pop_stack() {
            Ok(w) => w,
            Err(e) => return Err(e),
        };
        let ip = match self.pop_stack() {
            Ok(w) => w,
            Err(e) => return Err(e),
        };
        let r4 = match self.pop_stack() {
            Ok(w) => w,
            Err(e) => return Err(e),
        };
        let r3 = match self.pop_stack() {
            Ok(w) => w,
            Err(e) => return Err(e),
        };
        let r2 = match self.pop_stack() {
            Ok(w) => w,
            Err(e) => return Err(e),
        };
        let r1 = match self.pop_stack() {
            Ok(w) => w,
            Err(e) => return Err(e),
        };
        self.registers.set(Register::IP, ip);
        self.registers.set(Register::R4, r4);
        self.registers.set(Register::R3, r3);
        self.registers.set(Register::R2, r2);
        self.registers.set(Register::R1, r1);
        self.registers.set(Register::FP, fp.wrapping_add(fs));
        proof {
            assert(self@.regs =~= spec_ret(old(self)@)->Ok_0.regs);
        }
        Ok(())
    }

    /// Dispatch interrupt `idx` through the interrupt table.
    fn handle_interrupt(&mut self, idx: u32) -> (r: Result<(), memory::Error>)
        ensures
            ({
                let (v, res) = spec_interrupt(old(self)@, idx);
                final(self)@ == v && r == res
            }),
    {
        let ptr = match self.interrupt_table.offset(idx) {
            Ok(p) => p,
            Err(e) => return Err(e),
        };
        if !self.in_interrupt {
            match self.save_stack() {
                Ok(()) => {},
                Err(e) => return Err(e),
            }
        }
        let handler = match self.memory.read_u32(ptr) {
            Ok(h) => h,
            Err(e) => return Err(e),
        };
        self.in_interrupt = true;
        self.registers.set(Register::IP, handler);
        Ok(())
    }

    /// Execute one decoded instruction: mutate registers, memory, flags or
    /// the instruction pointer as [`spec_exec_inst`] describes, and report
    /// `Break` exactly for `Halt`.
    #[verifier::rlimit(100)]
    #[verifier::spinoff_prover]
    pub fn execute_instruction(&mut self, inst: Instruction) -> (r: Result<
        ControlFlow<(), ()>,
        Error,
    >)
        ensures
            ({
                let (v, res) = spec_exec_inst(old(self)@, inst);
                final(self)@ == v && (match res {
                    Ok(true) => r == Ok::<ControlFlow<(), ()>, Error>(ControlFlow::Break(())),
                    Ok(false) => r == Ok::<ControlFlow<(), ()>, Error>(ControlFlow::Continue(())),
                    Err(e) => r == Err::<ControlFlow<(), ()>, Error>(e),
                })
            }),
    {
        match inst {
            Instruction::MovRegMem(register, address) => {
                let t = match self.reloc(address.0) {
                    Ok(t) => t,
                    Err(e) => return Err(Error::MemError(e)),
                };
                let v = self.registers.get(register);
                match self.memory.write_u32(t, v) {
                    Ok(()) => Ok(ControlFlow::Continue(())),
                    Err(e) => Err(Error::MemError(e)),
                }
            },
            Instruction::MovRegReg(register, register1) => {
                let v = self.registers.get(register1);
                self.registers.set(register, v);
                Ok(ControlFlow::Continue(()))
            },
            Instruction::MovRegNum(register, val) => {
                self.registers.set(register, val.as_u32());
                Ok(ControlFlow::Continue(()))
            },
            Instruction::MovMemReg(address, register) => {
                match self.load_u32(address.0) {
                    Ok(val) => {
                        self.registers.set(register, val);
                        Ok(ControlFlow::Continue(()))
                    },
                    Err(e) => Err(Error::MemError(e)),
                }
            },
            Instruction::MovMemNum(address, val) => {
                let t = match self.reloc(address.0) {
                    Ok(t) => t,
                    Err(e) => return Err(Error::MemError(e)),
                };
                match self.write_value(t, val) {
                    Ok(()) => Ok(ControlFlow::Continue(())),
                    Err(e) => Err(Error::MemError(e)),
                }
            },
            Instruction::AddRegReg(register, register1) => {
                let x = self.registers.get(register);
                let y = self.registers.get(register1);
                self.registers.set(register, x.wrapping_add(y));
                Ok(ControlFlow::Continue(()))
            },
            Instruction::AddRegNum(register, val) => {
                let x = self.registers.get(register);
                self.registers.set(register, x.wrapping_add(val.as_u32()));
                Ok(ControlFlow::Continue(()))
            },
            Instruction::AddRegMem(register, address) => {
                match self.load_u32(address.0) {
                    Ok(val) => {
                        let x = self.registers.get(register);
                        self.registers.set(register, x.wrapping_add(val));
                        Ok(ControlFlow::Continue(()))
                    },
                    Err(e) => Err(Error::MemError(e)),
                }
            },
            Instruction::AddMemReg(address, register) => {
                let val = match self.load_u32(address.0) {
                    Ok(v) => v,
                    Err(e) => return Err(Error::MemError(e)),
                };
                let t = match self.reloc(address.0) {
                    Ok(t) => t,
                    Err(e) => return Err(Error::MemError(e)),
                };
                let x = self.registers.get(register);
                match self.memory.write_u32(t, val.wrapping_add(x)) {
                    Ok(()) => Ok(ControlFlow::Continue(())),
                    Err(e) => Err(Error::MemError(e)),
                }
            },
            Instruction::IncReg(register) => {
                let x = self.registers.get(register);
                self.registers.set(register, x.wrapping_add(1));
                Ok(ControlFlow::Continue(()))
            },
            Instruction::IncMem(address) => {
                let val = match self.load_u32(address.0) {
                    Ok(v) => v,
                    Err(e) => return Err(Error::MemError(e)),
                };
                let t = match self.reloc(address.0) {
                    Ok(t) => t,
                    Err(e) => return Err(Error::MemError(e)),
                };
                match self.memory.write_u32(t, val.wrapping_add(1)) {
                    Ok(()) => Ok(ControlFlow::Continue(())),
                    Err(e) => Err(Error::MemError(e)),
                }
            },
            Instruction::PushReg(register) => {
                let v = self.registers.get(register);
                match self.push_stack(v) {
                    Ok(()) => Ok(ControlFlow::Continue(())),
                    Err(e) => Err(Error::MemError(e)),
                }
            },
            Instruction::PushMem(address) => {
                let val = match self.load_u32(address.0) {
                    Ok(v) => v,
                    Err(e) => return Err(Error::MemError(e)),
                };
                match self.push_stack(val) {
                    Ok(()) => Ok(ControlFlow::Continue(())),
                    Err(e) => Err(Error::MemError(e)),
                }
            },
            Instruction::PushVal(val) => {
                match self.push_stack(val.as_u32()) {
                    Ok(()) => Ok(ControlFlow::Continue(())),
                    Err(e) => Err(Error::MemError(e)),
                }
            },
            Instruction::PopReg(register) => {
                match self.pop_stack() {
                    Ok(val) => {
                        self.registers.set(register, val);
                        Ok(ControlFlow::Continue(()))
                    },
                    Err(e) => Err(Error::MemError(e)),
                }
            },
            Instruction::CmpReg(reg, reg1) => {
                let x = self.registers.get(reg);
                let y = self.registers.get(reg1);
                self.set_compare(x, y);
                Ok(ControlFlow::Continue(()))
            },
            Instruction::CmpVal(val, val1) => {
                self.set_compare(val.as_u32(), val1.as_u32());
                Ok(ControlFlow::Continue(()))
            },
            Instruction::Jump(address) => {
                match self.reloc(address.0) {
                    Ok(t) => {
                        self.registers.set(Register::IP, t.0);
                        Ok(ControlFlow::Continue(()))
                    },
                    Err(e) => Err(Error::MemError(e)),
                }
            },
            Instruction::JumpGe(address) => {
                if self.flags.cmp == Comparison::Gt {
                    match self.reloc(address.0) {
                        Ok(t) => {
                            self.registers.set(Register::IP, t.0);
                            Ok(ControlFlow::Continue(()))
                        },
                        Err(e) => Err(Error::MemError(e)),
                    }
                } else {
                    Ok(ControlFlow::Continue(()))
                }
            },
            Instruction::JumpGte(address) => {
                if self.flags.cmp == Comparison::Gt || self.flags.cmp == Comparison::Gte {
                    match self.reloc(address.0) {
                        Ok(t) => {
                            self.registers.set(Register::IP, t.0);
                            Ok(ControlFlow::Continue(()))
                        },
                        Err(e) => Err(Error::MemError(e)),
                    }
                } else {
                    Ok(ControlFlow::Continue(()))
                }
            },
            Instruction::JumpLt(address) => {
                if self.flags.cmp == Comparison::Lt {
                    match self.reloc(address.0) {
                        Ok(t) => {
                            self.registers.set(Register::IP, t.0);
                            Ok(ControlFlow::Continue(()))
                        },
                        Err(e) => Err(Error::MemError(e)),
                    }
                } else {
                    Ok(ControlFlow::Continue(()))
                }
            },
            Instruction::JumpLte(address) => {
                if self.flags.cmp == Comparison::Lt || self.flags.cmp == Comparison::Lte {
                    match self.reloc(address.0) {
                        Ok(t) => {
                            self.registers.set(Register::IP, t.0);
                            Ok(ControlFlow::Continue(()))
                        },
                        Err(e) => Err(Error::MemError(e)),
                    }
                } else {
                    Ok(ControlFlow::Continue(()))
                }
            },
            Instruction::Call(addr) => {
                let t = match self.reloc(addr.0) {
                    Ok(t) => t,
                    Err(e) => return Err(Error::MemError(e)),
                };
                match self.save_stack() {
                    Ok(()) => {},
                    Err(e) => return Err(Error::MemError(e)),
                }
                self.registers.set(Register::IP, t.0);
                Ok(ControlFlow::Continue(()))
            },
            Instruction::Load(register, address) => {
                match self.load_u32(address.0) {
                    Ok(val) => {
                        self.registers.set(register, val);
                        Ok(ControlFlow::Continue(()))
                    },
                    Err(e) => Err(Error::MemError(e)),
                }
            },
            Instruction::StoreReg(address, register) => {
                let t = match self.reloc(address.0) {
                    Ok(t) => t,
                    Err(e) => return Err(Error::MemError(e)),
                };
                let num = self.registers.get(register);
                match self.memory.write_u32(t, num) {
                    Ok(()) => Ok(ControlFlow::Continue(())),
                    Err(e) => Err(Error::MemError(e)),
                }
            },
            Instruction::StoreVal(address, val) => {
                let t = match self.reloc(address.0) {
                    Ok(t) => t,
                    Err(e) => return Err(Error::MemError(e)),
                };
                match self.write_value(t, val) {
                    Ok(()) => Ok(ControlFlow::Continue(())),
                    Err(e) => Err(Error::MemError(e)),
                }
            },
            Instruction::Interrupt(idx) => {
                match self.handle_interrupt(idx) {
                    Ok(()) => Ok(ControlFlow::Continue(())),
                    Err(e) => Err(Error::MemError(e)),
                }
            },
            Instruction::InterruptReg(register) => {
                let idx = self.registers.get(register);
                match self.handle_interrupt(idx) {
                    Ok(()) => Ok(ControlFlow::Continue(())),
                    Err(e) => Err(Error::MemError(e)),
                }
            },
            Instruction::Halt => Ok(ControlFlow::Break(())),
            Instruction::Ret => {
                match self.restore_stack() {
                    Ok(()) => Ok(ControlFlow::Continue(())),
                    Err(e) => Err(Error::MemError(e)),
                }
            },
        }
    }
}

/// One fetch: read the opcode byte at the instruction pointer, size the
/// operand window from the opcode, read the window, and decode it.
pub open spec fn spec_fetch(s: CpuView) -> Result<Instruction, Error> {
    let ip = spec_reg(s, Register::IP);
    match spec_read(s.mem, ip) {
        Err(e) => Err(Error::MemError(e)),
        Ok(b) => match spec_opcode_from_u8(b) {
            Err(e) => Err(Error::OpCodeError(e)),
            Ok(op) => {
                let n = spec_increment_amount(op);
                if n == 1 {
                    match spec_decode(Seq::empty(), op) {
                        Err(e) => Err(Error::RegisterError(e)),
                        Ok(i) => Ok(i),
                    }
                } else if ip + n > u32::MAX {
                    Err(Error::MemError(memory::Error::StackOverflow))
                } else {
                    match spec_get(s.mem, (ip + 1) as u32, (ip + n) as u32) {
                        Err(e) => Err(Error::MemError(e)),
                        Ok(w) => match spec_decode(w, op) {
                            Err(e) => Err(Error::RegisterError(e)),
                            Ok(i) => Ok(i),
                        },
                    }
                }
            },
        },
    }
}

/// Whether executing `inst` under flags `cmp` redirects the instruction
/// pointer itself, so that `step` must not advance it afterwards.  A
/// conditional jump redirects only when taken.
pub open spec fn spec_sets_ip(inst: Instruction, cmp: Comparison) -> bool {
    match inst {
        Instruction::Jump(_) => true,
        Instruction::JumpGe(_) => cmp == Comparison::Gt,
        Instruction::JumpGte(_) => cmp == Comparison::Gt || cmp == Comparison::Gte,
        Instruction::JumpLt(_) => cmp == Comparison::Lt,
        Instruction::JumpLte(_) => cmp == Comparison::Lt || cmp == Comparison::Lte,
        Instruction::Call(_) => true,
        Instruction::Ret => true,
        Instruction::Interrupt(_) => true,
        Instruction::InterruptReg(_) => true,
        _ => false,
    }
}

/// One full fetch-decode-execute cycle: the next machine state, and either
/// the continue/halt signal or the fault.  After an instruction that did
/// not itself set the instruction pointer, the pointer advances by the
/// opcode's fixed length; `Halt` leaves the machine untouched.
pub open spec fn spec_step(s: CpuView) -> (CpuView, Result<bool, Error>) {
    match spec_fetch(s) {
        Err(e) => (s, Err(e)),
        Ok(inst) => {
            let (v, res) = spec_exec_inst(s, inst);
            match res {
                Err(e) => (v, Err(e)),
                Ok(true) => (v, Ok(true)),
                Ok(false) => if spec_sets_ip(inst, s.cmp) {
                    (v, Ok(false))
                } else {
                    let inc = spec_increment_amount(inst.spec_opcode()) as u32;
                    (
                        spec_with_reg(
                            v,
                            Register::IP,
                            u32_specs::wrapping_add(spec_reg(v, Register::IP), inc),
                        ),
                        Ok(false),
                    )
                },
            }
        },
    }
}

/// A whole run of at most `fuel` cycles: step after step until a cycle
/// reports the halt signal (the run succeeds), a cycle faults (the run
/// fails with that fault), or the fuel is spent (the run fails with
/// `StepLimit`).  The pair is the machine's final state and the run's
/// result.
pub open spec fn spec_run(s: CpuView, fuel: nat) -> (CpuView, Result<(), Error>)
    decreases fuel,
{
    if fuel == 0 {
        (s, Err(Error::StepLimit))
    } else {
        let (v, res) = spec_step(s);
        match res {
            Ok(true) => (v, Ok(())),
            Ok(false) => spec_run(v, (fuel - 1) as nat),
            Err(e) => (v, Err(e)),
        }
    }
}

/// The flat byte image of a sequence of instructions: for each one its
/// opcode byte followed by its operand bytes.
pub open spec fn spec_image(insts: Seq<Instruction>) -> Seq<u8>
    decreases insts.len(),
{
    if insts.len() == 0 {
        Seq::empty()
    } else {
        seq![spec_opcode_code(insts[0].spec_opcode())] + spec_operands(insts[0]) + spec_image(
            insts.drop_first(),
        )
    }
}

/// The image of a sequence splits at any prefix.
proof fn lemma_image_split(insts: Seq<Instruction>, i: int)
    requires
        0 <= i <= insts.len(),
    ensures
        spec_image(insts) == spec_image(insts.take(i)) + spec_image(insts.skip(i)),
    decreases i,
{
    if i == 0 {
        assert(insts.take(0) =~= Seq::<Instruction>::empty());
        assert(insts.skip(0) =~= insts);
        assert(spec_image(insts) =~= spec_image(insts.take(0)) + spec_image(insts.skip(0)));
    } else {
        lemma_image_split(insts.drop_first(), i - 1);
        assert(insts.take(i).drop_first() =~= insts.drop_first().take(i - 1));
        assert(insts.skip(i) =~= insts.drop_first().skip(i - 1));
        assert(insts.take(i)[0] == insts[0]);
        assert(spec_image(insts) =~= spec_image(insts.take(i)) + spec_image(insts.skip(i)));
    }
}

impl Cpu {
    /// Fetch and decode the instruction at the instruction pointer.
    pub fn fetch_instruction(&self) -> (r: Result<Instruction, Error>)
        ensures
            r == spec_fetch(self@),
    {
        let ip = self.registers.get(Register::IP);
        let byte = match self.memory.read(Address(ip)) {
            Ok(b) => b,
            Err(e) => return Err(Error::MemError(e)),
        };
        let op = match OpCode::from_u8(byte) {
            Ok(o) => o,
            Err(e) => return Err(Error::OpCodeError(e)),
        };
        let n = op.increment_amount();
        if n == 1 {
            let empty: Vec<u8> = Vec::new();
            match decode(op, empty.as_slice()) {
                Ok(i) => Ok(i),
                Err(e) => Err(Error::RegisterError(e)),
            }
        } else if ip > u32::MAX - (n as u32) {
            Err(Error::MemError(memory::Error::StackOverflow))
        } else {
            let w = match self.memory.get(Address(ip + 1), Address(ip + n as u32)) {
                Ok(w) => w,
                Err(e) => return Err(Error::MemError(e)),
            };
            match decode(op, w) {
                Ok(i) => Ok(i),
                Err(e) => Err(Error::RegisterError(e)),
            }
        }
    }

    /// Whether `inst` would redirect the instruction pointer under the
    /// current flags.
    fn sets_ip(&self, inst: &Instruction) -> (b: bool)
        ensures
            b == spec_sets_ip(*inst, self@.cmp),
    {
        match *inst {
            Instruction::Jump(_) => true,
            Instruction::JumpGe(_) => self.flags.cmp == Comparison::Gt,
            Instruction::JumpGte(_) => self.flags.cmp == Comparison::Gt || self.flags.cmp
                == Comparison::Gte,
            Instruction::JumpLt(_) => self.flags.cmp == Comparison::Lt,
            Instruction::JumpLte(_) => self.flags.cmp == Comparison::Lt || self.flags.cmp
                == Comparison::Lte,
            Instruction::Call(_) => true,
            Instruction::Ret => true,
            Instruction::Interrupt(_) => true,
            Instruction::InterruptReg(_) => true,
            _ => false,
        }
    }

    /// One cycle of the engine: fetch, decode, execute, and advance the
    /// instruction pointer unless the instruction set it.  Returns the
    /// continue/halt signal, or the fault that stopped the run.  See
    /// [`crate::laws::lemma_ip_advancement`] for the advancement law and
    /// [`crate::laws::lemma_halt_terminal`] for `Halt`'s terminality.
    pub fn step(&mut self) -> (r: Result<ControlFlow<(), ()>, Error>)
        ensures
            ({
                let (v, res) = spec_step(old(self)@);
                final(self)@ == v && (match res {
                    Ok(true) => r == Ok::<ControlFlow<(), ()>, Error>(ControlFlow::Break(())),
                    Ok(false) => r == Ok::<ControlFlow<(), ()>, Error>(ControlFlow::Continue(())),
                    Err(e) => r == Err::<ControlFlow<(), ()>, Error>(e),
                })
            }),
    {
        let inst = match self.fetch_instruction() {
            Ok(i) => i,
            Err(e) => return Err(e),
        };
        let redirect = self.sets_ip(&inst);
        let flow = match self.execute_instruction(inst) {
            Ok(f) => f,
            Err(e) => return Err(e),
        };
        match flow {
            ControlFlow::Break(_) => Ok(ControlFlow::Break(())),
            ControlFlow::Continue(_) => {
                if !redirect {
                    let inc = inst.opcode().increment_amount();
                    let ip = self.registers.get(Register::IP);
                    self.registers.set(Register::IP, ip.wrapping_add(inc as u32));
                }
                Ok(ControlFlow::Continue(()))
            },
        }
    }

    /// The run loop: step until `Halt`, or until a fault ends the run.
    /// The machine ends exactly where `spec_run` from the starting state
    /// says, with the result `spec_run` says; on success it is parked on
    /// its `Halt` instruction, so stepping it again changes nothing and
    /// reports the halt again.
    pub fn execute(&mut self) -> (r: Result<(), Error>)
        ensures
            ({
                let (v, res) = spec_run(old(self)@, u64::MAX as nat);
                final(self)@ == v && r == res
            }),
            r is Ok ==> spec_step(final(self)@) == (final(self)@, Ok::<bool, Error>(true)),
    {
        let mut fuel: u64 = u64::MAX;
        while fuel > 0
            invariant
                spec_run(old(self)@, u64::MAX as nat) == spec_run(self@, fuel as nat),
            decreases fuel,
        {
            let ghost pre = self@;
            let ghost pre_fuel = fuel as nat;
            match self.step() {
                Ok(flow) => match flow {
                    ControlFlow::Continue(_) => {},
                    ControlFlow::Break(_) => {
                        proof {
                            lemma_halt_signal_means_parked(pre);
                            assert(spec_run(pre, pre_fuel) == (self@, Ok::<(), Error>(())));
                        }
                        return Ok(());
                    },
                },
                Err(e) => {
                    proof {
                        assert(spec_run(pre, pre_fuel) == (self@, Err::<(), Error>(e)));
                    }
                    return Err(e);
                },
            }
            fuel = fuel - 1;
            proof {
                assert(spec_run(pre, pre_fuel) == spec_run(self@, fuel as nat));
            }
        }
        Err(Error::StepLimit)
    }

    /// Write a program image into memory: each instruction's opcode byte
    /// and operand bytes in sequence starting at the instruction pointer,
    /// which afterwards is reset to the program start.  Success is owed
    /// exactly when the whole image fits below the end of memory and below
    /// the top of the address space.
    pub fn write_instructions_to_memory(&mut self, insts: &[Instruction]) -> (r: Result<(), Error>)
        ensures
            ({
                let ip0 = spec_reg(old(self)@, Register::IP);
                let img = spec_image(insts@);
                &&& (r is Ok <==> img.len() == 0 || (ip0 + img.len() <= old(self)@.mem.len()
                    && ip0 + img.len() <= u32::MAX))
                &&& (r is Ok ==> final(self)@ == spec_with_reg(
                    spec_with_mem(
                        old(self)@,
                        crate::memory::seq_overwrite(old(self)@.mem, ip0 as int, img),
                    ),
                    Register::IP,
                    old(self)@.base,
                ))
                &&& (r is Err ==> final(self)@.mem.len() == old(self)@.mem.len()
                    && final(self)@.cmp == old(self)@.cmp && final(self)@.base == old(self)@.base
                    && final(self)@.table == old(self)@.table && final(self)@.in_interrupt == old(
                    self,
                )@.in_interrupt)
            }),
    {
        let ghost ip0 = spec_reg(old(self)@, Register::IP);
        let ghost img = spec_image(insts@);
        let mut cur: u32 = self.registers.get(Register::IP);
        let mut i: usize = 0;
        let n = insts.len();
        proof {
            assert(insts@.take(0) =~= Seq::<Instruction>::empty());
            assert(crate::memory::seq_overwrite(old(self)@.mem, ip0 as int, spec_image(insts@.take(0)))
                =~= old(self)@.mem);
        }
        while i < n
            invariant
                i <= n,
                n == insts@.len(),
                ip0 == spec_reg(old(self)@, Register::IP),
                img == spec_image(insts@),
                cur == ip0 + spec_image(insts@.take(i as int)).len(),
                cur <= u32::MAX,
                i > 0 ==> ip0 + spec_image(insts@.take(i as int)).len() <= old(self)@.mem.len(),
                self@.mem == crate::memory::seq_overwrite(
                    old(self)@.mem,
                    ip0 as int,
                    spec_image(insts@.take(i as int)),
                ),
                self@.regs == old(self)@.regs.update(spec_register_code(Register::IP) as int, cur),
                self@.cmp == old(self)@.cmp,
                self@.table == old(self)@.table,
                self@.in_interrupt == old(self)@.in_interrupt,
                self@.base == old(self)@.base,
            decreases n - i,
        {
            let inst = *vstd::slice::slice_index_get(insts, i);
            let (op, mut operands) = crate::opcodes::encode(inst);
            let mut bytes: Vec<u8> = Vec::new();
            bytes.push(op.code());
            bytes.append(&mut operands);
            proof {
                assert(bytes@ =~= seq![spec_opcode_code(inst.spec_opcode())] + spec_operands(
                    inst,
                ));
                lemma_image_split(insts@.take(i + 1), i as int);
                assert(insts@.take(i + 1).take(i as int) =~= insts@.take(i as int));
                assert(insts@.take(i + 1).skip(i as int) =~= seq![inst]);
                assert(seq![inst].drop_first() =~= Seq::<Instruction>::empty());
                assert(spec_image(Seq::<Instruction>::empty()) =~= Seq::<u8>::empty());
                assert(spec_image(seq![inst]) =~= bytes@);
                assert(spec_image(insts@.take(i + 1)) =~= spec_image(insts@.take(i as int))
                    + bytes@);
                lemma_image_split(insts@, i as int);
                assert(insts@.skip(i as int).len() > 0);
                assert(insts@.skip(i as int)[0] == inst);
                assert(spec_image(insts@.skip(i as int)).len() >= bytes@.len());
            }
            let end = match cur.checked_add(bytes.len() as u32) {
                Some(v) => v,
                None => {
                    return Err(Error::MemError(memory::Error::StackOverflow));
                },
            };
            match self.memory.write_bytes(Address(cur), bytes.as_slice()) {
                Ok(()) => {},
                Err(e) => {
                    return Err(Error::MemError(e));
                },
            }
            proof {
                assert(self@.mem =~= crate::memory::seq_overwrite(
                    old(self)@.mem,
                    ip0 as int,
                    spec_image(insts@.take(i + 1)),
                ));
            }
            self.registers.set(Register::IP, end);
            proof {
                assert(self@.regs =~= old(self)@.regs.update(
                    spec_register_code(Register::IP) as int,
                    end as u32,
                ));
            }
            cur = end;
            i += 1;
        }
        proof {
            assert(insts@.take(n as int) =~= insts@);
        }
        let base = self.program_start.0;
        self.registers.set(Register::IP, base);
        proof {
            assert(self@.regs =~= old(self)@.regs.update(
                spec_register_code(Register::IP) as int,
                base,
            ));
            assert(self@ =~= spec_with_reg(
                spec_with_mem(
                    old(self)@,
                    crate::memory::seq_overwrite(old(self)@.mem, ip0 as int, img),
                ),
                Register::IP,
                old(self)@.base,
            ));
        }
        Ok(())
    }
}

/// When a step reports the halt signal, it found a `Halt` instruction and
/// left the machine exactly as it was.
proof fn lemma_halt_signal_means_parked(s: CpuView)
    requires
        spec_step(s).1 == Ok::<bool, Error>(true),
    ensures
        spec_step(s).0 == s,
{
    match spec_fetch(s) {
        Ok(inst) => {
            match inst {
                Instruction::Halt => {},
                _ => {},
            }
        },
        Err(_) => {},
    }
}

} // verus!
