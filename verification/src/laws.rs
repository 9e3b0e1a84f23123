//! Machine-checked laws of the execution engine: instruction-pointer
//! advancement, stack balance, call/return symmetry, comparison
//! correctness, and the terminal behaviour of `Halt`.

use crate::cpu::{
    spec_exec_inst, spec_fetch, spec_pop, spec_push, spec_pushed, spec_reg, spec_sets_ip,
    spec_stack_word, spec_step, CpuView,
};
use crate::error::Error;
use crate::memory;
use crate::memory::spec_read;
use crate::opcodes::{
    spec_increment_amount, spec_opcode_code, Comparison, Instruction, OpCode, Value,
};
use crate::registers::Register;
use vstd::bytes::{lemma_auto_spec_u32_to_from_le_bytes, spec_u32_to_le_bytes};
use vstd::prelude::*;
use vstd::wrapping::u32_specs;

verus! {

/// Whether an instruction names the instruction pointer itself as its
/// destination register.  Such an instruction overwrites the pointer like
/// any other register, and the ordinary advancement law does not apply.
pub open spec fn spec_writes_ip(inst: Instruction) -> bool {
    match inst {
        Instruction::MovRegReg(r, _) => r == Register::IP,
        Instruction::MovRegNum(r, _) => r == Register::IP,
        Instruction::MovMemReg(_, r) => r == Register::IP,
        Instruction::AddRegReg(r, _) => r == Register::IP,
        Instruction::AddRegNum(r, _) => r == Register::IP,
        Instruction::AddRegMem(r, _) => r == Register::IP,
        Instruction::IncReg(r) => r == Register::IP,
        Instruction::PopReg(r) => r == Register::IP,
        Instruction::Load(r, _) => r == Register::IP,
        _ => false,
    }
}

/// Instruction-pointer advancement: a successful step on an instruction
/// that neither redirects the instruction pointer nor names it as a
/// destination, and is not `Halt`, leaves the pointer exactly one encoded
/// instruction length further.
#[verifier::rlimit(100)]
#[verifier::spinoff_prover]
pub proof fn lemma_ip_advancement(s: CpuView)
    requires
        s.regs.len() == 11,
        spec_fetch(s) is Ok,
        !(spec_fetch(s)->Ok_0 is Halt),
        !spec_sets_ip(spec_fetch(s)->Ok_0, s.cmp),
        !spec_writes_ip(spec_fetch(s)->Ok_0),
        spec_step(s).1 is Ok,
    ensures
        spec_reg(spec_step(s).0, Register::IP) == u32_specs::wrapping_add(
            spec_reg(s, Register::IP),
            spec_increment_amount(spec_fetch(s)->Ok_0.spec_opcode()) as u32,
        ),
{
    let inst = spec_fetch(s)->Ok_0;
    let (v, res) = spec_exec_inst(s, inst);
    assert(spec_reg(v, Register::IP) == spec_reg(s, Register::IP)) by {
        match inst {
            Instruction::MovRegReg(r, _) => {},
            Instruction::MovRegNum(r, _) => {},
            Instruction::MovMemReg(_, r) => {},
            Instruction::AddRegReg(r, _) => {},
            Instruction::AddRegNum(r, _) => {},
            Instruction::AddRegMem(r, _) => {},
            Instruction::IncReg(r) => {},
            Instruction::PopReg(r) => {},
            Instruction::Load(r, _) => {},
            _ => {},
        }
    }
}

/// Comparison correctness: `CmpVal(a, b)` always succeeds, touches neither
/// registers nor memory, and records `Gt` exactly when `a > b`, `Lt`
/// exactly when `a < b`, and `Eq` exactly when `a == b`.
pub proof fn lemma_cmp_val_flags(s: CpuView, a: Value, b: Value)
    requires
        a.spec_width() == b.spec_width(),
    ensures
        ({
            let (v, res) = spec_exec_inst(s, Instruction::CmpVal(a, b));
            &&& res == Ok::<bool, Error>(false)
            &&& (v.cmp == Comparison::Gt <==> a.spec_as_u32() > b.spec_as_u32())
            &&& (v.cmp == Comparison::Lt <==> a.spec_as_u32() < b.spec_as_u32())
            &&& (v.cmp == Comparison::Eq <==> a.spec_as_u32() == b.spec_as_u32())
            &&& v.regs == s.regs
            &&& v.mem == s.mem
        }),
{
}

/// `Halt` is terminal: a machine whose instruction pointer rests on the
/// `Halt` opcode steps to itself, reporting the halt signal, so repeated
/// steps change nothing and report the signal again each time.
pub proof fn lemma_halt_terminal(s: CpuView)
    requires
        spec_read(s.mem, spec_reg(s, Register::IP)) == Ok::<u8, memory::Error>(
            spec_opcode_code(OpCode::Halt),
        ),
    ensures
        spec_step(s) == (s, Ok::<bool, Error>(true)),
{
    assert(spec_fetch(s) == Ok::<Instruction, Error>(Instruction::Halt));
}

/// The values pushed by a run of pushes, first value first.
pub open spec fn spec_push_all(s: CpuView, vs: Seq<u32>) -> Result<CpuView, memory::Error>
    decreases vs.len(),
{
    if vs.len() == 0 {
        Ok(s)
    } else {
        match spec_push(s, vs[0]) {
            Err(e) => Err(e),
            Ok(v) => spec_push_all(v, vs.drop_first()),
        }
    }
}

/// `n` pops in a row, with the popped words in pop order.
pub open spec fn spec_pop_all(s: CpuView, n: nat) -> Result<(CpuView, Seq<u32>), memory::Error>
    decreases n,
{
    if n == 0 {
        Ok((s, Seq::empty()))
    } else {
        match spec_pop(s) {
            Err(e) => Err(e),
            Ok((v, w)) => match spec_pop_all(v, (n - 1) as nat) {
                Err(e) => Err(e),
                Ok((v2, ws)) => Ok((v2, seq![w] + ws)),
            },
        }
    }
}

/// Shape of a successful run of pushes: the stack pointer sinks by four
/// per word, every other register and every byte at or above the starting
/// stack pointer is untouched, and nothing else of the machine changes.
proof fn lemma_push_all_shape(s: CpuView, vs: Seq<u32>)
    requires
        s.regs.len() == 11,
        spec_push_all(s, vs) is Ok,
    ensures
        ({
            let t = spec_push_all(s, vs)->Ok_0;
            &&& t.regs.len() == 11
            &&& spec_reg(s, Register::SP) >= 4 * vs.len()
            &&& vs.len() > 0 ==> spec_reg(s, Register::SP) <= s.mem.len()
            &&& spec_reg(t, Register::SP) == spec_reg(s, Register::SP) - 4 * vs.len()
            &&& t.mem.len() == s.mem.len()
            &&& t.cmp == s.cmp
            &&& t.base == s.base
            &&& t.table == s.table
            &&& t.in_interrupt == s.in_interrupt
            &&& (forall|k: int| 0 <= k < 11 && k != 1 ==> t.regs[k] == s.regs[k])
            &&& (forall|j: int|
                spec_reg(s, Register::SP) <= j < t.mem.len() ==> t.mem[j] == s.mem[j])
        }),
    decreases vs.len(),
{
    if vs.len() > 0 {
        let v = spec_push(s, vs[0])->Ok_0;
        lemma_push_all_shape(v, vs.drop_first());
    }
}

/// The word a push stored is recovered by reading the stack word at the
/// new stack pointer.
proof fn lemma_pushed_word(s: CpuView, v: u32)
    requires
        s.regs.len() == 11,
        4 <= spec_reg(s, Register::SP) <= s.mem.len(),
    ensures
        spec_stack_word(spec_pushed(s, v).mem, (spec_reg(s, Register::SP) - 4) as u32) == v,
{
    lemma_auto_spec_u32_to_from_le_bytes();
    let sp = spec_reg(s, Register::SP);
    let m = spec_pushed(s, v).mem;
    assert(seq![m[sp - 1], m[sp - 2], m[sp - 3], m[sp - 4]] =~= spec_u32_to_le_bytes(v));
}

/// Extending a run of pops by one more pop at its end.
proof fn lemma_pop_all_snoc(s: CpuView, n: nat)
    requires
        spec_pop_all(s, n) is Ok,
        spec_pop(spec_pop_all(s, n)->Ok_0.0) is Ok,
    ensures
        spec_pop_all(s, n + 1) == Ok::<(CpuView, Seq<u32>), memory::Error>(
            (
                spec_pop(spec_pop_all(s, n)->Ok_0.0)->Ok_0.0,
                spec_pop_all(s, n)->Ok_0.1 + seq![spec_pop(spec_pop_all(s, n)->Ok_0.0)->Ok_0.1],
            ),
        ),
    decreases n,
{
    if n == 0 {
        let (v, w) = spec_pop(s)->Ok_0;
        assert(spec_pop_all(v, 0) == Ok::<(CpuView, Seq<u32>), memory::Error>(
            (v, Seq::empty()),
        ));
        assert(seq![w] + Seq::<u32>::empty() =~= Seq::<u32>::empty() + seq![w]);
    } else {
        let (v, w) = spec_pop(s)->Ok_0;
        lemma_pop_all_snoc(v, (n - 1) as nat);
        let tail = spec_pop_all(v, (n - 1) as nat)->Ok_0.1;
        let last = spec_pop(spec_pop_all(s, n)->Ok_0.0)->Ok_0.1;
        assert(seq![w] + (tail + seq![last]) =~= (seq![w] + tail) + seq![last]);
    }
}

/// A run of pops never writes memory and only moves the stack pointer.
proof fn lemma_pop_all_shape(s: CpuView, n: nat)
    requires
        s.regs.len() == 11,
        spec_pop_all(s, n) is Ok,
    ensures
        ({
            let t = spec_pop_all(s, n)->Ok_0.0;
            &&& t.regs.len() == 11
            &&& t.mem == s.mem
            &&& spec_reg(t, Register::SP) == spec_reg(s, Register::SP) + 4 * n
            &&& (forall|k: int| 0 <= k < 11 && k != 1 ==> t.regs[k] == s.regs[k])
            &&& spec_pop_all(s, n)->Ok_0.1.len() == n
        }),
    decreases n,
{
    if n > 0 {
        let (v, w) = spec_pop(s)->Ok_0;
        lemma_pop_all_shape(v, (n - 1) as nat);
    }
}

/// Stack balance: after any run of pushes that succeeds, popping the same
/// number of words succeeds, yields exactly the pushed values in reverse
/// (last in, first out), and returns the stack pointer and the whole
/// register file to their starting values.
pub proof fn lemma_stack_balance(s: CpuView, vs: Seq<u32>)
    requires
        s.regs.len() == 11,
        spec_push_all(s, vs) is Ok,
    ensures
        ({
            let t = spec_push_all(s, vs)->Ok_0;
            &&& spec_pop_all(t, vs.len()) is Ok
            &&& spec_pop_all(t, vs.len())->Ok_0.1 == vs.reverse()
            &&& spec_pop_all(t, vs.len())->Ok_0.0.regs == s.regs
            &&& spec_reg(spec_pop_all(t, vs.len())->Ok_0.0, Register::SP) == spec_reg(
                s,
                Register::SP,
            )
            &&& spec_pop_all(t, vs.len())->Ok_0.0.mem == t.mem
        }),
    decreases vs.len(),
{
    if vs.len() == 0 {
        assert(vs.reverse() =~= Seq::<u32>::empty());
    } else {
        let sp = spec_reg(s, Register::SP);
        let s1 = spec_push(s, vs[0])->Ok_0;
        let t = spec_push_all(s, vs)->Ok_0;
        let rest = vs.drop_first();
        lemma_stack_balance(s1, rest);
        lemma_push_all_shape(s1, rest);
        let (u, ws) = spec_pop_all(t, rest.len())->Ok_0;
        lemma_pop_all_shape(t, rest.len());
        // The first pushed word is still intact above the inner stack
        // activity, so the final pop returns it.
        lemma_pushed_word(s, vs[0]);
        assert(spec_stack_word(u.mem, (sp - 4) as u32) == spec_stack_word(
            s1.mem,
            (sp - 4) as u32,
        )) by {
            assert(seq![
                u.mem[sp - 1],
                u.mem[sp - 2],
                u.mem[sp - 3],
                u.mem[sp - 4],
            ] =~= seq![
                s1.mem[sp - 1],
                s1.mem[sp - 2],
                s1.mem[sp - 3],
                s1.mem[sp - 4],
            ]);
        }
        assert(spec_pop(u) is Ok);
        let (f, w) = spec_pop(u)->Ok_0;
        assert(w == vs[0]);
        lemma_pop_all_snoc(t, rest.len());
        assert(ws + seq![vs[0]] =~= vs.reverse());
        assert(f.regs =~= s.regs);
    }
}

/// Call/return symmetry: after `Call(a)` builds its frame, any machine
/// state `t` that still has the frame pointer and the frame's 24 bytes of
/// memory intact - whatever the callee did to R1-R4, to the other
/// registers, or to the rest of memory - returns by `Ret` to the caller's
/// R1-R4, instruction pointer, frame pointer and stack pointer.
#[verifier::rlimit(100)]
#[verifier::spinoff_prover]
pub proof fn lemma_call_ret_symmetry(s: CpuView, a: u32, t: CpuView)
    requires
        s.regs.len() == 11,
        t.regs.len() == 11,
        spec_exec_inst(s, Instruction::Call(crate::memory::Address(a))).1 == Ok::<bool, Error>(
            false,
        ),
        t.mem.len() == spec_exec_inst(s, Instruction::Call(crate::memory::Address(a))).0.mem.len(),
        spec_reg(t, Register::FP) == spec_reg(
            spec_exec_inst(s, Instruction::Call(crate::memory::Address(a))).0,
            Register::FP,
        ),
        forall|j: int|
            spec_reg(t, Register::FP) <= j < spec_reg(t, Register::FP) + 24 ==> t.mem[j]
                == spec_exec_inst(s, Instruction::Call(crate::memory::Address(a))).0.mem[j],
    ensures
        ({
            let v = spec_exec_inst(t, Instruction::Ret);
            &&& v.1 == Ok::<bool, Error>(false)
            &&& spec_reg(v.0, Register::R1) == spec_reg(s, Register::R1)
            &&& spec_reg(v.0, Register::R2) == spec_reg(s, Register::R2)
            &&& spec_reg(v.0, Register::R3) == spec_reg(s, Register::R3)
            &&& spec_reg(v.0, Register::R4) == spec_reg(s, Register::R4)
            &&& spec_reg(v.0, Register::IP) == spec_reg(s, Register::IP)
            &&& spec_reg(v.0, Register::FP) == spec_reg(s, Register::FP)
            &&& spec_reg(v.0, Register::SP) == spec_reg(s, Register::SP)
        }),
{
    lemma_auto_spec_u32_to_from_le_bytes();
    let s1 = spec_exec_inst(s, Instruction::Call(crate::memory::Address(a))).0;
    let sp = spec_reg(s, Register::SP);
    let fp = (sp - 24) as u32;
    let fs = u32_specs::wrapping_sub(spec_reg(s, Register::FP), fp);
    assert(spec_stack_word(t.mem, fp) == fs
        && spec_stack_word(t.mem, (fp + 4) as u32) == spec_reg(s, Register::IP)
        && spec_stack_word(t.mem, (fp + 8) as u32) == spec_reg(s, Register::R4)
        && spec_stack_word(t.mem, (fp + 12) as u32) == spec_reg(s, Register::R3)
        && spec_stack_word(t.mem, (fp + 16) as u32) == spec_reg(s, Register::R2)
        && spec_stack_word(t.mem, (fp + 20) as u32) == spec_reg(s, Register::R1)) by {
        assert(seq![t.mem[fp + 3], t.mem[fp + 2], t.mem[fp + 1], t.mem[fp as int]]
            =~= spec_u32_to_le_bytes(fs));
        assert(seq![t.mem[fp + 7], t.mem[fp + 6], t.mem[fp + 5], t.mem[fp + 4]]
            =~= spec_u32_to_le_bytes(spec_reg(s, Register::IP)));
        assert(seq![t.mem[fp + 11], t.mem[fp + 10], t.mem[fp + 9], t.mem[fp + 8]]
            =~= spec_u32_to_le_bytes(spec_reg(s, Register::R4)));
        assert(seq![t.mem[fp + 15], t.mem[fp + 14], t.mem[fp + 13], t.mem[fp + 12]]
            =~= spec_u32_to_le_bytes(spec_reg(s, Register::R3)));
        assert(seq![t.mem[fp + 19], t.mem[fp + 18], t.mem[fp + 17], t.mem[fp + 16]]
            =~= spec_u32_to_le_bytes(spec_reg(s, Register::R2)));
        assert(seq![t.mem[fp + 23], t.mem[fp + 22], t.mem[fp + 21], t.mem[fp + 20]]
            =~= spec_u32_to_le_bytes(spec_reg(s, Register::R1)));
    }
}

} // verus!
