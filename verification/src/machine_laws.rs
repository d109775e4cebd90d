//! Laws of the machines: what a load gives back of a store and a pop of a
//! push, where a return goes, and which instructions undo each other.
use crate::pentyte::{self, Pentyte};
use crate::pentyte_machine as pm;
use crate::septendigyte::{Septendigyte, lemma_septendigyte_params};
use crate::septendigyte_machine::{self as sm, Instruction};
use crate::undigyte_machine::{self as um, Effect, Inst, Reg, State};
use crate::undigyte::Undigyte;
use vstd::prelude::*;

verus! {

/// Undigyte machine: popping right after a push gives the pushed register's
/// value and leaves the stack pointer where it was (when the stack pointer is
/// not 0, where the push wraps round to 120, the empty stack, and when the
/// pushed register is not the stack pointer itself).
pub proof fn law_undigyte_push_then_pop(s: State, src: Reg, dst: Reg)
    requires
        um::mem_wf(s.0),
        s.1.wf(),
        s.1.sp@ != 0,
        src != Reg::SP,
    ensures
        ({
            let (s1, t1, e1) = um::step_spec(s, Inst::PUSH { src });
            let (s2, t2, e2) = um::step_spec(s1, Inst::POP { dst });
            &&& e1 == Effect::Continue
            &&& e2 == Effect::Continue
            &&& t1.len() == 0 && t2.len() == 0
            &&& dst != Reg::SP ==> s2.1.get_spec(dst) == s.1.get_spec(src)
            &&& dst != Reg::SP ==> s2.1.sp == s.1.sp
            &&& s2.2 == s.2
        }),
{
    let sp = s.1.sp@;
    let none = Seq::<char>::empty();
    assert(((sp + 121 - 1) as nat) % 121 == sp - 1);
    assert(((sp - 1 + 1) as nat) % 121 == sp);
    let regs1 = s.1.set_spec(Reg::SP, um::u_sub(s.1.sp, Undigyte(1)));
    assert(regs1.sp@ == sp - 1);
    assert(regs1.get_spec(src) == s.1.get_spec(src));
    let mem1 = s.0.update(regs1.sp@ as int, regs1.get_spec(src));
    let s1: State = (mem1, regs1, s.2);
    assert(um::step_spec(s, Inst::PUSH { src }) == (s1, none, Effect::Continue));
    assert(regs1.sp@ != 120);
    let r1 = regs1.set_spec(dst, mem1[regs1.sp@ as int]);
    let r2 = r1.set_spec(Reg::SP, um::u_add(r1.sp, Undigyte(1)));
    assert(um::step_spec(s1, Inst::POP { dst }) == ((mem1, r2, s.2), none, Effect::Continue));
    if dst != Reg::SP {
        assert(r1.sp == regs1.sp);
        assert(r2.sp@ == sp);
        assert(r2.get_spec(dst) == mem1[(sp - 1) as int]);
    }
}

/// Undigyte machine: a return right after a call goes back to the
/// instruction after the call (when the stack pointer is not 0).
#[verifier::rlimit(40)]
pub proof fn law_undigyte_call_then_ret(s: State, abs: Undigyte)
    requires
        um::mem_wf(s.0),
        s.1.wf(),
        s.1.sp@ != 0,
        s.2 < 121,
        abs@ < 121,
    ensures
        ({
            let (s1, _, e1) = um::step_spec(s, Inst::CALL { abs });
            let (s2, _, e2) = um::step_spec(s1, Inst::RET);
            &&& e1 == Effect::Continue
            &&& s1.2 == abs@
            &&& e2 == Effect::Continue
            &&& s2.2 == s.2
            &&& s2.1.sp == s.1.sp
        }),
{
    let sp = s.1.sp@;
    assert(((sp + 121 - 1) as nat) % 121 == sp - 1);
    assert(((sp - 1 + 1) as nat) % 121 == sp);
    let regs1 = s.1.set_spec(Reg::SP, um::u_sub(s.1.sp, Undigyte(1)));
    assert(regs1.sp@ == sp - 1);
    let mem1 = s.0.update(regs1.sp@ as int, Undigyte(s.2 as u8));
    let s1: State = (mem1, regs1, abs@);
    assert(um::step_spec(s, Inst::CALL { abs }) == (s1, Seq::<char>::empty(), Effect::Continue));
    assert(mem1[(sp - 1) as int]@ == s.2);
    assert(um::step_spec(s1, Inst::RET).0.2 == s.2);
}

/// Septendigyte machine: popping right after a push gives the pushed value and
/// leaves the stack pointer where it was (for a stack pointer between 1 and
/// 288; at 0 the push wraps round to 288, the empty stack).
pub proof fn law_septendigyte_push_then_pop(s: sm::State, src: sm::Reg, dst: sm::Reg)
    requires
        s.1.len() == 17,
        0 < s.1[15] < 289,
        s.1[15] < s.0.len(),
        sm::reg_wf(src),
        sm::reg_wf(dst),
        dst != sm::Reg::SP,
    ensures
        ({
            let (s1, t1, e1) = sm::step_spec(s, Instruction::PUSH { src });
            let (s2, t2, e2) = sm::step_spec(s1, Instruction::POP { dst });
            &&& e1 == sm::Effect::Continue
            &&& e2 == sm::Effect::Continue
            &&& s2.1[sm::reg_index(dst) as int] == s.1[sm::reg_index(src) as int]
            &&& s2.1[15] == s.1[15]
            &&& s2.2 == s.2
        }),
{
    lemma_septendigyte_params();
    let sp = s.1[15];
    let none = Seq::<char>::empty();
    assert(((289 + sp - 1) as nat) % 289 == sp - 1);
    assert(((sp - 1 + 1) as nat) % 289 == sp);
    let mem1 = s.0.update(sp as int, s.1[sm::reg_index(src) as int]);
    let regs1 = s.1.update(15, Septendigyte::sub_spec(sp, 1));
    assert(regs1[15] == sp - 1);
    let s1: sm::State = (mem1, regs1, s.2);
    assert(sm::step_spec(s, Instruction::PUSH { src }) == (s1, none, sm::Effect::Continue));
    assert(Septendigyte::add_spec((sp - 1) as nat, 1) == sp);
    let regs2 = regs1.update(15, sp).update(sm::reg_index(dst) as int, mem1[sp as int]);
    assert(sm::step_spec(s1, Instruction::POP { dst }) == ((mem1, regs2, s.2), none, sm::Effect::Continue));
    assert(sm::reg_index(dst) != 15);
}

/// Septendigyte machine: a call pushes the address it calls, so a return
/// right after it goes to that address again (for a stack pointer between 1
/// and 288).
#[verifier::rlimit(40)]
pub proof fn law_septendigyte_call_then_ret(s: sm::State, addr: Septendigyte)
    requires
        s.1.len() == 17,
        0 < s.1[15] < 289,
        s.1[15] < s.0.len(),
    ensures
        ({
            let r1 = sm::step_spec(s, Instruction::CALL { addr });
            let r2 = sm::step_spec(r1.0, Instruction::RET);
            &&& r1.2 == sm::Effect::Continue
            &&& r2.2 == sm::Effect::Continue
            &&& r1.0.2 == addr@
            &&& r2.0.2 == addr@
            &&& r2.0.1[15] == s.1[15]
        }),
{
    let sp = s.1[15];
    lemma_septendigyte_call(s, addr);
    let s1 = sm::step_spec(s, Instruction::CALL { addr }).0;
    lemma_septendigyte_ret(s1);
}

/// A call with the stack pointer `sp` above 0 stores its target at `sp`,
/// moves the pointer down and goes to the target.
proof fn lemma_septendigyte_call(s: sm::State, addr: Septendigyte)
    requires
        s.1.len() == 17,
        0 < s.1[15] < 289,
    ensures
        sm::step_spec(s, Instruction::CALL { addr }) == (
            (s.0.update(s.1[15] as int, addr@), s.1.update(15, (s.1[15] - 1) as nat), addr@),
            Seq::<char>::empty(),
            sm::Effect::Continue,
        ),
{
    lemma_septendigyte_params();
    let sp = s.1[15];
    assert(((289 + sp - 1) as nat) % 289 == sp - 1);
}

/// A return with the stack pointer `sp` below 288 moves the pointer up and
/// goes to the address in the cell there.
proof fn lemma_septendigyte_ret(s: sm::State)
    requires
        s.1.len() == 17,
        s.1[15] < 288,
    ensures
        sm::step_spec(s, Instruction::RET) == (
            (s.0, s.1.update(15, s.1[15] + 1), s.0[s.1[15] + 1int]),
            Seq::<char>::empty(),
            sm::Effect::Continue,
        ),
{
    lemma_septendigyte_params();
    let sp = s.1[15];
    assert((sp + 1) % 289 == sp + 1);
}

/// Undigyte machine: loading from a cell right after storing a register to
/// it gives the stored value, which the cell then holds.
pub proof fn law_undigyte_store_then_load(s: State, abs: Undigyte, src: Reg, dst: Reg)
    requires
        um::mem_wf(s.0),
        abs@ < 121,
    ensures
        ({
            let (s1, t1, e1) = um::step_spec(s, Inst::STR { abs, src });
            let (s2, t2, e2) = um::step_spec(s1, Inst::LDR { dst, abs });
            &&& e1 == Effect::Continue && e2 == Effect::Continue
            &&& s2.1.get_spec(dst) == s.1.get_spec(src)
            &&& s2.0[abs@ as int] == s.1.get_spec(src)
            &&& s2.2 == s.2
        }),
{
}

/// Septendigyte machine: loading from a cell right after storing a register
/// to it gives the stored value, which the cell then holds (for a cell that
/// memory has).
pub proof fn law_septendigyte_store_then_load(
    s: sm::State,
    addr: Septendigyte,
    src: sm::Reg,
    dst: sm::Reg,
)
    requires
        s.1.len() == 17,
        addr@ < s.0.len(),
        sm::reg_wf(src),
        sm::reg_wf(dst),
    ensures
        ({
            let (s1, t1, e1) = sm::step_spec(s, Instruction::STR { addr, src });
            let (s2, t2, e2) = sm::step_spec(s1, Instruction::LDR { dst, addr });
            &&& e1 == sm::Effect::Continue && e2 == sm::Effect::Continue
            &&& s2.1[sm::reg_index(dst) as int] == s.1[sm::reg_index(src) as int]
            &&& s2.0[addr@ as int] == s.1[sm::reg_index(src) as int]
            &&& s2.2 == s.2
        }),
{
}

/// A pentyte instruction that takes one operand, the cell `a`.
pub open spec fn unary(opcode: pm::Opcode, a: Pentyte) -> pm::Instruction {
    pm::Instruction { opcode, operand: Some(a), operand2: None, operand3: None }
}

/// What `INC a`, `DEC a` and `FLP a` do: they change cell `a mod 25` alone.
#[verifier::spinoff_prover]
#[verifier::rlimit(30)]
proof fn lemma_pentyte_cell_step(mem: Seq<nat>, ip: nat, op: pm::Opcode, a: Pentyte)
    requires
        mem.len() >= 25,
        op == pm::Opcode::INC || op == pm::Opcode::DEC || op == pm::Opcode::FLP,
    ensures
        ({
            let s = pm::step_spec(mem, ip, unary(op, a));
            let k = pentyte::addr_spec(a@) as int;
            let x = mem[k];
            &&& s.1 == ip
            &&& s.3 == pm::Effect::Continue
            &&& s.0 == mem.update(
                k,
                if op == pm::Opcode::INC {
                    (x + 1) % 125
                } else if op == pm::Opcode::DEC {
                    ((125 + x - 1) as nat) % 125
                } else {
                    (124 - x % 125) as nat
                },
            )
        }),
{
}

/// `DEC a` undoes `INC a` on a cell that holds a pentyte in range.
#[verifier::spinoff_prover]
#[verifier::rlimit(30)]
proof fn lemma_pentyte_inc_then_dec_at(mem: Seq<nat>, ip: nat, a: Pentyte)
    requires
        mem.len() >= 25,
        mem[pentyte::addr_spec(a@) as int] < 125,
    ensures
        ({
            let s1 = pm::step_spec(mem, ip, unary(pm::Opcode::INC, a));
            let s2 = pm::step_spec(s1.0, s1.1, unary(pm::Opcode::DEC, a));
            &&& s1.3 == pm::Effect::Continue && s2.3 == pm::Effect::Continue
            &&& s2.0 == mem && s2.1 == ip
        }),
{
    pentyte::lemma_pentyte_params();
    let k = pentyte::addr_spec(a@) as int;
    let x = mem[k];
    lemma_pentyte_cell_step(mem, ip, pm::Opcode::INC, a);
    let s1 = pm::step_spec(mem, ip, unary(pm::Opcode::INC, a));
    assert(s1.0[k] == (x + 1) % 125);
    assert(((125 + (x + 1) % 125 - 1) as nat) % 125 == x);
    lemma_pentyte_cell_step(s1.0, ip, pm::Opcode::DEC, a);
    assert(s1.0.update(k, x) =~= mem);
}

/// `INC a` undoes `DEC a` on a cell that holds a pentyte in range.
#[verifier::spinoff_prover]
#[verifier::rlimit(30)]
proof fn lemma_pentyte_dec_then_inc_at(mem: Seq<nat>, ip: nat, a: Pentyte)
    requires
        mem.len() >= 25,
        mem[pentyte::addr_spec(a@) as int] < 125,
    ensures
        ({
            let s1 = pm::step_spec(mem, ip, unary(pm::Opcode::DEC, a));
            let s2 = pm::step_spec(s1.0, s1.1, unary(pm::Opcode::INC, a));
            &&& s1.3 == pm::Effect::Continue && s2.3 == pm::Effect::Continue
            &&& s2.0 == mem && s2.1 == ip
        }),
{
    pentyte::lemma_pentyte_params();
    let k = pentyte::addr_spec(a@) as int;
    let x = mem[k];
    lemma_pentyte_cell_step(mem, ip, pm::Opcode::DEC, a);
    let s1 = pm::step_spec(mem, ip, unary(pm::Opcode::DEC, a));
    assert(s1.0[k] == ((125 + x - 1) as nat) % 125);
    assert((((125 + x - 1) as nat) % 125 + 1) % 125 == x);
    lemma_pentyte_cell_step(s1.0, ip, pm::Opcode::INC, a);
    assert(s1.0.update(k, x) =~= mem);
}

/// Pentyte machine: `DEC a` right after `INC a`, and `INC a` right after
/// `DEC a`, leave the memory and the instruction pointer as they were (for
/// cells that hold pentytes in range).
pub proof fn law_pentyte_inc_dec_undo(mem: Seq<nat>, ip: nat, a: Pentyte)
    requires
        mem.len() >= 25,
        forall|i: int| 0 <= i < mem.len() ==> mem[i] < 125,
    ensures
        ({
            let s1 = pm::step_spec(mem, ip, unary(pm::Opcode::INC, a));
            let s2 = pm::step_spec(s1.0, s1.1, unary(pm::Opcode::DEC, a));
            &&& s1.3 == pm::Effect::Continue && s2.3 == pm::Effect::Continue
            &&& s2.0 == mem && s2.1 == ip
        }),
        ({
            let s1 = pm::step_spec(mem, ip, unary(pm::Opcode::DEC, a));
            let s2 = pm::step_spec(s1.0, s1.1, unary(pm::Opcode::INC, a));
            &&& s1.3 == pm::Effect::Continue && s2.3 == pm::Effect::Continue
            &&& s2.0 == mem && s2.1 == ip
        }),
{
    assert(mem[pentyte::addr_spec(a@) as int] < 125);
    lemma_pentyte_inc_then_dec_at(mem, ip, a);
    lemma_pentyte_dec_then_inc_at(mem, ip, a);
}

/// `FLP a` twice restores a cell that holds a pentyte in range.
#[verifier::spinoff_prover]
#[verifier::rlimit(30)]
proof fn lemma_pentyte_flip_twice_at(mem: Seq<nat>, ip: nat, a: Pentyte)
    requires
        mem.len() >= 25,
        mem[pentyte::addr_spec(a@) as int] < 125,
    ensures
        ({
            let s1 = pm::step_spec(mem, ip, unary(pm::Opcode::FLP, a));
            let s2 = pm::step_spec(s1.0, s1.1, unary(pm::Opcode::FLP, a));
            &&& s1.3 == pm::Effect::Continue && s2.3 == pm::Effect::Continue
            &&& s2.0 == mem && s2.1 == ip
        }),
{
    pentyte::lemma_pentyte_params();
    let k = pentyte::addr_spec(a@) as int;
    let x = mem[k];
    lemma_pentyte_cell_step(mem, ip, pm::Opcode::FLP, a);
    let s1 = pm::step_spec(mem, ip, unary(pm::Opcode::FLP, a));
    lemma_pentyte_cell_step(s1.0, ip, pm::Opcode::FLP, a);
    assert(s1.0.update(k, x) =~= mem);
}

/// Pentyte machine: `FLP a` twice leaves the memory and the instruction
/// pointer as they were (for cells that hold pentytes in range).
pub proof fn law_pentyte_flip_twice(mem: Seq<nat>, ip: nat, a: Pentyte)
    requires
        mem.len() >= 25,
        forall|i: int| 0 <= i < mem.len() ==> mem[i] < 125,
    ensures
        ({
            let s1 = pm::step_spec(mem, ip, unary(pm::Opcode::FLP, a));
            let s2 = pm::step_spec(s1.0, s1.1, unary(pm::Opcode::FLP, a));
            &&& s1.3 == pm::Effect::Continue && s2.3 == pm::Effect::Continue
            &&& s2.0 == mem && s2.1 == ip
        }),
{
    assert(mem[pentyte::addr_spec(a@) as int] < 125);
    lemma_pentyte_flip_twice_at(mem, ip, a);
}

} // verus!
