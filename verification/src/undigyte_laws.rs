//! What each undigyte instruction does, stated in plain arithmetic on
//! register values: arithmetic modulo 121, the conditions of the jumps, and
//! which undigit of an operand cell names which register.
use crate::encoding_laws::{law_undigyte_char_reads_back, law_undigyte_notation_reads_back};
use crate::text::{all_ascii_digits, lemma_decimal_reads_back, numeral_value};
use crate::undigyte::{self, Undigyte};
use crate::undigyte_machine::{self as um, Effect, Inst, Reg, State};
use vstd::prelude::*;

verus! {

/// The value `dst` holds after `inst` runs in `s`.
pub open spec fn reg_after(s: State, inst: Inst, dst: Reg) -> nat {
    um::step_spec(s, inst).0.1.get_spec(dst)@
}

/// Setting a register and reading it back.
proof fn lemma_set_get(s: State, r: Reg, v: Undigyte)
    ensures
        s.1.set_spec(r, v).get_spec(r) == v,
{
}

/// The modulo-121 results, as the machine stores them in a byte.
proof fn lemma_mod121(a: nat, b: nat)
    requires
        a < 121,
        b < 121,
    ensures
        um::u_add(Undigyte(a as u8), Undigyte(b as u8))@ == (a + b) % 121,
        (um::u_sub(Undigyte(a as u8), Undigyte(b as u8))@ + b) % 121 == a,
        um::u_sub(Undigyte(a as u8), Undigyte(b as u8))@ < 121,
        um::u_mul(Undigyte(a as u8), Undigyte(b as u8))@ == (a * b) % 121,
{
    let p = a * b;
    assert(p % 121 < 121);
    let d = ((a + 121 - b) as nat) % 121;
    assert((d + b) % 121 == a);
}

/// Undigyte machine: `ADD`, `SUB` and `MUL` between registers compute modulo
/// 121 in the destination: the sum, the value that added to the source gives
/// the destination back, and the product.
pub proof fn law_undigyte_add_sub_mul(s: State, dst: Reg, src: Reg)
    requires
        s.1.wf(),
    ensures
        ({
            let a = s.1.get_spec(dst)@;
            let b = s.1.get_spec(src)@;
            let sum = reg_after(s, Inst::ADD { dst, src }, dst);
            let diff = reg_after(s, Inst::SUB { dst, src }, dst);
            let prod = reg_after(s, Inst::MUL { dst, src }, dst);
            &&& sum < 121 && sum == (a + b) % 121
            &&& diff < 121 && (diff + b) % 121 == a
            &&& prod < 121 && prod == (a * b) % 121
        }),
{
    let x = s.1.get_spec(dst);
    let y = s.1.get_spec(src);
    lemma_set_get(s, dst, um::u_add(x, y));
    lemma_set_get(s, dst, um::u_sub(x, y));
    lemma_set_get(s, dst, um::u_mul(x, y));
    assert(reg_after(s, Inst::ADD { dst, src }, dst) == um::u_add(x, y)@);
    assert(reg_after(s, Inst::SUB { dst, src }, dst) == um::u_sub(x, y)@);
    assert(reg_after(s, Inst::MUL { dst, src }, dst) == um::u_mul(x, y)@);
    lemma_mod121(x@, y@);
}

/// Undigyte machine: the same with an immediate operand.
pub proof fn law_undigyte_add_sub_mul_imm(s: State, dst: Reg, imm: Undigyte)
    requires
        s.1.wf(),
        imm@ < 121,
    ensures
        ({
            let a = s.1.get_spec(dst)@;
            let b = imm@;
            let sum = reg_after(s, Inst::IADD { dst, src: imm }, dst);
            let diff = reg_after(s, Inst::ISUB { dst, src: imm }, dst);
            let prod = reg_after(s, Inst::IMUL { dst, src: imm }, dst);
            &&& sum < 121 && sum == (a + b) % 121
            &&& diff < 121 && (diff + b) % 121 == a
            &&& prod < 121 && prod == (a * b) % 121
        }),
{
    let x = s.1.get_spec(dst);
    lemma_set_get(s, dst, um::u_add(x, imm));
    lemma_set_get(s, dst, um::u_sub(x, imm));
    lemma_set_get(s, dst, um::u_mul(x, imm));
    assert(reg_after(s, Inst::IADD { dst, src: imm }, dst) == um::u_add(x, imm)@);
    assert(reg_after(s, Inst::ISUB { dst, src: imm }, dst) == um::u_sub(x, imm)@);
    assert(reg_after(s, Inst::IMUL { dst, src: imm }, dst) == um::u_mul(x, imm)@);
    lemma_mod121(x@, imm@);
}

/// Undigyte machine: a subtraction of a register from another is undone by
/// adding it back.
pub proof fn law_undigyte_sub_then_add(s: State, dst: Reg, src: Reg)
    requires
        s.1.wf(),
        dst != src,
    ensures
        ({
            let s1 = um::step_spec(s, Inst::SUB { dst, src }).0;
            reg_after(s1, Inst::ADD { dst, src }, dst) == s.1.get_spec(dst)@
        }),
{
    law_undigyte_add_sub_mul(s, dst, src);
    let s1 = um::step_spec(s, Inst::SUB { dst, src }).0;
    assert(s1.1.get_spec(src) == s.1.get_spec(src));
    assert(s1.1.wf());
    law_undigyte_add_sub_mul(s1, dst, src);
    let a = s.1.get_spec(dst)@;
    let b = s.1.get_spec(src)@;
    let d = s1.1.get_spec(dst)@;
    assert((d + b) % 121 == a);
}

/// Undigyte machine: `DIV` and `MOD` leave the quotient and the remainder in
/// the destination, which recombine to it; a zero divisor stops the machine
/// and changes nothing.
pub proof fn law_undigyte_div_mod(s: State, dst: Reg, src: Reg)
    requires
        s.1.wf(),
    ensures
        ({
            let a = s.1.get_spec(dst)@;
            let b = s.1.get_spec(src)@;
            let q = reg_after(s, Inst::DIV { dst, src }, dst);
            let r = reg_after(s, Inst::MOD { dst, src }, dst);
            &&& b != 0 ==> q * b + r == a && r < b
            &&& b != 0 ==> um::step_spec(s, Inst::DIV { dst, src }).2 == Effect::Continue
            &&& b == 0 ==> um::step_spec(s, Inst::DIV { dst, src }) == (
                s,
                Seq::<char>::empty(),
                Effect::DivisionByZero,
            )
            &&& b == 0 ==> um::step_spec(s, Inst::MOD { dst, src }) == (
                s,
                Seq::<char>::empty(),
                Effect::DivisionByZero,
            )
        }),
{
    let a = s.1.get_spec(dst)@;
    let b = s.1.get_spec(src)@;
    if b != 0 {
        assert(a / b <= a) by (nonlinear_arith)
            requires
                b >= 1,
        ;
        assert(a % b < b) by (nonlinear_arith)
            requires
                b >= 1,
        ;
        let q = Undigyte(((a / b) % 121) as u8);
        let r = Undigyte((a % b) as u8);
        assert(q@ == a / b);
        assert(r@ == a % b);
        lemma_set_get(s, dst, q);
        lemma_set_get(s, dst, r);
        assert(um::step_spec(s, Inst::DIV { dst, src }).0.1 == s.1.set_spec(dst, q));
        assert(um::step_spec(s, Inst::MOD { dst, src }).0.1 == s.1.set_spec(dst, r));
        assert((a / b) * b + a % b == a) by (nonlinear_arith)
            requires
                b >= 1,
        ;
    }
}

/// The signed reading of a value below 121: itself up to 60, itself minus
/// 121 above.
pub open spec fn signed121(v: nat) -> int {
    if v <= 60 {
        v as int
    } else {
        v - 121
    }
}

/// Undigyte machine: each conditional jump goes to its target exactly when
/// its condition on the register values holds, and otherwise leaves the
/// instruction pointer; none changes registers or memory.
pub proof fn law_undigyte_jumps(s: State, a: Reg, b: Reg, then: Undigyte)
    requires
        s.1.wf(),
    ensures
        ({
            let x = s.1.get_spec(a)@;
            let y = s.1.get_spec(b)@;
            let t = then@;
            let ip = s.2;
            &&& um::step_spec(s, Inst::JIZ { reg: a, then }).0 == (s.0, s.1, if x == 0 { t } else { ip })
            &&& um::step_spec(s, Inst::JNZ { reg: a, then }).0 == (s.0, s.1, if x != 0 { t } else { ip })
            &&& um::step_spec(s, Inst::JEQ { a, b, then }).0 == (s.0, s.1, if x == y { t } else { ip })
            &&& um::step_spec(s, Inst::JNE { a, b, then }).0 == (s.0, s.1, if x != y { t } else { ip })
            &&& um::step_spec(s, Inst::JLT { a, b, then }).0 == (s.0, s.1, if x < y { t } else { ip })
            &&& um::step_spec(s, Inst::JGT { a, b, then }).0 == (s.0, s.1, if x > y { t } else { ip })
            &&& um::step_spec(s, Inst::JLTI { a, b, then }).0 == (s.0, s.1, if signed121(x)
                < signed121(y) {
                t
            } else {
                ip
            })
            &&& um::step_spec(s, Inst::JGTI { a, b, then }).0 == (s.0, s.1, if signed121(x)
                > signed121(y) {
                t
            } else {
                ip
            })
            &&& um::step_spec(s, Inst::JMP { abs: then }).0 == (s.0, s.1, t)
        }),
{
}

/// Undigyte decoding: in the operand cell after the opcode, the high undigit
/// names the first register (the destination, or the first compared) and the
/// low undigit the second; an instruction with one register takes it from
/// the low undigit, and its immediate from the cell after.
pub proof fn law_undigyte_decode_registers(mem: Seq<Undigyte>, ip: nat, d: Reg, l: Reg)
    requires
        ip < 121,
    ensures
        ({
            let op = mem[ip as int]@;
            let c = mem[((ip + 1) % 121) as int]@;
            let k = mem[((ip + 2) % 121) as int];
            let r = um::decode_spec(mem, ip).0;
            let pair = um::reg_spec(c / 11) == Ok::<Reg, Seq<char>>(d) && um::reg_spec(c % 11) == Ok::<
                Reg,
                Seq<char>,
            >(l);
            let low = um::reg_spec(c % 11) == Ok::<Reg, Seq<char>>(l);
            &&& pair && op == 2 ==> r == Ok::<Inst, Seq<char>>(Inst::MOV { dst: d, src: l })
            &&& pair && op == 4 ==> r == Ok::<Inst, Seq<char>>(Inst::ADD { dst: d, src: l })
            &&& pair && op == 5 ==> r == Ok::<Inst, Seq<char>>(Inst::SUB { dst: d, src: l })
            &&& pair && op == 6 ==> r == Ok::<Inst, Seq<char>>(Inst::MUL { dst: d, src: l })
            &&& pair && op == 7 ==> r == Ok::<Inst, Seq<char>>(Inst::DIV { dst: d, src: l })
            &&& pair && op == 8 ==> r == Ok::<Inst, Seq<char>>(Inst::MOD { dst: d, src: l })
            &&& pair && op == 17 ==> r == Ok::<Inst, Seq<char>>(Inst::LDRREG { dst: d, reg: l })
            &&& pair && op == 19 ==> r == Ok::<Inst, Seq<char>>(Inst::STRREG { reg: d, src: l })
            &&& pair && op == 26 ==> r == Ok::<Inst, Seq<char>>(Inst::JEQ { a: d, b: l, then: k })
            &&& pair && op == 27 ==> r == Ok::<Inst, Seq<char>>(Inst::JNE { a: d, b: l, then: k })
            &&& pair && op == 28 ==> r == Ok::<Inst, Seq<char>>(Inst::JLT { a: d, b: l, then: k })
            &&& pair && op == 29 ==> r == Ok::<Inst, Seq<char>>(Inst::JGT { a: d, b: l, then: k })
            &&& pair && op == 30 ==> r == Ok::<Inst, Seq<char>>(Inst::JLTI { a: d, b: l, then: k })
            &&& pair && op == 31 ==> r == Ok::<Inst, Seq<char>>(Inst::JGTI { a: d, b: l, then: k })
            &&& pair && op == 34 ==> r == Ok::<Inst, Seq<char>>(Inst::OUTS { ptr: d, len: l })
            &&& low && op == 3 ==> r == Ok::<Inst, Seq<char>>(Inst::IMOV { dst: l, src: k })
            &&& low && op == 9 ==> r == Ok::<Inst, Seq<char>>(Inst::IADD { dst: l, src: k })
            &&& low && op == 10 ==> r == Ok::<Inst, Seq<char>>(Inst::ISUB { dst: l, src: k })
            &&& low && op == 11 ==> r == Ok::<Inst, Seq<char>>(Inst::IMUL { dst: l, src: k })
            &&& low && op == 12 ==> r == Ok::<Inst, Seq<char>>(Inst::IDIV { dst: l, src: k })
            &&& low && op == 13 ==> r == Ok::<Inst, Seq<char>>(Inst::IMOD { dst: l, src: k })
            &&& low && op == 16 ==> r == Ok::<Inst, Seq<char>>(Inst::LDR { dst: l, abs: k })
            &&& low && op == 24 ==> r == Ok::<Inst, Seq<char>>(Inst::JIZ { reg: l, then: k })
            &&& low && op == 25 ==> r == Ok::<Inst, Seq<char>>(Inst::JNZ { reg: l, then: k })
            &&& low && op == 35 ==> r == Ok::<Inst, Seq<char>>(Inst::IOUTS { ptr: l, len: k })
            &&& low && op == 20 ==> r == Ok::<Inst, Seq<char>>(Inst::PUSH { src: l })
            &&& low && op == 21 ==> r == Ok::<Inst, Seq<char>>(Inst::POP { dst: l })
            &&& low && op == 32 ==> r == Ok::<Inst, Seq<char>>(Inst::OUTU { reg: l })
            &&& low && op == 33 ==> r == Ok::<Inst, Seq<char>>(Inst::OUTD { reg: l })
        }),
{
    assert(um::cell_index(ip, 0) == ip);
}

/// Undigyte machine: `MOV dst, src` copies the source's value into the
/// destination, `MOV dst, imm` the immediate, and no other register changes.
pub proof fn law_undigyte_moves(s: State, dst: Reg, src: Reg, imm: Undigyte, other: Reg)
    requires
        other != dst,
    ensures
        um::step_spec(s, Inst::MOV { dst, src }).0.1.get_spec(dst) == s.1.get_spec(src),
        um::step_spec(s, Inst::MOV { dst, src }).0.1.get_spec(other) == s.1.get_spec(other),
        um::step_spec(s, Inst::IMOV { dst, src: imm }).0.1.get_spec(dst) == imm,
        um::step_spec(s, Inst::IMOV { dst, src: imm }).0.1.get_spec(other) == s.1.get_spec(other),
        um::step_spec(s, Inst::MOV { dst, src }).0.0 == s.0,
        um::step_spec(s, Inst::MOV { dst, src }).0.2 == s.2,
{
}

/// Undigyte machine: `OUTD r` prints the decimal digits that read as the
/// register's value, `OUTU r` its `0u` notation, which reads back as it; the
/// machine does not change.
pub proof fn law_undigyte_number_output(s: State, r: Reg)
    requires
        s.1.wf(),
    ensures
        ({
            let x = s.1.get_spec(r)@;
            let d = um::step_spec(s, Inst::OUTD { reg: r });
            let u = um::step_spec(s, Inst::OUTU { reg: r });
            &&& d.0 == s && d.2 == Effect::Continue
            &&& d.1.len() >= 1 && all_ascii_digits(d.1) && numeral_value(d.1) == x
            &&& u.0 == s && u.2 == Effect::Continue
            &&& u.1.len() == 4 && u.1[0] == '0' && u.1[1] == 'u'
            &&& undigyte::parse_spec(u.1) == Ok::<nat, Seq<char>>(x)
        }),
{
    let x = s.1.get_spec(r)@;
    lemma_decimal_reads_back(x);
    law_undigyte_notation_reads_back(x);
    reveal_strlit("0u");
    let t = undigyte::notation(x);
    if x / 11 < 10 {
        assert(crate::text::decimal(x / 11).len() == 1);
    }
    if x % 11 < 10 {
        assert(crate::text::decimal(x % 11).len() == 1);
    }
    assert(t[0] == '0' && t[1] == 'u');
}

/// Undigyte machine: `OUTS ptr, len` prints one character per cell, for the
/// `len` cells from `ptr` on round the 121 cells, each character standing for
/// its cell's value.
pub proof fn law_undigyte_text_output(s: State, ptr: Reg, len: Reg)
    requires
        s.1.wf(),
        um::mem_wf(s.0),
    ensures
        ({
            let p = s.1.get_spec(ptr)@;
            let n = s.1.get_spec(len)@;
            let o = um::step_spec(s, Inst::OUTS { ptr, len });
            &&& o.0 == s && o.2 == Effect::Continue
            &&& o.1.len() == n
            &&& forall|i: int|
                0 <= i < n ==> undigyte::char_code(#[trigger] o.1[i]) == Some(
                    s.0[((p + i) % 121) as int]@,
                )
        }),
{
    let p = s.1.get_spec(ptr)@;
    let n = s.1.get_spec(len)@;
    let o = um::step_spec(s, Inst::OUTS { ptr, len });
    assert forall|i: int| 0 <= i < n implies undigyte::char_code(#[trigger] o.1[i]) == Some(
        s.0[((p + i) % 121) as int]@,
    ) by {
        let v = s.0[((p + i) % 121) as int]@;
        assert(v < 121);
        law_undigyte_char_reads_back(v);
    }
}

/// Undigyte machine: `LDR` and `LDRREG` load the cell at the given address
/// (an immediate, or a register's value) into the destination; `STR` and
/// `STRREG` store the source register into that cell and change no other.
pub proof fn law_undigyte_memory(s: State, r: Reg, a: Reg, abs: Undigyte)
    requires
        s.1.wf(),
        um::mem_wf(s.0),
        abs@ < 121,
    ensures
        um::step_spec(s, Inst::LDR { dst: r, abs }).0.1.get_spec(r) == s.0[abs@ as int],
        um::step_spec(s, Inst::LDRREG { dst: r, reg: a }).0.1.get_spec(r) == s.0[s.1.get_spec(
            a,
        )@ as int],
        um::step_spec(s, Inst::STR { abs, src: r }).0 == (s.0.update(
            abs@ as int,
            s.1.get_spec(r),
        ), s.1, s.2),
        um::step_spec(s, Inst::STRREG { reg: a, src: r }).0 == (s.0.update(
            s.1.get_spec(a)@ as int,
            s.1.get_spec(r),
        ), s.1, s.2),
{
}

/// Undigyte machine: `PUSH r` moves the stack pointer one cell down (round
/// the 121 cells) and stores the register there; `POP r` loads the cell at
/// the stack pointer and moves it one up, or stops on the empty stack (stack
/// pointer 120); `CALL a` pushes the address after it and goes to `a`, and
/// `RET` goes to the address on the stack.
pub proof fn law_undigyte_stack(s: State, r: Reg, abs: Undigyte)
    requires
        s.1.wf(),
        um::mem_wf(s.0),
        r != Reg::SP,
        s.2 < 121,
    ensures
        ({
            let sp = s.1.sp@;
            let down = (sp + 120) % 121;
            let push = um::step_spec(s, Inst::PUSH { src: r }).0;
            let pop = um::step_spec(s, Inst::POP { dst: r });
            let call = um::step_spec(s, Inst::CALL { abs }).0;
            let ret = um::step_spec(s, Inst::RET);
            &&& push.1.sp@ == down && push.0 == s.0.update(down as int, s.1.get_spec(r))
            &&& sp == 120 ==> pop.2 == Effect::StackUnderflow && pop.0 == s
            &&& sp < 120 ==> pop.2 == Effect::Continue && pop.0.1.get_spec(r) == s.0[sp as int]
                && pop.0.1.sp@ == sp + 1
            &&& call.1.sp@ == down && call.0[down as int]@ == s.2 && call.2 == abs@
            &&& sp == 120 ==> ret.2 == Effect::StackUnderflow && ret.0 == s
            &&& sp < 120 ==> ret.2 == Effect::Continue && ret.0.2 == s.0[sp as int]@ && ret.0.1.sp@
                == sp + 1
        }),
{
    let sp = s.1.sp@;
    assert(((sp + 121 - 1) as nat) % 121 == (sp + 120) % 121);
    if sp < 120 {
        assert((sp + 1) % 121 == sp + 1);
    }
}

/// Undigyte machine: `NOP` changes nothing and goes on; `HLT` changes nothing
/// and halts.
pub proof fn law_undigyte_nop_hlt(s: State)
    ensures
        um::step_spec(s, Inst::NOP) == (s, Seq::<char>::empty(), Effect::Continue),
        um::step_spec(s, Inst::HLT) == (s, Seq::<char>::empty(), Effect::Halt),
{
}

} // verus!
