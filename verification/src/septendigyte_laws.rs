//! What each septendigyte instruction does, stated in plain arithmetic on
//! register and cell values: arithmetic modulo 289, the digit-wise minimum
//! and maximum, the conditions of the jumps, and which register of an
//! operand cell is the destination.
use crate::encoding_laws::{law_septendigyte_char_reads_back, law_septendigyte_notation_reads_back};
use crate::positional::horner;
use crate::septendigyte;
use crate::text::{all_ascii_digits, lemma_decimal_reads_back, numeral_value};
use crate::radbyte_laws::{law_dmin_dmax_bounds, law_dmin_dmax_digits, law_signed_reading};
use crate::septendigyte::{lemma_septendigyte_digits, lemma_septendigyte_params, Septendigyte};
use crate::septendigyte_machine::{self as sm, Effect, Instruction, Reg};
use vstd::prelude::*;

verus! {

/// The registers of `s` hold `a` in `dst` and `b` in `src`, both in range.
pub open spec fn operands(s: sm::State, dst: Reg, src: Reg) -> bool {
    &&& s.1.len() == 17
    &&& sm::reg_wf(dst)
    &&& sm::reg_wf(src)
    &&& s.1[sm::reg_index(dst) as int] < 289
    &&& s.1[sm::reg_index(src) as int] < 289
}

/// The value `dst` holds after `inst` runs in `s`.
pub open spec fn dst_after(s: sm::State, inst: Instruction, dst: Reg) -> nat {
    sm::step_spec(s, inst).0.1[sm::reg_index(dst) as int]
}

/// Septendigyte machine: `ADD`, `SUB` and `MUL` between registers compute
/// modulo 289 in the destination: the sum, the value that added to the
/// source gives the destination back, and the product.
pub proof fn law_septendigyte_add_sub_mul(s: sm::State, dst: Reg, src: Reg)
    requires
        operands(s, dst, src),
    ensures
        ({
            let a = s.1[sm::reg_index(dst) as int];
            let b = s.1[sm::reg_index(src) as int];
            let sum = dst_after(s, Instruction::ADD { dst, src }, dst);
            let diff = dst_after(s, Instruction::SUB { dst, src }, dst);
            let prod = dst_after(s, Instruction::MUL { dst, src }, dst);
            &&& sum < 289 && sum == (a + b) % 289
            &&& diff < 289 && (diff + b) % 289 == a
            &&& prod < 289 && prod == (a * b) % 289
        }),
{
    lemma_septendigyte_params();
    let a = s.1[sm::reg_index(dst) as int];
    let b = s.1[sm::reg_index(src) as int];
    let diff = ((289 + a - b) as nat) % 289;
    assert(dst_after(s, Instruction::SUB { dst, src }, dst) == diff);
    assert((diff + b) % 289 == a);
}

/// Septendigyte machine: the same with an immediate operand.
pub proof fn law_septendigyte_add_sub_mul_imm(s: sm::State, dst: Reg, imm: Septendigyte)
    requires
        s.1.len() == 17,
        sm::reg_wf(dst),
        s.1[sm::reg_index(dst) as int] < 289,
        imm@ < 289,
    ensures
        ({
            let a = s.1[sm::reg_index(dst) as int];
            let b = imm@;
            let sum = dst_after(s, Instruction::IADD { dst, imm }, dst);
            let diff = dst_after(s, Instruction::ISUB { dst, imm }, dst);
            let prod = dst_after(s, Instruction::IMUL { dst, imm }, dst);
            &&& sum < 289 && sum == (a + b) % 289
            &&& diff < 289 && (diff + b) % 289 == a
            &&& prod < 289 && prod == (a * b) % 289
        }),
{
    lemma_septendigyte_params();
    let a = s.1[sm::reg_index(dst) as int];
    let b = imm@;
    let diff = ((289 + a - b) as nat) % 289;
    assert(dst_after(s, Instruction::ISUB { dst, imm }, dst) == diff);
    assert((diff + b) % 289 == a);
}

/// Septendigyte machine: `DIV` and `MOD` leave the quotient and the remainder
/// in the destination, which recombine to it; a zero divisor stops the
/// machine and changes nothing.
pub proof fn law_septendigyte_div_mod(s: sm::State, dst: Reg, src: Reg)
    requires
        operands(s, dst, src),
    ensures
        ({
            let a = s.1[sm::reg_index(dst) as int];
            let b = s.1[sm::reg_index(src) as int];
            let q = dst_after(s, Instruction::DIV { dst, src }, dst);
            let r = dst_after(s, Instruction::MOD { dst, src }, dst);
            &&& b != 0 ==> q * b + r == a && r < b
            &&& b != 0 ==> sm::step_spec(s, Instruction::DIV { dst, src }).2 == Effect::Continue
            &&& b == 0 ==> sm::step_spec(s, Instruction::DIV { dst, src }) == (
                s,
                Seq::<char>::empty(),
                Effect::DivisionByZero,
            )
            &&& b == 0 ==> sm::step_spec(s, Instruction::MOD { dst, src }) == (
                s,
                Seq::<char>::empty(),
                Effect::DivisionByZero,
            )
        }),
{
    let a = s.1[sm::reg_index(dst) as int];
    let b = s.1[sm::reg_index(src) as int];
    if b != 0 {
        assert(a / b <= a) by (nonlinear_arith)
            requires
                b >= 1,
        ;
        assert((a / b) % 289 == a / b);
        assert(dst_after(s, Instruction::DIV { dst, src }, dst) == a / b);
        assert(dst_after(s, Instruction::MOD { dst, src }, dst) == a % b);
        assert((a / b) * b + a % b == a) by (nonlinear_arith)
            requires
                b >= 1,
        ;
    }
}

/// The high and the low base-17 digit of a value below 289.
pub open spec fn hi17(v: nat) -> nat {
    v / 17
}

pub open spec fn lo17(v: nat) -> nat {
    v % 17
}

pub open spec fn max_nat(a: nat, b: nat) -> nat {
    if a >= b {
        a
    } else {
        b
    }
}

pub open spec fn min_nat(a: nat, b: nat) -> nat {
    if a <= b {
        a
    } else {
        b
    }
}

/// The digit-wise maximum and minimum of two values below 289: at least (at
/// most) both, with the larger (smaller) digit in each place.
proof fn lemma_digitwise(a: nat, b: nat)
    requires
        a < 289,
        b < 289,
    ensures
        ({
            let hi = sm::dmax_value(a, b);
            let lo = sm::dmin_value(a, b);
            &&& hi < 289 && hi >= a && hi >= b
            &&& hi17(hi) == max_nat(hi17(a), hi17(b)) && lo17(hi) == max_nat(lo17(a), lo17(b))
            &&& lo < 289 && lo <= a && lo <= b
            &&& hi17(lo) == min_nat(hi17(a), hi17(b)) && lo17(lo) == min_nat(lo17(a), lo17(b))
        }),
{
    reveal(sm::dmax_value);
    reveal(sm::dmin_value);
    lemma_septendigyte_params();
    law_dmin_dmax_digits::<17, 2>(a, b);
    law_dmin_dmax_bounds::<17, 2>(a, b);
    let hi = sm::dmax_value(a, b);
    let lo = sm::dmin_value(a, b);
    lemma_septendigyte_digits(a);
    lemma_septendigyte_digits(b);
    lemma_septendigyte_digits(hi);
    lemma_septendigyte_digits(lo);
    assert((a / 17) % 17 == a / 17);
    assert((b / 17) % 17 == b / 17);
    assert((hi / 17) % 17 == hi / 17);
    assert((lo / 17) % 17 == lo / 17);
    let dh = Septendigyte::dmax_bytes(a, b);
    let dl = Septendigyte::dmin_bytes(a, b);
    assert(dh[0] == Septendigyte::digit_bytes(hi)[0] && dh[1] == Septendigyte::digit_bytes(hi)[1]);
    assert(dl[0] == Septendigyte::digit_bytes(lo)[0] && dl[1] == Septendigyte::digit_bytes(lo)[1]);
}

/// Septendigyte machine: `DMAX dst, src` leaves in `dst` a value at least both
/// operands whose digits are the larger of theirs; `DMIN` a value at most
/// both, with the smaller digits.
pub proof fn law_septendigyte_dmin_dmax(s: sm::State, dst: Reg, src: Reg)
    requires
        operands(s, dst, src),
    ensures
        ({
            let a = s.1[sm::reg_index(dst) as int];
            let b = s.1[sm::reg_index(src) as int];
            let hi = dst_after(s, Instruction::DMAX { dst, src }, dst);
            let lo = dst_after(s, Instruction::DMIN { dst, src }, dst);
            &&& hi < 289 && hi >= a && hi >= b
            &&& hi17(hi) == max_nat(hi17(a), hi17(b)) && lo17(hi) == max_nat(lo17(a), lo17(b))
            &&& lo < 289 && lo <= a && lo <= b
            &&& hi17(lo) == min_nat(hi17(a), hi17(b)) && lo17(lo) == min_nat(lo17(a), lo17(b))
        }),
{
    let a = s.1[sm::reg_index(dst) as int];
    let b = s.1[sm::reg_index(src) as int];
    lemma_digitwise(a, b);
    assert(dst_after(s, Instruction::DMAX { dst, src }, dst) == sm::dmax_value(a, b));
    assert(dst_after(s, Instruction::DMIN { dst, src }, dst) == sm::dmin_value(a, b));
}

/// Septendigyte machine: the same with an immediate operand.
pub proof fn law_septendigyte_dmin_dmax_imm(s: sm::State, dst: Reg, imm: Septendigyte)
    requires
        s.1.len() == 17,
        sm::reg_wf(dst),
        s.1[sm::reg_index(dst) as int] < 289,
        imm@ < 289,
    ensures
        ({
            let a = s.1[sm::reg_index(dst) as int];
            let b = imm@;
            let hi = dst_after(s, Instruction::IDMAX { dst, imm }, dst);
            let lo = dst_after(s, Instruction::IDMIN { dst, imm }, dst);
            &&& hi < 289 && hi >= a && hi >= b
            &&& hi17(hi) == max_nat(hi17(a), hi17(b)) && lo17(hi) == max_nat(lo17(a), lo17(b))
            &&& lo < 289 && lo <= a && lo <= b
            &&& hi17(lo) == min_nat(hi17(a), hi17(b)) && lo17(lo) == min_nat(lo17(a), lo17(b))
        }),
{
    let a = s.1[sm::reg_index(dst) as int];
    let b = imm@;
    lemma_digitwise(a, b);
    assert(dst_after(s, Instruction::IDMAX { dst, imm }, dst) == sm::dmax_value(a, b));
    assert(dst_after(s, Instruction::IDMIN { dst, imm }, dst) == sm::dmin_value(a, b));
}

/// The signed reading of a value below 289: itself up to 144, itself minus
/// 289 above.
pub open spec fn signed289(v: nat) -> int {
    if v <= 144 {
        v as int
    } else {
        v - 289
    }
}

/// Septendigyte machine: each conditional jump goes to its target exactly
/// when its condition on the register values holds, and otherwise leaves the
/// instruction pointer; none of them changes registers or memory.
pub proof fn law_septendigyte_jumps(s: sm::State, a: Reg, b: Reg, then: Septendigyte)
    requires
        operands(s, a, b),
    ensures
        ({
            let x = s.1[sm::reg_index(a) as int];
            let y = s.1[sm::reg_index(b) as int];
            let t = then@;
            let ip = s.2;
            &&& sm::step_spec(s, Instruction::JIZ { reg: a, then }).0 == (s.0, s.1, if x == 0 { t } else { ip })
            &&& sm::step_spec(s, Instruction::JNZ { reg: a, then }).0 == (s.0, s.1, if x != 0 { t } else { ip })
            &&& sm::step_spec(s, Instruction::JEQ { a, b, then }).0 == (s.0, s.1, if x == y { t } else { ip })
            &&& sm::step_spec(s, Instruction::JNE { a, b, then }).0 == (s.0, s.1, if x != y { t } else { ip })
            &&& sm::step_spec(s, Instruction::JLT { a, b, then }).0 == (s.0, s.1, if x < y { t } else { ip })
            &&& sm::step_spec(s, Instruction::JGT { a, b, then }).0 == (s.0, s.1, if x > y { t } else { ip })
            &&& sm::step_spec(s, Instruction::JLTI { a, b, then }).0 == (s.0, s.1, if signed289(x)
                < signed289(y) {
                t
            } else {
                ip
            })
            &&& sm::step_spec(s, Instruction::JGTI { a, b, then }).0 == (s.0, s.1, if signed289(x)
                > signed289(y) {
                t
            } else {
                ip
            })
            &&& sm::step_spec(s, Instruction::JMP { addr: then }).0 == (s.0, s.1, t)
        }),
{
    let x = s.1[sm::reg_index(a) as int];
    let y = s.1[sm::reg_index(b) as int];
    lemma_septendigyte_params();
    reveal(sm::signed_value);
    law_signed_reading::<17, 2>(x);
    law_signed_reading::<17, 2>(y);
    assert(sm::signed_value(x) == signed289(x));
    assert(sm::signed_value(y) == signed289(y));
}

/// Septendigyte machine: negation leaves the value that added to the old one
/// gives 0 modulo 289.
pub proof fn law_septendigyte_neg(s: sm::State, dst: Reg)
    requires
        operands(s, dst, dst),
    ensures
        ({
            let a = s.1[sm::reg_index(dst) as int];
            let n = dst_after(s, Instruction::NEG { dst }, dst);
            n < 289 && (n + a) % 289 == 0
        }),
{
    lemma_septendigyte_params();
}

/// Septendigyte decoding: in the operand cell after the opcode, the high
/// digit names the first register (the destination, or the first compared)
/// and the low digit the second; an instruction with one register and an
/// immediate takes the register from the low digit and the immediate from
/// the cell after.
pub proof fn law_septendigyte_decode_registers(mem: Seq<Septendigyte>, ip: nat)
    requires
        ip < 289,
    ensures
        ({
            let op = mem[ip as int]@;
            let c = mem[((ip + 1) % 289) as int]@;
            let k = mem[((ip + 2) % 289) as int];
            let d = sm::reg_of((c / 17) % 17);
            let l = sm::reg_of(c % 17);
            let r = sm::decode_spec(mem, ip).0;
            &&& op == 17 ==> r == Ok::<Instruction, Seq<char>>(Instruction::MOV { dst: d, src: l })
            &&& op == 20 ==> r == Ok::<Instruction, Seq<char>>(Instruction::LDRREG { dst: d, reg: l })
            &&& op == 22 ==> r == Ok::<Instruction, Seq<char>>(Instruction::STRREG { reg: d, src: l })
            &&& op == 34 ==> r == Ok::<Instruction, Seq<char>>(Instruction::ADD { dst: d, src: l })
            &&& op == 35 ==> r == Ok::<Instruction, Seq<char>>(Instruction::SUB { dst: d, src: l })
            &&& op == 36 ==> r == Ok::<Instruction, Seq<char>>(Instruction::MUL { dst: d, src: l })
            &&& op == 37 ==> r == Ok::<Instruction, Seq<char>>(Instruction::DIV { dst: d, src: l })
            &&& op == 38 ==> r == Ok::<Instruction, Seq<char>>(Instruction::MOD { dst: d, src: l })
            &&& op == 46 ==> r == Ok::<Instruction, Seq<char>>(Instruction::DMIN { dst: d, src: l })
            &&& op == 47 ==> r == Ok::<Instruction, Seq<char>>(Instruction::DMAX { dst: d, src: l })
            &&& op == 53 ==> r == Ok::<Instruction, Seq<char>>(Instruction::JEQ { a: d, b: l, then: k })
            &&& op == 54 ==> r == Ok::<Instruction, Seq<char>>(Instruction::JNE { a: d, b: l, then: k })
            &&& op == 55 ==> r == Ok::<Instruction, Seq<char>>(Instruction::JLT { a: d, b: l, then: k })
            &&& op == 56 ==> r == Ok::<Instruction, Seq<char>>(Instruction::JGT { a: d, b: l, then: k })
            &&& op == 57 ==> r == Ok::<Instruction, Seq<char>>(Instruction::JLTI { a: d, b: l, then: k })
            &&& op == 58 ==> r == Ok::<Instruction, Seq<char>>(Instruction::JGTI { a: d, b: l, then: k })
            &&& op == 89 ==> r == Ok::<Instruction, Seq<char>>(Instruction::OUTS { ptr: d, len: l })
            &&& op == 18 ==> r == Ok::<Instruction, Seq<char>>(Instruction::IMOV { dst: l, imm: k })
            &&& op == 39 ==> r == Ok::<Instruction, Seq<char>>(Instruction::IADD { dst: l, imm: k })
            &&& op == 40 ==> r == Ok::<Instruction, Seq<char>>(Instruction::ISUB { dst: l, imm: k })
            &&& op == 41 ==> r == Ok::<Instruction, Seq<char>>(Instruction::IMUL { dst: l, imm: k })
            &&& op == 42 ==> r == Ok::<Instruction, Seq<char>>(Instruction::IDIV { dst: l, imm: k })
            &&& op == 43 ==> r == Ok::<Instruction, Seq<char>>(Instruction::IMOD { dst: l, imm: k })
            &&& op == 48 ==> r == Ok::<Instruction, Seq<char>>(Instruction::IDMIN { dst: l, imm: k })
            &&& op == 49 ==> r == Ok::<Instruction, Seq<char>>(Instruction::IDMAX { dst: l, imm: k })
        }),
{
    assert((ip + 0) % 289 == ip);
}

/// Septendigyte machine: `MOV dst, src` copies the source's value into the
/// destination, `MOV dst, imm` the immediate, and no other register changes.
pub proof fn law_septendigyte_moves(s: sm::State, dst: Reg, src: Reg, imm: Septendigyte, other: Reg)
    requires
        s.1.len() == 17,
        sm::reg_wf(dst),
        sm::reg_wf(src),
        sm::reg_wf(other),
        other != dst,
    ensures
        dst_after(s, Instruction::MOV { dst, src }, dst) == s.1[sm::reg_index(src) as int],
        dst_after(s, Instruction::MOV { dst, src }, other) == s.1[sm::reg_index(other) as int],
        dst_after(s, Instruction::IMOV { dst, imm }, dst) == imm@,
        dst_after(s, Instruction::IMOV { dst, imm }, other) == s.1[sm::reg_index(other) as int],
        sm::step_spec(s, Instruction::MOV { dst, src }).0.0 == s.0,
        sm::step_spec(s, Instruction::MOV { dst, src }).0.2 == s.2,
{
    assert(sm::reg_index(other) != sm::reg_index(dst));
}

/// Septendigyte machine: `DNOT` replaces each base-17 digit `d` of a value in
/// range by `288 - d` kept to a byte, that is `32 - d`, and reads the digits
/// back in base 17.
pub proof fn law_septendigyte_dnot(s: sm::State, dst: Reg)
    requires
        operands(s, dst, dst),
    ensures
        ({
            let a = s.1[sm::reg_index(dst) as int];
            dst_after(s, Instruction::DNOT { dst }, dst) == (32 - hi17(a)) * 17 + (32 - lo17(a))
        }),
{
    reveal(sm::dnot_value);
    lemma_septendigyte_params();
    let a = s.1[sm::reg_index(dst) as int];
    lemma_septendigyte_digits(a);
    assert((a / 17) % 17 == a / 17);
    let bs = Septendigyte::dnot_bytes(a);
    let p = (32 - a / 17) as nat;
    let q = (32 - a % 17) as nat;
    assert(bs[0] as nat == p && bs[1] as nat == q);
    let vs = bs.map_values(|d: u8| d as nat);
    assert(vs =~= seq![p, q]);
    assert(seq![p, q].drop_last() =~= seq![p]);
    assert(seq![p].drop_last() =~= Seq::<nat>::empty());
    assert(horner(Seq::<nat>::empty(), 17) == 0);
    assert(horner(seq![p], 17) == p);
    assert(horner(seq![p, q], 17) == p * 17 + q);
    assert(p * 17 + q < 0x10000);
    assert(dst_after(s, Instruction::DNOT { dst }, dst) == sm::dnot_value(a));
}

/// Septendigyte machine: `OUT10 r` prints the decimal digits that read as the
/// register's value, `OUT17 r` its `0s` notation, which reads back as it, and
/// `OUTC r` the one character that stands for it; the machine does not change.
pub proof fn law_septendigyte_register_output(s: sm::State, r: Reg)
    requires
        operands(s, r, r),
    ensures
        ({
            let x = s.1[sm::reg_index(r) as int];
            let d = sm::step_spec(s, Instruction::OUT10 { reg: r });
            let u = sm::step_spec(s, Instruction::OUT17 { reg: r });
            let c = sm::step_spec(s, Instruction::OUTC { reg: r });
            &&& d.0 == s && u.0 == s && c.0 == s
            &&& d.1.len() >= 1 && all_ascii_digits(d.1) && numeral_value(d.1) == x
            &&& u.1.len() == 4 && u.1[0] == '0' && u.1[1] == 's'
            &&& septendigyte::parse_spec(u.1) == Ok::<nat, Seq<char>>(x)
            &&& c.1.len() == 1 && septendigyte::value_of_char(c.1[0]) == Some(x)
        }),
{
    let x = s.1[sm::reg_index(r) as int];
    lemma_decimal_reads_back(x);
    law_septendigyte_notation_reads_back(x);
    reveal_strlit("0s");
    let t = septendigyte::notation(x);
    assert(t[0] == '0' && t[1] == 's');
    law_septendigyte_char_reads_back(x);
    assert(septendigyte::grid_index(x) == x);
}

/// Septendigyte machine: `OUTS ptr, len` prints one character per cell, for
/// the `len` cells from `ptr` on round the 289 cells, each standing for its
/// cell's value (where that value is in range).
pub proof fn law_septendigyte_text_output(s: sm::State, ptr: Reg, len: Reg)
    requires
        operands(s, ptr, len),
    ensures
        ({
            let p = s.1[sm::reg_index(ptr) as int];
            let n = s.1[sm::reg_index(len) as int];
            let o = sm::step_spec(s, Instruction::OUTS { ptr, len });
            &&& o.0 == s
            &&& o.1.len() == n
            &&& forall|i: int|
                0 <= i < n && s.0[((p + i) % 289) as int] < 289 ==> septendigyte::value_of_char(
                    #[trigger] o.1[i],
                ) == Some(s.0[((p + i) % 289) as int])
        }),
{
    let p = s.1[sm::reg_index(ptr) as int];
    let n = s.1[sm::reg_index(len) as int];
    let o = sm::step_spec(s, Instruction::OUTS { ptr, len });
    assert forall|i: int|
        0 <= i < n && s.0[((p + i) % 289) as int] < 289 implies septendigyte::value_of_char(
        #[trigger] o.1[i],
    ) == Some(s.0[((p + i) % 289) as int]) by {
        let v = s.0[((p + i) % 289) as int];
        law_septendigyte_char_reads_back(v);
        assert(septendigyte::grid_index(v) == v);
    }
}

/// Septendigyte machine: `LDR` and `LDRREG` load the cell at the given
/// address into the destination; `STR` and `STRREG` store the source
/// register into that cell and change no other.
pub proof fn law_septendigyte_memory(s: sm::State, r: Reg, a: Reg, addr: Septendigyte)
    requires
        s.1.len() == 17,
        sm::reg_wf(r),
        sm::reg_wf(a),
    ensures
        dst_after(s, Instruction::LDR { dst: r, addr }, r) == s.0[addr@ as int],
        dst_after(s, Instruction::LDRREG { dst: r, reg: a }, r) == s.0[s.1[sm::reg_index(
            a,
        ) as int] as int],
        sm::step_spec(s, Instruction::STR { addr, src: r }).0 == (s.0.update(
            addr@ as int,
            s.1[sm::reg_index(r) as int],
        ), s.1, s.2),
        sm::step_spec(s, Instruction::STRREG { reg: a, src: r }).0 == (s.0.update(
            s.1[sm::reg_index(a) as int] as int,
            s.1[sm::reg_index(r) as int],
        ), s.1, s.2),
{
}

/// Septendigyte machine: `PUSH r` stores the register at the stack pointer and
/// then moves the pointer one cell down (round 289); `POP r` moves it one up
/// and loads that cell, or stops on the empty stack (pointer 288); `CALL a`
/// stores `a` itself at the stack pointer and goes to `a`; `RET` goes to the
/// address one cell up.
pub proof fn law_septendigyte_stack(s: sm::State, r: Reg, addr: Septendigyte)
    requires
        s.1.len() == 17,
        sm::reg_wf(r),
        r != Reg::SP,
        s.1[15] < 289,
    ensures
        ({
            let sp = s.1[15];
            let down = (sp + 288) % 289;
            let push = sm::step_spec(s, Instruction::PUSH { src: r }).0;
            let pop = sm::step_spec(s, Instruction::POP { dst: r });
            let call = sm::step_spec(s, Instruction::CALL { addr }).0;
            let ret = sm::step_spec(s, Instruction::RET);
            &&& push.1[15] == down && push.0 == s.0.update(sp as int, s.1[sm::reg_index(r) as int])
            &&& sp == 288 ==> pop.2 == Effect::StackUnderflow && pop.0 == s
            &&& sp < 288 ==> pop.2 == Effect::Continue && pop.0.1[sm::reg_index(r) as int] == s.0[sp
                + 1int] && pop.0.1[15] == sp + 1
            &&& call.1[15] == down && call.0 == s.0.update(sp as int, addr@) && call.2 == addr@
            &&& sp == 288 ==> ret.2 == Effect::StackUnderflow && ret.0 == s
            &&& sp < 288 ==> ret.2 == Effect::Continue && ret.0.2 == s.0[sp + 1int] && ret.0.1[15] == sp
                + 1
        }),
{
    lemma_septendigyte_params();
    let sp = s.1[15];
    assert(((289 + sp - 1) as nat) % 289 == (sp + 288) % 289);
    assert(sm::reg_index(r) != 15);
    if sp < 288 {
        assert((sp + 1) % 289 == sp + 1);
    }
}

/// Septendigyte machine: `NOP` changes nothing and goes on; `HLT` changes
/// nothing and halts.
pub proof fn law_septendigyte_nop_hlt(s: sm::State)
    ensures
        sm::step_spec(s, Instruction::NOP) == (s, Seq::<char>::empty(), Effect::Continue),
        sm::step_spec(s, Instruction::HLT) == (s, Seq::<char>::empty(), Effect::Halt),
{
}

} // verus!
