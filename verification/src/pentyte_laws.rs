//! What each pentyte instruction does, stated in plain arithmetic on cell
//! values: which cell it changes and to what, when a jump jumps, in which
//! order the operands follow the operation, and which characters a program
//! is loaded from.
use crate::pentyte::{char_of_value, lemma_pentyte_params, value_of_char, Pentyte};
use crate::pentyte_machine::{self as pm, Effect, Instruction, Opcode};
use vstd::prelude::*;

verus! {

/// An instruction with the operands `a`, `b`, `c` (those given as `None` absent).
pub open spec fn inst(
    opcode: Opcode,
    a: Option<Pentyte>,
    b: Option<Pentyte>,
    c: Option<Pentyte>,
) -> Instruction {
    Instruction { opcode, operand: a, operand2: b, operand3: c }
}

/// Cells that hold pentytes in range.
pub open spec fn cells_ok(mem: Seq<nat>) -> bool {
    &&& mem.len() >= 25
    &&& forall|i: int| 0 <= i < mem.len() ==> #[trigger] mem[i] < 125
}

/// Pentyte machine: `JLT a b c`, `JGT a b c` and `JEQ a b c` go to cell
/// `a mod 25` exactly when the cell `b mod 25` is less than, greater than, or
/// equal to `c`; `JIZ a b` and `JNZ a b` when that cell is zero or not; `JMP a`
/// always. Otherwise the instruction pointer stays; memory never changes.
#[verifier::spinoff_prover]
#[verifier::rlimit(30)]
pub proof fn law_pentyte_jumps(mem: Seq<nat>, ip: nat, a: Pentyte, b: Pentyte, c: Pentyte)
    requires
        mem.len() >= 25,
    ensures
        ({
            let x = mem[(b@ % 25) as int];
            let t = a@ % 25;
            let none = Seq::<char>::empty();
            let go = Effect::Continue;
            &&& pm::step_spec(mem, ip, inst(Opcode::JLT, Some(a), Some(b), Some(c))) == (mem, if x
                < c@ {
                t
            } else {
                ip
            }, none, go)
            &&& pm::step_spec(mem, ip, inst(Opcode::JGT, Some(a), Some(b), Some(c))) == (mem, if x
                > c@ {
                t
            } else {
                ip
            }, none, go)
            &&& pm::step_spec(mem, ip, inst(Opcode::JEQ, Some(a), Some(b), Some(c))) == (mem, if x
                == c@ {
                t
            } else {
                ip
            }, none, go)
            &&& pm::step_spec(mem, ip, inst(Opcode::JIZ, Some(a), Some(b), None)) == (mem, if x
                == 0 {
                t
            } else {
                ip
            }, none, go)
            &&& pm::step_spec(mem, ip, inst(Opcode::JNZ, Some(a), Some(b), None)) == (mem, if x
                != 0 {
                t
            } else {
                ip
            }, none, go)
            &&& pm::step_spec(mem, ip, inst(Opcode::JMP, Some(a), None, None)) == (mem, t, none, go)
        }),
{
}

/// Pentyte machine: `JLT` and `JGT` with the same operands never both jump.
pub proof fn law_pentyte_jlt_jgt_exclusive(mem: Seq<nat>, ip: nat, a: Pentyte, b: Pentyte, c: Pentyte)
    requires
        mem.len() >= 25,
        ip != a@ % 25,
    ensures
        !(pm::step_spec(mem, ip, inst(Opcode::JLT, Some(a), Some(b), Some(c))).1 == a@ % 25
            && pm::step_spec(mem, ip, inst(Opcode::JGT, Some(a), Some(b), Some(c))).1 == a@ % 25),
{
    law_pentyte_jumps(mem, ip, a, b, c);
}

/// Pentyte machine: `INC a`, `DEC a` and `FLP a` change only cell `a mod 25`:
/// `INC` adds one (124 goes round to 0), `DEC` leaves the value that `INC`
/// takes back to the old one, and `FLP` leaves the value that adds up with
/// the old one to 124.
#[verifier::spinoff_prover]
#[verifier::rlimit(30)]
pub proof fn law_pentyte_inc_dec_flp(mem: Seq<nat>, ip: nat, a: Pentyte)
    requires
        cells_ok(mem),
    ensures
        ({
            let k = (a@ % 25) as int;
            let x = mem[k];
            let inc = pm::step_spec(mem, ip, inst(Opcode::INC, Some(a), None, None));
            let dec = pm::step_spec(mem, ip, inst(Opcode::DEC, Some(a), None, None));
            let flp = pm::step_spec(mem, ip, inst(Opcode::FLP, Some(a), None, None));
            &&& inc.0 == mem.update(k, inc.0[k]) && inc.1 == ip && inc.3 == Effect::Continue
            &&& dec.0 == mem.update(k, dec.0[k]) && dec.1 == ip && dec.3 == Effect::Continue
            &&& flp.0 == mem.update(k, flp.0[k]) && flp.1 == ip && flp.3 == Effect::Continue
            &&& x < 124 ==> inc.0[k] == x + 1
            &&& x == 124 ==> inc.0[k] == 0
            &&& dec.0[k] < 125 && (dec.0[k] + 1) % 125 == x
            &&& flp.0[k] + x == 124
        }),
{
    let k = (a@ % 25) as int;
    let x = mem[k];
    assert(x < 125);
    assert(mem.update(k, (x + 1) % 125).update(k, (x + 1) % 125) =~= mem.update(k, (x + 1) % 125));
    let d = ((125 + x - 1) as nat) % 125;
    assert(mem.update(k, d).update(k, d) =~= mem.update(k, d));
    assert((d + 1) % 125 == x);
    let f = (124 - x % 125) as nat;
    assert(mem.update(k, f).update(k, f) =~= mem.update(k, f));
}

/// Pentyte machine: `ADD a b`, `SUB a b`, `MUL a b` and `DIV a b` change only
/// cell `a mod 25`, by the operand `b` itself, modulo 125: the sum, the value
/// that added to `b` gives the old one back, the product, and the quotient;
/// a zero divisor stops the machine and changes nothing.
#[verifier::spinoff_prover]
#[verifier::rlimit(30)]
pub proof fn law_pentyte_arithmetic(mem: Seq<nat>, ip: nat, a: Pentyte, b: Pentyte)
    requires
        cells_ok(mem),
        b@ < 125,
    ensures
        ({
            let k = (a@ % 25) as int;
            let x = mem[k];
            let v = b@;
            let add = pm::step_spec(mem, ip, inst(Opcode::ADD, Some(a), Some(b), None));
            let sub = pm::step_spec(mem, ip, inst(Opcode::SUB, Some(a), Some(b), None));
            let mul = pm::step_spec(mem, ip, inst(Opcode::MUL, Some(a), Some(b), None));
            let div = pm::step_spec(mem, ip, inst(Opcode::DIV, Some(a), Some(b), None));
            &&& add.0 == mem.update(k, (x + v) % 125) && add.1 == ip
            &&& sub.0 == mem.update(k, sub.0[k]) && sub.1 == ip && sub.0[k] < 125
            &&& (sub.0[k] + v) % 125 == x
            &&& mul.0 == mem.update(k, (x * v) % 125) && mul.1 == ip
            &&& v != 0 ==> div.0 == mem.update(k, x / v) && div.1 == ip && div.3 == Effect::Continue
            &&& v == 0 ==> div == (mem, ip, Seq::<char>::empty(), Effect::DivisionByZero)
        }),
{
    lemma_pentyte_params();
    let k = (a@ % 25) as int;
    let x = mem[k];
    let v = b@;
    assert(x < 125);
    let d = ((125 + x - v) as nat) % 125;
    assert(mem.update(k, d).update(k, d) =~= mem.update(k, d));
    assert((d + v) % 125 == x);
    if v != 0 {
        assert(x / v <= x) by (nonlinear_arith)
            requires
                v >= 1,
        ;
        assert((x / v) % 125 == x / v);
    }
}

/// Pentyte machine: `PRT a` prints the character of cell `a mod 25` and
/// changes nothing.
pub proof fn law_pentyte_print(mem: Seq<nat>, ip: nat, a: Pentyte)
    requires
        mem.len() >= 25,
    ensures
        pm::step_spec(mem, ip, inst(Opcode::PRT, Some(a), None, None)) == (
            mem,
            ip,
            seq![char_of_value(mem[(a@ % 25) as int])],
            Effect::Continue,
        ),
{
}

/// Pentyte decoding: the operation is the number of the cell at `ip` modulo
/// 25, and its operands are the cells after it, in order, round the 25
/// cells.
#[verifier::spinoff_prover]
#[verifier::rlimit(30)]
pub proof fn law_pentyte_decode_operands(mem: Seq<Pentyte>, ip: nat)
    requires
        ip < 25,
    ensures
        ({
            let op = mem[ip as int]@ % 25;
            let c1 = Some(mem[((ip + 1) % 25) as int]);
            let c2 = Some(mem[((ip + 2) % 25) as int]);
            let c3 = Some(mem[((ip + 3) % 25) as int]);
            let n = None::<Pentyte>;
            let r = pm::decode_spec(mem, ip);
            &&& op == 0 ==> r == (Ok::<Instruction, Seq<char>>(inst(Opcode::DON, n, n, n)), 1nat)
            &&& op == 1 ==> r == (Ok::<Instruction, Seq<char>>(inst(Opcode::PRT, c1, n, n)), 2nat)
            &&& op == 2 ==> r == (Ok::<Instruction, Seq<char>>(inst(Opcode::INC, c1, n, n)), 2nat)
            &&& op == 3 ==> r == (Ok::<Instruction, Seq<char>>(inst(Opcode::DEC, c1, n, n)), 2nat)
            &&& op == 4 ==> r == (Ok::<Instruction, Seq<char>>(inst(Opcode::FLP, c1, n, n)), 2nat)
            &&& op == 5 ==> r == (Ok::<Instruction, Seq<char>>(inst(Opcode::JMP, c1, n, n)), 2nat)
            &&& op == 6 ==> r == (Ok::<Instruction, Seq<char>>(inst(Opcode::JIZ, c1, c2, n)), 3nat)
            &&& op == 7 ==> r == (Ok::<Instruction, Seq<char>>(inst(Opcode::JNZ, c1, c2, n)), 3nat)
            &&& op == 8 ==> r == (Ok::<Instruction, Seq<char>>(inst(Opcode::ADD, c1, c2, n)), 3nat)
            &&& op == 9 ==> r == (Ok::<Instruction, Seq<char>>(inst(Opcode::SUB, c1, c2, n)), 3nat)
            &&& op == 10 ==> r == (Ok::<Instruction, Seq<char>>(inst(Opcode::MUL, c1, c2, n)), 3nat)
            &&& op == 11 ==> r == (Ok::<Instruction, Seq<char>>(inst(Opcode::DIV, c1, c2, n)), 3nat)
            &&& op == 12 ==> r == (Ok::<Instruction, Seq<char>>(inst(Opcode::JLT, c1, c2, c3)), 4nat)
            &&& op == 13 ==> r == (Ok::<Instruction, Seq<char>>(inst(Opcode::JGT, c1, c2, c3)), 4nat)
            &&& op == 14 ==> r == (Ok::<Instruction, Seq<char>>(inst(Opcode::JEQ, c1, c2, c3)), 4nat)
            &&& op == 24 ==> r == (Ok::<Instruction, Seq<char>>(inst(Opcode::END, n, n, n)), 1nat)
            &&& (15 <= op < 24) ==> r.0 is Err && r.1 == 1
        }),
{
    assert((ip + 0) % 25 == ip);
    assert((ip + 1 + 1) % 25 == (ip + 2) % 25);
    assert((ip + 1 + 1 + 1) % 25 == (ip + 3) % 25);
}

/// Loading characters gives, where it succeeds, one value per character, the
/// value each character stands for.
proof fn lemma_load_chars_values(cs: Seq<char>)
    ensures
        pm::load_chars(cs) matches Ok(vs) ==> vs.len() == cs.len() && forall|i: int|
            0 <= i < cs.len() ==> value_of_char(#[trigger] cs[i]) == Some(vs[i]),
    decreases cs.len(),
{
    if cs.len() > 0 {
        let p = cs.drop_last();
        lemma_load_chars_values(p);
        if let (Ok(vs), Ok(ps)) = (pm::load_chars(cs), pm::load_chars(p)) {
            assert(vs == ps.push(vs.last()));
            assert forall|i: int| 0 <= i < cs.len() implies value_of_char(#[trigger] cs[i]) == Some(
                vs[i],
            ) by {
                if i < cs.len() - 1 {
                    assert(cs[i] == p[i]);
                    assert(vs[i] == ps[i]);
                }
            }
        }
    }
}

/// Pentyte loading reads the first 25 characters only: a longer source loads
/// as its first 25 characters do, and a loaded program holds in cell `i` the
/// value of character `i`.
pub proof fn law_pentyte_load_first_25(src: Seq<char>)
    ensures
        src.len() > 25 ==> pm::load_spec(src) == pm::load_spec(src.take(25)),
        pm::load_spec(src) matches Ok(vs) ==> src.len() >= 25 && vs.len() == 25 && forall|i: int|
            0 <= i < 25 ==> value_of_char(#[trigger] src[i]) == Some(vs[i]),
{
    let head = if src.len() <= 25 {
        src
    } else {
        src.take(25)
    };
    if src.len() > 25 {
        assert(src.take(25).take(25) =~= src.take(25));
    }
    lemma_load_chars_values(head);
    if let Ok(vs) = pm::load_spec(src) {
        assert forall|i: int| 0 <= i < 25 implies value_of_char(#[trigger] src[i]) == Some(vs[i]) by {
            assert(head[i] == src[i]);
        }
    }
}

/// Pentyte machine: `DON` changes nothing and goes on; `END` changes nothing
/// and halts.
pub proof fn law_pentyte_don_end(mem: Seq<nat>, ip: nat)
    requires
        mem.len() >= 25,
    ensures
        pm::step_spec(mem, ip, inst(Opcode::DON, None, None, None)) == (
            mem,
            ip,
            Seq::<char>::empty(),
            Effect::Continue,
        ),
        pm::step_spec(mem, ip, inst(Opcode::END, None, None, None)) == (
            mem,
            ip,
            Seq::<char>::empty(),
            Effect::Halt,
        ),
{
}

} // verus!
