//! The septendigyte machine: memory of septendigytes, fifteen general
//! registers with a stack pointer and a base pointer, and an instruction set
//! decoded from the cells at the instruction pointer (addresses count round
//! 289 cells).
use crate::radbyte::RadixByte;
use crate::septendigyte::{
    char_of_value, decimal_of, grid_index, lemma_septendigyte_digits, lemma_septendigyte_params,
    notation, notation_of, parse_error_text, parse_septendigyte, parse_spec, septendigyte2char,
    Septendigyte,
};
use crate::text::{
    append_chars, append_str, chars_of, decimal, digit_char, program_tokens, push_decimal,
    string_of, token_view, tokenize,
};
use crate::machine::Machine;
use vstd::prelude::*;

verus! {

/// A register: `R(0)` to `R(14)`, the stack pointer and the base pointer.
#[derive(Clone, Copy, PartialEq, Eq, Structural, PartialOrd, Ord, Debug)]
pub enum Reg {
    R(usize),
    SP,
    BP,
}

/// A register that exists: general registers are numbered below 15.
pub open spec fn reg_wf(r: Reg) -> bool {
    r matches Reg::R(v) ==> v < 15
}

/// The register's place in the register file: 0 to 14, then 15 for the
/// stack pointer and 16 for the base pointer.
pub open spec fn reg_index(r: Reg) -> nat {
    match r {
        Reg::R(v) => v as nat,
        Reg::SP => 15,
        Reg::BP => 16,
    }
}

/// The register numbered `v`.
pub open spec fn reg_of(v: nat) -> Reg {
    if v < 15 {
        Reg::R(v as usize)
    } else if v == 15 {
        Reg::SP
    } else {
        Reg::BP
    }
}

/// The name a register is shown by: `r0` to `re`, `sp`, `bp`.
pub open spec fn reg_name(r: Reg) -> Seq<char> {
    match r {
        Reg::R(v) => seq!['r', if v < 10 {
            digit_char(v as nat)
        } else if v == 10 {
            'a'
        } else if v == 11 {
            'b'
        } else if v == 12 {
            'c'
        } else if v == 13 {
            'd'
        } else {
            'e'
        }],
        Reg::SP => "sp"@,
        Reg::BP => "bp"@,
    }
}

impl Reg {
    /// The register numbered `v`.
    pub fn decode(v: u8) -> (r: Reg)
        requires
            v < 17,
        ensures
            r == reg_of(v as nat),
            reg_wf(r),
    {
        if v < 15 {
            Reg::R(v as usize)
        } else if v == 15 {
            Reg::SP
        } else {
            Reg::BP
        }
    }

    /// The name the register is shown by.
    pub fn name(self) -> (r: Vec<char>)
        requires
            reg_wf(self),
        ensures
            r@ == reg_name(self),
    {
        match self {
            Reg::R(v) => {
                let c = if v < 10 {
                    crate::text::digit_to_char(v as u64)
                } else if v == 10 {
                    'a'
                } else if v == 11 {
                    'b'
                } else if v == 12 {
                    'c'
                } else if v == 13 {
                    'd'
                } else {
                    'e'
                };
                let mut n: Vec<char> = Vec::new();
                n.push('r');
                n.push(c);
                assert(n@ =~= reg_name(self));
                n
            },
            Reg::SP => chars_of("sp"),
            Reg::BP => chars_of("bp"),
        }
    }

    /// All registers, in the order of the register dump.
    pub fn all() -> (r: Vec<Reg>)
        ensures
            r@.len() == 17,
            forall|i: int| 0 <= i < 17 ==> #[trigger] r@[i] == reg_of(i as nat),
    {
        let mut r: Vec<Reg> = Vec::new();
        let mut i: u8 = 0;
        while i < 17
            invariant
                i <= 17,
                r@.len() == i,
                forall|j: int| 0 <= j < i ==> #[trigger] r@[j] == reg_of(j as nat),
            decreases 17 - i,
        {
            r.push(Reg::decode(i));
            i += 1;
        }
        r
    }
}

/// The register file.
pub struct Regs {
    pub r: [Septendigyte; 15],
    pub sp: Septendigyte,
    pub bp: Septendigyte,
}

impl Regs {
    /// The values of the 17 registers, in register-file order.
    pub open spec fn values(&self) -> Seq<nat> {
        Seq::new(
            17,
            |i: int|
                if i < 15 {
                    self.r@[i]@
                } else if i == 15 {
                    self.sp@
                } else {
                    self.bp@
                },
        )
    }

    /// The registers at start: all zero but the stack pointer, which is 288.
    pub fn new() -> (r: Regs)
        ensures
            r.values() == Seq::new(17, |i: int| if i == 15 { 288nat } else { 0nat }),
    {
        proof {
            lemma_septendigyte_params();
        }
        let r = Regs {
            r: [Septendigyte::min_value();15],
            sp: Septendigyte::max_value(),
            bp: Septendigyte::min_value(),
        };
        assert(r.values() =~= Seq::new(17, |i: int| if i == 15 { 288nat } else { 0nat }));
        r
    }

    /// The value of register `reg`.
    pub fn get(&self, reg: Reg) -> (v: Septendigyte)
        requires
            reg_wf(reg),
        ensures
            v@ == self.values()[reg_index(reg) as int],
    {
        match reg {
            Reg::R(v) => self.r[v],
            Reg::SP => self.sp,
            Reg::BP => self.bp,
        }
    }

    /// Sets register `reg` to `v`.
    pub fn set(&mut self, reg: Reg, v: Septendigyte)
        requires
            reg_wf(reg),
        ensures
            final(self).values() == old(self).values().update(reg_index(reg) as int, v@),
    {
        match reg {
            Reg::R(i) => {
                self.r[i] = v;
            },
            Reg::SP => self.sp = v,
            Reg::BP => self.bp = v,
        }
        assert(self.values() =~= old(self).values().update(reg_index(reg) as int, v@));
    }
}

impl Default for Regs {
    fn default() -> (r: Regs)
        ensures
            r.values() == Seq::new(17, |i: int| if i == 15 { 288nat } else { 0nat }),
    {
        Regs::new()
    }
}

/// One line of the register dump: the name, the value, the notation.
pub open spec fn reg_line(r: Reg, v: nat) -> Seq<char> {
    reg_name(r) + ": "@ + decimal(v) + " "@ + notation(v)
}

/// The lines of the register dump for the first `n` registers, joined by newlines.
pub open spec fn regs_lines(values: Seq<nat>, n: nat) -> Seq<char>
    decreases n,
{
    if n == 0 {
        Seq::empty()
    } else if n == 1 {
        reg_line(reg_of(0), values[0])
    } else {
        regs_lines(values, (n - 1) as nat) + "\n"@ + reg_line(
            reg_of((n - 1) as nat),
            values[n - 1],
        )
    }
}

impl Regs {
    /// The register dump the debugger shows.
    pub fn text(&self) -> (s: String)
        ensures
            s@ == regs_lines(self.values(), 17),
    {
        let all = Reg::all();
        let mut v: Vec<char> = Vec::new();
        let mut i: usize = 0;
        while i < 17
            invariant
                all@.len() == 17,
                forall|j: int| 0 <= j < 17 ==> #[trigger] all@[j] == reg_of(j as nat),
                i <= 17,
                v@ == regs_lines(self.values(), i as nat),
            decreases 17 - i,
        {
            let reg = all[i];
            let ghost v0 = v@;
            if i > 0 {
                append_str(&mut v, "\n");
            }
            let n = reg.name();
            append_chars(&mut v, n.as_slice());
            append_str(&mut v, ": ");
            let val = self.get(reg);
            let d = decimal_of(val);
            append_chars(&mut v, d.as_slice());
            append_str(&mut v, " ");
            let t = notation_of(val);
            append_chars(&mut v, t.as_slice());
            proof {
                assert(reg == reg_of(i as nat));
                if i == 0 {
                    assert(v@ =~= reg_line(reg, self.values()[0]));
                } else {
                    assert(v@ =~= v0 + "\n"@ + reg_line(reg, self.values()[i as int]));
                }
            }
            i += 1;
        }
        string_of(v.as_slice())
    }
}

/// An instruction.
#[derive(Clone, Copy, PartialEq, Eq, Debug)]
#[allow(inconsistent_fields)]
pub enum Instruction {
    NOP,
    HLT,
    MOV { dst: Reg, src: Reg },
    IMOV { dst: Reg, imm: Septendigyte },
    LDR { dst: Reg, addr: Septendigyte },
    LDRREG { dst: Reg, reg: Reg },
    STR { addr: Septendigyte, src: Reg },
    STRREG { reg: Reg, src: Reg },
    PUSH { src: Reg },
    IPUSH { src: Septendigyte },
    POP { dst: Reg },
    ADD { dst: Reg, src: Reg },
    SUB { dst: Reg, src: Reg },
    MUL { dst: Reg, src: Reg },
    DIV { dst: Reg, src: Reg },
    MOD { dst: Reg, src: Reg },
    IADD { dst: Reg, imm: Septendigyte },
    ISUB { dst: Reg, imm: Septendigyte },
    IMUL { dst: Reg, imm: Septendigyte },
    IDIV { dst: Reg, imm: Septendigyte },
    IMOD { dst: Reg, imm: Septendigyte },
    NEG { dst: Reg },
    DNOT { dst: Reg },
    DMIN { dst: Reg, src: Reg },
    DMAX { dst: Reg, src: Reg },
    IDMIN { dst: Reg, imm: Septendigyte },
    IDMAX { dst: Reg, imm: Septendigyte },
    JIZ { reg: Reg, then: Septendigyte },
    JNZ { reg: Reg, then: Septendigyte },
    JEQ { a: Reg, b: Reg, then: Septendigyte },
    JNE { a: Reg, b: Reg, then: Septendigyte },
    JLT { a: Reg, b: Reg, then: Septendigyte },
    JGT { a: Reg, b: Reg, then: Septendigyte },
    JLTI { a: Reg, b: Reg, then: Septendigyte },
    JGTI { a: Reg, b: Reg, then: Septendigyte },
    JMP { addr: Septendigyte },
    CALL { addr: Septendigyte },
    RET,
    OUT17 { reg: Reg },
    OUT10 { reg: Reg },
    OUTC { reg: Reg },
    IOUTC { char: Septendigyte },
    OUTS { ptr: Reg, len: Reg },
    IOUTS { ptr: Reg, len: Septendigyte },
}

/// Every register an instruction names exists.
pub open spec fn inst_wf(inst: Instruction) -> bool {
    match inst {
        Instruction::MOV { dst, src } | Instruction::ADD { dst, src } | Instruction::SUB {
            dst,
            src,
        } | Instruction::MUL { dst, src } | Instruction::DIV { dst, src } | Instruction::MOD {
            dst,
            src,
        } | Instruction::DMIN { dst, src } | Instruction::DMAX { dst, src } => reg_wf(dst)
            && reg_wf(src),
        Instruction::LDRREG { dst, reg } => reg_wf(dst) && reg_wf(reg),
        Instruction::STRREG { reg, src } => reg_wf(reg) && reg_wf(src),
        Instruction::IMOV { dst, .. } | Instruction::LDR { dst, .. } | Instruction::POP { dst }
        | Instruction::IADD { dst, .. } | Instruction::ISUB { dst, .. } | Instruction::IMUL {
            dst,
            ..
        } | Instruction::IDIV { dst, .. } | Instruction::IMOD { dst, .. } | Instruction::NEG {
            dst,
        } | Instruction::DNOT { dst } | Instruction::IDMIN { dst, .. } | Instruction::IDMAX {
            dst,
            ..
        } => reg_wf(dst),
        Instruction::STR { src, .. } | Instruction::PUSH { src } => reg_wf(src),
        Instruction::JIZ { reg, .. } | Instruction::JNZ { reg, .. } | Instruction::OUT17 { reg }
        | Instruction::OUT10 { reg } | Instruction::OUTC { reg } => reg_wf(reg),
        Instruction::JEQ { a, b, .. } | Instruction::JNE { a, b, .. } | Instruction::JLT {
            a,
            b,
            ..
        } | Instruction::JGT { a, b, .. } | Instruction::JLTI { a, b, .. } | Instruction::JGTI {
            a,
            b,
            ..
        } => reg_wf(a) && reg_wf(b),
        Instruction::OUTS { ptr, len } => reg_wf(ptr) && reg_wf(len),
        Instruction::IOUTS { ptr, .. } => reg_wf(ptr),
        _ => true,
    }
}

/// The cell `k` places after `ip`, counting round 289 cells.
pub open spec fn cell(mem: Seq<Septendigyte>, ip: nat, k: nat) -> Septendigyte {
    mem[((ip + k) % 289) as int]
}

/// The register numbered by the low digit of `c`.
pub open spec fn low_reg(c: Septendigyte) -> Reg {
    reg_of(c@ % 17)
}

/// The register numbered by the high digit of `c`.
pub open spec fn high_reg(c: Septendigyte) -> Reg {
    reg_of((c@ / 17) % 17)
}

/// The number of cells an instruction with opcode `op` takes.
pub open spec fn cells_read(op: nat) -> nat {
    if op == 17 || op == 20 || op == 22 || op == 23 || op == 24 || op == 25 || (34 <= op <= 38)
        || op == 44 || op == 45 || op == 46 || op == 47 || op == 68 || op == 69 || (85 <= op
        <= 89) {
        2
    } else if op == 18 || op == 19 || op == 21 || (39 <= op <= 43) || op == 48 || op == 49 || (51
        <= op <= 58) || op == 90 {
        3
    } else {
        1
    }
}

/// Decoding at `ip` reads only cells that memory holds.
pub open spec fn decode_fits(mem: Seq<Septendigyte>, ip: nat) -> bool {
    &&& ip < mem.len()
    &&& forall|k: nat| k < cells_read(mem[ip as int]@) ==> #[trigger] ((ip + k) % 289) < mem.len()
}

/// The instruction at `ip` (or why there is none) and the number of cells read.
pub open spec fn decode_spec(mem: Seq<Septendigyte>, ip: nat) -> (
    Result<Instruction, Seq<char>>,
    nat,
) {
    let op = cell(mem, ip, 0);
    let c1 = cell(mem, ip, 1);
    let c2 = cell(mem, ip, 2);
    let n = cells_read(op@);
    let d1 = high_reg(c1);
    let l1 = low_reg(c1);
    let r = if op@ == 0 {
        Ok(Instruction::NOP)
    } else if op@ == 1 {
        Ok(Instruction::HLT)
    } else if op@ == 17 {
        Ok(Instruction::MOV { dst: d1, src: l1 })
    } else if op@ == 18 {
        Ok(Instruction::IMOV { dst: l1, imm: c2 })
    } else if op@ == 19 {
        Ok(Instruction::LDR { dst: l1, addr: c2 })
    } else if op@ == 20 {
        Ok(Instruction::LDRREG { dst: d1, reg: l1 })
    } else if op@ == 21 {
        Ok(Instruction::STR { addr: c1, src: low_reg(c2) })
    } else if op@ == 22 {
        Ok(Instruction::STRREG { reg: d1, src: l1 })
    } else if op@ == 23 {
        Ok(Instruction::PUSH { src: l1 })
    } else if op@ == 24 {
        Ok(Instruction::IPUSH { src: c1 })
    } else if op@ == 25 {
        Ok(Instruction::POP { dst: l1 })
    } else if op@ == 34 {
        Ok(Instruction::ADD { dst: d1, src: l1 })
    } else if op@ == 35 {
        Ok(Instruction::SUB { dst: d1, src: l1 })
    } else if op@ == 36 {
        Ok(Instruction::MUL { dst: d1, src: l1 })
    } else if op@ == 37 {
        Ok(Instruction::DIV { dst: d1, src: l1 })
    } else if op@ == 38 {
        Ok(Instruction::MOD { dst: d1, src: l1 })
    } else if op@ == 39 {
        Ok(Instruction::IADD { dst: l1, imm: c2 })
    } else if op@ == 40 {
        Ok(Instruction::ISUB { dst: l1, imm: c2 })
    } else if op@ == 41 {
        Ok(Instruction::IMUL { dst: l1, imm: c2 })
    } else if op@ == 42 {
        Ok(Instruction::IDIV { dst: l1, imm: c2 })
    } else if op@ == 43 {
        Ok(Instruction::IMOD { dst: l1, imm: c2 })
    } else if op@ == 44 {
        Ok(Instruction::NEG { dst: l1 })
    } else if op@ == 45 {
        Ok(Instruction::DNOT { dst: l1 })
    } else if op@ == 46 {
        Ok(Instruction::DMIN { dst: d1, src: l1 })
    } else if op@ == 47 {
        Ok(Instruction::DMAX { dst: d1, src: l1 })
    } else if op@ == 48 {
        Ok(Instruction::IDMIN { dst: l1, imm: c2 })
    } else if op@ == 49 {
        Ok(Instruction::IDMAX { dst: l1, imm: c2 })
    } else if op@ == 51 {
        Ok(Instruction::JIZ { reg: l1, then: c2 })
    } else if op@ == 52 {
        Ok(Instruction::JNZ { reg: l1, then: c2 })
    } else if op@ == 53 {
        Ok(Instruction::JEQ { a: d1, b: l1, then: c2 })
    } else if op@ == 54 {
        Ok(Instruction::JNE { a: d1, b: l1, then: c2 })
    } else if op@ == 55 {
        Ok(Instruction::JLT { a: d1, b: l1, then: c2 })
    } else if op@ == 56 {
        Ok(Instruction::JGT { a: d1, b: l1, then: c2 })
    } else if op@ == 57 {
        Ok(Instruction::JLTI { a: d1, b: l1, then: c2 })
    } else if op@ == 58 {
        Ok(Instruction::JGTI { a: d1, b: l1, then: c2 })
    } else if op@ == 68 {
        Ok(Instruction::JMP { addr: c1 })
    } else if op@ == 69 {
        Ok(Instruction::CALL { addr: c1 })
    } else if op@ == 70 {
        Ok(Instruction::RET)
    } else if op@ == 85 {
        Ok(Instruction::OUT17 { reg: l1 })
    } else if op@ == 86 {
        Ok(Instruction::OUT10 { reg: l1 })
    } else if op@ == 87 {
        Ok(Instruction::OUTC { reg: l1 })
    } else if op@ == 88 {
        Ok(Instruction::IOUTC { char: c1 })
    } else if op@ == 89 {
        Ok(Instruction::OUTS { ptr: d1, len: l1 })
    } else if op@ == 90 {
        Ok(Instruction::IOUTS { ptr: l1, len: c2 })
    } else {
        Err("Invalid opcode: "@ + notation(op@))
    };
    (r, n)
}

/// Reads the cell at `ip` and moves `ip` on by one, round 289 cells.
fn next(mem: &[Septendigyte], ip: &mut usize) -> (u: Septendigyte)
    requires
        *old(ip) < mem@.len(),
        *old(ip) < 289,
    ensures
        u == mem@[*old(ip) as int],
        *final(ip) == (*old(ip) + 1) % 289,
{
    let u = mem[*ip];
    *ip = (*ip + 1) % 289;
    u
}

/// The register numbered by the low digit of `c`.
fn low_reg_of(c: Septendigyte) -> (r: Reg)
    ensures
        r == low_reg(c),
        reg_wf(r),
{
    proof {
        lemma_septendigyte_params();
        lemma_septendigyte_digits(c@);
    }
    let d = c.digits();
    Reg::decode(d[1])
}

/// The registers numbered by the high and the low digit of `c`.
fn reg_pair_of(c: Septendigyte) -> (r: (Reg, Reg))
    ensures
        r.0 == high_reg(c),
        r.1 == low_reg(c),
        reg_wf(r.0),
        reg_wf(r.1),
{
    proof {
        lemma_septendigyte_params();
        lemma_septendigyte_digits(c@);
    }
    let d = c.digits();
    (Reg::decode(d[0]), Reg::decode(d[1]))
}

/// The number of cells an instruction with opcode `op` takes.
fn cells_for(op: u16) -> (n: usize)
    ensures
        n == cells_read(op as nat),
{
    if op == 17 || op == 20 || op == 22 || op == 23 || op == 24 || op == 25 || (34 <= op && op
        <= 38) || op == 44 || op == 45 || op == 46 || op == 47 || op == 68 || op == 69 || (85
        <= op && op <= 89) {
        2
    } else if op == 18 || op == 19 || op == 21 || (39 <= op && op <= 43) || op == 48 || op == 49
        || (51 <= op && op <= 58) || op == 90 {
        3
    } else {
        1
    }
}

/// Whether decoding at `ip` reads only cells that memory holds.
pub fn decode_in_bounds(mem: &[Septendigyte], ip: usize) -> (r: bool)
    requires
        mem@.len() <= 289,
    ensures
        r == decode_fits(mem@, ip as nat),
{
    if ip >= mem.len() {
        return false;
    }
    let n = cells_for(mem[ip].get());
    let mut k: usize = 0;
    while k < n
        invariant
            ip < mem@.len(),
            ip < 289,
            n == cells_read(mem@[ip as int]@),
            n <= 3,
            k <= n,
            forall|j: nat| j < k ==> #[trigger] ((ip + j) % 289) < mem@.len(),
        decreases n - k,
    {
        if (ip + k) % 289 >= mem.len() {
            assert(((ip + k) as nat % 289) >= mem@.len());
            return false;
        }
        k += 1;
    }
    true
}

impl Instruction {
    /// Decodes the instruction at `ip` and moves `ip` past the cells it read.
    pub fn decode(mem: &[Septendigyte], ip: &mut usize) -> (r: Result<Instruction, String>)
        requires
            mem@.len() <= 289,
            decode_fits(mem@, *old(ip) as nat),
        ensures
            ({
                let (d, n) = decode_spec(mem@, *old(ip) as nat);
                &&& *final(ip) == (*old(ip) + n) % 289
                &&& match r {
                    Ok(i) => d == Ok::<Instruction, Seq<char>>(i),
                    Err(e) => d == Err::<Instruction, Seq<char>>(e@),
                }
            }),
            *final(ip) < 289,
            r matches Ok(i) ==> inst_wf(i),
    {
        let ghost ip0 = *ip as nat;
        let ghost n = cells_read(mem@[ip0 as int]@);
        proof {
            assert((ip0 + 0) % 289 == ip0);
            assert(((ip0 + 1) % 289 + 1) % 289 == (ip0 + 2) % 289);
            assert(((ip0 + 2) % 289 + 1) % 289 == (ip0 + 3) % 289);
            if n >= 2 {
                assert(((ip0 + 1) % 289) < mem@.len());
            }
            if n >= 3 {
                assert(((ip0 + 2) % 289) < mem@.len());
            }
        }
        let op = next(mem, ip);
        match op.get() {
            0 => Ok(Instruction::NOP),
            1 => Ok(Instruction::HLT),
            17 => {
                let (dst, src) = reg_pair_of(next(mem, ip));
                Ok(Instruction::MOV { dst, src })
            },
            18 => {
                let dst = low_reg_of(next(mem, ip));
                Ok(Instruction::IMOV { dst, imm: next(mem, ip) })
            },
            19 => {
                let dst = low_reg_of(next(mem, ip));
                Ok(Instruction::LDR { dst, addr: next(mem, ip) })
            },
            20 => {
                let (dst, reg) = reg_pair_of(next(mem, ip));
                Ok(Instruction::LDRREG { dst, reg })
            },
            21 => {
                let addr = next(mem, ip);
                let src = low_reg_of(next(mem, ip));
                Ok(Instruction::STR { addr, src })
            },
            22 => {
                let (reg, src) = reg_pair_of(next(mem, ip));
                Ok(Instruction::STRREG { reg, src })
            },
            23 => Ok(Instruction::PUSH { src: low_reg_of(next(mem, ip)) }),
            24 => Ok(Instruction::IPUSH { src: next(mem, ip) }),
            25 => Ok(Instruction::POP { dst: low_reg_of(next(mem, ip)) }),
            34 => {
                let (dst, src) = reg_pair_of(next(mem, ip));
                Ok(Instruction::ADD { dst, src })
            },
            35 => {
                let (dst, src) = reg_pair_of(next(mem, ip));
                Ok(Instruction::SUB { dst, src })
            },
            36 => {
                let (dst, src) = reg_pair_of(next(mem, ip));
                Ok(Instruction::MUL { dst, src })
            },
            37 => {
                let (dst, src) = reg_pair_of(next(mem, ip));
                Ok(Instruction::DIV { dst, src })
            },
            38 => {
                let (dst, src) = reg_pair_of(next(mem, ip));
                Ok(Instruction::MOD { dst, src })
            },
            39 => {
                let dst = low_reg_of(next(mem, ip));
                Ok(Instruction::IADD { dst, imm: next(mem, ip) })
            },
            40 => {
                let dst = low_reg_of(next(mem, ip));
                Ok(Instruction::ISUB { dst, imm: next(mem, ip) })
            },
            41 => {
                let dst = low_reg_of(next(mem, ip));
                Ok(Instruction::IMUL { dst, imm: next(mem, ip) })
            },
            42 => {
                let dst = low_reg_of(next(mem, ip));
                Ok(Instruction::IDIV { dst, imm: next(mem, ip) })
            },
            43 => {
                let dst = low_reg_of(next(mem, ip));
                Ok(Instruction::IMOD { dst, imm: next(mem, ip) })
            },
            44 => Ok(Instruction::NEG { dst: low_reg_of(next(mem, ip)) }),
            45 => Ok(Instruction::DNOT { dst: low_reg_of(next(mem, ip)) }),
            46 => {
                let (dst, src) = reg_pair_of(next(mem, ip));
                Ok(Instruction::DMIN { dst, src })
            },
            47 => {
                let (dst, src) = reg_pair_of(next(mem, ip));
                Ok(Instruction::DMAX { dst, src })
            },
            48 => {
                let dst = low_reg_of(next(mem, ip));
                Ok(Instruction::IDMIN { dst, imm: next(mem, ip) })
            },
            49 => {
                let dst = low_reg_of(next(mem, ip));
                Ok(Instruction::IDMAX { dst, imm: next(mem, ip) })
            },
            51 => {
                let reg = low_reg_of(next(mem, ip));
                Ok(Instruction::JIZ { reg, then: next(mem, ip) })
            },
            52 => {
                let reg = low_reg_of(next(mem, ip));
                Ok(Instruction::JNZ { reg, then: next(mem, ip) })
            },
            53 => {
                let (a, b) = reg_pair_of(next(mem, ip));
                Ok(Instruction::JEQ { a, b, then: next(mem, ip) })
            },
            54 => {
                let (a, b) = reg_pair_of(next(mem, ip));
                Ok(Instruction::JNE { a, b, then: next(mem, ip) })
            },
            55 => {
                let (a, b) = reg_pair_of(next(mem, ip));
                Ok(Instruction::JLT { a, b, then: next(mem, ip) })
            },
            56 => {
                let (a, b) = reg_pair_of(next(mem, ip));
                Ok(Instruction::JGT { a, b, then: next(mem, ip) })
            },
            57 => {
                let (a, b) = reg_pair_of(next(mem, ip));
                Ok(Instruction::JLTI { a, b, then: next(mem, ip) })
            },
            58 => {
                let (a, b) = reg_pair_of(next(mem, ip));
                Ok(Instruction::JGTI { a, b, then: next(mem, ip) })
            },
            68 => Ok(Instruction::JMP { addr: next(mem, ip) }),
            69 => Ok(Instruction::CALL { addr: next(mem, ip) }),
            70 => Ok(Instruction::RET),
            85 => Ok(Instruction::OUT17 { reg: low_reg_of(next(mem, ip)) }),
            86 => Ok(Instruction::OUT10 { reg: low_reg_of(next(mem, ip)) }),
            87 => Ok(Instruction::OUTC { reg: low_reg_of(next(mem, ip)) }),
            88 => Ok(Instruction::IOUTC { char: next(mem, ip) }),
            89 => {
                let (ptr, len) = reg_pair_of(next(mem, ip));
                Ok(Instruction::OUTS { ptr, len })
            },
            90 => {
                let ptr = low_reg_of(next(mem, ip));
                Ok(Instruction::IOUTS { ptr, len: next(mem, ip) })
            },
            _ => {
                let mut m = chars_of("Invalid opcode: ");
                let t = notation_of(op);
                append_chars(&mut m, t.as_slice());
                Err(string_of(m.as_slice()))
            },
        }
    }
}


/// What executing an instruction leads to.
#[derive(Clone, Copy, PartialEq, Eq, Structural, Debug)]
pub enum Effect {
    /// Go on with the next instruction.
    Continue,
    /// The machine halted.
    Halt,
    /// A division or remainder by zero: the machine stops with an error.
    DivisionByZero,
    /// A pop or return with an empty stack: the machine stops with an error.
    StackUnderflow,
}

/// The machine: memory and registers (the instruction pointer is kept by
/// whoever runs it).
pub struct N2M289b17 {
    pub mem: Vec<Septendigyte>,
    pub regs: Regs,
}

/// The state of the machine: cell values, register values, instruction pointer.
pub type State = (Seq<nat>, Seq<nat>, nat);

pub open spec fn mem_values(mem: Seq<Septendigyte>) -> Seq<nat> {
    mem.map_values(|u: Septendigyte| u@)
}

/// Sets register `r` to `v`.
pub open spec fn with_reg(s: State, r: Reg, v: nat) -> State {
    (s.0, s.1.update(reg_index(r) as int, v), s.2)
}

/// Jumps to `t` if `cond` holds.
pub open spec fn jump_if(s: State, cond: bool, t: nat) -> State {
    (s.0, s.1, if cond {
        t
    } else {
        s.2
    })
}

/// The character of a cell or register value.
pub open spec fn char_at(v: nat) -> char {
    char_of_value(grid_index(v))
}

/// The characters of `len` cells from `ptr` on, round 289 cells.
pub open spec fn cells_text(mem: Seq<nat>, ptr: nat, len: nat) -> Seq<char> {
    Seq::new(len, |i: int| char_at(mem[((ptr + i) % 289) as int]))
}

/// The signed reading of a value computes without overflow.
pub open spec fn signed_fits(v: nat) -> bool {
    v <= 144 || i16::MIN <= (v as i16) as int - ((289u32) as i16) as int <= i16::MAX
}

/// The `count` cells from `p` on, round 289 cells, are all below `len`.
pub open spec fn cells_fit(p: nat, count: nat, len: nat) -> bool {
    forall|i: nat| i < count ==> #[trigger] ((p + i) % 289) < len
}

/// Executing `inst` in state `s` indexes only cells memory holds and
/// computes without overflow.
pub open spec fn step_fits(mem: Seq<nat>, regs: Seq<nat>, inst: Instruction) -> bool {
    let sp = regs[15];
    let len = mem.len();
    match inst {
        Instruction::LDR { addr, .. } => addr@ < len,
        Instruction::STR { addr, .. } => addr@ < len,
        Instruction::LDRREG { reg, .. } | Instruction::STRREG { reg, .. } => regs[reg_index(reg) as int] < len,
        Instruction::PUSH { .. } | Instruction::IPUSH { .. } | Instruction::CALL { .. } => sp < len,
        Instruction::POP { .. } | Instruction::RET => sp == 288 || (sp + 1) % 289 < len,
        Instruction::SUB { dst, src } => regs[reg_index(src) as int] <= 289 + regs[reg_index(dst) as int],
        Instruction::ISUB { dst, imm } => imm@ <= 289 + regs[reg_index(dst) as int],
        Instruction::NEG { dst } => regs[reg_index(dst) as int] <= 289,
        Instruction::JLTI { a, b, .. } | Instruction::JGTI { a, b, .. } => signed_fits(regs[reg_index(a) as int])
            && signed_fits(regs[reg_index(b) as int]),
        Instruction::OUTS { ptr, len: n } => cells_fit(regs[reg_index(ptr) as int], regs[reg_index(n) as int], len),
        Instruction::IOUTS { ptr, len: n } => cells_fit(regs[reg_index(ptr) as int], n@, len),
        _ => true,
    }
}

/// The digit-wise complement of a value, as `RadixByte::dnot` computes it.
#[verifier::opaque]
pub open spec fn dnot_value(a: nat) -> nat {
    Septendigyte::value_of_bytes(Septendigyte::dnot_bytes(a)) % 0x10000
}

/// The digit-wise minimum of two values, as `RadixByte::dmin` computes it.
#[verifier::opaque]
pub open spec fn dmin_value(a: nat, b: nat) -> nat {
    Septendigyte::value_of_bytes(Septendigyte::dmin_bytes(a, b)) % 0x10000
}

/// The digit-wise maximum of two values, as `RadixByte::dmax` computes it.
#[verifier::opaque]
pub open spec fn dmax_value(a: nat, b: nat) -> nat {
    Septendigyte::value_of_bytes(Septendigyte::dmax_bytes(a, b)) % 0x10000
}

/// The signed reading of a value, as `RadixByte::as_signed` computes it.
#[verifier::opaque]
pub open spec fn signed_value(a: nat) -> int {
    Septendigyte::signed_spec(a)
}

/// Executing `inst` in state `s`: the next state, the text printed, and the effect.
pub open spec fn step_spec(s: State, inst: Instruction) -> (State, Seq<char>, Effect) {
    let mem = s.0;
    let regs = s.1;
    let ip = s.2;
    let sp = regs[15];
    let none = Seq::<char>::empty();
    let go = Effect::Continue;
    match inst {
        Instruction::NOP => (s, none, go),
        Instruction::HLT => (s, none, Effect::Halt),
        Instruction::MOV { dst, src } => (with_reg(s, dst, regs[reg_index(src) as int]), none, go),
        Instruction::IMOV { dst, imm } => (with_reg(s, dst, imm@), none, go),
        Instruction::LDR { dst, addr } => (with_reg(s, dst, mem[addr@ as int]), none, go),
        Instruction::LDRREG { dst, reg } => (
            with_reg(s, dst, mem[regs[reg_index(reg) as int] as int]),
            none,
            go,
        ),
        Instruction::STR { addr, src } => (
            (mem.update(addr@ as int, regs[reg_index(src) as int]), regs, ip),
            none,
            go,
        ),
        Instruction::STRREG { reg, src } => (
            (mem.update(regs[reg_index(reg) as int] as int, regs[reg_index(src) as int]), regs, ip),
            none,
            go,
        ),
        Instruction::PUSH { src } => (
            (
                mem.update(sp as int, regs[reg_index(src) as int]),
                regs.update(15, Septendigyte::sub_spec(sp, 1)),
                ip,
            ),
            none,
            go,
        ),
        Instruction::IPUSH { src } => (
            (mem.update(sp as int, src@), regs.update(15, Septendigyte::sub_spec(sp, 1)), ip),
            none,
            go,
        ),
        Instruction::POP { dst } => if sp == 288 {
            (s, none, Effect::StackUnderflow)
        } else {
            let sp1 = Septendigyte::add_spec(sp, 1);
            ((mem, regs.update(15, sp1).update(reg_index(dst) as int, mem[sp1 as int]), ip), none, go)
        },
        Instruction::ADD { dst, src } => (
            with_reg(
                s,
                dst,
                Septendigyte::add_spec(regs[reg_index(dst) as int], regs[reg_index(src) as int]),
            ),
            none,
            go,
        ),
        Instruction::SUB { dst, src } => (
            with_reg(
                s,
                dst,
                Septendigyte::sub_spec(regs[reg_index(dst) as int], regs[reg_index(src) as int]),
            ),
            none,
            go,
        ),
        Instruction::MUL { dst, src } => (
            with_reg(
                s,
                dst,
                Septendigyte::mul_spec(regs[reg_index(dst) as int], regs[reg_index(src) as int]),
            ),
            none,
            go,
        ),
        Instruction::DIV { dst, src } => if regs[reg_index(src) as int] == 0 {
            (s, none, Effect::DivisionByZero)
        } else {
            (
                with_reg(
                    s,
                    dst,
                    (regs[reg_index(dst) as int] / regs[reg_index(src) as int]) % 289,
                ),
                none,
                go,
            )
        },
        Instruction::MOD { dst, src } => if regs[reg_index(src) as int] == 0 {
            (s, none, Effect::DivisionByZero)
        } else {
            (
                with_reg(s, dst, regs[reg_index(dst) as int] % regs[reg_index(src) as int]),
                none,
                go,
            )
        },
        Instruction::IADD { dst, imm } => (
            with_reg(s, dst, Septendigyte::add_spec(regs[reg_index(dst) as int], imm@)),
            none,
            go,
        ),
        Instruction::ISUB { dst, imm } => (
            with_reg(s, dst, Septendigyte::sub_spec(regs[reg_index(dst) as int], imm@)),
            none,
            go,
        ),
        Instruction::IMUL { dst, imm } => (
            with_reg(s, dst, Septendigyte::mul_spec(regs[reg_index(dst) as int], imm@)),
            none,
            go,
        ),
        Instruction::IDIV { dst, imm } => if imm@ == 0 {
            (s, none, Effect::DivisionByZero)
        } else {
            (with_reg(s, dst, (regs[reg_index(dst) as int] / imm@) % 289), none, go)
        },
        Instruction::IMOD { dst, imm } => if imm@ == 0 {
            (s, none, Effect::DivisionByZero)
        } else {
            (with_reg(s, dst, regs[reg_index(dst) as int] % imm@), none, go)
        },
        Instruction::NEG { dst } => (
            with_reg(s, dst, Septendigyte::neg_spec(regs[reg_index(dst) as int])),
            none,
            go,
        ),
        Instruction::DNOT { dst } => (
            with_reg(
                s,
                dst,
                dnot_value(regs[reg_index(dst) as int]),
            ),
            none,
            go,
        ),
        Instruction::DMIN { dst, src } => (
            with_reg(
                s,
                dst,
                dmin_value(regs[reg_index(dst) as int], regs[reg_index(src) as int]),
            ),
            none,
            go,
        ),
        Instruction::DMAX { dst, src } => (
            with_reg(
                s,
                dst,
                dmax_value(regs[reg_index(dst) as int], regs[reg_index(src) as int]),
            ),
            none,
            go,
        ),
        Instruction::IDMIN { dst, imm } => (
            with_reg(
                s,
                dst,
                dmin_value(regs[reg_index(dst) as int], imm@),
            ),
            none,
            go,
        ),
        Instruction::IDMAX { dst, imm } => (
            with_reg(
                s,
                dst,
                dmax_value(regs[reg_index(dst) as int], imm@),
            ),
            none,
            go,
        ),
        Instruction::JIZ { reg, then } => (
            jump_if(s, regs[reg_index(reg) as int] == 0, then@),
            none,
            go,
        ),
        Instruction::JNZ { reg, then } => (
            jump_if(s, regs[reg_index(reg) as int] != 0, then@),
            none,
            go,
        ),
        Instruction::JEQ { a, b, then } => (
            jump_if(s, regs[reg_index(a) as int] == regs[reg_index(b) as int], then@),
            none,
            go,
        ),
        Instruction::JNE { a, b, then } => (
            jump_if(s, regs[reg_index(a) as int] != regs[reg_index(b) as int], then@),
            none,
            go,
        ),
        Instruction::JLT { a, b, then } => (
            jump_if(s, regs[reg_index(a) as int] < regs[reg_index(b) as int], then@),
            none,
            go,
        ),
        Instruction::JGT { a, b, then } => (
            jump_if(s, regs[reg_index(a) as int] > regs[reg_index(b) as int], then@),
            none,
            go,
        ),
        Instruction::JLTI { a, b, then } => (
            jump_if(
                s,
                signed_value(regs[reg_index(a) as int]) < signed_value(regs[reg_index(b) as int]),
                then@,
            ),
            none,
            go,
        ),
        Instruction::JGTI { a, b, then } => (
            jump_if(
                s,
                signed_value(regs[reg_index(a) as int]) > signed_value(regs[reg_index(b) as int]),
                then@,
            ),
            none,
            go,
        ),
        Instruction::JMP { addr } => (jump_if(s, true, addr@), none, go),
        Instruction::CALL { addr } => (
            (
                mem.update(sp as int, addr@),
                regs.update(15, Septendigyte::sub_spec(sp, 1)),
                addr@,
            ),
            none,
            go,
        ),
        Instruction::RET => if sp == 288 {
            (s, none, Effect::StackUnderflow)
        } else {
            let sp1 = Septendigyte::add_spec(sp, 1);
            ((mem, regs.update(15, sp1), mem[sp1 as int]), none, go)
        },
        Instruction::OUT17 { reg } => (s, notation(regs[reg_index(reg) as int]), go),
        Instruction::OUT10 { reg } => (s, decimal(regs[reg_index(reg) as int]), go),
        Instruction::OUTC { reg } => (s, seq![char_at(regs[reg_index(reg) as int])], go),
        Instruction::IOUTC { char } => (s, seq![char_at(char@)], go),
        Instruction::OUTS { ptr, len } => (
            s,
            cells_text(mem, regs[reg_index(ptr) as int], regs[reg_index(len) as int]),
            go,
        ),
        Instruction::IOUTS { ptr, len } => (
            s,
            cells_text(mem, regs[reg_index(ptr) as int], len@),
            go,
        ),
    }
}

/// Appends the characters of `len` cells from `ptr` on to `out`.
fn print_cells(mem: &[Septendigyte], ptr: usize, len: usize, out: &mut Vec<char>)
    requires
        ptr < 0x10000,
        len < 0x10000,
        cells_fit(ptr as nat, len as nat, mem@.len()),
    ensures
        final(out)@ == old(out)@ + cells_text(mem_values(mem@), ptr as nat, len as nat),
{
    let ghost start = old(out)@;
    let mut i: usize = 0;
    while i < len
        invariant
            ptr < 0x10000,
            len < 0x10000,
            cells_fit(ptr as nat, len as nat, mem@.len()),
            i <= len,
            out@ == start + cells_text(mem_values(mem@), ptr as nat, i as nat),
        decreases len - i,
    {
        assert(((ptr + i) as nat % 289) < mem@.len());
        let c = septendigyte2char(mem[(ptr + i) % 289]);
        out.push(c);
        i += 1;
        proof {
            assert(start + cells_text(mem_values(mem@), ptr as nat, i as nat) =~= (start
                + cells_text(mem_values(mem@), ptr as nat, (i - 1) as nat)).push(c));
        }
    }
}

/// Whether the signed reading of `v` computes without overflow.
fn signed_ok(v: Septendigyte) -> (r: bool)
    ensures
        r == signed_fits(v@),
{
    let x = v.get();
    if x <= 144 {
        return true;
    }
    let d = x as i16 as i32 - 289;
    proof {
        assert((x as i16) as int == (x as nat as i16) as int);
        assert(((289u32) as i16) as int == 289);
    }
    -32768 <= d && d <= 32767
}

impl N2M289b17 {
    pub open spec fn state(&self, ip: nat) -> State {
        (mem_values(self.mem@), self.regs.values(), ip)
    }

    /// A machine with `program` at the start of memory, filled up with zeros
    /// to 121 cells, and the registers at start.
    pub fn new(program: Vec<Septendigyte>) -> (m: N2M289b17)
        requires
            program@.len() <= 121,
        ensures
            m.mem@.len() == 121,
            forall|i: int| 0 <= i < program@.len() ==> m.mem@[i] == program@[i],
            forall|i: int| program@.len() <= i < 121 ==> #[trigger] m.mem@[i]@ == 0,
            m.regs.values() == Seq::new(17, |i: int| if i == 15 { 288nat } else { 0nat }),
    {
        proof {
            lemma_septendigyte_params();
        }
        let mut mem = program;
        let ghost p = mem@;
        while mem.len() < 121
            invariant
                p.len() <= mem@.len() <= 121,
                forall|i: int| 0 <= i < p.len() ==> mem@[i] == p[i],
                forall|i: int| p.len() <= i < mem@.len() ==> #[trigger] mem@[i]@ == 0,
            decreases 121 - mem.len(),
        {
            proof {
                lemma_septendigyte_params();
            }
            mem.push(Septendigyte::new(0));
        }
        N2M289b17 { mem, regs: Regs::new() }
    }





}

/// Whether the `count` cells from `p` on, round 289 cells, are all within `len`.
fn cells_within(p: usize, count: usize, len: usize) -> (r: bool)
    requires
        p < 0x10000,
        count < 0x10000,
    ensures
        r == cells_fit(p as nat, count as nat, len as nat),
{
    let mut i: usize = 0;
    while i < count
        invariant
            p < 0x10000,
            count < 0x10000,
            i <= count,
            forall|j: nat| j < i ==> #[trigger] ((p + j) % 289) < len,
        decreases count - i,
    {
        if (p + i) % 289 >= len {
            assert(((p + i) as nat % 289) >= len);
            return false;
        }
        i += 1;
    }
    true
}

impl N2M289b17 {
    /// Moves, modular arithmetic and digit-wise operations on registers.
    fn exec_regs(&mut self, inst: Instruction, ip: &mut usize) -> (e: Effect)
        requires
            inst_wf(inst),
            step_fits(mem_values(old(self).mem@), old(self).regs.values(), inst),
            inst is MOV || inst is IMOV || inst is ADD || inst is SUB || inst is MUL || inst is IADD || inst is ISUB || inst is IMUL || inst is NEG || inst is DNOT || inst is DMIN || inst is DMAX || inst is IDMIN || inst is IDMAX,
        ensures
            ({
                let (s, text, eff) = step_spec(old(self).state(*old(ip) as nat), inst);
                &&& final(self).state(*final(ip) as nat) == s
                &&& text.len() == 0
                &&& e == eff
            }),
    {
        proof {
            reveal(dnot_value);
            reveal(dmin_value);
            reveal(dmax_value);
            lemma_septendigyte_params();
            assert(mem_values(self.mem@).len() == self.mem@.len());
        }
        match inst {
            Instruction::MOV { dst, src } => {
                let v = self.regs.get(src);
                self.regs.set(dst, v);
            },
            Instruction::IMOV { dst, imm } => {
                self.regs.set(dst, imm);
            },
            Instruction::ADD { dst, src } => {
                let v = self.regs.get(dst).wrapping_add(self.regs.get(src));
                self.regs.set(dst, v);
            },
            Instruction::SUB { dst, src } => {
                let v = self.regs.get(dst).wrapping_sub(self.regs.get(src));
                self.regs.set(dst, v);
            },
            Instruction::MUL { dst, src } => {
                let v = self.regs.get(dst).wrapping_mul(self.regs.get(src));
                self.regs.set(dst, v);
            },
            Instruction::IADD { dst, imm } => {
                let v = self.regs.get(dst).wrapping_add(imm);
                self.regs.set(dst, v);
            },
            Instruction::ISUB { dst, imm } => {
                let v = self.regs.get(dst).wrapping_sub(imm);
                self.regs.set(dst, v);
            },
            Instruction::IMUL { dst, imm } => {
                let v = self.regs.get(dst).wrapping_mul(imm);
                self.regs.set(dst, v);
            },
            Instruction::NEG { dst } => {
                let v = self.regs.get(dst).wrapping_neg();
                self.regs.set(dst, v);
            },
            Instruction::DNOT { dst } => {
                let v = self.regs.get(dst).dnot();
                self.regs.set(dst, v);
            },
            Instruction::DMIN { dst, src } => {
                let v = self.regs.get(dst).dmin(self.regs.get(src));
                self.regs.set(dst, v);
            },
            Instruction::DMAX { dst, src } => {
                let v = self.regs.get(dst).dmax(self.regs.get(src));
                self.regs.set(dst, v);
            },
            Instruction::IDMIN { dst, imm } => {
                let v = self.regs.get(dst).dmin(imm);
                self.regs.set(dst, v);
            },
            Instruction::IDMAX { dst, imm } => {
                let v = self.regs.get(dst).dmax(imm);
                self.regs.set(dst, v);
            },
            _ => {},
        }
        Effect::Continue
    }

    /// Division and remainder, which fail on a zero divisor.
    fn exec_div(&mut self, inst: Instruction, ip: &mut usize) -> (e: Effect)
        requires
            inst_wf(inst),
            step_fits(mem_values(old(self).mem@), old(self).regs.values(), inst),
            inst is DIV || inst is MOD || inst is IDIV || inst is IMOD,
        ensures
            ({
                let (s, text, eff) = step_spec(old(self).state(*old(ip) as nat), inst);
                &&& final(self).state(*final(ip) as nat) == s
                &&& text.len() == 0
                &&& e == eff
            }),
    {
        proof {
            lemma_septendigyte_params();
            assert(mem_values(self.mem@).len() == self.mem@.len());
        }
        match inst {
            Instruction::DIV { dst, src } => {
                match self.regs.get(dst).checked_div(self.regs.get(src)) {
                    Some(v) => self.regs.set(dst, v),
                    None => return Effect::DivisionByZero,
                }
            },
            Instruction::MOD { dst, src } => {
                match self.regs.get(dst).checked_mod(self.regs.get(src)) {
                    Some(v) => self.regs.set(dst, v),
                    None => return Effect::DivisionByZero,
                }
            },
            Instruction::IDIV { dst, imm } => {
                match self.regs.get(dst).checked_div(imm) {
                    Some(v) => self.regs.set(dst, v),
                    None => return Effect::DivisionByZero,
                }
            },
            Instruction::IMOD { dst, imm } => {
                match self.regs.get(dst).checked_mod(imm) {
                    Some(v) => self.regs.set(dst, v),
                    None => return Effect::DivisionByZero,
                }
            },
            _ => {},
        }
        Effect::Continue
    }

    /// Loads, stores, the stack, calls and returns.
    fn exec_mem(&mut self, inst: Instruction, ip: &mut usize) -> (e: Effect)
        requires
            inst_wf(inst),
            step_fits(mem_values(old(self).mem@), old(self).regs.values(), inst),
            inst is LDR || inst is LDRREG || inst is STR || inst is STRREG || inst is PUSH || inst is IPUSH || inst is POP || inst is CALL || inst is RET,
        ensures
            ({
                let (s, text, eff) = step_spec(old(self).state(*old(ip) as nat), inst);
                &&& final(self).state(*final(ip) as nat) == s
                &&& text.len() == 0
                &&& e == eff
            }),
    {
        proof {
            lemma_septendigyte_params();
            assert(mem_values(self.mem@).len() == self.mem@.len());
        }
        match inst {
            Instruction::LDR { dst, addr } => {
                let v = self.mem[addr.get() as usize];
                self.regs.set(dst, v);
            },
            Instruction::LDRREG { dst, reg } => {
                let a = self.regs.get(reg).get() as usize;
                let v = self.mem[a];
                self.regs.set(dst, v);
            },
            Instruction::STR { addr, src } => {
                let v = self.regs.get(src);
                self.mem.set(addr.get() as usize, v);
                proof {
                    assert(mem_values(self.mem@) =~= mem_values(old(self).mem@).update(addr@ as int, v@));
                }
            },
            Instruction::STRREG { reg, src } => {
                let a = self.regs.get(reg).get() as usize;
                let v = self.regs.get(src);
                self.mem.set(a, v);
                proof {
                    assert(mem_values(self.mem@) =~= mem_values(old(self).mem@).update(a as int, v@));
                }
            },
            Instruction::PUSH { src } => {
                let v = self.regs.get(src);
                let sp = self.regs.sp;
                self.mem.set(sp.get() as usize, v);
                self.regs.sp = sp.wrapping_sub(Septendigyte::new(1));
                proof {
                    assert(mem_values(self.mem@) =~= mem_values(old(self).mem@).update(sp@ as int, v@));
                    assert(self.regs.values() =~= old(self).regs.values().update(15, Septendigyte::sub_spec(sp@, 1)));
                }
            },
            Instruction::IPUSH { src } => {
                let sp = self.regs.sp;
                self.mem.set(sp.get() as usize, src);
                self.regs.sp = sp.wrapping_sub(Septendigyte::new(1));
                proof {
                    assert(mem_values(self.mem@) =~= mem_values(old(self).mem@).update(sp@ as int, src@));
                    assert(self.regs.values() =~= old(self).regs.values().update(15, Septendigyte::sub_spec(sp@, 1)));
                }
            },
            Instruction::POP { dst } => {
                if self.regs.sp.get() == 288 {
                    return Effect::StackUnderflow;
                }
                let sp = self.regs.sp.wrapping_add(Septendigyte::new(1));
                self.regs.sp = sp;
                proof {
                    assert(self.regs.values() =~= old(self).regs.values().update(15, sp@));
                }
                let v = self.mem[sp.get() as usize];
                self.regs.set(dst, v);
            },
            Instruction::CALL { addr } => {
                let sp = self.regs.sp;
                self.mem.set(sp.get() as usize, addr);
                self.regs.sp = sp.wrapping_sub(Septendigyte::new(1));
                *ip = addr.get() as usize;
                proof {
                    assert(mem_values(self.mem@) =~= mem_values(old(self).mem@).update(sp@ as int, addr@));
                    assert(self.regs.values() =~= old(self).regs.values().update(15, Septendigyte::sub_spec(sp@, 1)));
                }
            },
            Instruction::RET => {
                if self.regs.sp.get() == 288 {
                    return Effect::StackUnderflow;
                }
                let sp = self.regs.sp.wrapping_add(Septendigyte::new(1));
                self.regs.sp = sp;
                proof {
                    assert(self.regs.values() =~= old(self).regs.values().update(15, sp@));
                }
                *ip = self.mem[sp.get() as usize].get() as usize;
            },
            _ => {},
        }
        Effect::Continue
    }

    /// Jumps.
    fn exec_jump(&mut self, inst: Instruction, ip: &mut usize) -> (e: Effect)
        requires
            inst_wf(inst),
            step_fits(mem_values(old(self).mem@), old(self).regs.values(), inst),
            inst is JIZ || inst is JNZ || inst is JEQ || inst is JNE || inst is JLT || inst is JGT || inst is JLTI || inst is JGTI || inst is JMP,
        ensures
            ({
                let (s, text, eff) = step_spec(old(self).state(*old(ip) as nat), inst);
                &&& final(self).state(*final(ip) as nat) == s
                &&& text.len() == 0
                &&& e == eff
            }),
    {
        proof {
            reveal(signed_value);
            lemma_septendigyte_params();
            assert(mem_values(self.mem@).len() == self.mem@.len());
        }
        match inst {
            Instruction::JIZ { reg, then } => {
                if self.regs.get(reg).get() == 0 {
                    *ip = then.get() as usize;
                }
            },
            Instruction::JNZ { reg, then } => {
                if self.regs.get(reg).get() != 0 {
                    *ip = then.get() as usize;
                }
            },
            Instruction::JEQ { a, b, then } => {
                if self.regs.get(a).get() == self.regs.get(b).get() {
                    *ip = then.get() as usize;
                }
            },
            Instruction::JNE { a, b, then } => {
                if self.regs.get(a).get() != self.regs.get(b).get() {
                    *ip = then.get() as usize;
                }
            },
            Instruction::JLT { a, b, then } => {
                if self.regs.get(a).get() < self.regs.get(b).get() {
                    *ip = then.get() as usize;
                }
            },
            Instruction::JGT { a, b, then } => {
                if self.regs.get(a).get() > self.regs.get(b).get() {
                    *ip = then.get() as usize;
                }
            },
            Instruction::JLTI { a, b, then } => {
                if self.regs.get(a).as_signed() < self.regs.get(b).as_signed() {
                    *ip = then.get() as usize;
                }
            },
            Instruction::JGTI { a, b, then } => {
                if self.regs.get(a).as_signed() > self.regs.get(b).as_signed() {
                    *ip = then.get() as usize;
                }
            },
            Instruction::JMP { addr } => {
                *ip = addr.get() as usize;
            },
            _ => {},
        }
        Effect::Continue
    }

    /// Output.
    fn exec_out(&mut self, inst: Instruction, ip: &mut usize, out: &mut Vec<char>) -> (e: Effect)
        requires
            inst_wf(inst),
            step_fits(mem_values(old(self).mem@), old(self).regs.values(), inst),
            inst is OUT17 || inst is OUT10 || inst is OUTC || inst is IOUTC || inst is OUTS || inst is IOUTS,
        ensures
            ({
                let (s, text, eff) = step_spec(old(self).state(*old(ip) as nat), inst);
                &&& final(self).state(*final(ip) as nat) == s
                &&& final(out)@ == old(out)@ + text
                &&& e == eff
            }),
    {
        proof {
            lemma_septendigyte_params();
            assert(mem_values(self.mem@).len() == self.mem@.len());
        }
        match inst {
            Instruction::OUT17 { reg } => {
                let t = notation_of(self.regs.get(reg));
                append_chars(out, t.as_slice());
            },
            Instruction::OUT10 { reg } => {
                let t = decimal_of(self.regs.get(reg));
                append_chars(out, t.as_slice());
            },
            Instruction::OUTC { reg } => {
                out.push(septendigyte2char(self.regs.get(reg)));
            },
            Instruction::IOUTC { char } => {
                out.push(septendigyte2char(char));
            },
            Instruction::OUTS { ptr, len } => {
                let p = self.regs.get(ptr).get() as usize;
                let n = self.regs.get(len).get() as usize;
                print_cells(self.mem.as_slice(), p, n, out);
            },
            Instruction::IOUTS { ptr, len } => {
                let p = self.regs.get(ptr).get() as usize;
                print_cells(self.mem.as_slice(), p, len.get() as usize, out);
            },
            _ => {},
        }
        Effect::Continue
    }

    /// Executes `inst`: updates the machine and `ip`, appends what the
    /// instruction prints to `out`, and says how to go on.
    pub fn step(&mut self, inst: Instruction, ip: &mut usize, out: &mut Vec<char>) -> (e: Effect)
        requires
            inst_wf(inst),
            step_fits(mem_values(old(self).mem@), old(self).regs.values(), inst),
        ensures
            ({
                let (s, text, eff) = step_spec(old(self).state(*old(ip) as nat), inst);
                &&& final(self).state(*final(ip) as nat) == s
                &&& final(out)@ == old(out)@ + text
                &&& e == eff
            }),
    {
        match inst {
            Instruction::NOP => Effect::Continue,
            Instruction::HLT => Effect::Halt,
            Instruction::MOV { .. } | Instruction::IMOV { .. } | Instruction::ADD { .. } | Instruction::SUB { .. } | Instruction::MUL { .. } | Instruction::IADD { .. } | Instruction::ISUB { .. } | Instruction::IMUL { .. } | Instruction::NEG { .. } | Instruction::DNOT { .. } | Instruction::DMIN { .. } | Instruction::DMAX { .. } | Instruction::IDMIN { .. } | Instruction::IDMAX { .. } => {
                let e = self.exec_regs(inst, ip);
                proof {
                    assert(out@ =~= old(out)@ + step_spec(old(self).state(*old(ip) as nat), inst).1);
                }
                e
            },
            Instruction::DIV { .. } | Instruction::MOD { .. } | Instruction::IDIV { .. } | Instruction::IMOD { .. } => {
                let e = self.exec_div(inst, ip);
                proof {
                    assert(out@ =~= old(out)@ + step_spec(old(self).state(*old(ip) as nat), inst).1);
                }
                e
            },
            Instruction::LDR { .. } | Instruction::LDRREG { .. } | Instruction::STR { .. } | Instruction::STRREG { .. } | Instruction::PUSH { .. } | Instruction::IPUSH { .. } | Instruction::POP { .. } | Instruction::CALL { .. } | Instruction::RET => {
                let e = self.exec_mem(inst, ip);
                proof {
                    assert(out@ =~= old(out)@ + step_spec(old(self).state(*old(ip) as nat), inst).1);
                }
                e
            },
            Instruction::JIZ { .. } | Instruction::JNZ { .. } | Instruction::JEQ { .. } | Instruction::JNE { .. } | Instruction::JLT { .. } | Instruction::JGT { .. } | Instruction::JLTI { .. } | Instruction::JGTI { .. } | Instruction::JMP { .. } => {
                let e = self.exec_jump(inst, ip);
                proof {
                    assert(out@ =~= old(out)@ + step_spec(old(self).state(*old(ip) as nat), inst).1);
                }
                e
            },
            Instruction::OUT17 { .. } | Instruction::OUT10 { .. } | Instruction::OUTC { .. } | Instruction::IOUTC { .. } | Instruction::OUTS { .. } | Instruction::IOUTS { .. } => self.exec_out(inst, ip, out),
        }
    }
}


/// An operand as the debugger shows it.
#[derive(Clone, Copy, PartialEq, Eq, Debug)]
pub enum Operand {
    R(Reg),
    I(Septendigyte),
}

/// A register operand names a register that exists.
pub open spec fn operand_wf(o: Operand) -> bool {
    o matches Operand::R(r) ==> reg_wf(r)
}

/// The mnemonic of an instruction.
pub open spec fn inst_name(inst: Instruction) -> Seq<char> {
    match inst {
        Instruction::NOP => "nop"@,
        Instruction::HLT => "hlt"@,
        Instruction::MOV { .. } => "mov"@,
        Instruction::IMOV { .. } => "mov"@,
        Instruction::LDR { .. } => "ldr"@,
        Instruction::LDRREG { .. } => "ldr"@,
        Instruction::STR { .. } => "str"@,
        Instruction::STRREG { .. } => "str"@,
        Instruction::PUSH { .. } => "push"@,
        Instruction::IPUSH { .. } => "push"@,
        Instruction::POP { .. } => "pop"@,
        Instruction::ADD { .. } => "add"@,
        Instruction::SUB { .. } => "sub"@,
        Instruction::MUL { .. } => "mul"@,
        Instruction::DIV { .. } => "div"@,
        Instruction::MOD { .. } => "mod"@,
        Instruction::IADD { .. } => "add"@,
        Instruction::ISUB { .. } => "sub"@,
        Instruction::IMUL { .. } => "mul"@,
        Instruction::IDIV { .. } => "div"@,
        Instruction::IMOD { .. } => "mod"@,
        Instruction::NEG { .. } => "neg"@,
        Instruction::DNOT { .. } => "dnot"@,
        Instruction::DMIN { .. } => "dmin"@,
        Instruction::DMAX { .. } => "dmax"@,
        Instruction::IDMIN { .. } => "dmin"@,
        Instruction::IDMAX { .. } => "dmax"@,
        Instruction::JIZ { .. } => "jiz"@,
        Instruction::JNZ { .. } => "jnz"@,
        Instruction::JEQ { .. } => "jeq"@,
        Instruction::JNE { .. } => "jne"@,
        Instruction::JLT { .. } => "jlt"@,
        Instruction::JGT { .. } => "jgt"@,
        Instruction::JLTI { .. } => "jlti"@,
        Instruction::JGTI { .. } => "jgti"@,
        Instruction::JMP { .. } => "jmp"@,
        Instruction::CALL { .. } => "call"@,
        Instruction::RET => "ret"@,
        Instruction::OUT17 { .. } => "out17"@,
        Instruction::OUT10 { .. } => "out10"@,
        Instruction::OUTC { .. } => "outc"@,
        Instruction::IOUTC { .. } => "outc"@,
        Instruction::OUTS { .. } => "outs"@,
        Instruction::IOUTS { .. } => "outs"@,
    }
}

/// The operands of an instruction, in order.
pub open spec fn inst_operands(inst: Instruction) -> Seq<Operand> {
    match inst {
        Instruction::NOP => seq![],
        Instruction::HLT => seq![],
        Instruction::MOV { dst, src } => seq![Operand::R(dst), Operand::R(src)],
        Instruction::IMOV { dst, imm } => seq![Operand::R(dst), Operand::I(imm)],
        Instruction::LDR { dst, addr } => seq![Operand::R(dst), Operand::I(addr)],
        Instruction::LDRREG { dst, reg } => seq![Operand::R(dst), Operand::R(reg)],
        Instruction::STR { addr, src } => seq![Operand::I(addr), Operand::R(src)],
        Instruction::STRREG { reg, src } => seq![Operand::R(reg), Operand::R(src)],
        Instruction::PUSH { src } => seq![Operand::R(src)],
        Instruction::IPUSH { src } => seq![Operand::I(src)],
        Instruction::POP { dst } => seq![Operand::R(dst)],
        Instruction::ADD { dst, src } => seq![Operand::R(dst), Operand::R(src)],
        Instruction::SUB { dst, src } => seq![Operand::R(dst), Operand::R(src)],
        Instruction::MUL { dst, src } => seq![Operand::R(dst), Operand::R(src)],
        Instruction::DIV { dst, src } => seq![Operand::R(dst), Operand::R(src)],
        Instruction::MOD { dst, src } => seq![Operand::R(dst), Operand::R(src)],
        Instruction::IADD { dst, imm } => seq![Operand::R(dst), Operand::I(imm)],
        Instruction::ISUB { dst, imm } => seq![Operand::R(dst), Operand::I(imm)],
        Instruction::IMUL { dst, imm } => seq![Operand::R(dst), Operand::I(imm)],
        Instruction::IDIV { dst, imm } => seq![Operand::R(dst), Operand::I(imm)],
        Instruction::IMOD { dst, imm } => seq![Operand::R(dst), Operand::I(imm)],
        Instruction::NEG { dst } => seq![Operand::R(dst)],
        Instruction::DNOT { dst } => seq![Operand::R(dst)],
        Instruction::DMIN { dst, src } => seq![Operand::R(dst), Operand::R(src)],
        Instruction::DMAX { dst, src } => seq![Operand::R(dst), Operand::R(src)],
        Instruction::IDMIN { dst, imm } => seq![Operand::R(dst), Operand::I(imm)],
        Instruction::IDMAX { dst, imm } => seq![Operand::R(dst), Operand::I(imm)],
        Instruction::JIZ { reg, then } => seq![Operand::R(reg), Operand::I(then)],
        Instruction::JNZ { reg, then } => seq![Operand::R(reg), Operand::I(then)],
        Instruction::JEQ { a, b, then } => seq![Operand::R(a), Operand::R(b), Operand::I(then)],
        Instruction::JNE { a, b, then } => seq![Operand::R(a), Operand::R(b), Operand::I(then)],
        Instruction::JLT { a, b, then } => seq![Operand::R(a), Operand::R(b), Operand::I(then)],
        Instruction::JGT { a, b, then } => seq![Operand::R(a), Operand::R(b), Operand::I(then)],
        Instruction::JLTI { a, b, then } => seq![Operand::R(a), Operand::R(b), Operand::I(then)],
        Instruction::JGTI { a, b, then } => seq![Operand::R(a), Operand::R(b), Operand::I(then)],
        Instruction::JMP { addr } => seq![Operand::I(addr)],
        Instruction::CALL { addr } => seq![Operand::I(addr)],
        Instruction::RET => seq![],
        Instruction::OUT17 { reg } => seq![Operand::R(reg)],
        Instruction::OUT10 { reg } => seq![Operand::R(reg)],
        Instruction::OUTC { reg } => seq![Operand::R(reg)],
        Instruction::IOUTC { char } => seq![Operand::I(char)],
        Instruction::OUTS { ptr, len } => seq![Operand::R(ptr), Operand::R(len)],
        Instruction::IOUTS { ptr, len } => seq![Operand::R(ptr), Operand::I(len)],
    }
}

/// How the debugger shows an operand: a register by name, an immediate by
/// its value and its notation.
pub open spec fn operand_text(o: Operand) -> Seq<char> {
    match o {
        Operand::R(r) => reg_name(r),
        Operand::I(u) => decimal(u@) + " ("@ + notation(u@) + ")"@,
    }
}

/// Operand texts separated by `, `.
pub open spec fn joined(os: Seq<Operand>) -> Seq<char>
    decreases os.len(),
{
    if os.len() == 0 {
        Seq::empty()
    } else if os.len() == 1 {
        operand_text(os[0])
    } else {
        joined(os.drop_last()) + ", "@ + operand_text(os.last())
    }
}

/// How the debugger shows an instruction: the mnemonic, then the operands.
pub open spec fn inst_text(inst: Instruction) -> Seq<char> {
    if inst_operands(inst).len() == 0 {
        inst_name(inst)
    } else {
        inst_name(inst) + " "@ + joined(inst_operands(inst))
    }
}

/// Appends the text of one operand.
fn push_operand(v: &mut Vec<char>, o: Operand)
    requires
        operand_wf(o),
    ensures
        final(v)@ == old(v)@ + operand_text(o),
{
    match o {
        Operand::R(r) => {
            let n = r.name();
            append_chars(v, n.as_slice());
        },
        Operand::I(u) => {
            let d = decimal_of(u);
            append_chars(v, d.as_slice());
            append_str(v, " (");
            let t = notation_of(u);
            append_chars(v, t.as_slice());
            append_str(v, ")");
            proof {
                assert(v@ =~= old(v)@ + operand_text(o));
            }
        },
    }
}

impl Instruction {
    /// The mnemonic of the instruction.
    pub fn name(&self) -> (r: &'static str)
        ensures
            r@ == inst_name(*self),
    {
        match self {
            Instruction::NOP => "nop",
            Instruction::HLT => "hlt",
            Instruction::MOV { .. } => "mov",
            Instruction::IMOV { .. } => "mov",
            Instruction::LDR { .. } => "ldr",
            Instruction::LDRREG { .. } => "ldr",
            Instruction::STR { .. } => "str",
            Instruction::STRREG { .. } => "str",
            Instruction::PUSH { .. } => "push",
            Instruction::IPUSH { .. } => "push",
            Instruction::POP { .. } => "pop",
            Instruction::ADD { .. } => "add",
            Instruction::SUB { .. } => "sub",
            Instruction::MUL { .. } => "mul",
            Instruction::DIV { .. } => "div",
            Instruction::MOD { .. } => "mod",
            Instruction::IADD { .. } => "add",
            Instruction::ISUB { .. } => "sub",
            Instruction::IMUL { .. } => "mul",
            Instruction::IDIV { .. } => "div",
            Instruction::IMOD { .. } => "mod",
            Instruction::NEG { .. } => "neg",
            Instruction::DNOT { .. } => "dnot",
            Instruction::DMIN { .. } => "dmin",
            Instruction::DMAX { .. } => "dmax",
            Instruction::IDMIN { .. } => "dmin",
            Instruction::IDMAX { .. } => "dmax",
            Instruction::JIZ { .. } => "jiz",
            Instruction::JNZ { .. } => "jnz",
            Instruction::JEQ { .. } => "jeq",
            Instruction::JNE { .. } => "jne",
            Instruction::JLT { .. } => "jlt",
            Instruction::JGT { .. } => "jgt",
            Instruction::JLTI { .. } => "jlti",
            Instruction::JGTI { .. } => "jgti",
            Instruction::JMP { .. } => "jmp",
            Instruction::CALL { .. } => "call",
            Instruction::RET => "ret",
            Instruction::OUT17 { .. } => "out17",
            Instruction::OUT10 { .. } => "out10",
            Instruction::OUTC { .. } => "outc",
            Instruction::IOUTC { .. } => "outc",
            Instruction::OUTS { .. } => "outs",
            Instruction::IOUTS { .. } => "outs",
        }
    }

    /// The operands of the instruction, in order.
    pub fn operands(&self) -> (r: Vec<Operand>)
        ensures
            r@ == inst_operands(*self),
    {
        let r = match self {
            Instruction::NOP => vec![],
            Instruction::HLT => vec![],
            Instruction::MOV { dst, src } => vec![Operand::R(*dst), Operand::R(*src)],
            Instruction::IMOV { dst, imm } => vec![Operand::R(*dst), Operand::I(*imm)],
            Instruction::LDR { dst, addr } => vec![Operand::R(*dst), Operand::I(*addr)],
            Instruction::LDRREG { dst, reg } => vec![Operand::R(*dst), Operand::R(*reg)],
            Instruction::STR { addr, src } => vec![Operand::I(*addr), Operand::R(*src)],
            Instruction::STRREG { reg, src } => vec![Operand::R(*reg), Operand::R(*src)],
            Instruction::PUSH { src } => vec![Operand::R(*src)],
            Instruction::IPUSH { src } => vec![Operand::I(*src)],
            Instruction::POP { dst } => vec![Operand::R(*dst)],
            Instruction::ADD { dst, src } => vec![Operand::R(*dst), Operand::R(*src)],
            Instruction::SUB { dst, src } => vec![Operand::R(*dst), Operand::R(*src)],
            Instruction::MUL { dst, src } => vec![Operand::R(*dst), Operand::R(*src)],
            Instruction::DIV { dst, src } => vec![Operand::R(*dst), Operand::R(*src)],
            Instruction::MOD { dst, src } => vec![Operand::R(*dst), Operand::R(*src)],
            Instruction::IADD { dst, imm } => vec![Operand::R(*dst), Operand::I(*imm)],
            Instruction::ISUB { dst, imm } => vec![Operand::R(*dst), Operand::I(*imm)],
            Instruction::IMUL { dst, imm } => vec![Operand::R(*dst), Operand::I(*imm)],
            Instruction::IDIV { dst, imm } => vec![Operand::R(*dst), Operand::I(*imm)],
            Instruction::IMOD { dst, imm } => vec![Operand::R(*dst), Operand::I(*imm)],
            Instruction::NEG { dst } => vec![Operand::R(*dst)],
            Instruction::DNOT { dst } => vec![Operand::R(*dst)],
            Instruction::DMIN { dst, src } => vec![Operand::R(*dst), Operand::R(*src)],
            Instruction::DMAX { dst, src } => vec![Operand::R(*dst), Operand::R(*src)],
            Instruction::IDMIN { dst, imm } => vec![Operand::R(*dst), Operand::I(*imm)],
            Instruction::IDMAX { dst, imm } => vec![Operand::R(*dst), Operand::I(*imm)],
            Instruction::JIZ { reg, then } => vec![Operand::R(*reg), Operand::I(*then)],
            Instruction::JNZ { reg, then } => vec![Operand::R(*reg), Operand::I(*then)],
            Instruction::JEQ { a, b, then } => vec![Operand::R(*a), Operand::R(*b), Operand::I(*then)],
            Instruction::JNE { a, b, then } => vec![Operand::R(*a), Operand::R(*b), Operand::I(*then)],
            Instruction::JLT { a, b, then } => vec![Operand::R(*a), Operand::R(*b), Operand::I(*then)],
            Instruction::JGT { a, b, then } => vec![Operand::R(*a), Operand::R(*b), Operand::I(*then)],
            Instruction::JLTI { a, b, then } => vec![Operand::R(*a), Operand::R(*b), Operand::I(*then)],
            Instruction::JGTI { a, b, then } => vec![Operand::R(*a), Operand::R(*b), Operand::I(*then)],
            Instruction::JMP { addr } => vec![Operand::I(*addr)],
            Instruction::CALL { addr } => vec![Operand::I(*addr)],
            Instruction::RET => vec![],
            Instruction::OUT17 { reg } => vec![Operand::R(*reg)],
            Instruction::OUT10 { reg } => vec![Operand::R(*reg)],
            Instruction::OUTC { reg } => vec![Operand::R(*reg)],
            Instruction::IOUTC { char } => vec![Operand::I(*char)],
            Instruction::OUTS { ptr, len } => vec![Operand::R(*ptr), Operand::R(*len)],
            Instruction::IOUTS { ptr, len } => vec![Operand::R(*ptr), Operand::I(*len)],
        };
        proof {
            assert(r@ =~= inst_operands(*self));
        }
        r
    }

    /// The instruction as the debugger shows it.
    pub fn text(&self) -> (r: String)
        requires
            inst_wf(*self),
        ensures
            r@ == inst_text(*self),
    {
        let mut v = chars_of(self.name());
        let ops = self.operands();
        let ghost os = ops@;
        proof {
            assert forall|k: int| 0 <= k < os.len() implies #[trigger] operand_wf(os[k]) by {
            }
        }
        let mut k: usize = 0;
        while k < ops.len()
            invariant
                os == ops@,
                os == inst_operands(*self),
                forall|k: int| 0 <= k < os.len() ==> #[trigger] operand_wf(os[k]),
                k <= ops@.len(),
                v@ == if k == 0 {
                    inst_name(*self)
                } else {
                    inst_name(*self) + " "@ + joined(os.take(k as int))
                },
            decreases ops.len() - k,
        {
            let ghost v0 = v@;
            if k == 0 {
                append_str(&mut v, " ");
            } else {
                append_str(&mut v, ", ");
            }
            push_operand(&mut v, ops[k]);
            proof {
                let t = os.take(k + 1);
                assert(t.drop_last() =~= os.take(k as int));
                assert(t.last() == os[k as int]);
                if k == 0 {
                    assert(joined(t) == operand_text(os[0]));
                    assert(v@ =~= inst_name(*self) + " "@ + joined(t));
                } else {
                    assert(t.len() >= 2);
                    assert(joined(t) == joined(t.drop_last()) + ", "@ + operand_text(t.last()));
                    assert(v@ =~= v0 + ", "@ + operand_text(os[k as int]));
                    assert(v@ =~= inst_name(*self) + " "@ + joined(t));
                }
            }
            k += 1;
        }
        proof {
            assert(os.take(ops@.len() as int) =~= os);
        }
        string_of(v.as_slice())
    }
}

/// The values of the tokens of a program, in order, or the first token (with
/// its line) that is not a septendigyte, with the reason.
pub open spec fn parse_tokens(toks: Seq<(nat, Seq<char>)>) -> Result<Seq<nat>, (nat, Seq<char>)>
    decreases toks.len(),
{
    if toks.len() == 0 {
        Ok(Seq::empty())
    } else {
        match parse_tokens(toks.drop_last()) {
            Err(e) => Err(e),
            Ok(vs) => match parse_spec(toks.last().1) {
                Ok(v) => Ok(vs.push(v)),
                Err(msg) => Err((toks.last().0, msg)),
            },
        }
    }
}

/// What `parse_program` makes of a program source: the values of its
/// septendigytes, at most 121 of them, or the error message.
pub open spec fn parse_program_spec(src: Seq<char>) -> Result<Seq<nat>, Seq<char>> {
    match parse_tokens(program_tokens(src)) {
        Err((line, msg)) => Err("line "@ + decimal(line) + ": "@ + parse_error_text(msg)),
        Ok(vs) => if vs.len() > 121 {
            Err("program is "@ + decimal(vs.len()) + " undigytes, exceeds 121-cell memory"@)
        } else {
            Ok(vs)
        },
    }
}

/// A failure in a prefix of the tokens is the failure of the whole.
proof fn lemma_parse_tokens_err(toks: Seq<(nat, Seq<char>)>, k: int)
    requires
        0 <= k <= toks.len(),
        parse_tokens(toks.take(k)) is Err,
    ensures
        parse_tokens(toks) == parse_tokens(toks.take(k)),
    decreases toks.len() - k,
{
    if k < toks.len() {
        assert(toks.take(k + 1).drop_last() =~= toks.take(k));
        lemma_parse_tokens_err(toks, k + 1);
    } else {
        assert(toks.take(k) =~= toks);
    }
}

/// Reads a program: each word of each line (up to a `;`) is a septendigyte.
pub fn parse_program(source: &str) -> (r: Result<Vec<Septendigyte>, String>)
    requires
        source@.len() < usize::MAX,
    ensures
        match r {
            Ok(m) => parse_program_spec(source@) == Ok::<Seq<nat>, Seq<char>>(mem_values(m@)),
            Err(e) => parse_program_spec(source@) == Err::<Seq<nat>, Seq<char>>(e@),
        },
{
    let cs = chars_of(source);
    let toks = tokenize(cs.as_slice());
    let ghost all = program_tokens(source@);
    let mut mem: Vec<Septendigyte> = Vec::new();
    let mut k: usize = 0;
    proof {
        assert(all.take(0) =~= Seq::<(nat, Seq<char>)>::empty());
        assert(mem_values(mem@) =~= Seq::<nat>::empty());
    }
    while k < toks.len()
        invariant
            all == program_tokens(source@),
            toks@.len() == all.len(),
            forall|j: int| 0 <= j < toks@.len() ==> token_view(&#[trigger] toks@[j]) == all[j],
            k <= toks@.len(),
            parse_tokens(all.take(k as int)) == Ok::<Seq<nat>, (nat, Seq<char>)>(mem_values(mem@)),
        decreases toks.len() - k,
    {
        let tok = &toks[k];
        proof {
            assert(token_view(&toks@[k as int]) == all[k as int]);
            assert(all.take(k + 1).drop_last() =~= all.take(k as int));
            assert(all.take(k + 1).last() == all[k as int]);
        }
        match parse_septendigyte(tok.text.as_slice()) {
            Ok(u) => {
                let ghost before = mem@;
                mem.push(u);
                proof {
                    assert(mem_values(mem@) =~= mem_values(before).push(u@));
                }
            },
            Err(e) => {
                proof {
                    lemma_parse_tokens_err(all, k + 1);
                }
                let mut m = chars_of("line ");
                push_decimal(&mut m, tok.line as u64);
                append_str(&mut m, ": ");
                let t = e.to_text();
                append_chars(&mut m, t.as_slice());
                proof {
                    assert(m@ =~= "line "@ + decimal(all[k as int].0) + ": "@ + parse_error_text(e.0@));
                }
                return Err(string_of(m.as_slice()));
            },
        }
        k += 1;
    }
    proof {
        assert(all.take(toks@.len() as int) =~= all);
    }
    if mem.len() > 121 {
        let mut m = chars_of("program is ");
        push_decimal(&mut m, mem.len() as u64);
        append_str(&mut m, " undigytes, exceeds 121-cell memory");
        proof {
            assert(m@ =~= "program is "@ + decimal(mem@.len()) + " undigytes, exceeds 121-cell memory"@);
        }
        return Err(string_of(m.as_slice()));
    }
    Ok(mem)
}

/// How an effect is reported: whether the machine halted, or the message of
/// the error it stopped with.
pub open spec fn outcome(e: Effect) -> Result<bool, Seq<char>> {
    match e {
        Effect::Continue => Ok(false),
        Effect::Halt => Ok(true),
        Effect::DivisionByZero => Err("Division by zero"@),
        Effect::StackUnderflow => Err("Stack underflow"@),
    }
}

impl Machine for N2M289b17 {
    type Inst = Instruction;

    open spec fn wf(&self) -> bool {
        self.mem@.len() <= 289
    }

    open spec fn decodable(&self, ip: usize) -> bool {
        decode_fits(self.mem@, ip as nat)
    }

    open spec fn inst_ok(inst: Instruction) -> bool {
        inst_wf(inst)
    }

    open spec fn executable(&self, inst: Instruction) -> bool {
        step_fits(mem_values(self.mem@), self.regs.values(), inst)
    }

    open spec fn ip_ok(ip: usize) -> bool {
        ip < 289
    }

    /// Whether the instruction at `ip` can be decoded within memory.
    fn can_decode(&self, ip: usize) -> (r: bool) {
        decode_in_bounds(self.mem.as_slice(), ip)
    }

    /// Decodes the instruction at `ip` and moves `ip` past it.
    fn decode(&self, ip: &mut usize) -> (r: Result<Instruction, String>)
        ensures
            ({
                let (d, n) = decode_spec(self.mem@, *old(ip) as nat);
                &&& *final(ip) == (*old(ip) + n) % 289
                &&& match r {
                    Ok(i) => d == Ok::<Instruction, Seq<char>>(i),
                    Err(e) => d == Err::<Instruction, Seq<char>>(e@),
                }
            }),
    {
        Instruction::decode(self.mem.as_slice(), ip)
    }

    /// Whether executing `inst` stays within memory and computes without overflow.
    fn can_execute(&self, inst: &Instruction) -> (r: bool) {
        let len = self.mem.len();
        proof {
            lemma_septendigyte_params();
            assert(mem_values(self.mem@).len() == len);
        }
        match *inst {
            Instruction::LDR { addr, .. } => (addr.get() as usize) < len,
            Instruction::STR { addr, .. } => (addr.get() as usize) < len,
            Instruction::LDRREG { reg, .. } | Instruction::STRREG { reg, .. } => {
                (self.regs.get(reg).get() as usize) < len
            },
            Instruction::PUSH { .. } | Instruction::IPUSH { .. } | Instruction::CALL { .. } => {
                (self.regs.sp.get() as usize) < len
            },
            Instruction::POP { .. } | Instruction::RET => {
                let sp = self.regs.sp.get() as usize;
                sp == 288 || (sp + 1) % 289 < len
            },
            Instruction::SUB { dst, src } => {
                self.regs.get(src).get() as u32 <= 289 + self.regs.get(dst).get() as u32
            },
            Instruction::ISUB { dst, imm } => {
                imm.get() as u32 <= 289 + self.regs.get(dst).get() as u32
            },
            Instruction::NEG { dst } => self.regs.get(dst).get() <= 289,
            Instruction::JLTI { a, b, .. } | Instruction::JGTI { a, b, .. } => {
                signed_ok(self.regs.get(a)) && signed_ok(self.regs.get(b))
            },
            Instruction::OUTS { ptr, len: n } => {
                let p = self.regs.get(ptr).get() as usize;
                let count = self.regs.get(n).get() as usize;
                cells_within(p, count, len)
            },
            Instruction::IOUTS { ptr, len: n } => {
                let p = self.regs.get(ptr).get() as usize;
                cells_within(p, n.get() as usize, len)
            },
            _ => true,
        }
    }

    /// Executes `inst` (see `step`) and reports its effect: `Ok(true)` when
    /// the machine halted, the error message when it stopped with one.
    fn execute(&mut self, inst: Instruction, ip: &mut usize, out: &mut Vec<char>) -> (r: Result<
        bool,
        &'static str,
    >)
        ensures
            ({
                let (s, text, eff) = step_spec(old(self).state(*old(ip) as nat), inst);
                &&& final(self).state(*final(ip) as nat) == s
                &&& final(out)@ == old(out)@ + text
                &&& match r {
                    Ok(h) => outcome(eff) == Ok::<bool, Seq<char>>(h),
                    Err(m) => outcome(eff) == Err::<bool, Seq<char>>(m@),
                }
            }),
    {
        let e = self.step(inst, ip, out);
        proof {
            assert(mem_values(self.mem@).len() == self.mem@.len());
            assert(mem_values(old(self).mem@).len() == old(self).mem@.len());
        }
        match e {
            Effect::Continue => Ok(false),
            Effect::Halt => Ok(true),
            Effect::DivisionByZero => Err("Division by zero"),
            Effect::StackUnderflow => Err("Stack underflow"),
        }
    }

    /// The register dump the debugger shows.
    fn debug_dump(&self, old_ip: usize) -> (r: String)
        ensures
            r@ == regs_lines(self.regs.values(), 17),
    {
        self.regs.text()
    }

    /// The instruction as the debugger shows it.
    fn describe(&self, inst: &Instruction) -> (r: String)
        ensures
            r@ == inst_text(*inst),
    {
        inst.text()
    }

    /// The instruction pointer as the debugger shows it, in `0s` notation.
    fn format_ip(&self, ip: usize) -> (r: String)
        ensures
            r@ == notation(ip as nat),
    {
        proof {
            lemma_septendigyte_params();
        }
        let t = notation_of(Septendigyte::new(ip as u16));
        string_of(t.as_slice())
    }
}

} // verus!
