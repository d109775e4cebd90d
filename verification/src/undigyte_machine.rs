//! The undigyte machine: 121 cells of undigytes, seven registers, and an
//! instruction set decoded from the cells at the instruction pointer.
use crate::text::{
    append_chars, append_str, chars_of, decimal, program_tokens, push_decimal, string_of,
    token_view, tokenize,
};
use crate::undigyte::{notation, parse_spec, undigyte_table, Undigyte};
use vstd::prelude::*;

verus! {

/// A register.
#[derive(Clone, Copy, PartialEq, Eq, Structural, Debug)]
pub enum Reg {
    RA,
    RB,
    RC,
    RD,
    RE,
    SP,
    BP,
}

/// The register with number `n`, or why there is none.
pub open spec fn reg_spec(n: nat) -> Result<Reg, Seq<char>> {
    if n == 0 {
        Ok(Reg::RA)
    } else if n == 1 {
        Ok(Reg::RB)
    } else if n == 2 {
        Ok(Reg::RC)
    } else if n == 3 {
        Ok(Reg::RD)
    } else if n == 4 {
        Ok(Reg::RE)
    } else if n == 5 {
        Ok(Reg::SP)
    } else if n == 6 {
        Ok(Reg::BP)
    } else if n == 10 {
        Err("Invalid register id: X"@)
    } else {
        Err("Invalid register id: "@ + decimal(n))
    }
}

/// The name a register is shown by.
pub open spec fn reg_name(r: Reg) -> Seq<char> {
    match r {
        Reg::RA => "ra"@,
        Reg::RB => "rb"@,
        Reg::RC => "rc"@,
        Reg::RD => "rd"@,
        Reg::RE => "re"@,
        Reg::SP => "sp"@,
        Reg::BP => "bp"@,
    }
}

impl Reg {
    /// The register with number `n`.
    pub fn decode(n: u8) -> (r: Result<Reg, String>)
        ensures
            match r {
                Ok(g) => reg_spec(n as nat) == Ok::<Reg, Seq<char>>(g),
                Err(e) => reg_spec(n as nat) == Err::<Reg, Seq<char>>(e@),
            },
    {
        match n {
            0 => Ok(Reg::RA),
            1 => Ok(Reg::RB),
            2 => Ok(Reg::RC),
            3 => Ok(Reg::RD),
            4 => Ok(Reg::RE),
            5 => Ok(Reg::SP),
            6 => Ok(Reg::BP),
            10 => {
                let m = chars_of("Invalid register id: X");
                Err(string_of(m.as_slice()))
            },
            _ => {
                let mut m = chars_of("Invalid register id: ");
                push_decimal(&mut m, n as u64);
                Err(string_of(m.as_slice()))
            },
        }
    }

    /// The name the register is shown by.
    pub fn name(self) -> (r: &'static str)
        ensures
            r@ == reg_name(self),
    {
        match self {
            Reg::RA => "ra",
            Reg::RB => "rb",
            Reg::RC => "rc",
            Reg::RD => "rd",
            Reg::RE => "re",
            Reg::SP => "sp",
            Reg::BP => "bp",
        }
    }
}

/// The register file.
#[derive(Clone, Copy, PartialEq, Eq, Structural, Debug)]
pub struct Regs {
    pub ra: Undigyte,
    pub rb: Undigyte,
    pub rc: Undigyte,
    pub rd: Undigyte,
    pub re: Undigyte,
    pub sp: Undigyte,
    pub bp: Undigyte,
}

impl Regs {
    pub open spec fn get_spec(self, r: Reg) -> Undigyte {
        match r {
            Reg::RA => self.ra,
            Reg::RB => self.rb,
            Reg::RC => self.rc,
            Reg::RD => self.rd,
            Reg::RE => self.re,
            Reg::SP => self.sp,
            Reg::BP => self.bp,
        }
    }

    pub open spec fn set_spec(self, r: Reg, v: Undigyte) -> Regs {
        match r {
            Reg::RA => Regs { ra: v, ..self },
            Reg::RB => Regs { rb: v, ..self },
            Reg::RC => Regs { rc: v, ..self },
            Reg::RD => Regs { rd: v, ..self },
            Reg::RE => Regs { re: v, ..self },
            Reg::SP => Regs { sp: v, ..self },
            Reg::BP => Regs { bp: v, ..self },
        }
    }

    /// Every register holds a value in `0..121`.
    pub open spec fn wf(self) -> bool {
        &&& self.ra@ < 121
        &&& self.rb@ < 121
        &&& self.rc@ < 121
        &&& self.rd@ < 121
        &&& self.re@ < 121
        &&& self.sp@ < 121
        &&& self.bp@ < 121
    }

    /// The registers at start: all zero but the stack pointer, which is 120.
    pub open spec fn initial() -> Regs {
        Regs {
            ra: Undigyte(0),
            rb: Undigyte(0),
            rc: Undigyte(0),
            rd: Undigyte(0),
            re: Undigyte(0),
            sp: Undigyte(120),
            bp: Undigyte(0),
        }
    }

    /// The registers at start.
    pub fn new() -> (r: Regs)
        ensures
            r == Regs::initial(),
    {
        Regs {
            ra: Undigyte(0),
            rb: Undigyte(0),
            rc: Undigyte(0),
            rd: Undigyte(0),
            re: Undigyte(0),
            sp: Undigyte(120),
            bp: Undigyte(0),
        }
    }

    /// The value of register `r`.
    pub fn get(&self, r: Reg) -> (v: Undigyte)
        ensures
            v == self.get_spec(r),
    {
        match r {
            Reg::RA => self.ra,
            Reg::RB => self.rb,
            Reg::RC => self.rc,
            Reg::RD => self.rd,
            Reg::RE => self.re,
            Reg::SP => self.sp,
            Reg::BP => self.bp,
        }
    }

    /// Sets register `r` to `v`.
    pub fn set(&mut self, r: Reg, v: Undigyte)
        ensures
            *final(self) == old(self).set_spec(r, v),
    {
        match r {
            Reg::RA => self.ra = v,
            Reg::RB => self.rb = v,
            Reg::RC => self.rc = v,
            Reg::RD => self.rd = v,
            Reg::RE => self.re = v,
            Reg::SP => self.sp = v,
            Reg::BP => self.bp = v,
        }
    }
}

impl Default for Regs {
    fn default() -> (r: Regs)
        ensures
            r == Regs::initial(),
    {
        Regs::new()
    }
}

/// An instruction.
#[derive(Clone, Copy, PartialEq, Eq, Structural, Debug)]
#[allow(inconsistent_fields)]
pub enum Inst {
    NOP,
    HLT,
    MOV { dst: Reg, src: Reg },
    IMOV { dst: Reg, src: Undigyte },
    ADD { dst: Reg, src: Reg },
    SUB { dst: Reg, src: Reg },
    MUL { dst: Reg, src: Reg },
    DIV { dst: Reg, src: Reg },
    MOD { dst: Reg, src: Reg },
    IADD { dst: Reg, src: Undigyte },
    ISUB { dst: Reg, src: Undigyte },
    IMUL { dst: Reg, src: Undigyte },
    IDIV { dst: Reg, src: Undigyte },
    IMOD { dst: Reg, src: Undigyte },
    JMP { abs: Undigyte },
    LDR { dst: Reg, abs: Undigyte },
    LDRREG { dst: Reg, reg: Reg },
    STR { abs: Undigyte, src: Reg },
    STRREG { reg: Reg, src: Reg },
    PUSH { src: Reg },
    POP { dst: Reg },
    CALL { abs: Undigyte },
    RET,
    JIZ { reg: Reg, then: Undigyte },
    JNZ { reg: Reg, then: Undigyte },
    JEQ { a: Reg, b: Reg, then: Undigyte },
    JNE { a: Reg, b: Reg, then: Undigyte },
    JLT { a: Reg, b: Reg, then: Undigyte },
    JGT { a: Reg, b: Reg, then: Undigyte },
    JLTI { a: Reg, b: Reg, then: Undigyte },
    JGTI { a: Reg, b: Reg, then: Undigyte },
    OUTU { reg: Reg },
    OUTD { reg: Reg },
    OUTS { ptr: Reg, len: Reg },
    IOUTS { ptr: Reg, len: Undigyte },
}

/// Every undigyte an instruction carries is in `0..121`.
pub open spec fn inst_wf(inst: Inst) -> bool {
    match inst {
        Inst::IMOV { src, .. } => src@ < 121,
        Inst::IADD { src, .. } => src@ < 121,
        Inst::ISUB { src, .. } => src@ < 121,
        Inst::IMUL { src, .. } => src@ < 121,
        Inst::IDIV { src, .. } => src@ < 121,
        Inst::IMOD { src, .. } => src@ < 121,
        Inst::JMP { abs } => abs@ < 121,
        Inst::LDR { abs, .. } => abs@ < 121,
        Inst::STR { abs, .. } => abs@ < 121,
        Inst::CALL { abs } => abs@ < 121,
        Inst::JIZ { then, .. } => then@ < 121,
        Inst::JNZ { then, .. } => then@ < 121,
        Inst::JEQ { then, .. } => then@ < 121,
        Inst::JNE { then, .. } => then@ < 121,
        Inst::JLT { then, .. } => then@ < 121,
        Inst::JGT { then, .. } => then@ < 121,
        Inst::JLTI { then, .. } => then@ < 121,
        Inst::JGTI { then, .. } => then@ < 121,
        Inst::IOUTS { len, .. } => len@ < 121,
        _ => true,
    }
}

/// Where the `k`-th cell read from `ip` lies: `ip` itself, then on round the
/// 121 cells.
pub open spec fn cell_index(ip: nat, k: nat) -> nat {
    if k == 0 {
        ip
    } else {
        (ip + k) % 121
    }
}

/// The `k`-th cell read from `ip`.
pub open spec fn cell(mem: Seq<Undigyte>, ip: nat, k: nat) -> Undigyte {
    mem[cell_index(ip, k) as int]
}

/// The register numbered by the low undigit of `c`.
pub open spec fn low_reg(c: Undigyte) -> Result<Reg, Seq<char>> {
    reg_spec(c@ % 11)
}

/// The registers numbered by the high and the low undigit of `c`.
pub open spec fn reg_pair(c: Undigyte) -> Result<(Reg, Reg), Seq<char>> {
    match reg_spec(c@ / 11) {
        Err(e) => Err(e),
        Ok(a) => match reg_spec(c@ % 11) {
            Err(e) => Err(e),
            Ok(b) => Ok((a, b)),
        },
    }
}

/// Decoded: two registers from the next cell.
pub open spec fn dec_pair(mem: Seq<Undigyte>, ip: nat, k: spec_fn(Reg, Reg) -> Inst) -> (
    Result<Inst, Seq<char>>,
    nat,
) {
    match reg_pair(cell(mem, ip, 1)) {
        Ok((a, b)) => (Ok(k(a, b)), 2),
        Err(e) => (Err(e), 2),
    }
}

/// Decoded: a register from the next cell, then the cell after it.
pub open spec fn dec_reg_imm(mem: Seq<Undigyte>, ip: nat, k: spec_fn(Reg, Undigyte) -> Inst) -> (
    Result<Inst, Seq<char>>,
    nat,
) {
    match low_reg(cell(mem, ip, 1)) {
        Ok(a) => (Ok(k(a, cell(mem, ip, 2))), 3),
        Err(e) => (Err(e), 2),
    }
}

/// Decoded: a register from the next cell.
pub open spec fn dec_reg(mem: Seq<Undigyte>, ip: nat, k: spec_fn(Reg) -> Inst) -> (
    Result<Inst, Seq<char>>,
    nat,
) {
    match low_reg(cell(mem, ip, 1)) {
        Ok(a) => (Ok(k(a)), 2),
        Err(e) => (Err(e), 2),
    }
}

/// Decoded: two registers from the next cell, then the cell after it.
pub open spec fn dec_pair_imm(
    mem: Seq<Undigyte>,
    ip: nat,
    k: spec_fn(Reg, Reg, Undigyte) -> Inst,
) -> (Result<Inst, Seq<char>>, nat) {
    match reg_pair(cell(mem, ip, 1)) {
        Ok((a, b)) => (Ok(k(a, b, cell(mem, ip, 2))), 3),
        Err(e) => (Err(e), 2),
    }
}

/// The instruction at `ip` (or why there is none) and the number of cells read.
pub open spec fn decode_spec(mem: Seq<Undigyte>, ip: nat) -> (Result<Inst, Seq<char>>, nat) {
    let op = cell(mem, ip, 0);
    let c1 = cell(mem, ip, 1);
    let c2 = cell(mem, ip, 2);
    if op@ == 0 {
        (Ok(Inst::NOP), 1)
    } else if op@ == 1 {
        (Ok(Inst::HLT), 1)
    } else if op@ == 2 {
        dec_pair(mem, ip, |a, b| Inst::MOV { dst: a, src: b })
    } else if op@ == 3 {
        dec_reg_imm(mem, ip, |a, u| Inst::IMOV { dst: a, src: u })
    } else if op@ == 4 {
        dec_pair(mem, ip, |a, b| Inst::ADD { dst: a, src: b })
    } else if op@ == 5 {
        dec_pair(mem, ip, |a, b| Inst::SUB { dst: a, src: b })
    } else if op@ == 6 {
        dec_pair(mem, ip, |a, b| Inst::MUL { dst: a, src: b })
    } else if op@ == 7 {
        dec_pair(mem, ip, |a, b| Inst::DIV { dst: a, src: b })
    } else if op@ == 8 {
        dec_pair(mem, ip, |a, b| Inst::MOD { dst: a, src: b })
    } else if op@ == 9 {
        dec_reg_imm(mem, ip, |a, u| Inst::IADD { dst: a, src: u })
    } else if op@ == 10 {
        dec_reg_imm(mem, ip, |a, u| Inst::ISUB { dst: a, src: u })
    } else if op@ == 11 {
        dec_reg_imm(mem, ip, |a, u| Inst::IMUL { dst: a, src: u })
    } else if op@ == 12 {
        dec_reg_imm(mem, ip, |a, u| Inst::IDIV { dst: a, src: u })
    } else if op@ == 13 {
        dec_reg_imm(mem, ip, |a, u| Inst::IMOD { dst: a, src: u })
    } else if op@ == 15 {
        (Ok(Inst::JMP { abs: c1 }), 2)
    } else if op@ == 16 {
        dec_reg_imm(mem, ip, |a, u| Inst::LDR { dst: a, abs: u })
    } else if op@ == 17 {
        dec_pair(mem, ip, |a, b| Inst::LDRREG { dst: a, reg: b })
    } else if op@ == 18 {
        match low_reg(c2) {
            Ok(s) => (Ok(Inst::STR { abs: c1, src: s }), 3),
            Err(e) => (Err(e), 3),
        }
    } else if op@ == 19 {
        dec_pair(mem, ip, |a, b| Inst::STRREG { reg: a, src: b })
    } else if op@ == 20 {
        dec_reg(mem, ip, |a| Inst::PUSH { src: a })
    } else if op@ == 21 {
        dec_reg(mem, ip, |a| Inst::POP { dst: a })
    } else if op@ == 22 {
        (Ok(Inst::CALL { abs: c1 }), 2)
    } else if op@ == 23 {
        (Ok(Inst::RET), 1)
    } else if op@ == 24 {
        dec_reg_imm(mem, ip, |a, u| Inst::JIZ { reg: a, then: u })
    } else if op@ == 25 {
        dec_reg_imm(mem, ip, |a, u| Inst::JNZ { reg: a, then: u })
    } else if op@ == 26 {
        dec_pair_imm(mem, ip, |a, b, u| Inst::JEQ { a: a, b: b, then: u })
    } else if op@ == 27 {
        dec_pair_imm(mem, ip, |a, b, u| Inst::JNE { a: a, b: b, then: u })
    } else if op@ == 28 {
        dec_pair_imm(mem, ip, |a, b, u| Inst::JLT { a: a, b: b, then: u })
    } else if op@ == 29 {
        dec_pair_imm(mem, ip, |a, b, u| Inst::JGT { a: a, b: b, then: u })
    } else if op@ == 30 {
        dec_pair_imm(mem, ip, |a, b, u| Inst::JLTI { a: a, b: b, then: u })
    } else if op@ == 31 {
        dec_pair_imm(mem, ip, |a, b, u| Inst::JGTI { a: a, b: b, then: u })
    } else if op@ == 32 {
        dec_reg(mem, ip, |a| Inst::OUTU { reg: a })
    } else if op@ == 33 {
        dec_reg(mem, ip, |a| Inst::OUTD { reg: a })
    } else if op@ == 34 {
        dec_pair(mem, ip, |a, b| Inst::OUTS { ptr: a, len: b })
    } else if op@ == 35 {
        dec_reg_imm(mem, ip, |a, u| Inst::IOUTS { ptr: a, len: u })
    } else {
        (Err("Invalid opcode number: "@ + notation(op@)), 1)
    }
}

/// Reads the cell at `ip` and moves `ip` on by one, round the 121 cells.
fn next(mem: &[Undigyte], ip: &mut usize) -> (u: Undigyte)
    requires
        *old(ip) < mem@.len(),
    ensures
        u == mem@[*old(ip) as int],
        *final(ip) == (*old(ip) + 1) % 121,
{
    let u = mem[*ip];
    *ip = (*ip + 1) % 121;
    u
}

/// The registers numbered by the two undigits of `c`.
fn decode_pair(c: Undigyte) -> (r: Result<(Reg, Reg), String>)
    ensures
        match r {
            Ok(p) => reg_pair(c) == Ok::<(Reg, Reg), Seq<char>>(p),
            Err(e) => reg_pair(c) == Err::<(Reg, Reg), Seq<char>>(e@),
        },
{
    let a = match Reg::decode(c.0 / 11) {
        Ok(a) => a,
        Err(e) => return Err(e),
    };
    let b = match Reg::decode(c.0 % 11) {
        Ok(b) => b,
        Err(e) => return Err(e),
    };
    Ok((a, b))
}

/// `decode` reports the decoded instruction as `decode_spec` describes it.
pub open spec fn decode_matches(
    mem: Seq<Undigyte>,
    ip0: nat,
    r: Result<Inst, String>,
    ip1: nat,
) -> bool {
    let (d, n) = decode_spec(mem, ip0);
    &&& ip1 == (ip0 + n) % 121
    &&& match r {
        Ok(i) => d == Ok::<Inst, Seq<char>>(i),
        Err(e) => d == Err::<Inst, Seq<char>>(e@),
    }
}

/// How many cells decoding reads, by the operation cell and, where an
/// operand register may be missing, by the cell after it.
proof fn lemma_cells_read(mem: Seq<Undigyte>, ip: nat)
    ensures
        ({
            let op = cell(mem, ip, 0)@;
            let n = decode_spec(mem, ip).1;
            &&& 1 <= n <= 3
            &&& (op == 2 || (4 <= op <= 13) || (15 <= op <= 22) || (24 <= op <= 35)) ==> n >= 2
            &&& op == 18 ==> n == 3
            &&& (op == 3 || (9 <= op <= 13) || op == 16 || op == 24 || op == 25 || op == 35)
                ==> (low_reg(cell(mem, ip, 1)) is Ok ==> n == 3)
            &&& (26 <= op <= 31) ==> (reg_pair(cell(mem, ip, 1)) is Ok ==> n == 3)
        }),
{
}

/// Every cell that decoding at `ip` reads is in memory.
pub open spec fn decode_fits(mem: Seq<Undigyte>, ip: nat) -> bool {
    &&& ip < mem.len()
    &&& forall|k: nat| k < decode_spec(mem, ip).1 ==> #[trigger] cell_index(ip, k) < mem.len()
}

/// Every cell holds a value in `0..121`.
pub open spec fn cells_in_range(mem: Seq<Undigyte>) -> bool {
    forall|i: int| 0 <= i < mem.len() ==> #[trigger] mem[i]@ < 121
}

/// 121 cells, each holding a value in `0..121`.
pub open spec fn mem_wf(mem: Seq<Undigyte>) -> bool {
    &&& mem.len() == 121
    &&& cells_in_range(mem)
}

impl Inst {
    /// Decodes the instruction at `ip` and moves `ip` past the cells it read.
    pub fn decode(mem: &[Undigyte], ip: &mut usize) -> (r: Result<Inst, String>)
        requires
            decode_fits(mem@, *old(ip) as nat),
        ensures
            decode_matches(mem@, *old(ip) as nat, r, *final(ip) as nat),
            *final(ip) < 121,
            cells_in_range(mem@) ==> (r matches Ok(i) ==> inst_wf(i)),
    {
        let ghost ip0 = *ip as nat;
        let ghost n = decode_spec(mem@, ip0).1;
        proof {
            lemma_cells_read(mem@, ip0);
            assert(n >= 2 ==> cell_index(ip0, 1) < mem@.len());
            assert(n >= 3 ==> cell_index(ip0, 2) < mem@.len());
            assert(cell_index(ip0, 1) == (ip0 + 1) % 121);
            assert(cell_index(ip0, 2) == (ip0 + 2) % 121);
            assert(((ip0 + 1) % 121 + 1) % 121 == (ip0 + 2) % 121);
            assert(((ip0 + 2) % 121 + 1) % 121 == (ip0 + 3) % 121);
            if cells_in_range(mem@) {
                assert(n >= 2 ==> mem@[cell_index(ip0, 1) as int]@ < 121);
                assert(n >= 3 ==> mem@[cell_index(ip0, 2) as int]@ < 121);
            }
        }
        let op = next(mem, ip);
        match op.0 {
            0 => Ok(Inst::NOP),
            1 => Ok(Inst::HLT),
            2 => match decode_pair(next(mem, ip)) {
                Ok((dst, src)) => Ok(Inst::MOV { dst, src }),
                Err(e) => Err(e),
            },
            3 => match Reg::decode(next(mem, ip).0 % 11) {
                Ok(dst) => Ok(Inst::IMOV { dst, src: next(mem, ip) }),
                Err(e) => Err(e),
            },
            4 => match decode_pair(next(mem, ip)) {
                Ok((dst, src)) => Ok(Inst::ADD { dst, src }),
                Err(e) => Err(e),
            },
            5 => match decode_pair(next(mem, ip)) {
                Ok((dst, src)) => Ok(Inst::SUB { dst, src }),
                Err(e) => Err(e),
            },
            6 => match decode_pair(next(mem, ip)) {
                Ok((dst, src)) => Ok(Inst::MUL { dst, src }),
                Err(e) => Err(e),
            },
            7 => match decode_pair(next(mem, ip)) {
                Ok((dst, src)) => Ok(Inst::DIV { dst, src }),
                Err(e) => Err(e),
            },
            8 => match decode_pair(next(mem, ip)) {
                Ok((dst, src)) => Ok(Inst::MOD { dst, src }),
                Err(e) => Err(e),
            },
            9 => match Reg::decode(next(mem, ip).0 % 11) {
                Ok(dst) => Ok(Inst::IADD { dst, src: next(mem, ip) }),
                Err(e) => Err(e),
            },
            10 => match Reg::decode(next(mem, ip).0 % 11) {
                Ok(dst) => Ok(Inst::ISUB { dst, src: next(mem, ip) }),
                Err(e) => Err(e),
            },
            11 => match Reg::decode(next(mem, ip).0 % 11) {
                Ok(dst) => Ok(Inst::IMUL { dst, src: next(mem, ip) }),
                Err(e) => Err(e),
            },
            12 => match Reg::decode(next(mem, ip).0 % 11) {
                Ok(dst) => Ok(Inst::IDIV { dst, src: next(mem, ip) }),
                Err(e) => Err(e),
            },
            13 => match Reg::decode(next(mem, ip).0 % 11) {
                Ok(dst) => Ok(Inst::IMOD { dst, src: next(mem, ip) }),
                Err(e) => Err(e),
            },
            15 => Ok(Inst::JMP { abs: next(mem, ip) }),
            16 => match Reg::decode(next(mem, ip).0 % 11) {
                Ok(dst) => Ok(Inst::LDR { dst, abs: next(mem, ip) }),
                Err(e) => Err(e),
            },
            17 => match decode_pair(next(mem, ip)) {
                Ok((dst, reg)) => Ok(Inst::LDRREG { dst, reg }),
                Err(e) => Err(e),
            },
            18 => {
                let abs = next(mem, ip);
                match Reg::decode(next(mem, ip).0 % 11) {
                    Ok(src) => Ok(Inst::STR { abs, src }),
                    Err(e) => Err(e),
                }
            },
            19 => match decode_pair(next(mem, ip)) {
                Ok((reg, src)) => Ok(Inst::STRREG { reg, src }),
                Err(e) => Err(e),
            },
            20 => match Reg::decode(next(mem, ip).0 % 11) {
                Ok(src) => Ok(Inst::PUSH { src }),
                Err(e) => Err(e),
            },
            21 => match Reg::decode(next(mem, ip).0 % 11) {
                Ok(dst) => Ok(Inst::POP { dst }),
                Err(e) => Err(e),
            },
            22 => Ok(Inst::CALL { abs: next(mem, ip) }),
            23 => Ok(Inst::RET),
            24 => match Reg::decode(next(mem, ip).0 % 11) {
                Ok(reg) => Ok(Inst::JIZ { reg, then: next(mem, ip) }),
                Err(e) => Err(e),
            },
            25 => match Reg::decode(next(mem, ip).0 % 11) {
                Ok(reg) => Ok(Inst::JNZ { reg, then: next(mem, ip) }),
                Err(e) => Err(e),
            },
            26 => match decode_pair(next(mem, ip)) {
                Ok((a, b)) => Ok(Inst::JEQ { a, b, then: next(mem, ip) }),
                Err(e) => Err(e),
            },
            27 => match decode_pair(next(mem, ip)) {
                Ok((a, b)) => Ok(Inst::JNE { a, b, then: next(mem, ip) }),
                Err(e) => Err(e),
            },
            28 => match decode_pair(next(mem, ip)) {
                Ok((a, b)) => Ok(Inst::JLT { a, b, then: next(mem, ip) }),
                Err(e) => Err(e),
            },
            29 => match decode_pair(next(mem, ip)) {
                Ok((a, b)) => Ok(Inst::JGT { a, b, then: next(mem, ip) }),
                Err(e) => Err(e),
            },
            30 => match decode_pair(next(mem, ip)) {
                Ok((a, b)) => Ok(Inst::JLTI { a, b, then: next(mem, ip) }),
                Err(e) => Err(e),
            },
            31 => match decode_pair(next(mem, ip)) {
                Ok((a, b)) => Ok(Inst::JGTI { a, b, then: next(mem, ip) }),
                Err(e) => Err(e),
            },
            32 => match Reg::decode(next(mem, ip).0 % 11) {
                Ok(reg) => Ok(Inst::OUTU { reg }),
                Err(e) => Err(e),
            },
            33 => match Reg::decode(next(mem, ip).0 % 11) {
                Ok(reg) => Ok(Inst::OUTD { reg }),
                Err(e) => Err(e),
            },
            34 => match decode_pair(next(mem, ip)) {
                Ok((ptr, len)) => Ok(Inst::OUTS { ptr, len }),
                Err(e) => Err(e),
            },
            35 => match Reg::decode(next(mem, ip).0 % 11) {
                Ok(ptr) => Ok(Inst::IOUTS { ptr, len: next(mem, ip) }),
                Err(e) => Err(e),
            },
            _ => {
                let mut m = chars_of("Invalid opcode number: ");
                let n = op.notation();
                append_chars(&mut m, n.as_slice());
                Err(string_of(m.as_slice()))
            },
        }
    }
}


/// What executing an instruction leads to.
#[derive(Clone, Copy, PartialEq, Eq, Structural, Debug)]
pub enum Effect {
    /// Go on with the next instruction.
    Continue,
    /// The machine halted.
    Halt,
    /// A division or remainder by zero: the machine stops with an error.
    DivisionByZero,
    /// A pop or return with an empty stack: the machine stops with an error.
    StackUnderflow,
}

/// The machine: memory, registers and instruction pointer.
pub struct UndigyteMachine {
    pub mem: Vec<Undigyte>,
    pub regs: Regs,
    pub ip: usize,
}

/// The state of the machine: memory, registers, instruction pointer.
pub type State = (Seq<Undigyte>, Regs, nat);

pub open spec fn u_add(a: Undigyte, b: Undigyte) -> Undigyte {
    Undigyte(((a@ + b@) % 121) as u8)
}

pub open spec fn u_sub(a: Undigyte, b: Undigyte) -> Undigyte {
    Undigyte((((a@ + 121 - b@) as nat) % 121) as u8)
}

pub open spec fn u_mul(a: Undigyte, b: Undigyte) -> Undigyte {
    Undigyte(((a@ * b@) % 121) as u8)
}

/// The signed reading of an undigyte: up to 60 itself, above it itself minus 121.
pub open spec fn signed(a: Undigyte) -> int {
    if a@ <= 60 {
        a@ as int
    } else {
        a@ - 121
    }
}

/// The characters of `len` cells from `ptr` on, round the 121 cells.
pub open spec fn cells_text(mem: Seq<Undigyte>, ptr: nat, len: nat) -> Seq<char> {
    Seq::new(len, |i: int| undigyte_table()[mem[((ptr + i) % 121) as int]@ as int])
}

/// Sets register `r` to `v`.
pub open spec fn with_reg(s: State, r: Reg, v: Undigyte) -> State {
    (s.0, s.1.set_spec(r, v), s.2)
}

/// Jumps to `t` if `cond` holds.
pub open spec fn jump_if(s: State, cond: bool, t: Undigyte) -> State {
    (s.0, s.1, if cond {
        t@
    } else {
        s.2
    })
}

/// Executing `inst` in state `s`: the next state, the text printed, and the effect.
pub open spec fn step_spec(s: State, inst: Inst) -> (State, Seq<char>, Effect) {
    let mem = s.0;
    let regs = s.1;
    let ip = s.2;
    let none = Seq::<char>::empty();
    match inst {
        Inst::NOP => (s, none, Effect::Continue),
        Inst::HLT => (s, none, Effect::Halt),
        Inst::MOV { dst, src } => (with_reg(s, dst, regs.get_spec(src)), none, Effect::Continue),
        Inst::IMOV { dst, src } => (with_reg(s, dst, src), none, Effect::Continue),
        Inst::ADD { dst, src } => (
            with_reg(s, dst, u_add(regs.get_spec(dst), regs.get_spec(src))),
            none,
            Effect::Continue,
        ),
        Inst::SUB { dst, src } => (
            with_reg(s, dst, u_sub(regs.get_spec(dst), regs.get_spec(src))),
            none,
            Effect::Continue,
        ),
        Inst::MUL { dst, src } => (
            with_reg(s, dst, u_mul(regs.get_spec(dst), regs.get_spec(src))),
            none,
            Effect::Continue,
        ),
        Inst::DIV { dst, src } => if regs.get_spec(src)@ == 0 {
            (s, none, Effect::DivisionByZero)
        } else {
            (
                with_reg(
                    s,
                    dst,
                    Undigyte(((regs.get_spec(dst)@ / regs.get_spec(src)@) % 121) as u8),
                ),
                none,
                Effect::Continue,
            )
        },
        Inst::MOD { dst, src } => if regs.get_spec(src)@ == 0 {
            (s, none, Effect::DivisionByZero)
        } else {
            (
                with_reg(s, dst, Undigyte((regs.get_spec(dst)@ % regs.get_spec(src)@) as u8)),
                none,
                Effect::Continue,
            )
        },
        Inst::IADD { dst, src } => (
            with_reg(s, dst, u_add(regs.get_spec(dst), src)),
            none,
            Effect::Continue,
        ),
        Inst::ISUB { dst, src } => (
            with_reg(s, dst, u_sub(regs.get_spec(dst), src)),
            none,
            Effect::Continue,
        ),
        Inst::IMUL { dst, src } => (
            with_reg(s, dst, u_mul(regs.get_spec(dst), src)),
            none,
            Effect::Continue,
        ),
        Inst::IDIV { dst, src } => if src@ == 0 {
            (s, none, Effect::DivisionByZero)
        } else {
            (
                with_reg(s, dst, Undigyte(((regs.get_spec(dst)@ / src@) % 121) as u8)),
                none,
                Effect::Continue,
            )
        },
        Inst::IMOD { dst, src } => if src@ == 0 {
            (s, none, Effect::DivisionByZero)
        } else {
            (
                with_reg(s, dst, Undigyte((regs.get_spec(dst)@ % src@) as u8)),
                none,
                Effect::Continue,
            )
        },
        Inst::JMP { abs } => (jump_if(s, true, abs), none, Effect::Continue),
        Inst::LDR { dst, abs } => (with_reg(s, dst, mem[abs@ as int]), none, Effect::Continue),
        Inst::LDRREG { dst, reg } => (
            with_reg(s, dst, mem[regs.get_spec(reg)@ as int]),
            none,
            Effect::Continue,
        ),
        Inst::STR { abs, src } => (
            (mem.update(abs@ as int, regs.get_spec(src)), regs, ip),
            none,
            Effect::Continue,
        ),
        Inst::STRREG { reg, src } => (
            (mem.update(regs.get_spec(reg)@ as int, regs.get_spec(src)), regs, ip),
            none,
            Effect::Continue,
        ),
        Inst::PUSH { src } => {
            let regs1 = regs.set_spec(Reg::SP, u_sub(regs.sp, Undigyte(1)));
            ((mem.update(regs1.sp@ as int, regs1.get_spec(src)), regs1, ip), none, Effect::Continue)
        },
        Inst::POP { dst } => if regs.sp@ == 120 {
            (s, none, Effect::StackUnderflow)
        } else {
            let regs1 = regs.set_spec(dst, mem[regs.sp@ as int]);
            let regs2 = regs1.set_spec(Reg::SP, u_add(regs1.sp, Undigyte(1)));
            ((mem, regs2, ip), none, Effect::Continue)
        },
        Inst::CALL { abs } => {
            let regs1 = regs.set_spec(Reg::SP, u_sub(regs.sp, Undigyte(1)));
            ((mem.update(regs1.sp@ as int, Undigyte(ip as u8)), regs1, abs@), none, Effect::Continue)
        },
        Inst::RET => if regs.sp@ == 120 {
            (s, none, Effect::StackUnderflow)
        } else {
            (
                (mem, regs.set_spec(Reg::SP, u_add(regs.sp, Undigyte(1))), mem[regs.sp@ as int]@),
                none,
                Effect::Continue,
            )
        },
        Inst::JIZ { reg, then } => (
            jump_if(s, regs.get_spec(reg)@ == 0, then),
            none,
            Effect::Continue,
        ),
        Inst::JNZ { reg, then } => (
            jump_if(s, regs.get_spec(reg)@ != 0, then),
            none,
            Effect::Continue,
        ),
        Inst::JEQ { a, b, then } => (
            jump_if(s, regs.get_spec(a)@ == regs.get_spec(b)@, then),
            none,
            Effect::Continue,
        ),
        Inst::JNE { a, b, then } => (
            jump_if(s, regs.get_spec(a)@ != regs.get_spec(b)@, then),
            none,
            Effect::Continue,
        ),
        Inst::JLT { a, b, then } => (
            jump_if(s, regs.get_spec(a)@ < regs.get_spec(b)@, then),
            none,
            Effect::Continue,
        ),
        Inst::JGT { a, b, then } => (
            jump_if(s, regs.get_spec(a)@ > regs.get_spec(b)@, then),
            none,
            Effect::Continue,
        ),
        Inst::JLTI { a, b, then } => (
            jump_if(s, signed(regs.get_spec(a)) < signed(regs.get_spec(b)), then),
            none,
            Effect::Continue,
        ),
        Inst::JGTI { a, b, then } => (
            jump_if(s, signed(regs.get_spec(a)) > signed(regs.get_spec(b)), then),
            none,
            Effect::Continue,
        ),
        Inst::OUTU { reg } => (s, notation(regs.get_spec(reg)@), Effect::Continue),
        Inst::OUTD { reg } => (s, decimal(regs.get_spec(reg)@), Effect::Continue),
        Inst::OUTS { ptr, len } => (
            s,
            cells_text(mem, regs.get_spec(ptr)@, regs.get_spec(len)@),
            Effect::Continue,
        ),
        Inst::IOUTS { ptr, len } => (
            s,
            cells_text(mem, regs.get_spec(ptr)@, len@),
            Effect::Continue,
        ),
    }
}

/// Appends the characters of `len` cells from `ptr` on to `out`.
fn print_cells(mem: &[Undigyte], ptr: usize, len: usize, out: &mut Vec<char>)
    requires
        mem_wf(mem@),
        ptr < 121,
        len < 121,
    ensures
        final(out)@ == old(out)@ + cells_text(mem@, ptr as nat, len as nat),
{
    let ghost start = old(out)@;
    let mut i: usize = 0;
    while i < len
        invariant
            mem_wf(mem@),
            ptr < 121,
            len < 121,
            i <= len,
            out@ == start + cells_text(mem@, ptr as nat, i as nat),
        decreases len - i,
    {
        let c = mem[(ptr + i) % 121].as_char();
        out.push(c);
        i += 1;
        proof {
            assert(start + cells_text(mem@, ptr as nat, i as nat) =~= (start + cells_text(
                mem@,
                ptr as nat,
                (i - 1) as nat,
            )).push(c));
        }
    }
}

impl UndigyteMachine {
    pub open spec fn state(&self) -> State {
        (self.mem@, self.regs, self.ip as nat)
    }

    /// Memory of 121 cells in range, registers in range, `ip` on a cell.
    pub open spec fn wf(&self) -> bool {
        &&& mem_wf(self.mem@)
        &&& self.regs.wf()
        &&& self.ip < 121
    }

    /// A machine with `program` at the start of memory, the rest of the 121
    /// cells zero, the registers at start and `ip` at 0.
    pub fn new(program: Vec<Undigyte>) -> (m: UndigyteMachine)
        requires
            program@.len() <= 121,
            forall|i: int| 0 <= i < program@.len() ==> #[trigger] program@[i]@ < 121,
        ensures
            m.mem@ == program@ + Seq::new((121 - program@.len()) as nat, |i: int| Undigyte(0)),
            m.regs == Regs::initial(),
            m.ip == 0,
            m.wf(),
    {
        let mut mem = program;
        let ghost p = mem@;
        while mem.len() < 121
            invariant
                p.len() <= mem@.len() <= 121,
                mem@ == p + Seq::new((mem@.len() - p.len()) as nat, |i: int| Undigyte(0)),
            decreases 121 - mem.len(),
        {
            mem.push(Undigyte(0));
            proof {
                assert(p + Seq::new((mem@.len() - p.len()) as nat, |i: int| Undigyte(0)) =~= (p
                    + Seq::new((mem@.len() - 1 - p.len()) as nat, |i: int| Undigyte(0))).push(
                    Undigyte(0),
                ));
            }
        }
        let m = UndigyteMachine { mem, regs: Regs::new(), ip: 0 };
        proof {
            assert forall|i: int| 0 <= i < 121 implies #[trigger] m.mem@[i]@ < 121 by {
                if i >= p.len() {
                    assert(m.mem@[i] == Undigyte(0));
                } else {
                    assert(m.mem@[i] == p[i]);
                }
            }
        }
        m
    }

    /// Decodes the instruction at `ip` and moves `ip` past it.
    pub fn decode(&mut self) -> (r: Result<Inst, String>)
        requires
            old(self).wf(),
        ensures
            decode_matches(old(self).mem@, old(self).ip as nat, r, final(self).ip as nat),
            final(self).mem == old(self).mem,
            final(self).regs == old(self).regs,
            final(self).wf(),
            r matches Ok(i) ==> inst_wf(i),
    {
        let mut ip = self.ip;
        proof {
            let n = decode_spec(self.mem@, ip as nat).1;
            assert forall|k: nat| k < n implies #[trigger] cell_index(ip as nat, k)
                < self.mem@.len() by {
                assert(ip < 121);
            }
        }
        let r = Inst::decode(self.mem.as_slice(), &mut ip);
        self.ip = ip;
        r
    }

    /// Moves and modular arithmetic between registers.
    fn exec_regs(&mut self, inst: Inst) -> (e: Effect)
        requires
            old(self).wf(),
            inst_wf(inst),
            inst is MOV || inst is IMOV || inst is ADD || inst is SUB || inst is MUL || inst is IADD || inst is ISUB || inst is IMUL,
        ensures
            ({
                let (s, text, eff) = step_spec(old(self).state(), inst);
                &&& final(self).state() == s
                &&& text.len() == 0
                &&& e == eff
            }),
            final(self).wf(),
    {
        proof {
            assert(self.mem@[self.regs.sp@ as int]@ < 121);
        }
        match inst {
            Inst::MOV { dst, src } => {
                let v = self.regs.get(src);
                self.regs.set(dst, v);
                Effect::Continue
            },
            Inst::IMOV { dst, src } => {
                self.regs.set(dst, src);
                Effect::Continue
            },
            Inst::ADD { dst, src } => {
                let v = self.regs.get(dst).wrapping_add(self.regs.get(src));
                self.regs.set(dst, v);
                Effect::Continue
            },
            Inst::SUB { dst, src } => {
                let v = self.regs.get(dst).wrapping_sub(self.regs.get(src));
                self.regs.set(dst, v);
                Effect::Continue
            },
            Inst::MUL { dst, src } => {
                let v = self.regs.get(dst).wrapping_mul(self.regs.get(src));
                self.regs.set(dst, v);
                Effect::Continue
            },
            Inst::IADD { dst, src } => {
                let v = self.regs.get(dst).wrapping_add(src);
                self.regs.set(dst, v);
                Effect::Continue
            },
            Inst::ISUB { dst, src } => {
                let v = self.regs.get(dst).wrapping_sub(src);
                self.regs.set(dst, v);
                Effect::Continue
            },
            Inst::IMUL { dst, src } => {
                let v = self.regs.get(dst).wrapping_mul(src);
                self.regs.set(dst, v);
                Effect::Continue
            },
            _ => Effect::Continue,
        }
    }

    /// Division and remainder, which fail on a zero divisor.
    fn exec_div(&mut self, inst: Inst) -> (e: Effect)
        requires
            old(self).wf(),
            inst_wf(inst),
            inst is DIV || inst is MOD || inst is IDIV || inst is IMOD,
        ensures
            ({
                let (s, text, eff) = step_spec(old(self).state(), inst);
                &&& final(self).state() == s
                &&& text.len() == 0
                &&& e == eff
            }),
            final(self).wf(),
    {
        proof {
            assert(self.mem@[self.regs.sp@ as int]@ < 121);
        }
        match inst {
            Inst::DIV { dst, src } => match self.regs.get(dst).checked_div(self.regs.get(src)) {
                Some(v) => {
                    self.regs.set(dst, v);
                    Effect::Continue
                },
                None => Effect::DivisionByZero,
            },
            Inst::MOD { dst, src } => match self.regs.get(dst).checked_mod(self.regs.get(src)) {
                Some(v) => {
                    proof {
                        assert(self.regs.get_spec(dst)@ % self.regs.get_spec(src)@ < 121);
                    }
                    self.regs.set(dst, v);
                    Effect::Continue
                },
                None => Effect::DivisionByZero,
            },
            Inst::IDIV { dst, src } => match self.regs.get(dst).checked_div(src) {
                Some(v) => {
                    self.regs.set(dst, v);
                    Effect::Continue
                },
                None => Effect::DivisionByZero,
            },
            Inst::IMOD { dst, src } => match self.regs.get(dst).checked_mod(src) {
                Some(v) => {
                    self.regs.set(dst, v);
                    Effect::Continue
                },
                None => Effect::DivisionByZero,
            },
            _ => Effect::Continue,
        }
    }

    /// Loads, stores and the stack.
    fn exec_mem(&mut self, inst: Inst) -> (e: Effect)
        requires
            old(self).wf(),
            inst_wf(inst),
            inst is LDR || inst is LDRREG || inst is STR || inst is STRREG || inst is PUSH || inst is POP || inst is CALL || inst is RET,
        ensures
            ({
                let (s, text, eff) = step_spec(old(self).state(), inst);
                &&& final(self).state() == s
                &&& text.len() == 0
                &&& e == eff
            }),
            final(self).wf(),
    {
        proof {
            assert(self.mem@[self.regs.sp@ as int]@ < 121);
        }
        match inst {
            Inst::LDR { dst, abs } => {
                let v = self.mem[abs.0 as usize];
                self.regs.set(dst, v);
                Effect::Continue
            },
            Inst::LDRREG { dst, reg } => {
                let v = self.mem[self.regs.get(reg).0 as usize];
                self.regs.set(dst, v);
                Effect::Continue
            },
            Inst::STR { abs, src } => {
                let v = self.regs.get(src);
                self.mem.set(abs.0 as usize, v);
                Effect::Continue
            },
            Inst::STRREG { reg, src } => {
                let a = self.regs.get(reg).0 as usize;
                let v = self.regs.get(src);
                self.mem.set(a, v);
                Effect::Continue
            },
            Inst::PUSH { src } => {
                self.regs.sp = self.regs.sp.wrapping_sub(Undigyte(1));
                let v = self.regs.get(src);
                self.mem.set(self.regs.sp.0 as usize, v);
                Effect::Continue
            },
            Inst::POP { dst } => {
                if self.regs.sp.0 == 120 {
                    return Effect::StackUnderflow;
                }
                let v = self.mem[self.regs.sp.0 as usize];
                self.regs.set(dst, v);
                self.regs.sp = self.regs.sp.wrapping_add(Undigyte(1));
                Effect::Continue
            },
            Inst::CALL { abs } => {
                self.regs.sp = self.regs.sp.wrapping_sub(Undigyte(1));
                self.mem.set(self.regs.sp.0 as usize, Undigyte(self.ip as u8));
                self.ip = abs.0 as usize;
                Effect::Continue
            },
            Inst::RET => {
                if self.regs.sp.0 == 120 {
                    return Effect::StackUnderflow;
                }
                self.ip = self.mem[self.regs.sp.0 as usize].0 as usize;
                self.regs.sp = self.regs.sp.wrapping_add(Undigyte(1));
                Effect::Continue
            },
            _ => Effect::Continue,
        }
    }

    /// Jumps.
    fn exec_jump(&mut self, inst: Inst) -> (e: Effect)
        requires
            old(self).wf(),
            inst_wf(inst),
            inst is JMP || inst is JIZ || inst is JNZ || inst is JEQ || inst is JNE || inst is JLT || inst is JGT || inst is JLTI || inst is JGTI,
        ensures
            ({
                let (s, text, eff) = step_spec(old(self).state(), inst);
                &&& final(self).state() == s
                &&& text.len() == 0
                &&& e == eff
            }),
            final(self).wf(),
    {
        proof {
            assert(self.mem@[self.regs.sp@ as int]@ < 121);
        }
        match inst {
            Inst::JMP { abs } => {
                self.ip = abs.0 as usize;
                Effect::Continue
            },
            Inst::JIZ { reg, then } => {
                if self.regs.get(reg).0 == 0 {
                    self.ip = then.0 as usize;
                }
                Effect::Continue
            },
            Inst::JNZ { reg, then } => {
                if self.regs.get(reg).0 != 0 {
                    self.ip = then.0 as usize;
                }
                Effect::Continue
            },
            Inst::JEQ { a, b, then } => {
                if self.regs.get(a).0 == self.regs.get(b).0 {
                    self.ip = then.0 as usize;
                }
                Effect::Continue
            },
            Inst::JNE { a, b, then } => {
                if self.regs.get(a).0 != self.regs.get(b).0 {
                    self.ip = then.0 as usize;
                }
                Effect::Continue
            },
            Inst::JLT { a, b, then } => {
                if self.regs.get(a).0 < self.regs.get(b).0 {
                    self.ip = then.0 as usize;
                }
                Effect::Continue
            },
            Inst::JGT { a, b, then } => {
                if self.regs.get(a).0 > self.regs.get(b).0 {
                    self.ip = then.0 as usize;
                }
                Effect::Continue
            },
            Inst::JLTI { a, b, then } => {
                if self.regs.get(a).as_signed() < self.regs.get(b).as_signed() {
                    self.ip = then.0 as usize;
                }
                Effect::Continue
            },
            Inst::JGTI { a, b, then } => {
                if self.regs.get(a).as_signed() > self.regs.get(b).as_signed() {
                    self.ip = then.0 as usize;
                }
                Effect::Continue
            },
            _ => Effect::Continue,
        }
    }

    /// Output.
    fn exec_out(&mut self, inst: Inst, out: &mut Vec<char>) -> (e: Effect)
        requires
            old(self).wf(),
            inst_wf(inst),
            inst is OUTU || inst is OUTD || inst is OUTS || inst is IOUTS,
        ensures
            ({
                let (s, text, eff) = step_spec(old(self).state(), inst);
                &&& final(self).state() == s
                &&& final(out)@ == old(out)@ + text
                &&& e == eff
            }),
            final(self).wf(),
    {
        proof {
            assert(self.mem@[self.regs.sp@ as int]@ < 121);
        }
        match inst {
            Inst::OUTU { reg } => {
                let t = self.regs.get(reg).notation();
                append_chars(out, t.as_slice());
                Effect::Continue
            },
            Inst::OUTD { reg } => {
                let t = self.regs.get(reg).decimal_text();
                append_chars(out, t.as_slice());
                Effect::Continue
            },
            Inst::OUTS { ptr, len } => {
                let p = self.regs.get(ptr).0 as usize;
                let n = self.regs.get(len).0 as usize;
                print_cells(self.mem.as_slice(), p, n, out);
                Effect::Continue
            },
            Inst::IOUTS { ptr, len } => {
                let p = self.regs.get(ptr).0 as usize;
                print_cells(self.mem.as_slice(), p, len.0 as usize, out);
                Effect::Continue
            },
            _ => Effect::Continue,
        }
    }

    /// Executes `inst`: updates the machine, appends what the instruction
    /// prints to `out`, and says how to go on.
    pub fn execute(&mut self, inst: Inst, out: &mut Vec<char>) -> (e: Effect)
        requires
            old(self).wf(),
            inst_wf(inst),
        ensures
            ({
                let (s, text, eff) = step_spec(old(self).state(), inst);
                &&& final(self).state() == s
                &&& final(out)@ == old(out)@ + text
                &&& e == eff
            }),
            final(self).wf(),
    {
        match inst {
            Inst::NOP => Effect::Continue,
            Inst::HLT => Effect::Halt,
            Inst::MOV { .. } | Inst::IMOV { .. } | Inst::ADD { .. } | Inst::SUB { .. }
            | Inst::MUL { .. } | Inst::IADD { .. } | Inst::ISUB { .. } | Inst::IMUL { .. } => {
                let e = self.exec_regs(inst);
                proof {
                    assert(out@ =~= old(out)@ + step_spec(old(self).state(), inst).1);
                }
                e
            },
            Inst::DIV { .. } | Inst::MOD { .. } | Inst::IDIV { .. } | Inst::IMOD { .. } => {
                let e = self.exec_div(inst);
                proof {
                    assert(out@ =~= old(out)@ + step_spec(old(self).state(), inst).1);
                }
                e
            },
            Inst::LDR { .. } | Inst::LDRREG { .. } | Inst::STR { .. } | Inst::STRREG { .. }
            | Inst::PUSH { .. } | Inst::POP { .. } | Inst::CALL { .. } | Inst::RET => {
                let e = self.exec_mem(inst);
                proof {
                    assert(out@ =~= old(out)@ + step_spec(old(self).state(), inst).1);
                }
                e
            },
            Inst::JMP { .. } | Inst::JIZ { .. } | Inst::JNZ { .. } | Inst::JEQ { .. }
            | Inst::JNE { .. } | Inst::JLT { .. } | Inst::JGT { .. } | Inst::JLTI { .. }
            | Inst::JGTI { .. } => {
                let e = self.exec_jump(inst);
                proof {
                    assert(out@ =~= old(out)@ + step_spec(old(self).state(), inst).1);
                }
                e
            },
            Inst::OUTU { .. } | Inst::OUTD { .. } | Inst::OUTS { .. } | Inst::IOUTS { .. } => {
                self.exec_out(inst, out)
            },
        }
    }
}


/// The values of the tokens of a program, in order, or the first token
/// (with its line) that is not an undigyte.
pub open spec fn parse_tokens(toks: Seq<(nat, Seq<char>)>) -> Result<Seq<Undigyte>, (nat, Seq<char>)>
    decreases toks.len(),
{
    if toks.len() == 0 {
        Ok(Seq::empty())
    } else {
        match parse_tokens(toks.drop_last()) {
            Err(e) => Err(e),
            Ok(vs) => match parse_spec(toks.last().1) {
                Ok(v) => Ok(vs.push(Undigyte(v as u8))),
                Err(_) => Err(toks.last()),
            },
        }
    }
}

/// What `parse_program` makes of a program source: its undigytes, at most
/// 121 of them, or the error message.
pub open spec fn parse_program_spec(src: Seq<char>) -> Result<Seq<Undigyte>, Seq<char>> {
    match parse_tokens(program_tokens(src)) {
        Err((line, tok)) => Err("line "@ + decimal(line) + ": invalid byte '"@ + tok + "'"@),
        Ok(vs) => if vs.len() > 121 {
            Err("program is "@ + decimal(vs.len()) + " undigytes, exceeds 121-cell memory"@)
        } else {
            Ok(vs)
        },
    }
}

/// A failure in a prefix of the tokens is the failure of the whole.
proof fn lemma_parse_tokens_err(toks: Seq<(nat, Seq<char>)>, k: int)
    requires
        0 <= k <= toks.len(),
        parse_tokens(toks.take(k)) is Err,
    ensures
        parse_tokens(toks) == parse_tokens(toks.take(k)),
    decreases toks.len() - k,
{
    if k < toks.len() {
        assert(toks.take(k + 1).drop_last() =~= toks.take(k));
        lemma_parse_tokens_err(toks, k + 1);
    } else {
        assert(toks.take(k) =~= toks);
    }
}

/// A value read by the undigyte parser is in `0..121`.
pub proof fn lemma_parse_in_range(s: Seq<char>)
    ensures
        parse_spec(s) matches Ok(v) ==> v < 121,
{
}

/// Every undigyte of a parsed program is in `0..121`.
proof fn lemma_parse_tokens_in_range(toks: Seq<(nat, Seq<char>)>)
    ensures
        parse_tokens(toks) matches Ok(vs) ==> forall|i: int| 0 <= i < vs.len() ==> #[trigger] vs[i]@ < 121,
    decreases toks.len(),
{
    if toks.len() > 0 {
        lemma_parse_tokens_in_range(toks.drop_last());
        lemma_parse_in_range(toks.last().1);
    }
}

/// Reads a program: each word of each line (up to a `;`) is an undigyte.
pub fn parse_program(source: &str) -> (r: Result<Vec<Undigyte>, String>)
    requires
        source@.len() < usize::MAX,
    ensures
        match r {
            Ok(m) => parse_program_spec(source@) == Ok::<Seq<Undigyte>, Seq<char>>(m@),
            Err(e) => parse_program_spec(source@) == Err::<Seq<Undigyte>, Seq<char>>(e@),
        },
        r matches Ok(m) ==> forall|i: int| 0 <= i < m@.len() ==> #[trigger] m@[i]@ < 121,
{
    let cs = chars_of(source);
    let toks = tokenize(cs.as_slice());
    let ghost all = program_tokens(source@);
    let mut mem: Vec<Undigyte> = Vec::new();
    let mut k: usize = 0;
    proof {
        assert(all.take(0) =~= Seq::<(nat, Seq<char>)>::empty());
    }
    while k < toks.len()
        invariant
            all == program_tokens(source@),
            toks@.len() == all.len(),
            forall|j: int| 0 <= j < toks@.len() ==> token_view(&#[trigger] toks@[j]) == all[j],
            k <= toks@.len(),
            parse_tokens(all.take(k as int)) == Ok::<Seq<Undigyte>, (nat, Seq<char>)>(mem@),
        decreases toks.len() - k,
    {
        let tok = &toks[k];
        proof {
            assert(token_view(&toks@[k as int]) == all[k as int]);
            assert(all.take(k + 1).drop_last() =~= all.take(k as int));
            assert(all.take(k + 1).last() == all[k as int]);
        }
        match Undigyte::parse(tok.text.as_slice()) {
            Ok(u) => {
                mem.push(u);
            },
            Err(_) => {
                proof {
                    lemma_parse_tokens_err(all, k + 1);
                }
                let mut m = chars_of("line ");
                push_decimal(&mut m, tok.line as u64);
                append_str(&mut m, ": invalid byte '");
                append_chars(&mut m, tok.text.as_slice());
                append_str(&mut m, "'");
                proof {
                    assert(m@ =~= "line "@ + decimal(all[k as int].0) + ": invalid byte '"@
                        + all[k as int].1 + "'"@);
                }
                return Err(string_of(m.as_slice()));
            },
        }
        k += 1;
    }
    proof {
        assert(all.take(toks@.len() as int) =~= all);
        lemma_parse_tokens_in_range(all);
    }
    if mem.len() > 121 {
        let mut m = chars_of("program is ");
        push_decimal(&mut m, mem.len() as u64);
        append_str(&mut m, " undigytes, exceeds 121-cell memory");
        proof {
            assert(m@ =~= "program is "@ + decimal(mem@.len()) + " undigytes, exceeds 121-cell memory"@);
        }
        return Err(string_of(m.as_slice()));
    }
    Ok(mem)
}

/// An operand as the debugger shows it: a register by name, an address by
/// its `0u` notation, an immediate by its value and its notation.
#[derive(Clone, Copy, PartialEq, Eq, Structural, Debug)]
pub enum Shown {
    Register(Reg),
    Address(Undigyte),
    Immediate(Undigyte),
}

pub open spec fn shown_text(o: Shown) -> Seq<char> {
    match o {
        Shown::Register(r) => reg_name(r),
        Shown::Address(u) => notation(u@),
        Shown::Immediate(u) => decimal(u@) + " ("@ + notation(u@) + ")"@,
    }
}

/// Operand texts separated by `, `.
pub open spec fn joined(os: Seq<Shown>) -> Seq<char>
    decreases os.len(),
{
    if os.len() == 0 {
        Seq::empty()
    } else if os.len() == 1 {
        shown_text(os[0])
    } else {
        joined(os.drop_last()) + ", "@ + shown_text(os.last())
    }
}

/// The mnemonic of an instruction (a pop is shown as `push`).
pub open spec fn mnemonic(inst: Inst) -> Seq<char> {
    match inst {
        Inst::NOP => "nop"@,
        Inst::HLT => "hlt"@,
        Inst::MOV { .. } | Inst::IMOV { .. } => "mov"@,
        Inst::ADD { .. } | Inst::IADD { .. } => "add"@,
        Inst::SUB { .. } | Inst::ISUB { .. } => "sub"@,
        Inst::MUL { .. } | Inst::IMUL { .. } => "mul"@,
        Inst::DIV { .. } | Inst::IDIV { .. } => "div"@,
        Inst::MOD { .. } | Inst::IMOD { .. } => "mod"@,
        Inst::JMP { .. } => "jmp"@,
        Inst::LDR { .. } | Inst::LDRREG { .. } => "ldr"@,
        Inst::STR { .. } | Inst::STRREG { .. } => "str"@,
        Inst::PUSH { .. } | Inst::POP { .. } => "push"@,
        Inst::CALL { .. } => "call"@,
        Inst::RET => "ret"@,
        Inst::JIZ { .. } => "jiz"@,
        Inst::JNZ { .. } => "jnz"@,
        Inst::JEQ { .. } => "jeq"@,
        Inst::JNE { .. } => "jne"@,
        Inst::JLT { .. } => "jlt"@,
        Inst::JGT { .. } => "jgt"@,
        Inst::JLTI { .. } => "jlti"@,
        Inst::JGTI { .. } => "jgti"@,
        Inst::OUTU { .. } => "outu"@,
        Inst::OUTD { .. } => "outd"@,
        Inst::OUTS { .. } | Inst::IOUTS { .. } => "outs"@,
    }
}

/// The operands of an instruction as the debugger shows them.
pub open spec fn shown_operands(inst: Inst) -> Seq<Shown> {
    match inst {
        Inst::NOP | Inst::HLT | Inst::RET => seq![],
        Inst::MOV { dst, src } | Inst::ADD { dst, src } | Inst::SUB { dst, src } | Inst::MUL {
            dst,
            src,
        } | Inst::DIV { dst, src } | Inst::MOD { dst, src } => seq![
            Shown::Register(dst),
            Shown::Register(src),
        ],
        Inst::IMOV { dst, src } | Inst::IADD { dst, src } | Inst::ISUB { dst, src } | Inst::IMUL {
            dst,
            src,
        } | Inst::IDIV { dst, src } | Inst::IMOD { dst, src } => seq![
            Shown::Register(dst),
            Shown::Immediate(src),
        ],
        Inst::JMP { abs } | Inst::CALL { abs } => seq![Shown::Address(abs)],
        Inst::LDR { dst, abs } => seq![Shown::Register(dst), Shown::Address(abs)],
        Inst::LDRREG { dst, reg } => seq![Shown::Register(dst), Shown::Register(reg)],
        Inst::STR { abs, src } => seq![Shown::Address(abs), Shown::Register(src)],
        Inst::STRREG { reg, src } => seq![Shown::Register(reg), Shown::Register(src)],
        Inst::PUSH { src } => seq![Shown::Register(src)],
        Inst::POP { dst } => seq![Shown::Register(dst)],
        Inst::JIZ { reg, then } | Inst::JNZ { reg, then } => seq![
            Shown::Register(reg),
            Shown::Address(then),
        ],
        Inst::JEQ { a, b, then } | Inst::JNE { a, b, then } | Inst::JLT { a, b, then } | Inst::JGT {
            a,
            b,
            then,
        } | Inst::JLTI { a, b, then } | Inst::JGTI { a, b, then } => seq![
            Shown::Register(a),
            Shown::Register(b),
            Shown::Address(then),
        ],
        Inst::OUTU { reg } | Inst::OUTD { reg } => seq![Shown::Register(reg)],
        Inst::OUTS { ptr, len } => seq![Shown::Register(ptr), Shown::Register(len)],
        Inst::IOUTS { ptr, len } => seq![Shown::Register(ptr), Shown::Immediate(len)],
    }
}

/// How the debugger shows an instruction: the mnemonic, then the operands.
pub open spec fn inst_text(inst: Inst) -> Seq<char> {
    if shown_operands(inst).len() == 0 {
        mnemonic(inst)
    } else {
        mnemonic(inst) + " "@ + joined(shown_operands(inst))
    }
}

/// Appends the text of one shown operand.
fn push_shown(v: &mut Vec<char>, o: Shown)
    ensures
        final(v)@ == old(v)@ + shown_text(o),
{
    match o {
        Shown::Register(r) => append_str(v, r.name()),
        Shown::Address(u) => {
            let t = u.notation();
            append_chars(v, t.as_slice());
        },
        Shown::Immediate(u) => {
            let d = u.decimal_text();
            append_chars(v, d.as_slice());
            append_str(v, " (");
            let t = u.notation();
            append_chars(v, t.as_slice());
            append_str(v, ")");
            proof {
                assert(v@ =~= old(v)@ + shown_text(o));
            }
        },
    }
}

impl Inst {
    /// The mnemonic of the instruction.
    pub fn mnemonic(&self) -> (r: &'static str)
        ensures
            r@ == mnemonic(*self),
    {
        match self {
            Inst::NOP => "nop",
            Inst::HLT => "hlt",
            Inst::MOV { .. } | Inst::IMOV { .. } => "mov",
            Inst::ADD { .. } | Inst::IADD { .. } => "add",
            Inst::SUB { .. } | Inst::ISUB { .. } => "sub",
            Inst::MUL { .. } | Inst::IMUL { .. } => "mul",
            Inst::DIV { .. } | Inst::IDIV { .. } => "div",
            Inst::MOD { .. } | Inst::IMOD { .. } => "mod",
            Inst::JMP { .. } => "jmp",
            Inst::LDR { .. } | Inst::LDRREG { .. } => "ldr",
            Inst::STR { .. } | Inst::STRREG { .. } => "str",
            Inst::PUSH { .. } | Inst::POP { .. } => "push",
            Inst::CALL { .. } => "call",
            Inst::RET => "ret",
            Inst::JIZ { .. } => "jiz",
            Inst::JNZ { .. } => "jnz",
            Inst::JEQ { .. } => "jeq",
            Inst::JNE { .. } => "jne",
            Inst::JLT { .. } => "jlt",
            Inst::JGT { .. } => "jgt",
            Inst::JLTI { .. } => "jlti",
            Inst::JGTI { .. } => "jgti",
            Inst::OUTU { .. } => "outu",
            Inst::OUTD { .. } => "outd",
            Inst::OUTS { .. } | Inst::IOUTS { .. } => "outs",
        }
    }

    /// The operands of the instruction, as the debugger shows them.
    pub fn shown_operands(&self) -> (r: Vec<Shown>)
        ensures
            r@ == shown_operands(*self),
    {
        let r = match *self {
            Inst::NOP | Inst::HLT | Inst::RET => vec![],
            Inst::MOV { dst, src } | Inst::ADD { dst, src } | Inst::SUB { dst, src } | Inst::MUL {
                dst,
                src,
            } | Inst::DIV { dst, src } | Inst::MOD { dst, src } => vec![
                Shown::Register(dst),
                Shown::Register(src),
            ],
            Inst::IMOV { dst, src } | Inst::IADD { dst, src } | Inst::ISUB { dst, src }
            | Inst::IMUL { dst, src } | Inst::IDIV { dst, src } | Inst::IMOD { dst, src } => vec![
                Shown::Register(dst),
                Shown::Immediate(src),
            ],
            Inst::JMP { abs } | Inst::CALL { abs } => vec![Shown::Address(abs)],
            Inst::LDR { dst, abs } => vec![Shown::Register(dst), Shown::Address(abs)],
            Inst::LDRREG { dst, reg } => vec![Shown::Register(dst), Shown::Register(reg)],
            Inst::STR { abs, src } => vec![Shown::Address(abs), Shown::Register(src)],
            Inst::STRREG { reg, src } => vec![Shown::Register(reg), Shown::Register(src)],
            Inst::PUSH { src } => vec![Shown::Register(src)],
            Inst::POP { dst } => vec![Shown::Register(dst)],
            Inst::JIZ { reg, then } | Inst::JNZ { reg, then } => vec![
                Shown::Register(reg),
                Shown::Address(then),
            ],
            Inst::JEQ { a, b, then } | Inst::JNE { a, b, then } | Inst::JLT { a, b, then }
            | Inst::JGT { a, b, then } | Inst::JLTI { a, b, then } | Inst::JGTI { a, b, then } => vec![
                Shown::Register(a),
                Shown::Register(b),
                Shown::Address(then),
            ],
            Inst::OUTU { reg } | Inst::OUTD { reg } => vec![Shown::Register(reg)],
            Inst::OUTS { ptr, len } => vec![Shown::Register(ptr), Shown::Register(len)],
            Inst::IOUTS { ptr, len } => vec![Shown::Register(ptr), Shown::Immediate(len)],
        };
        proof {
            assert(r@ =~= shown_operands(*self));
        }
        r
    }

    /// The instruction as the debugger shows it.
    pub fn text(&self) -> (r: String)
        ensures
            r@ == inst_text(*self),
    {
        let mut v = chars_of(self.mnemonic());
        let ops = self.shown_operands();
        let ghost os = ops@;
        let mut k: usize = 0;
        while k < ops.len()
            invariant
                os == ops@,
                os == shown_operands(*self),
                k <= ops@.len(),
                v@ == if k == 0 {
                    mnemonic(*self)
                } else {
                    mnemonic(*self) + " "@ + joined(os.take(k as int))
                },
            decreases ops.len() - k,
        {
            let ghost v0 = v@;
            if k == 0 {
                append_str(&mut v, " ");
            } else {
                append_str(&mut v, ", ");
            }
            push_shown(&mut v, ops[k]);
            proof {
                let t = os.take(k + 1);
                assert(t.drop_last() =~= os.take(k as int));
                assert(t.last() == os[k as int]);
                if k == 0 {
                    assert(joined(t) == shown_text(os[0]));
                    assert(v@ =~= mnemonic(*self) + " "@ + joined(t));
                } else {
                    assert(t.len() >= 2);
                    assert(joined(t) == joined(t.drop_last()) + ", "@ + shown_text(t.last()));
                    assert(v@ =~= v0 + ", "@ + shown_text(os[k as int]));
                    assert(v@ =~= mnemonic(*self) + " "@ + joined(t));
                }
            }
            k += 1;
        }
        proof {
            assert(os.take(ops@.len() as int) =~= os);
        }
        string_of(v.as_slice())
    }
}

/// One line of the register dump: name, value, notation.
pub open spec fn reg_line(name: Seq<char>, u: Undigyte) -> Seq<char> {
    name + ": "@ + decimal(u@) + " ("@ + notation(u@) + ")"@
}

/// The register dump the debugger shows, one register per line.
pub open spec fn regs_text(r: Regs) -> Seq<char> {
    reg_line("ra"@, r.ra) + "\n"@ + reg_line("rb"@, r.rb) + "\n"@ + reg_line("rc"@, r.rc) + "\n"@
        + reg_line("rd"@, r.rd) + "\n"@ + reg_line("re"@, r.re) + "\n"@ + reg_line("sp"@, r.sp)
        + "\n"@ + reg_line("bp"@, r.bp)
}

fn push_reg_line(v: &mut Vec<char>, name: &str, u: Undigyte)
    ensures
        final(v)@ == old(v)@ + reg_line(name@, u),
{
    append_str(v, name);
    append_str(v, ": ");
    let d = u.decimal_text();
    append_chars(v, d.as_slice());
    append_str(v, " (");
    let t = u.notation();
    append_chars(v, t.as_slice());
    append_str(v, ")");
    assert(v@ =~= old(v)@ + reg_line(name@, u));
}

impl Regs {
    /// The register dump the debugger shows.
    pub fn text(&self) -> (r: String)
        ensures
            r@ == regs_text(*self),
    {
        let mut v: Vec<char> = Vec::new();
        push_reg_line(&mut v, "ra", self.ra);
        append_str(&mut v, "\n");
        push_reg_line(&mut v, "rb", self.rb);
        append_str(&mut v, "\n");
        push_reg_line(&mut v, "rc", self.rc);
        append_str(&mut v, "\n");
        push_reg_line(&mut v, "rd", self.rd);
        append_str(&mut v, "\n");
        push_reg_line(&mut v, "re", self.re);
        append_str(&mut v, "\n");
        push_reg_line(&mut v, "sp", self.sp);
        append_str(&mut v, "\n");
        push_reg_line(&mut v, "bp", self.bp);
        assert(v@ =~= regs_text(*self));
        string_of(v.as_slice())
    }
}

} // verus!
