//! The pentyte machine: 25 cells of pentytes that hold program and data at
//! once; instructions name cells by their operand modulo 25.
use crate::pentyte::{
    lemma_value_of_char_in_range, addr, addr_spec, char2pentyte, char_of_value, glyph, glyph_text, lemma_pentyte_params,
    notation, notation_of, pentyte2char, pentyte_dec, pentyte_flip, pentyte_inc, pentyte_table,
    value_of_char, Pentyte,
};
use crate::text::{append_chars, append_str, chars_of, decimal, push_decimal, string_of};
use crate::machine::Machine;
use colored::Colorize;
use vstd::prelude::*;

verus! {

/// An operation code.
#[derive(Clone, Copy, PartialEq, Eq, Structural, Debug)]
pub enum Opcode {
    DON,
    PRT,
    INC,
    DEC,
    FLP,
    JMP,
    JIZ,
    JNZ,
    ADD,
    SUB,
    MUL,
    DIV,
    JLT,
    JGT,
    JEQ,
    END,
}

/// The operation with number `n`: 0 to 14 in the order of `Opcode`, and 24 for `END`.
pub open spec fn opcode_of(n: nat) -> Option<Opcode> {
    if n == 0 {
        Some(Opcode::DON)
    } else if n == 1 {
        Some(Opcode::PRT)
    } else if n == 2 {
        Some(Opcode::INC)
    } else if n == 3 {
        Some(Opcode::DEC)
    } else if n == 4 {
        Some(Opcode::FLP)
    } else if n == 5 {
        Some(Opcode::JMP)
    } else if n == 6 {
        Some(Opcode::JIZ)
    } else if n == 7 {
        Some(Opcode::JNZ)
    } else if n == 8 {
        Some(Opcode::ADD)
    } else if n == 9 {
        Some(Opcode::SUB)
    } else if n == 10 {
        Some(Opcode::MUL)
    } else if n == 11 {
        Some(Opcode::DIV)
    } else if n == 12 {
        Some(Opcode::JLT)
    } else if n == 13 {
        Some(Opcode::JGT)
    } else if n == 14 {
        Some(Opcode::JEQ)
    } else if n == 24 {
        Some(Opcode::END)
    } else {
        None
    }
}

/// Every operation but `DON` and `END` takes a first operand.
pub open spec fn takes1(op: Opcode) -> bool {
    !(op is DON || op is END)
}

/// The conditional jumps and the arithmetic take a second operand.
pub open spec fn takes2(op: Opcode) -> bool {
    op is JIZ || op is JNZ || op is ADD || op is SUB || op is MUL || op is DIV || op is JLT
        || op is JGT || op is JEQ
}

/// The comparing jumps take a third operand.
pub open spec fn takes3(op: Opcode) -> bool {
    op is JLT || op is JGT || op is JEQ
}

impl Opcode {
    /// The operation with number `n`, if any.
    pub fn from_number(n: u8) -> (r: Option<Opcode>)
        ensures
            r == opcode_of(n as nat),
    {
        match n {
            0 => Some(Opcode::DON),
            1 => Some(Opcode::PRT),
            2 => Some(Opcode::INC),
            3 => Some(Opcode::DEC),
            4 => Some(Opcode::FLP),
            5 => Some(Opcode::JMP),
            6 => Some(Opcode::JIZ),
            7 => Some(Opcode::JNZ),
            8 => Some(Opcode::ADD),
            9 => Some(Opcode::SUB),
            10 => Some(Opcode::MUL),
            11 => Some(Opcode::DIV),
            12 => Some(Opcode::JLT),
            13 => Some(Opcode::JGT),
            14 => Some(Opcode::JEQ),
            24 => Some(Opcode::END),
            _ => None,
        }
    }

    /// The name the operation is shown by.
    pub fn name(self) -> (r: &'static str)
        ensures
            r@ == opcode_name(self),
    {
        match self {
            Opcode::DON => "DON",
            Opcode::PRT => "PRT",
            Opcode::INC => "INC",
            Opcode::DEC => "DEC",
            Opcode::FLP => "FLP",
            Opcode::JMP => "JMP",
            Opcode::JIZ => "JIZ",
            Opcode::JNZ => "JNZ",
            Opcode::ADD => "ADD",
            Opcode::SUB => "SUB",
            Opcode::MUL => "MUL",
            Opcode::DIV => "DIV",
            Opcode::JLT => "JLT",
            Opcode::JGT => "JGT",
            Opcode::JEQ => "JEQ",
            Opcode::END => "END",
        }
    }

    /// Whether the operation takes a first operand.
    pub fn takes_operand(self) -> (r: bool)
        ensures
            r == takes1(self),
    {
        !matches!(self, Opcode::DON | Opcode::END)
    }

    /// Whether the operation takes a second operand.
    pub fn takes_operand2(self) -> (r: bool)
        ensures
            r == takes2(self),
    {
        matches!(
            self,
            Opcode::JIZ | Opcode::JNZ | Opcode::ADD | Opcode::SUB | Opcode::MUL | Opcode::DIV
                | Opcode::JLT | Opcode::JGT | Opcode::JEQ
        )
    }

    /// Whether the operation takes a third operand.
    pub fn takes_operand3(self) -> (r: bool)
        ensures
            r == takes3(self),
    {
        matches!(self, Opcode::JLT | Opcode::JGT | Opcode::JEQ)
    }
}

/// The name an operation is shown by.
pub open spec fn opcode_name(op: Opcode) -> Seq<char> {
    match op {
        Opcode::DON => "DON"@,
        Opcode::PRT => "PRT"@,
        Opcode::INC => "INC"@,
        Opcode::DEC => "DEC"@,
        Opcode::FLP => "FLP"@,
        Opcode::JMP => "JMP"@,
        Opcode::JIZ => "JIZ"@,
        Opcode::JNZ => "JNZ"@,
        Opcode::ADD => "ADD"@,
        Opcode::SUB => "SUB"@,
        Opcode::MUL => "MUL"@,
        Opcode::DIV => "DIV"@,
        Opcode::JLT => "JLT"@,
        Opcode::JGT => "JGT"@,
        Opcode::JEQ => "JEQ"@,
        Opcode::END => "END"@,
    }
}

/// An instruction: an operation and the operands it takes.
pub struct Instruction {
    pub opcode: Opcode,
    pub operand: Option<Pentyte>,
    pub operand2: Option<Pentyte>,
    pub operand3: Option<Pentyte>,
}

/// An instruction has exactly the operands its operation takes, each a
/// pentyte in range.
pub open spec fn inst_wf(inst: Instruction) -> bool {
    &&& (inst.operand is Some <==> takes1(inst.opcode))
    &&& (inst.operand2 is Some <==> takes2(inst.opcode))
    &&& (inst.operand3 is Some <==> takes3(inst.opcode))
    &&& (inst.operand matches Some(p) ==> p@ < 125)
    &&& (inst.operand2 matches Some(p) ==> p@ < 125)
    &&& (inst.operand3 matches Some(p) ==> p@ < 125)
}

/// Every cell holds a pentyte in range, and there are at least 25 cells.
pub open spec fn mem_wf(mem: Seq<Pentyte>) -> bool {
    &&& mem.len() >= 25
    &&& forall|i: int| 0 <= i < mem.len() ==> #[trigger] mem[i]@ < 125
}

/// The cell `k` places after `ip`, counting round 25 cells.
pub open spec fn cell(mem: Seq<Pentyte>, ip: nat, k: nat) -> Pentyte {
    mem[((ip + k) % 25) as int]
}

/// The message for an opcode cell that names no operation; when the cell
/// holds a newline, a note on a file that ends in one follows.
pub open spec fn bad_opcode_text(mem: Seq<Pentyte>, raw: nat) -> Seq<char> {
    let head = "Expected a valid opcode but got "@ + notation(raw) + " ("@ + notation(raw % 25)
        + ")"@;
    if pentyte_table()[raw as int] == '\n' {
        head
            + "\nNote: your editor may have ended the file with a newline and your program is actually 24 characters.\nNote: in this case, just place a DON at the end."@
    } else {
        head
    }
}

/// What decoding at `ip` gives: the instruction or the error, and the number
/// of cells read (the operation, then its operands in order).
pub open spec fn decode_spec(mem: Seq<Pentyte>, ip: nat) -> (Result<Instruction, Seq<char>>, nat) {
    let raw = cell(mem, ip, 0)@;
    match opcode_of(raw % 25) {
        None => (Err(bad_opcode_text(mem, raw)), 1),
        Some(op) => {
            let n1: nat = if takes1(op) {
                1
            } else {
                0
            };
            let n2: nat = if takes2(op) {
                1
            } else {
                0
            };
            let n3: nat = if takes3(op) {
                1
            } else {
                0
            };
            (
                Ok(
                    Instruction {
                        opcode: op,
                        operand: if takes1(op) {
                            Some(cell(mem, ip, 1))
                        } else {
                            None
                        },
                        operand2: if takes2(op) {
                            Some(cell(mem, ip, 1 + n1))
                        } else {
                            None
                        },
                        operand3: if takes3(op) {
                            Some(cell(mem, ip, 1 + n1 + n2))
                        } else {
                            None
                        },
                    },
                ),
                1 + n1 + n2 + n3,
            )
        },
    }
}

/// Reads the cell at `ip` and moves `ip` on by one, round 25 cells.
fn next(mem: &[Pentyte], ip: &mut usize) -> (p: Pentyte)
    requires
        mem@.len() >= 25,
        *old(ip) < 25,
    ensures
        p == mem@[*old(ip) as int],
        *final(ip) == (*old(ip) + 1) % 25,
{
    let p = mem[*ip];
    *ip = (*ip + 1) % 25;
    p
}

/// Reads the next cell if `take` holds.
fn next_if(take: bool, mem: &[Pentyte], ip: &mut usize) -> (p: Option<Pentyte>)
    requires
        mem@.len() >= 25,
        *old(ip) < 25,
    ensures
        take ==> p == Some(mem@[*old(ip) as int]) && *final(ip) == (*old(ip) + 1) % 25,
        !take ==> p is None && *final(ip) == *old(ip),
{
    if take {
        Some(next(mem, ip))
    } else {
        None
    }
}

impl Instruction {
    /// Decodes the instruction at `ip` and moves `ip` past the cells it read.
    pub fn decode(mem: &[Pentyte], ip: &mut usize) -> (r: Result<Instruction, String>)
        requires
            mem_wf(mem@),
            *old(ip) < 25,
        ensures
            ({
                let (d, n) = decode_spec(mem@, *old(ip) as nat);
                &&& *final(ip) == (*old(ip) + n) % 25
                &&& match r {
                    Ok(i) => d == Ok::<Instruction, Seq<char>>(i),
                    Err(e) => d == Err::<Instruction, Seq<char>>(e@),
                }
            }),
            *final(ip) < 25,
            r matches Ok(i) ==> inst_wf(i),
    {
        let ghost ip0 = *ip as nat;
        proof {
            lemma_pentyte_params();
            assert((ip0 + 0) % 25 == ip0);
            assert(((ip0 + 1) % 25 + 1) % 25 == (ip0 + 2) % 25);
            assert(((ip0 + 2) % 25 + 1) % 25 == (ip0 + 3) % 25);
            assert(mem@[((ip0 + 1) % 25) as int]@ < 125);
            assert(mem@[((ip0 + 2) % 25) as int]@ < 125);
            assert(mem@[((ip0 + 3) % 25) as int]@ < 125);
        }
        let raw = next(mem, ip).get();
        let opcode = match Opcode::from_number((raw % 25) as u8) {
            Some(op) => op,
            None => {
                let raw_p = Pentyte::new(raw);
                let masked_p = Pentyte::new(raw % 25);
                let mut m = chars_of("Expected a valid opcode but got ");
                let t1 = notation_of(raw_p);
                append_chars(&mut m, t1.as_slice());
                append_str(&mut m, " (");
                let t2 = notation_of(masked_p);
                append_chars(&mut m, t2.as_slice());
                append_str(&mut m, ")");
                let ghost head = m@;
                let nl = pentyte2char(raw_p) == '\n';
                proof {
                    assert(char_of_value(raw as nat) == pentyte_table()[raw as int]);
                }
                if nl {
                    append_str(
                        &mut m,
                        "\nNote: your editor may have ended the file with a newline and your program is actually 24 characters.\nNote: in this case, just place a DON at the end.",
                    );
                }
                proof {
                    assert(head =~= "Expected a valid opcode but got "@ + notation(raw as nat)
                        + " ("@ + notation((raw % 25) as nat) + ")"@);
                    assert(m@ =~= bad_opcode_text(mem@, raw as nat));
                }
                return Err(string_of(m.as_slice()));
            },
        };
        let operand = next_if(opcode.takes_operand(), mem, ip);
        let operand2 = next_if(opcode.takes_operand2(), mem, ip);
        let operand3 = next_if(opcode.takes_operand3(), mem, ip);
        Ok(Instruction { opcode, operand, operand2, operand3 })
    }
}


/// What executing an instruction leads to.
#[derive(Clone, Copy, PartialEq, Eq, Structural, Debug)]
pub enum Effect {
    /// Go on with the next instruction.
    Continue,
    /// The machine halted.
    Halt,
    /// A division by zero: the machine stops with an error.
    DivisionByZero,
}

/// The machine: its 25 cells (the instruction pointer is kept by whoever runs it).
pub struct N3M25b5 {
    pub mem: Vec<Pentyte>,
}

pub open spec fn mem_values(mem: Seq<Pentyte>) -> Seq<nat> {
    mem.map_values(|p: Pentyte| p@)
}

/// The value of an operand the instruction has.
pub open spec fn opnd(p: Option<Pentyte>) -> nat {
    match p {
        Some(x) => x@,
        None => 0,
    }
}

/// Executing `inst` with cell values `mem` at `ip`: the new cell values, the
/// new `ip`, the text printed and the effect. Operands name cells modulo 25.
pub open spec fn step_spec(mem: Seq<nat>, ip: nat, inst: Instruction) -> (
    Seq<nat>,
    nat,
    Seq<char>,
    Effect,
) {
    let a1 = addr_spec(opnd(inst.operand));
    let a2 = addr_spec(opnd(inst.operand2));
    let v2 = opnd(inst.operand2);
    let v3 = opnd(inst.operand3);
    let x = mem[a1 as int];
    let none = Seq::<char>::empty();
    let go = Effect::Continue;
    match inst.opcode {
        Opcode::DON => (mem, ip, none, go),
        Opcode::PRT => (mem, ip, seq![char_of_value(x)], go),
        Opcode::INC => (mem.update(a1 as int, (x + 1) % 125), ip, none, go),
        Opcode::DEC => (mem.update(a1 as int, ((125 + x - 1) as nat) % 125), ip, none, go),
        Opcode::FLP => (mem.update(a1 as int, (124 - x % 125) as nat), ip, none, go),
        Opcode::JMP => (mem, a1, none, go),
        Opcode::JIZ => (mem, if mem[a2 as int] == 0 {
            a1
        } else {
            ip
        }, none, go),
        Opcode::JNZ => (mem, if mem[a2 as int] != 0 {
            a1
        } else {
            ip
        }, none, go),
        Opcode::ADD => (mem.update(a1 as int, Pentyte::add_spec(x, v2)), ip, none, go),
        Opcode::SUB => (mem.update(a1 as int, Pentyte::sub_spec(x, v2)), ip, none, go),
        Opcode::MUL => (mem.update(a1 as int, Pentyte::mul_spec(x, v2)), ip, none, go),
        Opcode::DIV => if v2 == 0 {
            (mem, ip, none, Effect::DivisionByZero)
        } else {
            (mem.update(a1 as int, (x / v2) % 125), ip, none, go)
        },
        Opcode::JLT => (mem, if mem[a2 as int] < v3 {
            a1
        } else {
            ip
        }, none, go),
        Opcode::JGT => (mem, if mem[a2 as int] > v3 {
            a1
        } else {
            ip
        }, none, go),
        Opcode::JEQ => (mem, if mem[a2 as int] == v3 {
            a1
        } else {
            ip
        }, none, go),
        Opcode::END => (mem, ip, none, Effect::Halt),
    }
}

impl N3M25b5 {

    /// Writes `v` to cell `a`.
    fn store(&mut self, a: usize, v: Pentyte)
        requires
            mem_wf(old(self).mem@),
            a < 25,
            v@ < 125,
        ensures
            mem_values(final(self).mem@) == mem_values(old(self).mem@).update(a as int, v@),
            mem_wf(final(self).mem@),
    {
        self.mem.set(a, v);
        assert(mem_values(self.mem@) =~= mem_values(old(self).mem@).update(a as int, v@));
    }

    /// Executes `inst`: updates the cells and `ip`, appends what the
    /// instruction prints to `out`, and says how to go on.
    pub fn step(&mut self, inst: Instruction, ip: &mut usize, out: &mut Vec<char>) -> (e: Effect)
        requires
            mem_wf(old(self).mem@),
            inst_wf(inst),
            *old(ip) < 25,
        ensures
            ({
                let (m, i, text, eff) = step_spec(mem_values(old(self).mem@), *old(ip) as nat, inst);
                &&& mem_values(final(self).mem@) == m
                &&& *final(ip) == i
                &&& final(out)@ == old(out)@ + text
                &&& e == eff
            }),
            mem_wf(final(self).mem@),
            *final(ip) < 25,
    {
        proof {
            lemma_pentyte_params();
        }
        let ghost m0 = mem_values(self.mem@);
        let a1 = match inst.operand {
            Some(p) => addr(p),
            None => 0,
        };
        let a2 = match inst.operand2 {
            Some(p) => addr(p),
            None => 0,
        };
        let v2 = match inst.operand2 {
            Some(p) => p,
            None => Pentyte::new(0),
        };
        let v3 = match inst.operand3 {
            Some(p) => p,
            None => Pentyte::new(0),
        };
        proof {
            assert(m0[a1 as int] == self.mem@[a1 as int]@);
            assert(m0[a2 as int] == self.mem@[a2 as int]@);
            assert(self.mem@[a1 as int]@ < 125);
        }
        let x = self.mem[a1];
        match inst.opcode {
            Opcode::DON => Effect::Continue,
            Opcode::PRT => {
                out.push(pentyte2char(x));
                Effect::Continue
            },
            Opcode::INC => {
                self.store(a1, pentyte_inc(x));
                Effect::Continue
            },
            Opcode::DEC => {
                self.store(a1, pentyte_dec(x));
                Effect::Continue
            },
            Opcode::FLP => {
                self.store(a1, pentyte_flip(x));
                Effect::Continue
            },
            Opcode::JMP => {
                *ip = a1;
                Effect::Continue
            },
            Opcode::JIZ => {
                if self.mem[a2].get() == 0 {
                    *ip = a1;
                }
                Effect::Continue
            },
            Opcode::JNZ => {
                if self.mem[a2].get() != 0 {
                    *ip = a1;
                }
                Effect::Continue
            },
            Opcode::ADD => {
                self.store(a1, x.wrapping_add(v2));
                Effect::Continue
            },
            Opcode::SUB => {
                self.store(a1, x.wrapping_sub(v2));
                Effect::Continue
            },
            Opcode::MUL => {
                self.store(a1, x.wrapping_mul(v2));
                Effect::Continue
            },
            Opcode::DIV => match x.checked_div(v2) {
                Some(v) => {
                    self.store(a1, v);
                    Effect::Continue
                },
                None => Effect::DivisionByZero,
            },
            Opcode::JLT => {
                if self.mem[a2].get() < v3.get() {
                    *ip = a1;
                }
                Effect::Continue
            },
            Opcode::JGT => {
                if self.mem[a2].get() > v3.get() {
                    *ip = a1;
                }
                Effect::Continue
            },
            Opcode::JEQ => {
                if self.mem[a2].get() == v3.get() {
                    *ip = a1;
                }
                Effect::Continue
            },
            Opcode::END => Effect::Halt,
        }
    }

}

/// The text of cell `i` in the memory dump: a row label `0<row>x: ` before
/// every fifth cell (after a newline), then the cell and a space; the
/// highlighted cell is shown as `shown`.
pub open spec fn cell_piece(mem: Seq<nat>, i: nat, highlight: Option<usize>, shown: Seq<char>) -> Seq<
    char,
> {
    let label = if i % 5 == 0 {
        "\n"@ + "0"@ + decimal(i / 5) + "x: "@
    } else {
        Seq::empty()
    };
    let body = if highlight == Some(i as usize) {
        shown
    } else {
        glyph_text(mem[i as int])
    };
    label + body + " "@
}

/// The memory dump of the first `n` cells.
pub open spec fn layout(mem: Seq<nat>, highlight: Option<usize>, shown: Seq<char>, n: nat) -> Seq<
    char,
>
    decreases n,
{
    if n == 0 {
        Seq::empty()
    } else {
        layout(mem, highlight, shown, (n - 1) as nat) + cell_piece(
            mem,
            (n - 1) as nat,
            highlight,
            shown,
        )
    }
}

/// The cell text with the terminal colours for black on white, as `colored`
/// writes it when it colours.
pub open spec fn black_on_white(cell: Seq<char>) -> Seq<char> {
    "\x1b[47;30m"@ + cell + "\x1b[0m"@
}

/// `format!("{}", cell.black().on_white())` of the `colored` crate. When
/// colouring is off (by the environment or an override) it writes the cell as
/// it is; otherwise, for a cell without an escape character, it writes the
/// cell between the escape sequence for a white background and black
/// foreground and the reset sequence. Which of the two happens depends on the
/// environment and is not stated.
#[verifier::external_body]
fn highlight_cell(cell: &str) -> (r: String)
    ensures
        !cell@.contains('\x1b') ==> (r@ == cell@ || r@ == black_on_white(cell@)),
{
    format!("{}", cell.black().on_white())
}

/// A cell's dump text holds no escape character.
proof fn lemma_glyph_plain(v: nat)
    ensures
        !glyph_text(v).contains('\x1b'),
{
    let c = char_of_value(v);
    if ('!' <= c && c <= '~') || c == ' ' {
        assert(" '"@ =~= seq![' ', '\'']) by {
            reveal_strlit(" '");
        }
        assert("' "@ =~= seq!['\'', ' ']) by {
            reveal_strlit("' ");
        }
        assert(glyph_text(v) =~= seq![' ', '\'', c, '\'', ' ']);
    } else {
        assert("0p"@ =~= seq!['0', 'p']) by {
            reveal_strlit("0p");
        }
        assert(glyph_text(v) =~= seq![
            '0',
            'p',
            crate::text::digit_char((v / 25) % 5),
            crate::text::digit_char((v / 5) % 5),
            crate::text::digit_char(v % 5),
        ]);
    }
}

impl N3M25b5 {
    /// The memory dump with the highlighted cell shown as `shown`.
    pub fn format_mem_with(&self, highlight: Option<usize>, shown: &[char]) -> (r: String)
        ensures
            r@ == layout(mem_values(self.mem@), highlight, shown@, self.mem@.len()),
    {
        let ghost m = mem_values(self.mem@);
        let mut out: Vec<char> = Vec::new();
        let mut i: usize = 0;
        while i < self.mem.len()
            invariant
                m == mem_values(self.mem@),
                i <= self.mem@.len(),
                out@ == layout(m, highlight, shown@, i as nat),
            decreases self.mem@.len() - i,
        {
            let ghost o0 = out@;
            if i % 5 == 0 {
                append_str(&mut out, "\n");
                append_str(&mut out, "0");
                push_decimal(&mut out, (i / 5) as u64);
                append_str(&mut out, "x: ");
            }
            let is_hl = match highlight {
                Some(h) => h == i,
                None => false,
            };
            if is_hl {
                append_chars(&mut out, shown);
            } else {
                let g = glyph(self.mem[i]);
                append_chars(&mut out, g.as_slice());
            }
            append_str(&mut out, " ");
            proof {
                assert(m[i as int] == self.mem@[i as int]@);
                assert(out@ =~= o0 + cell_piece(m, i as nat, highlight, shown@));
            }
            i += 1;
        }
        string_of(out.as_slice())
    }

    /// The memory dump, with the cell at `highlight` (if any) coloured black
    /// on white when the terminal colours are on.
    pub fn format_mem(&self, highlight: Option<usize>) -> (r: String)
        ensures
            ({
                let m = mem_values(self.mem@);
                let n = self.mem@.len();
                match highlight {
                    Some(h) if h < n => r@ == layout(m, highlight, glyph_text(m[h as int]), n)
                        || r@ == layout(m, highlight, black_on_white(glyph_text(m[h as int])), n),
                    _ => r@ == layout(m, highlight, Seq::empty(), n),
                }
            }),
    {
        match highlight {
            Some(h) => {
                if h < self.mem.len() {
                    let g = glyph(self.mem[h]);
                    let gs = string_of(g.as_slice());
                    proof {
                        lemma_glyph_plain(self.mem@[h as int]@);
                    }
                    let shown = highlight_cell(gs.as_str());
                    let cs = chars_of(shown.as_str());
                    proof {
                        assert(mem_values(self.mem@)[h as int] == self.mem@[h as int]@);
                    }
                    return self.format_mem_with(highlight, cs.as_slice());
                }
            },
            None => {},
        }
        let empty: Vec<char> = Vec::new();
        proof {
            assert(empty@ =~= Seq::<char>::empty());
        }
        self.format_mem_with(highlight, empty.as_slice())
    }

}

/// Why a program source cannot be loaded.
#[derive(Clone, Copy, PartialEq, Eq, Structural, Debug)]
pub enum LoadError {
    /// A character with no pentASCII value.
    InvalidChar(char),
    /// Fewer than 25 characters.
    WrongLength(usize),
}

/// The values of the characters `cs`, or the first character without one.
pub open spec fn load_chars(cs: Seq<char>) -> Result<Seq<nat>, char>
    decreases cs.len(),
{
    if cs.len() == 0 {
        Ok(Seq::empty())
    } else {
        match load_chars(cs.drop_last()) {
            Err(c) => Err(c),
            Ok(vs) => match value_of_char(cs.last()) {
                Some(v) => Ok(vs.push(v)),
                None => Err(cs.last()),
            },
        }
    }
}

/// What loading a program source gives: its first 25 characters, read as
/// pentytes, or the first invalid character among them, or too few characters.
pub open spec fn load_spec(src: Seq<char>) -> Result<Seq<nat>, LoadError> {
    let head = if src.len() <= 25 {
        src
    } else {
        src.take(25)
    };
    match load_chars(head) {
        Err(c) => Err(LoadError::InvalidChar(c)),
        Ok(vs) => if vs.len() != 25 {
            Err(LoadError::WrongLength(vs.len() as usize))
        } else {
            Ok(vs)
        },
    }
}

/// Loading one character more.
proof fn lemma_load_step(cs: Seq<char>, i: int)
    requires
        0 <= i < cs.len(),
    ensures
        load_chars(cs.take(i + 1)) == match load_chars(cs.take(i)) {
            Err(c) => Err(c),
            Ok(vs) => match value_of_char(cs[i]) {
                Some(v) => Ok(vs.push(v)),
                None => Err(cs[i]),
            },
        },
{
    assert(cs.take(i + 1).drop_last() =~= cs.take(i));
    assert(cs.take(i + 1).last() == cs[i]);
}

proof fn lemma_load_chars_len(cs: Seq<char>)
    ensures
        load_chars(cs) matches Ok(vs) ==> vs.len() == cs.len(),
    decreases cs.len(),
{
    if cs.len() > 0 {
        lemma_load_chars_len(cs.drop_last());
    }
}

proof fn lemma_load_chars_err(cs: Seq<char>, k: int)
    requires
        0 <= k <= cs.len(),
        load_chars(cs.take(k)) is Err,
    ensures
        load_chars(cs) == load_chars(cs.take(k)),
    decreases cs.len() - k,
{
    if k < cs.len() {
        assert(cs.take(k + 1).drop_last() =~= cs.take(k));
        lemma_load_chars_err(cs, k + 1);
    } else {
        assert(cs.take(k) =~= cs);
    }
}

/// Loads a program: the first 25 characters of `source`, as pentytes.
pub fn load_program(source: &str) -> (r: Result<N3M25b5, LoadError>)
    ensures
        match r {
            Ok(m) => load_spec(source@) == Ok::<Seq<nat>, LoadError>(mem_values(m.mem@)),
            Err(e) => load_spec(source@) == Err::<Seq<nat>, LoadError>(e),
        },
        r matches Ok(m) ==> mem_wf(m.mem@) && m.mem@.len() == 25,
{
    let cs = chars_of(source);
    let n = if cs.len() <= 25 {
        cs.len()
    } else {
        25
    };
    let ghost head = if source@.len() <= 25 {
        source@
    } else {
        source@.take(25)
    };
    proof {
        assert(head =~= cs@.take(n as int));
    }
    let mut mem: Vec<Pentyte> = Vec::new();
    let mut i: usize = 0;
    proof {
        assert(head.take(0) =~= Seq::<char>::empty());
        assert(mem_values(mem@) =~= Seq::<nat>::empty());
    }
    while i < n
        invariant
            n <= cs@.len(),
            head == cs@.take(n as int),
            cs@ == source@,
            head == (if source@.len() <= 25 {
                source@
            } else {
                source@.take(25)
            }),
            i <= n,
            load_chars(head.take(i as int)) == Ok::<Seq<nat>, char>(mem_values(mem@)),
            forall|j: int| 0 <= j < mem@.len() ==> #[trigger] mem@[j]@ < 125,
        decreases n - i,
    {
        let c = cs[i];
        proof {
            lemma_load_step(head, i as int);
            lemma_value_of_char_in_range(c);
        }
        match char2pentyte(c) {
            Some(p) => {
                let ghost before = mem@;
                mem.push(p);
                proof {
                    assert(mem_values(mem@) =~= mem_values(before).push(p@));
                }
            },
            None => {
                proof {
                    lemma_load_chars_err(head, i + 1);
                    assert(load_chars(head) == Err::<Seq<nat>, char>(c));
                    assert(load_spec(source@) == Err::<Seq<nat>, LoadError>(LoadError::InvalidChar(c)));
                }
                return Err(LoadError::InvalidChar(c));
            },
        }
        i += 1;
    }
    proof {
        assert(head.take(n as int) =~= head);
        lemma_load_chars_len(head);
    }
    if mem.len() != 25 {
        return Err(LoadError::WrongLength(mem.len()));
    }
    Ok(N3M25b5 { mem })
}


/// How the debugger shows an operand: its notation, then `(#` and the
/// notation of the cell it names, then `)`.
pub open spec fn operand_text(p: Option<Pentyte>) -> Seq<char> {
    match p {
        Some(x) => " "@ + notation(x@) + "(#"@ + notation(x@ % 25) + ")"@,
        None => Seq::empty(),
    }
}

/// How the debugger shows an instruction: the operation, then each operand it has.
pub open spec fn inst_text(inst: Instruction) -> Seq<char> {
    opcode_name(inst.opcode) + operand_text(inst.operand) + operand_text(inst.operand2)
        + operand_text(inst.operand3)
}

fn push_operand(v: &mut Vec<char>, p: Option<Pentyte>)
    requires
        p matches Some(x) ==> x@ < 125,
    ensures
        final(v)@ == old(v)@ + operand_text(p),
{
    match p {
        Some(x) => {
            proof {
                lemma_pentyte_params();
            }
            append_str(v, " ");
            let t = notation_of(x);
            append_chars(v, t.as_slice());
            append_str(v, "(#");
            let u = notation_of(Pentyte::new(x.get() % 25));
            append_chars(v, u.as_slice());
            append_str(v, ")");
            assert(v@ =~= old(v)@ + operand_text(p));
        },
        None => {
            assert(v@ =~= old(v)@ + operand_text(p));
        },
    }
}

impl Instruction {
    /// The instruction as the debugger shows it.
    pub fn text(&self) -> (r: String)
        requires
            inst_wf(*self),
        ensures
            r@ == inst_text(*self),
    {
        let mut v = chars_of(self.opcode.name());
        push_operand(&mut v, self.operand);
        push_operand(&mut v, self.operand2);
        push_operand(&mut v, self.operand3);
        assert(v@ =~= inst_text(*self));
        string_of(v.as_slice())
    }
}

/// How an effect is reported: whether the machine halted, or the message of
/// the error it stopped with.
pub open spec fn outcome(e: Effect) -> Result<bool, Seq<char>> {
    match e {
        Effect::Continue => Ok(false),
        Effect::Halt => Ok(true),
        Effect::DivisionByZero => Err("Division by zero"@),
    }
}

impl Machine for N3M25b5 {
    type Inst = Instruction;

    open spec fn wf(&self) -> bool {
        mem_wf(self.mem@)
    }

    /// Every instruction pointer the machine reaches names one of its 25 cells.
    open spec fn decodable(&self, ip: usize) -> bool {
        ip < 25
    }

    open spec fn inst_ok(inst: Instruction) -> bool {
        inst_wf(inst)
    }

    open spec fn executable(&self, inst: Instruction) -> bool {
        true
    }

    open spec fn ip_ok(ip: usize) -> bool {
        ip < 25
    }

    /// Whether `ip` names one of the 25 cells.
    fn can_decode(&self, ip: usize) -> (r: bool) {
        ip < 25
    }

    /// Decodes the instruction at `ip` and moves `ip` past it.
    fn decode(&self, ip: &mut usize) -> (r: Result<Instruction, String>)
        ensures
            ({
                let (d, n) = decode_spec(self.mem@, *old(ip) as nat);
                &&& *final(ip) == (*old(ip) + n) % 25
                &&& match r {
                    Ok(i) => d == Ok::<Instruction, Seq<char>>(i),
                    Err(e) => d == Err::<Instruction, Seq<char>>(e@),
                }
            }),
    {
        Instruction::decode(self.mem.as_slice(), ip)
    }

    /// Every instruction of the machine can be executed.
    fn can_execute(&self, inst: &Instruction) -> (r: bool) {
        true
    }

    /// Executes `inst` (see `step`) and reports its effect: `Ok(true)` when
    /// the machine halted, the error message when it stopped with one.
    fn execute(&mut self, inst: Instruction, ip: &mut usize, out: &mut Vec<char>) -> (r: Result<
        bool,
        &'static str,
    >)
        ensures
            ({
                let (m, i, text, eff) = step_spec(mem_values(old(self).mem@), *old(ip) as nat, inst);
                &&& mem_values(final(self).mem@) == m
                &&& *final(ip) == i
                &&& final(out)@ == old(out)@ + text
                &&& match r {
                    Ok(h) => outcome(eff) == Ok::<bool, Seq<char>>(h),
                    Err(msg) => outcome(eff) == Err::<bool, Seq<char>>(msg@),
                }
            }),
    {
        match self.step(inst, ip, out) {
            Effect::Continue => Ok(false),
            Effect::Halt => Ok(true),
            Effect::DivisionByZero => Err("Division by zero"),
        }
    }

    /// The memory dump the debugger shows after an instruction at `old_ip`.
    fn debug_dump(&self, old_ip: usize) -> (r: String)
        ensures
            ({
                let m = mem_values(self.mem@);
                let n = self.mem@.len();
                (old_ip < n ==> (r@ == layout(m, Some(old_ip), glyph_text(m[old_ip as int]), n)
                    || r@ == layout(m, Some(old_ip), black_on_white(glyph_text(m[old_ip as int])), n)))
                    && (old_ip >= n ==> r@ == layout(m, Some(old_ip), Seq::empty(), n))
            }),
    {
        self.format_mem(Some(old_ip))
    }

    /// The instruction as the debugger shows it.
    fn describe(&self, inst: &Instruction) -> (r: String)
        ensures
            r@ == inst_text(*inst),
    {
        inst.text()
    }

    /// The instruction pointer as the debugger shows it, in `0p` notation.
    fn format_ip(&self, ip: usize) -> (r: String)
        ensures
            r@ == notation(ip as nat),
    {
        proof {
            lemma_pentyte_params();
        }
        let t = notation_of(Pentyte::new(ip as u16));
        string_of(t.as_slice())
    }
}

} // verus!
