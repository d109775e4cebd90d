use mini_machine::undigyte::Undigyte;
use mini_machine::undigyte_machine::{parse_program, Effect, Inst, Reg, Regs, Shown, UndigyteMachine};

fn program(values: &[u8]) -> Vec<Undigyte> {
    values.iter().map(|&v| Undigyte(v)).collect()
}

/// Runs a machine until it stops, at most `limit` instructions.
fn run(m: &mut UndigyteMachine, limit: usize) -> (Effect, String) {
    let mut out: Vec<char> = Vec::new();
    for _ in 0..limit {
        let inst = m.decode().expect("decodes");
        let e = m.execute(inst, &mut out);
        if e != Effect::Continue {
            return (e, out.into_iter().collect());
        }
    }
    (Effect::Continue, out.into_iter().collect())
}

#[test]
fn undigyte_reg_decode() {
    assert_eq!(Reg::decode(0), Ok(Reg::RA));
    assert_eq!(Reg::decode(4), Ok(Reg::RE));
    assert_eq!(Reg::decode(5), Ok(Reg::SP));
    assert_eq!(Reg::decode(6), Ok(Reg::BP));
    assert_eq!(Reg::decode(10), Err("Invalid register id: X".to_string()));
    assert_eq!(Reg::decode(7), Err("Invalid register id: 7".to_string()));
    assert_eq!(Reg::decode(42), Err("Invalid register id: 42".to_string()));
    assert_eq!(Reg::SP.name(), "sp");
    assert_eq!(Reg::RC.name(), "rc");
}

#[test]
fn undigyte_regs() {
    let mut r = Regs::new();
    assert_eq!(r.get(Reg::SP), Undigyte(120));
    assert_eq!(r.get(Reg::RA), Undigyte(0));
    r.set(Reg::RD, Undigyte(9));
    assert_eq!(r.get(Reg::RD), Undigyte(9));
    assert_eq!(r.rd, Undigyte(9));
    assert_eq!(Regs::default(), Regs::new());
}

#[test]
fn undigyte_regs_text() {
    let r = Regs::new();
    assert_eq!(
        r.text(),
        "ra: 0 (0u00)\nrb: 0 (0u00)\nrc: 0 (0u00)\nrd: 0 (0u00)\nre: 0 (0u00)\nsp: 120 (0uXX)\nbp: 0 (0u00)"
    );
}

#[test]
fn undigyte_decode_instructions() {
    let mem = program(&[2, 13, 3, 4, 77, 15, 5]);
    let mut ip = 0usize;
    assert_eq!(Inst::decode(&mem, &mut ip), Ok(Inst::MOV { dst: Reg::RB, src: Reg::RC }));
    assert_eq!(ip, 2);
    assert_eq!(Inst::decode(&mem, &mut ip), Ok(Inst::IMOV { dst: Reg::RE, src: Undigyte(77) }));
    assert_eq!(ip, 5);
    assert_eq!(Inst::decode(&mem, &mut ip), Ok(Inst::JMP { abs: Undigyte(5) }));
    assert_eq!(ip, 7);
}

#[test]
fn undigyte_decode_errors() {
    let mut ip = 0usize;
    assert_eq!(
        Inst::decode(&program(&[14]), &mut ip),
        Err("Invalid opcode number: 0u13".to_string())
    );
    let mut ip = 0usize;
    assert_eq!(
        Inst::decode(&program(&[2, 77]), &mut ip),
        Err("Invalid register id: 7".to_string())
    );
    let mut ip = 0usize;
    assert_eq!(
        Inst::decode(&program(&[2, 10]), &mut ip),
        Err("Invalid register id: X".to_string())
    );
}

#[test]
fn undigyte_decode_wraps() {
    let mut mem = vec![Undigyte(0); 121];
    mem[120] = Undigyte(15);
    mem[0] = Undigyte(5);
    let mut ip = 120usize;
    assert_eq!(Inst::decode(&mem, &mut ip), Ok(Inst::JMP { abs: Undigyte(5) }));
    assert_eq!(ip, 1);
}

#[test]
fn undigyte_instruction_text() {
    assert_eq!(Inst::MOV { dst: Reg::RB, src: Reg::RC }.text(), "mov rb, rc");
    assert_eq!(Inst::IMOV { dst: Reg::RE, src: Undigyte(77) }.text(), "mov re, 77 (0u70)");
    assert_eq!(Inst::POP { dst: Reg::RA }.text(), "push ra");
    assert_eq!(Inst::NOP.text(), "nop");
    assert_eq!(
        Inst::JEQ { a: Reg::RA, b: Reg::BP, then: Undigyte(120) }.text(),
        "jeq ra, bp, 0uXX"
    );
    assert_eq!(Inst::IOUTS { ptr: Reg::RA, len: Undigyte(5) }.text(), "outs ra, 5 (0u05)");
    assert_eq!(Inst::RET.mnemonic(), "ret");
    assert_eq!(
        Inst::LDR { dst: Reg::RA, abs: Undigyte(3) }.shown_operands(),
        vec![Shown::Register(Reg::RA), Shown::Address(Undigyte(3))]
    );
}

#[test]
fn undigyte_machine_prints_numbers() {
    // mov ra, 42; outd ra; outu ra; hlt
    let mut m = UndigyteMachine::new(program(&[3, 0, 42, 33, 0, 32, 0, 1]));
    let (e, out) = run(&mut m, 10);
    assert_eq!(e, Effect::Halt);
    assert_eq!(out, "420u39");
}

#[test]
fn undigyte_machine_prints_text() {
    // mov ra, 20; outs ra, 5; hlt; with "Hello" at 20
    let mut p = vec![0u8; 25];
    p[..7].copy_from_slice(&[3, 0, 20, 35, 0, 5, 1]);
    p[20..25].copy_from_slice(&[51, 81, 88, 88, 91]);
    let mut m = UndigyteMachine::new(program(&p));
    let (e, out) = run(&mut m, 10);
    assert_eq!(e, Effect::Halt);
    assert_eq!(out, "Hello");
}

#[test]
fn undigyte_machine_arithmetic() {
    // mov ra, 100; add ra, 30 (imm); mov rb, 7; div ra, rb -> (130 mod 121) / 7
    let mut m = UndigyteMachine::new(program(&[3, 0, 100, 9, 0, 30, 3, 1, 7, 7, 1, 1]));
    let (e, _) = run(&mut m, 10);
    assert_eq!(e, Effect::Halt);
    assert_eq!(m.regs.ra, Undigyte(1));
    assert_eq!(m.regs.rb, Undigyte(7));
}

#[test]
fn undigyte_machine_division_by_zero() {
    // div ra, rb with rb = 0
    let mut m = UndigyteMachine::new(program(&[7, 1]));
    let (e, _) = run(&mut m, 10);
    assert_eq!(e, Effect::DivisionByZero);
    let mut m = UndigyteMachine::new(program(&[13, 0, 0]));
    let (e, _) = run(&mut m, 10);
    assert_eq!(e, Effect::DivisionByZero);
}

#[test]
fn undigyte_machine_stack_underflow() {
    let mut m = UndigyteMachine::new(program(&[21, 0]));
    assert_eq!(run(&mut m, 10).0, Effect::StackUnderflow);
    let mut m = UndigyteMachine::new(program(&[23]));
    assert_eq!(run(&mut m, 10).0, Effect::StackUnderflow);
}

#[test]
fn undigyte_push_then_pop() {
    // mov ra, 7; push ra; pop rb; hlt
    let mut m = UndigyteMachine::new(program(&[3, 0, 7, 20, 0, 21, 1, 1]));
    let (e, _) = run(&mut m, 10);
    assert_eq!(e, Effect::Halt);
    assert_eq!(m.regs.rb, Undigyte(7));
    assert_eq!(m.regs.sp, Undigyte(120));
    assert_eq!(m.mem[119], Undigyte(7));
}

#[test]
fn undigyte_call_then_ret() {
    // call 10; hlt; ...; at 10: mov rc, 3; ret
    let mut p = vec![0u8; 14];
    p[..3].copy_from_slice(&[22, 10, 1]);
    p[10..14].copy_from_slice(&[3, 2, 3, 23]);
    let mut m = UndigyteMachine::new(program(&p));
    let (e, _) = run(&mut m, 10);
    assert_eq!(e, Effect::Halt);
    assert_eq!(m.ip, 3);
    assert_eq!(m.regs.rc, Undigyte(3));
    assert_eq!(m.regs.sp, Undigyte(120));
}

#[test]
fn undigyte_signed_jumps() {
    // mov ra, 120 (-1); mov rb, 1; jlti ra, rb, 12; hlt; ... at 12: mov rc, 5; hlt
    let mut p = vec![0u8; 16];
    p[..11].copy_from_slice(&[3, 0, 120, 3, 1, 1, 30, 1, 12, 1, 0]);
    p[12..16].copy_from_slice(&[3, 2, 5, 1]);
    let mut m = UndigyteMachine::new(program(&p));
    run(&mut m, 10);
    assert_eq!(m.regs.rc, Undigyte(5));
    // jlt compares unsigned: 120 < 1 is false
    p[6] = 28;
    let mut m = UndigyteMachine::new(program(&p));
    run(&mut m, 10);
    assert_eq!(m.regs.rc, Undigyte(0));
}

#[test]
fn undigyte_parse_program_reads_words() {
    let src = "3 0 42 ; set ra\n  0u30 0   1\n";
    assert_eq!(parse_program(src), Ok(program(&[3, 0, 42, 33, 0, 1])));
    assert_eq!(parse_program(""), Ok(vec![]));
}

#[test]
fn undigyte_parse_program_errors() {
    assert_eq!(
        parse_program("1 2\n3 foo 4"),
        Err("line 2: invalid byte 'foo'".to_string())
    );
    let long = "0 ".repeat(122);
    assert_eq!(
        parse_program(&long),
        Err("program is 122 undigytes, exceeds 121-cell memory".to_string())
    );
}

#[test]
fn undigyte_new_machine() {
    let m = UndigyteMachine::new(program(&[1, 2, 3]));
    assert_eq!(m.mem.len(), 121);
    assert_eq!(m.mem[2], Undigyte(3));
    assert_eq!(m.mem[3], Undigyte(0));
    assert_eq!(m.ip, 0);
    assert_eq!(m.regs, Regs::new());
}

#[test]
fn undigyte_program_of_notations_reads_back() {
    let values: Vec<Undigyte> = (0..121u8).map(Undigyte).collect();
    let text: String = values
        .iter()
        .map(|u| {
            let mut w: String = u.notation().into_iter().collect();
            w.push(' ');
            w
        })
        .collect();
    assert_eq!(parse_program(&text), Ok(values));
    assert_eq!(parse_program("0u00 0u34 0uXX "), Ok(program(&[0, 37, 120])));
}

#[test]
fn undigyte_store_then_load() {
    // mov ra, 9; str 50, ra; ldr rb, 50; hlt
    let mut m = UndigyteMachine::new(program(&[3, 0, 9, 18, 50, 0, 16, 1, 50, 1]));
    let (e, _) = run(&mut m, 10);
    assert_eq!(e, Effect::Halt);
    assert_eq!(m.regs.rb, Undigyte(9));
    assert_eq!(m.mem[50], Undigyte(9));
}

#[test]
fn undigyte_decode_short_memory() {
    let mut ip = 0usize;
    assert_eq!(Inst::decode(&program(&[2, 1]), &mut ip), Ok(Inst::MOV { dst: Reg::RA, src: Reg::RB }));
    assert_eq!(ip, 2);
    let mut ip = 0usize;
    assert_eq!(
        Inst::decode(&program(&[3, 12, 50]), &mut ip),
        Ok(Inst::IMOV { dst: Reg::RB, src: Undigyte(50) })
    );
    assert_eq!(ip, 3);
    let mut ip = 0usize;
    assert_eq!(
        Inst::decode(&program(&[14]), &mut ip),
        Err("Invalid opcode number: 0u13".to_string())
    );
    assert_eq!(ip, 1);
    // a missing register stops decoding before the immediate is read
    let mut ip = 0usize;
    assert_eq!(
        Inst::decode(&program(&[3, 7]), &mut ip),
        Err("Invalid register id: 7".to_string())
    );
    assert_eq!(ip, 2);
}
