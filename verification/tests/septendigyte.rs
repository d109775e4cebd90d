use mini_machine::septendigyte::{
    char2septendigyte, decimal_of, notation_of, parse_septendigyte, septendigyte2char, Septendigyte,
};
use mini_machine::machine::Machine;
use mini_machine::septendigyte_machine::{
    parse_program, Effect, Instruction, Operand, Reg, Regs, N2M289b17,
};

fn s(v: u16) -> Septendigyte {
    Septendigyte::new(v)
}

fn chars(t: &str) -> Vec<char> {
    t.chars().collect()
}

fn text(v: Vec<char>) -> String {
    v.into_iter().collect()
}

fn parsed(t: &str) -> Result<u16, String> {
    match parse_septendigyte(&chars(t)) {
        Ok(u) => Ok(u.get()),
        Err(e) => Err(e.0),
    }
}

fn program(values: &[u16]) -> Vec<Septendigyte> {
    values.iter().map(|&v| s(v)).collect()
}

/// Runs a machine from `ip` until it stops, at most `limit` instructions;
/// stops early where decoding or executing would leave memory.
fn run(m: &mut N2M289b17, ip: &mut usize, limit: usize) -> (Option<Effect>, String) {
    let mut out: Vec<char> = Vec::new();
    for _ in 0..limit {
        if !m.can_decode(*ip) {
            return (None, text(out));
        }
        let inst = m.decode(ip).expect("decodes");
        if !m.can_execute(&inst) {
            return (None, text(out));
        }
        let e = m.step(inst, ip, &mut out);
        if e != Effect::Continue {
            return (Some(e), text(out));
        }
    }
    (Some(Effect::Continue), text(out))
}

#[test]
fn septendigyte_chars() {
    assert_eq!(septendigyte2char(s(65)), 'A');
    assert_eq!(septendigyte2char(s(0)), '\0');
    assert_eq!(septendigyte2char(s(233)), 'é');
    assert_eq!(septendigyte2char(s(256)), '═');
    assert_eq!(septendigyte2char(s(288)), '≈');
    assert_eq!(char2septendigyte('A'), Some(s(65)));
    assert_eq!(char2septendigyte('≠'), Some(s(287)));
    assert_eq!(char2septendigyte('€'), None);
}

#[test]
fn septendigyte_char_round_trip() {
    for v in 0..289u16 {
        assert_eq!(char2septendigyte(septendigyte2char(s(v))), Some(s(v)));
    }
}

#[test]
fn septendigyte_notation() {
    assert_eq!(text(notation_of(s(200))), "0sBD");
    assert_eq!(text(notation_of(s(288))), "0sGG");
    assert_eq!(text(notation_of(s(5))), "0s05");
    assert_eq!(text(decimal_of(s(288))), "288");
}

#[test]
fn septendigyte_parse() {
    assert_eq!(parsed("0sBD"), Ok(200));
    assert_eq!(parsed(" 0Sgg "), Ok(288));
    assert_eq!(parsed("288"), Ok(288));
    assert_eq!(parsed("289"), Err("289 out of range 0..=288".to_string()));
    assert_eq!(parsed("x"), Err("'x' is not a valid number".to_string()));
    assert_eq!(
        parsed("0s1"),
        Err("'0s1' must have exactly 2 septendigits after 0s".to_string())
    );
    assert_eq!(parsed("0sH0"), Err("invalid septendigit 'H' in '0sH0'".to_string()));
    let e = parse_septendigyte(&chars("300")).unwrap_err();
    assert_eq!(text(e.to_text()), "invalid septendigyte: 300 out of range 0..=288");
}

#[test]
fn septendigyte_printed_forms_read_back() {
    for v in 0..289u16 {
        assert_eq!(parse_septendigyte(&notation_of(s(v))).ok(), Some(s(v)));
        assert_eq!(parse_septendigyte(&decimal_of(s(v))).ok(), Some(s(v)));
    }
}

#[test]
fn septendigyte_regs() {
    assert_eq!(Reg::decode(0), Reg::R(0));
    assert_eq!(Reg::decode(14), Reg::R(14));
    assert_eq!(Reg::decode(15), Reg::SP);
    assert_eq!(Reg::decode(16), Reg::BP);
    assert_eq!(text(Reg::R(11).name()), "rb");
    assert_eq!(text(Reg::BP.name()), "bp");
    assert_eq!(Reg::all().len(), 17);
    assert_eq!(Reg::all()[15], Reg::SP);
    let mut r = Regs::new();
    assert_eq!(r.get(Reg::SP), s(288));
    assert_eq!(r.get(Reg::R(3)), s(0));
    r.set(Reg::R(3), s(9));
    assert_eq!(r.get(Reg::R(3)), s(9));
    assert_eq!(Regs::default().get(Reg::SP), s(288));
}

#[test]
fn septendigyte_regs_text() {
    let t = Regs::new().text();
    let lines: Vec<&str> = t.lines().collect();
    assert_eq!(lines.len(), 17);
    assert_eq!(lines[0], "r0: 0 0s00");
    assert_eq!(lines[14], "re: 0 0s00");
    assert_eq!(lines[15], "sp: 288 0sGG");
    assert_eq!(lines[16], "bp: 0 0s00");
}

#[test]
fn septendigyte_decode() {
    let mem = program(&[17, 0x12, 18, 3, 65, 200]);
    let mut ip = 0usize;
    assert_eq!(
        Instruction::decode(&mem, &mut ip),
        Ok(Instruction::MOV { dst: Reg::R(1), src: Reg::R(1) })
    );
    assert_eq!(ip, 2);
    assert_eq!(
        Instruction::decode(&mem, &mut ip),
        Ok(Instruction::IMOV { dst: Reg::R(3), imm: s(65) })
    );
    assert_eq!(ip, 5);
    assert_eq!(
        Instruction::decode(&mem, &mut ip),
        Err("Invalid opcode: 0sBD".to_string())
    );
    assert_eq!(ip, 6);
}

#[test]
fn septendigyte_instruction_text() {
    assert_eq!(Instruction::MOV { dst: Reg::R(1), src: Reg::SP }.text(), "mov r1, sp");
    assert_eq!(Instruction::IMOV { dst: Reg::R(3), imm: s(65) }.text(), "mov r3, 65 (0s3E)");
    assert_eq!(Instruction::POP { dst: Reg::R(0) }.text(), "pop r0");
    assert_eq!(Instruction::RET.text(), "ret");
    assert_eq!(Instruction::IOUTC { char: s(65) }.name(), "outc");
    assert_eq!(
        Instruction::JEQ { a: Reg::R(0), b: Reg::R(1), then: s(9) }.operands(),
        vec![Operand::R(Reg::R(0)), Operand::R(Reg::R(1)), Operand::I(s(9))]
    );
}

#[test]
fn septendigyte_machine_output() {
    // mov r0, 65; outc r0; out10 r0; out17 r0; hlt
    let mut m = N2M289b17::new(program(&[18, 0, 65, 87, 0, 86, 0, 85, 0, 1]));
    let mut ip = 0usize;
    let (e, out) = run(&mut m, &mut ip, 10);
    assert_eq!(e, Some(Effect::Halt));
    assert_eq!(out, "A650s3E");
}

#[test]
fn septendigyte_machine_digitwise() {
    // mov r0, 200; dmin r0, 50 (imm); hlt -> digits (11,13) and (2,16) give (2,13)
    let mut m = N2M289b17::new(program(&[18, 0, 200, 48, 0, 50, 1]));
    let mut ip = 0usize;
    run(&mut m, &mut ip, 10);
    assert_eq!(m.regs.get(Reg::R(0)), s(47));
    // mov r0, 0; dnot r0; hlt
    let mut m = N2M289b17::new(program(&[18, 0, 0, 45, 0, 1]));
    let mut ip = 0usize;
    run(&mut m, &mut ip, 10);
    assert_eq!(m.regs.get(Reg::R(0)).get(), 576);
}

#[test]
fn septendigyte_machine_errors() {
    // div r0, r1 with r1 = 0
    let mut m = N2M289b17::new(program(&[37, 1]));
    let mut ip = 0usize;
    assert_eq!(run(&mut m, &mut ip, 10).0, Some(Effect::DivisionByZero));
    // pop with an empty stack
    let mut m = N2M289b17::new(program(&[25, 0]));
    let mut ip = 0usize;
    assert_eq!(run(&mut m, &mut ip, 10).0, Some(Effect::StackUnderflow));
}

#[test]
fn septendigyte_stack_needs_memory() {
    // the stack starts at cell 288, beyond the 121 cells of memory
    let m = N2M289b17::new(program(&[23, 0]));
    assert!(!m.can_execute(&Instruction::PUSH { src: Reg::R(0) }));
    assert!(m.can_execute(&Instruction::NOP));
}

#[test]
fn septendigyte_push_then_pop() {
    // mov sp, 100; mov r0, 7; push r0; pop r1; hlt
    let mut m = N2M289b17::new(program(&[18, 15, 100, 18, 0, 7, 23, 0, 25, 1, 1]));
    let mut ip = 0usize;
    let (e, _) = run(&mut m, &mut ip, 10);
    assert_eq!(e, Some(Effect::Halt));
    assert_eq!(m.regs.get(Reg::R(1)), s(7));
    assert_eq!(m.regs.get(Reg::SP), s(100));
    assert_eq!(m.mem[100], s(7));
}

#[test]
fn septendigyte_call_goes_back_to_target() {
    // mov sp, 100; call 20; ... at 20: ret
    let mut p = vec![0u16; 21];
    p[..5].copy_from_slice(&[18, 15, 100, 69, 20]);
    p[20] = 70;
    let mut m = N2M289b17::new(program(&p));
    let mut ip = 0usize;
    let mut out: Vec<char> = Vec::new();
    for _ in 0..3 {
        let inst = m.decode(&mut ip).unwrap();
        assert_eq!(m.step(inst, &mut ip, &mut out), Effect::Continue);
    }
    // the call stores its own target, so the return lands on it again
    assert_eq!(ip, 20);
    assert_eq!(m.regs.get(Reg::SP), s(100));
}

#[test]
fn septendigyte_format_ip_and_dump() {
    let m = N2M289b17::new(program(&[]));
    assert_eq!(m.format_ip(200), "0sBD");
    assert_eq!(m.debug_dump(0), Regs::new().text());
    assert_eq!(m.mem.len(), 121);
}

#[test]
fn septendigyte_parse_program() {
    assert_eq!(parse_program("0s11 0 65 ; mov r0, 65\n1"), Ok(program(&[18, 0, 65, 1])));
    assert_eq!(
        parse_program("1\n\n 2 0sZZ"),
        Err("line 3: invalid septendigyte: invalid septendigit 'Z' in '0sZZ'".to_string())
    );
    let long = "0 ".repeat(122);
    assert_eq!(
        parse_program(&long),
        Err("program is 122 undigytes, exceeds 121-cell memory".to_string())
    );
}

#[test]
fn septendigyte_program_of_notations_reads_back() {
    let values: Vec<Septendigyte> = (0..121u16).map(|v| s(v * 2 + 40)).collect();
    let text: String = values
        .iter()
        .map(|&u| {
            let mut w: String = notation_of(u).into_iter().collect();
            w.push(' ');
            w
        })
        .collect();
    assert_eq!(parse_program(&text), Ok(values));
    assert_eq!(parse_program("0s00 0sBD 0sGG "), Ok(program(&[0, 200, 288])));
}

#[test]
fn septendigyte_store_then_load() {
    // mov r0, 9; str 50, r0; ldr r1, 50; hlt
    let mut m = N2M289b17::new(program(&[18, 0, 9, 21, 50, 0, 19, 1, 50, 1]));
    let mut ip = 0usize;
    let (e, _) = run(&mut m, &mut ip, 10);
    assert_eq!(e, Some(Effect::Halt));
    assert_eq!(m.regs.get(Reg::R(1)), s(9));
    assert_eq!(m.mem[50], s(9));
    // a cell beyond memory cannot be stored to
    assert!(!m.can_execute(&Instruction::STR { addr: s(200), src: Reg::R(0) }));
}

#[test]
fn septendigyte_machine_interface() {
    // mov r0, 66; outc r0; div r0, r1 (r1 = 0)
    let mut m = N2M289b17::new(program(&[18, 0, 66, 87, 0, 37, 1]));
    let mut ip = 0usize;
    let mut out: Vec<char> = Vec::new();
    for _ in 0..2 {
        assert!(m.can_decode(ip));
        let inst = m.decode(&mut ip).unwrap();
        assert!(m.can_execute(&inst));
        assert_eq!(m.execute(inst, &mut ip, &mut out), Ok(false));
    }
    assert_eq!(text(out.clone()), "B");
    let inst = m.decode(&mut ip).unwrap();
    assert_eq!(m.describe(&inst), "div r0, r1");
    assert_eq!(m.execute(inst, &mut ip, &mut out), Err("Division by zero"));
    assert_eq!(ip, 7);
    let mut m = N2M289b17::new(program(&[1]));
    let mut ip = 0usize;
    let inst = m.decode(&mut ip).unwrap();
    assert_eq!(m.execute(inst, &mut ip, &mut out), Ok(true));
    assert!(!m.can_decode(200));
}
