use mini_machine::pentyte::{
    addr, char2pentyte, glyph, notation_of, pentyte2char, pentyte_dec, pentyte_flip, pentyte_inc,
    Pentyte,
};
use mini_machine::machine::Machine;
use mini_machine::pentyte_machine::{load_program, Effect, Instruction, LoadError, Opcode, N3M25b5};

fn p(v: u16) -> Pentyte {
    Pentyte::new(v)
}

fn text(v: Vec<char>) -> String {
    v.into_iter().collect()
}

fn machine(cells: &[u16]) -> N3M25b5 {
    let mut mem: Vec<Pentyte> = cells.iter().map(|&v| p(v)).collect();
    mem.resize(25, p(0));
    N3M25b5 { mem }
}

/// Runs from `ip` until the machine stops, at most `limit` instructions.
fn run(m: &mut N3M25b5, limit: usize) -> (Effect, String) {
    let mut ip = 0usize;
    let mut out: Vec<char> = Vec::new();
    for _ in 0..limit {
        let inst = m.decode(&mut ip).expect("decodes");
        let e = m.step(inst, &mut ip, &mut out);
        if e != Effect::Continue {
            return (e, text(out));
        }
    }
    (Effect::Continue, text(out))
}

#[test]
fn pentyte_chars() {
    assert_eq!(pentyte2char(p(0)), '\0');
    assert_eq!(pentyte2char(p(15)), '\x08');
    assert_eq!(pentyte2char(p(20)), '\n');
    assert_eq!(pentyte2char(p(25)), 'a');
    assert_eq!(pentyte2char(p(51)), ' ');
    assert_eq!(pentyte2char(p(110)), '0');
    assert_eq!(pentyte2char(p(124)), '\x7f');
    assert_eq!(char2pentyte('A'), Some(p(75)));
    assert_eq!(char2pentyte('z'), Some(p(50)));
    assert_eq!(char2pentyte('€'), None);
    assert_eq!(char2pentyte('\t'), Some(p(8)));
}

#[test]
fn pentyte_char_round_trip() {
    for v in 0..125u16 {
        assert_eq!(char2pentyte(pentyte2char(p(v))), Some(p(v)));
    }
}

#[test]
fn pentyte_cell_operations() {
    assert_eq!(pentyte_inc(p(7)), p(8));
    assert_eq!(pentyte_inc(p(124)), p(0));
    assert_eq!(pentyte_dec(p(0)), p(124));
    assert_eq!(pentyte_dec(p(9)), p(8));
    assert_eq!(pentyte_flip(p(0)), p(124));
    assert_eq!(pentyte_flip(p(87)), p(37));
    assert_eq!(addr(p(87)), 12);
    assert_eq!(addr(p(24)), 24);
    for v in 0..125u16 {
        assert_eq!(pentyte_flip(pentyte_flip(p(v))), p(v));
        assert_eq!(pentyte_dec(pentyte_inc(p(v))), p(v));
        assert_eq!(pentyte_inc(pentyte_dec(p(v))), p(v));
    }
}

#[test]
fn pentyte_notation_and_glyphs() {
    assert_eq!(text(notation_of(p(87))), "0p322");
    assert_eq!(text(notation_of(p(0))), "0p000");
    assert_eq!(text(glyph(p(25))), " 'a' ");
    assert_eq!(text(glyph(p(51))), " ' ' ");
    assert_eq!(text(glyph(p(0))), "0p000");
    assert_eq!(text(glyph(p(124))), "0p444");
}

#[test]
fn pentyte_opcodes() {
    assert_eq!(Opcode::from_number(0), Some(Opcode::DON));
    assert_eq!(Opcode::from_number(14), Some(Opcode::JEQ));
    assert_eq!(Opcode::from_number(24), Some(Opcode::END));
    assert_eq!(Opcode::from_number(15), None);
    assert_eq!(Opcode::from_number(23), None);
    assert_eq!(Opcode::ADD.name(), "ADD");
    assert!(!Opcode::DON.takes_operand());
    assert!(!Opcode::END.takes_operand());
    assert!(Opcode::PRT.takes_operand());
    assert!(Opcode::JIZ.takes_operand2());
    assert!(!Opcode::FLP.takes_operand2());
    assert!(Opcode::JLT.takes_operand3());
    assert!(!Opcode::ADD.takes_operand3());
}

#[test]
fn pentyte_decode() {
    let m = machine(&[8, 3, 5, 14, 40, 10, 7, 24]);
    let mut ip = 0usize;
    let i = m.decode(&mut ip).unwrap();
    assert_eq!(i.opcode, Opcode::ADD);
    assert_eq!(i.operand, Some(p(3)));
    assert_eq!(i.operand2, Some(p(5)));
    assert_eq!(i.operand3, None);
    assert_eq!(ip, 3);
    let i = Instruction::decode(&m.mem, &mut ip).unwrap();
    assert_eq!(i.opcode, Opcode::JEQ);
    assert_eq!(i.operand3, Some(p(7)));
    assert_eq!(ip, 7);
    let i = m.decode(&mut ip).unwrap();
    assert_eq!(i.opcode, Opcode::END);
    assert_eq!(i.operand, None);
    assert_eq!(ip, 8);
}

#[test]
fn pentyte_decode_wraps() {
    let mut m = machine(&[5]);
    m.mem[24] = p(2);
    let mut ip = 24usize;
    let i = m.decode(&mut ip).unwrap();
    assert_eq!(i.opcode, Opcode::INC);
    assert_eq!(i.operand, Some(p(5)));
    assert_eq!(ip, 1);
}

#[test]
fn pentyte_decode_errors() {
    let mut ip = 0usize;
    assert_eq!(
        machine(&[40]).decode(&mut ip).err(),
        Some("Expected a valid opcode but got 0p130 (0p030)".to_string())
    );
    let mut ip = 0usize;
    assert_eq!(
        machine(&[20]).decode(&mut ip).err(),
        Some(
            "Expected a valid opcode but got 0p040 (0p040)\nNote: your editor may have ended the file with a newline and your program is actually 24 characters.\nNote: in this case, just place a DON at the end."
                .to_string()
        )
    );
    // an opcode cell is read modulo 25
    let mut ip = 0usize;
    assert_eq!(machine(&[49]).decode(&mut ip).unwrap().opcode, Opcode::END);
}

#[test]
fn pentyte_instruction_text() {
    let i = Instruction { opcode: Opcode::ADD, operand: Some(p(3)), operand2: Some(p(40)), operand3: None };
    assert_eq!(i.text(), "ADD 0p003(#0p003) 0p130(#0p030)");
    let i = Instruction { opcode: Opcode::END, operand: None, operand2: None, operand3: None };
    assert_eq!(i.text(), "END");
}

#[test]
fn pentyte_machine_prints() {
    // PRT 10; END; with 'H' in cell 10
    let mut m = machine(&[1, 10, 24, 0, 0, 0, 0, 0, 0, 0, 82]);
    let (e, out) = run(&mut m, 10);
    assert_eq!(e, Effect::Halt);
    assert_eq!(out, "H");
}

#[test]
fn pentyte_machine_arithmetic() {
    // ADD 10 3; MUL 11 2; SUB 12 1; END
    let mut m = machine(&[8, 10, 3, 10, 11, 2, 9, 12, 1, 24, 124, 70, 0]);
    let (e, _) = run(&mut m, 10);
    assert_eq!(e, Effect::Halt);
    assert_eq!(m.mem[10], p(2));
    assert_eq!(m.mem[11], p(15));
    assert_eq!(m.mem[12], p(124));
}

#[test]
fn pentyte_machine_division_by_zero() {
    let mut m = machine(&[11, 10, 0]);
    assert_eq!(run(&mut m, 10).0, Effect::DivisionByZero);
    // DIV 10 4 with 23 in cell 10
    let mut m = machine(&[11, 10, 4, 24, 0, 0, 0, 0, 0, 0, 23]);
    assert_eq!(run(&mut m, 10).0, Effect::Halt);
    assert_eq!(m.mem[10], p(5));
}

#[test]
fn pentyte_machine_jumps() {
    // JEQ 6 10 7: cell 10 holds 7, so go to 6: INC 11; END
    let mut m = machine(&[14, 6, 10, 7, 24, 0, 2, 11, 24, 0, 7, 0]);
    run(&mut m, 10);
    assert_eq!(m.mem[11], p(1));
    // cell 10 holds 8: no jump
    let mut m = machine(&[14, 6, 10, 7, 24, 0, 2, 11, 24, 0, 8, 0]);
    run(&mut m, 10);
    assert_eq!(m.mem[11], p(0));
}

#[test]
fn pentyte_inc_then_dec_restores_memory() {
    let mut m = machine(&[2, 10, 3, 10, 4, 11, 4, 11, 24, 0, 124, 33]);
    let before: Vec<Pentyte> = m.mem.clone();
    let (e, _) = run(&mut m, 10);
    assert_eq!(e, Effect::Halt);
    assert_eq!(m.mem, before);
}

#[test]
fn pentyte_format_ip() {
    let m = machine(&[]);
    assert_eq!(m.format_ip(87), "0p322");
    assert_eq!(m.format_ip(0), "0p000");
}

#[test]
fn pentyte_memory_dump() {
    let m = machine(&[1, 10, 24, 0, 0, 0, 0, 0, 0, 0, 82]);
    let plain = "\n00x: 0p001 0p020 0p044 0p000 0p000 \n01x: 0p000 0p000 0p000 0p000 0p000 \n02x:  'H'  0p000 0p000 0p000 0p000 \n03x: 0p000 0p000 0p000 0p000 0p000 \n04x: 0p000 0p000 0p000 0p000 0p000 ";
    assert_eq!(m.format_mem(None), plain);
    assert_eq!(m.format_mem_with(Some(2), &['#']), plain.replacen("0p044", "#", 1));
    colored::control::set_override(false);
    assert_eq!(m.format_mem(Some(10)), plain);
    assert_eq!(m.debug_dump(10), plain);
    colored::control::set_override(true);
    let coloured = m.format_mem(Some(10));
    assert_eq!(coloured, plain.replacen(" 'H' ", "\x1b[47;30m 'H' \x1b[0m", 1));
    colored::control::unset_override();
}

#[test]
fn pentyte_load_program() {
    let src = "abcdefghijklmnopqrstuvwxy";
    match load_program(src) {
        Ok(m) => {
            let expected: Vec<Pentyte> = (25..50).map(p).collect();
            assert_eq!(m.mem, expected);
        }
        Err(e) => panic!("unexpected {e:?}"),
    }
    // characters past the 25th are not read
    assert!(load_program("abcdefghijklmnopqrstuvwxy\n").is_ok());
    assert!(matches!(load_program("abc"), Err(LoadError::WrongLength(3))));
    assert!(matches!(load_program(""), Err(LoadError::WrongLength(0))));
    assert!(matches!(load_program("ab€"), Err(LoadError::InvalidChar('€'))));
}

#[test]
fn pentyte_load_reads_back() {
    let cells: Vec<Pentyte> = (0..25).map(|i| p(i * 5)).collect();
    let src: String = cells.iter().map(|&c| pentyte2char(c)).collect();
    match load_program(&src) {
        Ok(m) => assert_eq!(m.mem, cells),
        Err(e) => panic!("unexpected {e:?}"),
    }
}

#[test]
fn pentyte_machine_interface() {
    // PRT 10; DIV 10 0; with 'H' in cell 10
    let mut m = machine(&[1, 10, 11, 10, 0, 0, 0, 0, 0, 0, 82]);
    let mut ip = 0usize;
    let mut out: Vec<char> = Vec::new();
    assert!(m.can_decode(ip));
    let inst = m.decode(&mut ip).unwrap();
    assert!(m.can_execute(&inst));
    assert_eq!(m.describe(&inst), "PRT 0p020(#0p020)");
    assert_eq!(m.execute(inst, &mut ip, &mut out), Ok(false));
    assert_eq!(text(out.clone()), "H");
    let inst = m.decode(&mut ip).unwrap();
    assert_eq!(m.execute(inst, &mut ip, &mut out), Err("Division by zero"));
    assert_eq!(ip, 5);
    assert!(!m.can_decode(25));
}
