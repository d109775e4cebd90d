use mini_machine::undigyte::{Undigits, Undigyte};

fn chars(s: &str) -> Vec<char> {
    s.chars().collect()
}

fn text(v: Vec<char>) -> String {
    v.into_iter().collect()
}

fn parsed(s: &str) -> Result<u8, String> {
    match Undigyte::parse(&chars(s)) {
        Ok(u) => Ok(u.0),
        Err(e) => Err(e.0),
    }
}

#[test]
fn undigyte_bounds() {
    assert_eq!(Undigyte::min_value(), Undigyte(0));
    assert_eq!(Undigyte::max_value(), Undigyte(120));
    assert_eq!(Undigyte::default(), Undigyte(0));
}

#[test]
fn undigyte_undigits() {
    assert_eq!(Undigyte(37).as_undigits(), Undigits { lo: 4, hi: 3 });
    assert_eq!(Undigyte(120).as_undigits(), Undigits { lo: 10, hi: 10 });
    assert_eq!(Undigits { lo: 4, hi: 3 }.as_undigyte(), Undigyte(37));
    for v in 0..121u8 {
        assert_eq!(Undigyte(v).as_undigits().as_undigyte(), Undigyte(v));
    }
}

#[test]
fn undigyte_chars() {
    assert_eq!(Undigyte(0).as_char(), '\0');
    assert_eq!(Undigyte(3).as_char(), '\u{A0}');
    assert_eq!(Undigyte(11).as_char(), ' ');
    assert_eq!(Undigyte(44).as_char(), 'A');
    assert_eq!(Undigyte(110).as_char(), '0');
    assert_eq!(Undigyte(120).as_char(), '±');
    assert_eq!(Undigyte::from_char('A'), Some(Undigyte(44)));
    assert_eq!(Undigyte::from_char('z'), Some(Undigyte(102)));
    assert_eq!(Undigyte::from_char('é'), None);
    assert_eq!(Undigyte::from_char('\t'), None);
}

#[test]
fn undigyte_char_round_trip() {
    for v in 0..121u8 {
        let u = Undigyte(v);
        assert_eq!(Undigyte::from_char(u.as_char()), Some(u));
    }
}

#[test]
fn undigyte_arithmetic() {
    assert_eq!(Undigyte(100).wrapping_add(Undigyte(30)), Undigyte(9));
    assert_eq!(Undigyte(5).wrapping_sub(Undigyte(10)), Undigyte(116));
    assert_eq!(Undigyte(11).wrapping_mul(Undigyte(11)), Undigyte(0));
    assert_eq!(Undigyte(12).wrapping_mul(Undigyte(12)), Undigyte(23));
    assert_eq!(Undigyte(100).checked_div(Undigyte(7)), Some(Undigyte(14)));
    assert_eq!(Undigyte(100).checked_div(Undigyte(0)), None);
    assert_eq!(Undigyte(100).checked_mod(Undigyte(7)), Some(Undigyte(2)));
    assert_eq!(Undigyte(100).checked_mod(Undigyte(0)), None);
    assert_eq!(Undigyte(0).wrapping_neg(), Undigyte(0));
    assert_eq!(Undigyte(1).wrapping_neg(), Undigyte(120));
}

#[test]
fn undigyte_add_then_sub() {
    for a in 0..121u8 {
        for b in 0..121u8 {
            let s = Undigyte(a).wrapping_add(Undigyte(b));
            assert_eq!(s.wrapping_sub(Undigyte(b)), Undigyte(a));
        }
    }
}

#[test]
fn undigyte_signed() {
    assert_eq!(Undigyte(0).as_signed(), 0);
    assert_eq!(Undigyte(60).as_signed(), 60);
    assert_eq!(Undigyte(61).as_signed(), -60);
    assert_eq!(Undigyte(120).as_signed(), -1);
}

#[test]
fn undigyte_notation() {
    assert_eq!(text(Undigyte(37).notation()), "0u34");
    assert_eq!(text(Undigyte(21).notation()), "0u1X");
    assert_eq!(text(Undigyte(110).notation()), "0uX0");
    assert_eq!(text(Undigyte(120).notation()), "0uXX");
    assert_eq!(text(Undigyte(0).notation()), "0u00");
    assert_eq!(text(Undigyte(120).decimal_text()), "120");
    assert_eq!(text(Undigyte(7).decimal_text()), "7");
}

#[test]
fn undigyte_parse_accepts() {
    assert_eq!(parsed("0u34"), Ok(37));
    assert_eq!(parsed("  0uXX\t"), Ok(120));
    assert_eq!(parsed("0Ux1"), Ok(111));
    assert_eq!(parsed("120"), Ok(120));
    assert_eq!(parsed("+5"), Ok(5));
    assert_eq!(parsed("007"), Ok(7));
}

#[test]
fn undigyte_parse_rejects() {
    assert_eq!(parsed("121"), Err("121 out of range 0..=120".to_string()));
    assert_eq!(parsed("abc"), Err("'abc' is not a valid number".to_string()));
    assert_eq!(parsed(""), Err("'' is not a valid number".to_string()));
    assert_eq!(parsed("70000"), Err("'70000' is not a valid number".to_string()));
    assert_eq!(
        parsed("0u1"),
        Err("'0u1' must have exactly 2 undigits after 0u".to_string())
    );
    assert_eq!(
        parsed("0u123"),
        Err("'0u123' must have exactly 2 undigits after 0u".to_string())
    );
    assert_eq!(parsed("0u1Z"), Err("invalid undigit 'Z' in '0u1Z'".to_string()));
    assert_eq!(parsed("0uY1"), Err("invalid undigit 'Y' in '0uY1'".to_string()));
}

#[test]
fn undigyte_parse_error_text() {
    let e = Undigyte::parse(&chars("999")).unwrap_err();
    assert_eq!(e.to_text(), "invalid undigyte: 999 out of range 0..=120");
}

#[test]
fn undigyte_printed_forms_read_back() {
    for v in 0..121u8 {
        let u = Undigyte(v);
        assert_eq!(Undigyte::parse(&u.notation()).ok(), Some(u));
        assert_eq!(Undigyte::parse(&u.decimal_text()).ok(), Some(u));
    }
}

#[test]
fn undigyte_operators() {
    assert_eq!(Undigyte(100) + Undigyte(30), Undigyte(9));
    assert_eq!(Undigyte(5) - Undigyte(10), Undigyte(116));
    assert_eq!(Undigyte(12) * Undigyte(12), Undigyte(23));
    assert_eq!(-Undigyte(1), Undigyte(120));
    assert_eq!(-Undigyte(0), Undigyte(0));
}

#[test]
fn undigyte_from_str() {
    assert_eq!("0u34".parse::<Undigyte>().ok(), Some(Undigyte(37)));
    assert_eq!(" 99 ".parse::<Undigyte>().ok(), Some(Undigyte(99)));
    let e = "0uQQ".parse::<Undigyte>().err().unwrap();
    assert_eq!(e.0, "invalid undigit 'Q' in '0uQQ'");
}
