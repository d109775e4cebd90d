use mini_machine::text::{
    append_chars, append_str, chars_of, digit_to_char, is_whitespace, parse_u16, push_decimal,
    string_of, tokenize, trim_chars,
};

fn chars(s: &str) -> Vec<char> {
    s.chars().collect()
}

fn words(src: &str) -> Vec<(usize, String)> {
    tokenize(&chars(src))
        .into_iter()
        .map(|t| (t.line, t.text.into_iter().collect()))
        .collect()
}

#[test]
fn whitespace_is_unicode_white_space() {
    for c in [' ', '\t', '\n', '\r', '\u{0b}', '\u{0c}', '\u{85}', '\u{a0}', '\u{2003}', '\u{3000}'] {
        assert!(is_whitespace(c), "{c:?}");
        assert_eq!(is_whitespace(c), c.is_whitespace());
    }
    for c in ['a', '0', ';', '\0', '\u{200b}'] {
        assert!(!is_whitespace(c), "{c:?}");
        assert_eq!(is_whitespace(c), c.is_whitespace());
    }
}

#[test]
fn chars_and_strings() {
    assert_eq!(chars_of("ab±"), vec!['a', 'b', '±']);
    assert_eq!(string_of(&['x', '≈']), "x≈");
    let mut v = vec!['a'];
    append_chars(&mut v, &['b', 'c']);
    append_str(&mut v, "de");
    assert_eq!(v, chars("abcde"));
}

#[test]
fn decimal_numerals() {
    assert_eq!(digit_to_char(0), '0');
    assert_eq!(digit_to_char(9), '9');
    let mut v = vec!['#'];
    push_decimal(&mut v, 0);
    push_decimal(&mut v, 4096);
    assert_eq!(v, chars("#04096"));
    let mut w = Vec::new();
    push_decimal(&mut w, u64::MAX);
    assert_eq!(w, chars("18446744073709551615"));
}

#[test]
fn trimming() {
    assert_eq!(trim_chars(&chars("  a b \t\n")), chars("a b"));
    assert_eq!(trim_chars(&chars("\u{a0}x\u{3000}")), chars("x"));
    assert_eq!(trim_chars(&chars("   ")), chars(""));
    assert_eq!(trim_chars(&chars("")), chars(""));
}

#[test]
fn parsing_u16() {
    assert_eq!(parse_u16(&chars("0")), Some(0));
    assert_eq!(parse_u16(&chars("65535")), Some(65535));
    assert_eq!(parse_u16(&chars("+12")), Some(12));
    assert_eq!(parse_u16(&chars("65536")), None);
    assert_eq!(parse_u16(&chars("")), None);
    assert_eq!(parse_u16(&chars("+")), None);
    assert_eq!(parse_u16(&chars("-1")), None);
    assert_eq!(parse_u16(&chars("1 2")), None);
    assert_eq!(parse_u16(&chars("00012")), Some(12));
}

#[test]
fn parsing_u16_agrees_with_std() {
    for s in ["7", "+7", "0007", "99999", "12a", "", "+", "++1", "65535", "65536"] {
        assert_eq!(parse_u16(&chars(s)), s.parse::<u16>().ok(), "{s:?}");
    }
}

#[test]
fn tokenizing() {
    assert_eq!(
        words("a b ; comment c\n\n  d\te;\nf"),
        vec![
            (1, "a".to_string()),
            (1, "b".to_string()),
            (3, "d".to_string()),
            (3, "e".to_string()),
            (4, "f".to_string()),
        ]
    );
    assert_eq!(words(""), vec![]);
    assert_eq!(words(";;;\n;x"), vec![]);
    assert_eq!(words("x;y\r\nz"), vec![(1, "x".to_string()), (2, "z".to_string())]);
}
