//! The septendigyte: a word of two base-17 digits, a value in `0..289`, with
//! its character encoding (Latin-1 for the first 256 values, then 33 box and
//! math symbols), its `0s` notation and its parser.
use crate::positional::{horner, lemma_digits_of_index, power};
use crate::radbyte::RadixByte;
use crate::text::{
    append_chars, append_str, chars_of, decimal, parse_u16, parse_u16_spec, push_decimal,
    string_of, trim, trim_chars,
};
use vstd::prelude::*;

verus! {

/// A septendigyte: two digits in base 17.
pub type Septendigyte = RadixByte<17, 2>;

/// A septendigyte has sound parameters and 289 values.
pub proof fn lemma_septendigyte_params()
    ensures
        Septendigyte::params_ok(),
        Septendigyte::modulus_nat() == 289,
{
    assert(power(17, 0) == 1);
    assert(power(17, 1) == 17 * power(17, 0));
    assert(power(17, 2) == 17 * power(17, 1));
}

/// The two digits of a septendigyte: `(v / 17) % 17` and `v % 17`.
pub proof fn lemma_septendigyte_digits(v: nat)
    ensures
        Septendigyte::digit_bytes(v).len() == 2,
        Septendigyte::digit_bytes(v)[0] == ((v / 17) % 17) as u8,
        Septendigyte::digit_bytes(v)[1] == (v % 17) as u8,
{
    lemma_septendigyte_params();
    lemma_digits_of_index(v, 17, 2, 0);
    lemma_digits_of_index(v, 17, 2, 1);
    assert(power(17, 0) == 1);
    assert(power(17, 1) == 17 * power(17, 0));
    assert(v / 1 == v);
}

/// The 33 characters after the Latin-1 range.
pub open spec fn symbols() -> Seq<char> {
    seq![
        '═', '║', '╔', '╗', '╚', '╝', '╠', '╣', '╦', '╩', '╬', '█', '▀', '▄', '▌', '▐', '∴', '─',
        '│', '┌', '┐', '└', '┘', '├', '┤', '┬', '┴', '┼', '∵', '≤', '≥', '≠', '≈',
    ]
}

fn symbol_table() -> (t: [char; 33])
    ensures
        t@ == symbols(),
{
    let t = [
        '═', '║', '╔', '╗', '╚', '╝', '╠', '╣', '╦', '╩', '╬', '█', '▀', '▄', '▌', '▐', '∴', '─',
        '│', '┌', '┐', '└', '┘', '├', '┤', '┬', '┴', '┼', '∵', '≤', '≥', '≠', '≈',
    ];
    assert(t@ =~= symbols());
    t
}

/// The character of value `v`: the Latin-1 character with code `v` below 256,
/// the symbols after it.
pub open spec fn char_of_value(v: nat) -> char {
    if v < 256 {
        (v as u32) as char
    } else {
        symbols()[v - 256]
    }
}

/// The value a character stands for: the last value whose character it is.
pub open spec fn value_of_char(c: char) -> Option<nat> {
    if exists|i: nat| i < 289 && char_of_value(i) == c {
        Some(
            choose|i: nat|
                i < 289 && char_of_value(i) == c && forall|j: nat|
                    i < j < 289 ==> char_of_value(j) != c,
        )
    } else {
        None
    }
}

/// The character of a value below 289.
fn char_of(i: u32) -> (c: char)
    requires
        i < 289,
    ensures
        c == char_of_value(i as nat),
{
    if i < 256 {
        let c = (i as u8) as char;
        assert(c == (i as u32) as char);
        c
    } else {
        symbol_table()[(i - 256) as usize]
    }
}

/// The position of a value in the character grid: row `(v / 17) % 17`,
/// column `v % 17` (for values below 289, the value itself).
pub open spec fn grid_index(v: nat) -> nat {
    ((v / 17) % 17) * 17 + v % 17
}

/// The character a septendigyte stands for.
pub fn septendigyte2char(u: Septendigyte) -> (c: char)
    ensures
        c == char_of_value(grid_index(u@)),
{
    proof {
        lemma_septendigyte_params();
        lemma_septendigyte_digits(u@);
    }
    let d = u.digits();
    char_of(d[0] as u32 * 17 + d[1] as u32)
}

/// The septendigyte a character stands for, if any.
pub fn char2septendigyte(c: char) -> (r: Option<Septendigyte>)
    ensures
        match r {
            Some(u) => value_of_char(c) == Some(u@),
            None => value_of_char(c) is None,
        },
{
    let mut found: Option<u16> = None;
    let mut i: u32 = 0;
    while i < 289
        invariant
            i <= 289,
            match found {
                Some(k) => k < i && char_of_value(k as nat) == c && forall|j: nat|
                    k < j < i ==> char_of_value(j) != c,
                None => forall|j: nat| j < i ==> char_of_value(j) != c,
            },
        decreases 289 - i,
    {
        if char_of(i) == c {
            found = Some(i as u16);
        }
        i += 1;
    }
    proof {
        lemma_septendigyte_params();
    }
    match found {
        Some(k) => {
            proof {
                let w = choose|w: nat|
                    w < 289 && char_of_value(w) == c && forall|j: nat|
                        w < j < 289 ==> char_of_value(j) != c;
                assert(char_of_value(k as nat) == c);
                assert(w < 289 && char_of_value(w) == c && forall|j: nat|
                    w < j < 289 ==> char_of_value(j) != c);
                if w < k {
                    assert(char_of_value(k as nat) != c);
                }
                if k < w {
                    assert(char_of_value(w) != c);
                }
            }
            Some(Septendigyte::new(k))
        },
        None => None,
    }
}

/// The character of a base-17 digit: `0`-`9`, then `A`-`G`.
pub open spec fn septendigit_char(d: nat) -> char {
    if d < 10 {
        crate::text::digit_char(d)
    } else if d == 10 {
        'A'
    } else if d == 11 {
        'B'
    } else if d == 12 {
        'C'
    } else if d == 13 {
        'D'
    } else if d == 14 {
        'E'
    } else if d == 15 {
        'F'
    } else {
        'G'
    }
}

fn septendigit_to_char(d: u8) -> (c: char)
    requires
        d < 17,
    ensures
        c == septendigit_char(d as nat),
{
    if d < 10 {
        crate::text::digit_to_char(d as u64)
    } else if d == 10 {
        'A'
    } else if d == 11 {
        'B'
    } else if d == 12 {
        'C'
    } else if d == 13 {
        'D'
    } else if d == 14 {
        'E'
    } else if d == 15 {
        'F'
    } else {
        'G'
    }
}

/// The `0s` notation of a value: `0s`, the high digit, the low digit.
pub open spec fn notation(v: nat) -> Seq<char> {
    "0s"@ + seq![septendigit_char((v / 17) % 17), septendigit_char(v % 17)]
}

/// The `0s` notation of a septendigyte.
pub fn notation_of(u: Septendigyte) -> (r: Vec<char>)
    ensures
        r@ == notation(u@),
{
    proof {
        lemma_septendigyte_params();
        lemma_septendigyte_digits(u@);
    }
    let d = u.digits();
    let mut v = chars_of("0s");
    v.push(septendigit_to_char(d[0]));
    v.push(septendigit_to_char(d[1]));
    assert(v@ =~= notation(u@));
    v
}

/// The decimal numeral of a septendigyte's value.
pub fn decimal_of(u: Septendigyte) -> (r: Vec<char>)
    ensures
        r@ == decimal(u@),
{
    let mut v: Vec<char> = Vec::new();
    push_decimal(&mut v, u.get() as u64);
    assert(v@ =~= decimal(u@));
    v
}

/// The value of a base-17 digit character, either case.
pub open spec fn septendigit_value(c: char) -> Option<nat> {
    if '0' <= c <= '9' {
        Some((c as u32 - '0' as u32) as nat)
    } else if c == 'A' || c == 'a' {
        Some(10)
    } else if c == 'B' || c == 'b' {
        Some(11)
    } else if c == 'C' || c == 'c' {
        Some(12)
    } else if c == 'D' || c == 'd' {
        Some(13)
    } else if c == 'E' || c == 'e' {
        Some(14)
    } else if c == 'F' || c == 'f' {
        Some(15)
    } else if c == 'G' || c == 'g' {
        Some(16)
    } else {
        None
    }
}

fn septendigit(c: char) -> (r: Option<u8>)
    ensures
        match r {
            Some(d) => septendigit_value(c) == Some(d as nat),
            None => septendigit_value(c) is None,
        },
{
    if '0' <= c && c <= '9' {
        Some((c as u32 - '0' as u32) as u8)
    } else if c == 'A' || c == 'a' {
        Some(10)
    } else if c == 'B' || c == 'b' {
        Some(11)
    } else if c == 'C' || c == 'c' {
        Some(12)
    } else if c == 'D' || c == 'd' {
        Some(13)
    } else if c == 'E' || c == 'e' {
        Some(14)
    } else if c == 'F' || c == 'f' {
        Some(15)
    } else if c == 'G' || c == 'g' {
        Some(16)
    } else {
        None
    }
}

/// What the septendigyte parser makes of `s`: the value, or the reason it is
/// rejected. `s` is trimmed; `0s` or `0S` then exactly two base-17 digits
/// gives `17 * hi + lo`; otherwise `s` must be a decimal number up to 288.
pub open spec fn parse_spec(s: Seq<char>) -> Result<nat, Seq<char>> {
    let t = trim(s);
    if t.len() >= 2 && t[0] == '0' && (t[1] == 's' || t[1] == 'S') {
        let ds = t.skip(2);
        if ds.len() != 2 {
            Err("'"@ + t + "' must have exactly 2 septendigits after 0s"@)
        } else if septendigit_value(ds[0]) is None {
            Err("invalid septendigit '"@ + seq![ds[0]] + "' in '"@ + t + "'"@)
        } else if septendigit_value(ds[1]) is None {
            Err("invalid septendigit '"@ + seq![ds[1]] + "' in '"@ + t + "'"@)
        } else {
            Ok(septendigit_value(ds[0])->0 * 17 + septendigit_value(ds[1])->0)
        }
    } else {
        match parse_u16_spec(t) {
            None => Err("'"@ + t + "' is not a valid number"@),
            Some(n) => if n > 288 {
                Err(decimal(n as nat) + " out of range 0..=288"@)
            } else {
                Ok(n as nat)
            },
        }
    }
}

/// The message of a rejected septendigyte.
pub open spec fn parse_error_text(msg: Seq<char>) -> Seq<char> {
    "invalid septendigyte: "@ + msg
}

/// A rejected septendigyte, with the reason.
pub struct ParseSeptendigyteError(pub String);

impl ParseSeptendigyteError {
    /// The error as it is shown: `invalid septendigyte: ` and the reason.
    pub fn to_text(&self) -> (r: Vec<char>)
        ensures
            r@ == parse_error_text(self.0@),
    {
        let mut v = chars_of("invalid septendigyte: ");
        let reason = chars_of(self.0.as_str());
        append_chars(&mut v, reason.as_slice());
        v
    }
}

/// `invalid septendigit '<c>' in '<t>'`.
fn bad_septendigit_text(c: char, t: &[char]) -> (m: Vec<char>)
    ensures
        m@ == "invalid septendigit '"@ + seq![c] + "' in '"@ + t@ + "'"@,
{
    let mut m = chars_of("invalid septendigit '");
    m.push(c);
    append_str(&mut m, "' in '");
    append_chars(&mut m, t);
    append_str(&mut m, "'");
    assert(m@ =~= "invalid septendigit '"@ + seq![c] + "' in '"@ + t@ + "'"@);
    m
}

/// Reads a septendigyte (see `parse_spec`).
pub fn parse_septendigyte(s: &[char]) -> (r: Result<Septendigyte, ParseSeptendigyteError>)
    ensures
        match r {
            Ok(u) => parse_spec(s@) == Ok::<nat, Seq<char>>(u@),
            Err(e) => parse_spec(s@) == Err::<nat, Seq<char>>(e.0@),
        },
{
    proof {
        lemma_septendigyte_params();
    }
    let t = trim_chars(s);
    let tlen = t.len();
    if tlen >= 2 && t[0] == '0' && (t[1] == 's' || t[1] == 'S') {
        if tlen != 4 {
            let mut m = chars_of("'");
            append_chars(&mut m, t.as_slice());
            append_str(&mut m, "' must have exactly 2 septendigits after 0s");
            proof {
                assert(m@ =~= "'"@ + t@ + "' must have exactly 2 septendigits after 0s"@);
            }
            return Err(ParseSeptendigyteError(string_of(m.as_slice())));
        }
        let ghost ds = t@.skip(2);
        assert(ds[0] == t@[2] && ds[1] == t@[3] && ds.len() == 2);
        let hi = match septendigit(t[2]) {
            Some(d) => d,
            None => {
                let m = bad_septendigit_text(t[2], t.as_slice());
                return Err(ParseSeptendigyteError(string_of(m.as_slice())));
            },
        };
        let lo = match septendigit(t[3]) {
            Some(d) => d,
            None => {
                let m = bad_septendigit_text(t[3], t.as_slice());
                return Err(ParseSeptendigyteError(string_of(m.as_slice())));
            },
        };
        let digits: [u8; 2] = [hi, lo];
        proof {
            assert(digits@.map_values(|d: u8| d as nat) =~= seq![hi as nat, lo as nat]);
            let s2 = seq![hi as nat, lo as nat];
            assert(s2.drop_last() =~= seq![hi as nat]);
            assert(seq![hi as nat].drop_last() =~= Seq::<nat>::empty());
            assert(horner(Seq::<nat>::empty(), 17) == 0);
            assert(horner(seq![hi as nat], 17) == hi);
            assert(horner(s2, 17) == hi * 17 + lo);
            assert(Septendigyte::value_of_bytes(digits@) == hi * 17 + lo);
        }
        return Ok(Septendigyte::from_digits(digits));
    }
    match parse_u16(t.as_slice()) {
        None => {
            let mut m = chars_of("'");
            append_chars(&mut m, t.as_slice());
            append_str(&mut m, "' is not a valid number");
            proof {
                assert(m@ =~= "'"@ + t@ + "' is not a valid number"@);
            }
            Err(ParseSeptendigyteError(string_of(m.as_slice())))
        },
        Some(n) => {
            if n > 288 {
                let mut m: Vec<char> = Vec::new();
                push_decimal(&mut m, n as u64);
                append_str(&mut m, " out of range 0..=288");
                proof {
                    assert(m@ =~= decimal(n as nat) + " out of range 0..=288"@);
                }
                Err(ParseSeptendigyteError(string_of(m.as_slice())))
            } else {
                Ok(Septendigyte::new(n))
            }
        },
    }
}

} // verus!
