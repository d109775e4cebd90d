//! The pentyte: a word of three base-5 digits, a value in `0..125`, with its
//! character table (pentASCII), its `0p` notation and its digit operations.
use crate::positional::{
    digits_of, lemma_digits_of_index, lemma_digits_of_len, lemma_horner3,
    lemma_horner_digits_of, power,
};
use vstd::arithmetic::div_mod::lemma_small_mod;
use crate::radbyte::RadixByte;
use crate::text::{chars_of, digit_char, digit_to_char};
use vstd::prelude::*;

verus! {

/// A pentyte: three digits in base 5.
pub type Pentyte = RadixByte<5, 3>;

/// A pentyte has sound parameters and 125 values.
pub proof fn lemma_pentyte_params()
    ensures
        Pentyte::params_ok(),
        Pentyte::modulus_nat() == 125,
{
    assert(power(5, 0) == 1);
    assert(power(5, 1) == 5 * power(5, 0));
    assert(power(5, 2) == 5 * power(5, 1));
    assert(power(5, 3) == 5 * power(5, 2));
}

/// The three digits of a pentyte: page `(v / 25) % 5`, row `(v / 5) % 5`,
/// column `v % 5`.
pub proof fn lemma_pentyte_digits(v: nat)
    ensures
        Pentyte::digit_bytes(v).len() == 3,
        Pentyte::digit_bytes(v)[0] == ((v / 25) % 5) as u8,
        Pentyte::digit_bytes(v)[1] == ((v / 5) % 5) as u8,
        Pentyte::digit_bytes(v)[2] == (v % 5) as u8,
{
    lemma_pentyte_params();
    lemma_digits_of_index(v, 5, 3, 0);
    lemma_digits_of_index(v, 5, 3, 1);
    lemma_digits_of_index(v, 5, 3, 2);
    assert(power(5, 0) == 1);
    assert(power(5, 1) == 5 * power(5, 0));
    assert(power(5, 2) == 5 * power(5, 1));
    assert(v / 1 == v);
}

/// The three digits of `v`, most significant first.
proof fn lemma_digits_three(v: nat)
    ensures
        digits_of(v, 5, 3) == seq![(v / 25) % 5, (v / 5) % 5, v % 5],
{
    lemma_digits_of_len(v, 5, 3);
    lemma_digits_of_index(v, 5, 3, 0);
    lemma_digits_of_index(v, 5, 3, 1);
    lemma_digits_of_index(v, 5, 3, 2);
    assert(power(5, 0) == 1);
    assert(power(5, 1) == 5 * power(5, 0));
    assert(power(5, 2) == 5 * power(5, 1));
    assert(v / 1 == v);
    assert(digits_of(v, 5, 3) =~= seq![(v / 25) % 5, (v / 5) % 5, v % 5]);
}

/// The pentASCII table, page by page, row by row: the character of value
/// `25 * page + 5 * row + column`.
#[verifier::opaque]
pub open spec fn pentyte_table() -> Seq<char> {
    seq![
        '\0', '\x01', '\x02', '\x03', '\x04',
        '\x05', '\x06', '\x07', '\x09', '\x0b',
        '\x0c', '\x0E', '\x0F', '\x10', '\x11',
        '\x08', '\x12', '\x13', '\x14', '\x15',
        '\n', '\r', '\x16', '\x17', '\x18',
        'a', 'b', 'c', 'd', 'e',
        'f', 'g', 'h', 'i', 'j',
        'k', 'l', 'm', 'n', 'o',
        'p', 'q', 'r', 's', 't',
        'u', 'v', 'w', 'x', 'y',
        'z', ' ', '~', '@', '?',
        '!', '"', '#', '$', '_',
        '%', '&', '\'', '(', ')',
        '*', '+', ',', '-', '.',
        ':', ';', '<', '=', '>',
        'A', 'B', 'C', 'D', 'E',
        'F', 'G', 'H', 'I', 'J',
        'K', 'L', 'M', 'N', 'O',
        'P', 'Q', 'R', 'S', 'T',
        'U', 'V', 'W', 'X', 'Y',
        'Z', '\x19', '\x1a', '\x1b', '\x1c',
        '[', '\\', '/', ']', '^',
        '0', '1', '2', '3', '4',
        '5', '6', '7', '8', '9',
        '`', '{', '|', '}', '\x7f',
    ]
}

fn table() -> (t: [char; 125])
    ensures
        t@ == pentyte_table(),
{
    let t = [
        '\0', '\x01', '\x02', '\x03', '\x04',
        '\x05', '\x06', '\x07', '\x09', '\x0b',
        '\x0c', '\x0E', '\x0F', '\x10', '\x11',
        '\x08', '\x12', '\x13', '\x14', '\x15',
        '\n', '\r', '\x16', '\x17', '\x18',
        'a', 'b', 'c', 'd', 'e',
        'f', 'g', 'h', 'i', 'j',
        'k', 'l', 'm', 'n', 'o',
        'p', 'q', 'r', 's', 't',
        'u', 'v', 'w', 'x', 'y',
        'z', ' ', '~', '@', '?',
        '!', '"', '#', '$', '_',
        '%', '&', '\'', '(', ')',
        '*', '+', ',', '-', '.',
        ':', ';', '<', '=', '>',
        'A', 'B', 'C', 'D', 'E',
        'F', 'G', 'H', 'I', 'J',
        'K', 'L', 'M', 'N', 'O',
        'P', 'Q', 'R', 'S', 'T',
        'U', 'V', 'W', 'X', 'Y',
        'Z', '\x19', '\x1a', '\x1b', '\x1c',
        '[', '\\', '/', ']', '^',
        '0', '1', '2', '3', '4',
        '5', '6', '7', '8', '9',
        '`', '{', '|', '}', '\x7f',
    ];
    reveal(pentyte_table);
    assert(t@ =~= pentyte_table());
    t
}

/// The table position of a value: its page, row and column digits.
pub open spec fn grid_index(v: nat) -> nat {
    ((v / 25) % 5) * 25 + ((v / 5) % 5) * 5 + v % 5
}

/// The character a value stands for.
pub open spec fn char_of_value(v: nat) -> char {
    pentyte_table()[grid_index(v) as int]
}

/// The value a character stands for: the last table position holding it.
#[verifier::opaque]
pub open spec fn value_of_char(c: char) -> Option<nat> {
    if exists|i: int| 0 <= i < 125 && pentyte_table()[i] == c {
        Some(
            choose|i: nat|
                i < 125 && pentyte_table()[i as int] == c && forall|j: int|
                    i < j < 125 ==> pentyte_table()[j] != c,
        )
    } else {
        None
    }
}

/// A character's value is one of the 125 table positions.
pub proof fn lemma_value_of_char_in_range(c: char)
    ensures
        value_of_char(c) matches Some(v) ==> v < 125,
{
    reveal(value_of_char);
    reveal(pentyte_table);
}

/// The character a pentyte stands for.
pub fn pentyte2char(p: Pentyte) -> (c: char)
    ensures
        c == char_of_value(p@),
{
    proof {
        lemma_pentyte_params();
        lemma_pentyte_digits(p@);
    }
    let d = p.digits();
    let t = table();
    t[d[0] as usize * 25 + d[1] as usize * 5 + d[2] as usize]
}

/// The pentyte a character stands for, if any.
pub fn char2pentyte(c: char) -> (r: Option<Pentyte>)
    ensures
        match r {
            Some(p) => value_of_char(c) == Some(p@),
            None => value_of_char(c) is None,
        },
{
    reveal(value_of_char);
    let t = table();
    let mut found: Option<usize> = None;
    let mut i: usize = 0;
    while i < 125
        invariant
            t@ == pentyte_table(),
            i <= 125,
            match found {
                Some(k) => k < i && pentyte_table()[k as int] == c && forall|j: int|
                    k < j < i ==> pentyte_table()[j] != c,
                None => forall|j: int| 0 <= j < i ==> pentyte_table()[j] != c,
            },
        decreases 125 - i,
    {
        if t[i] == c {
            found = Some(i);
        }
        i += 1;
    }
    match found {
        Some(k) => {
            proof {
                let w = choose|w: nat|
                    w < 125 && pentyte_table()[w as int] == c && forall|j: int|
                        w < j < 125 ==> pentyte_table()[j] != c;
                assert(w < 125 && pentyte_table()[w as int] == c && forall|j: int|
                    w < j < 125 ==> pentyte_table()[j] != c);
                if w < k {
                    assert(pentyte_table()[k as int] != c);
                }
                if k < w {
                    assert(pentyte_table()[w as int] != c);
                }
                lemma_pentyte_params();
            }
            let digits: [u8; 3] = [(k / 25) as u8, ((k / 5) % 5) as u8, (k % 5) as u8];
            proof {
                lemma_digits_three(k as nat);
                assert(digits@.map_values(|d: u8| d as nat) =~= digits_of(k as nat, 5, 3));
                lemma_horner_digits_of(k as nat, 5, 3);
                assert(power(5, 3) == 125) by {
                    lemma_pentyte_params();
                }
                lemma_small_mod(k as nat, 125);
            }
            Some(Pentyte::from_digits(digits))
        },
        None => None,
    }
}

/// The `0p` notation of a value: `0p` and its three digits.
pub open spec fn notation(v: nat) -> Seq<char> {
    "0p"@ + seq![digit_char((v / 25) % 5), digit_char((v / 5) % 5), digit_char(v % 5)]
}

/// The `0p` notation of a pentyte.
pub fn notation_of(p: Pentyte) -> (r: Vec<char>)
    ensures
        r@ == notation(p@),
{
    proof {
        lemma_pentyte_params();
        lemma_pentyte_digits(p@);
    }
    let d = p.digits();
    let mut v = chars_of("0p");
    v.push(digit_to_char(d[0] as u64));
    v.push(digit_to_char(d[1] as u64));
    v.push(digit_to_char(d[2] as u64));
    assert(v@ =~= notation(p@));
    v
}

/// The pentyte one more, modulo 125.
pub fn pentyte_inc(p: Pentyte) -> (r: Pentyte)
    ensures
        r@ == (p@ + 1) % 125,
{
    proof {
        lemma_pentyte_params();
    }
    p.wrapping_add(Pentyte::new(1))
}

/// The pentyte one less, modulo 125.
pub fn pentyte_dec(p: Pentyte) -> (r: Pentyte)
    ensures
        r@ == ((125 + p@ - 1) as nat) % 125,
{
    proof {
        lemma_pentyte_params();
    }
    p.wrapping_sub(Pentyte::new(1))
}

/// Each digit `d` of the pentyte replaced by `4 - d`: the value `124 - v`
/// for the value `v` the digits spell.
pub fn pentyte_flip(p: Pentyte) -> (r: Pentyte)
    ensures
        r@ == 124 - p@ % 125,
{
    proof {
        lemma_pentyte_params();
        lemma_pentyte_digits(p@);
    }
    let d = p.digits();
    let flipped: [u8; 3] = [4 - d[0], 4 - d[1], 4 - d[2]];
    proof {
        let v = p@;
        let s = flipped@.map_values(|x: u8| x as nat);
        let (a, b, c) = (((v / 25) % 5) as nat, ((v / 5) % 5) as nat, (v % 5) as nat);
        assert(s =~= seq![(4 - a) as nat, (4 - b) as nat, (4 - c) as nat]);
        lemma_horner3((4 - a) as nat, (4 - b) as nat, (4 - c) as nat, 5);
        lemma_digits_three(v);
        lemma_horner_digits_of(v, 5, 3);
        lemma_horner3(a, b, c, 5);
        assert(power(5, 3) == 125) by {
            lemma_pentyte_params();
        }
    }
    Pentyte::from_digits(flipped)
}

/// The address an operand names: its value modulo 25.
pub open spec fn addr_spec(op: nat) -> nat {
    op % 25
}

/// The address an operand names.
pub fn addr(op: Pentyte) -> (r: usize)
    ensures
        r == addr_spec(op@),
{
    (op.get() % 25) as usize
}

/// Whether a character is printable ASCII (`!` to `~`).
pub open spec fn is_ascii_graphic(c: char) -> bool {
    '!' <= c <= '~'
}

/// How the memory dump shows a cell: a printable character or a space
/// between quotes and spaces, any other character by the `0p` notation.
pub open spec fn glyph_text(v: nat) -> Seq<char> {
    let c = char_of_value(v);
    if is_ascii_graphic(c) || c == ' ' {
        " '"@ + seq![c] + "' "@
    } else {
        notation(v)
    }
}

/// How the memory dump shows a pentyte.
pub fn glyph(p: Pentyte) -> (r: Vec<char>)
    ensures
        r@ == glyph_text(p@),
{
    let c = pentyte2char(p);
    if ('!' <= c && c <= '~') || c == ' ' {
        let mut v = chars_of(" '");
        v.push(c);
        crate::text::append_str(&mut v, "' ");
        assert(v@ =~= glyph_text(p@));
        v
    } else {
        notation_of(p)
    }
}

} // verus!
