//! The undigyte: a word of two base-11 digits ("undigits"), a value in
//! `0..121`, with its character table, its `0u` notation and its parser.
use crate::text::{
    append_chars, append_str, chars_of, decimal, parse_u16, parse_u16_spec,
    push_decimal, string_of, trim, trim_chars,
};
use vstd::prelude::*;

verus! {

/// An undigyte, split into its two undigits.
#[derive(Clone, Copy, PartialEq, Eq, Structural, Debug)]
pub struct Undigits {
    pub lo: u8,
    pub hi: u8,
}

/// A value in `0..121`.
#[derive(Clone, Copy, PartialEq, Eq, Structural, PartialOrd, Ord, Default, Debug)]
pub struct Undigyte(pub u8);

impl View for Undigyte {
    type V = nat;

    open spec fn view(&self) -> nat {
        self.0 as nat
    }
}

/// The characters of the undigyte table, row `hi`, column `lo` at `11 * hi + lo`.
pub open spec fn undigyte_table() -> Seq<char> {
    seq![
        '\0', '\n', '\r', '\u{A0}', '¢', '£', '¥', '§', '¶', '«', '»',
        ' ', '!', '"', '#', '$', '%', '&', '\'', '(', ')', '*',
        '+', ',', '-', '.', '/', ':', ';', '<', '=', '>', '?',
        '@', '[', '\\', ']', '^', '_', '`', '{', '|', '}', '~',
        'A', 'B', 'C', 'D', 'E', 'F', 'G', 'H', 'I', 'J', 'K',
        'L', 'M', 'N', 'O', 'P', 'Q', 'R', 'S', 'T', 'U', 'V',
        'W', 'X', 'Y', 'Z', '¡', '¿', '™', '…', '·', 'µ', '¬',
        'a', 'b', 'c', 'd', 'e', 'f', 'g', 'h', 'i', 'j', 'k',
        'l', 'm', 'n', 'o', 'p', 'q', 'r', 's', 't', 'u', 'v',
        'w', 'x', 'y', 'z', '¼', '½', '¾', '¹', '²', '³', '¦',
        '0', '1', '2', '3', '4', '5', '6', '7', '8', '9', '±',
    ]
}

/// The table as an array.
fn table() -> (t: [char; 121])
    ensures
        t@ == undigyte_table(),
{
    let t = [
        '\0', '\n', '\r', '\u{A0}', '¢', '£', '¥', '§', '¶', '«', '»',
        ' ', '!', '"', '#', '$', '%', '&', '\'', '(', ')', '*',
        '+', ',', '-', '.', '/', ':', ';', '<', '=', '>', '?',
        '@', '[', '\\', ']', '^', '_', '`', '{', '|', '}', '~',
        'A', 'B', 'C', 'D', 'E', 'F', 'G', 'H', 'I', 'J', 'K',
        'L', 'M', 'N', 'O', 'P', 'Q', 'R', 'S', 'T', 'U', 'V',
        'W', 'X', 'Y', 'Z', '¡', '¿', '™', '…', '·', 'µ', '¬',
        'a', 'b', 'c', 'd', 'e', 'f', 'g', 'h', 'i', 'j', 'k',
        'l', 'm', 'n', 'o', 'p', 'q', 'r', 's', 't', 'u', 'v',
        'w', 'x', 'y', 'z', '¼', '½', '¾', '¹', '²', '³', '¦',
        '0', '1', '2', '3', '4', '5', '6', '7', '8', '9', '±',
    ];
    assert(t@ =~= undigyte_table());
    t
}

/// The undigyte a character stands for: the last table position holding it.
pub open spec fn char_code(c: char) -> Option<nat> {
    if exists|i: int| 0 <= i < 121 && undigyte_table()[i] == c {
        Some(
            choose|i: nat|
                i < 121 && undigyte_table()[i as int] == c && forall|j: int|
                    i < j < 121 ==> undigyte_table()[j] != c,
        )
    } else {
        None
    }
}

/// How an undigit is written: `X` for ten, its decimal numeral otherwise.
pub open spec fn undigit_text(d: nat) -> Seq<char> {
    if d == 10 {
        seq!['X']
    } else {
        decimal(d)
    }
}

/// The `0u` notation of a value: `0u`, the high undigit, the low undigit.
pub open spec fn notation(v: nat) -> Seq<char> {
    "0u"@ + undigit_text(v / 11) + undigit_text(v % 11)
}

/// The value of an undigit character, if it is one.
pub open spec fn undigit_value(c: char) -> Option<nat> {
    if '0' <= c <= '9' {
        Some((c as u32 - '0' as u32) as nat)
    } else if c == 'X' || c == 'x' {
        Some(10)
    } else {
        None
    }
}

/// The message of a rejected undigyte.
pub open spec fn parse_error_text(msg: Seq<char>) -> Seq<char> {
    "invalid undigyte: "@ + msg
}

/// What the undigyte parser makes of `s`: the value, or the reason it is
/// rejected. `s` is trimmed; `0u` or `0U` then exactly two undigits gives
/// `11 * hi + lo`; otherwise `s` must be a decimal number up to 120.
pub open spec fn parse_spec(s: Seq<char>) -> Result<nat, Seq<char>> {
    let t = trim(s);
    if t.len() >= 2 && t[0] == '0' && (t[1] == 'u' || t[1] == 'U') {
        let ds = t.skip(2);
        if ds.len() != 2 {
            Err("'"@ + t + "' must have exactly 2 undigits after 0u"@)
        } else if undigit_value(ds[0]) is None {
            Err("invalid undigit '"@ + seq![ds[0]] + "' in '"@ + t + "'"@)
        } else if undigit_value(ds[1]) is None {
            Err("invalid undigit '"@ + seq![ds[1]] + "' in '"@ + t + "'"@)
        } else {
            Ok(undigit_value(ds[0])->0 * 11 + undigit_value(ds[1])->0)
        }
    } else {
        match parse_u16_spec(t) {
            None => Err("'"@ + t + "' is not a valid number"@),
            Some(n) => if n > 120 {
                Err(decimal(n as nat) + " out of range 0..=120"@)
            } else {
                Ok(n as nat)
            },
        }
    }
}

/// A rejected undigyte, with the reason.
pub struct ParseUndigyteError(pub String);

impl ParseUndigyteError {
    /// The error as it is shown: `invalid undigyte: ` and the reason.
    pub fn to_text(&self) -> (r: String)
        ensures
            r@ == parse_error_text(self.0@),
    {
        let mut v = chars_of("invalid undigyte: ");
        let reason = chars_of(self.0.as_str());
        append_chars(&mut v, reason.as_slice());
        string_of(v.as_slice())
    }
}

impl Undigits {
    /// The undigyte `11 * hi + lo`.
    pub fn as_undigyte(self) -> (r: Undigyte)
        requires
            self.hi * 11 + self.lo <= 255,
        ensures
            r@ == self.hi * 11 + self.lo,
    {
        Undigyte(self.hi * 11 + self.lo)
    }
}

impl Undigyte {
    /// The smallest undigyte, 0.
    pub fn min_value() -> (r: Undigyte)
        ensures
            r@ == 0,
    {
        Undigyte(0)
    }

    /// The largest undigyte, 120.
    pub fn max_value() -> (r: Undigyte)
        ensures
            r@ == 120,
    {
        Undigyte(120)
    }

    /// The two undigits: `lo` is the value mod 11, `hi` the value divided by 11.
    pub fn as_undigits(self) -> (r: Undigits)
        ensures
            r.lo == self@ % 11,
            r.hi == self@ / 11,
    {
        let lo = self.0 % 11;
        let hi = self.0 / 11;
        Undigits { lo, hi }
    }

    /// The character the undigyte stands for.
    pub fn as_char(self) -> (c: char)
        requires
            self@ < 121,
        ensures
            c == undigyte_table()[self@ as int],
    {
        let ud = self.as_undigits();
        let t = table();
        t[(ud.hi as usize) * 11 + ud.lo as usize]
    }

    /// The undigyte a character stands for, if any.
    pub fn from_char(c: char) -> (r: Option<Undigyte>)
        ensures
            match r {
                Some(u) => char_code(c) == Some(u@),
                None => char_code(c) is None,
            },
    {
        let t = table();
        let mut found: Option<u8> = None;
        let mut i: usize = 0;
        while i < 121
            invariant
                t@ == undigyte_table(),
                i <= 121,
                match found {
                    Some(k) => k < i && undigyte_table()[k as int] == c && forall|j: int|
                        k < j < i ==> undigyte_table()[j] != c,
                    None => forall|j: int| 0 <= j < i ==> undigyte_table()[j] != c,
                },
            decreases 121 - i,
        {
            if t[i] == c {
                found = Some(i as u8);
            }
            i += 1;
        }
        match found {
            Some(k) => {
                proof {
                    let w = choose|w: nat|
                        w < 121 && undigyte_table()[w as int] == c && forall|j: int|
                            w < j < 121 ==> undigyte_table()[j] != c;
                    assert(w < 121 && undigyte_table()[w as int] == c && forall|j: int|
                        w < j < 121 ==> undigyte_table()[j] != c);
                    if w < k {
                        assert(undigyte_table()[k as int] != c);
                    }
                    if k < w {
                        assert(undigyte_table()[w as int] != c);
                    }
                }
                Some(Undigyte(k))
            },
            None => None,
        }
    }

    /// Addition modulo 121.
    pub fn wrapping_add(self, rhs: Self) -> (r: Self)
        requires
            self@ + rhs@ <= 255,
        ensures
            r@ == (self@ + rhs@) % 121,
    {
        Undigyte((self.0 + rhs.0) % 121)
    }

    /// Subtraction modulo 121, computed as `(self + 121 - rhs) mod 121`.
    pub fn wrapping_sub(self, rhs: Self) -> (r: Self)
        requires
            self@ + 121 <= 255,
            rhs@ <= self@ + 121,
        ensures
            r@ == ((self@ + 121 - rhs@) as nat) % 121,
    {
        Undigyte((self.0 + 121 - rhs.0) % 121)
    }

    /// Multiplication modulo 121.
    pub fn wrapping_mul(self, rhs: Self) -> (r: Self)
        ensures
            r@ == (self@ * rhs@) % 121,
    {
        let a = self.0 as u16;
        let b = rhs.0 as u16;
        assert(a * b <= 255 * 255) by (nonlinear_arith)
            requires
                a <= 255,
                b <= 255,
        ;
        Undigyte(((a * b) % 121) as u8)
    }

    /// Integer division, reduced modulo 121; `None` for a zero divisor.
    pub fn checked_div(self, rhs: Self) -> (r: Option<Self>)
        ensures
            r is None <==> rhs@ == 0,
            r matches Some(q) ==> q@ == (self@ / rhs@) % 121,
    {
        if rhs.0 == 0 {
            return None;
        }
        Some(Undigyte((self.0 / rhs.0) % 121))
    }

    /// Remainder; `None` for a zero divisor.
    pub fn checked_mod(self, rhs: Self) -> (r: Option<Self>)
        ensures
            r is None <==> rhs@ == 0,
            r matches Some(q) ==> q@ == self@ % rhs@,
    {
        if rhs.0 == 0 {
            return None;
        }
        Some(Undigyte(self.0 % rhs.0))
    }

    /// Negation modulo 121.
    pub fn wrapping_neg(self) -> (r: Self)
        requires
            self@ <= 121,
        ensures
            r@ == ((121 - self@) as nat) % 121,
    {
        Undigyte((121 - self.0) % 121)
    }

    /// The signed reading: up to 60 the value itself, above it the value
    /// minus 121 (computed in `i8`).
    pub fn as_signed(self) -> (r: i8)
        requires
            self@ <= 60 || (self.0 as i8) - 121 >= -128,
        ensures
            r == (if self@ <= 60 {
                (self.0 as i8) as int
            } else {
                (self.0 as i8) - 121
            }),
    {
        if self.0 <= 60 {
            self.0 as i8
        } else {
            self.0 as i8 - 121
        }
    }

    /// The `0u` notation, as the debugger and `outu` print it.
    pub fn notation(self) -> (r: Vec<char>)
        ensures
            r@ == notation(self@),
    {
        let ud = self.as_undigits();
        let mut v = chars_of("0u");
        if ud.hi == 10 {
            v.push('X');
        } else {
            push_decimal(&mut v, ud.hi as u64);
        }
        if ud.lo == 10 {
            v.push('X');
        } else {
            push_decimal(&mut v, ud.lo as u64);
        }
        proof {
            if ud.hi == 10 {
                assert(undigit_text((self@ / 11) as nat) =~= seq!['X']);
            }
            if ud.lo == 10 {
                assert(undigit_text((self@ % 11) as nat) =~= seq!['X']);
            }
            assert(v@ =~= notation(self@));
        }
        v
    }

    /// The decimal numeral of the value, as `outd` prints it.
    pub fn decimal_text(self) -> (r: Vec<char>)
        ensures
            r@ == decimal(self@),
    {
        let mut v: Vec<char> = Vec::new();
        push_decimal(&mut v, self.0 as u64);
        assert(v@ =~= decimal(self@));
        v
    }

    /// Reads an undigyte (see `parse_spec`).
    pub fn parse(s: &[char]) -> (r: Result<Undigyte, ParseUndigyteError>)
        ensures
            match r {
                Ok(u) => parse_spec(s@) == Ok::<nat, Seq<char>>(u@),
                Err(e) => parse_spec(s@) == Err::<nat, Seq<char>>(e.0@),
            },
    {
        let t = trim_chars(s);
        let tlen = t.len();
        if tlen >= 2 && t[0] == '0' && (t[1] == 'u' || t[1] == 'U') {
            if tlen != 4 {
                let mut m = chars_of("'");
                append_chars(&mut m, t.as_slice());
                append_str(&mut m, "' must have exactly 2 undigits after 0u");
                proof {
                    assert(m@ =~= "'"@ + t@ + "' must have exactly 2 undigits after 0u"@);
                }
                return Err(ParseUndigyteError(string_of(m.as_slice())));
            }
            let ghost ds = t@.skip(2);
            assert(ds[0] == t@[2] && ds[1] == t@[3] && ds.len() == 2);
            let hi = match undigit(t[2]) {
                Some(d) => d,
                None => {
                    let m = bad_undigit_text(t[2], t.as_slice());
                    return Err(ParseUndigyteError(string_of(m.as_slice())));
                },
            };
            let lo = match undigit(t[3]) {
                Some(d) => d,
                None => {
                    let m = bad_undigit_text(t[3], t.as_slice());
                    return Err(ParseUndigyteError(string_of(m.as_slice())));
                },
            };
            return Ok(Undigyte(hi * 11 + lo));
        }
        match parse_u16(t.as_slice()) {
            None => {
                let mut m = chars_of("'");
                append_chars(&mut m, t.as_slice());
                append_str(&mut m, "' is not a valid number");
                proof {
                    assert(m@ =~= "'"@ + t@ + "' is not a valid number"@);
                }
                Err(ParseUndigyteError(string_of(m.as_slice())))
            },
            Some(n) => {
                if n > 120 {
                    let mut m: Vec<char> = Vec::new();
                    push_decimal(&mut m, n as u64);
                    append_str(&mut m, " out of range 0..=120");
                    proof {
                        assert(m@ =~= decimal(n as nat) + " out of range 0..=120"@);
                    }
                    Err(ParseUndigyteError(string_of(m.as_slice())))
                } else {
                    Ok(Undigyte(n as u8))
                }
            },
        }
    }
}

impl std::ops::Add for Undigyte {
    type Output = Undigyte;

    /// Addition modulo 121 (see `wrapping_add`).
    fn add(self, rhs: Undigyte) -> Undigyte {
        self.wrapping_add(rhs)
    }
}

impl vstd::std_specs::ops::AddSpecImpl for Undigyte {
    open spec fn obeys_add_spec() -> bool {
        true
    }

    open spec fn add_req(self, rhs: Undigyte) -> bool {
        self@ + rhs@ <= 255
    }

    open spec fn add_spec(self, rhs: Undigyte) -> Undigyte {
        Undigyte(((self@ + rhs@) % 121) as u8)
    }
}

impl std::ops::Sub for Undigyte {
    type Output = Undigyte;

    /// Subtraction modulo 121 (see `wrapping_sub`).
    fn sub(self, rhs: Undigyte) -> Undigyte {
        self.wrapping_sub(rhs)
    }
}

impl vstd::std_specs::ops::SubSpecImpl for Undigyte {
    open spec fn obeys_sub_spec() -> bool {
        true
    }

    open spec fn sub_req(self, rhs: Undigyte) -> bool {
        self@ + 121 <= 255 && rhs@ <= self@ + 121
    }

    open spec fn sub_spec(self, rhs: Undigyte) -> Undigyte {
        Undigyte((((self@ + 121 - rhs@) as nat) % 121) as u8)
    }
}

impl std::ops::Mul for Undigyte {
    type Output = Undigyte;

    /// Multiplication modulo 121 (see `wrapping_mul`).
    fn mul(self, rhs: Undigyte) -> Undigyte {
        self.wrapping_mul(rhs)
    }
}

impl vstd::std_specs::ops::MulSpecImpl for Undigyte {
    open spec fn obeys_mul_spec() -> bool {
        true
    }

    open spec fn mul_req(self, rhs: Undigyte) -> bool {
        true
    }

    open spec fn mul_spec(self, rhs: Undigyte) -> Undigyte {
        Undigyte(((self@ * rhs@) % 121) as u8)
    }
}

impl std::ops::Neg for Undigyte {
    type Output = Undigyte;

    /// Negation modulo 121 (see `wrapping_neg`).
    fn neg(self) -> Undigyte {
        self.wrapping_neg()
    }
}

impl vstd::std_specs::ops::NegSpecImpl for Undigyte {
    open spec fn obeys_neg_spec() -> bool {
        true
    }

    open spec fn neg_req(self) -> bool {
        self@ <= 121
    }

    open spec fn neg_spec(self) -> Undigyte {
        Undigyte((((121 - self@) as nat) % 121) as u8)
    }
}

impl std::str::FromStr for Undigyte {
    type Err = ParseUndigyteError;

    /// Reads an undigyte from text (see `parse_spec`).
    fn from_str(s: &str) -> (r: Result<Undigyte, ParseUndigyteError>)
        ensures
            match r {
                Ok(u) => parse_spec(s@) == Ok::<nat, Seq<char>>(u@),
                Err(e) => parse_spec(s@) == Err::<nat, Seq<char>>(e.0@),
            },
    {
        let cs = chars_of(s);
        Undigyte::parse(cs.as_slice())
    }
}

/// The value of an undigit character.
fn undigit(c: char) -> (r: Option<u8>)
    ensures
        match r {
            Some(d) => undigit_value(c) == Some(d as nat),
            None => undigit_value(c) is None,
        },
{
    if '0' <= c && c <= '9' {
        Some((c as u32 - '0' as u32) as u8)
    } else if c == 'X' || c == 'x' {
        Some(10)
    } else {
        None
    }
}

/// `invalid undigit '<c>' in '<t>'`.
fn bad_undigit_text(c: char, t: &[char]) -> (m: Vec<char>)
    ensures
        m@ == "invalid undigit '"@ + seq![c] + "' in '"@ + t@ + "'"@,
{
    let mut m = chars_of("invalid undigit '");
    m.push(c);
    append_str(&mut m, "' in '");
    append_chars(&mut m, t);
    append_str(&mut m, "'");
    assert(m@ =~= "invalid undigit '"@ + seq![c] + "' in '"@ + t@ + "'"@);
    m
}

} // verus!
