//! `RadixByte<BASE, DIGITS>`: a machine word made of `DIGITS` digits in base
//! `BASE`, stored as its value in a `u16`. Arithmetic wraps modulo
//! `BASE^DIGITS`; the digit-wise operations work on the base-`BASE` digits,
//! most significant first.
use crate::positional::{
    digits_of, horner, lemma_digits_of_below, lemma_digits_of_index, lemma_digits_of_len,
    lemma_horner_bounded_entries, lemma_horner_prefix, lemma_horner_step, lemma_power_monotone,
    lemma_power_of_one, lemma_power_positive, power,
};
use vstd::arithmetic::div_mod::{
    lemma_div_denominator, lemma_fundamental_div_mod, lemma_mod_pos_bound, lemma_small_mod,
};
use vstd::prelude::*;

verus! {

/// A word of `DIGITS` digits in base `BASE`.
#[derive(Clone, Copy, PartialEq, Eq, PartialOrd, Ord, Default, Debug)]
pub struct RadixByte<const BASE: u16, const DIGITS: usize>(u16);

impl<const BASE: u16, const DIGITS: usize> View for RadixByte<BASE, DIGITS> {
    type V = nat;

    closed spec fn view(&self) -> nat {
        self.0 as nat
    }
}

impl<const BASE: u16, const DIGITS: usize> RadixByte<BASE, DIGITS> {
    /// The number of distinct words, `BASE^DIGITS`.
    pub open spec fn modulus_nat() -> nat {
        power(BASE as nat, DIGITS as nat)
    }

    /// The parameters describe a word that fits the `u16` it is stored in.
    pub open spec fn params_ok() -> bool {
        &&& BASE >= 1
        &&& Self::modulus_nat() <= 0x10000
    }

    /// The value is one of the `BASE^DIGITS` words.
    pub open spec fn in_range(self) -> bool {
        self@ < Self::modulus_nat()
    }

    /// The digits of `v`, most significant first.
    pub open spec fn digit_values(v: nat) -> Seq<nat> {
        digits_of(v, BASE as nat, DIGITS as nat)
    }

    /// The digits of `v` as bytes, as `digits` hands them out.
    pub open spec fn digit_bytes(v: nat) -> Seq<u8> {
        Self::digit_values(v).map_values(|d: nat| d as u8)
    }

    /// The number whose base-`BASE` digits are `s`.
    pub open spec fn value_of_bytes(s: Seq<u8>) -> nat {
        horner(s.map_values(|d: u8| d as nat), BASE as nat)
    }

    pub open spec fn add_spec(a: nat, b: nat) -> nat {
        (a + b) % Self::modulus_nat()
    }

    pub open spec fn sub_spec(a: nat, b: nat) -> nat {
        ((Self::modulus_nat() + a - b) as nat) % Self::modulus_nat()
    }

    pub open spec fn mul_spec(a: nat, b: nat) -> nat {
        (a * b) % Self::modulus_nat()
    }

    pub open spec fn neg_spec(a: nat) -> nat {
        ((Self::modulus_nat() - a) as nat) % Self::modulus_nat()
    }

    /// The digits of `v` with each digit `d` replaced by `(BASE^DIGITS - 1 - d) mod 256`.
    pub open spec fn dnot_bytes(v: nat) -> Seq<u8> {
        Self::digit_bytes(v).map_values(
            |d: u8| (((Self::modulus_nat() - 1 - d) as nat) % 256) as u8,
        )
    }

    /// The digit-wise minimum of the digits of `a` and `b`.
    pub open spec fn dmin_bytes(a: nat, b: nat) -> Seq<u8> {
        Seq::new(
            DIGITS as nat,
            |i: int|
                if Self::digit_bytes(a)[i] < Self::digit_bytes(b)[i] {
                    Self::digit_bytes(a)[i]
                } else {
                    Self::digit_bytes(b)[i]
                },
        )
    }

    /// The digit-wise maximum of the digits of `a` and `b`.
    pub open spec fn dmax_bytes(a: nat, b: nat) -> Seq<u8> {
        Seq::new(
            DIGITS as nat,
            |i: int|
                if Self::digit_bytes(a)[i] > Self::digit_bytes(b)[i] {
                    Self::digit_bytes(a)[i]
                } else {
                    Self::digit_bytes(b)[i]
                },
        )
    }

    /// The value of the digit-wise minimum of `a` and `b`, as `dmin` computes it.
    pub open spec fn dmin_value(a: nat, b: nat) -> nat {
        Self::value_of_bytes(Self::dmin_bytes(a, b)) % 0x10000
    }

    /// The value of the digit-wise maximum of `a` and `b`, as `dmax` computes it.
    pub open spec fn dmax_value(a: nat, b: nat) -> nat {
        Self::value_of_bytes(Self::dmax_bytes(a, b)) % 0x10000
    }

    /// The signed reading of `a`: values up to half of the largest word stand
    /// for themselves, larger ones for themselves minus the modulus, computed
    /// in `i16` as the words are.
    pub open spec fn signed_spec(a: nat) -> int {
        if a as nat <= ((Self::modulus_nat() - 1) as nat) / 2 {
            (a as i16) as int
        } else {
            (a as i16) as int - ((Self::modulus_nat() as u32) as i16) as int
        }
    }

    /// `BASE^DIGITS`, computed.
    pub fn modulus() -> (m: u32)
        requires
            Self::params_ok(),
        ensures
            m == Self::modulus_nat(),
    {
        let mut m: u32 = 1;
        let mut i: usize = 0;
        while i < DIGITS
            invariant
                Self::params_ok(),
                i <= DIGITS,
                m == power(BASE as nat, i as nat),
            decreases DIGITS - i,
        {
            proof {
                lemma_power_monotone(BASE as nat, (i + 1) as nat, DIGITS as nat);
                assert(power(BASE as nat, (i + 1) as nat) == BASE * power(BASE as nat, i as nat));
                assert(BASE * m == m * BASE) by (nonlinear_arith);
            }
            m = m * (BASE as u32);
            i += 1;
        }
        m
    }

    /// The word 0.
    pub fn min_value() -> (r: Self)
        ensures
            r@ == 0,
    {
        RadixByte(0)
    }

    /// The largest word, `BASE^DIGITS - 1`.
    pub fn max_value() -> (r: Self)
        requires
            Self::params_ok(),
        ensures
            r@ == Self::modulus_nat() - 1,
    {
        proof {
            lemma_power_positive(BASE as nat, DIGITS as nat);
        }
        RadixByte((Self::modulus() - 1) as u16)
    }

    /// The word with value `raw`.
    pub fn new(raw: u16) -> (r: Self)
        requires
            Self::params_ok(),
            raw < Self::modulus_nat(),
        ensures
            r@ == raw,
    {
        RadixByte(raw)
    }

    /// The value of the word.
    pub fn get(self) -> (r: u16)
        ensures
            r == self@,
    {
        self.0
    }

    /// The digits of the word, most significant first.
    pub fn digits(self) -> (out: [u8; DIGITS])
        requires
            Self::params_ok(),
        ensures
            out@ == Self::digit_bytes(self@),
    {
        let ghost v = self@;
        let ghost b = BASE as nat;
        let mut out = [0u8; DIGITS];
        let mut val = self.0;
        let mut i = DIGITS;
        proof {
            assert(power(b, 0) == 1);
            assert(v / 1 == v);
        }
        while i > 0
            invariant
                Self::params_ok(),
                b == BASE,
                v == self@,
                i <= DIGITS,
                out@.len() == DIGITS,
                val == v / power(b, (DIGITS - i) as nat),
                forall|j: int|
                    i <= j < DIGITS ==> out@[j] == ((v / power(b, (DIGITS - 1 - j) as nat)) % b) as u8,
            decreases i,
        {
            i -= 1;
            proof {
                lemma_power_positive(b, (DIGITS - 1 - i) as nat);
                lemma_div_denominator(v as int, power(b, (DIGITS - 1 - i) as nat) as int, b as int);
                assert(power(b, (DIGITS - i) as nat) == b * power(b, (DIGITS - 1 - i) as nat));
                assert(b * power(b, (DIGITS - 1 - i) as nat) == power(b, (DIGITS - 1 - i) as nat) * b)
                    by (nonlinear_arith);
            }
            out[i] = (val % BASE) as u8;
            val = val / BASE;
        }
        proof {
            lemma_digits_of_len(v, b, DIGITS as nat);
            assert forall|j: int| 0 <= j < DIGITS implies out@[j] == Self::digit_bytes(v)[j] by {
                lemma_digits_of_index(v, b, DIGITS as nat, j);
            }
            assert(out@ =~= Self::digit_bytes(v));
        }
        out
    }

    /// The word whose digits, most significant first, are `digits`; the value
    /// is computed in `u32` and kept to its low 16 bits.
    pub fn from_digits(digits: [u8; DIGITS]) -> (r: Self)
        requires
            Self::params_ok(),
            Self::value_of_bytes(digits@) <= u32::MAX,
        ensures
            r@ == Self::value_of_bytes(digits@) % 0x10000,
    {
        let ghost s = digits@.map_values(|d: u8| d as nat);
        let ghost b = BASE as nat;
        let mut val: u32 = 0;
        let mut i: usize = 0;
        proof {
            assert(s.take(0).len() == 0);
        }
        while i < DIGITS
            invariant
                Self::params_ok(),
                b == BASE,
                s == digits@.map_values(|d: u8| d as nat),
                s.len() == DIGITS,
                horner(s, b) <= u32::MAX,
                i <= DIGITS,
                val == horner(s.take(i as int), b),
            decreases DIGITS - i,
        {
            proof {
                lemma_horner_step(s, b, i as int);
                lemma_horner_prefix(s, b, i + 1);
                assert(s[i as int] == digits@[i as int] as nat);
            }
            val = val * (BASE as u32) + digits[i] as u32;
            i += 1;
        }
        proof {
            assert(s.take(DIGITS as int) =~= s);
            assert((val as u16) == val % 0x10000) by (bit_vector);
        }
        RadixByte(val as u16)
    }

    /// Addition modulo `BASE^DIGITS`.
    pub fn wrapping_add(self, rhs: Self) -> (r: Self)
        requires
            Self::params_ok(),
        ensures
            r@ == Self::add_spec(self@, rhs@),
    {
        let m = Self::modulus();
        proof {
            lemma_power_positive(BASE as nat, DIGITS as nat);
            lemma_mod_pos_bound((self@ + rhs@) as int, m as int);
        }
        RadixByte(((self.0 as u32 + rhs.0 as u32) % m) as u16)
    }

    /// Subtraction modulo `BASE^DIGITS`, computed as `(modulus + self - rhs) mod modulus`.
    pub fn wrapping_sub(self, rhs: Self) -> (r: Self)
        requires
            Self::params_ok(),
            rhs@ <= Self::modulus_nat() + self@,
        ensures
            r@ == Self::sub_spec(self@, rhs@),
    {
        let m = Self::modulus();
        proof {
            lemma_power_positive(BASE as nat, DIGITS as nat);
            lemma_mod_pos_bound(m + self@ - rhs@, m as int);
        }
        RadixByte(((m + self.0 as u32 - rhs.0 as u32) % m) as u16)
    }

    /// Multiplication modulo `BASE^DIGITS`.
    pub fn wrapping_mul(self, rhs: Self) -> (r: Self)
        requires
            Self::params_ok(),
        ensures
            r@ == Self::mul_spec(self@, rhs@),
    {
        let m = Self::modulus();
        let a = self.0 as u32;
        let b = rhs.0 as u32;
        proof {
            lemma_power_positive(BASE as nat, DIGITS as nat);
            assert(a * b <= 0xffff * 0xffff) by (nonlinear_arith)
                requires
                    a <= 0xffff,
                    b <= 0xffff,
            ;
            lemma_mod_pos_bound((a * b) as int, m as int);
        }
        RadixByte(((a * b) % m) as u16)
    }

    /// Integer division, reduced modulo `BASE^DIGITS` (computed in `u16`);
    /// `None` for a zero divisor.
    pub fn checked_div(self, rhs: Self) -> (r: Option<Self>)
        requires
            Self::params_ok(),
            rhs@ == 0 || Self::modulus_nat() < 0x10000,
        ensures
            r is None <==> rhs@ == 0,
            r matches Some(q) ==> q@ == (self@ / rhs@) % Self::modulus_nat(),
    {
        if rhs.0 == 0 {
            return None;
        }
        let m = Self::modulus();
        proof {
            lemma_power_positive(BASE as nat, DIGITS as nat);
        }
        Some(RadixByte((self.0 / rhs.0) % (m as u16)))
    }

    /// Remainder; `None` for a zero divisor.
    pub fn checked_mod(self, rhs: Self) -> (r: Option<Self>)
        ensures
            r is None <==> rhs@ == 0,
            r matches Some(q) ==> q@ == self@ % rhs@,
    {
        if rhs.0 == 0 {
            return None;
        }
        Some(RadixByte(self.0 % rhs.0))
    }

    /// Negation modulo `BASE^DIGITS`.
    pub fn wrapping_neg(self) -> (r: Self)
        requires
            Self::params_ok(),
            self@ <= Self::modulus_nat(),
        ensures
            r@ == Self::neg_spec(self@),
    {
        let m = Self::modulus();
        proof {
            lemma_power_positive(BASE as nat, DIGITS as nat);
            lemma_mod_pos_bound(m - self@, m as int);
        }
        RadixByte(((m - self.0 as u32) % m) as u16)
    }

    /// Each digit of a word is at most `BASE^DIGITS - 1` and fits a byte.
    proof fn lemma_digit_bytes_small(v: nat)
        requires
            Self::params_ok(),
        ensures
            Self::digit_bytes(v).len() == DIGITS,
            forall|j: int|
                0 <= j < DIGITS ==> #[trigger] Self::digit_bytes(v)[j] as nat
                    <= Self::modulus_nat() - 1,
    {
        let b = BASE as nat;
        lemma_digits_of_len(v, b, DIGITS as nat);
        lemma_digits_of_below(v, b, DIGITS as nat);
        assert forall|j: int| 0 <= j < DIGITS implies #[trigger] Self::digit_bytes(v)[j] as nat
            <= Self::modulus_nat() - 1 by {
            let d = Self::digit_values(v)[j];
            assert(d < b);
            lemma_power_monotone(b, 1, DIGITS as nat);
            assert(power(b, 0) == 1);
            assert(power(b, 1) == b * power(b, 0));
            assert(b <= Self::modulus_nat());
            assert(Self::digit_bytes(v)[j] == d as u8);
            if d < 256 {
                assert((d as u8) as nat == d);
            } else {
                assert((d as u8) as nat <= 255);
            }
        }
    }

    /// Digits that are all at most `BASE^DIGITS - 1` evaluate within `u32`.
    proof fn lemma_small_digits_fit(s: Seq<u8>)
        requires
            Self::params_ok(),
            s.len() == DIGITS,
            forall|j: int| 0 <= j < DIGITS ==> #[trigger] s[j] as nat <= Self::modulus_nat() - 1,
        ensures
            Self::value_of_bytes(s) <= u32::MAX,
    {
        let b = BASE as nat;
        let m = Self::modulus_nat();
        let t = s.map_values(|d: u8| d as nat);
        lemma_power_positive(b, DIGITS as nat);
        let c: nat = if m - 1 < 255 { (m - 1) as nat } else { 255 };
        assert forall|i: int| 0 <= i < t.len() implies #[trigger] t[i] <= c by {
            assert(t[i] == s[i] as nat);
        }
        if b == 1 {
            lemma_power_of_one(DIGITS as nat);
        }
        lemma_horner_bounded_entries(t, b, c);
        assert(c * (m - 1) <= 255 * 0xffff) by (nonlinear_arith)
            requires
                c <= 255,
                m - 1 <= 0xffff,
                m >= 1,
        ;
    }

    /// Digit-wise complement: each digit `d` becomes `BASE^DIGITS - 1 - d`,
    /// kept to a byte, and the digits are read back.
    pub fn dnot(self) -> (r: Self)
        requires
            Self::params_ok(),
        ensures
            r@ == Self::value_of_bytes(Self::dnot_bytes(self@)) % 0x10000,
    {
        let mut digits = self.digits();
        let m = Self::modulus();
        let ghost orig = digits@;
        proof {
            Self::lemma_digit_bytes_small(self@);
            lemma_power_positive(BASE as nat, DIGITS as nat);
        }
        let mut i: usize = 0;
        while i < DIGITS
            invariant
                Self::params_ok(),
                m == Self::modulus_nat(),
                m >= 1,
                orig == Self::digit_bytes(self@),
                orig.len() == DIGITS,
                digits@.len() == DIGITS,
                i <= DIGITS,
                forall|j: int| 0 <= j < DIGITS ==> #[trigger] orig[j] as nat <= m - 1,
                forall|j: int| 0 <= j < i ==> digits@[j] == Self::dnot_bytes(self@)[j],
                forall|j: int| i <= j < DIGITS ==> digits@[j] == orig[j],
            decreases DIGITS - i,
        {
            let d = digits[i];
            assert(d as nat <= m - 1) by {
                assert(orig[i as int] as nat <= m - 1);
            }
            let x: u32 = m - 1 - d as u32;
            proof {
                assert((x as u8) == x % 256) by (bit_vector);
            }
            digits[i] = x as u8;
            i += 1;
        }
        proof {
            assert(digits@ =~= Self::dnot_bytes(self@));
            assert forall|j: int| 0 <= j < DIGITS implies #[trigger] digits@[j] as nat <= m - 1 by {
                assert(digits@[j] == Self::dnot_bytes(self@)[j]);
                assert(orig[j] as nat <= m - 1);
            }
            Self::lemma_small_digits_fit(digits@);
        }
        Self::from_digits(digits)
    }

    /// Digit-wise minimum of two words.
    pub fn dmin(self, rhs: Self) -> (r: Self)
        requires
            Self::params_ok(),
        ensures
            r@ == Self::dmin_value(self@, rhs@),
    {
        let mut digits1 = self.digits();
        let digits2 = rhs.digits();
        proof {
            Self::lemma_digit_bytes_small(self@);
            Self::lemma_digit_bytes_small(rhs@);
        }
        let ghost orig = digits1@;
        let mut i: usize = 0;
        while i < DIGITS
            invariant
                Self::params_ok(),
                orig == Self::digit_bytes(self@),
                digits2@ == Self::digit_bytes(rhs@),
                digits1@.len() == DIGITS,
                i <= DIGITS,
                forall|j: int| 0 <= j < i ==> digits1@[j] == Self::dmin_bytes(self@, rhs@)[j],
                forall|j: int| i <= j < DIGITS ==> digits1@[j] == orig[j],
            decreases DIGITS - i,
        {
            digits1[i] = if digits1[i] < digits2[i] {
                digits1[i]
            } else {
                digits2[i]
            };
            i += 1;
        }
        proof {
            assert(digits1@ =~= Self::dmin_bytes(self@, rhs@));
            assert forall|j: int| 0 <= j < DIGITS implies #[trigger] digits1@[j] as nat
                <= Self::modulus_nat() - 1 by {
                assert(Self::digit_bytes(self@)[j] as nat <= Self::modulus_nat() - 1);
                assert(Self::digit_bytes(rhs@)[j] as nat <= Self::modulus_nat() - 1);
            }
            Self::lemma_small_digits_fit(digits1@);
        }
        Self::from_digits(digits1)
    }

    /// Digit-wise maximum of two words.
    pub fn dmax(self, rhs: Self) -> (r: Self)
        requires
            Self::params_ok(),
        ensures
            r@ == Self::dmax_value(self@, rhs@),
    {
        let mut digits1 = self.digits();
        let digits2 = rhs.digits();
        proof {
            Self::lemma_digit_bytes_small(self@);
            Self::lemma_digit_bytes_small(rhs@);
        }
        let ghost orig = digits1@;
        let mut i: usize = 0;
        while i < DIGITS
            invariant
                Self::params_ok(),
                orig == Self::digit_bytes(self@),
                digits2@ == Self::digit_bytes(rhs@),
                digits1@.len() == DIGITS,
                i <= DIGITS,
                forall|j: int| 0 <= j < i ==> digits1@[j] == Self::dmax_bytes(self@, rhs@)[j],
                forall|j: int| i <= j < DIGITS ==> digits1@[j] == orig[j],
            decreases DIGITS - i,
        {
            digits1[i] = if digits1[i] > digits2[i] {
                digits1[i]
            } else {
                digits2[i]
            };
            i += 1;
        }
        proof {
            assert(digits1@ =~= Self::dmax_bytes(self@, rhs@));
            assert forall|j: int| 0 <= j < DIGITS implies #[trigger] digits1@[j] as nat
                <= Self::modulus_nat() - 1 by {
                assert(Self::digit_bytes(self@)[j] as nat <= Self::modulus_nat() - 1);
                assert(Self::digit_bytes(rhs@)[j] as nat <= Self::modulus_nat() - 1);
            }
            Self::lemma_small_digits_fit(digits1@);
        }
        Self::from_digits(digits1)
    }

    /// The signed reading of the word (see `signed_spec`).
    pub fn as_signed(self) -> (r: i16)
        requires
            Self::params_ok(),
            self@ <= ((Self::modulus_nat() - 1) as nat) / 2 || i16::MIN <= (self@ as i16) as int
                - ((Self::modulus_nat() as u32) as i16) as int <= i16::MAX,
        ensures
            r == Self::signed_spec(self@),
    {
        let m = Self::modulus();
        proof {
            lemma_power_positive(BASE as nat, DIGITS as nat);
        }
        let max = (m - 1) as u16;
        if self.0 <= max / 2 {
            self.0 as i16
        } else {
            self.0 as i16 - m as i16
        }
    }
}

} // verus!
