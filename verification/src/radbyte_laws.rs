//! Laws of `RadixByte`: its digits and its value determine each other, and its
//! arithmetic is arithmetic modulo `BASE^DIGITS`.
use crate::positional::{
    all_below, digits_of, horner, lemma_digits_of_below, lemma_digits_of_horner,
    lemma_digits_of_index, lemma_digits_of_len, lemma_horner_all_top, lemma_horner_below,
    lemma_horner_digits_of, lemma_horner_monotone, lemma_power_positive, power,
};
use crate::radbyte::RadixByte;
use vstd::arithmetic::div_mod::{
    lemma_add_mod_noop, lemma_mod_pos_bound, lemma_mod_self_0, lemma_small_mod,
    lemma_fundamental_div_mod, lemma_div_is_ordered_by_denominator, lemma_mod_twice,
};
use vstd::prelude::*;

verus! {

/// Reading back the digits of a word gives the word: `from_digits(x.digits()) == x`
/// (bases of at most 256, where a digit fits its byte).
pub proof fn law_digits_then_from_digits<const B: u16, const D: usize>(x: RadixByte<B, D>)
    requires
        RadixByte::<B, D>::params_ok(),
        B <= 256,
        x.in_range(),
    ensures
        RadixByte::<B, D>::value_of_bytes(RadixByte::<B, D>::digit_bytes(x@)) == x@,
        RadixByte::<B, D>::value_of_bytes(RadixByte::<B, D>::digit_bytes(x@)) % 0x10000 == x@,
{
    let b = B as nat;
    let ds = RadixByte::<B, D>::digit_values(x@);
    lemma_digits_of_len(x@, b, D as nat);
    lemma_digits_of_below(x@, b, D as nat);
    let back = RadixByte::<B, D>::digit_bytes(x@).map_values(|d: u8| d as nat);
    assert forall|i: int| 0 <= i < ds.len() implies back[i] == ds[i] by {
        assert(ds[i] < b);
        assert((ds[i] as u8) as nat == ds[i]);
    }
    assert(back =~= ds);
    lemma_horner_digits_of(x@, b, D as nat);
    lemma_small_mod(x@, RadixByte::<B, D>::modulus_nat());
    lemma_small_mod(x@, 0x10000);
}

/// Splitting a word built from digits gives those digits back:
/// `from_digits(ds).digits() == ds` for digits below the base.
pub proof fn law_from_digits_then_digits<const B: u16, const D: usize>(ds: Seq<u8>)
    requires
        RadixByte::<B, D>::params_ok(),
        ds.len() == D,
        forall|i: int| 0 <= i < D ==> #[trigger] ds[i] < B,
    ensures
        RadixByte::<B, D>::value_of_bytes(ds) < RadixByte::<B, D>::modulus_nat(),
        RadixByte::<B, D>::digit_bytes(RadixByte::<B, D>::value_of_bytes(ds) % 0x10000) == ds,
{
    let b = B as nat;
    let s = ds.map_values(|d: u8| d as nat);
    assert(all_below(s, b)) by {
        assert forall|i: int| 0 <= i < s.len() implies #[trigger] s[i] < b by {
            assert(s[i] == ds[i] as nat);
        }
    }
    lemma_horner_below(s, b);
    let v = horner(s, b);
    lemma_small_mod(v, 0x10000);
    lemma_digits_of_horner(s, b);
    let back = RadixByte::<B, D>::digit_bytes(v);
    assert forall|i: int| 0 <= i < ds.len() implies back[i] == ds[i] by {
        assert(s[i] == ds[i] as nat);
    }
    assert(back =~= ds);
}

/// Subtracting what was added gives the word back.
pub proof fn law_add_then_sub<const B: u16, const D: usize>(a: nat, b: nat)
    requires
        RadixByte::<B, D>::params_ok(),
        a < RadixByte::<B, D>::modulus_nat(),
        b < RadixByte::<B, D>::modulus_nat(),
    ensures
        RadixByte::<B, D>::sub_spec(RadixByte::<B, D>::add_spec(a, b), b) == a,
{
    let m = RadixByte::<B, D>::modulus_nat();
    lemma_power_positive(B as nat, D as nat);
    let s = (a + b) % m;
    lemma_small_mod(a, m);
    lemma_mod_self_plus(a, m);
    if a + b < m {
        lemma_small_mod(a + b, m);
        assert(s == a + b);
        assert((m + s - b) as nat == m + a);
    } else {
        lemma_mod_self_plus((a + b - m) as nat, m);
        lemma_small_mod((a + b - m) as nat, m);
        assert(s == a + b - m);
        assert((m + s - b) as nat == a);
    }
}

/// `(m + x) % m == x % m`.
proof fn lemma_mod_self_plus(x: nat, m: nat)
    requires
        m > 0,
    ensures
        (m + x) % m == x % m,
{
    lemma_add_mod_noop(m as int, x as int, m as int);
    lemma_mod_self_0(m as int);
    lemma_mod_twice(x as int, m as int);
}

/// Addition does not depend on the order of its operands.
pub proof fn law_add_commutes<const B: u16, const D: usize>(a: nat, b: nat)
    ensures
        RadixByte::<B, D>::add_spec(a, b) == RadixByte::<B, D>::add_spec(b, a),
{
}

/// A word plus its negation is zero.
pub proof fn law_add_neg_is_zero<const B: u16, const D: usize>(a: nat)
    requires
        RadixByte::<B, D>::params_ok(),
        a < RadixByte::<B, D>::modulus_nat(),
    ensures
        RadixByte::<B, D>::add_spec(a, RadixByte::<B, D>::neg_spec(a)) == 0,
{
    let m = RadixByte::<B, D>::modulus_nat();
    lemma_power_positive(B as nat, D as nat);
    if a == 0 {
        lemma_mod_self_0(m as int);
        lemma_small_mod(0, m);
    } else {
        lemma_small_mod((m - a) as nat, m);
        lemma_mod_self_0(m as int);
    }
}

/// Subtraction is addition of the negation.
pub proof fn law_sub_is_add_neg<const B: u16, const D: usize>(a: nat, b: nat)
    requires
        RadixByte::<B, D>::params_ok(),
        a < RadixByte::<B, D>::modulus_nat(),
        b < RadixByte::<B, D>::modulus_nat(),
    ensures
        RadixByte::<B, D>::sub_spec(a, b) == RadixByte::<B, D>::add_spec(
            a,
            RadixByte::<B, D>::neg_spec(b),
        ),
{
    let m = RadixByte::<B, D>::modulus_nat();
    lemma_power_positive(B as nat, D as nat);
    if b == 0 {
        lemma_mod_self_0(m as int);
        lemma_mod_self_plus(a, m);
    } else {
        lemma_small_mod((m - b) as nat, m);
    }
}

/// Every arithmetic result is a word in range.
pub proof fn law_results_in_range<const B: u16, const D: usize>(a: nat, b: nat)
    requires
        RadixByte::<B, D>::params_ok(),
    ensures
        RadixByte::<B, D>::add_spec(a, b) < RadixByte::<B, D>::modulus_nat(),
        RadixByte::<B, D>::sub_spec(a, b) < RadixByte::<B, D>::modulus_nat(),
        RadixByte::<B, D>::mul_spec(a, b) < RadixByte::<B, D>::modulus_nat(),
        RadixByte::<B, D>::neg_spec(a) < RadixByte::<B, D>::modulus_nat(),
{
    let m = RadixByte::<B, D>::modulus_nat();
    lemma_power_positive(B as nat, D as nat);
    lemma_mod_pos_bound((a + b) as int, m as int);
    lemma_mod_pos_bound(((m + a - b) as nat) as int, m as int);
    lemma_mod_pos_bound((a * b) as int, m as int);
    lemma_mod_pos_bound(((m - a) as nat) as int, m as int);
}

/// Quotient and remainder of words in range recombine to the dividend.
pub proof fn law_div_mod<const B: u16, const D: usize>(a: nat, b: nat)
    requires
        RadixByte::<B, D>::params_ok(),
        a < RadixByte::<B, D>::modulus_nat(),
        b > 0,
    ensures
        ((a / b) % RadixByte::<B, D>::modulus_nat()) * b + a % b == a,
{
    let m = RadixByte::<B, D>::modulus_nat();
    lemma_fundamental_div_mod(a as int, b as int);
    assert(a / b <= a) by {
        lemma_div_is_ordered_by_denominator(a as int, 1, b as int);
    }
    lemma_small_mod(a / b, m);
    assert((a / b) * b == b * (a / b)) by (nonlinear_arith);
}

/// Digit-wise minimum and maximum do not depend on the order of their operands.
pub proof fn law_dmin_dmax_commute<const B: u16, const D: usize>(a: nat, b: nat)
    ensures
        RadixByte::<B, D>::dmin_bytes(a, b) == RadixByte::<B, D>::dmin_bytes(b, a),
        RadixByte::<B, D>::dmax_bytes(a, b) == RadixByte::<B, D>::dmax_bytes(b, a),
{
    assert(RadixByte::<B, D>::dmin_bytes(a, b) =~= RadixByte::<B, D>::dmin_bytes(b, a));
    assert(RadixByte::<B, D>::dmax_bytes(a, b) =~= RadixByte::<B, D>::dmax_bytes(b, a));
}

/// The digit-wise minimum or maximum of a word with itself is the word.
pub proof fn law_dmin_dmax_idempotent<const B: u16, const D: usize>(x: RadixByte<B, D>)
    requires
        RadixByte::<B, D>::params_ok(),
        B <= 256,
        x.in_range(),
    ensures
        RadixByte::<B, D>::value_of_bytes(RadixByte::<B, D>::dmin_bytes(x@, x@)) % 0x10000 == x@,
        RadixByte::<B, D>::value_of_bytes(RadixByte::<B, D>::dmax_bytes(x@, x@)) % 0x10000 == x@,
{
    lemma_digits_of_len(x@, B as nat, D as nat);
    assert(RadixByte::<B, D>::dmin_bytes(x@, x@) =~= RadixByte::<B, D>::digit_bytes(x@));
    assert(RadixByte::<B, D>::dmax_bytes(x@, x@) =~= RadixByte::<B, D>::digit_bytes(x@));
    law_digits_then_from_digits(x);
}

/// For moduli that fit `i16`, the signed reading of a word in range is the word
/// itself up to half the largest word and the word minus the modulus above it.
pub proof fn law_signed_reading<const B: u16, const D: usize>(a: nat)
    requires
        RadixByte::<B, D>::params_ok(),
        RadixByte::<B, D>::modulus_nat() <= 0x7fff,
        a < RadixByte::<B, D>::modulus_nat(),
    ensures
        RadixByte::<B, D>::signed_spec(a) == if a <= ((RadixByte::<B, D>::modulus_nat() - 1) as nat)
            / 2 {
            a as int
        } else {
            a - RadixByte::<B, D>::modulus_nat()
        },
{
    let m = RadixByte::<B, D>::modulus_nat();
    assert((a as i16) as int == a);
    assert(((m as u32) as i16) as int == m);
}

/// The digits of a word in range are bytes below the base that read back as
/// the word.
proof fn lemma_digit_bytes_of<const B: u16, const D: usize>(v: nat)
    requires
        RadixByte::<B, D>::params_ok(),
        B <= 256,
        v < RadixByte::<B, D>::modulus_nat(),
    ensures
        RadixByte::<B, D>::digit_bytes(v).len() == D,
        forall|i: int| 0 <= i < D ==> #[trigger] RadixByte::<B, D>::digit_bytes(v)[i] < B,
        RadixByte::<B, D>::value_of_bytes(RadixByte::<B, D>::digit_bytes(v)) == v,
{
    let b = B as nat;
    let ds = RadixByte::<B, D>::digit_values(v);
    lemma_digits_of_len(v, b, D as nat);
    lemma_digits_of_below(v, b, D as nat);
    let back = RadixByte::<B, D>::digit_bytes(v).map_values(|d: u8| d as nat);
    assert forall|i: int| 0 <= i < ds.len() implies back[i] == ds[i] by {
        assert(ds[i] < b);
        assert((ds[i] as u8) as nat == ds[i]);
    }
    assert forall|i: int| 0 <= i < D implies #[trigger] RadixByte::<B, D>::digit_bytes(v)[i] < B by {
        assert(ds[i] < b);
        assert((ds[i] as u8) as nat == ds[i]);
    }
    assert(back =~= ds);
    lemma_horner_digits_of(v, b, D as nat);
    lemma_small_mod(v, RadixByte::<B, D>::modulus_nat());
}

/// Digits below the base make a word in range whose digits they are.
proof fn lemma_value_digits<const B: u16, const D: usize>(ds: Seq<u8>)
    requires
        RadixByte::<B, D>::params_ok(),
        ds.len() == D,
        forall|i: int| 0 <= i < D ==> #[trigger] ds[i] < B,
    ensures
        RadixByte::<B, D>::value_of_bytes(ds) < RadixByte::<B, D>::modulus_nat(),
        RadixByte::<B, D>::value_of_bytes(ds) % 0x10000 == RadixByte::<B, D>::value_of_bytes(ds),
        RadixByte::<B, D>::digit_bytes(RadixByte::<B, D>::value_of_bytes(ds)) == ds,
{
    law_from_digits_then_digits::<B, D>(ds);
    lemma_small_mod(RadixByte::<B, D>::value_of_bytes(ds), 0x10000);
}

/// The digits of the digit-wise minimum and maximum of two words in range are
/// the digit-wise minimum and maximum of their digits, and both are words in
/// range.
pub proof fn law_dmin_dmax_digits<const B: u16, const D: usize>(a: nat, b: nat)
    requires
        RadixByte::<B, D>::params_ok(),
        B <= 256,
        a < RadixByte::<B, D>::modulus_nat(),
        b < RadixByte::<B, D>::modulus_nat(),
    ensures
        RadixByte::<B, D>::dmin_value(a, b) < RadixByte::<B, D>::modulus_nat(),
        RadixByte::<B, D>::dmax_value(a, b) < RadixByte::<B, D>::modulus_nat(),
        RadixByte::<B, D>::digit_bytes(RadixByte::<B, D>::dmin_value(a, b))
            == RadixByte::<B, D>::dmin_bytes(a, b),
        RadixByte::<B, D>::digit_bytes(RadixByte::<B, D>::dmax_value(a, b))
            == RadixByte::<B, D>::dmax_bytes(a, b),
        RadixByte::<B, D>::dmin_value(a, b) == RadixByte::<B, D>::value_of_bytes(
            RadixByte::<B, D>::dmin_bytes(a, b),
        ),
        RadixByte::<B, D>::dmax_value(a, b) == RadixByte::<B, D>::value_of_bytes(
            RadixByte::<B, D>::dmax_bytes(a, b),
        ),
{
    lemma_digit_bytes_of::<B, D>(a);
    lemma_digit_bytes_of::<B, D>(b);
    let lo = RadixByte::<B, D>::dmin_bytes(a, b);
    let hi = RadixByte::<B, D>::dmax_bytes(a, b);
    assert forall|i: int| 0 <= i < D implies #[trigger] lo[i] < B by {
        assert(RadixByte::<B, D>::digit_bytes(a)[i] < B);
        assert(RadixByte::<B, D>::digit_bytes(b)[i] < B);
    }
    assert forall|i: int| 0 <= i < D implies #[trigger] hi[i] < B by {
        assert(RadixByte::<B, D>::digit_bytes(a)[i] < B);
        assert(RadixByte::<B, D>::digit_bytes(b)[i] < B);
    }
    lemma_value_digits::<B, D>(lo);
    lemma_value_digits::<B, D>(hi);
}

/// The digits of the largest word are all `BASE - 1`; those of zero all `0`.
proof fn lemma_extreme_digits<const B: u16, const D: usize>()
    requires
        RadixByte::<B, D>::params_ok(),
        B <= 256,
    ensures
        RadixByte::<B, D>::digit_bytes((RadixByte::<B, D>::modulus_nat() - 1) as nat) == Seq::new(
            D as nat,
            |i: int| (B - 1) as u8,
        ),
        RadixByte::<B, D>::digit_bytes(0) == Seq::new(D as nat, |i: int| 0u8),
{
    let b = B as nat;
    let top = Seq::new(D as nat, |i: int| (b - 1) as nat);
    lemma_horner_all_top(D as nat, b);
    assert(all_below(top, b));
    lemma_digits_of_horner(top, b);
    assert(RadixByte::<B, D>::digit_values((RadixByte::<B, D>::modulus_nat() - 1) as nat) == top);
    assert(RadixByte::<B, D>::digit_bytes((RadixByte::<B, D>::modulus_nat() - 1) as nat) =~= Seq::new(
        D as nat,
        |i: int| (B - 1) as u8,
    ));
    lemma_digits_of_len(0, b, D as nat);
    assert forall|j: int| 0 <= j < D implies #[trigger] digits_of(0, b, D as nat)[j] == 0 by {
        lemma_digits_of_index(0, b, D as nat, j);
        lemma_power_positive(b, (D - 1 - j) as nat);
        assert(0nat / power(b, (D - 1 - j) as nat) == 0);
    }
    assert(RadixByte::<B, D>::digit_bytes(0) =~= Seq::new(D as nat, |i: int| 0u8));
}

/// The largest word and zero are the identity and the zero of the digit-wise
/// minimum, and the other way round for the digit-wise maximum.
pub proof fn law_dmin_dmax_extremes<const B: u16, const D: usize>(a: nat)
    requires
        RadixByte::<B, D>::params_ok(),
        B <= 256,
        a < RadixByte::<B, D>::modulus_nat(),
    ensures
        RadixByte::<B, D>::dmin_value(a, (RadixByte::<B, D>::modulus_nat() - 1) as nat) == a,
        RadixByte::<B, D>::dmin_value(a, 0) == 0,
        RadixByte::<B, D>::dmax_value(a, (RadixByte::<B, D>::modulus_nat() - 1) as nat)
            == RadixByte::<B, D>::modulus_nat() - 1,
        RadixByte::<B, D>::dmax_value(a, 0) == a,
{
    let m = RadixByte::<B, D>::modulus_nat();
    let top = (m - 1) as nat;
    lemma_power_positive(B as nat, D as nat);
    lemma_extreme_digits::<B, D>();
    lemma_digit_bytes_of::<B, D>(a);
    lemma_digit_bytes_of::<B, D>(top);
    lemma_digit_bytes_of::<B, D>(0);
    let da = RadixByte::<B, D>::digit_bytes(a);
    assert(RadixByte::<B, D>::dmin_bytes(a, top) =~= da);
    assert(RadixByte::<B, D>::dmax_bytes(a, 0) =~= da);
    assert(RadixByte::<B, D>::dmin_bytes(a, 0) =~= RadixByte::<B, D>::digit_bytes(0));
    assert(RadixByte::<B, D>::dmax_bytes(a, top) =~= RadixByte::<B, D>::digit_bytes(top));
    law_dmin_dmax_digits::<B, D>(a, top);
    law_dmin_dmax_digits::<B, D>(a, 0);
}

/// Absorption: the digit-wise minimum of a word with its maximum with any
/// word is the word, and the other way round.
pub proof fn law_dmin_dmax_absorb<const B: u16, const D: usize>(a: nat, b: nat)
    requires
        RadixByte::<B, D>::params_ok(),
        B <= 256,
        a < RadixByte::<B, D>::modulus_nat(),
        b < RadixByte::<B, D>::modulus_nat(),
    ensures
        RadixByte::<B, D>::dmin_value(a, RadixByte::<B, D>::dmax_value(a, b)) == a,
        RadixByte::<B, D>::dmax_value(a, RadixByte::<B, D>::dmin_value(a, b)) == a,
{
    law_dmin_dmax_digits::<B, D>(a, b);
    let hi = RadixByte::<B, D>::dmax_value(a, b);
    let lo = RadixByte::<B, D>::dmin_value(a, b);
    law_dmin_dmax_digits::<B, D>(a, hi);
    law_dmin_dmax_digits::<B, D>(a, lo);
    lemma_digit_bytes_of::<B, D>(a);
    let da = RadixByte::<B, D>::digit_bytes(a);
    assert(RadixByte::<B, D>::dmin_bytes(a, hi) =~= da);
    assert(RadixByte::<B, D>::dmax_bytes(a, lo) =~= da);
}

/// The digit-wise minimum is at most either word, the maximum at least either.
pub proof fn law_dmin_dmax_bounds<const B: u16, const D: usize>(a: nat, b: nat)
    requires
        RadixByte::<B, D>::params_ok(),
        B <= 256,
        a < RadixByte::<B, D>::modulus_nat(),
        b < RadixByte::<B, D>::modulus_nat(),
    ensures
        RadixByte::<B, D>::dmin_value(a, b) <= a,
        RadixByte::<B, D>::dmin_value(a, b) <= b,
        RadixByte::<B, D>::dmax_value(a, b) >= a,
        RadixByte::<B, D>::dmax_value(a, b) >= b,
{
    law_dmin_dmax_digits::<B, D>(a, b);
    lemma_digit_bytes_of::<B, D>(a);
    lemma_digit_bytes_of::<B, D>(b);
    let f = |d: u8| d as nat;
    let lo = RadixByte::<B, D>::dmin_bytes(a, b).map_values(f);
    let hi = RadixByte::<B, D>::dmax_bytes(a, b).map_values(f);
    let va = RadixByte::<B, D>::digit_bytes(a).map_values(f);
    let vb = RadixByte::<B, D>::digit_bytes(b).map_values(f);
    let bb = B as nat;
    lemma_horner_monotone(lo, va, bb);
    lemma_horner_monotone(lo, vb, bb);
    lemma_horner_monotone(va, hi, bb);
    lemma_horner_monotone(vb, hi, bb);
}

/// Addition and multiplication of words are those of the integers, wrapped
/// at the modulus: zero and one are their identities, adding one steps to
/// the next word (the largest goes round to zero), and multiplying by one
/// more adds the word once more.
pub proof fn law_add_mul_steps<const B: u16, const D: usize>(a: nat, b: nat)
    requires
        RadixByte::<B, D>::params_ok(),
        a < RadixByte::<B, D>::modulus_nat(),
        b < RadixByte::<B, D>::modulus_nat(),
    ensures
        RadixByte::<B, D>::add_spec(a, 0) == a,
        RadixByte::<B, D>::mul_spec(a, 1) == a,
        RadixByte::<B, D>::mul_spec(a, 0) == 0,
        a + 1 < RadixByte::<B, D>::modulus_nat() ==> RadixByte::<B, D>::add_spec(a, 1) == a + 1,
        a + 1 == RadixByte::<B, D>::modulus_nat() ==> RadixByte::<B, D>::add_spec(a, 1) == 0,
        RadixByte::<B, D>::add_spec(a, b + 1) == RadixByte::<B, D>::add_spec(
            RadixByte::<B, D>::add_spec(a, b),
            1,
        ),
        RadixByte::<B, D>::mul_spec(a, b + 1) == RadixByte::<B, D>::add_spec(
            RadixByte::<B, D>::mul_spec(a, b),
            a,
        ),
{
    let m = RadixByte::<B, D>::modulus_nat();
    lemma_power_positive(B as nat, D as nat);
    lemma_small_mod(a, m);
    lemma_add_mod_noop((a + b) as int, 1, m as int);
    if m > 1 {
        lemma_small_mod(1, m);
    }
    lemma_small_mod(0, m);
    if a + 1 < m {
        lemma_small_mod(a + 1, m);
    }
    if a + 1 == m {
        lemma_mod_self_0(m as int);
    }
    assert(a * 0 == 0);
    assert(a * 1 == a);
    assert((a * (b + 1)) == a * b + a) by (nonlinear_arith);
    lemma_add_mod_noop((a * b) as int, a as int, m as int);
    lemma_mod_twice(a as int, m as int);
}

} // verus!
