//! Positional notation over natural numbers: powers, the digit sequence of a
//! number in a given base (most significant digit first), and Horner evaluation
//! of a digit sequence back into a number.
use vstd::arithmetic::div_mod::{
    lemma_div_denominator, lemma_fundamental_div_mod, lemma_fundamental_div_mod_converse,
    lemma_mod_breakdown, lemma_mod_pos_bound,
};
use vstd::prelude::*;

verus! {

/// `b` raised to the power `e`.
pub open spec fn power(b: nat, e: nat) -> nat
    decreases e,
{
    if e == 0 {
        1
    } else {
        b * power(b, (e - 1) as nat)
    }
}

/// The `n` lowest digits of `v` in base `b`, most significant first.
pub open spec fn digits_of(v: nat, b: nat, n: nat) -> Seq<nat>
    decreases n,
{
    if n == 0 {
        Seq::empty()
    } else {
        digits_of(v / b, b, (n - 1) as nat).push(v % b)
    }
}

/// The number whose digits in base `b`, most significant first, are `s`.
pub open spec fn horner(s: Seq<nat>, b: nat) -> nat
    decreases s.len(),
{
    if s.len() == 0 {
        0
    } else {
        horner(s.drop_last(), b) * b + s.last()
    }
}

/// Every entry of `s` is below `b`: `s` is a digit sequence in base `b`.
pub open spec fn all_below(s: Seq<nat>, b: nat) -> bool {
    forall|i: int| 0 <= i < s.len() ==> #[trigger] s[i] < b
}

pub proof fn lemma_power_positive(b: nat, e: nat)
    requires
        b >= 1,
    ensures
        power(b, e) >= 1,
    decreases e,
{
    if e > 0 {
        lemma_power_positive(b, (e - 1) as nat);
        assert(b * power(b, (e - 1) as nat) >= 1) by (nonlinear_arith)
            requires
                b >= 1,
                power(b, (e - 1) as nat) >= 1,
        ;
    }
}

/// Every power of one is one.
pub proof fn lemma_power_of_one(e: nat)
    ensures
        power(1, e) == 1,
    decreases e,
{
    if e > 0 {
        lemma_power_of_one((e - 1) as nat);
    }
}

/// Powers of a base of at least one grow with the exponent.
pub proof fn lemma_power_monotone(b: nat, e1: nat, e2: nat)
    requires
        b >= 1,
        e1 <= e2,
    ensures
        power(b, e1) <= power(b, e2),
    decreases e2,
{
    if e1 < e2 {
        lemma_power_monotone(b, e1, (e2 - 1) as nat);
        lemma_power_positive(b, (e2 - 1) as nat);
        assert(power(b, (e2 - 1) as nat) <= b * power(b, (e2 - 1) as nat)) by (nonlinear_arith)
            requires
                b >= 1,
        ;
    }
}

/// The `j`-th digit (counted from the most significant end) of `v`.
pub proof fn lemma_digits_of_index(v: nat, b: nat, n: nat, j: int)
    requires
        b >= 1,
        0 <= j < n,
    ensures
        digits_of(v, b, n).len() == n,
        digits_of(v, b, n)[j] == (v / power(b, (n - 1 - j) as nat)) % b,
    decreases n,
{
    lemma_digits_of_len(v, b, n);
    if j < n - 1 {
        lemma_digits_of_index(v / b, b, (n - 1) as nat, j);
        lemma_power_positive(b, (n - 2 - j) as nat);
        lemma_div_denominator(v as int, b as int, power(b, (n - 2 - j) as nat) as int);
        assert(power(b, (n - 1 - j) as nat) == b * power(b, (n - 2 - j) as nat));
    } else {
        assert(power(b, 0) == 1);
        assert(v / 1 == v);
    }
}

pub proof fn lemma_digits_of_len(v: nat, b: nat, n: nat)
    requires
        b >= 1,
    ensures
        digits_of(v, b, n).len() == n,
    decreases n,
{
    if n > 0 {
        lemma_digits_of_len(v / b, b, (n - 1) as nat);
    }
}

/// Every digit lies below the base.
pub proof fn lemma_digits_of_below(v: nat, b: nat, n: nat)
    requires
        b >= 1,
    ensures
        all_below(digits_of(v, b, n), b),
    decreases n,
{
    lemma_digits_of_len(v, b, n);
    if n > 0 {
        lemma_digits_of_below(v / b, b, (n - 1) as nat);
        lemma_mod_pos_bound(v as int, b as int);
    }
}

/// Reading the digits of `v` back gives `v` reduced modulo `b^n`.
pub proof fn lemma_horner_digits_of(v: nat, b: nat, n: nat)
    requires
        b >= 1,
    ensures
        horner(digits_of(v, b, n), b) == v % power(b, n),
    decreases n,
{
    if n == 0 {
        assert(v % 1 == 0);
    } else {
        let s = digits_of(v, b, n);
        lemma_horner_digits_of(v / b, b, (n - 1) as nat);
        assert(s.drop_last() =~= digits_of(v / b, b, (n - 1) as nat));
        lemma_power_positive(b, (n - 1) as nat);
        lemma_mod_breakdown(v as int, b as int, power(b, (n - 1) as nat) as int);
        let q = (v / b) % power(b, (n - 1) as nat);
        assert(q * b == b * q) by (nonlinear_arith);
    }
}

/// A digit sequence evaluates to a number below `b^len`.
pub proof fn lemma_horner_below(s: Seq<nat>, b: nat)
    requires
        b >= 1,
        all_below(s, b),
    ensures
        horner(s, b) < power(b, s.len()),
    decreases s.len(),
{
    if s.len() > 0 {
        let t = s.drop_last();
        assert(all_below(t, b)) by {
            assert forall|i: int| 0 <= i < t.len() implies #[trigger] t[i] < b by {
                assert(t[i] == s[i]);
            }
        }
        lemma_horner_below(t, b);
        let h = horner(t, b);
        let p = power(b, t.len());
        let d = s.last();
        assert(d < b) by {
            assert(s[s.len() - 1] < b);
        }
        assert(h * b + d < b * p) by (nonlinear_arith)
            requires
                h < p,
                d < b,
        ;
    }
}

/// Splitting the digits of a digit sequence's value gives the sequence back.
pub proof fn lemma_digits_of_horner(s: Seq<nat>, b: nat)
    requires
        b >= 1,
        all_below(s, b),
    ensures
        digits_of(horner(s, b), b, s.len()) == s,
    decreases s.len(),
{
    if s.len() > 0 {
        let t = s.drop_last();
        assert(all_below(t, b)) by {
            assert forall|i: int| 0 <= i < t.len() implies #[trigger] t[i] < b by {
                assert(t[i] == s[i]);
            }
        }
        lemma_digits_of_horner(t, b);
        let h = horner(t, b);
        let d = s.last();
        assert(d < b) by {
            assert(s[s.len() - 1] < b);
        }
        lemma_fundamental_div_mod_converse((h * b + d) as int, b as int, h as int, d as int);
        assert(digits_of(horner(s, b), b, s.len()) =~= t.push(d));
        assert(t.push(d) =~= s);
    }
}

/// Evaluating a prefix never gives more than evaluating the whole sequence.
pub proof fn lemma_horner_prefix(s: Seq<nat>, b: nat, i: int)
    requires
        b >= 1,
        0 <= i <= s.len(),
    ensures
        horner(s.take(i), b) <= horner(s, b),
    decreases s.len() - i,
{
    if i < s.len() {
        let u = s.take(i + 1);
        assert(u.drop_last() =~= s.take(i));
        let h = horner(s.take(i), b);
        assert(h <= h * b + u.last()) by (nonlinear_arith)
            requires
                b >= 1,
        ;
        lemma_horner_prefix(s, b, i + 1);
    } else {
        assert(s.take(i) =~= s);
    }
}

/// One step of evaluation: a prefix one digit longer.
pub proof fn lemma_horner_step(s: Seq<nat>, b: nat, i: int)
    requires
        0 <= i < s.len(),
    ensures
        horner(s.take(i + 1), b) == horner(s.take(i), b) * b + s[i],
{
    assert(s.take(i + 1).drop_last() =~= s.take(i));
}

/// A sequence of entries at most `c` evaluates to at most `c * (b^len - 1)`.
pub proof fn lemma_horner_bounded_entries(s: Seq<nat>, b: nat, c: nat)
    requires
        b >= 2 || c == 0,
        b >= 1,
        forall|i: int| 0 <= i < s.len() ==> #[trigger] s[i] <= c,
    ensures
        horner(s, b) <= c * (power(b, s.len()) - 1),
    decreases s.len(),
{
    lemma_power_positive(b, s.len());
    if s.len() > 0 {
        let t = s.drop_last();
        assert forall|i: int| 0 <= i < t.len() implies #[trigger] t[i] <= c by {
            assert(t[i] == s[i]);
        }
        lemma_horner_bounded_entries(t, b, c);
        lemma_power_positive(b, t.len());
        let h = horner(t, b);
        let p = power(b, t.len());
        let d = s.last();
        assert(d <= c) by {
            assert(s[s.len() - 1] <= c);
        }
        assert(h * b + d <= c * (b * p - 1)) by (nonlinear_arith)
            requires
                h <= c * (p - 1),
                d <= c,
                p >= 1,
                b >= 2 || c == 0,
                b >= 1,
        ;
    }
}

/// A sequence that is entry by entry no larger than another evaluates to no
/// more than it.
pub proof fn lemma_horner_monotone(s: Seq<nat>, t: Seq<nat>, b: nat)
    requires
        s.len() == t.len(),
        forall|i: int| 0 <= i < s.len() ==> #[trigger] s[i] <= t[i],
    ensures
        horner(s, b) <= horner(t, b),
    decreases s.len(),
{
    if s.len() > 0 {
        let s1 = s.drop_last();
        let t1 = t.drop_last();
        assert forall|i: int| 0 <= i < s1.len() implies #[trigger] s1[i] <= t1[i] by {
            assert(s1[i] == s[i] && t1[i] == t[i]);
        }
        lemma_horner_monotone(s1, t1, b);
        let (x, y) = (horner(s1, b), horner(t1, b));
        assert(x * b <= y * b) by (nonlinear_arith)
            requires
                x <= y,
        ;
        assert(s.last() <= t.last()) by {
            assert(s[s.len() - 1] <= t[t.len() - 1]);
        }
    }
}

/// `n` digits of `b - 1` evaluate to `b^n - 1`.
pub proof fn lemma_horner_all_top(n: nat, b: nat)
    requires
        b >= 1,
    ensures
        horner(Seq::new(n, |i: int| (b - 1) as nat), b) == power(b, n) - 1,
    decreases n,
{
    let s = Seq::new(n, |i: int| (b - 1) as nat);
    if n > 0 {
        lemma_horner_all_top((n - 1) as nat, b);
        assert(s.drop_last() =~= Seq::new((n - 1) as nat, |i: int| (b - 1) as nat));
        lemma_power_positive(b, (n - 1) as nat);
        let p = power(b, (n - 1) as nat);
        assert((p - 1) * b + (b - 1) == b * p - 1) by (nonlinear_arith)
            requires
                p >= 1,
                b >= 1,
        ;
    } else {
        assert(horner(s, b) == 0);
    }
}

/// Evaluating three digits.
pub proof fn lemma_horner3(a: nat, b: nat, c: nat, base: nat)
    ensures
        horner(seq![a, b, c], base) == (a * base + b) * base + c,
{
    let s = seq![a, b, c];
    assert(s.drop_last() =~= seq![a, b]);
    assert(seq![a, b].drop_last() =~= seq![a]);
    assert(seq![a].drop_last() =~= Seq::<nat>::empty());
    assert(horner(Seq::<nat>::empty(), base) == 0);
    assert(0 * base == 0);
    assert(seq![a].last() == a);
    assert(horner(seq![a], base) == horner(Seq::<nat>::empty(), base) * base + a);
    assert(seq![a, b].last() == b);
    assert(horner(seq![a, b], base) == horner(seq![a], base) * base + b);
    assert(s.last() == c);
    assert(horner(s, base) == horner(seq![a, b], base) * base + c);
}

} // verus!
