use mini_machine::radbyte::RadixByte;

type Pentyte = RadixByte<5, 3>;
type Septendigyte = RadixByte<17, 2>;
type Undi = RadixByte<11, 2>;

fn s(v: u16) -> Septendigyte {
    Septendigyte::new(v)
}

#[test]
fn new_and_get() {
    assert_eq!(Pentyte::new(87).get(), 87);
}

#[test]
fn radix_byte_bounds() {
    assert_eq!(Pentyte::modulus(), 125);
    assert_eq!(Septendigyte::modulus(), 289);
    assert_eq!(Undi::modulus(), 121);
    assert_eq!(Septendigyte::min_value().get(), 0);
    assert_eq!(Septendigyte::max_value().get(), 288);
    assert_eq!(Pentyte::max_value().get(), 124);
    assert_eq!(Septendigyte::default().get(), 0);
    assert!(s(3) < s(5));
}

#[test]
fn radix_byte_digits() {
    assert_eq!(s(200).digits(), [11, 13]);
    assert_eq!(Pentyte::new(87).digits(), [3, 2, 2]);
    assert_eq!(Septendigyte::from_digits([11, 13]), s(200));
    assert_eq!(Pentyte::from_digits([4, 4, 4]).get(), 124);
    // digits beyond the base are still weighed by it
    assert_eq!(Septendigyte::from_digits([32, 32]).get(), 576);
}

#[test]
fn radix_byte_digits_round_trip() {
    for v in 0..289 {
        assert_eq!(Septendigyte::from_digits(s(v).digits()), s(v));
    }
    for v in 0..125 {
        assert_eq!(Pentyte::from_digits(Pentyte::new(v).digits()).get(), v);
    }
}

#[test]
fn radix_byte_arithmetic() {
    assert_eq!(s(280).wrapping_add(s(20)), s(11));
    assert_eq!(s(5).wrapping_sub(s(10)), s(284));
    assert_eq!(s(20).wrapping_mul(s(20)), s(111));
    assert_eq!(s(100).checked_div(s(7)), Some(s(14)));
    assert_eq!(s(100).checked_div(s(0)), None);
    assert_eq!(s(100).checked_mod(s(7)), Some(s(2)));
    assert_eq!(s(100).checked_mod(s(0)), None);
    assert_eq!(s(1).wrapping_neg(), s(288));
    assert_eq!(s(0).wrapping_neg(), s(0));
}

#[test]
fn radix_byte_arithmetic_laws() {
    for a in 0..289 {
        for b in 0..289 {
            let (x, y) = (s(a), s(b));
            assert_eq!(x.wrapping_add(y).wrapping_sub(y), x);
            assert_eq!(x.wrapping_add(y), y.wrapping_add(x));
            assert_eq!(x.wrapping_sub(y), x.wrapping_add(y.wrapping_neg()));
            assert_eq!(x.dmin(y), y.dmin(x));
            assert_eq!(x.dmax(y), y.dmax(x));
            if b != 0 {
                let q = x.checked_div(y).unwrap().get();
                let r = x.checked_mod(y).unwrap().get();
                assert_eq!(q * b + r, a);
                assert!(r < b);
            }
        }
        assert_eq!(s(a).wrapping_add(s(a).wrapping_neg()), s(0));
        assert_eq!(s(a).dmin(s(a)), s(a));
        assert_eq!(s(a).dmax(s(a)), s(a));
    }
}

#[test]
fn radix_byte_digitwise() {
    // 200 is (11, 13) and 50 is (2, 16)
    assert_eq!(s(200).dmin(s(50)), s(47));
    assert_eq!(s(200).dmax(s(50)), s(203));
    // each digit d becomes BASE^DIGITS - 1 - d, kept to a byte
    assert_eq!(s(0).dnot().get(), 576);
    assert_eq!(Pentyte::new(0).dnot().get(), 3844);
    assert_eq!(Pentyte::new(124).dnot().get(), 3720);
}

#[test]
fn radix_byte_signed() {
    assert_eq!(s(0).as_signed(), 0);
    assert_eq!(s(144).as_signed(), 144);
    assert_eq!(s(145).as_signed(), -144);
    assert_eq!(s(288).as_signed(), -1);
    assert_eq!(Pentyte::new(62).as_signed(), 62);
    assert_eq!(Pentyte::new(63).as_signed(), -62);
}

#[test]
fn radix_byte_digitwise_laws() {
    let max = Septendigyte::max_value();
    let min = Septendigyte::min_value();
    for a in 0..289 {
        let x = s(a);
        assert_eq!(x.dmin(max), x);
        assert_eq!(x.dmin(min), min);
        assert_eq!(x.dmax(max), max);
        assert_eq!(x.dmax(min), x);
        for b in (0..289).step_by(7) {
            let y = s(b);
            assert_eq!(x.dmin(x.dmax(y)), x);
            assert_eq!(x.dmax(x.dmin(y)), x);
            assert!(x.dmin(y).get() <= a.min(b));
            assert!(x.dmax(y).get() >= a.max(b));
            let (lo, hi) = (x.dmin(y).digits(), x.dmax(y).digits());
            let (dx, dy) = (x.digits(), y.digits());
            for i in 0..2 {
                assert_eq!(lo[i], dx[i].min(dy[i]));
                assert_eq!(hi[i], dx[i].max(dy[i]));
            }
        }
    }
}
