use modint::ModInt;

#[test]
fn test_make() {
    let i = ModInt::<21>::new(10);
    assert_eq!(i, 10.into());
}

#[test]
fn test_add_assign() {
    let mut m: ModInt<21> = ModInt::new(10);
    m += 30;
    assert_eq!(m, 19.into());
}

#[test]
fn new_reduces_into_range() {
    assert_eq!(ModInt::<21>::new(10).value(), 10);
    assert_eq!(ModInt::<21>::new(45).value(), 3);
    assert_eq!(ModInt::<21>::new(21).value(), 0);
    assert_eq!(ModInt::<21>::new(-22).value(), 20);
    assert_eq!(ModInt::<21>::new(-42).value(), 0);
    assert_eq!(ModInt::<21>::new(i64::MIN).value(), 13);
    assert_eq!(ModInt::<21>::new(i64::MAX).value(), 7);
    assert_eq!(ModInt::<1>::new(-5).value(), 0);
}

#[test]
fn new_of_minus_one_is_modulus_minus_one() {
    assert_eq!(ModInt::<21>::new(-1), ModInt::<21>::new(20));
    assert_eq!(ModInt::<13>::new(-1), ModInt::<13>::new(12));
    assert_eq!(ModInt::<2>::new(-1).value(), 1);
}

#[test]
fn from_matches_new() {
    assert_eq!(ModInt::<21>::from(-22), ModInt::<21>::new(20));
    let k: ModInt<13> = 40.into();
    assert_eq!(k.value(), 1);
}

#[test]
fn modulus_is_reported() {
    assert_eq!(ModInt::<21>::m(), 21);
    assert_eq!(ModInt::<998244353>::m(), 998244353);
}

#[test]
fn add_and_mul_match_plain_arithmetic() {
    let a = ModInt::<21>::new(17);
    let b = ModInt::<21>::new(9);
    assert_eq!((a + b).value(), (17 + 9) % 21);
    assert_eq!((a * b).value(), (17 * 9) % 21);
    assert_eq!((a + 30).value(), 5);
    assert_eq!((a * 5).value(), 1);
    assert_eq!((a * -1).value(), 4);
}

#[test]
fn sub_wraps_below_zero() {
    let a = ModInt::<7>::new(3);
    let b = ModInt::<7>::new(5);
    assert_eq!((a - b).value(), 5);
    assert_eq!((b - a).value(), 2);
    assert_eq!((a - 10).value(), 0);
    assert_eq!((a - a).value(), 0);
}

#[test]
fn arithmetic_near_largest_modulus() {
    const BIG: u64 = 9223372036854775807;
    let a = ModInt::<BIG>::new(i64::MAX - 1);
    assert_eq!((a * a).value(), 1);
    assert_eq!((a + a).value(), i64::MAX - 2);
    assert_eq!((ModInt::<BIG>::new(0) - a).value(), 1);
}

#[test]
fn inverse_of_five_mod_thirteen() {
    let five = ModInt::<13>::new(5);
    assert_eq!(five.inv().value(), 8);
    assert_eq!((five * five.inv()).value(), 1);
}

#[test]
fn inverse_round_trip() {
    for x in 1..13 {
        let a = ModInt::<13>::new(x);
        assert_eq!(a.inv().inv(), a);
        assert_eq!((a * a.inv()).value(), 1);
    }
    let a = ModInt::<998244353>::new(123456789);
    assert_eq!(a.inv().inv(), a);
    assert_eq!((a * a.inv()).value(), 1);
}

#[test]
fn inverse_without_coprimality_gives_gcd() {
    let seven = ModInt::<21>::new(7);
    let r = seven.inv();
    assert_eq!(r.value(), 1);
    assert_eq!((seven * r).value(), 7);
    assert_eq!(ModInt::<21>::new(0).inv().value(), 0);
}

#[test]
fn division_is_multiplication_by_inverse() {
    let five = ModInt::<13>::new(5);
    let eight = ModInt::<13>::new(8);
    assert_eq!(five / eight, five * eight.inv());
    assert_eq!((five / eight).value(), 12);
    assert_eq!(five / five, ModInt::<13>::new(1));
    assert_eq!((five / eight) * eight, five);
    assert_eq!((ModInt::<13>::new(1) / 2).value(), 7);
    assert_eq!((ModInt::<13>::new(1) / 15).value(), 7);
}

#[test]
fn pow_matches_repeated_multiplication() {
    let a = ModInt::<13>::new(2);
    let mut acc = ModInt::<13>::new(1);
    for n in 0..30 {
        assert_eq!(a.pow(n), acc);
        acc = acc * a;
    }
    assert_eq!(a.pow(10).value(), 1024 % 13);
}

#[test]
fn pow_negative_uses_inverse() {
    let a = ModInt::<13>::new(2);
    assert_eq!(a.pow(-1), a.inv());
    assert_eq!(a.pow(-5), a.inv().pow(5));
    assert_eq!(a.pow(i64::MIN).value(), 3);
    assert_eq!((a.pow(-3) * a.pow(3)).value(), 1);
}

#[test]
fn pow_zero_is_one() {
    assert_eq!(ModInt::<13>::new(0).pow(0).value(), 1);
    assert_eq!(ModInt::<13>::new(7).pow(0).value(), 1);
    assert_eq!(ModInt::<13>::new(0).pow(5).value(), 0);
    assert_eq!(ModInt::<1>::new(0).pow(0).value(), 0);
}

#[test]
fn pow_large_exponent() {
    let a = ModInt::<998244353>::new(3);
    assert_eq!(a.pow(998244352).value(), 1);
    assert_eq!(a.pow(i64::MAX), a.pow(i64::MAX % 998244352));
}

#[test]
fn compound_assignment_matches_binary_operators() {
    let a = ModInt::<21>::new(10);
    let b = ModInt::<21>::new(16);
    let mut m = a;
    m += b;
    assert_eq!(m, a + b);
    let mut m = a;
    m -= b;
    assert_eq!(m, a - b);
    let mut m = a;
    m *= b;
    assert_eq!(m, a * b);
    let mut m = a;
    m /= b;
    assert_eq!(m, a / b);
    let mut m = a;
    m -= 30;
    assert_eq!(m.value(), 1);
    let mut m = a;
    m *= 3;
    assert_eq!(m.value(), 9);
    let mut m = ModInt::<13>::new(1);
    m /= 2;
    assert_eq!(m.value(), 7);
}

#[test]
fn parse_decimal_text() {
    assert_eq!(ModInt::<21>::parse("42").unwrap().value(), 0);
    assert_eq!(ModInt::<21>::parse("-1").unwrap().value(), 20);
    assert_eq!(ModInt::<21>::parse("+5").unwrap().value(), 5);
    assert_eq!(ModInt::<21>::parse("-9223372036854775808").unwrap().value(), 13);
    let parsed: ModInt<21> = "40".parse().unwrap();
    assert_eq!(parsed.value(), 19);
}

#[test]
fn parse_rejects_malformed_text() {
    assert!(ModInt::<21>::parse("abc").is_err());
    assert!(ModInt::<21>::parse("").is_err());
    assert!(ModInt::<21>::parse("-").is_err());
    assert!(ModInt::<21>::parse(" 1").is_err());
    assert!(ModInt::<21>::parse("1.5").is_err());
    assert!(ModInt::<21>::parse("9223372036854775808").is_err());
    assert!("x1".parse::<ModInt<21>>().is_err());
}

#[test]
fn text_rendering() {
    assert_eq!(ModInt::<21>::new(-1).to_string(), "20");
    assert_eq!(ModInt::<21>::new(0).to_string(), "0");
    assert_eq!(ModInt::<21>::new(-1).to_debug_string(), "20 mod 21");
}

#[test]
fn residue_as_index() {
    let v = vec![10, 11, 12, 13, 14];
    let i = ModInt::<7>::new(3);
    assert_eq!(v[i.index()], 13);
    assert_eq!(i.select(&v), Some(&13));
    assert_eq!(ModInt::<7>::new(5).select(&v), None);
    assert_eq!(ModInt::<7>::new(6).select(&v), None);
    assert_eq!(ModInt::<7>::new(11).select(&v), Some(&14));
}
