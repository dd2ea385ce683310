use ledger::decimal::{ten_pow, Decimal};

#[test]
fn format() {
    let scaled = (1.2349_f64 * 1000.0) as i64;
    assert_eq!(Decimal::<3>::from_scaled(scaled).to_string(), "1.234");
}

#[test]
fn zero_renders_with_all_fraction_digits() {
    assert_eq!(Decimal::<4>::zero().to_string(), "0.0000");
}

#[test]
fn fraction_keeps_leading_zeros() {
    assert_eq!(Decimal::<4>::from_scaled(50).to_string(), "0.0050");
    assert_eq!(Decimal::<4>::from_scaled(1020304).to_string(), "102.0304");
}

#[test]
fn negative_values_render_sign_and_magnitude() {
    assert_eq!(Decimal::<4>::from_scaled(-5).to_string(), "-0.0005");
    assert_eq!(Decimal::<4>::from_scaled(-123456).to_string(), "-12.3456");
}

#[test]
fn from_int_scales() {
    assert_eq!(Decimal::<4>::from_int(100).scaled(), 1_000_000);
    assert_eq!(Decimal::<4>::from_int(-3).scaled(), -30_000);
    assert_eq!(Decimal::<2>::from_int(7).scaled(), 700);
}

#[test]
fn add_and_sub_are_exact() {
    let a = Decimal::<4>::from_scaled(12500);
    let b = Decimal::<4>::from_scaled(33500);
    assert_eq!(a.add(b).scaled(), 46000);
    assert_eq!(b.sub(a).scaled(), 21000);
    assert_eq!(a.sub(b).scaled(), -21000);
}

#[test]
fn is_negative_tests_sign() {
    assert!(Decimal::<4>::from_scaled(-1).is_negative());
    assert!(!Decimal::<4>::zero().is_negative());
    assert!(!Decimal::<4>::from_scaled(1).is_negative());
}

#[test]
fn ten_pow_values() {
    assert_eq!(ten_pow(0), 1);
    assert_eq!(ten_pow(4), 10_000);
    assert_eq!(ten_pow(18), 1_000_000_000_000_000_000);
}
