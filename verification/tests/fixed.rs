use neural_os::fixed::{sigmoid, sigmoid_derivative_from_output, Fixed, HALF_BITS, ONE_BITS};

fn to_f32(x: Fixed) -> f32 {
    x.to_bits() as f32 / 65536.0
}

#[test]
fn one_times_one() {
    let one = Fixed::one();
    assert_eq!((one * one).to_bits(), one.to_bits());
}

#[test]
fn sigmoid_bounds() {
    let s0 = to_f32(sigmoid(Fixed::zero()));
    assert!((s0 - 0.5).abs() < 0.02);
    assert!(to_f32(sigmoid(Fixed::from_i32(10))) > 0.9);
    assert!(to_f32(sigmoid(Fixed::from_i32(-10))) < 0.1);
}

#[test]
fn sigmoid_of_zero_is_exactly_half() {
    assert_eq!(sigmoid(Fixed(0)).0, HALF_BITS);
}

#[test]
fn sigmoid_exact_values() {
    // x = 1.0: ratio = 65536 * 65536 / 131072 = 32768, result 0.5 + 0.25 = 0.75
    assert_eq!(sigmoid(Fixed(65536)).0, 49152);
    // x = -1.0: ratio = -32768, result 0.25
    assert_eq!(sigmoid(Fixed(-65536)).0, 16384);
}

#[test]
fn sigmoid_stays_in_unit_interval_at_extremes() {
    for x in [i32::MIN, i32::MIN + 1, -1, 1, i32::MAX - 1, i32::MAX] {
        let s = sigmoid(Fixed(x)).0;
        assert!(0 <= s && s <= ONE_BITS, "x={} s={}", x, s);
    }
    assert_eq!(sigmoid(Fixed(i32::MAX)).0, ONE_BITS);
    assert_eq!(sigmoid(Fixed(i32::MIN)).0, 0);
}

#[test]
fn saturating_add_and_sub_clamp() {
    assert_eq!(Fixed(i32::MAX).saturating_add(Fixed(1)).0, i32::MAX);
    assert_eq!(Fixed(i32::MIN).saturating_sub(Fixed(1)).0, i32::MIN);
    assert_eq!(Fixed(5).saturating_add(Fixed(-7)).0, -2);
    assert_eq!((Fixed(i32::MIN) - Fixed(1)).0, i32::MIN);
    assert_eq!((Fixed(3) + Fixed(4)).0, 7);
}

#[test]
fn wrapping_mul_rounds_down() {
    // 1.5 * 2.0 = 3.0
    assert_eq!(Fixed(98304).wrapping_mul(Fixed(131072)).0, 196608);
    // -1 raw unit * 0.5 = -0.5 raw units, rounded toward minus infinity
    assert_eq!(Fixed(-1).wrapping_mul(Fixed(HALF_BITS)).0, -1);
    // 2^15 * 2^17 >> 16 = 2^16 exactly
    assert_eq!(Fixed(1 << 15).wrapping_mul(Fixed(1 << 17)).0, 1 << 16);
}

#[test]
fn mul_by_one_is_identity() {
    for x in [i32::MIN, -65536, -1, 0, 1, 12345, i32::MAX] {
        assert_eq!(Fixed(x).wrapping_mul(Fixed::one()).0, x);
    }
}

#[test]
fn abs_neg_and_sign() {
    assert_eq!(Fixed(i32::MIN).abs().0, i32::MAX);
    assert_eq!(Fixed(-3).abs().0, 3);
    assert_eq!((-Fixed(i32::MIN)).0, i32::MAX);
    assert_eq!((-Fixed(7)).0, -7);
    assert!(Fixed(-1).is_negative());
    assert!(!Fixed(0).is_negative());
}

#[test]
fn from_i32_shifts_and_bits_roundtrip() {
    assert_eq!(Fixed::from_i32(3).0, 3 * 65536);
    assert_eq!(Fixed::from_i32(-2).0, -131072);
    assert_eq!(Fixed::from_bits(42).to_bits(), 42);
    assert_eq!(Fixed::half().0, HALF_BITS);
    assert_eq!(Fixed::zero().0, 0);
}

#[test]
fn max_min_clamp() {
    let a = Fixed(10);
    let b = Fixed(20);
    assert_eq!(a.max(b), b);
    assert_eq!(a.min(b), a);
    assert_eq!(Fixed(5).clamp(a, b), a);
    assert_eq!(Fixed(25).clamp(a, b), b);
    assert_eq!(Fixed(15).clamp(a, b), Fixed(15));
}

#[test]
fn add_assign_saturates() {
    let mut x = Fixed(i32::MAX - 1);
    x += Fixed(5);
    assert_eq!(x.0, i32::MAX);
}

#[test]
fn derivative_peaks_at_half() {
    assert_eq!(sigmoid_derivative_from_output(Fixed(HALF_BITS)).0, 16384);
    assert_eq!(sigmoid_derivative_from_output(Fixed(0)).0, 0);
    assert_eq!(sigmoid_derivative_from_output(Fixed(ONE_BITS)).0, 0);
}

#[test]
fn sigmoid_is_monotone_on_a_sweep() {
    let xs: [i32; 13] = [
        i32::MIN, -1_000_000_000, -655_360, -65_536, -32_768, -1, 0, 1, 32_768, 65_536,
        655_360, 1_000_000_000, i32::MAX,
    ];
    for w in xs.windows(2) {
        assert!(sigmoid(Fixed(w[0])).0 <= sigmoid(Fixed(w[1])).0, "{} {}", w[0], w[1]);
    }
}

#[test]
fn sigmoid_within_one_unit_of_rational_curve() {
    let xs: [i32; 9] = [-2_000_000_000, -655_360, -65_536, -12_345, 0, 7, 65_536, 300_000, 2_000_000_000];
    for &x in xs.iter() {
        let r = sigmoid(Fixed(x)).0 as i128;
        let d = 65_536i128 + (x as i128).abs();
        let e = (r - 32_768) * d - 32_768 * (x as i128);
        assert!(-d < e && e < d, "x = {}", x);
    }
}
