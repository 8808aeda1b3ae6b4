use glcamera::num::{div_trunc_i64, isqrt_u64};
use glcamera::trig::{reduce_angle, reduce_half_angle, sin_cos_milli};
use glcamera::vec3::{Vec3, normalize_milli};

#[test]
fn div_trunc_rounds_toward_zero() {
    assert_eq!(div_trunc_i64(7, 2), 3);
    assert_eq!(div_trunc_i64(-7, 2), -3);
    assert_eq!(div_trunc_i64(6, 3), 2);
    assert_eq!(div_trunc_i64(-6, 3), -2);
    assert_eq!(div_trunc_i64(0, 5), 0);
}

#[test]
fn isqrt_brackets_the_square() {
    assert_eq!(isqrt_u64(0), 0);
    assert_eq!(isqrt_u64(1), 1);
    assert_eq!(isqrt_u64(3), 1);
    assert_eq!(isqrt_u64(4), 2);
    assert_eq!(isqrt_u64(999_999), 999);
    assert_eq!(isqrt_u64(1_000_000), 1000);
    assert_eq!(isqrt_u64(1_000_000_000_000), 1_000_000);
    assert_eq!(isqrt_u64(u64::MAX), 4_294_967_295);
}

#[test]
fn angles_reduce_to_a_single_turn() {
    assert_eq!(reduce_angle(0), 0);
    assert_eq!(reduce_angle(-90_000_000), 270_000_000);
    assert_eq!(reduce_angle(360_000_000), 0);
    assert_eq!(reduce_angle(730_000_000), 10_000_000);
    assert_eq!(reduce_angle(-360_000_001), 359_999_999);
    assert_eq!(reduce_half_angle(0), 0);
    assert_eq!(reduce_half_angle(190_000_000), -170_000_000);
    assert_eq!(reduce_half_angle(-190_000_000), 170_000_000);
}

#[test]
fn sine_and_cosine_at_exact_angles() {
    let (s0, c0) = sin_cos_milli(0);
    assert_eq!((s0, c0), (0, 1000));
    let (s90, c90) = sin_cos_milli(90_000_000);
    assert_eq!((s90, c90), (1000, 0));
    let (s180, c180) = sin_cos_milli(180_000_000);
    assert_eq!(s180, 0);
    assert_eq!(c180, -1000);
    let (s270, c270) = sin_cos_milli(270_000_000);
    assert_eq!((s270, c270), (-1000, 0));
    // the Bhaskara approximation is exact at thirty degrees
    let (s30, c30) = sin_cos_milli(30_000_000);
    assert_eq!(s30, 500);
    let (s60, c60) = sin_cos_milli(60_000_000);
    assert_eq!(c60, 500);
    assert_eq!(s60, c30);
    let (s45, c45) = sin_cos_milli(45_000_000);
    assert_eq!(s45, 705);
    assert_eq!(c45, 705);
}

#[test]
fn sine_of_negative_angle_uses_the_period() {
    let (s, c) = sin_cos_milli(-90_000_000);
    assert_eq!((s, c), (-1000, 0));
}

#[test]
fn normalize_rescales_to_unit_length() {
    let v = Vec3 { x: 300, y: 0, z: 400 };
    let n = normalize_milli(&v);
    assert_eq!(n, Vec3 { x: 600, y: 0, z: 800 });
    let zero = Vec3 { x: 0, y: 0, z: 0 };
    assert_eq!(normalize_milli(&zero), zero);
}
