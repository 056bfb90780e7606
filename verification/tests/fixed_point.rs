//! Unit tests for the fixed-point primitives underneath the controller.

use ringsfield::math::clamp_i128;
use ringsfield::math::deg_to_rad;
use ringsfield::math::div_trunc_i128;
use ringsfield::math::isqrt64;
use ringsfield::math::mod_euclid_i128;
use ringsfield::math::wrap_angle;

#[test]
fn isqrt_exact_squares_and_neighbors() {
    assert_eq!(isqrt64(0), 0);
    assert_eq!(isqrt64(1), 1);
    assert_eq!(isqrt64(2), 1);
    assert_eq!(isqrt64(3), 1);
    assert_eq!(isqrt64(4), 2);
    assert_eq!(isqrt64(999_999), 999);
    assert_eq!(isqrt64(1_000_000), 1000);
    assert_eq!(isqrt64(1_000_000_000_000), 1_000_000);
    assert_eq!(isqrt64(2_000_000_000_000), 1_414_213);
    assert_eq!(isqrt64(u64::MAX), 4_294_967_295);
}

#[test]
fn division_truncates_toward_zero() {
    assert_eq!(div_trunc_i128(7, 2), 3);
    assert_eq!(div_trunc_i128(-7, 2), -3);
    assert_eq!(div_trunc_i128(6, 3), 2);
    assert_eq!(div_trunc_i128(-6, 3), -2);
    assert_eq!(div_trunc_i128(0, 5), 0);
}

#[test]
fn euclidean_remainder_is_never_negative() {
    assert_eq!(mod_euclid_i128(7, 3), 1);
    assert_eq!(mod_euclid_i128(-7, 3), 2);
    assert_eq!(mod_euclid_i128(-6, 3), 0);
    assert_eq!(mod_euclid_i128(6, 3), 0);
}

#[test]
fn angles_wrap_into_one_turn() {
    assert_eq!(wrap_angle(0), 0);
    assert_eq!(wrap_angle(3_141_592), 3_141_592);
    assert_eq!(wrap_angle(3_141_593), -3_141_593);
    assert_eq!(wrap_angle(-3_141_593), -3_141_593);
    assert_eq!(wrap_angle(6_283_186), 0);
    assert_eq!(wrap_angle(-6_283_186), 0);
    assert_eq!(wrap_angle(11_482_300), -1_084_072);
}

#[test]
fn degrees_convert_to_radians() {
    // 180 degrees is pi: a whole-degree count times a million micro-degrees.
    assert_eq!(deg_to_rad(180_000_000), 3_141_592);
    assert_eq!(deg_to_rad(-180_000_000), -3_141_592);
    // The look scenario figure: 16.2 degrees.
    assert_eq!(deg_to_rad(16_200_000), 282_743);
    assert_eq!(deg_to_rad(0), 0);
}

#[test]
fn clamping_cuts_both_tails() {
    assert_eq!(clamp_i128(5, -3, 3), 3);
    assert_eq!(clamp_i128(-5, -3, 3), -3);
    assert_eq!(clamp_i128(2, -3, 3), 2);
}
