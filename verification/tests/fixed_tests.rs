use raycaster::fixed::{cos_fp, div_trunc, isqrt, sin_fp, wrap_angle};

#[test]
fn div_trunc_rounds_toward_zero() {
    assert_eq!(div_trunc(7, 2), 3);
    assert_eq!(div_trunc(-7, 2), -3);
    assert_eq!(div_trunc(0, 5), 0);
    assert_eq!(div_trunc(-1, 1_000_000), 0);
}

#[test]
fn wrap_angle_into_one_turn() {
    assert_eq!(wrap_angle(0), 0);
    assert_eq!(wrap_angle(6_283_185), 0);
    assert_eq!(wrap_angle(-1), 6_283_184);
    assert_eq!(wrap_angle(6_283_186), 1);
    assert_eq!(wrap_angle(-6_283_185), 0);
}

#[test]
fn isqrt_exact_values() {
    assert_eq!(isqrt(0), 0);
    assert_eq!(isqrt(1), 1);
    assert_eq!(isqrt(48), 6);
    assert_eq!(isqrt(49), 7);
    assert_eq!(isqrt(50), 7);
    assert_eq!(isqrt(49_000_000_000_000), 7_000_000);
}

#[test]
fn sine_cardinal_angles() {
    assert_eq!(sin_fp(0), 0);
    assert_eq!(sin_fp(1_570_796), 1_000_000);
    assert_eq!(sin_fp(3_141_593), 0);
    assert_eq!(sin_fp(4_712_389), -1_000_000);
    assert_eq!(sin_fp(-1_570_796), -1_000_000);
}

#[test]
fn cosine_cardinal_angles() {
    assert_eq!(cos_fp(0), 1_000_000);
    assert_eq!(cos_fp(3_141_593), -1_000_000);
    assert_eq!(cos_fp(1_570_796), 1);
}

#[test]
fn sine_of_quarter_pi() {
    assert_eq!(sin_fp(785_398), 707_107);
    assert_eq!(cos_fp(785_398), 707_108);
}
