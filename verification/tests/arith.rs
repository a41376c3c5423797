//! Tests of the scalar fixed-point layer.

use sphere_tracer::SCALE;
use sphere_tracer::fixed::div_trunc;
use sphere_tracer::fixed::isqrt;
use sphere_tracer::fixed::mul_fx;

#[test]
fn division_truncates_toward_zero() {
    assert_eq!(div_trunc(7, 2), 3);
    assert_eq!(div_trunc(-7, 2), -3);
    assert_eq!(div_trunc(6, 3), 2);
    assert_eq!(div_trunc(-6, 3), -2);
    assert_eq!(div_trunc(0, 5), 0);
}

#[test]
fn fixed_products_are_exact_on_integers() {
    assert_eq!(mul_fx(3 * SCALE, 4 * SCALE), 12 * SCALE);
    assert_eq!(mul_fx(-3 * SCALE, 4 * SCALE), -12 * SCALE);
    // One half times one half is one quarter.
    assert_eq!(mul_fx(SCALE / 2, SCALE / 2), SCALE / 4);
}

#[test]
fn integer_square_roots_are_floors() {
    assert_eq!(isqrt(0), 0);
    assert_eq!(isqrt(1), 1);
    assert_eq!(isqrt(3), 1);
    assert_eq!(isqrt(4), 2);
    assert_eq!(isqrt(99), 9);
    assert_eq!(isqrt(100), 10);
    let s = SCALE as u128;
    assert_eq!(isqrt(s * s), s);
    // floor(sqrt(2)) in fixed point: 92681^2 <= 2 * SCALE^2 < 92682^2.
    assert_eq!(isqrt(2 * s * s), 92681);
}
