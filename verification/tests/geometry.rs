//! Tests of the geometric algebra: normalization, reflection, and the basic
//! vector operations.

use sphere_tracer::SCALE;
use sphere_tracer::Point;
use sphere_tracer::Vect;
use sphere_tracer::x_reflexion;
use sphere_tracer::bounce;

#[test]
fn unit_test() {
    let e1 = Vect::new(SCALE, 0, 0);
    let e2 = Vect::new(0, SCALE, 0);
    let e3 = Vect::new(0, 0, SCALE);
    assert_eq!(e1, e1.unit().unwrap().to_vect());
    assert_eq!(e2, e2.unit().unwrap().to_vect());
    assert_eq!(e3, e3.unit().unwrap().to_vect());
}

#[test]
fn x_reflexion_test() {
    let ray = Vect::new(SCALE, 0, -SCALE).unit().unwrap();
    let e1 = Vect::new(SCALE, 0, 0).unit().unwrap();
    let e2 = Vect::new(0, SCALE, 0).unit().unwrap();
    let e3 = Vect::new(0, 0, SCALE).unit().unwrap();
    let x_ref = x_reflexion(ray, (e1, e2, e3)).unwrap();
    assert_eq!(x_ref, Vect::new(-SCALE, 0, -SCALE).unit().unwrap());
}

#[test]
fn bounce_test() {
    let ray = Vect::new(SCALE, 0, -SCALE).unit().unwrap();
    let normal = Vect::new(0, 0, SCALE).unit().unwrap();
    let z_ref = bounce(ray, normal).unwrap();
    assert_eq!(z_ref, Vect::new(SCALE, 0, SCALE).unit().unwrap());
}

#[test]
fn reflection_matches_mirror_law() {
    // d' = d - 2 (d . n) n for d = normalized (1, 0, -1) and n = (0, 0, 1):
    // the reflection must be the normalized (1, 0, 1), up to fixed-point
    // rounding of a couple of steps.
    let d = Vect::new(SCALE, 0, -SCALE).unit().unwrap();
    let n = Vect::new(0, 0, SCALE).unit().unwrap();
    let reflected = bounce(d, n).unwrap().to_vect();
    let expected = Vect::new(SCALE, 0, SCALE).unit().unwrap().to_vect();
    assert!((reflected.x - expected.x).abs() <= 2);
    assert!((reflected.y - expected.y).abs() <= 2);
    assert!((reflected.z - expected.z).abs() <= 2);
}

#[test]
fn vector_arithmetic() {
    let a = Vect::new(SCALE, 2 * SCALE, 3 * SCALE);
    let b = Vect::new(4 * SCALE, 5 * SCALE, 6 * SCALE);
    assert_eq!(a.add(b), Vect::new(5 * SCALE, 7 * SCALE, 9 * SCALE));
    assert_eq!(b.sub(a), Vect::new(3 * SCALE, 3 * SCALE, 3 * SCALE));
    // 1*4 + 2*5 + 3*6 = 32
    assert_eq!(a.dot(b), 32 * SCALE);
    assert_eq!(a.norm2(), 14 * SCALE);
    // cross of the x and y axes is the z axis
    let x = Vect::new(SCALE, 0, 0);
    let y = Vect::new(0, SCALE, 0);
    assert_eq!(x.cross(y), Vect::new(0, 0, SCALE));
    assert_eq!(a.scale(2 * SCALE), Vect::new(2 * SCALE, 4 * SCALE, 6 * SCALE));
    assert_eq!(a.div(2 * SCALE), Vect::new(SCALE / 2, SCALE, 3 * SCALE / 2));
}

#[test]
fn norm_is_exact_on_squares() {
    // |(3, 4, 0)| = 5, exactly representable.
    let v = Vect::new(3 * SCALE, 4 * SCALE, 0);
    assert_eq!(v.norm(), 5 * SCALE);
}

#[test]
fn zero_vector_has_no_unit() {
    assert!(Vect::new(0, 0, 0).unit().is_none());
}

#[test]
fn point_arithmetic() {
    let p = Point::new(SCALE, 0, 0);
    let q = Point::new(0, SCALE, 0);
    assert_eq!(p.to(q), Vect::new(-SCALE, SCALE, 0));
    assert_eq!(p.sub(q), Vect::new(SCALE, -SCALE, 0));
    assert_eq!(p.add(Vect::new(0, 0, SCALE)), Point::new(SCALE, 0, SCALE));
    assert_eq!(Point::origin(), Point::new(0, 0, 0));
}

#[test]
fn bytes_truncate_channels() {
    let v = Vect::new(216 * SCALE, 84 * SCALE + 32768, 52 * SCALE + 65535);
    assert_eq!(v.as_vec_u8(), [216, 84, 52]);
}
