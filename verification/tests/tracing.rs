//! Tests of the sphere intersection solver and the scene resolver.

use sphere_tracer::SCALE;
use sphere_tracer::Point;
use sphere_tracer::Sphere3D;
use sphere_tracer::Vect;
use sphere_tracer::first_collision;

fn z_axis() -> sphere_tracer::Unit {
    Vect::new(0, 0, SCALE).unit().unwrap()
}

#[test]
fn trace_hit_distance() {
    // Sphere at (0, 0, 10) of radius 1, ray from the origin along +z:
    // the front face is met at distance 9, exactly.
    let s = Sphere3D::new(1, Point::new(0, 0, 10 * SCALE), SCALE, [216, 84, 52]);
    assert_eq!(s.trace(Point::origin(), z_axis()), Some(9 * SCALE));
}

#[test]
fn trace_miss() {
    // The same sphere, ray along +x: no intersection.
    let s = Sphere3D::new(1, Point::new(0, 0, 10 * SCALE), SCALE, [216, 84, 52]);
    let dir = Vect::new(SCALE, 0, 0).unit().unwrap();
    assert_eq!(s.trace(Point::origin(), dir), None);
}

#[test]
fn trace_tangent() {
    // Sphere at (0, 1, 10) of radius 1: a ray along +z grazes it, the reduced
    // discriminant is exactly zero, and the single root 10 is returned.
    let s = Sphere3D::new(1, Point::new(0, SCALE, 10 * SCALE), SCALE, [0, 0, 0]);
    assert_eq!(s.trace(Point::origin(), z_axis()), Some(10 * SCALE));
    // The same grazing geometry behind the origin: the single root is
    // negative and is raised to zero.
    let behind = Sphere3D::new(2, Point::new(0, SCALE, -10 * SCALE), SCALE, [0, 0, 0]);
    assert_eq!(behind.trace(Point::origin(), z_axis()), Some(0));
}

#[test]
fn trace_from_inside() {
    // From the center of a sphere of radius 2 the smaller root is negative,
    // so the larger (the exit point, at the radius) is returned.
    let s = Sphere3D::new(1, Point::new(0, 0, 0), 2 * SCALE, [0, 0, 0]);
    assert_eq!(s.trace(Point::origin(), z_axis()), Some(2 * SCALE));
}

#[test]
fn sphere_accessors() {
    let s = Sphere3D::new(7, Point::new(SCALE, 0, 0), 2 * SCALE, [10, 20, 30]);
    assert_eq!(s.id, 7);
    assert_eq!(s.center(), Point::new(SCALE, 0, 0));
    assert_eq!(s.squared_radius(), 4 * SCALE);
    assert_eq!(s.color(), Vect::new(10 * SCALE, 20 * SCALE, 30 * SCALE));
}

#[test]
fn normal_vector_points_outward() {
    let s = Sphere3D::new(1, Point::new(0, 0, 10 * SCALE), SCALE, [0, 0, 0]);
    let n = s.normal_vector(Point::new(0, 0, 9 * SCALE)).unwrap();
    assert_eq!(n.to_vect(), Vect::new(0, 0, -SCALE));
}

#[test]
fn nearest_sphere_wins() {
    let spheres = vec![
        Sphere3D::new(1, Point::new(0, 0, 20 * SCALE), SCALE, [0, 0, 0]),
        Sphere3D::new(2, Point::new(0, 0, 10 * SCALE), SCALE, [0, 0, 0]),
    ];
    let hit = first_collision(Point::origin(), z_axis(), None, &spheres);
    assert_eq!(hit, Some((9 * SCALE, 1)));
}

#[test]
fn last_sphere_is_excluded() {
    let spheres = vec![
        Sphere3D::new(1, Point::new(0, 0, 10 * SCALE), SCALE, [0, 0, 0]),
        Sphere3D::new(2, Point::new(0, 0, 20 * SCALE), SCALE, [0, 0, 0]),
    ];
    let hit = first_collision(Point::origin(), z_axis(), Some(1), &spheres);
    assert_eq!(hit, Some((19 * SCALE, 1)));
}

#[test]
fn ties_keep_list_order() {
    // Two identical spheres: the earlier one in list order wins the tie.
    let spheres = vec![
        Sphere3D::new(1, Point::new(0, 0, 10 * SCALE), SCALE, [0, 0, 0]),
        Sphere3D::new(2, Point::new(0, 0, 10 * SCALE), SCALE, [0, 0, 0]),
    ];
    let hit = first_collision(Point::origin(), z_axis(), None, &spheres);
    assert_eq!(hit, Some((9 * SCALE, 0)));
}

#[test]
fn no_candidate_resolves_to_none() {
    let spheres = vec![Sphere3D::new(1, Point::new(0, 0, -10 * SCALE), SCALE, [0, 0, 0])];
    assert_eq!(first_collision(Point::origin(), z_axis(), None, &spheres), None);
}
