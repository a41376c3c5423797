//! Tests of shading, compositing, the per-pixel bounce loop, configuration
//! validation, and the rasterization driver.

use sphere_tracer::SCALE;
use sphere_tracer::ConfigError;
use sphere_tracer::Point;
use sphere_tracer::RenderConfig;
use sphere_tracer::Sphere3D;
use sphere_tracer::SphereConfig;
use sphere_tracer::Vect;
use sphere_tracer::add_color;
use sphere_tracer::color;
use sphere_tracer::create_image;
use sphere_tracer::screen_to_space;

fn base_config() -> RenderConfig {
    RenderConfig {
        width: 8,
        height: 8,
        screen_distance: 500 * SCALE,
        light: Point::new(5 * SCALE, 0, 8 * SCALE),
        background: [50, 50, 50],
        spheres: vec![
            SphereConfig {
                id: 1,
                center: Point::new(0, 5 * SCALE, 10 * SCALE),
                radius: SCALE,
                color: [216, 84, 52],
            },
            SphereConfig {
                id: 2,
                center: Point::new(0, 0, 10 * SCALE),
                radius: SCALE,
                color: [52, 84, 216],
            },
            SphereConfig {
                id: 3,
                center: Point::new(5 * SCALE, -5 * SCALE, 15 * SCALE),
                radius: 5 * SCALE,
                color: [84, 216, 52],
            },
        ],
        max_bounces: 4,
    }
}

#[test]
fn first_contribution_is_kept_whole() {
    let c = Vect::new(100 * SCALE, 50 * SCALE, 25 * SCALE);
    assert_eq!(add_color(c, None), c);
}

#[test]
fn later_contributions_average() {
    let c = Vect::new(100 * SCALE, 50 * SCALE, 25 * SCALE);
    let prev = Vect::new(200 * SCALE, 100 * SCALE, 25 * SCALE);
    assert_eq!(
        add_color(c, Some(prev)),
        Vect::new(150 * SCALE, 75 * SCALE, 25 * SCALE)
    );
}

#[test]
fn no_hit_pixel_is_background() {
    // The only sphere sits behind the observer: the forward ray misses it and
    // the pixel gets exactly the configured background color.
    let spheres = vec![Sphere3D::new(1, Point::new(0, 0, -10 * SCALE), SCALE, [10, 20, 30])];
    let screen = Point::new(0, 0, 500 * SCALE);
    let px = color(
        Point::origin(),
        screen,
        &spheres,
        Point::new(5 * SCALE, 0, 8 * SCALE),
        [50, 60, 70],
        4,
    );
    assert_eq!(px, [50, 60, 70]);
}

#[test]
fn single_bounce_pixel_is_local_color() {
    // One sphere met head on: the ray bounces once (the reflected basis then
    // degenerates), so the pixel is exactly the first local shading color,
    // with no blend dilution. The expected value is rebuilt from the public
    // pieces of the pipeline.
    let light = Point::new(5 * SCALE, 0, 8 * SCALE);
    let sphere = Sphere3D::new(2, Point::new(0, 0, 10 * SCALE), SCALE, [52, 84, 216]);
    let dir = Vect::new(0, 0, SCALE).unit().unwrap();
    let dist = sphere.trace(Point::origin(), dir).unwrap();
    assert_eq!(dist, 9 * SCALE);
    let hit = Point::new(0, 0, 9 * SCALE);
    let n = sphere.normal_vector(hit).unwrap();
    let l = hit.to(light).unit().unwrap();
    let mut lum = l.dot(n);
    if lum < 0 {
        lum = 0;
    }
    if lum > SCALE {
        lum = SCALE;
    }
    let expected = sphere.color().scale(lum).as_vec_u8();

    let spheres = vec![sphere];
    let screen = Point::new(0, 0, 500 * SCALE);
    let px = color(Point::origin(), screen, &spheres, light, [50, 50, 50], 1);
    assert_eq!(px, expected);
    // A higher bounce limit changes nothing for this geometry.
    let px4 = color(Point::origin(), screen, &spheres, light, [50, 50, 50], 4);
    assert_eq!(px4, expected);
}

#[test]
fn head_on_fully_lit_pixel_shows_sphere_color() {
    // With the light at the observer, the hit point of a head-on ray is lit
    // at full luminosity (l . n = 1 exactly), so the pixel is exactly the
    // sphere's color.
    let sphere = Sphere3D::new(2, Point::new(0, 0, 10 * SCALE), SCALE, [52, 84, 216]);
    let spheres = vec![sphere];
    let px = color(
        Point::origin(),
        Point::new(0, 0, 500 * SCALE),
        &spheres,
        Point::origin(),
        [50, 50, 50],
        4,
    );
    assert_eq!(px, [52, 84, 216]);
}

#[test]
fn rendering_is_deterministic() {
    let scene = base_config().validate().unwrap();
    let a = create_image(&scene);
    let b = create_image(&scene);
    assert_eq!(a.len(), 3 * 8 * 8);
    assert_eq!(a, b);
}

#[test]
fn bounce_loop_is_bounded() {
    // Two large spheres facing each other, engineered to reflect rays back
    // and forth: the render still returns, within the configured cap.
    let cfg = RenderConfig {
        width: 4,
        height: 4,
        screen_distance: 2 * SCALE,
        light: Point::new(0, 10 * SCALE, 5 * SCALE),
        background: [0, 0, 0],
        spheres: vec![
            SphereConfig {
                id: 1,
                center: Point::new(0, 0, 20 * SCALE),
                radius: 8 * SCALE,
                color: [255, 255, 255],
            },
            SphereConfig {
                id: 2,
                center: Point::new(0, 0, -20 * SCALE),
                radius: 8 * SCALE,
                color: [255, 255, 255],
            },
        ],
        max_bounces: 16,
    };
    let scene = cfg.validate().unwrap();
    let buf = create_image(&scene);
    assert_eq!(buf.len(), 3 * 4 * 4);
}

#[test]
fn driver_matches_per_pixel_tracing() {
    let cfg = base_config();
    let scene = cfg.validate().unwrap();
    let buf = create_image(&scene);
    // Spot-check a pixel of the buffer against a direct trace of its ray.
    let x: u32 = 3;
    let y: u32 = 4;
    let screen = screen_to_space(x, y, 8, 8, 500 * SCALE);
    let px = color(
        Point::origin(),
        screen,
        &scene.spheres,
        scene.light,
        scene.background,
        scene.max_bounces,
    );
    let base = 3 * (y as usize * 8 + x as usize);
    assert_eq!([buf[base], buf[base + 1], buf[base + 2]], px);
}

#[test]
fn screen_mapping_is_centered() {
    assert_eq!(
        screen_to_space(0, 0, 1920, 1080, 500 * SCALE),
        Point::new(-960 * SCALE, -540 * SCALE, 500 * SCALE)
    );
    assert_eq!(
        screen_to_space(960, 540, 1920, 1080, 500 * SCALE),
        Point::new(0, 0, 500 * SCALE)
    );
    // Odd dimensions center on a half-pixel, exactly representable.
    assert_eq!(
        screen_to_space(0, 0, 3, 3, SCALE),
        Point::new(-3 * (SCALE / 2), -3 * (SCALE / 2), SCALE)
    );
}

#[test]
fn validation_rejects_bad_configs() {
    let mut cfg = base_config();
    cfg.width = 0;
    assert_eq!(cfg.validate().err(), Some(ConfigError::BadDimensions));

    let mut cfg = base_config();
    cfg.screen_distance = 0;
    assert_eq!(cfg.validate().err(), Some(ConfigError::BadScreenDistance));

    let mut cfg = base_config();
    cfg.light = Point::new(0, 0, i128::MAX / 2);
    assert_eq!(cfg.validate().err(), Some(ConfigError::CoordinateOutOfRange));

    let mut cfg = base_config();
    cfg.spheres[1].center = Point::new(0, 0, i128::MAX / 2);
    assert_eq!(cfg.validate().err(), Some(ConfigError::CoordinateOutOfRange));

    let mut cfg = base_config();
    cfg.spheres[0].radius = 0;
    assert_eq!(cfg.validate().err(), Some(ConfigError::NonPositiveRadius));

    let mut cfg = base_config();
    cfg.max_bounces = 0;
    assert_eq!(cfg.validate().err(), Some(ConfigError::NonPositiveBounceLimit));
}

#[test]
fn validation_accepts_the_demo_scene() {
    let scene = base_config().validate().unwrap();
    assert_eq!(scene.spheres.len(), 3);
    assert_eq!(scene.spheres[2].squared_radius(), 25 * SCALE);
    assert_eq!(scene.max_bounces, 4);
}
