//! Scene configuration, its one-time validation, and the rasterization
//! driver that maps pixels to camera rays and fills the output buffer.
//!
//! A raw [`RenderConfig`] is validated once, before any pixel is traced;
//! rendering then consumes the resulting read-only [`Scene`]. The output is a
//! `width * height` buffer of RGB byte triples in row-major pixel order, and
//! it is a pure function of the scene: rendering is deterministic.

use vstd::prelude::*;
use vstd::arithmetic::div_mod::lemma_fundamental_div_mod_converse_div;
use vstd::arithmetic::div_mod::lemma_fundamental_div_mod_converse_mod;

use crate::fixed::SCALE;
use crate::fixed::fxmul;
use crate::geom3d::COORD_MAX;
use crate::geom3d::Point;
use crate::geom3d::Vect;
use crate::geom3d::point_coord;
use crate::geom3d::point_bounded;
use crate::sphere3d::Sphere3D;
use crate::render::color;
use crate::render::spec_pixel;
use crate::render::spheres_wf;

verus! {

/// Half of [`SCALE`]: the fixed-point value of one half, used to center the
/// pixel grid on the optical axis.
pub const HALF_SCALE: i128 = 32768;

/// Largest accepted image dimension; keeps `3 * width * height` well within
/// `usize` on every platform.
pub const DIM_MAX: u32 = 4096;

/// One sphere record of the input configuration: identity, center, radius
/// (fixed-point, must be positive) and an RGB color.
#[derive(Clone, Copy, Debug)]
pub struct SphereConfig {
    pub id: u32,
    pub center: Point,
    pub radius: i128,
    pub color: [u8; 3],
}

/// The input configuration of a render: image size, camera-to-screen
/// distance, light-source position, background color, the sphere records,
/// and the enforced maximum bounce count.
#[derive(Debug)]
pub struct RenderConfig {
    pub width: u32,
    pub height: u32,
    pub screen_distance: i128,
    pub light: Point,
    pub background: [u8; 3],
    pub spheres: Vec<SphereConfig>,
    pub max_bounces: u32,
}

/// Why a configuration was rejected; see [`RenderConfig::validate`] for the
/// exact conditions.
#[derive(Clone, Copy, Debug, PartialEq, Eq, Structural)]
pub enum ConfigError {
    BadDimensions,
    BadScreenDistance,
    CoordinateOutOfRange,
    NonPositiveRadius,
    NonPositiveBounceLimit,
}

/// A validated, read-only scene; build one with [`RenderConfig::validate`]
/// and treat the fields as read-only.
#[derive(Debug)]
pub struct Scene {
    pub spheres: Vec<Sphere3D>,
    pub width: u32,
    pub height: u32,
    pub screen_distance: i128,
    pub light: Point,
    pub background: [u8; 3],
    pub max_bounces: u32,
}

pub open spec fn spec_dims_ok(cfg: RenderConfig) -> bool {
    &&& 1 <= cfg.width <= DIM_MAX
    &&& 1 <= cfg.height <= DIM_MAX
}

pub open spec fn spec_dist_ok(cfg: RenderConfig) -> bool {
    0 < cfg.screen_distance <= COORD_MAX
}

pub open spec fn spec_radii_ok(s: Seq<SphereConfig>) -> bool {
    forall|i: int| 0 <= i < s.len() ==> (#[trigger] s[i]).radius > 0
}

pub open spec fn spec_ranges_ok(s: Seq<SphereConfig>) -> bool {
    forall|i: int|
        0 <= i < s.len() ==> (point_coord((#[trigger] s[i]).center) && s[i].radius <= COORD_MAX)
}

/// Every condition a configuration must meet to be rendered.
pub open spec fn spec_config_ok(cfg: RenderConfig) -> bool {
    &&& spec_dims_ok(cfg)
    &&& spec_dist_ok(cfg)
    &&& point_coord(cfg.light)
    &&& spec_radii_ok(cfg.spheres@)
    &&& spec_ranges_ok(cfg.spheres@)
    &&& cfg.max_bounces >= 1
}

/// The sphere a validated record builds: the radius squared in fixed point,
/// the color channels raised to fixed point.
pub open spec fn spec_make_sphere(c: SphereConfig) -> Sphere3D {
    Sphere3D {
        id: c.id,
        center: c.center,
        color: Vect {
            x: (c.color@[0] * (SCALE as int)) as i128,
            y: (c.color@[1] * (SCALE as int)) as i128,
            z: (c.color@[2] * (SCALE as int)) as i128,
        },
        squared_radius: fxmul(c.radius as int, c.radius as int) as i128,
    }
}

impl Scene {
    pub open spec fn wf(self) -> bool {
        &&& spheres_wf(self.spheres@)
        &&& 1 <= self.width <= DIM_MAX
        &&& 1 <= self.height <= DIM_MAX
        &&& 0 < self.screen_distance <= COORD_MAX
        &&& point_coord(self.light)
        &&& self.max_bounces >= 1
    }
}

impl RenderConfig {
    /// Validates the configuration, once, before any pixel is traced:
    /// dimensions and screen distance in range, light and sphere coordinates
    /// within the fixed-point coordinate bound, every radius positive, and a
    /// positive maximum bounce count. Rendering does not proceed otherwise.
    pub fn validate(&self) -> (r: Result<Scene, ConfigError>)
        ensures
            (r is Ok) <==> spec_config_ok(*self),
            (r == Err::<Scene, ConfigError>(ConfigError::BadDimensions)) <==> !spec_dims_ok(
                *self,
            ),
            (r == Err::<Scene, ConfigError>(ConfigError::BadScreenDistance)) <==> (spec_dims_ok(
                *self,
            ) && !spec_dist_ok(*self)),
            (r == Err::<Scene, ConfigError>(ConfigError::CoordinateOutOfRange)) <==> (spec_dims_ok(
                *self,
            ) && spec_dist_ok(*self) && (!point_coord(self.light) || (point_coord(self.light)
                && spec_radii_ok(self.spheres@) && !spec_ranges_ok(self.spheres@)))),
            (r == Err::<Scene, ConfigError>(ConfigError::NonPositiveRadius)) <==> (spec_dims_ok(
                *self,
            ) && spec_dist_ok(*self) && point_coord(self.light) && !spec_radii_ok(self.spheres@)),
            (r == Err::<Scene, ConfigError>(ConfigError::NonPositiveBounceLimit)) <==> (
            spec_dims_ok(*self) && spec_dist_ok(*self) && point_coord(self.light) && spec_radii_ok(
                self.spheres@,
            ) && spec_ranges_ok(self.spheres@) && self.max_bounces == 0),
            r matches Ok(s) ==> (s.wf() && s.width == self.width && s.height == self.height
                && s.screen_distance == self.screen_distance && s.light == self.light
                && s.background == self.background && s.max_bounces == self.max_bounces
                && s.spheres@.len() == self.spheres@.len() && (forall|i: int|
                0 <= i < self.spheres@.len() ==> s.spheres@[i] == spec_make_sphere(
                    #[trigger] self.spheres@[i],
                ))),
    {
        if !(self.width >= 1 && self.width <= DIM_MAX && self.height >= 1 && self.height
            <= DIM_MAX) {
            return Err(ConfigError::BadDimensions);
        }
        if !(self.screen_distance > 0 && self.screen_distance <= COORD_MAX) {
            return Err(ConfigError::BadScreenDistance);
        }
        if !(-COORD_MAX <= self.light.x && self.light.x <= COORD_MAX && -COORD_MAX <= self.light.y
            && self.light.y <= COORD_MAX && -COORD_MAX <= self.light.z && self.light.z
            <= COORD_MAX) {
            return Err(ConfigError::CoordinateOutOfRange);
        }
        let n: usize = self.spheres.len();
        let mut i: usize = 0;
        while i < n
            invariant
                n == self.spheres@.len(),
                i <= n,
                spec_dims_ok(*self),
                spec_dist_ok(*self),
                point_coord(self.light),
                forall|j: int| 0 <= j < i ==> (#[trigger] self.spheres@[j]).radius > 0,
            decreases n - i,
        {
            if self.spheres[i].radius <= 0 {
                proof {
                    assert(!spec_radii_ok(self.spheres@));
                }
                return Err(ConfigError::NonPositiveRadius);
            }
            i = i + 1;
        }
        let mut i: usize = 0;
        while i < n
            invariant
                n == self.spheres@.len(),
                i <= n,
                spec_dims_ok(*self),
                spec_dist_ok(*self),
                point_coord(self.light),
                spec_radii_ok(self.spheres@),
                forall|j: int|
                    0 <= j < i ==> (point_coord((#[trigger] self.spheres@[j]).center)
                        && self.spheres@[j].radius <= COORD_MAX),
            decreases n - i,
        {
            let c: &SphereConfig = &self.spheres[i];
            if !(-COORD_MAX <= c.center.x && c.center.x <= COORD_MAX && -COORD_MAX <= c.center.y
                && c.center.y <= COORD_MAX && -COORD_MAX <= c.center.z && c.center.z <= COORD_MAX
                && c.radius <= COORD_MAX) {
                proof {
                    assert(!spec_ranges_ok(self.spheres@));
                }
                return Err(ConfigError::CoordinateOutOfRange);
            }
            i = i + 1;
        }
        if self.max_bounces == 0 {
            return Err(ConfigError::NonPositiveBounceLimit);
        }
        let mut spheres: Vec<Sphere3D> = Vec::new();
        let mut i: usize = 0;
        while i < n
            invariant
                n == self.spheres@.len(),
                i <= n,
                spec_radii_ok(self.spheres@),
                spec_ranges_ok(self.spheres@),
                spheres@.len() == i as int,
                forall|j: int|
                    0 <= j < i ==> spheres@[j] == spec_make_sphere(#[trigger] self.spheres@[j]),
                spheres_wf(spheres@),
            decreases n - i,
        {
            let c: &SphereConfig = &self.spheres[i];
            let s: Sphere3D = Sphere3D::new(c.id, c.center, c.radius, c.color);
            spheres.push(s);
            i = i + 1;
        }
        Ok(
            Scene {
                spheres,
                width: self.width,
                height: self.height,
                screen_distance: self.screen_distance,
                light: self.light,
                background: self.background,
                max_bounces: self.max_bounces,
            },
        )
    }
}

/// The point of the virtual screen plane a pixel maps to:
/// `(x - width / 2, y - height / 2, screen_distance)` in world units.
pub open spec fn spec_screen_point(x: int, y: int, w: int, h: int, d: i128) -> Point {
    Point {
        x: ((2 * x - w) * (HALF_SCALE as int)) as i128,
        y: ((2 * y - h) * (HALF_SCALE as int)) as i128,
        z: d,
    }
}

/// Maps pixel coordinates to the corresponding point of the virtual screen
/// plane, centered on the optical axis at the given distance.
pub fn screen_to_space(x: u32, y: u32, width: u32, height: u32, screen_distance: i128) -> (r:
    Point)
    requires
        x <= 0x10000,
        y <= 0x10000,
        width <= 0x10000,
        height <= 0x10000,
        -COORD_MAX <= screen_distance <= COORD_MAX,
    ensures
        r == spec_screen_point(x as int, y as int, width as int, height as int, screen_distance),
        point_bounded(r),
{
    Point {
        x: ((x as i128) * 2 - (width as i128)) * HALF_SCALE,
        y: ((y as i128) * 2 - (height as i128)) * HALF_SCALE,
        z: screen_distance,
    }
}

/// The byte at offset `i` of the rendered buffer: pixel `i / 3` in row-major
/// order, channel `i % 3`.
pub open spec fn spec_render_byte(s: Scene, i: int) -> u8 {
    let p = i / 3;
    let ch = i % 3;
    let x = p % (s.width as int);
    let y = p / (s.width as int);
    spec_pixel(
        s.spheres@,
        s.light,
        s.background,
        Point { x: 0, y: 0, z: 0 },
        spec_screen_point(x, y, s.width as int, s.height as int, s.screen_distance),
        s.max_bounces,
    )[ch]
}

/// The whole rendered buffer: `3 * width * height` bytes, row-major RGB.
pub open spec fn spec_render(s: Scene) -> Seq<u8> {
    Seq::new((3 * s.width * s.height) as nat, |i: int| spec_render_byte(s, i))
}

proof fn lemma_pixel_index(s: Scene, x: int, y: int, c: int)
    requires
        0 <= x < s.width,
        0 <= y < s.height,
        0 <= c < 3,
    ensures
        spec_render_byte(s, 3 * (y * (s.width as int) + x) + c) == spec_pixel(
            s.spheres@,
            s.light,
            s.background,
            Point { x: 0, y: 0, z: 0 },
            spec_screen_point(x, y, s.width as int, s.height as int, s.screen_distance),
            s.max_bounces,
        )[c],
{
    let w = s.width as int;
    let p = y * w + x;
    lemma_fundamental_div_mod_converse_div(3 * p + c, 3, p, c);
    lemma_fundamental_div_mod_converse_mod(3 * p + c, 3, p, c);
    lemma_fundamental_div_mod_converse_div(p, w, y, x);
    lemma_fundamental_div_mod_converse_mod(p, w, y, x);
}

/// Renders the scene into a fresh buffer of `width * height` RGB byte
/// triples in row-major pixel order. Every pixel is a pure function of the
/// scene, so the buffer is exactly [`spec_render`] and rendering the same
/// scene twice is byte-identical (see [`lemma_render_deterministic`]).
pub fn create_image(scene: &Scene) -> (r: Vec<u8>)
    requires
        scene.wf(),
    ensures
        r@ == spec_render(*scene),
{
    let w: u32 = scene.width;
    let h: u32 = scene.height;
    let mut buf: Vec<u8> = Vec::new();
    let mut y: u32 = 0;
    while y < h
        invariant
            scene.wf(),
            w == scene.width,
            h == scene.height,
            y <= h,
            buf@.len() == 3 * (w as int) * (y as int),
            forall|j: int| 0 <= j < buf@.len() ==> buf@[j] == spec_render_byte(*scene, j),
        decreases h - y,
    {
        let mut x: u32 = 0;
        while x < w
            invariant
                scene.wf(),
                w == scene.width,
                h == scene.height,
                y < h,
                x <= w,
                buf@.len() == 3 * (w as int) * (y as int) + 3 * (x as int),
                forall|j: int| 0 <= j < buf@.len() ==> buf@[j] == spec_render_byte(*scene, j),
            decreases w - x,
        {
            let sp: Point = screen_to_space(x, y, w, h, scene.screen_distance);
            let px: [u8; 3] = color(
                Point::origin(),
                sp,
                &scene.spheres,
                scene.light,
                scene.background,
                scene.max_bounces,
            );
            let ghost base: int = 3 * ((y as int) * (w as int) + (x as int));
            proof {
                assert(3 * ((y as int) * (w as int) + (x as int)) == 3 * (w as int) * (y as int)
                    + 3 * (x as int)) by (nonlinear_arith);
                lemma_pixel_index(*scene, x as int, y as int, 0);
                lemma_pixel_index(*scene, x as int, y as int, 1);
                lemma_pixel_index(*scene, x as int, y as int, 2);
            }
            buf.push(px[0]);
            buf.push(px[1]);
            buf.push(px[2]);
            proof {
                assert(buf@[base] == spec_render_byte(*scene, base));
                assert(buf@[base + 1] == spec_render_byte(*scene, base + 1));
                assert(buf@[base + 2] == spec_render_byte(*scene, base + 2));
            }
            x = x + 1;
        }
        proof {
            assert(3 * (w as int) * (y as int) + 3 * (w as int) == 3 * (w as int) * ((y + 1) as int))
                by (nonlinear_arith);
        }
        y = y + 1;
    }
    proof {
        assert(buf@ =~= spec_render(*scene));
    }
    buf
}

/// Rendering is deterministic: the buffer is a pure function of the scene,
/// so two renders of the same configuration are byte-identical.
pub proof fn lemma_render_deterministic(s: Scene, a: Seq<u8>, b: Seq<u8>)
    requires
        a == spec_render(s),
        b == spec_render(s),
    ensures
        a == b,
{
}

} // verus!
