//! The sphere primitive: a geometric solid with a center, a squared radius
//! and a diffuse color, together with its ray-intersection solver.

use vstd::prelude::*;

use crate::fixed::SCALE;
use crate::fixed::fxmul;
use crate::fixed::sqrt_floor;
use crate::fixed::lemma_sqrt_le;

use crate::fixed::lemma_mul_bound;
use crate::fixed::lemma_sdiv_bound;
use crate::fixed::lemma_sdiv_ordered;
use crate::fixed::mul_fx;
use crate::fixed::isqrt;
use crate::geom3d::COORD_MAX;
use crate::geom3d::POINT_MAX;
use crate::geom3d::UNIT_MAX;
use crate::geom3d::Point;
use crate::geom3d::Unit;
use crate::geom3d::Vect;
use crate::geom3d::point_coord;
use crate::geom3d::point_bounded;
use crate::geom3d::spec_to;
use crate::geom3d::spec_dot;
use crate::geom3d::spec_norm2;
use crate::geom3d::spec_unit;
use crate::geom3d::lemma_dot_bound;
use crate::geom3d::lemma_square_nonneg;
use crate::geom3d::lemma_norm2_bound;

verus! {

/// Largest squared radius a validated sphere can carry:
/// `fxmul(COORD_MAX, COORD_MAX)`.
pub const RSQ_MAX: i128 = 0x100_0000_0000_0000;

/// Bound on every distance the intersection solver can return.
pub const DIST_MAX: i128 = 0x100_0000_0000_0000;

/// `a`, with negative values raised to zero.
pub open spec fn max0(a: int) -> int {
    if a < 0 {
        0
    } else {
        a
    }
}

/// A sphere with an identity, a center, a squared radius and a diffuse color
/// whose components are fixed-point values in `[0, 255]`. Immutable once
/// constructed; treat the fields as read-only and build values with
/// [`Sphere3D::new`].
#[derive(Clone, Copy, Debug, PartialEq, Eq, Structural)]
pub struct Sphere3D {
    pub id: u32,
    pub center: Point,
    pub color: Vect,
    pub squared_radius: i128,
}

impl Sphere3D {
    /// A validated sphere: coordinates, squared radius and color channels all
    /// within the scene bounds.
    pub open spec fn wf(self) -> bool {
        &&& point_coord(self.center)
        &&& 0 <= self.squared_radius <= RSQ_MAX
        &&& 0 <= self.color.x <= 255 * SCALE
        &&& 0 <= self.color.y <= 255 * SCALE
        &&& 0 <= self.color.z <= 255 * SCALE
    }

    pub fn new(id: u32, center: Point, radius: i128, color: [u8; 3]) -> (r: Sphere3D)
        requires
            point_coord(center),
            0 < radius <= COORD_MAX,
        ensures
            r.id == id,
            r.center == center,
            r.squared_radius == fxmul(radius as int, radius as int),
            r.color.x == color@[0] * SCALE,
            r.color.y == color@[1] * SCALE,
            r.color.z == color@[2] * SCALE,
            r.wf(),
    {
        proof {
            lemma_square_nonneg(radius as int);
            lemma_mul_bound(radius as int, radius as int, COORD_MAX as int, COORD_MAX as int);
            lemma_sdiv_ordered(
                (radius as int) * (radius as int),
                (COORD_MAX as int) * (COORD_MAX as int),
                SCALE as int,
            );
        }
        Sphere3D {
            id,
            center,
            squared_radius: mul_fx(radius, radius),
            color: Vect {
                x: (color[0] as i128) * SCALE,
                y: (color[1] as i128) * SCALE,
                z: (color[2] as i128) * SCALE,
            },
        }
    }

    pub fn squared_radius(&self) -> (r: i128)
        ensures
            r == self.squared_radius,
    {
        self.squared_radius
    }

    pub fn center(&self) -> (r: Point)
        ensures
            r == self.center,
    {
        self.center
    }

    pub fn color(&self) -> (r: Vect)
        ensures
            r == self.color,
    {
        self.color
    }

    /// Finds the distance along the ray `start + t * direction` at which the
    /// ray first meets the sphere, or `None` if it misses; see [`spec_trace`]
    /// for the exact root-selection policy.
    ///
    /// When the reduced discriminant is exactly zero (the tangent case),
    /// exactly one non-negative distance is returned: the single root, raised
    /// to zero if it is behind the ray origin.
    pub fn trace(&self, start: Point, direction: Unit) -> (r: Option<i128>)
        requires
            self.wf(),
            direction.wf(),
            point_bounded(start),
        ensures
            r == spec_trace(*self, start, direction),
            r matches Some(d) ==> 0 <= d <= DIST_MAX,
            spec_reduced_delta(*self, start, direction) == 0 ==> r == Some(
                max0(spec_half_b(*self, start, direction)) as i128,
            ),
    {
        let oc: Vect = start.to(self.center());
        proof {
            lemma_dot_bound(
                direction.0,
                oc,
                UNIT_MAX as int,
                (POINT_MAX as int) + (COORD_MAX as int),
            );
        }
        let minus_b_over_2: i128 = direction.to_vect().dot(oc);
        assert(-0x40_0000_0000_0000 <= minus_b_over_2 <= 0x40_0000_0000_0000);
        let co: Vect = self.center().to(start);
        proof {
            lemma_norm2_bound(co, (POINT_MAX as int) + (COORD_MAX as int));
        }
        let n2: i128 = co.norm2();
        assert(0 <= n2 <= 0x100_0000_0000_0000_0000_0000);
        let c: i128 = n2 - self.squared_radius();
        proof {
            lemma_mul_bound(
                minus_b_over_2 as int,
                minus_b_over_2 as int,
                0x40_0000_0000_0000,
                0x40_0000_0000_0000,
            );
            lemma_sdiv_bound(
                (minus_b_over_2 as int) * (minus_b_over_2 as int),
                0x1000_0000_0000_0000_0000_0000_0000,
                SCALE as int,
            );
        }
        let hh: i128 = mul_fx(minus_b_over_2, minus_b_over_2);
        let reduced_delta: i128 = hh - c;
        if reduced_delta < 0 {
            None
        } else if reduced_delta > 0 {
            let arg: i128 = reduced_delta * SCALE;
            let sq_u: u128 = isqrt(arg as u128);
            proof {
                lemma_sqrt_le(arg as int, sq_u as int, 0x80_0000_0000_0000);
            }
            let sqrt_reduced_delta: i128 = sq_u as i128;
            let x1: i128 = minus_b_over_2 - sqrt_reduced_delta;
            let x2: i128 = minus_b_over_2 + sqrt_reduced_delta;
            if x1 >= 0 {
                Some(x1)
            } else if x2 >= 0 {
                Some(x2)
            } else {
                None
            }
        } else {
            if minus_b_over_2 >= 0 {
                Some(minus_b_over_2)
            } else {
                Some(0)
            }
        }
    }

    /// The outward surface normal at `point`: the unit vector from the center
    /// toward `point`. Callers should only pass points on the sphere surface;
    /// `None` is reported when `point` coincides with the center.
    pub fn normal_vector(&self, point: Point) -> (r: Option<Unit>)
        requires
            self.wf(),
            point_bounded(point),
        ensures
            r == spec_unit(spec_to(self.center, point)),
            r matches Some(u) ==> u.wf(),
    {
        self.center().to(point).unit()
    }
}

/// Half of the negated linear coefficient of the ray-sphere quadratic:
/// `direction . (center - start)`.
pub open spec fn spec_half_b(s: Sphere3D, start: Point, dir: Unit) -> int {
    spec_dot(dir.0, spec_to(start, s.center))
}

/// The constant coefficient of the ray-sphere quadratic:
/// `|start - center|^2 - squared_radius`.
pub open spec fn spec_cval(s: Sphere3D, start: Point) -> int {
    spec_norm2(spec_to(s.center, start)) - s.squared_radius
}

/// The reduced discriminant of the ray-sphere quadratic, computed with the
/// half-b substitution.
pub open spec fn spec_reduced_delta(s: Sphere3D, start: Point, dir: Unit) -> int {
    fxmul(spec_half_b(s, start, dir), spec_half_b(s, start, dir)) - spec_cval(s, start)
}

/// The root-selection policy of the intersection solver: no root for a
/// negative reduced discriminant; the smaller non-negative root if two exist,
/// else the larger if non-negative, else none; and for a discriminant of
/// exactly zero the single root, raised to zero.
pub open spec fn spec_trace(s: Sphere3D, start: Point, dir: Unit) -> Option<i128> {
    let h = spec_half_b(s, start, dir);
    let delta = spec_reduced_delta(s, start, dir);
    if delta < 0 {
        None
    } else if delta > 0 {
        let sq = sqrt_floor(delta * (SCALE as int));
        if h - sq >= 0 {
            Some((h - sq) as i128)
        } else if h + sq >= 0 {
            Some((h + sq) as i128)
        } else {
            None
        }
    } else {
        Some(max0(h) as i128)
    }
}

} // verus!
