//! Geometric algebra over fixed-point scalars: free vectors, points, unit
//! vectors, and mirror reflection about an orthonormal basis.
//!
//! Every operation has an exact specification in terms of [`crate::fixed`]'s
//! truncating arithmetic. Unit vectors are a restricted type: they can only be
//! produced by normalization (or by the reflection of unit vectors), and both
//! constructors check that the resulting components stay within [`UNIT_MAX`],
//! so well-formedness of a `Unit` is an invariant every contract can rely on.

use vstd::prelude::*;

use crate::fixed::SCALE;
use crate::fixed::VAL_MAX;
use crate::fixed::SQRT_ARG_MAX;
use crate::fixed::sdiv;
use crate::fixed::fxmul;
use crate::fixed::is_sqrt;
use crate::fixed::sqrt_floor;
use crate::fixed::lemma_sqrt_le;
use crate::fixed::lemma_mul_bound;
use crate::fixed::lemma_sdiv_bound;
use crate::fixed::lemma_sdiv_ordered;
use crate::fixed::div_trunc;
use crate::fixed::mul_fx;
use crate::fixed::isqrt;

verus! {

/// Magnitude bound on the components of a well-formed [`Unit`]: twice
/// [`SCALE`], generous room for the rounding of normalization.
pub const UNIT_MAX: i128 = 131072;

/// Magnitude bound on validated scene coordinates (sphere centers, radii,
/// the light source, the screen distance).
pub const COORD_MAX: i128 = 0x10_0000_0000;

/// Magnitude bound on the coordinates of a point carried by the bounce loop;
/// a trace whose hit point would leave this range is terminated instead.
pub const POINT_MAX: i128 = 0x4_0000_0000_0000;

/// A free vector with fixed-point components.
#[derive(Clone, Copy, Debug, PartialEq, Eq, Structural)]
pub struct Vect {
    pub x: i128,
    pub y: i128,
    pub z: i128,
}

/// A position with fixed-point coordinates.
#[derive(Clone, Copy, Debug, PartialEq, Eq, Structural)]
pub struct Point {
    pub x: i128,
    pub y: i128,
    pub z: i128,
}

/// A direction of (fixed-point) length one. Produced only by
/// [`Vect::unit`] and the reflection of unit vectors, which check
/// [`Unit::wf`]; treat the inner vector as read-only.
#[derive(Clone, Copy, Debug, PartialEq, Eq, Structural)]
pub struct Unit(pub Vect);

/// The components of `v` are within the general algebra bound.
pub open spec fn vect_in_range(v: Vect) -> bool {
    &&& -VAL_MAX <= v.x <= VAL_MAX
    &&& -VAL_MAX <= v.y <= VAL_MAX
    &&& -VAL_MAX <= v.z <= VAL_MAX
}

/// The coordinates of `p` are within the general algebra bound.
pub open spec fn point_in_range(p: Point) -> bool {
    &&& -VAL_MAX <= p.x <= VAL_MAX
    &&& -VAL_MAX <= p.y <= VAL_MAX
    &&& -VAL_MAX <= p.z <= VAL_MAX
}

/// The coordinates of `p` are within the bounce loop's point bound.
pub open spec fn point_bounded(p: Point) -> bool {
    &&& -POINT_MAX <= p.x <= POINT_MAX
    &&& -POINT_MAX <= p.y <= POINT_MAX
    &&& -POINT_MAX <= p.z <= POINT_MAX
}

/// The coordinates of `p` are within the validated scene coordinate bound.
pub open spec fn point_coord(p: Point) -> bool {
    &&& -COORD_MAX <= p.x <= COORD_MAX
    &&& -COORD_MAX <= p.y <= COORD_MAX
    &&& -COORD_MAX <= p.z <= COORD_MAX
}

pub open spec fn spec_add(a: Vect, b: Vect) -> Vect {
    Vect { x: (a.x + b.x) as i128, y: (a.y + b.y) as i128, z: (a.z + b.z) as i128 }
}

pub open spec fn spec_sub(a: Vect, b: Vect) -> Vect {
    Vect { x: (a.x - b.x) as i128, y: (a.y - b.y) as i128, z: (a.z - b.z) as i128 }
}

/// The scalar product `s * v`, component-wise fixed-point multiplication.
pub open spec fn spec_scale(s: int, v: Vect) -> Vect {
    Vect {
        x: fxmul(s, v.x as int) as i128,
        y: fxmul(s, v.y as int) as i128,
        z: fxmul(s, v.z as int) as i128,
    }
}

/// The quotient `v / s`, component-wise fixed-point division.
pub open spec fn spec_divide(v: Vect, s: int) -> Vect {
    Vect {
        x: sdiv(v.x * (SCALE as int), s) as i128,
        y: sdiv(v.y * (SCALE as int), s) as i128,
        z: sdiv(v.z * (SCALE as int), s) as i128,
    }
}

/// The fixed-point dot product of `a` and `b`.
pub open spec fn spec_dot(a: Vect, b: Vect) -> int {
    sdiv(a.x * b.x + a.y * b.y + a.z * b.z, SCALE as int)
}

/// The fixed-point cross product of `a` and `b`.
pub open spec fn spec_cross(a: Vect, b: Vect) -> Vect {
    Vect {
        x: sdiv(a.y * b.z - a.z * b.y, SCALE as int) as i128,
        y: sdiv(a.z * b.x - a.x * b.z, SCALE as int) as i128,
        z: sdiv(a.x * b.y - a.y * b.x, SCALE as int) as i128,
    }
}

/// The fixed-point squared norm of `v`.
pub open spec fn spec_norm2(v: Vect) -> int {
    sdiv(v.x * v.x + v.y * v.y + v.z * v.z, SCALE as int)
}

/// The fixed-point norm of `v`: the floor square root of `norm2 * SCALE`.
pub open spec fn spec_norm(v: Vect) -> int {
    sqrt_floor(spec_norm2(v) * (SCALE as int))
}

/// Normalization of `v`: `v / norm(v)`, or `None` if the norm vanishes or a
/// quotient component falls outside the unit bound.
pub open spec fn spec_unit(v: Vect) -> Option<Unit> {
    let nm = spec_norm(v);
    if nm <= 0 {
        None
    } else {
        let ux = sdiv(v.x * (SCALE as int), nm);
        let uy = sdiv(v.y * (SCALE as int), nm);
        let uz = sdiv(v.z * (SCALE as int), nm);
        if -UNIT_MAX <= ux <= UNIT_MAX && -UNIT_MAX <= uy <= UNIT_MAX && -UNIT_MAX <= uz
            <= UNIT_MAX {
            Some(Unit(Vect { x: ux as i128, y: uy as i128, z: uz as i128 }))
        } else {
            None
        }
    }
}

/// The byte triple obtained by truncating each component of `v` down to whole
/// units (meaningful for components in `[0, 256 * SCALE)`).
pub open spec fn spec_bytes(v: Vect) -> Seq<u8> {
    seq![
        sdiv(v.x as int, SCALE as int) as u8,
        sdiv(v.y as int, SCALE as int) as u8,
        sdiv(v.z as int, SCALE as int) as u8,
    ]
}

/// The directional vector from `a` to `b`.
pub open spec fn spec_to(a: Point, b: Point) -> Vect {
    Vect { x: (b.x - a.x) as i128, y: (b.y - a.y) as i128, z: (b.z - a.z) as i128 }
}

/// The point `p + v`.
pub open spec fn spec_padd(p: Point, v: Vect) -> Point {
    Point { x: (p.x + v.x) as i128, y: (p.y + v.y) as i128, z: (p.z + v.z) as i128 }
}

/// A square is never negative.
pub proof fn lemma_square_nonneg(a: int) by (nonlinear_arith)
    ensures
        a * a >= 0,
{
}

/// Bounds the fixed-point dot product from bounds on the operands.
pub proof fn lemma_dot_bound(a: Vect, b: Vect, am: int, bm: int)
    requires
        0 <= am,
        0 <= bm,
        -am <= a.x <= am,
        -am <= a.y <= am,
        -am <= a.z <= am,
        -bm <= b.x <= bm,
        -bm <= b.y <= bm,
        -bm <= b.z <= bm,
    ensures
        -((3 * (am * bm)) / (SCALE as int)) <= spec_dot(a, b) <= (3 * (am * bm)) / (
        SCALE as int),
{
    lemma_mul_bound(a.x as int, b.x as int, am, bm);
    lemma_mul_bound(a.y as int, b.y as int, am, bm);
    lemma_mul_bound(a.z as int, b.z as int, am, bm);
    lemma_sdiv_bound(a.x * b.x + a.y * b.y + a.z * b.z, 3 * (am * bm), SCALE as int);
}

/// The fixed-point squared norm is non-negative and bounded by the components.
pub proof fn lemma_norm2_bound(v: Vect, m: int)
    requires
        0 <= m,
        -m <= v.x <= m,
        -m <= v.y <= m,
        -m <= v.z <= m,
    ensures
        0 <= spec_norm2(v) <= (3 * (m * m)) / (SCALE as int),
{
    lemma_square_nonneg(v.x as int);
    lemma_square_nonneg(v.y as int);
    lemma_square_nonneg(v.z as int);
    lemma_mul_bound(v.x as int, v.x as int, m, m);
    lemma_mul_bound(v.y as int, v.y as int, m, m);
    lemma_mul_bound(v.z as int, v.z as int, m, m);
    lemma_sdiv_ordered(v.x * v.x + v.y * v.y + v.z * v.z, 3 * (m * m), SCALE as int);
}

impl Vect {
    pub fn new(x: i128, y: i128, z: i128) -> (r: Vect)
        ensures
            r.x == x,
            r.y == y,
            r.z == z,
    {
        Vect { x, y, z }
    }

    pub fn dot(self, other: Vect) -> (r: i128)
        requires
            vect_in_range(self),
            vect_in_range(other),
        ensures
            r == spec_dot(self, other),
    {
        proof {
            lemma_mul_bound(self.x as int, other.x as int, VAL_MAX as int, VAL_MAX as int);
            lemma_mul_bound(self.y as int, other.y as int, VAL_MAX as int, VAL_MAX as int);
            lemma_mul_bound(self.z as int, other.z as int, VAL_MAX as int, VAL_MAX as int);
        }
        let s: i128 = self.x * other.x + self.y * other.y + self.z * other.z;
        div_trunc(s, SCALE)
    }

    pub fn cross(self, other: Vect) -> (r: Vect)
        requires
            vect_in_range(self),
            vect_in_range(other),
        ensures
            r == spec_cross(self, other),
    {
        proof {
            lemma_mul_bound(self.y as int, other.z as int, VAL_MAX as int, VAL_MAX as int);
            lemma_mul_bound(self.z as int, other.y as int, VAL_MAX as int, VAL_MAX as int);
            lemma_mul_bound(self.z as int, other.x as int, VAL_MAX as int, VAL_MAX as int);
            lemma_mul_bound(self.x as int, other.z as int, VAL_MAX as int, VAL_MAX as int);
            lemma_mul_bound(self.x as int, other.y as int, VAL_MAX as int, VAL_MAX as int);
            lemma_mul_bound(self.y as int, other.x as int, VAL_MAX as int, VAL_MAX as int);
        }
        Vect {
            x: div_trunc(self.y * other.z - self.z * other.y, SCALE),
            y: div_trunc(self.z * other.x - self.x * other.z, SCALE),
            z: div_trunc(self.x * other.y - self.y * other.x, SCALE),
        }
    }

    pub fn norm2(self) -> (r: i128)
        requires
            vect_in_range(self),
        ensures
            r == spec_norm2(self),
            r >= 0,
    {
        proof {
            lemma_norm2_bound(self, VAL_MAX as int);
            lemma_mul_bound(self.x as int, self.x as int, VAL_MAX as int, VAL_MAX as int);
            lemma_mul_bound(self.y as int, self.y as int, VAL_MAX as int, VAL_MAX as int);
            lemma_mul_bound(self.z as int, self.z as int, VAL_MAX as int, VAL_MAX as int);
        }
        let s: i128 = self.x * self.x + self.y * self.y + self.z * self.z;
        div_trunc(s, SCALE)
    }

    pub fn norm(self) -> (r: i128)
        requires
            vect_in_range(self),
        ensures
            r == spec_norm(self),
            is_sqrt(spec_norm2(self) * (SCALE as int), r as int),
            0 <= r <= 0x2000_0000_0000_0000,
    {
        proof {
            lemma_norm2_bound(self, VAL_MAX as int);
        }
        let n2: i128 = self.norm2();
        let arg: u128 = (n2 * SCALE) as u128;
        let r: u128 = isqrt(arg);
        proof {
            lemma_sqrt_le(arg as int, r as int, 0x2000_0000_0000_0000);
        }
        r as i128
    }

    /// Normalizes `self`, or returns `None` when the norm vanishes (a zero or
    /// near-zero vector, which callers are expected to rule out upstream) or
    /// when a quotient component escapes the unit bound.
    pub fn unit(self) -> (r: Option<Unit>)
        requires
            vect_in_range(self),
        ensures
            r == spec_unit(self),
            r matches Some(u) ==> u.wf(),
    {
        let nm: i128 = self.norm();
        if nm <= 0 {
            return None;
        }
        let ux: i128 = div_trunc(self.x * SCALE, nm);
        let uy: i128 = div_trunc(self.y * SCALE, nm);
        let uz: i128 = div_trunc(self.z * SCALE, nm);
        if -UNIT_MAX <= ux && ux <= UNIT_MAX && -UNIT_MAX <= uy && uy <= UNIT_MAX && -UNIT_MAX
            <= uz && uz <= UNIT_MAX {
            Some(Unit(Vect { x: ux, y: uy, z: uz }))
        } else {
            None
        }
    }

    /// Truncates each component down to a whole unit and returns the bytes;
    /// callers must keep the components inside `[0, 256 * SCALE)`.
    pub fn as_vec_u8(self) -> (r: [u8; 3])
        requires
            0 <= self.x < 256 * SCALE,
            0 <= self.y < 256 * SCALE,
            0 <= self.z < 256 * SCALE,
        ensures
            r@ == spec_bytes(self),
    {
        proof {
            lemma_sdiv_ordered(self.x as int, 256 * (SCALE as int) - 1, SCALE as int);
            lemma_sdiv_ordered(self.y as int, 256 * (SCALE as int) - 1, SCALE as int);
            lemma_sdiv_ordered(self.z as int, 256 * (SCALE as int) - 1, SCALE as int);
        }
        let bx: i128 = div_trunc(self.x, SCALE);
        let by: i128 = div_trunc(self.y, SCALE);
        let bz: i128 = div_trunc(self.z, SCALE);
        let r: [u8; 3] = [bx as u8, by as u8, bz as u8];
        proof {
            assert(r@ =~= spec_bytes(self));
        }
        r
    }

    pub fn add(self, other: Vect) -> (r: Vect)
        requires
            vect_in_range(self),
            vect_in_range(other),
        ensures
            r == spec_add(self, other),
    {
        Vect { x: self.x + other.x, y: self.y + other.y, z: self.z + other.z }
    }

    pub fn sub(self, other: Vect) -> (r: Vect)
        requires
            vect_in_range(self),
            vect_in_range(other),
        ensures
            r == spec_sub(self, other),
    {
        Vect { x: self.x - other.x, y: self.y - other.y, z: self.z - other.z }
    }

    /// The scalar product `s * self`.
    pub fn scale(self, s: i128) -> (r: Vect)
        requires
            vect_in_range(self),
            -VAL_MAX <= s <= VAL_MAX,
        ensures
            r == spec_scale(s as int, self),
    {
        Vect { x: mul_fx(s, self.x), y: mul_fx(s, self.y), z: mul_fx(s, self.z) }
    }

    /// The quotient `self / s` for a positive scalar `s`.
    pub fn div(self, s: i128) -> (r: Vect)
        requires
            vect_in_range(self),
            0 < s,
        ensures
            r == spec_divide(self, s as int),
    {
        proof {
            lemma_sdiv_bound(self.x * (SCALE as int), (VAL_MAX as int) * (SCALE as int), s as int);
            lemma_sdiv_bound(self.y * (SCALE as int), (VAL_MAX as int) * (SCALE as int), s as int);
            lemma_sdiv_bound(self.z * (SCALE as int), (VAL_MAX as int) * (SCALE as int), s as int);
            lemma_mul_bound(self.x as int, SCALE as int, VAL_MAX as int, SCALE as int);
            lemma_mul_bound(self.y as int, SCALE as int, VAL_MAX as int, SCALE as int);
            lemma_mul_bound(self.z as int, SCALE as int, VAL_MAX as int, SCALE as int);
        }
        Vect {
            x: div_trunc(self.x * SCALE, s),
            y: div_trunc(self.y * SCALE, s),
            z: div_trunc(self.z * SCALE, s),
        }
    }
}

impl Unit {
    /// The components of a unit vector stay within [`UNIT_MAX`]; both
    /// constructors check this, so it holds of every `Unit` they hand out.
    pub open spec fn wf(self) -> bool {
        &&& -UNIT_MAX <= self.0.x <= UNIT_MAX
        &&& -UNIT_MAX <= self.0.y <= UNIT_MAX
        &&& -UNIT_MAX <= self.0.z <= UNIT_MAX
    }

    pub fn to_vect(&self) -> (r: Vect)
        ensures
            r == self.0,
    {
        self.0
    }

    /// The cross product of two unit vectors, re-normalized.
    pub fn cross(self, other: Unit) -> (r: Option<Unit>)
        requires
            self.wf(),
            other.wf(),
        ensures
            r == spec_unit(spec_cross(self.0, other.0)),
            r matches Some(u) ==> u.wf(),
    {
        let c: Vect = self.0.cross(other.0);
        proof {
            lemma_mul_bound(self.0.y as int, other.0.z as int, UNIT_MAX as int, UNIT_MAX as int);
            lemma_mul_bound(self.0.z as int, other.0.y as int, UNIT_MAX as int, UNIT_MAX as int);
            lemma_mul_bound(self.0.z as int, other.0.x as int, UNIT_MAX as int, UNIT_MAX as int);
            lemma_mul_bound(self.0.x as int, other.0.z as int, UNIT_MAX as int, UNIT_MAX as int);
            lemma_mul_bound(self.0.x as int, other.0.y as int, UNIT_MAX as int, UNIT_MAX as int);
            lemma_mul_bound(self.0.y as int, other.0.x as int, UNIT_MAX as int, UNIT_MAX as int);
            lemma_sdiv_bound(
                self.0.y * other.0.z - self.0.z * other.0.y,
                2 * ((UNIT_MAX as int) * (UNIT_MAX as int)),
                SCALE as int,
            );
            lemma_sdiv_bound(
                self.0.z * other.0.x - self.0.x * other.0.z,
                2 * ((UNIT_MAX as int) * (UNIT_MAX as int)),
                SCALE as int,
            );
            lemma_sdiv_bound(
                self.0.x * other.0.y - self.0.y * other.0.x,
                2 * ((UNIT_MAX as int) * (UNIT_MAX as int)),
                SCALE as int,
            );
        }
        c.unit()
    }

    pub fn dot(self, other: Unit) -> (r: i128)
        requires
            self.wf(),
            other.wf(),
        ensures
            r == spec_dot(self.0, other.0),
    {
        self.0.dot(other.0)
    }
}

/// Mirror reflection of `v` with respect to the first coordinate of the
/// `(e1, e2, e3)` basis: the coordinates of `v` in that basis are computed,
/// the first is sign-flipped, and the result is re-expressed in the canonical
/// basis. The basis is expected to be orthonormal; the result is checked
/// against the unit bound and `None` is returned if the check fails.
pub open spec fn spec_x_reflexion(v: Unit, e1: Unit, e2: Unit, e3: Unit) -> Option<Unit> {
    let cx = spec_dot(v.0, e1.0);
    let cy = spec_dot(v.0, e2.0);
    let cz = spec_dot(v.0, e3.0);
    let w = spec_add(spec_add(spec_scale(-cx, e1.0), spec_scale(cy, e2.0)), spec_scale(cz, e3.0));
    if -UNIT_MAX <= w.x <= UNIT_MAX && -UNIT_MAX <= w.y <= UNIT_MAX && -UNIT_MAX <= w.z
        <= UNIT_MAX {
        Some(Unit(w))
    } else {
        None
    }
}

/// Returns the vector `v` reflected in respect to the first coordinate of the
/// `(e1, e2, e3)` basis, which is supposed to be orthonormal.
pub fn x_reflexion(v: Unit, basis: (Unit, Unit, Unit)) -> (r: Option<Unit>)
    requires
        v.wf(),
        basis.0.wf(),
        basis.1.wf(),
        basis.2.wf(),
    ensures
        r == spec_x_reflexion(v, basis.0, basis.1, basis.2),
        r matches Some(u) ==> u.wf(),
{
    let (e1, e2, e3) = basis;
    proof {
        lemma_dot_bound(v.0, e1.0, UNIT_MAX as int, UNIT_MAX as int);
        lemma_dot_bound(v.0, e2.0, UNIT_MAX as int, UNIT_MAX as int);
        lemma_dot_bound(v.0, e3.0, UNIT_MAX as int, UNIT_MAX as int);
    }
    let cx: i128 = v.dot(e1);
    let cy: i128 = v.dot(e2);
    let cz: i128 = v.dot(e3);
    proof {
        lemma_scale_unit_bound(-(cx as int), e1.0);
        lemma_scale_unit_bound(cy as int, e2.0);
        lemma_scale_unit_bound(cz as int, e3.0);
    }
    let w: Vect = e1.to_vect().scale(-cx).add(e2.to_vect().scale(cy)).add(e3.to_vect().scale(cz));
    if -UNIT_MAX <= w.x && w.x <= UNIT_MAX && -UNIT_MAX <= w.y && w.y <= UNIT_MAX && -UNIT_MAX
        <= w.z && w.z <= UNIT_MAX {
        Some(Unit(w))
    } else {
        None
    }
}

/// Scaling a unit vector by a scalar of dot-product size keeps every
/// component comfortably inside the general algebra bound.
pub proof fn lemma_scale_unit_bound(s: int, v: Vect)
    requires
        -0x100000 <= s <= 0x100000,
        -UNIT_MAX <= v.x <= UNIT_MAX,
        -UNIT_MAX <= v.y <= UNIT_MAX,
        -UNIT_MAX <= v.z <= UNIT_MAX,
    ensures
        -0x400000 <= fxmul(s, v.x as int) <= 0x400000,
        -0x400000 <= fxmul(s, v.y as int) <= 0x400000,
        -0x400000 <= fxmul(s, v.z as int) <= 0x400000,
{
    lemma_mul_bound(s, v.x as int, 0x100000, UNIT_MAX as int);
    lemma_mul_bound(s, v.y as int, 0x100000, UNIT_MAX as int);
    lemma_mul_bound(s, v.z as int, 0x100000, UNIT_MAX as int);
    lemma_sdiv_bound(s * v.x, 0x100000 * (UNIT_MAX as int), SCALE as int);
    lemma_sdiv_bound(s * v.y, 0x100000 * (UNIT_MAX as int), SCALE as int);
    lemma_sdiv_bound(s * v.z, 0x100000 * (UNIT_MAX as int), SCALE as int);
}

/// Reflection about the canonical basis is exact: with `e1` the x axis and
/// `(e2, e3)` the y and z axes, the reflection of any well-formed unit vector
/// flips exactly the sign of its first component — the mirror law
/// `d' = d - 2 (d . n) n` for `n` the x axis, with no rounding at all,
/// because the canonical basis is exactly representable.
pub proof fn lemma_x_reflexion_canonical(v: Unit)
    requires
        v.wf(),
    ensures
        ({
            let ex = Unit(Vect { x: SCALE, y: 0, z: 0 });
            let ey = Unit(Vect { x: 0, y: SCALE, z: 0 });
            let ez = Unit(Vect { x: 0, y: 0, z: SCALE });
            spec_x_reflexion(v, ex, ey, ez) == Some(
                Unit(Vect { x: (-v.0.x) as i128, y: v.0.y, z: v.0.z }),
            )
        }),
{
    crate::fixed::lemma_sdiv_multiple(v.0.x as int);
    crate::fixed::lemma_sdiv_multiple(v.0.y as int);
    crate::fixed::lemma_sdiv_multiple(v.0.z as int);
    crate::fixed::lemma_fxmul_one_zero(-(v.0.x as int));
    crate::fixed::lemma_fxmul_one_zero(v.0.y as int);
    crate::fixed::lemma_fxmul_one_zero(v.0.z as int);
}

/// Bounds the components of a scaled vector from bounds on the scalar and on
/// the vector's components.
pub proof fn lemma_scale_vect_bound(s: int, v: Vect, sm: int, vm: int)
    requires
        0 <= sm,
        0 <= vm,
        -sm <= s <= sm,
        -vm <= v.x <= vm,
        -vm <= v.y <= vm,
        -vm <= v.z <= vm,
    ensures
        -((sm * vm) / (SCALE as int)) <= fxmul(s, v.x as int) <= (sm * vm) / (SCALE as int),
        -((sm * vm) / (SCALE as int)) <= fxmul(s, v.y as int) <= (sm * vm) / (SCALE as int),
        -((sm * vm) / (SCALE as int)) <= fxmul(s, v.z as int) <= (sm * vm) / (SCALE as int),
{
    lemma_mul_bound(s, v.x as int, sm, vm);
    lemma_mul_bound(s, v.y as int, sm, vm);
    lemma_mul_bound(s, v.z as int, sm, vm);
    lemma_sdiv_bound(s * v.x, sm * vm, SCALE as int);
    lemma_sdiv_bound(s * v.y, sm * vm, SCALE as int);
    lemma_sdiv_bound(s * v.z, sm * vm, SCALE as int);
}

impl Point {
    pub fn new(x: i128, y: i128, z: i128) -> (r: Point)
        ensures
            r.x == x,
            r.y == y,
            r.z == z,
    {
        Point { x, y, z }
    }

    /// The directional vector from `self` to `other`.
    pub fn to(self, other: Point) -> (r: Vect)
        requires
            point_in_range(self),
            point_in_range(other),
        ensures
            r == spec_to(self, other),
    {
        Vect { x: other.x - self.x, y: other.y - self.y, z: other.z - self.z }
    }

    pub fn add(self, other: Vect) -> (r: Point)
        requires
            point_in_range(self),
            vect_in_range(other),
        ensures
            r == spec_padd(self, other),
    {
        Point { x: self.x + other.x, y: self.y + other.y, z: self.z + other.z }
    }

    /// The difference `self - other`, a directional vector.
    pub fn sub(self, other: Point) -> (r: Vect)
        requires
            point_in_range(self),
            point_in_range(other),
        ensures
            r == spec_to(other, self),
    {
        Vect { x: self.x - other.x, y: self.y - other.y, z: self.z - other.z }
    }

    pub fn origin() -> (r: Point)
        ensures
            r.x == 0,
            r.y == 0,
            r.z == 0,
    {
        Point { x: 0, y: 0, z: 0 }
    }
}

} // verus!
