//! The ray-tracing pipeline: mirror bounce, scene intersection resolver,
//! shading and compositing, and the per-pixel bounce state machine.
//!
//! The bounce loop is a state machine with two states, tracing and
//! terminated. While tracing, each step resolves the nearest admissible hit,
//! advances the ray, reflects it, and composites a diffuse contribution; the
//! loop is forced to terminate after a configured maximum number of bounces,
//! so every pixel finishes within that many iterations whatever the geometry.

use vstd::prelude::*;

use crate::fixed::SCALE;
use crate::fixed::sdiv;
use crate::fixed::fxmul;
use crate::fixed::lemma_sdiv_bound;
use crate::fixed::lemma_sdiv_ordered;
use crate::fixed::div_trunc;
use crate::geom3d::POINT_MAX;
use crate::geom3d::UNIT_MAX;
use crate::geom3d::Point;
use crate::geom3d::Unit;
use crate::geom3d::Vect;
use crate::geom3d::point_bounded;
use crate::geom3d::point_coord;
use crate::geom3d::vect_in_range;
use crate::geom3d::spec_to;
use crate::geom3d::spec_padd;
use crate::geom3d::spec_scale;
use crate::geom3d::spec_cross;
use crate::geom3d::spec_dot;
use crate::geom3d::spec_unit;
use crate::geom3d::spec_bytes;
use crate::geom3d::spec_x_reflexion;
use crate::geom3d::x_reflexion;
use crate::geom3d::lemma_scale_vect_bound;
use crate::geom3d::lemma_dot_bound;
use crate::sphere3d::DIST_MAX;
use crate::sphere3d::Sphere3D;
use crate::sphere3d::spec_trace;

verus! {

/// Every sphere of the slice is validated.
pub open spec fn spheres_wf(s: Seq<Sphere3D>) -> bool {
    forall|i: int| 0 <= i < s.len() ==> (#[trigger] s[i]).wf()
}

/// An accumulated color: every fixed-point channel stays in `[0, 255]`.
pub open spec fn color_acc_wf(v: Vect) -> bool {
    &&& 0 <= v.x <= 255 * SCALE
    &&& 0 <= v.y <= 255 * SCALE
    &&& 0 <= v.z <= 255 * SCALE
}

/// The transient per-pixel state of the bounce loop: current point and
/// direction, the identity of the sphere hit last (excluded from the next
/// resolver query only), the color accumulated so far, and a bounce counter.
pub struct RayState {
    pub point: Point,
    pub direction: Unit,
    pub last_sphere: Option<u32>,
    pub accumulated: Option<Vect>,
    pub bounces: u32,
}

impl RayState {
    pub open spec fn wf(self) -> bool {
        &&& point_bounded(self.point)
        &&& self.direction.wf()
        &&& self.accumulated matches Some(v) ==> color_acc_wf(v)
    }
}

/// Mirror reflection of `ray` about `normal`, via the orthonormal basis
/// `e1 = normal`, `e2 = e1 x ray`, `e3 = e1 x e2`.
pub open spec fn spec_bounce(ray: Unit, normal: Unit) -> Option<Unit> {
    match spec_unit(spec_cross(normal.0, ray.0)) {
        None => None,
        Some(e2) => match spec_unit(spec_cross(normal.0, e2.0)) {
            None => None,
            Some(e3) => spec_x_reflexion(ray, normal, e2, e3),
        },
    }
}

/// Reflects `ray` about `normal` by building an orthonormal `(e1, e2, e3)`
/// basis and flipping the `e1` coordinate. `None` when the basis degenerates
/// (a ray parallel to the normal) or a component check fails.
pub fn bounce(ray: Unit, normal: Unit) -> (r: Option<Unit>)
    requires
        ray.wf(),
        normal.wf(),
    ensures
        r == spec_bounce(ray, normal),
        r matches Some(u) ==> u.wf(),
{
    let e1: Unit = normal;
    match e1.cross(ray) {
        None => None,
        Some(e2) => match e1.cross(e2) {
            None => None,
            Some(e3) => x_reflexion(ray, (e1, e2, e3)),
        },
    }
}

/// Exponential blend of a new contribution against the history: the first
/// contribution is kept whole, later ones average into the accumulator with
/// equal halves (a single truncating halving of the sum).
pub open spec fn spec_add_color(color: Vect, current_color: Option<Vect>) -> Vect {
    match current_color {
        None => color,
        Some(cur) => Vect {
            x: sdiv(cur.x + color.x, 2) as i128,
            y: sdiv(cur.y + color.y, 2) as i128,
            z: sdiv(cur.z + color.z, 2) as i128,
        },
    }
}

/// Composites a local shading color into the accumulator. With no prior
/// accumulated color the local color is returned exactly as it is; otherwise
/// the result weighs the previous accumulator and the new color equally.
pub fn add_color(color: Vect, current_color: Option<Vect>) -> (r: Vect)
    requires
        vect_in_range(color),
        current_color matches Some(c) ==> vect_in_range(c),
    ensures
        r == spec_add_color(color, current_color),
        current_color is None ==> r == color,
{
    match current_color {
        None => color,
        Some(current) => Vect {
            x: div_trunc(current.x + color.x, 2),
            y: div_trunc(current.y + color.y, 2),
            z: div_trunc(current.z + color.z, 2),
        },
    }
}

/// A sphere is a candidate hit for the resolver: the ray meets it at a
/// strictly positive distance and it is not the excluded last-hit sphere.
pub open spec fn spec_admissible(s: Sphere3D, start: Point, dir: Unit, last: Option<u32>) -> bool {
    &&& spec_trace(s, start, dir) matches Some(d) && d > 0
    &&& (last matches Some(id) ==> s.id != id)
}

/// The nearest admissible hit among the first `n` spheres, as a
/// `(distance, index)` pair; ties keep the earlier sphere in list order.
pub open spec fn spec_first_collision(
    spheres: Seq<Sphere3D>,
    start: Point,
    dir: Unit,
    last: Option<u32>,
    n: int,
) -> Option<(i128, int)>
    decreases n,
{
    if n <= 0 {
        None
    } else {
        let prev = spec_first_collision(spheres, start, dir, last, n - 1);
        if spec_admissible(spheres[n - 1], start, dir, last) {
            match (prev, spec_trace(spheres[n - 1], start, dir)) {
                (None, Some(d)) => Some((d, n - 1)),
                (Some(p), Some(d)) => if d < p.0 {
                    Some((d, n - 1))
                } else {
                    Some(p)
                },
                _ => prev,
            }
        } else {
            prev
        }
    }
}

/// No admissible sphere in the prefix means no collision is resolved.
pub proof fn lemma_first_collision_none(
    spheres: Seq<Sphere3D>,
    start: Point,
    dir: Unit,
    last: Option<u32>,
    n: int,
)
    requires
        forall|i: int| 0 <= i < n ==> !spec_admissible(#[trigger] spheres[i], start, dir, last),
    ensures
        spec_first_collision(spheres, start, dir, last, n) is None,
    decreases n,
{
    if n > 0 {
        lemma_first_collision_none(spheres, start, dir, last, n - 1);
    }
}

/// The resolved collision is sound and minimal: a resolved pair is an
/// admissible hit at its traced distance, no admissible sphere of the prefix
/// is nearer, and nothing is resolved exactly when no sphere is admissible.
pub proof fn lemma_first_collision_minimal(
    spheres: Seq<Sphere3D>,
    start: Point,
    dir: Unit,
    last: Option<u32>,
    n: int,
)
    requires
        0 <= n <= spheres.len(),
    ensures
        spec_first_collision(spheres, start, dir, last, n) matches Some(p) ==> (0 <= p.1 < n
            && spec_admissible(spheres[p.1], start, dir, last) && spec_trace(
            spheres[p.1],
            start,
            dir,
        ) == Some(p.0) && (forall|j: int|
            0 <= j < n && spec_admissible(#[trigger] spheres[j], start, dir, last)
                ==> p.0 <= spec_trace(spheres[j], start, dir)->Some_0)),
        (spec_first_collision(spheres, start, dir, last, n) is None) ==> (forall|j: int|
            0 <= j < n ==> !spec_admissible(#[trigger] spheres[j], start, dir, last)),
    decreases n,
{
    if n > 0 {
        lemma_first_collision_minimal(spheres, start, dir, last, n - 1);
    }
}

/// Resolves the nearest admissible intersection: every sphere except the
/// excluded one is traced, non-positive distances are discarded, and the
/// minimum distance wins (ties go to the earlier sphere in list order).
pub fn first_collision(
    start: Point,
    direction: Unit,
    maybe_last_sphere: Option<u32>,
    objects: &Vec<Sphere3D>,
) -> (r: Option<(i128, usize)>)
    requires
        spheres_wf(objects@),
        point_bounded(start),
        direction.wf(),
    ensures
        (r is None) <==> (spec_first_collision(
            objects@,
            start,
            direction,
            maybe_last_sphere,
            objects@.len() as int,
        ) is None),
        r matches Some(p) ==> (spec_first_collision(
            objects@,
            start,
            direction,
            maybe_last_sphere,
            objects@.len() as int,
        ) == Some((p.0, p.1 as int)) && p.1 < objects@.len() && 0 < p.0 <= DIST_MAX),
{
    let mut best: Option<(i128, usize)> = None;
    let mut i: usize = 0;
    while i < objects.len()
        invariant
            spheres_wf(objects@),
            point_bounded(start),
            direction.wf(),
            i <= objects@.len(),
            (best is None) <==> (spec_first_collision(
                objects@,
                start,
                direction,
                maybe_last_sphere,
                i as int,
            ) is None),
            best matches Some(p) ==> (spec_first_collision(
                objects@,
                start,
                direction,
                maybe_last_sphere,
                i as int,
            ) == Some((p.0, p.1 as int)) && p.1 < i && 0 < p.0 <= DIST_MAX),
        decreases objects@.len() - i,
    {
        let sphere: &Sphere3D = &objects[i];
        let id_ok: bool = match maybe_last_sphere {
            None => true,
            Some(last_id) => sphere.id != last_id,
        };
        if id_ok {
            if let Some(dist) = sphere.trace(start, direction) {
                if dist > 0 {
                    best = match best {
                        None => Some((dist, i)),
                        Some(p) => if dist < p.0 {
                            Some((dist, i))
                        } else {
                            Some(p)
                        },
                    };
                }
            }
        }
        i = i + 1;
    }
    best
}

/// The state of the bounce machine after one transition: still tracing, or
/// terminated with the color accumulated so far.
pub enum TraceStatus {
    Tracing(RayState),
    Terminated(Option<Vect>),
}

/// One transition of the bounce state machine. A missed resolve terminates
/// with the accumulated color; a hit advances the ray to the hit point,
/// composites the diffuse contribution of the hit sphere, and keeps tracing
/// with the mirror-reflected direction, the hit sphere excluded from the
/// next resolve only. A hit whose geometry degenerates in fixed point (a
/// point out of range, a vanishing normal or light vector) terminates with
/// the color accumulated before it; a hit whose reflected basis degenerates
/// still composites its own contribution, then terminates.
pub open spec fn spec_step(spheres: Seq<Sphere3D>, light: Point, st: RayState) -> TraceStatus {
    match spec_first_collision(spheres, st.point, st.direction, st.last_sphere, spheres.len() as int) {
        None => TraceStatus::Terminated(st.accumulated),
        Some(hit) => {
            let sphere = spheres[hit.1];
            let np = spec_padd(st.point, spec_scale(hit.0 as int, st.direction.0));
            if !point_bounded(np) {
                TraceStatus::Terminated(st.accumulated)
            } else {
                match spec_unit(spec_to(sphere.center, np)) {
                    None => TraceStatus::Terminated(st.accumulated),
                    Some(n) => match spec_unit(spec_to(np, light)) {
                        None => TraceStatus::Terminated(st.accumulated),
                        Some(l) => {
                            let lum0 = spec_dot(l.0, n.0);
                            let lum: int = if lum0 < 0 {
                                0
                            } else if lum0 > SCALE {
                                SCALE as int
                            } else {
                                lum0
                            };
                            let local = spec_scale(lum, sphere.color);
                            let acc = spec_add_color(local, st.accumulated);
                            match spec_bounce(st.direction, n) {
                                None => TraceStatus::Terminated(Some(acc)),
                                Some(nd) => TraceStatus::Tracing(
                                    RayState {
                                        point: np,
                                        direction: nd,
                                        last_sphere: Some(sphere.id),
                                        accumulated: Some(acc),
                                        bounces: (st.bounces + 1) as u32,
                                    },
                                ),
                            }
                        },
                    },
                }
            }
        },
    }
}

/// Runs the bounce state machine for at most `fuel` steps and returns the
/// color accumulated when it terminates (or when the fuel runs out).
pub open spec fn spec_run(spheres: Seq<Sphere3D>, light: Point, st: RayState, fuel: nat) -> Option<
    Vect,
>
    decreases fuel,
{
    if fuel == 0 {
        st.accumulated
    } else {
        match spec_step(spheres, light, st) {
            TraceStatus::Terminated(acc) => acc,
            TraceStatus::Tracing(st2) => spec_run(spheres, light, st2, (fuel - 1) as nat),
        }
    }
}

/// Executes one bounce: resolve, advance, shade, composite, reflect.
pub fn trace_step(spheres: &Vec<Sphere3D>, light: Point, st: &RayState) -> (r: TraceStatus)
    requires
        spheres_wf(spheres@),
        point_coord(light),
        st.wf(),
        st.bounces < u32::MAX,
    ensures
        r == spec_step(spheres@, light, *st),
        r matches TraceStatus::Tracing(s2) ==> s2.wf(),
        r matches TraceStatus::Tracing(s2) ==> s2.bounces == st.bounces + 1,
        r matches TraceStatus::Terminated(acc) ==> (acc matches Some(v) ==> color_acc_wf(v)),
{
    match first_collision(st.point, st.direction, st.last_sphere, spheres) {
        None => TraceStatus::Terminated(st.accumulated),
        Some((distance, idx)) => {
            let sphere: &Sphere3D = &spheres[idx];
            proof {
                lemma_scale_vect_bound(
                    distance as int,
                    st.direction.0,
                    DIST_MAX as int,
                    UNIT_MAX as int,
                );
            }
            let step_v: Vect = st.direction.to_vect().scale(distance);
            let new_point: Point = st.point.add(step_v);
            if !(-POINT_MAX <= new_point.x && new_point.x <= POINT_MAX && -POINT_MAX
                <= new_point.y && new_point.y <= POINT_MAX && -POINT_MAX <= new_point.z
                && new_point.z <= POINT_MAX) {
                return TraceStatus::Terminated(st.accumulated);
            }
            match sphere.normal_vector(new_point) {
                None => TraceStatus::Terminated(st.accumulated),
                Some(n) => {
                    let ml: Vect = new_point.to(light);
                    match ml.unit() {
                        None => TraceStatus::Terminated(st.accumulated),
                        Some(l) => {
                            proof {
                                lemma_dot_bound(l.0, n.0, UNIT_MAX as int, UNIT_MAX as int);
                            }
                            let lum0: i128 = l.dot(n);
                            let luminosity: i128 = if lum0 < 0 {
                                0
                            } else if lum0 > SCALE {
                                SCALE
                            } else {
                                lum0
                            };
                            proof {
                                lemma_local_color_wf(luminosity as int, sphere.color);
                            }
                            let sphere_color: Vect = sphere.color().scale(luminosity);
                            proof {
                                lemma_add_color_wf(sphere_color, st.accumulated);
                            }
                            let acc: Vect = add_color(sphere_color, st.accumulated);
                            match bounce(st.direction, n) {
                                None => TraceStatus::Terminated(Some(acc)),
                                Some(new_direction) => TraceStatus::Tracing(
                                    RayState {
                                        point: new_point,
                                        direction: new_direction,
                                        last_sphere: Some(sphere.id),
                                        accumulated: Some(acc),
                                        bounces: st.bounces + 1,
                                    },
                                ),
                            }
                        },
                    }
                },
            }
        },
    }
}

/// A luminosity in `[0, 1]` scales a valid color into a valid color.
proof fn lemma_local_color_wf(lum: int, c: Vect)
    requires
        0 <= lum <= SCALE,
        color_acc_wf(c),
    ensures
        color_acc_wf(spec_scale(lum, c)),
{
    lemma_fx_channel(lum, c.x as int);
    lemma_fx_channel(lum, c.y as int);
    lemma_fx_channel(lum, c.z as int);
}

proof fn lemma_fx_channel(lum: int, ch: int)
    requires
        0 <= lum <= SCALE,
        0 <= ch <= 255 * SCALE,
    ensures
        0 <= fxmul(lum, ch) <= 255 * SCALE,
{
    assert(lum * ch <= 255 * ((SCALE as int) * (SCALE as int)) && 0 <= lum * ch)
        by (nonlinear_arith)
        requires
            0 <= lum <= SCALE,
            0 <= ch <= 255 * SCALE;
    lemma_sdiv_ordered(lum * ch, 255 * ((SCALE as int) * (SCALE as int)), SCALE as int);
}

/// Compositing two valid colors yields a valid color.
proof fn lemma_add_color_wf(c: Vect, acc: Option<Vect>)
    requires
        color_acc_wf(c),
        acc matches Some(a) ==> color_acc_wf(a),
    ensures
        color_acc_wf(spec_add_color(c, acc)),
{
    match acc {
        None => {},
        Some(a) => {
            lemma_sdiv_ordered(a.x + c.x, 510 * (SCALE as int), 2);
            lemma_sdiv_ordered(a.y + c.y, 510 * (SCALE as int), 2);
            lemma_sdiv_ordered(a.z + c.z, 510 * (SCALE as int), 2);
        },
    }
}

/// The color of one pixel: the background when the initial direction cannot
/// be normalized or no bounce ever lands, else the byte triple of the color
/// the bounce loop accumulates within `max_bounces` steps.
pub open spec fn spec_pixel(
    spheres: Seq<Sphere3D>,
    light: Point,
    background: [u8; 3],
    observer: Point,
    screen_point: Point,
    max_bounces: u32,
) -> Seq<u8> {
    match spec_unit(spec_to(observer, screen_point)) {
        None => background@,
        Some(d0) => {
            let st0 = RayState {
                point: observer,
                direction: d0,
                last_sphere: None,
                accumulated: None,
                bounces: 0,
            };
            match spec_run(spheres, light, st0, max_bounces as nat) {
                None => background@,
                Some(v) => spec_bytes(v),
            }
        },
    }
}

/// Traces one pixel: casts the ray from `observer` through `screen_point`,
/// runs the bounce state machine for at most `max_bounces` steps, and
/// returns the accumulated color as bytes, or `background` if no bounce
/// occurred. Guaranteed to terminate within `max_bounces` iterations for
/// every scene, including ones engineered to reflect rays back and forth.
pub fn color(
    observer: Point,
    screen_point: Point,
    spheres: &Vec<Sphere3D>,
    light: Point,
    background: [u8; 3],
    max_bounces: u32,
) -> (r: [u8; 3])
    requires
        spheres_wf(spheres@),
        point_bounded(observer),
        point_bounded(screen_point),
        point_coord(light),
    ensures
        r@ == spec_pixel(spheres@, light, background, observer, screen_point, max_bounces),
{
    let start_dir: Option<Unit> = observer.to(screen_point).unit();
    match start_dir {
        None => background,
        Some(d0) => {
            let mut st: RayState = RayState {
                point: observer,
                direction: d0,
                last_sphere: None,
                accumulated: None,
                bounces: 0,
            };
            let ghost full: Option<Vect> = spec_run(spheres@, light, st, max_bounces as nat);
            let mut k: u32 = 0;
            while k < max_bounces
                invariant_except_break

                    spheres_wf(spheres@),
                    point_coord(light),
                    st.wf(),
                    k <= max_bounces,
                    st.bounces == k,
                    spec_run(spheres@, light, st, (max_bounces - k) as nat) == full,
                ensures
                    st.wf(),
                    st.accumulated == full,
                decreases max_bounces - k,
            {
                match trace_step(spheres, light, &st) {
                    TraceStatus::Terminated(acc) => {
                        assert(spec_run(spheres@, light, st, (max_bounces - k) as nat) == acc);
                        st = RayState { accumulated: acc, ..st };
                        break ;
                    },
                    TraceStatus::Tracing(st2) => {
                        assert(spec_run(spheres@, light, st, (max_bounces - k) as nat)
                            == spec_run(spheres@, light, st2, (max_bounces - k - 1) as nat));
                        st = st2;
                        k = k + 1;
                    },
                }
            }
            match st.accumulated {
                None => background,
                Some(v) => v.as_vec_u8(),
            }
        },
    }
}

/// A pixel whose initial ray misses every sphere in the scene (no sphere is
/// an admissible candidate) gets exactly the configured background color.
pub proof fn lemma_no_hit_pixel(
    spheres: Seq<Sphere3D>,
    light: Point,
    background: [u8; 3],
    observer: Point,
    screen_point: Point,
    max_bounces: u32,
    d0: Unit,
)
    requires
        spec_unit(spec_to(observer, screen_point)) == Some(d0),
        forall|i: int|
            0 <= i < spheres.len() ==> !spec_admissible(
                #[trigger] spheres[i],
                observer,
                d0,
                None,
            ),
    ensures
        spec_pixel(spheres, light, background, observer, screen_point, max_bounces)
            == background@,
{
    let st0 = RayState {
        point: observer,
        direction: d0,
        last_sphere: None,
        accumulated: None,
        bounces: 0,
    };
    lemma_first_collision_none(spheres, observer, d0, None, spheres.len() as int);
    assert(spec_step(spheres, light, st0) == TraceStatus::Terminated(st0.accumulated));
    assert(spec_run(spheres, light, st0, max_bounces as nat) is None);
}

} // verus!
