//! The ray tracer: scan every sphere for the nearest valid hit and
//! shade it, or fall back to the background color.

use vstd::prelude::*;
use crate::color::{spec_adjust, spec_white, white, Color};
use crate::fixed::{lemma_tdiv_bound_by_factor, tdiv, COORD_LIMIT, SCALE, T_LIMIT};
use crate::light::{light_wf, Light};
use crate::object::{Normal, Object, NO_HIT};
use crate::shading::{intensity_at_point, spec_intensity, LIGHTS_LIMIT};
use crate::sphere::{spec_intersections, spec_normal, sphere_wf, Sphere};
use crate::vec3::{lemma_abs_mul, v_bounded, V3, Vec3};

verus! {

/// One sphere's update of the running closest hit `(t, index)`: each of
/// its two roots replaces the running hit when strictly closer and
/// strictly between the ray bounds; ties keep the earlier sphere.
pub open spec fn spec_scan_step(
    s: Sphere,
    o: V3,
    d: V3,
    tmin: int,
    tmax: int,
    best: (int, int),
    i: int,
) -> (int, int) {
    let ts = spec_intersections(s, o, d);
    let b1 = if ts.0 < best.0 && tmin < ts.0 && ts.0 < tmax {
        (ts.0, i)
    } else {
        best
    };
    if ts.1 < b1.0 && tmin < ts.1 && ts.1 < tmax {
        (ts.1, i)
    } else {
        b1
    }
}

/// The closest valid hit among the first `n` spheres, in scene order:
/// the pair of the winning parametric distance and the winning sphere's
/// index, `(NO_HIT, -1)` while nothing has hit.
pub open spec fn spec_closest_upto(
    spheres: Seq<Sphere>,
    o: V3,
    d: V3,
    tmin: int,
    tmax: int,
    n: nat,
) -> (int, int)
    decreases n,
{
    if n == 0 {
        (NO_HIT as int, -1)
    } else {
        spec_scan_step(
            spheres[n - 1],
            o,
            d,
            tmin,
            tmax,
            spec_closest_upto(spheres, o, d, tmin, tmax, (n - 1) as nat),
            n - 1,
        )
    }
}

/// The closest valid hit across the whole scene.
pub open spec fn spec_closest(spheres: Seq<Sphere>, o: V3, d: V3, tmin: int, tmax: int) -> (
    int,
    int,
) {
    spec_closest_upto(spheres, o, d, tmin, tmax, spheres.len())
}

/// The point the ray reaches at parameter `t` (both in fixed-point
/// steps): `o + (t / SCALE) * d`, rounded toward zero per component.
pub open spec fn spec_hit_point(o: V3, d: V3, t: int) -> V3 {
    V3 {
        x: o.x + tdiv(t * d.x, SCALE as int),
        y: o.y + tdiv(t * d.y, SCALE as int),
        z: o.z + tdiv(t * d.z, SCALE as int),
    }
}

/// What tracing one ray yields: the background color when no sphere has
/// a valid hit, otherwise the winning sphere's base color scaled by the
/// shading intensity at the hit point.
pub open spec fn spec_trace(
    spheres: Seq<Sphere>,
    lights: Seq<Light>,
    o: V3,
    d: V3,
    tmin: int,
    tmax: int,
) -> Color {
    let hit = spec_closest(spheres, o, d, tmin, tmax);
    if hit.1 < 0 {
        spec_white()
    } else {
        let s = spheres[hit.1];
        let p = spec_hit_point(o, d, hit.0);
        spec_adjust(s.color, spec_intensity(p, spec_normal(s, p), lights, s, d))
    }
}

/// A scene the tracer accepts: every sphere and light well formed, and
/// few enough lights for the intensity arithmetic.
pub open spec fn scene_wf(spheres: Seq<Sphere>, lights: Seq<Light>) -> bool {
    &&& forall|i: int| 0 <= i < spheres.len() ==> sphere_wf(#[trigger] spheres[i])
    &&& forall|i: int| 0 <= i < lights.len() ==> light_wf(#[trigger] lights[i])
    &&& lights.len() <= LIGHTS_LIMIT
}

/// Traces one ray against the scene: finds the nearest sphere hit with
/// a parameter strictly between `point_min` and `point_max` (first
/// sphere wins ties) and shades it; a miss yields the background.
#[verifier::loop_isolation(false)]
pub fn trace_ray(
    ray_origin: &Vec3,
    ray_direction: &Vec3,
    lights: &Vec<Light>,
    point_min: i64,
    point_max: i64,
    spheres: &Vec<Sphere>,
) -> (c: Color)
    requires
        v_bounded(ray_origin@, COORD_LIMIT as int),
        v_bounded(ray_direction@, COORD_LIMIT as int),
        scene_wf(spheres@, lights@),
        -T_LIMIT <= point_min,
        point_max <= T_LIMIT,
    ensures
        c == spec_trace(
            spheres@,
            lights@,
            ray_origin@,
            ray_direction@,
            point_min as int,
            point_max as int,
        ),
{
    let ghost tmin: int = point_min as int;
    let ghost tmax: int = point_max as int;
    let n: usize = spheres.len();
    let mut closest_solution: i128 = NO_HIT;
    let mut closest_index: usize = 0;
    let mut found: bool = false;
    let mut i: usize = 0;
    while i < n
        invariant
            i <= n,
            found ==> closest_index < i,
            found ==> (closest_solution as int, closest_index as int) == spec_closest_upto(
                spheres@,
                ray_origin@,
                ray_direction@,
                tmin,
                tmax,
                i as nat,
            ),
            !found ==> (closest_solution as int, -1) == spec_closest_upto(
                spheres@,
                ray_origin@,
                ray_direction@,
                tmin,
                tmax,
                i as nat,
            ),
            found ==> tmin < (closest_solution as int) && (closest_solution as int) < tmax,
        decreases n - i,
    {
        let intersections: (i128, i128) = spheres[i].ray_intersections(ray_origin, ray_direction);
        if intersections.0 < closest_solution && (point_min as i128) < intersections.0
            && intersections.0 < point_max as i128 {
            closest_solution = intersections.0;
            closest_index = i;
            found = true;
        }
        if intersections.1 < closest_solution && (point_min as i128) < intersections.1
            && intersections.1 < point_max as i128 {
            closest_solution = intersections.1;
            closest_index = i;
            found = true;
        }
        i = i + 1;
    }
    if !found {
        return white();
    }
    let sphere: Sphere = spheres[closest_index];
    proof {
        lemma_abs_mul(closest_solution as int, ray_direction@.x, 0x100_0000_0000, 0x40_0000);
        lemma_abs_mul(closest_solution as int, ray_direction@.y, 0x100_0000_0000, 0x40_0000);
        lemma_abs_mul(closest_solution as int, ray_direction@.z, 0x100_0000_0000, 0x40_0000);
        lemma_tdiv_bound_by_factor(
            closest_solution * ray_direction@.x,
            SCALE as int,
            0x20_0000_0000_0000,
        );
        lemma_tdiv_bound_by_factor(
            closest_solution * ray_direction@.y,
            SCALE as int,
            0x20_0000_0000_0000,
        );
        lemma_tdiv_bound_by_factor(
            closest_solution * ray_direction@.z,
            SCALE as int,
            0x20_0000_0000_0000,
        );
    }
    let px: i128 = ray_origin.x as i128 + crate::fixed::div_fix(
        closest_solution * ray_direction.x as i128,
        SCALE as i128,
    );
    let py: i128 = ray_origin.y as i128 + crate::fixed::div_fix(
        closest_solution * ray_direction.y as i128,
        SCALE as i128,
    );
    let pz: i128 = ray_origin.z as i128 + crate::fixed::div_fix(
        closest_solution * ray_direction.z as i128,
        SCALE as i128,
    );
    let point: Vec3 = Vec3 { x: px as i64, y: py as i64, z: pz as i64 };
    let sphere_normal: Vec3 = sphere.normal(&point);
    let intensity: i128 = intensity_at_point(&point, &sphere_normal, lights, &sphere, ray_direction);
    let mut closest_color: Color = sphere.color;
    crate::color::adjust_color(&mut closest_color, intensity);
    closest_color
}

/// The ray misses this sphere: neither root is a valid hit between the
/// ray bounds.
pub open spec fn spec_misses(s: Sphere, o: V3, d: V3, tmin: int, tmax: int) -> bool {
    let ts = spec_intersections(s, o, d);
    &&& !(tmin < ts.0 < tmax)
    &&& !(tmin < ts.1 < tmax)
}

proof fn lemma_closest_upto_all_miss(
    spheres: Seq<Sphere>,
    o: V3,
    d: V3,
    tmin: int,
    tmax: int,
    n: nat,
)
    requires
        n <= spheres.len(),
        forall|i: int| 0 <= i < spheres.len() ==> spec_misses(#[trigger] spheres[i], o, d, tmin, tmax),
    ensures
        spec_closest_upto(spheres, o, d, tmin, tmax, n) == (NO_HIT as int, -1int),
    decreases n,
{
    if n > 0 {
        lemma_closest_upto_all_miss(spheres, o, d, tmin, tmax, (n - 1) as nat);
    }
}

/// A ray that misses every sphere yields exactly the background color.
pub proof fn lemma_all_miss_gives_background(
    spheres: Seq<Sphere>,
    lights: Seq<Light>,
    o: V3,
    d: V3,
    tmin: int,
    tmax: int,
)
    requires
        forall|i: int| 0 <= i < spheres.len() ==> spec_misses(#[trigger] spheres[i], o, d, tmin, tmax),
    ensures
        spec_trace(spheres, lights, o, d, tmin, tmax) == spec_white(),
{
    lemma_closest_upto_all_miss(spheres, o, d, tmin, tmax, spheres.len());
}

} // verus!
