//! Spheres: the one primitive variant, with its verified quadratic
//! intersection solver and surface normal.

use vstd::prelude::*;
use crate::color::Color;
use crate::fixed::{
    lemma_sqrt_floor_bounds, lemma_sqrt_floor_le, lemma_sqrt_floor_square, lemma_tdiv_bound_by_factor,
    lemma_tdiv_exact, sqrt_floor, tdiv, COORD_LIMIT, POINT_LIMIT, SCALE,
};
use crate::object::{Normal, Object, NO_HIT};
use crate::vec3::{
    lemma_abs_mul, lemma_component_le_norm, lemma_dot_bound, lemma_dot_self, v_bounded, v_dot,
    v_norm, v_sub, v_zero, V3, Vec3,
};

verus! {

/// A sphere: radius, center, base color and Phong exponent, all in
/// fixed-point units.  A `specular_reflection` at or below zero turns
/// the specular term off.
#[derive(Clone, Copy, Debug)]
pub struct Sphere {
    pub r: i64,
    pub origin: Vec3,
    pub color: Color,
    pub specular_reflection: i64,
}

/// A sphere the renderer accepts: positive radius and every field
/// within the scene's coordinate box.
pub open spec fn sphere_wf(s: Sphere) -> bool {
    &&& 0 < s.r <= COORD_LIMIT
    &&& v_bounded(s.origin@, COORD_LIMIT as int)
    &&& -COORD_LIMIT <= s.specular_reflection <= COORD_LIMIT
}

/// The parametric distances at which a ray meets a sphere: the roots of
/// `|o + (t/SCALE)*d - center|^2 == r^2`, scaled by `SCALE`, rounded
/// toward zero, with `NO_HIT` for roots that do not exist (negative
/// discriminant, or a degenerate zero-length direction).
pub open spec fn spec_intersections(s: Sphere, o: V3, d: V3) -> (int, int) {
    let co = v_sub(o, s.origin@);
    let a = v_dot(d, d);
    let b = 2 * v_dot(co, d);
    let c = v_dot(co, co) - s.r * s.r;
    let disc = b * b - 4 * (a * c);
    if a == 0 || disc < 0 {
        (NO_HIT as int, NO_HIT as int)
    } else {
        (
            tdiv(SCALE * (-b - sqrt_floor(disc)), 2 * a),
            tdiv(SCALE * (-b + sqrt_floor(disc)), 2 * a),
        )
    }
}

/// The surface normal at `p`: the vector from the center to `p`, scaled
/// to length `SCALE` (up to rounding), or zero if `p` is the center.
pub open spec fn spec_normal(s: Sphere, p: V3) -> V3 {
    let v = v_sub(p, s.origin@);
    let len = v_norm(v);
    if len == 0 {
        v_zero()
    } else {
        V3 { x: tdiv(v.x * SCALE, len), y: tdiv(v.y * SCALE, len), z: tdiv(v.z * SCALE, len) }
    }
}

impl Normal for Sphere {
    open spec fn normal_spec(&self, point: V3) -> V3 {
        spec_normal(*self, point)
    }

    open spec fn normal_req(&self, point: V3) -> bool {
        &&& sphere_wf(*self)
        &&& v_bounded(point, POINT_LIMIT as int)
    }

    fn normal(&self, point: &Vec3) -> (n: Vec3) {
        let v: Vec3 = point.sub(&self.origin);
        let len: i64 = v.magnitude();
        if len == 0 {
            Vec3 { x: 0, y: 0, z: 0 }
        } else {
            proof {
                lemma_component_le_norm(v@);
                lemma_abs_mul(v@.x, SCALE as int, len as int, SCALE as int);
                lemma_abs_mul(v@.y, SCALE as int, len as int, SCALE as int);
                lemma_abs_mul(v@.z, SCALE as int, len as int, SCALE as int);
                assert(len as int * (SCALE as int) == SCALE as int * (len as int))
                    by (nonlinear_arith);
                lemma_tdiv_bound_by_factor(v@.x * SCALE, len as int, SCALE as int);
                lemma_tdiv_bound_by_factor(v@.y * SCALE, len as int, SCALE as int);
                lemma_tdiv_bound_by_factor(v@.z * SCALE, len as int, SCALE as int);
            }
            let nx: i128 = crate::fixed::div_fix(v.x as i128 * SCALE as i128, len as i128);
            let ny: i128 = crate::fixed::div_fix(v.y as i128 * SCALE as i128, len as i128);
            let nz: i128 = crate::fixed::div_fix(v.z as i128 * SCALE as i128, len as i128);
            Vec3 { x: nx as i64, y: ny as i64, z: nz as i64 }
        }
    }
}

impl Object for Sphere {
    open spec fn intersections_spec(&self, ray_origin: V3, ray_direction: V3) -> (int, int) {
        spec_intersections(*self, ray_origin, ray_direction)
    }

    open spec fn intersections_req(&self, ray_origin: V3, ray_direction: V3) -> bool {
        &&& sphere_wf(*self)
        &&& v_bounded(ray_origin, COORD_LIMIT as int)
        &&& v_bounded(ray_direction, COORD_LIMIT as int)
    }

    fn ray_intersections(&self, ray_origin: &Vec3, ray_direction: &Vec3) -> (t: (i128, i128)) {
        let co: Vec3 = ray_origin.sub(&self.origin);
        proof {
            lemma_dot_bound(ray_direction@, ray_direction@, 0x40_0000, 0x40_0000);
            lemma_dot_bound(co@, ray_direction@, 0x80_0000, 0x40_0000);
            lemma_dot_bound(co@, co@, 0x80_0000, 0x80_0000);
            lemma_abs_mul(self.r as int, self.r as int, 0x40_0000, 0x40_0000);
        }
        let a: i128 = ray_direction.dot(ray_direction);
        let b: i128 = 2 * co.dot(ray_direction);
        let c: i128 = co.dot(&co) - self.r as i128 * self.r as i128;
        proof {
            lemma_abs_mul(b as int, b as int, 0xC000_0000_0000, 0xC000_0000_0000);
            lemma_abs_mul(a as int, c as int, 0x3000_0000_0000, 0xD000_0000_0000);
        }
        let disc: i128 = b * b - 4 * (a * c);
        if a == 0 || disc < 0 {
            (NO_HIT, NO_HIT)
        } else {
            proof {
                lemma_dot_self(ray_direction@);
            }
            let sq_u: u128 = crate::fixed::isqrt(disc as u128);
            let sq: i128 = sq_u as i128;
            proof {
                lemma_sqrt_floor_bounds(disc as int);
                lemma_sqrt_floor_le(disc as int, 0x40_0000_0000_0000);
                lemma_abs_mul(
                    SCALE as int,
                    -(b as int) - (sq as int),
                    1000,
                    0x41_0000_0000_0000,
                );
                lemma_abs_mul(
                    SCALE as int,
                    -(b as int) + (sq as int),
                    1000,
                    0x41_0000_0000_0000,
                );
            }
            let t1: i128 = crate::fixed::div_fix(SCALE as i128 * (-b - sq), 2 * a);
            let t2: i128 = crate::fixed::div_fix(SCALE as i128 * (-b + sq), 2 * a);
            (t1, t2)
        }
    }
}

/// A ray shot at a sphere of radius `r` from two radii away along an
/// axis, with a unit direction, meets it exactly at parameters `r`
/// (front) and `3 r` (back).
pub proof fn lemma_axial_ray_intersections(s: Sphere, o: V3, d: V3)
    requires
        0 < s.r,
        s.origin@ == v_zero(),
        o == (V3 { x: 0, y: 0, z: -2 * s.r }),
        d == (V3 { x: 0, y: 0, z: SCALE as int }),
    ensures
        spec_intersections(s, o, d).0 == s.r as int,
        spec_intersections(s, o, d).1 == 3 * s.r as int,
{
    let r: int = s.r as int;
    let sc: int = SCALE as int;
    let co: V3 = v_sub(o, s.origin@);
    let a: int = v_dot(d, d);
    let b: int = 2 * v_dot(co, d);
    let c: int = v_dot(co, co) - r * r;
    let disc: int = b * b - 4 * (a * c);
    assert(sc * sc == 1000000 && (-2 * r) * sc == -2000 * r && (0 as int) * (0 as int) == 0 && (
    0 as int) * sc == 0) by (nonlinear_arith)
        requires
            sc == 1000,
    ;
    assert(a == 1000000);
    assert(b == -4000 * r);
    assert((-2 * r) * (-2 * r) == 4 * (r * r)) by (nonlinear_arith);
    assert(c == 3 * (r * r));
    assert(disc == 4000000 * (r * r)) by (nonlinear_arith)
        requires
            b == -4000 * r,
            a == 1000000,
            c == 3 * (r * r),
            disc == b * b - 4 * (a * c),
    ;
    assert((2000 * r) * (2000 * r) == 4000000 * (r * r)) by (nonlinear_arith);
    lemma_sqrt_floor_square(2000 * r);
    assert(sqrt_floor(disc) == 2000 * r);
    assert(disc >= 0) by (nonlinear_arith)
        requires
            disc == 4000000 * (r * r),
    ;
    lemma_tdiv_exact(r, 2000000);
    lemma_tdiv_exact(3 * r, 2000000);
    assert(sc * (2000 * r) == r * 2000000 && sc * (6000 * r) == (3 * r) * 2000000)
        by (nonlinear_arith)
        requires
            sc == 1000,
    ;
    assert(SCALE * (-b - sqrt_floor(disc)) == r * 2000000);
    assert(SCALE * (-b + sqrt_floor(disc)) == (3 * r) * 2000000);
}

} // verus!
