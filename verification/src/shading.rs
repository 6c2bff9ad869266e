//! The illumination model: ambient, diffuse and Phong specular terms
//! accumulated over the scene's lights.

use vstd::prelude::*;
use crate::color::Color;
use crate::fixed::{
    lemma_tdiv_bound_by_factor, lemma_tdiv_bounds, pow_fixed, pow_fixed_exec, tdiv, COORD_LIMIT,
    POINT_LIMIT, SCALE, SCALE_SQ,
};
use crate::light::{light_wf, Light, LightType};
use crate::sphere::{sphere_wf, Sphere};
use crate::vec3::{
    lemma_abs_mul, lemma_dot_bound, lemma_dot_nonzero, lemma_dot_self, lemma_norm_bound,
    lemma_norm_pos, v_bounded, v_dot, v_neg, v_norm, v_sub, v_zero, V3, Vec3,
};

verus! {

/// The renderer accepts at most this many lights, so the accumulated
/// intensity fits the machine arithmetic.
pub const LIGHTS_LIMIT: usize = 0x10_0000;

/// Magnitude bound on a light vector: a scene position displaced by a
/// hit point.
pub const LIGHT_VEC_LIMIT: i64 = 0x80_0000_0000_0000;

/// The reflection of the light vector `lv` about the normal `n` (`n`
/// carries one `SCALE` of scaling, hence the scale-back): the vector
/// `2 n (n . lv) - lv` of the Phong model.
pub open spec fn spec_reflect(n: V3, lv: V3) -> V3 {
    V3 {
        x: tdiv(2 * (n.x * v_dot(n, lv)), SCALE_SQ as int) - lv.x,
        y: tdiv(2 * (n.y * v_dot(n, lv)), SCALE_SQ as int) - lv.y,
        z: tdiv(2 * (n.z * v_dot(n, lv)), SCALE_SQ as int) - lv.z,
    }
}

/// The specular contribution of one light: the Phong cosine (the
/// reflected ray against the view vector, normalized into `[0, SCALE]`)
/// raised to the sphere's exponent.  Zero when the sphere's exponent
/// turns the term off or the reflection points away from the viewer.
pub open spec fn spec_specular(s: Sphere, n: V3, v: V3, lv: V3) -> int {
    if s.specular_reflection <= 0 {
        0
    } else {
        let r = spec_reflect(n, lv);
        let rdv = v_dot(r, v);
        if rdv <= 0 {
            0
        } else {
            let base = tdiv(rdv * SCALE, v_norm(r) * v_norm(v));
            pow_fixed(
                if base > SCALE {
                    SCALE as int
                } else {
                    base
                },
                s.specular_reflection as nat,
            )
        }
    }
}

/// The vector toward a non-ambient light: its direction as stored for
/// a directional light, its position less the lit point for a point
/// light.
pub open spec fn spec_light_vector(l: Light, point: V3) -> V3 {
    if l.kind == LightType::Directional {
        l.pos_or_direction@
    } else {
        v_sub(l.pos_or_direction@, point)
    }
}

/// One light's contribution to the intensity at a point: ambient lights
/// contribute their intensity outright; directional and point lights
/// contribute a diffuse term (cosine-weighted, zero when back-facing,
/// which also suppresses the specular term) plus the specular term.
pub open spec fn spec_light_term(point: V3, normal: V3, l: Light, s: Sphere, rd: V3) -> int {
    if l.kind == LightType::Ambient {
        l.intensity as int
    } else {
        let lv = spec_light_vector(l, point);
        let top = v_dot(normal, lv);
        if top <= 0 {
            0
        } else {
            tdiv(l.intensity * top, v_norm(normal) * v_norm(lv)) + spec_specular(
                s,
                normal,
                v_neg(rd),
                lv,
            )
        }
    }
}

/// The intensity contributed by the first `n` lights, in order.
pub open spec fn spec_intensity_upto(
    point: V3,
    normal: V3,
    lights: Seq<Light>,
    s: Sphere,
    rd: V3,
    n: nat,
) -> int
    decreases n,
{
    if n == 0 {
        0
    } else {
        spec_intensity_upto(point, normal, lights, s, rd, (n - 1) as nat) + spec_light_term(
            point,
            normal,
            lights[n - 1],
            s,
            rd,
        )
    }
}

/// The total intensity at a point: every light's contribution summed in
/// scene order.
pub open spec fn spec_intensity(point: V3, normal: V3, lights: Seq<Light>, s: Sphere, rd: V3) -> int {
    spec_intensity_upto(point, normal, lights, s, rd, lights.len())
}

/// A light whose vector makes a nonpositive angle with the surface
/// normal is back-facing and contributes nothing: neither a diffuse nor
/// a specular part. (back-face culling law)
pub proof fn lemma_backface_no_contribution(point: V3, normal: V3, l: Light, s: Sphere, rd: V3)
    requires
        l.kind != LightType::Ambient,
        v_dot(normal, spec_light_vector(l, point)) <= 0,
    ensures
        spec_light_term(point, normal, l, s, rd) == 0,
{
}

/// The sum of the first `n` lights' raw intensities.
pub open spec fn spec_intensity_sum_upto(lights: Seq<Light>, n: nat) -> int
    decreases n,
{
    if n == 0 {
        0
    } else {
        spec_intensity_sum_upto(lights, (n - 1) as nat) + lights[n - 1].intensity
    }
}

proof fn lemma_ambient_only_upto(
    point: V3,
    normal: V3,
    lights: Seq<Light>,
    s: Sphere,
    rd: V3,
    n: nat,
)
    requires
        n <= lights.len(),
        forall|i: int| 0 <= i < lights.len() ==> (#[trigger] lights[i]).kind == LightType::Ambient,
    ensures
        spec_intensity_upto(point, normal, lights, s, rd, n) == spec_intensity_sum_upto(lights, n),
    decreases n,
{
    if n > 0 {
        lemma_ambient_only_upto(point, normal, lights, s, rd, (n - 1) as nat);
    }
}

/// A set of only ambient lights yields exactly the sum of their
/// intensities: no diffuse or specular part enters. (ambient-only law)
pub proof fn lemma_ambient_only_intensity(
    point: V3,
    normal: V3,
    lights: Seq<Light>,
    s: Sphere,
    rd: V3,
)
    requires
        forall|i: int| 0 <= i < lights.len() ==> (#[trigger] lights[i]).kind == LightType::Ambient,
    ensures
        spec_intensity(point, normal, lights, s, rd) == spec_intensity_sum_upto(
            lights,
            lights.len(),
        ),
{
    lemma_ambient_only_upto(point, normal, lights, s, rd, lights.len());
}

/// Under only ambient lights of total intensity `k`, shading a base
/// color gives each channel `clamp(channel * k / SCALE)` exactly, fully
/// opaque. (ambient-only law, color form)
pub proof fn lemma_ambient_only_color(
    c: Color,
    point: V3,
    normal: V3,
    lights: Seq<Light>,
    s: Sphere,
    rd: V3,
)
    requires
        forall|i: int| 0 <= i < lights.len() ==> (#[trigger] lights[i]).kind == LightType::Ambient,
    ensures
        crate::color::spec_adjust(c, spec_intensity(point, normal, lights, s, rd)) == (Color {
            r: crate::color::clamp_channel(
                tdiv(c.r * spec_intensity_sum_upto(lights, lights.len()), SCALE as int),
            ) as u8,
            g: crate::color::clamp_channel(
                tdiv(c.g * spec_intensity_sum_upto(lights, lights.len()), SCALE as int),
            ) as u8,
            b: crate::color::clamp_channel(
                tdiv(c.b * spec_intensity_sum_upto(lights, lights.len()), SCALE as int),
            ) as u8,
            a: 255,
        }),
{
    lemma_ambient_only_intensity(point, normal, lights, s, rd);
}

/// The Phong specular term for one light, already verified against the
/// model; returns a fraction of `SCALE`.
pub fn get_reflection_for_object(
    sphere: &Sphere,
    normal: &Vec3,
    camera_point_vector: &Vec3,
    light_vector: &Vec3,
) -> (out: i64)
    requires
        sphere_wf(*sphere),
        v_bounded(normal@, SCALE as int),
        v_bounded(camera_point_vector@, COORD_LIMIT as int),
        v_bounded(light_vector@, LIGHT_VEC_LIMIT as int),
    ensures
        out as int == spec_specular(*sphere, normal@, camera_point_vector@, light_vector@),
        0 <= out <= SCALE,
{
    if sphere.specular_reflection <= 0 {
        return 0;
    }
    proof {
        lemma_dot_bound(normal@, light_vector@, 1000, 0x80_0000_0000_0000);
    }
    let dot_nl: i128 = normal.dot(light_vector);
    proof {
        lemma_abs_mul(normal@.x, dot_nl as int, 1000, 0x8_0000_0000_0000_0000);
        lemma_abs_mul(normal@.y, dot_nl as int, 1000, 0x8_0000_0000_0000_0000);
        lemma_abs_mul(normal@.z, dot_nl as int, 1000, 0x8_0000_0000_0000_0000);
        lemma_tdiv_bound_by_factor(
            2 * (normal@.x * v_dot(normal@, light_vector@)),
            SCALE_SQ as int,
            0x800_0000_0000_0000,
        );
        lemma_tdiv_bound_by_factor(
            2 * (normal@.y * v_dot(normal@, light_vector@)),
            SCALE_SQ as int,
            0x800_0000_0000_0000,
        );
        lemma_tdiv_bound_by_factor(
            2 * (normal@.z * v_dot(normal@, light_vector@)),
            SCALE_SQ as int,
            0x800_0000_0000_0000,
        );
    }
    let rx: i128 = crate::fixed::div_fix(2 * (normal.x as i128 * dot_nl), SCALE_SQ as i128)
        - light_vector.x as i128;
    let ry: i128 = crate::fixed::div_fix(2 * (normal.y as i128 * dot_nl), SCALE_SQ as i128)
        - light_vector.y as i128;
    let rz: i128 = crate::fixed::div_fix(2 * (normal.z as i128 * dot_nl), SCALE_SQ as i128)
        - light_vector.z as i128;
    let reflection_vector: Vec3 = Vec3 { x: rx as i64, y: ry as i64, z: rz as i64 };
    proof {
        lemma_dot_bound(reflection_vector@, camera_point_vector@, 0x1000_0000_0000_0000, 0x40_0000);
    }
    let r_dot_v: i128 = reflection_vector.dot(camera_point_vector);
    if r_dot_v > 0 {
        proof {
            lemma_dot_self(reflection_vector@);
            lemma_dot_self(camera_point_vector@);
            lemma_dot_nonzero(reflection_vector@, camera_point_vector@);
            lemma_norm_pos(reflection_vector@);
            lemma_norm_pos(camera_point_vector@);
            lemma_norm_bound(reflection_vector@, 0x1000_0000_0000_0000);
            lemma_norm_bound(camera_point_vector@, 0x40_0000);
        }
        let r_mag: i64 = reflection_vector.magnitude();
        let v_mag: i64 = camera_point_vector.magnitude();
        proof {
            lemma_abs_mul(r_mag as int, v_mag as int, 0x2000_0000_0000_0000, 0x80_0000);
            assert(1 <= r_mag as int * (v_mag as int)) by (nonlinear_arith)
                requires
                    1 <= r_mag as int,
                    1 <= v_mag as int,
            ;
            lemma_abs_mul(r_dot_v as int, SCALE as int, 0x30_0000_0000_0000_0000_0000, 1000);
            lemma_tdiv_bounds(r_dot_v * SCALE, (v_norm(reflection_vector@) * v_norm(
                camera_point_vector@,
            )));
        }
        let den: i128 = r_mag as i128 * v_mag as i128;
        let base_raw: i128 = crate::fixed::div_fix(r_dot_v * SCALE as i128, den);
        let base: i64 = if base_raw > SCALE as i128 {
            SCALE
        } else {
            base_raw as i64
        };
        pow_fixed_exec(base, sphere.specular_reflection as u64)
    } else {
        0
    }
}

/// The shading intensity at a surface point: every light's ambient,
/// diffuse and specular contribution, summed in scene order.
#[verifier::loop_isolation(false)]
pub fn intensity_at_point(
    point: &Vec3,
    normal: &Vec3,
    lights: &Vec<Light>,
    sphere: &Sphere,
    ray_direction: &Vec3,
) -> (intensity: i128)
    requires
        v_bounded(point@, POINT_LIMIT as int),
        v_bounded(normal@, SCALE as int),
        v_bounded(ray_direction@, COORD_LIMIT as int),
        forall|i: int| 0 <= i < lights@.len() ==> light_wf(#[trigger] lights@[i]),
        sphere_wf(*sphere),
        lights@.len() <= LIGHTS_LIMIT,
    ensures
        intensity as int == spec_intensity(point@, normal@, lights@, *sphere, ray_direction@),
        -crate::color::INTENSITY_LIMIT <= intensity <= crate::color::INTENSITY_LIMIT,
{
    let n: usize = lights.len();
    let mut total: i128 = 0;
    let mut idx: usize = 0;
    while idx < n
        invariant
            idx <= n,
            total as int == spec_intensity_upto(
                point@,
                normal@,
                lights@,
                *sphere,
                ray_direction@,
                idx as nat,
            ),
            -((idx as int) * 0x400_0000_0000_0000_0000_0000) <= total as int <= (idx as int)
                * 0x400_0000_0000_0000_0000_0000,
        decreases n - idx,
    {
        let l: Light = lights[idx];
        let mut term: i128 = 0;
        if l.kind == LightType::Ambient {
            term = l.intensity as i128;
        } else {
            let light_vector: Vec3 = if l.kind == LightType::Directional {
                l.pos_or_direction
            } else {
                l.pos_or_direction.sub(point)
            };
            proof {
                lemma_dot_bound(normal@, light_vector@, 1000, 0x80_0000_0000_0000);
            }
            let top_factor: i128 = normal.dot(&light_vector);
            if top_factor > 0 {
                proof {
                    lemma_dot_nonzero(normal@, light_vector@);
                    lemma_norm_pos(normal@);
                    lemma_norm_pos(light_vector@);
                    lemma_norm_bound(normal@, 1000);
                    lemma_norm_bound(light_vector@, 0x80_0000_0000_0000);
                }
                let n_mag: i64 = normal.magnitude();
                let lv_mag: i64 = light_vector.magnitude();
                proof {
                    lemma_abs_mul(n_mag as int, lv_mag as int, 2000, 0x100_0000_0000_0000);
                    assert(1 <= (n_mag as int) * (lv_mag as int)) by (nonlinear_arith)
                        requires
                            1 <= n_mag as int,
                            1 <= lv_mag as int,
                    ;
                    lemma_abs_mul(
                        l.intensity as int,
                        top_factor as int,
                        0x40_0000,
                        0x8_0000_0000_0000_0000,
                    );
                    lemma_tdiv_bounds(
                        l.intensity * (top_factor as int),
                        v_norm(normal@) * v_norm(light_vector@),
                    );
                }
                let den: i128 = n_mag as i128 * lv_mag as i128;
                let diffuse: i128 = crate::fixed::div_fix(l.intensity as i128 * top_factor, den);
                let view_vector: Vec3 = ray_direction.neg();
                let spec_part: i64 = get_reflection_for_object(
                    sphere,
                    normal,
                    &view_vector,
                    &light_vector,
                );
                term = diffuse + spec_part as i128;
            }
        }
        total = total + term;
        idx = idx + 1;
    }
    total
}

} // verus!
