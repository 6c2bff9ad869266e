//! The capabilities a scene primitive offers the tracer: ray
//! intersection and surface normals.

use vstd::prelude::*;
use crate::fixed::SCALE;
use crate::vec3::{v_bounded, V3, Vec3};

verus! {

/// The parametric distance reported for a root that does not exist: a
/// value no valid hit can reach, so the tracer's comparisons skip it.
pub const NO_HIT: i128 = i128::MAX;

/// Surface normals.
pub trait Normal {
    /// The modeled normal at `point`: the fixed-point vector of length
    /// `SCALE` (up to rounding) the implementation returns.
    spec fn normal_spec(&self, point: V3) -> V3;

    /// The inputs `normal` accepts.
    spec fn normal_req(&self, point: V3) -> bool;

    /// The surface normal at `point`, scaled to length `SCALE`.
    fn normal(&self, point: &Vec3) -> (n: Vec3)
        requires
            self.normal_req(point@),
        ensures
            n@ == self.normal_spec(point@),
            v_bounded(n@, SCALE as int),
    ;
}

/// Ray intersection.
pub trait Object {
    /// The modeled pair of parametric hit distances, `NO_HIT` standing
    /// for a root that does not exist.
    spec fn intersections_spec(&self, ray_origin: V3, ray_direction: V3) -> (int, int);

    /// The inputs `ray_intersections` accepts.
    spec fn intersections_req(&self, ray_origin: V3, ray_direction: V3) -> bool;

    /// The up-to-two parametric distances at which the ray meets the
    /// primitive, in fixed-point steps (`SCALE` is one unit of ray
    /// parameter).
    fn ray_intersections(&self, ray_origin: &Vec3, ray_direction: &Vec3) -> (t: (i128, i128))
        requires
            self.intersections_req(ray_origin@, ray_direction@),
        ensures
            t.0 as int == self.intersections_spec(ray_origin@, ray_direction@).0,
            t.1 as int == self.intersections_spec(ray_origin@, ray_direction@).1,
    ;
}

} // verus!
