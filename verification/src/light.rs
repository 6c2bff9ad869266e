//! Scene lights: ambient, directional and point variants sharing one
//! carrier struct.

use vstd::prelude::*;
use crate::fixed::{COORD_LIMIT, SCALE};
use crate::vec3::{v_bounded, Vec3};

verus! {

/// Which kind of light a `Light` is; the interpretation of its vector
/// field depends on it.
#[derive(Clone, Copy, PartialEq, Eq, Structural, Debug)]
pub enum LightType {
    Point,
    Directional,
    Ambient,
}

/// A light source.  `pos_or_direction` is a world position for `Point`,
/// a direction for `Directional`, and unused for `Ambient`.
#[derive(Clone, Copy, PartialEq, Eq, Structural, Debug)]
pub struct Light {
    pub kind: LightType,
    pub pos_or_direction: Vec3,
    pub intensity: i64,
}

/// A light the renderer accepts: vector and intensity within the
/// scene's coordinate box.
pub open spec fn light_wf(l: Light) -> bool {
    &&& v_bounded(l.pos_or_direction@, COORD_LIMIT as int)
    &&& -COORD_LIMIT <= l.intensity <= COORD_LIMIT
}

impl Light {
    pub fn new(kind: LightType, pos_or_direction: Vec3, intensity: i64) -> (l: Light)
        ensures
            l == (Light { kind, pos_or_direction, intensity }),
    {
        Self { kind, pos_or_direction, intensity }
    }
}

impl Default for Light {
    /// A point light of unit intensity at the origin.
    fn default() -> (l: Light)
        ensures
            l == (Light {
                kind: LightType::Point,
                pos_or_direction: Vec3 { x: 0, y: 0, z: 0 },
                intensity: SCALE,
            }),
    {
        Self {
            kind: LightType::Point,
            pos_or_direction: Vec3 { x: 0, y: 0, z: 0 },
            intensity: SCALE,
        }
    }
}

} // verus!
