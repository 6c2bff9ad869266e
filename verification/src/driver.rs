//! The scene-mutation driver: a cyclic direction state machine and the
//! light-orbiting steps it drives between frames.

use vstd::prelude::*;
use crate::fixed::COORD_LIMIT;
use crate::light::{Light, LightType};
use crate::vec3::{v_bounded, Vec3};

verus! {

/// The six axis directions a driven light cycles through.
#[derive(Clone, Copy, PartialEq, Eq, Structural, Debug)]
pub enum Direction {
    Up,
    Down,
    Left,
    Right,
    In,
    Out,
}

/// The fixed permutation the direction state machine cycles through.
pub open spec fn spec_rotate(d: Direction) -> Direction {
    match d {
        Direction::Up => Direction::Right,
        Direction::Right => Direction::Down,
        Direction::Down => Direction::Left,
        Direction::Left => Direction::In,
        Direction::In => Direction::Out,
        Direction::Out => Direction::Up,
    }
}

/// Steps the cyclic direction state machine once.
pub fn rotate_direction(direction: &Direction) -> (d: Direction)
    ensures
        d == spec_rotate(*direction),
{
    match direction {
        Direction::Up => Direction::Right,
        Direction::Right => Direction::Down,
        Direction::Down => Direction::Left,
        Direction::Left => Direction::In,
        Direction::In => Direction::Out,
        Direction::Out => Direction::Up,
    }
}

/// How far one driver step moves a light, in fixed-point steps.
pub const DRIVE_STEP: i64 = 500;

/// The half-width of the box the driven light orbits in.
pub const DRIVE_BOUND: i64 = 2500;

/// One driver step applied to a light: move it along the current
/// direction's axis, and rotate the direction once the bound is passed.
pub open spec fn spec_update_single(l: Light, d: Direction) -> (Light, Direction) {
    let p = l.pos_or_direction;
    match d {
        Direction::Up => {
            let np = Vec3 { y: (p.y - DRIVE_STEP) as i64, ..p };
            (Light { pos_or_direction: np, ..l }, if np.y < -DRIVE_BOUND {
                spec_rotate(d)
            } else {
                d
            })
        },
        Direction::Down => {
            let np = Vec3 { y: (p.y + DRIVE_STEP) as i64, ..p };
            (Light { pos_or_direction: np, ..l }, if np.y > DRIVE_BOUND {
                spec_rotate(d)
            } else {
                d
            })
        },
        Direction::Left => {
            let np = Vec3 { x: (p.x - DRIVE_STEP) as i64, ..p };
            (Light { pos_or_direction: np, ..l }, if np.x < -DRIVE_BOUND {
                spec_rotate(d)
            } else {
                d
            })
        },
        Direction::Right => {
            let np = Vec3 { x: (p.x + DRIVE_STEP) as i64, ..p };
            (Light { pos_or_direction: np, ..l }, if np.x > DRIVE_BOUND {
                spec_rotate(d)
            } else {
                d
            })
        },
        Direction::In => {
            let np = Vec3 { z: (p.z + DRIVE_STEP) as i64, ..p };
            (Light { pos_or_direction: np, ..l }, if np.z > DRIVE_BOUND {
                spec_rotate(d)
            } else {
                d
            })
        },
        Direction::Out => {
            let np = Vec3 { z: (p.z - DRIVE_STEP) as i64, ..p };
            (Light { pos_or_direction: np, ..l }, if np.z < -DRIVE_BOUND {
                spec_rotate(d)
            } else {
                d
            })
        },
    }
}

/// Moves one light a step along the current direction's axis and
/// rotates the direction when the light leaves the orbit box.
pub fn update_single_light_position(light: &mut Light, direction: &mut Direction)
    requires
        v_bounded(old(light).pos_or_direction@, COORD_LIMIT as int),
    ensures
        (*final(light), *final(direction)) == spec_update_single(*old(light), *old(direction)),
{
    match *direction {
        Direction::Up => {
            light.pos_or_direction.y = light.pos_or_direction.y - DRIVE_STEP;
            if light.pos_or_direction.y < -DRIVE_BOUND {
                *direction = rotate_direction(direction);
            }
        },
        Direction::Down => {
            light.pos_or_direction.y = light.pos_or_direction.y + DRIVE_STEP;
            if light.pos_or_direction.y > DRIVE_BOUND {
                *direction = rotate_direction(direction);
            }
        },
        Direction::Left => {
            light.pos_or_direction.x = light.pos_or_direction.x - DRIVE_STEP;
            if light.pos_or_direction.x < -DRIVE_BOUND {
                *direction = rotate_direction(direction);
            }
        },
        Direction::Right => {
            light.pos_or_direction.x = light.pos_or_direction.x + DRIVE_STEP;
            if light.pos_or_direction.x > DRIVE_BOUND {
                *direction = rotate_direction(direction);
            }
        },
        Direction::In => {
            light.pos_or_direction.z = light.pos_or_direction.z + DRIVE_STEP;
            if light.pos_or_direction.z > DRIVE_BOUND {
                *direction = rotate_direction(direction);
            }
        },
        Direction::Out => {
            light.pos_or_direction.z = light.pos_or_direction.z - DRIVE_STEP;
            if light.pos_or_direction.z < -DRIVE_BOUND {
                *direction = rotate_direction(direction);
            }
        },
    }
}

/// One driver step applied to a light when it is driven at all: only
/// point lights move; ambient and directional lights are skipped.
pub open spec fn spec_update_step(l: Light, d: Direction) -> (Light, Direction) {
    if l.kind == LightType::Point {
        spec_update_single(l, d)
    } else {
        (l, d)
    }
}

/// The first `i` lights driven in order, threading the direction state
/// from one light to the next.
pub open spec fn spec_update_prefix(ls: Seq<Light>, d: Direction, i: nat) -> (Seq<Light>, Direction)
    decreases i,
{
    if i == 0 {
        (ls, d)
    } else {
        let r = spec_update_prefix(ls, d, (i - 1) as nat);
        let s = spec_update_step(r.0[i - 1], r.1);
        (r.0.update(i - 1, s.0), s.1)
    }
}

/// Drives every point light one step, in scene order, threading the
/// direction state machine through the whole collection.
pub fn update_light_position(lights: &mut Vec<Light>, direction: &mut Direction)
    requires
        forall|j: int|
            0 <= j < old(lights)@.len() ==> v_bounded(
                #[trigger] old(lights)@[j].pos_or_direction@,
                COORD_LIMIT as int,
            ),
    ensures
        (final(lights)@, *final(direction)) == spec_update_prefix(
            old(lights)@,
            *old(direction),
            old(lights)@.len(),
        ),
{
    let n: usize = lights.len();
    let mut i: usize = 0;
    while i < n
        invariant
            i <= n,
            n == lights@.len(),
            n == old(lights)@.len(),
            forall|j: int|
                0 <= j < old(lights)@.len() ==> v_bounded(
                    #[trigger] old(lights)@[j].pos_or_direction@,
                    COORD_LIMIT as int,
                ),
            (lights@, *direction) == spec_update_prefix(old(lights)@, *old(direction), i as nat),
            forall|j: int| i <= j < n ==> lights@[j] == old(lights)@[j],
        decreases n - i,
    {
        let l: Light = lights[i];
        if matches!(l.kind, LightType::Point) {
            let mut moved: Light = l;
            update_single_light_position(&mut moved, direction);
            lights[i] = moved;
        }
        proof {
            assert(spec_update_prefix(old(lights)@, *old(direction), (i + 1) as nat).0 =~= lights@);
        }
        i = i + 1;
    }
}

} // verus!
