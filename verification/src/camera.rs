//! Coordinate transforms: window coordinates to centered screen
//! coordinates, screen to raster addressing, and screen to a world-space
//! viewport direction.

use vstd::prelude::*;
use crate::fixed::{lemma_tdiv_bound_by_factor, tdiv, COORD_LIMIT};
use crate::vec3::{lemma_abs_mul, v_bounded, V3, Vec3};

verus! {

/// Screen (canvas-centered, y up) to raster (top-left origin, y down):
/// `(w/2 + x, h/2 - y)`.
pub open spec fn spec_screen_to_raster(x: int, y: int, w: int, h: int) -> (int, int) {
    (w / 2 + x, h / 2 - y)
}

/// Window (top-left origin, y down) to screen (canvas-centered, y up):
/// `(x - w/2, h/2 - y)`; the exact inverse of raster addressing.
pub open spec fn spec_window_to_screen(x: int, y: int, w: int, h: int) -> (int, int) {
    (x - w / 2, h / 2 - y)
}

/// The screen x range the canvas covers.
pub open spec fn in_canvas_x(x: int, w: int) -> bool {
    -(w / 2) <= x < w - w / 2
}

/// The screen y range the canvas covers.
pub open spec fn in_canvas_y(y: int, h: int) -> bool {
    -(h / 2) <= y < h - h / 2
}

/// Converts centered screen coordinates to nonnegative raster
/// coordinates (the y axis flips).
pub fn convert_from_screen_to_raster(x: i32, y: i32, canvas_width: u32, canvas_height: u32) -> (p: (
    u32,
    u32,
))
    requires
        0 < canvas_width <= 0x40_0000,
        0 < canvas_height <= 0x40_0000,
        in_canvas_x(x as int, canvas_width as int),
        in_canvas_y(y as int, canvas_height as int),
    ensures
        p.0 as int == spec_screen_to_raster(
            x as int,
            y as int,
            canvas_width as int,
            canvas_height as int,
        ).0,
        p.1 as int == spec_screen_to_raster(
            x as int,
            y as int,
            canvas_width as int,
            canvas_height as int,
        ).1,
        p.0 < canvas_width,
        p.1 <= canvas_height,
{
    let rx: i32 = canvas_width as i32 / 2 + x;
    let ry: i32 = canvas_height as i32 / 2 - y;
    (rx as u32, ry as u32)
}

/// Converts window coordinates (as the presentation layer reports them)
/// to centered screen coordinates.
pub fn convert_from_window_to_screen(x: i32, y: i32, canvas_width: u32, canvas_height: u32) -> (p: (
    i32,
    i32,
))
    requires
        0 < canvas_width <= 0x40_0000,
        0 < canvas_height <= 0x40_0000,
        -0x4000_0000 <= x <= 0x4000_0000,
        -0x4000_0000 <= y <= 0x4000_0000,
    ensures
        p.0 as int == spec_window_to_screen(
            x as int,
            y as int,
            canvas_width as int,
            canvas_height as int,
        ).0,
        p.1 as int == spec_window_to_screen(
            x as int,
            y as int,
            canvas_width as int,
            canvas_height as int,
        ).1,
{
    (x - canvas_width as i32 / 2, canvas_height as i32 / 2 - y)
}

/// Raster addressing undoes the window-to-screen transform: converting
/// a screen point to raster coordinates and reading those back as
/// window coordinates returns the point. (round-trip law)
pub proof fn lemma_screen_raster_round_trip(x: int, y: int, w: int, h: int)
    ensures
        spec_window_to_screen(
            spec_screen_to_raster(x, y, w, h).0,
            spec_screen_to_raster(x, y, w, h).1,
            w,
            h,
        ) == (x, y),
{
}

/// The converse round trip: screen-to-raster undoes window-to-screen,
/// so the two transforms are exact inverses. (round-trip law)
pub proof fn lemma_raster_screen_round_trip(x: int, y: int, w: int, h: int)
    ensures
        spec_screen_to_raster(
            spec_window_to_screen(x, y, w, h).0,
            spec_window_to_screen(x, y, w, h).1,
            w,
            h,
        ) == (x, y),
{
}

/// The world-space ray direction for a canvas pixel: the pixel position
/// scaled onto the viewport plane, which sits `viewport_distance` along
/// the view axis.  No normalization is applied.
pub open spec fn spec_canvas_to_viewport(
    x: int,
    y: int,
    vd: int,
    cw: int,
    ch: int,
    vw: int,
    vh: int,
) -> V3 {
    V3 { x: tdiv(x * vw, cw), y: tdiv(y * vh, ch), z: vd }
}

/// Maps a canvas pixel to the world-space direction of the ray through
/// it, given the canvas and viewport dimensions and the viewport's
/// distance from the camera.
pub fn convert_from_canvas_to_viewport(
    x: i32,
    y: i32,
    viewport_distance: i64,
    canvas_width: u32,
    canvas_height: u32,
    viewport_width: i64,
    viewport_height: i64,
) -> (d: Vec3)
    requires
        0 < canvas_width <= 0x40_0000,
        0 < canvas_height <= 0x40_0000,
        -(canvas_width as int) <= x as int <= canvas_width as int,
        -(canvas_height as int) <= y as int <= canvas_height as int,
        0 < viewport_width <= COORD_LIMIT,
        0 < viewport_height <= COORD_LIMIT,
        -COORD_LIMIT <= viewport_distance <= COORD_LIMIT,
    ensures
        d@ == spec_canvas_to_viewport(
            x as int,
            y as int,
            viewport_distance as int,
            canvas_width as int,
            canvas_height as int,
            viewport_width as int,
            viewport_height as int,
        ),
        v_bounded(d@, COORD_LIMIT as int),
{
    proof {
        lemma_abs_mul(x as int, viewport_width as int, canvas_width as int, 0x40_0000);
        lemma_abs_mul(y as int, viewport_height as int, canvas_height as int, 0x40_0000);
        assert((canvas_width as int) * 0x40_0000 == 0x40_0000 * (canvas_width as int)
            && (canvas_height as int) * 0x40_0000 == 0x40_0000 * (canvas_height as int))
            by (nonlinear_arith);
        assert(viewport_width as int * (canvas_width as int) <= 0x40_0000 * (canvas_width as int)
            && viewport_height as int * (canvas_height as int) <= 0x40_0000 * (
        canvas_height as int)) by (nonlinear_arith)
            requires
                0 < viewport_width as int <= 0x40_0000,
                0 < viewport_height as int <= 0x40_0000,
                0 < canvas_width as int,
                0 < canvas_height as int,
        ;
        lemma_tdiv_bound_by_factor(
            (x as int) * (viewport_width as int),
            canvas_width as int,
            0x40_0000,
        );
        lemma_tdiv_bound_by_factor(
            (y as int) * (viewport_height as int),
            canvas_height as int,
            0x40_0000,
        );
    }
    let dx: i128 = crate::fixed::div_fix(
        x as i128 * viewport_width as i128,
        canvas_width as i128,
    );
    let dy: i128 = crate::fixed::div_fix(
        y as i128 * viewport_height as i128,
        canvas_height as i128,
    );
    Vec3 { x: dx as i64, y: dy as i64, z: viewport_distance }
}

} // verus!
