//! The frame buffer: raster-addressed pixel writes, the full-frame
//! render loop, and the flat RGBA byte dump the presentation layer
//! copies out.

use vstd::prelude::*;
use crate::camera::{
    convert_from_canvas_to_viewport, convert_from_screen_to_raster, in_canvas_x, in_canvas_y,
    spec_canvas_to_viewport, spec_screen_to_raster,
};
use crate::color::Color;
use crate::fixed::{COORD_LIMIT, T_LIMIT};
use crate::light::Light;
use crate::sphere::Sphere;
use crate::tracer::{scene_wf, spec_trace, trace_ray};
use crate::vec3::{v_zero, Vec3};

verus! {

/// The flat buffer position a screen point is stored at: row-major
/// raster addressing over a buffer of width `w`.
pub open spec fn spec_draw_index(x: int, y: int, w: int, h: int) -> int {
    let rp = spec_screen_to_raster(x, y, w, h);
    rp.1 * w + rp.0
}

/// Distinct canvas points are stored at distinct buffer positions.
proof fn lemma_draw_index_injective(x1: int, y1: int, x2: int, y2: int, w: int, h: int)
    requires
        0 < w,
        0 < h,
        in_canvas_x(x1, w),
        in_canvas_y(y1, h),
        in_canvas_x(x2, w),
        in_canvas_y(y2, h),
        spec_draw_index(x1, y1, w, h) == spec_draw_index(x2, y2, w, h),
    ensures
        x1 == x2,
        y1 == y2,
{
    let c1: int = w / 2 + x1;
    let r1: int = h / 2 - y1;
    let c2: int = w / 2 + x2;
    let r2: int = h / 2 - y2;
    assert(r1 == r2 && c1 == c2) by (nonlinear_arith)
        requires
            0 <= c1 < w,
            0 <= c2 < w,
            r1 * w + c1 == r2 * w + c2,
    ;
}

/// A canvas point's buffer position lies within the frame buffer.
proof fn lemma_draw_index_bounds(x: int, y: int, w: int, h: int)
    requires
        0 < w,
        0 < h,
        in_canvas_x(x, w),
        in_canvas_y(y, h),
    ensures
        0 <= spec_draw_index(x, y, w, h) < (w + 1) * (h + 1),
{
    let c: int = w / 2 + x;
    let r: int = h / 2 - y;
    assert(0 <= r * w + c < (w + 1) * (h + 1)) by (nonlinear_arith)
        requires
            0 <= c < w,
            0 <= r <= h,
            0 < w,
            0 < h,
    ;
}

/// Writes one color at a screen point's raster position in the flat
/// frame buffer.
pub fn draw_point(
    x: i32,
    y: i32,
    color: Color,
    my_buffer: &mut Vec<Color>,
    canvas_width: u32,
    canvas_height: u32,
)
    requires
        0 < canvas_width <= 0x7FFF,
        0 < canvas_height <= 0x7FFF,
        in_canvas_x(x as int, canvas_width as int),
        in_canvas_y(y as int, canvas_height as int),
        old(my_buffer)@.len() == (canvas_width + 1) * (canvas_height + 1),
    ensures
        final(my_buffer)@ == old(my_buffer)@.update(
            spec_draw_index(x as int, y as int, canvas_width as int, canvas_height as int),
            color,
        ),
{
    let pos: (u32, u32) = convert_from_screen_to_raster(x, y, canvas_width, canvas_height);
    proof {
        assert((pos.1 as int) * (canvas_width as int) + (pos.0 as int) < (canvas_width as int + 1)
            * (canvas_height as int + 1) && (pos.1 as int) * (canvas_width as int) + (pos.0 as int)
            < 0x4000_0000) by (nonlinear_arith)
            requires
                0 <= (pos.0 as int) < (canvas_width as int),
                0 <= (pos.1 as int) <= (canvas_height as int),
                0 < canvas_width as int <= 0x7FFF,
                0 < canvas_height as int <= 0x7FFF,
        ;
    }
    let index: usize = pos.1 as usize * canvas_width as usize + pos.0 as usize;
    my_buffer[index] = color;
}

/// The byte a raster-ordered RGBA dump holds at position `j`: the
/// channels of color `j / 4`, in `r`, `g`, `b`, `a` order.
pub open spec fn spec_rgba_byte(colors: Seq<Color>, j: int) -> u8 {
    let c = colors[j / 4];
    if j % 4 == 0 {
        c.r
    } else if j % 4 == 1 {
        c.g
    } else if j % 4 == 2 {
        c.b
    } else {
        c.a
    }
}

/// Flattens the color buffer into raster-ordered RGBA byte quadruples,
/// ready for a one-to-one copy into a display surface.
#[verifier::loop_isolation(false)]
pub fn copy_to_pixels(my_buffer: &Vec<Color>, pixels_buffer: &mut Vec<u8>)
    requires
        old(pixels_buffer)@.len() == 4 * my_buffer@.len(),
    ensures
        final(pixels_buffer)@.len() == old(pixels_buffer)@.len(),
        forall|j: int|
            0 <= j < final(pixels_buffer)@.len() ==> final(pixels_buffer)@[j] == spec_rgba_byte(
                my_buffer@,
                j,
            ),
{
    let n: usize = my_buffer.len();
    let m: usize = pixels_buffer.len();
    let mut i: usize = 0;
    while i < n
        invariant
            i <= n,
            n == my_buffer@.len(),
            m == pixels_buffer@.len(),
            pixels_buffer@.len() == 4 * n,
            forall|j: int|
                0 <= j < 4 * (i as int) ==> pixels_buffer@[j] == spec_rgba_byte(my_buffer@, j),
        decreases n - i,
    {
        let c: Color = my_buffer[i];
        pixels_buffer[4 * i] = c.r;
        pixels_buffer[4 * i + 1] = c.g;
        pixels_buffer[4 * i + 2] = c.b;
        pixels_buffer[4 * i + 3] = c.a;
        i = i + 1;
    }
}

/// The color the renderer owes the canvas point `(sx, sy)`: the trace
/// of the ray from the origin camera through that point's spot on the
/// viewport plane, between the viewport distance and the far cutoff.
pub open spec fn spec_pixel(
    spheres: Seq<Sphere>,
    lights: Seq<Light>,
    sx: int,
    sy: int,
    vd: int,
    cw: int,
    ch: int,
    vw: int,
    vh: int,
) -> Color {
    spec_trace(
        spheres,
        lights,
        v_zero(),
        spec_canvas_to_viewport(sx, sy, vd, cw, ch, vw, vh),
        vd,
        T_LIMIT as int,
    )
}

/// Some canvas point strictly before `(sx, sy)` in render order (column
/// by column, then down the column) is stored at buffer position `j`.
pub open spec fn spec_written_before(j: int, w: int, h: int, sx: int, sy: int) -> bool {
    exists|px: int, py: int|
        in_canvas_x(px, w) && in_canvas_y(py, h) && (px < sx || (px == sx && py < sy))
            && #[trigger] spec_draw_index(px, py, w, h) == j
}

/// Renders the whole frame: for every canvas point, traces the ray
/// through it and stores the resulting color at its raster position.
/// Buffer slots no canvas point maps to keep their old contents.
#[verifier::loop_isolation(false)]
pub fn render_to_my_buffer(
    my_buffer: &mut Vec<Color>,
    spheres: &Vec<Sphere>,
    lights: &Vec<Light>,
    viewport_distance: i64,
    canvas_width: u32,
    canvas_height: u32,
    viewport_width: i64,
    viewport_height: i64,
)
    requires
        0 < canvas_width <= 0x7FFF,
        0 < canvas_height <= 0x7FFF,
        0 < viewport_width <= COORD_LIMIT,
        0 < viewport_height <= COORD_LIMIT,
        0 <= viewport_distance <= COORD_LIMIT,
        scene_wf(spheres@, lights@),
        old(my_buffer)@.len() == (canvas_width + 1) * (canvas_height + 1),
    ensures
        final(my_buffer)@.len() == old(my_buffer)@.len(),
        forall|px: int, py: int|
            in_canvas_x(px, canvas_width as int) && in_canvas_y(py, canvas_height as int)
                ==> final(my_buffer)@[#[trigger] spec_draw_index(
                px,
                py,
                canvas_width as int,
                canvas_height as int,
            )] == spec_pixel(
                spheres@,
                lights@,
                px,
                py,
                viewport_distance as int,
                canvas_width as int,
                canvas_height as int,
                viewport_width as int,
                viewport_height as int,
            ),
        forall|j: int|
            0 <= j < old(my_buffer)@.len() && !spec_written_before(
                j,
                canvas_width as int,
                canvas_height as int,
                canvas_width as int - canvas_width as int / 2,
                -(canvas_height as int / 2),
            ) ==> final(my_buffer)@[j] == old(my_buffer)@[j],
{
    let ghost cw: int = canvas_width as int;
    let ghost ch: int = canvas_height as int;
    let w2: i32 = canvas_width as i32 / 2;
    let h2: i32 = canvas_height as i32 / 2;
    let xe: i32 = canvas_width as i32 - w2;
    let ye: i32 = canvas_height as i32 - h2;
    let mut sx: i32 = -w2;
    while sx < xe
        invariant
            -w2 <= sx <= xe,
            my_buffer@.len() == old(my_buffer)@.len(),
            forall|px: int, py: int|
                in_canvas_x(px, cw) && in_canvas_y(py, ch) && px < sx as int
                    ==> my_buffer@[#[trigger] spec_draw_index(px, py, cw, ch)] == spec_pixel(
                    spheres@,
                    lights@,
                    px,
                    py,
                    viewport_distance as int,
                    cw,
                    ch,
                    viewport_width as int,
                    viewport_height as int,
                ),
            forall|j: int|
                0 <= j < old(my_buffer)@.len() && !spec_written_before(
                    j,
                    cw,
                    ch,
                    sx as int,
                    -(ch / 2),
                ) ==> my_buffer@[j] == old(my_buffer)@[j],
        decreases xe - sx,
    {
        let mut sy: i32 = -h2;
        while sy < ye
            invariant
                -h2 <= sy <= ye,
                -w2 <= sx < xe,
                my_buffer@.len() == old(my_buffer)@.len(),
                forall|px: int, py: int|
                    in_canvas_x(px, cw) && in_canvas_y(py, ch) && (px < sx as int || (px == sx as int
                        && py < sy as int)) ==> my_buffer@[#[trigger] spec_draw_index(
                        px,
                        py,
                        cw,
                        ch,
                    )] == spec_pixel(
                        spheres@,
                        lights@,
                        px,
                        py,
                        viewport_distance as int,
                        cw,
                        ch,
                        viewport_width as int,
                        viewport_height as int,
                    ),
                forall|j: int|
                    0 <= j < old(my_buffer)@.len() && !spec_written_before(
                        j,
                        cw,
                        ch,
                        sx as int,
                        sy as int,
                    ) ==> my_buffer@[j] == old(my_buffer)@[j],
            decreases ye - sy,
        {
            let d: Vec3 = convert_from_canvas_to_viewport(
                sx,
                sy,
                viewport_distance,
                canvas_width,
                canvas_height,
                viewport_width,
                viewport_height,
            );
            let origin: Vec3 = Vec3 { x: 0, y: 0, z: 0 };
            let color: Color = trace_ray(&origin, &d, lights, viewport_distance, T_LIMIT, spheres);
            let ghost prev: Seq<Color> = my_buffer@;
            draw_point(sx, sy, color, my_buffer, canvas_width, canvas_height);
            proof {
                let wrote: int = spec_draw_index(sx as int, sy as int, cw, ch);
                lemma_draw_index_bounds(sx as int, sy as int, cw, ch);
                assert forall|px: int, py: int|
                    in_canvas_x(px, cw) && in_canvas_y(py, ch) && (px < sx as int || (px
                        == sx as int && py < sy as int + 1)) implies my_buffer@[
                #[trigger] spec_draw_index(px, py, cw, ch)] == spec_pixel(
                    spheres@,
                    lights@,
                    px,
                    py,
                    viewport_distance as int,
                    cw,
                    ch,
                    viewport_width as int,
                    viewport_height as int,
                ) by {
                    lemma_draw_index_bounds(px, py, cw, ch);
                    if px == sx as int && py == sy as int {
                    } else {
                        if spec_draw_index(px, py, cw, ch) == wrote {
                            lemma_draw_index_injective(px, py, sx as int, sy as int, cw, ch);
                        }
                    }
                }
                assert forall|j: int|
                    0 <= j < old(my_buffer)@.len() && !spec_written_before(
                        j,
                        cw,
                        ch,
                        sx as int,
                        sy as int + 1,
                    ) implies my_buffer@[j] == old(my_buffer)@[j] by {
                    assert(in_canvas_x(sx as int, cw) && in_canvas_y(sy as int, ch));
                    if j == wrote {
                        assert(spec_written_before(j, cw, ch, sx as int, sy as int + 1));
                    }
                    if spec_written_before(j, cw, ch, sx as int, sy as int) {
                        let (px, py): (int, int) = choose|px: int, py: int|
                            in_canvas_x(px, cw) && in_canvas_y(py, ch) && (px < sx as int || (px
                                == sx as int && py < sy as int))
                                && #[trigger] spec_draw_index(px, py, cw, ch) == j;
                        assert(spec_written_before(j, cw, ch, sx as int, sy as int + 1));
                    }
                    assert(my_buffer@[j] == prev[j]);
                }
            }
            sy = sy + 1;
        }
        proof {
            assert forall|j: int|
                0 <= j < old(my_buffer)@.len() && !spec_written_before(
                    j,
                    cw,
                    ch,
                    sx as int + 1,
                    -(ch / 2),
                ) implies my_buffer@[j] == old(my_buffer)@[j] by {
                if spec_written_before(j, cw, ch, sx as int, ye as int) {
                    let (px, py): (int, int) = choose|px: int, py: int|
                        in_canvas_x(px, cw) && in_canvas_y(py, ch) && (px < sx as int || (px
                            == sx as int && py < ye as int))
                            && #[trigger] spec_draw_index(px, py, cw, ch) == j;
                    assert(px < sx as int + 1);
                    assert(spec_written_before(j, cw, ch, sx as int + 1, -(ch / 2)));
                }
            }
        }
        sx = sx + 1;
    }
}

} // verus!
