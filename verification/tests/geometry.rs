use render_engine::camera::{
    convert_from_canvas_to_viewport, convert_from_screen_to_raster, convert_from_window_to_screen,
};
use render_engine::color::Color;
use render_engine::fixed::{div_fix, isqrt, pow_fixed_exec, SCALE, T_LIMIT};
use render_engine::object::{Normal, Object, NO_HIT};
use render_engine::sphere::Sphere;
use render_engine::vec3::Vec3;

fn plain_sphere(r: i64, center: Vec3) -> Sphere {
    Sphere { r, origin: center, color: Color { r: 255, g: 0, b: 0, a: 255 }, specular_reflection: 0 }
}

#[test]
fn isqrt_small_values() {
    assert_eq!(isqrt(0), 0);
    assert_eq!(isqrt(1), 1);
    assert_eq!(isqrt(10), 3);
    assert_eq!(isqrt(16), 4);
    assert_eq!(isqrt(1_000_000), 1000);
    assert_eq!(isqrt(999_999), 999);
}

#[test]
fn div_fix_truncates_toward_zero() {
    assert_eq!(div_fix(7, 2), 3);
    assert_eq!(div_fix(-7, 2), -3);
    assert_eq!(div_fix(0, 5), 0);
    assert_eq!(div_fix(-1, 1000), 0);
}

#[test]
fn pow_fixed_squares_a_half() {
    // 0.5 squared is 0.25 in fixed point.
    assert_eq!(pow_fixed_exec(500, 2), 250);
    // Any base to the first power is itself.
    assert_eq!(pow_fixed_exec(763, 1), 763);
    // Exponent zero gives one.
    assert_eq!(pow_fixed_exec(763, 0), SCALE);
}

#[test]
fn magnitude_of_pythagorean_triple() {
    let v = Vec3::new(300, 400, 0);
    assert_eq!(v.magnitude(), 500);
}

#[test]
fn axial_ray_hits_front_and_back() {
    // A sphere of radius one unit at the origin, a ray from two radii
    // out along -z with a unit direction: hits at t = r and t = 3r.
    let s = plain_sphere(1000, Vec3::new(0, 0, 0));
    let o = Vec3::new(0, 0, -2000);
    let d = Vec3::new(0, 0, 1000);
    let (t1, t2) = s.ray_intersections(&o, &d);
    assert_eq!(t1, 1000);
    assert_eq!(t2, 3000);
}

#[test]
fn scaled_axial_ray_hits_scale_with_radius() {
    let s = plain_sphere(2500, Vec3::new(0, 0, 0));
    let o = Vec3::new(0, 0, -5000);
    let d = Vec3::new(0, 0, 1000);
    let (t1, t2) = s.ray_intersections(&o, &d);
    assert_eq!(t1, 2500);
    assert_eq!(t2, 7500);
}

#[test]
fn missing_ray_reports_no_hit() {
    let s = plain_sphere(1000, Vec3::new(0, 0, 5000));
    let o = Vec3::new(0, 0, 0);
    let d = Vec3::new(0, 5000, 1000);
    let (t1, t2) = s.ray_intersections(&o, &d);
    assert_eq!(t1, NO_HIT);
    assert_eq!(t2, NO_HIT);
}

#[test]
fn zero_direction_reports_no_hit() {
    let s = plain_sphere(1000, Vec3::new(0, 0, 5000));
    let o = Vec3::new(0, 0, 0);
    let d = Vec3::new(0, 0, 0);
    let (t1, t2) = s.ray_intersections(&o, &d);
    assert_eq!(t1, NO_HIT);
    assert_eq!(t2, NO_HIT);
}

#[test]
fn normal_points_from_center_to_surface() {
    let s = plain_sphere(1000, Vec3::new(0, 0, 5000));
    let n = s.normal(&Vec3::new(0, 0, 4000));
    assert_eq!(n, Vec3::new(0, 0, -1000));
}

#[test]
fn screen_to_raster_centers_and_flips() {
    assert_eq!(convert_from_screen_to_raster(10, 20, 1000, 1000), (510, 480));
    assert_eq!(convert_from_screen_to_raster(-500, -500, 1000, 1000), (0, 1000));
    assert_eq!(convert_from_screen_to_raster(0, 0, 1000, 1000), (500, 500));
}

#[test]
fn window_to_screen_inverts_raster() {
    // Round trip both ways over a spread of points. (round-trip law)
    for &(x, y) in &[(0, 0), (10, 20), (-500, -500), (499, 499), (-250, 499)] {
        let (rx, ry) = convert_from_screen_to_raster(x, y, 1000, 1000);
        assert_eq!(convert_from_window_to_screen(rx as i32, ry as i32, 1000, 1000), (x, y));
    }
    let (sx, sy) = convert_from_window_to_screen(510, 480, 1000, 1000);
    assert_eq!((sx, sy), (10, 20));
    assert_eq!(convert_from_screen_to_raster(sx, sy, 1000, 1000), (510, 480));
}

#[test]
fn canvas_to_viewport_scales_onto_plane() {
    // A 1000-pixel canvas onto a one-unit viewport at distance one.
    let d = convert_from_canvas_to_viewport(0, 0, 1000, 1000, 1000, 1000, 1000);
    assert_eq!(d, Vec3::new(0, 0, 1000));
    let d = convert_from_canvas_to_viewport(500, -250, 1000, 1000, 1000, 1000, 1000);
    assert_eq!(d, Vec3::new(500, -250, 1000));
    // A wider viewport stretches x.
    let d = convert_from_canvas_to_viewport(100, 0, 1000, 500, 500, 2000, 1000);
    assert_eq!(d, Vec3::new(400, 0, 1000));
}

#[test]
fn t_limit_is_far_beyond_any_scene() {
    assert!(T_LIMIT > 1_000_000_000);
}
