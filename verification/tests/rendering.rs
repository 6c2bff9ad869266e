use render_engine::color::{adjust_color, black, blue, green, red, white, Color};
use render_engine::driver::{
    rotate_direction, update_light_position, update_single_light_position, Direction,
};
use render_engine::fixed::T_LIMIT;
use render_engine::light::{Light, LightType};
use render_engine::render::{copy_to_pixels, draw_point, render_to_my_buffer};
use render_engine::shading::{get_reflection_for_object, intensity_at_point};
use render_engine::sphere::Sphere;
use render_engine::tracer::trace_ray;
use render_engine::vec3::Vec3;

fn ambient(k: i64) -> Light {
    Light::new(LightType::Ambient, Vec3::new(0, 0, 0), k)
}

fn matte_sphere(r: i64, center: Vec3, color: Color) -> Sphere {
    Sphere { r, origin: center, color, specular_reflection: -1 }
}

#[test]
fn clamp_caps_channels_at_255() {
    // Intensity far above one still yields channels within [0, 255].
    let mut c = Color { r: 255, g: 7, b: 200, a: 0 };
    adjust_color(&mut c, 50_000_000);
    assert_eq!(c, Color { r: 255, g: 255, b: 255, a: 255 });
}

#[test]
fn clamp_floors_channels_at_0() {
    let mut c = Color { r: 255, g: 7, b: 200, a: 0 };
    adjust_color(&mut c, -5);
    assert_eq!(c, Color { r: 0, g: 0, b: 0, a: 255 });
}

#[test]
fn adjust_scales_each_channel() {
    // Half intensity halves each channel exactly and forces opacity.
    let mut c = Color { r: 200, g: 100, b: 50, a: 0 };
    adjust_color(&mut c, 500);
    assert_eq!(c, Color { r: 100, g: 50, b: 25, a: 255 });
}

#[test]
fn ambient_only_intensity_is_sum() {
    let lights = vec![ambient(100), ambient(250)];
    let s = matte_sphere(1000, Vec3::new(0, 0, 5000), red());
    let total = intensity_at_point(
        &Vec3::new(0, 0, 4000),
        &Vec3::new(0, 0, -1000),
        &lights,
        &s,
        &Vec3::new(0, 0, 1000),
    );
    assert_eq!(total, 350);
}

#[test]
fn backfacing_point_light_contributes_nothing() {
    // The point light sits behind the visible hemisphere: the light
    // vector makes a nonpositive angle with the normal.
    let lights = vec![Light::new(LightType::Point, Vec3::new(0, 0, 10_000), 500)];
    let s = matte_sphere(1000, Vec3::new(0, 0, 5000), red());
    let total = intensity_at_point(
        &Vec3::new(0, 0, 4000),
        &Vec3::new(0, 0, -1000),
        &lights,
        &s,
        &Vec3::new(0, 0, 1000),
    );
    assert_eq!(total, 0);
}

#[test]
fn facing_point_light_adds_diffuse() {
    // Light straight along the normal: full diffuse weight.
    let lights = vec![Light::new(LightType::Point, Vec3::new(0, 0, 2000), 500)];
    let s = matte_sphere(1000, Vec3::new(0, 0, 5000), red());
    let total = intensity_at_point(
        &Vec3::new(0, 0, 4000),
        &Vec3::new(0, 0, -1000),
        &lights,
        &s,
        &Vec3::new(0, 0, 1000),
    );
    // light vector (0,0,-2000): dot = 2_000_000, norms 1000 and 2000.
    assert_eq!(total, 500);
}

#[test]
fn specular_along_reflection_is_full() {
    let shiny = Sphere {
        r: 1000,
        origin: Vec3::new(0, 0, 0),
        color: blue(),
        specular_reflection: 2,
    };
    let out = get_reflection_for_object(
        &shiny,
        &Vec3::new(0, 0, 1000),
        &Vec3::new(0, 0, 3000),
        &Vec3::new(0, 0, 2000),
    );
    assert_eq!(out, 1000);
}

#[test]
fn specular_disabled_by_exponent() {
    let matte = matte_sphere(1000, Vec3::new(0, 0, 0), blue());
    let out = get_reflection_for_object(
        &matte,
        &Vec3::new(0, 0, 1000),
        &Vec3::new(0, 0, 3000),
        &Vec3::new(0, 0, 2000),
    );
    assert_eq!(out, 0);
}

#[test]
fn trace_through_canvas_center_hits_red_sphere() {
    // The scenario: unit sphere one radius across at z = 5, camera at
    // the origin, viewport distance one, a single full ambient light.
    let spheres = vec![matte_sphere(1000, Vec3::new(0, 0, 5000), red())];
    let lights = vec![ambient(1000)];
    let d = Vec3::new(0, 0, 1000);
    let c = trace_ray(&Vec3::new(0, 0, 0), &d, &lights, 1000, T_LIMIT, &spheres);
    assert_eq!(c, Color { r: 255, g: 0, b: 0, a: 255 });
}

#[test]
fn trace_past_the_sphere_yields_white() {
    let spheres = vec![matte_sphere(1000, Vec3::new(0, 0, 5000), red())];
    let lights = vec![ambient(1000)];
    // The far canvas corner with viewport distance one clearly misses.
    let d = Vec3::new(-500, -500, 1000);
    let c = trace_ray(&Vec3::new(0, 0, 0), &d, &lights, 1000, T_LIMIT, &spheres);
    assert_eq!(c, white());
}

#[test]
fn trace_with_no_spheres_yields_white() {
    let spheres: Vec<Sphere> = Vec::new();
    let lights = vec![ambient(1000)];
    let c = trace_ray(&Vec3::new(0, 0, 0), &Vec3::new(3, -7, 1000), &lights, 1000, T_LIMIT, &spheres);
    assert_eq!(c, white());
}

#[test]
fn trace_tie_breaks_to_first_sphere() {
    // Two coincident spheres: the first in scene order wins the tie.
    let spheres = vec![
        matte_sphere(1000, Vec3::new(0, 0, 5000), red()),
        matte_sphere(1000, Vec3::new(0, 0, 5000), green()),
    ];
    let lights = vec![ambient(1000)];
    let c = trace_ray(&Vec3::new(0, 0, 0), &Vec3::new(0, 0, 1000), &lights, 1000, T_LIMIT, &spheres);
    assert_eq!(c, Color { r: 255, g: 0, b: 0, a: 255 });
}

#[test]
fn trace_picks_nearer_sphere() {
    let spheres = vec![
        matte_sphere(1000, Vec3::new(0, 0, 9000), green()),
        matte_sphere(1000, Vec3::new(0, 0, 5000), red()),
    ];
    let lights = vec![ambient(1000)];
    let c = trace_ray(&Vec3::new(0, 0, 0), &Vec3::new(0, 0, 1000), &lights, 1000, T_LIMIT, &spheres);
    assert_eq!(c, Color { r: 255, g: 0, b: 0, a: 255 });
}

#[test]
fn rotate_direction_cycles_through_all_six() {
    let mut d = Direction::Up;
    let expected = [
        Direction::Right,
        Direction::Down,
        Direction::Left,
        Direction::In,
        Direction::Out,
        Direction::Up,
    ];
    for e in expected {
        d = rotate_direction(&d);
        assert_eq!(d, e);
    }
}

#[test]
fn driver_steps_light_along_axis() {
    let mut light = Light::new(LightType::Point, Vec3::new(0, 0, 0), 500);
    let mut dir = Direction::In;
    update_single_light_position(&mut light, &mut dir);
    assert_eq!(light.pos_or_direction, Vec3::new(0, 0, 500));
    assert_eq!(dir, Direction::In);
}

#[test]
fn driver_rotates_at_the_bound() {
    let mut light = Light::new(LightType::Point, Vec3::new(0, 0, 2500), 500);
    let mut dir = Direction::In;
    update_single_light_position(&mut light, &mut dir);
    assert_eq!(light.pos_or_direction, Vec3::new(0, 0, 3000));
    assert_eq!(dir, Direction::Out);
}

#[test]
fn driver_skips_ambient_and_directional_lights() {
    let mut lights = vec![
        ambient(100),
        Light::new(LightType::Directional, Vec3::new(1, 2, 3), 200),
        Light::new(LightType::Point, Vec3::new(0, 0, 0), 300),
    ];
    let mut dir = Direction::Up;
    update_light_position(&mut lights, &mut dir);
    assert_eq!(lights[0].pos_or_direction, Vec3::new(0, 0, 0));
    assert_eq!(lights[1].pos_or_direction, Vec3::new(1, 2, 3));
    assert_eq!(lights[2].pos_or_direction, Vec3::new(0, -500, 0));
    assert_eq!(dir, Direction::Up);
}

#[test]
fn default_light_is_a_unit_point_light() {
    let l = Light::default();
    assert_eq!(l.kind, LightType::Point);
    assert_eq!(l.pos_or_direction, Vec3::new(0, 0, 0));
    assert_eq!(l.intensity, 1000);
}

#[test]
fn draw_point_writes_one_raster_slot() {
    let mut buffer = vec![black(); 9];
    draw_point(0, 0, green(), &mut buffer, 2, 2);
    // Screen (0,0) on a 2x2 canvas lands at raster (1,1): index 3.
    for (i, c) in buffer.iter().enumerate() {
        if i == 3 {
            assert_eq!(*c, green());
        } else {
            assert_eq!(*c, black());
        }
    }
}

#[test]
fn render_fills_every_canvas_pixel() {
    let mut buffer = vec![black(); 9];
    let spheres: Vec<Sphere> = Vec::new();
    let lights: Vec<Light> = Vec::new();
    render_to_my_buffer(&mut buffer, &spheres, &lights, 1000, 2, 2, 1000, 1000);
    // The 2x2 canvas covers screen points (-1..1) x (-1..1), whose
    // raster slots are indexes 2 through 5; the rest keep their color.
    for (i, c) in buffer.iter().enumerate() {
        if (2..=5).contains(&i) {
            assert_eq!(*c, white());
        } else {
            assert_eq!(*c, black());
        }
    }
}

#[test]
fn copy_to_pixels_flattens_rgba_in_order() {
    let colors = vec![red(), blue()];
    let mut bytes = vec![0u8; 8];
    copy_to_pixels(&colors, &mut bytes);
    assert_eq!(bytes, vec![255, 0, 0, 255, 0, 0, 255, 255]);
}
