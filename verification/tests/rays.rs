use softrender::color::Color;
use softrender::fixed::Fixed;
use softrender::lights::Light;
use softrender::ray::{
    closest_intersection, closest_intersection_scaled, does_intersect, reflect_ray, trace_ray,
    trace_ray_no_lights, trace_scaled_ray, trace_scaled_ray_no_lights, SURFACE_EPSILON_RAW,
};
use softrender::vector::{FinePoint, RAY_UNIT_RAW};
use softrender::shapes::{Material, Shape};
use softrender::vector::Vec3;

fn sphere(x: i32, y: i32, z: i32, color: Color) -> Shape {
    Shape::new_sphere(Vec3::from_ints(x, y, z), Fixed::one(), Material::from(color))
}

fn ray_along_z() -> (Vec3, Vec3) {
    (Vec3::zero(), Vec3::from_ints(0, 0, 1))
}

/// The scene of four spheres and three lights: red, blue and green spheres on
/// a large yellow one, lit from all around, from a lamp and from the sky.
fn reference_scene() -> (Vec<Light>, Vec<Shape>) {
    let shapes = vec![
        Shape::new_sphere(
            Vec3::from_ints(0, -1, 3),
            Fixed::one(),
            Material::new(Color::red(), Some(Fixed::from_int(500)), Some(Fixed::from_ratio(1, 5))),
        ),
        Shape::new_sphere(
            Vec3::from_ints(2, 0, 4),
            Fixed::one(),
            Material::new(Color::blue(), Some(Fixed::from_int(500)), Some(Fixed::from_ratio(3, 10))),
        ),
        Shape::new_sphere(
            Vec3::from_ints(-2, 0, 4),
            Fixed::one(),
            Material::new(Color::green(), Some(Fixed::from_int(10)), Some(Fixed::from_ratio(2, 5))),
        ),
        Shape::new_sphere(
            Vec3::from_ints(0, -5001, 0),
            Fixed::from_int(5000),
            Material::new(Color::yellow(), Some(Fixed::from_int(1000)), Some(Fixed::from_ratio(1, 2))),
        ),
    ];
    let lights = vec![
        Light::new_ambient(Fixed::from_ratio(1, 5)),
        Light::new_point(Fixed::from_ratio(3, 5), Vec3::from_ints(2, 1, 0)),
        Light::new_directional(Fixed::from_ratio(1, 5), Vec3::from_ints(1, 4, 4)),
    ];
    (lights, shapes)
}

fn direction(x: i64, y: i64, z: i64) -> Vec3 {
    Vec3::new(Fixed::from_raw(x), Fixed::from_raw(y), Fixed::from_raw(z))
}

#[test]
fn the_surface_epsilon_is_a_thousandth() {
    assert_eq!(SURFACE_EPSILON_RAW, 66);
    assert_eq!(Fixed::from_ratio(1, 1000).raw() + 1, SURFACE_EPSILON_RAW);
}

#[test]
fn reflecting_at_a_normal_mirrors_the_ray() {
    let r = reflect_ray(Vec3::from_ints(1, 1, 0), Vec3::from_ints(0, 1, 0));
    assert_eq!(r, Vec3::from_ints(-1, 1, 0));
    // a ray along the normal comes straight back
    let r = reflect_ray(Vec3::from_ints(0, 0, 3), Vec3::from_ints(0, 0, 1));
    assert_eq!(r, Vec3::from_ints(0, 0, 3));
}

#[test]
fn closest_intersection_finds_the_nearest_shape() {
    let shapes = vec![sphere(0, 0, 10, Color::red()), sphere(0, 0, 5, Color::blue())];
    let (o, d) = ray_along_z();
    let hit = closest_intersection(o, d, Fixed::one(), Fixed::max_value(), &shapes);
    assert_eq!(hit, (Some(1), Fixed::from_int(4)));
}

#[test]
fn closest_intersection_prefers_the_earlier_of_two_equal_hits() {
    let shapes = vec![
        sphere(0, 0, 10, Color::red()),
        sphere(0, 0, 5, Color::blue()),
        sphere(0, 0, 5, Color::green()),
        // this one is hit at four as well, with its far side
        sphere(0, 0, 3, Color::yellow()),
    ];
    let (o, d) = ray_along_z();
    let hit = closest_intersection(o, d, Fixed::from_int(3), Fixed::max_value(), &shapes);
    assert_eq!(hit, (Some(1), Fixed::from_int(4)));
}

#[test]
fn closest_intersection_keeps_to_the_range() {
    let shapes = vec![sphere(0, 0, 5, Color::red()), sphere(0, 0, 10, Color::blue())];
    let (o, d) = ray_along_z();
    // the near side of the first sphere is out of range, its far side is not
    let hit = closest_intersection(o, d, Fixed::from_int(5), Fixed::max_value(), &shapes);
    assert_eq!(hit, (Some(0), Fixed::from_int(6)));
    // both ends of the range count
    let hit = closest_intersection(o, d, Fixed::from_int(9), Fixed::from_int(9), &shapes);
    assert_eq!(hit, (Some(1), Fixed::from_int(9)));
    let hit = closest_intersection(o, d, Fixed::from_int(7), Fixed::from_int(8), &shapes);
    assert_eq!(hit, (None, Fixed::max_value()));
}

#[test]
fn closest_intersection_without_shapes_finds_nothing() {
    let (o, d) = ray_along_z();
    let hit = closest_intersection(o, d, Fixed::zero(), Fixed::max_value(), &Vec::new());
    assert_eq!(hit, (None, Fixed::max_value()));
}

#[test]
fn a_root_at_infinity_is_never_the_closest() {
    let shapes = vec![sphere(0, 0, 3, Color::red())];
    let tiny = direction(0, 0, 1);
    let hit = closest_intersection(Vec3::zero(), tiny, Fixed::zero(), Fixed::max_value(), &shapes);
    assert_eq!(hit, (None, Fixed::max_value()));
}

#[test]
fn does_intersect_tells_whether_any_shape_is_in_range() {
    let shapes = vec![sphere(0, 5, 0, Color::red()), sphere(0, 0, 5, Color::blue())];
    let (o, d) = ray_along_z();
    assert!(does_intersect(o, d, Fixed::one(), Fixed::max_value(), &shapes));
    assert!(does_intersect(o, d, Fixed::from_int(6), Fixed::from_int(6), &shapes));
    assert!(!does_intersect(o, d, Fixed::from_int(7), Fixed::max_value(), &shapes));
    assert!(!does_intersect(o, d, Fixed::zero(), Fixed::from_int(3), &shapes));
    assert!(!does_intersect(o, d, Fixed::zero(), Fixed::max_value(), &Vec::new()));
}

#[test]
fn tracing_without_lights_gives_the_base_color() {
    let shapes = vec![sphere(0, 0, 10, Color::red()), sphere(0, 0, 5, Color::blue())];
    let (o, d) = ray_along_z();
    let c = trace_ray_no_lights(o, d, Fixed::one(), Fixed::max_value(), &shapes, Color::white());
    assert_eq!(c, Color::blue());
    let up = Vec3::from_ints(0, 1, 0);
    let c = trace_ray_no_lights(o, up, Fixed::one(), Fixed::max_value(), &shapes, Color::white());
    assert_eq!(c, Color::white());
}

#[test]
fn tracing_a_miss_gives_the_background() {
    let (lights, shapes) = reference_scene();
    let c = trace_ray(
        Vec3::zero(),
        direction(0, 32768, 65536),
        Fixed::one(),
        Fixed::max_value(),
        3,
        &lights,
        &shapes,
        Color::new(1, 2, 3),
    );
    assert_eq!(c, Color::new(1, 2, 3));
}

#[test]
fn tracing_the_reference_scene_without_reflections() {
    let (lights, shapes) = reference_scene();
    let trace = |d: Vec3| {
        trace_ray(
            Vec3::zero(),
            d,
            Fixed::one(),
            Fixed::max_value(),
            0,
            &lights,
            &shapes,
            Color::black(),
        )
    };
    assert_eq!(trace(direction(0, 0, 65536)), Color::new(127, 0, 0));
    assert_eq!(trace(direction(0, -16384, 65536)), Color::new(171, 0, 0));
    assert_eq!(trace(direction(32768, 0, 65536)), Color::new(0, 0, 170));
    assert_eq!(trace(direction(-32768, 0, 65536)), Color::new(0, 246, 0));
    assert_eq!(trace(direction(16384, -8192, 65536)), Color::new(193, 0, 0));
}

#[test]
fn tracing_the_reference_scene_with_reflections() {
    let (lights, shapes) = reference_scene();
    let trace = |d: Vec3, depth: usize| {
        trace_ray(
            Vec3::zero(),
            d,
            Fixed::one(),
            Fixed::max_value(),
            depth,
            &lights,
            &shapes,
            Color::black(),
        )
    };
    assert_eq!(trace(direction(0, 0, 65536), 1), Color::new(101, 0, 0));
    assert_eq!(trace(direction(0, -16384, 65536), 3), Color::new(136, 0, 0));
    assert_eq!(trace(direction(32768, 0, 65536), 3), Color::new(0, 0, 119));
    assert_eq!(trace(direction(-32768, 0, 65536), 3), Color::new(0, 147, 0));
    // the red sphere mirrors the blue one
    assert_eq!(trace(direction(16384, -8192, 65536), 1), Color::new(154, 0, 19));
    assert_eq!(trace(direction(16384, -8192, 65536), 3), Color::new(160, 0, 13));
}

#[test]
fn tracing_without_depth_ignores_the_reflectiveness() {
    let (lights, shapes) = reference_scene();
    let matte: Vec<Shape> = shapes
        .iter()
        .map(|s| {
            let m = s.get_material();
            let Shape::Sphere(sphere) = s;
            Shape::new_sphere(
                s.get_center(),
                sphere.get_radius(),
                Material::new(m.get_color(), m.get_shininess(), None),
            )
        })
        .collect();
    for x in -4..=4 {
        for y in -4..=4 {
            let d = direction(x * 8192, y * 8192, 65536);
            let with = trace_ray(
                Vec3::zero(),
                d,
                Fixed::one(),
                Fixed::max_value(),
                0,
                &lights,
                &shapes,
                Color::black(),
            );
            let without = trace_ray(
                Vec3::zero(),
                d,
                Fixed::one(),
                Fixed::max_value(),
                3,
                &lights,
                &matte,
                Color::black(),
            );
            assert_eq!(with, without);
        }
    }
}

#[test]
fn a_mirror_shows_what_it_faces() {
    // a perfect mirror in front of the camera and a green sphere behind it
    let shapes = vec![
        Shape::new_sphere(
            Vec3::from_ints(0, 0, 5),
            Fixed::one(),
            Material::new(Color::red(), None, Some(Fixed::one())),
        ),
        Shape::new_sphere(
            Vec3::from_ints(0, 0, -5),
            Fixed::one(),
            Material::from(Color::green()),
        ),
    ];
    let lights = vec![Light::new_ambient(Fixed::one())];
    let (o, d) = ray_along_z();
    let seen = trace_ray(
        o,
        d,
        Fixed::one(),
        Fixed::max_value(),
        1,
        &lights,
        &shapes,
        Color::black(),
    );
    assert_eq!(seen, Color::green());
    let flat = trace_ray(
        o,
        d,
        Fixed::one(),
        Fixed::max_value(),
        0,
        &lights,
        &shapes,
        Color::black(),
    );
    assert_eq!(flat, Color::red());
}

#[test]
fn a_ray_on_a_finer_scale_hits_at_the_same_parameters() {
    // the direction (0, 0, 1) on the scale of the rays of a camera
    let fine = FinePoint::from_vec3(Vec3::from_ints(0, 0, 1)).to_direction();
    assert_eq!(fine.z.raw(), RAY_UNIT_RAW);
    let unit = Fixed::from_raw(RAY_UNIT_RAW);
    let shapes = vec![sphere(0, 0, 10, Color::red()), sphere(0, 0, 5, Color::blue())];
    let Shape::Sphere(second) = &shapes[1];
    assert_eq!(
        second.intersect_scaled_ray(Vec3::zero(), fine, unit),
        Some((Fixed::from_int(6), Fixed::from_int(4)))
    );
    assert_eq!(
        shapes[1].intersect_scaled_ray(Vec3::zero(), fine, unit),
        shapes[1].intersect_ray(Vec3::zero(), Vec3::from_ints(0, 0, 1))
    );
    let hit = closest_intersection_scaled(
        Vec3::zero(),
        fine,
        unit,
        Fixed::one(),
        Fixed::max_value(),
        &shapes,
    );
    assert_eq!(hit, (Some(1), Fixed::from_int(4)));
    let seen = trace_scaled_ray_no_lights(
        Vec3::zero(),
        fine,
        unit,
        Fixed::one(),
        Fixed::max_value(),
        &shapes,
        Color::white(),
    );
    assert_eq!(seen, Color::blue());
}

#[test]
fn a_ray_on_a_finer_scale_is_mirrored_on_that_scale() {
    // the mirror of `a_mirror_shows_what_it_faces`, seen along a fine ray
    let shapes = vec![
        Shape::new_sphere(
            Vec3::from_ints(0, 0, 5),
            Fixed::one(),
            Material::new(Color::red(), None, Some(Fixed::one())),
        ),
        Shape::new_sphere(
            Vec3::from_ints(0, 0, -5),
            Fixed::one(),
            Material::from(Color::green()),
        ),
    ];
    let lights = vec![Light::new_ambient(Fixed::one())];
    let fine = FinePoint::from_vec3(Vec3::from_ints(0, 0, 1)).to_direction();
    let seen = trace_scaled_ray(
        Vec3::zero(),
        fine,
        Fixed::from_raw(RAY_UNIT_RAW),
        Fixed::one(),
        Fixed::max_value(),
        1,
        &lights,
        &shapes,
        Color::black(),
    );
    assert_eq!(seen, Color::green());
}
