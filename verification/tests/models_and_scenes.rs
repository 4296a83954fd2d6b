use softrender::camera::Camera;
use softrender::canvas::Canvas;
use softrender::color::Color;
use softrender::fixed::Fixed;
use softrender::matrix::{Mat4, Quat};
use softrender::models::{render_mesh, render_mesh_visible, Cube, Instance, Model, Transform};
use softrender::ray::{render, render_no_lights, trace_scaled_ray, trace_scaled_ray_no_lights};
use softrender::lights::Light;
use softrender::scene::Scene;
use softrender::shapes::{Material, Shape, Triangle};
use softrender::surface::RenderError;
use softrender::vector::{FinePoint, Vec3, RAY_UNIT_RAW};

fn snapshot(canvas: &Canvas) -> Vec<Color> {
    let mut colors = Vec::new();
    for x in -canvas.get_half_width()..=canvas.get_half_width() {
        for y in -canvas.get_half_height()..=canvas.get_half_height() {
            colors.push(canvas.get_pixel(x, y).unwrap());
        }
    }
    colors
}

fn count(canvas: &Canvas, color: Color) -> usize {
    snapshot(canvas).iter().filter(|c| **c == color).count()
}

fn identity() -> Mat4 {
    Transform::default().get_matrix()
}

/// One red triangle in front of the camera, at the depth four.
fn one_triangle() -> Instance {
    Instance::new_mesh(
        vec![
            Vec3::from_ints(-1, -1, 4),
            Vec3::from_ints(1, -1, 4),
            Vec3::from_ints(0, 1, 4),
        ],
        vec![Triangle::new(0, 1, 2, Material::from(Color::red()))],
        Transform::default(),
    )
}

#[test]
fn the_cube_has_eight_corners_and_twelve_triangles() {
    let model = Model::Cube(Cube);
    let vertices = model.get_vertices();
    assert_eq!(vertices.len(), 8);
    assert_eq!(vertices[0], Vec3::from_ints(1, 1, 1));
    assert_eq!(vertices[1], Vec3::from_ints(-1, 1, 1));
    assert_eq!(vertices[2], Vec3::from_ints(-1, -1, 1));
    assert_eq!(vertices[3], Vec3::from_ints(1, -1, 1));
    assert_eq!(vertices[4], Vec3::from_ints(1, 1, -1));
    assert_eq!(vertices[5], Vec3::from_ints(-1, 1, -1));
    assert_eq!(vertices[6], Vec3::from_ints(-1, -1, -1));
    assert_eq!(vertices[7], Vec3::from_ints(1, -1, -1));
    let triangles = model.get_triangles();
    let corners: Vec<[usize; 3]> = triangles.iter().map(|t| *t.get_vertices()).collect();
    assert_eq!(
        corners,
        vec![
            [0, 1, 2], [0, 2, 3], [4, 0, 3], [4, 3, 7], [5, 4, 7], [5, 7, 6],
            [1, 5, 6], [1, 6, 2], [4, 5, 1], [4, 1, 0], [2, 6, 7], [2, 7, 3],
        ]
    );
    let colors: Vec<Color> = triangles.iter().map(|t| t.get_material().get_color()).collect();
    assert_eq!(
        colors,
        vec![
            Color::red(), Color::red(), Color::green(), Color::green(),
            Color::blue(), Color::blue(), Color::yellow(), Color::yellow(),
            Color::magenta(), Color::magenta(), Color::cyan(), Color::cyan(),
        ]
    );
    assert!(triangles.iter().all(|t| t.get_material().get_shininess().is_none()));
    assert!(triangles.iter().all(|t| t.get_material().get_reflectiveness().is_none()));
}

#[test]
fn a_mesh_hands_out_its_own_vertices_and_triangles() {
    let instance = one_triangle();
    let model = instance.get_model();
    assert_eq!(model.get_vertices().len(), 3);
    assert_eq!(model.get_vertices()[2], Vec3::from_ints(0, 1, 4));
    assert_eq!(model.get_triangles().len(), 1);
    assert_eq!(model.get_triangles()[0].get_vertices(), &[0, 1, 2]);
    let copy = instance.clone();
    assert_eq!(copy.get_model().get_vertices(), model.get_vertices());
    assert_eq!(copy.get_transform().get_scale(), Fixed::one());
}

#[test]
fn a_model_is_drawn_as_its_projected_triangles() {
    let instance = one_triangle();
    let mut canvas = Canvas::from_window(40, 40).unwrap();
    instance.get_model().render(&mut canvas, &identity()).unwrap();
    // by hand: project the corners and fill the triangle
    let mut by_hand = Canvas::from_window(40, 40).unwrap();
    let a = by_hand.project(&FinePoint::from_vec3(Vec3::from_ints(-1, -1, 4)));
    let b = by_hand.project(&FinePoint::from_vec3(Vec3::from_ints(1, -1, 4)));
    let c = by_hand.project(&FinePoint::from_vec3(Vec3::from_ints(0, 1, 4)));
    assert_eq!(a, Vec3::from_ints(-10, -10, 1));
    assert_eq!(b, Vec3::from_ints(10, -10, 1));
    assert_eq!(c, Vec3::from_ints(0, 10, 1));
    by_hand.draw_shaded_triangle(a, b, c, Color::red()).unwrap();
    assert_eq!(snapshot(&canvas), snapshot(&by_hand));
    assert!(count(&canvas, Color::red()) > 0);
    assert_eq!(canvas.get_pixel(0, 0), Some(Color::red()));
    assert_eq!(canvas.get_pixel(-10, -10), Some(Color::red()));
    assert_eq!(canvas.get_pixel(-10, 10), Some(Color::black()));
}

#[test]
fn an_instance_is_drawn_where_its_transform_places_it() {
    let mut placed = one_triangle();
    placed.transform = Transform::from_translation(Vec3::from_ints(1, 0, 0));
    let mut canvas = Canvas::from_window(40, 40).unwrap();
    placed.render(&mut canvas).unwrap();
    let mut by_hand = Canvas::from_window(40, 40).unwrap();
    by_hand
        .draw_shaded_triangle(
            Vec3::from_ints(0, -10, 1),
            Vec3::from_ints(20, -10, 1),
            Vec3::from_ints(10, 10, 1),
            Color::red(),
        )
        .unwrap();
    assert_eq!(snapshot(&canvas), snapshot(&by_hand));
}

#[test]
fn render_object_projects_and_draws() {
    let vertices = vec![
        Vec3::from_ints(-1, -1, 4),
        Vec3::from_ints(1, -1, 4),
        Vec3::from_ints(0, 1, 4),
        Vec3::from_ints(0, 0, 2),
    ];
    let triangles = vec![
        Triangle::new(0, 1, 2, Material::from(Color::red())),
        Triangle::new(0, 1, 3, Material::from(Color::blue())),
    ];
    let mut canvas = Canvas::from_window(40, 40).unwrap();
    assert_eq!(canvas.render_object(&vertices, &triangles), Ok(()));
    let mut by_hand = Canvas::from_window(40, 40).unwrap();
    by_hand
        .draw_shaded_triangle(
            Vec3::from_ints(-10, -10, 1),
            Vec3::from_ints(10, -10, 1),
            Vec3::from_ints(0, 10, 1),
            Color::red(),
        )
        .unwrap();
    by_hand
        .draw_shaded_triangle(
            Vec3::from_ints(-10, -10, 1),
            Vec3::from_ints(10, -10, 1),
            Vec3::from_ints(0, 0, 1),
            Color::blue(),
        )
        .unwrap();
    assert_eq!(snapshot(&canvas), snapshot(&by_hand));
    // the triangle that was drawn last covers the other
    assert_eq!(canvas.get_pixel(0, -5), Some(Color::blue()));
    assert_eq!(canvas.get_pixel(0, 5), Some(Color::red()));
}

#[test]
fn a_triangle_with_a_missing_vertex_stops_the_drawing() {
    let vertices = vec![
        Vec3::from_ints(-1, -1, 4),
        Vec3::from_ints(1, -1, 4),
        Vec3::from_ints(0, 1, 4),
    ];
    let triangles = vec![
        Triangle::new(0, 1, 2, Material::from(Color::red())),
        Triangle::new(0, 1, 3, Material::from(Color::blue())),
        Triangle::new(0, 1, 2, Material::from(Color::green())),
    ];
    let mut canvas = Canvas::from_window(40, 40).unwrap();
    assert_eq!(
        canvas.render_object(&vertices, &triangles),
        Err(RenderError::MissingVertex)
    );
    assert!(count(&canvas, Color::red()) > 0);
    assert_eq!(count(&canvas, Color::blue()), 0);
    assert_eq!(count(&canvas, Color::green()), 0);
    let projected = vec![Vec3::from_ints(0, 0, 1)];
    assert_eq!(
        triangles[0].render(&mut canvas, &projected),
        Err(RenderError::MissingVertex)
    );
    assert_eq!(
        render_mesh(&mut canvas, &projected, &triangles),
        Err(RenderError::MissingVertex)
    );
}

#[test]
fn a_scene_keeps_its_instances_in_order() {
    let mut scene = Scene::default();
    assert!(scene.get_instances().is_empty());
    scene.add_instance(Instance::new_cube(Transform::from_translation(Vec3::from_ints(0, 0, 7))));
    scene.add_instance(one_triangle());
    assert_eq!(scene.get_instances().len(), 2);
    assert!(matches!(scene.get_instances()[0].get_model(), Model::Cube(_)));
    assert!(matches!(scene.get_instances()[1].get_model(), Model::Mesh(_)));
    assert_eq!(
        scene.get_instances()[0].get_transform().get_translation(),
        Vec3::from_ints(0, 0, 7)
    );
}

#[test]
fn a_scene_is_drawn_as_the_camera_sees_it() {
    let mut scene = Scene::default();
    scene.add_instance(one_triangle());
    // the camera stands one to the left, so the triangle appears one to the right
    let camera = Camera::from_translation(Vec3::from_ints(-1, 0, 0));
    let mut canvas = Canvas::from_window(40, 40).unwrap();
    // the camera matrix moves by the negated position
    assert_eq!(camera.get_matrix().w_axis, Vec3::from_ints(1, 0, 0));
    assert_eq!(
        camera.get_matrix().transform_point(Vec3::from_ints(-1, 0, 0)),
        Vec3::zero()
    );
    scene.render(&mut canvas, &camera).unwrap();
    let mut by_hand = Canvas::from_window(40, 40).unwrap();
    by_hand
        .draw_shaded_triangle(
            Vec3::from_ints(0, -10, 1),
            Vec3::from_ints(20, -10, 1),
            Vec3::from_ints(10, 10, 1),
            Color::red(),
        )
        .unwrap();
    assert_eq!(snapshot(&canvas), snapshot(&by_hand));
}

#[test]
fn a_cube_in_front_of_the_camera_shows_the_face_that_is_drawn_last() {
    let mut scene = Scene::default();
    scene.add_instance(Instance::new_cube(Transform::new(
        Vec3::from_ints(0, 0, 7),
        Quat::identity(),
        Fixed::one(),
    )));
    let mut canvas = Canvas::from_window(100, 100).unwrap();
    assert_eq!(scene.render(&mut canvas, &Camera::default()), Ok(()));
    // the far face is drawn first, in red, and covered by the near face, in blue,
    // which reaches 100 / 6 from the center
    assert_eq!(canvas.get_pixel(0, 0), Some(Color::blue()));
    assert_eq!(canvas.get_pixel(16, 0), Some(Color::blue()));
    assert_eq!(canvas.get_pixel(17, 0), Some(Color::black()));
    // the right side was drawn before the near face and is covered by it; the
    // other sides are drawn after it and cover it
    assert_eq!(canvas.get_pixel(14, 0), Some(Color::blue()));
    assert_eq!(canvas.get_pixel(-14, 0), Some(Color::yellow()));
    assert_eq!(canvas.get_pixel(0, 14), Some(Color::magenta()));
    assert_eq!(canvas.get_pixel(0, -14), Some(Color::cyan()));
    assert_eq!(count(&canvas, Color::red()), 0);
}

#[test]
fn a_frame_stops_at_the_first_instance_that_leaves_the_canvas() {
    let mut scene = Scene::default();
    scene.add_instance(one_triangle());
    // this one is twenty times as wide as the canvas
    scene.add_instance(Instance::new_mesh(
        vec![
            Vec3::from_ints(-20, 0, 1),
            Vec3::from_ints(20, 0, 1),
            Vec3::from_ints(0, 1, 1),
        ],
        vec![Triangle::new(0, 1, 2, Material::from(Color::green()))],
        Transform::default(),
    ));
    let mut third = one_triangle();
    third.transform = Transform::from_translation(Vec3::from_ints(0, 1, 0));
    scene.add_instance(third);
    let mut canvas = Canvas::from_window(40, 40).unwrap();
    assert_eq!(
        scene.render(&mut canvas, &Camera::default()),
        Err(RenderError::OutOfBounds)
    );
    let mut first_only = Canvas::from_window(40, 40).unwrap();
    one_triangle().render(&mut first_only).unwrap();
    assert_eq!(snapshot(&canvas), snapshot(&first_only));
}

#[test]
fn an_empty_scene_draws_nothing() {
    let scene = Scene::default();
    let mut canvas = Canvas::from_window(10, 10).unwrap();
    canvas.clear(Color::white());
    assert_eq!(scene.render(&mut canvas, &Camera::default()), Ok(()));
    assert_eq!(count(&canvas, Color::white()), 11 * 11);
}

#[test]
fn a_traced_frame_holds_the_color_of_the_ray_through_each_point() {
    let shapes = vec![
        Shape::new_sphere(
            Vec3::from_ints(0, 0, 3),
            Fixed::one(),
            Material::new(Color::red(), Some(Fixed::from_int(10)), Some(Fixed::from_ratio(1, 5))),
        ),
        Shape::new_sphere(
            Vec3::from_ints(0, -101, 3),
            Fixed::from_int(100),
            Material::new(Color::yellow(), None, Some(Fixed::from_ratio(1, 2))),
        ),
    ];
    let lights = vec![
        Light::new_ambient(Fixed::from_ratio(1, 5)),
        Light::new_point(Fixed::from_ratio(4, 5), Vec3::from_ints(2, 3, 0)),
    ];
    let background = Color::new(10, 20, 30);
    for camera in [
        Camera::default(),
        Camera::new(Vec3::from_ints(0, 0, 6), Quat::new(
            Fixed::zero(),
            Fixed::one(),
            Fixed::zero(),
            Fixed::zero(),
        )),
    ] {
        let mut canvas = Canvas::from_window(16, 12).unwrap();
        assert_eq!(render(&mut canvas, &camera, 2, &lights, &shapes, background), Ok(()));
        for x in -8..=8 {
            for y in -6..=6 {
                let direction = camera
                    .get_rotation()
                    .rotate(canvas.to_viewport(x, y).to_direction());
                let expected = trace_scaled_ray(
                    camera.get_translation(),
                    direction,
                    Fixed::from_raw(RAY_UNIT_RAW),
                    Fixed::one(),
                    Fixed::max_value(),
                    2,
                    &lights,
                    &shapes,
                    background,
                );
                assert_eq!(canvas.get_pixel(x, y), Some(expected));
            }
        }
        // the sphere in the middle, the sky in the upper corners
        assert_ne!(canvas.get_pixel(0, 0), Some(background));
        assert_eq!(canvas.get_pixel(-8, 6), Some(background));
        assert_eq!(canvas.get_pixel(8, 6), Some(background));
    }
}

#[test]
fn an_unlit_frame_holds_the_base_color_of_what_each_ray_hits() {
    let shapes = vec![
        Shape::new_sphere(
            Vec3::from_ints(0, -1, 3),
            Fixed::one(),
            Material::from(Color::red()),
        ),
        Shape::new_sphere(
            Vec3::from_ints(0, 0, 20),
            Fixed::from_int(5),
            Material::from(Color::blue()),
        ),
    ];
    let camera = Camera::default();
    let mut canvas = Canvas::from_window(12, 12).unwrap();
    // the second sphere lies beyond the range
    let far = Fixed::from_int(10);
    assert_eq!(
        render_no_lights(&mut canvas, &camera, Fixed::one(), far, &shapes, Color::white()),
        Ok(())
    );
    for x in -6..=6 {
        for y in -6..=6 {
            let expected = trace_scaled_ray_no_lights(
                Vec3::zero(),
                canvas.to_viewport(x, y).to_direction(),
                Fixed::from_raw(RAY_UNIT_RAW),
                Fixed::one(),
                far,
                &shapes,
                Color::white(),
            );
            assert_eq!(canvas.get_pixel(x, y), Some(expected));
        }
    }
    assert_eq!(canvas.get_pixel(0, -1), Some(Color::red()));
    assert_eq!(canvas.get_pixel(0, 5), Some(Color::white()));
    assert_eq!(count(&canvas, Color::blue()), 0);
}

#[test]
fn a_turned_camera_sees_what_lies_ahead_of_it() {
    // the camera looks along the x axis of the world: half a turn about y
    // would look back, a quarter looks to the side
    let rotation = Quat::new(
        Fixed::zero(),
        Fixed::from_raw(46341),
        Fixed::zero(),
        Fixed::from_raw(46341),
    );
    let position = Vec3::from_ints(3, 0, 0);
    let camera = Camera::new(position, rotation);
    // the triangle of `one_triangle`, placed where the camera looks
    let place = |v: Vec3| rotation.rotate(v).add(position);
    let mut scene = Scene::default();
    scene.add_instance(Instance::new_mesh(
        vec![
            place(Vec3::from_ints(-1, -1, 4)),
            place(Vec3::from_ints(1, -1, 4)),
            place(Vec3::from_ints(0, 1, 4)),
        ],
        vec![Triangle::new(0, 1, 2, Material::from(Color::red()))],
        Transform::default(),
    ));
    let mut canvas = Canvas::from_window(40, 40).unwrap();
    scene.render(&mut canvas, &camera).unwrap();
    let mut straight = Canvas::from_window(40, 40).unwrap();
    one_triangle().render(&mut straight).unwrap();
    assert_eq!(snapshot(&canvas), snapshot(&straight));
    assert_eq!(canvas.get_pixel(0, 0), Some(Color::red()));
}

/// The scene of `a_frame_stops_at_the_first_instance_that_leaves_the_canvas`.
fn scene_that_leaves_the_canvas() -> Scene {
    let mut scene = Scene::default();
    scene.add_instance(one_triangle());
    scene.add_instance(Instance::new_mesh(
        vec![
            Vec3::from_ints(-20, 0, 1),
            Vec3::from_ints(20, 0, 1),
            Vec3::from_ints(0, 1, 1),
        ],
        vec![Triangle::new(0, 1, 2, Material::from(Color::green()))],
        Transform::default(),
    ));
    let mut third = one_triangle();
    third.transform = Transform::from_translation(Vec3::from_ints(0, 1, 0));
    scene.add_instance(third);
    scene
}

#[test]
fn the_visible_part_of_a_scene_is_drawn_to_the_end() {
    let scene = scene_that_leaves_the_canvas();
    let mut canvas = Canvas::from_window(40, 40).unwrap();
    assert_eq!(scene.render_visible(&mut canvas, &Camera::default()), Ok(()));
    // the wide triangle covers its rows from edge to edge, and the third
    // triangle is drawn over it
    assert_eq!(canvas.get_pixel(-20, 0), Some(Color::green()));
    assert_eq!(canvas.get_pixel(20, 0), Some(Color::green()));
    assert_eq!(canvas.get_pixel(0, 10), Some(Color::red()));
    assert_eq!(canvas.get_pixel(0, -10), Some(Color::red()));
    assert!(count(&canvas, Color::green()) > 0);
    // a scene on the canvas is drawn as by `render`
    let mut small = Scene::default();
    small.add_instance(Instance::new_cube(Transform::from_translation(Vec3::from_ints(0, 0, 7))));
    let mut one = Canvas::from_window(100, 100).unwrap();
    small.render(&mut one, &Camera::default()).unwrap();
    let mut other = Canvas::from_window(100, 100).unwrap();
    small.render_visible(&mut other, &Camera::default()).unwrap();
    assert_eq!(snapshot(&one), snapshot(&other));
}

#[test]
fn the_visible_part_of_a_mesh_is_drawn_by_every_routine() {
    let wide = Instance::new_mesh(
        vec![
            Vec3::from_ints(-20, 0, 1),
            Vec3::from_ints(20, 0, 1),
            Vec3::from_ints(0, 1, 1),
        ],
        vec![Triangle::new(0, 1, 2, Material::from(Color::green()))],
        Transform::default(),
    );
    let mut by_instance = Canvas::from_window(40, 40).unwrap();
    assert_eq!(wide.render_visible(&mut by_instance), Ok(()));
    assert!(count(&by_instance, Color::green()) > 0);
    let mut by_model = Canvas::from_window(40, 40).unwrap();
    assert_eq!(wide.get_model().render_visible(&mut by_model, &identity()), Ok(()));
    let mut by_object = Canvas::from_window(40, 40).unwrap();
    assert_eq!(
        by_object.render_object_visible(
            &wide.get_model().get_vertices(),
            &wide.get_model().get_triangles()
        ),
        Ok(())
    );
    let mut by_mesh = Canvas::from_window(40, 40).unwrap();
    let projected: Vec<Vec3> = wide
        .get_model()
        .get_vertices()
        .iter()
        .map(|v| by_mesh.project(&FinePoint::from_vec3(*v)))
        .collect();
    assert_eq!(
        render_mesh_visible(&mut by_mesh, &projected, &wide.get_model().get_triangles()),
        Ok(())
    );
    let mut by_triangle = Canvas::from_window(40, 40).unwrap();
    assert_eq!(
        wide.get_model().get_triangles()[0].render_visible(&mut by_triangle, &projected),
        Ok(())
    );
    let mut by_hand = Canvas::from_window(40, 40).unwrap();
    by_hand.draw_shaded_triangle_visible(projected[0], projected[1], projected[2], Color::green());
    for other in [&by_model, &by_object, &by_mesh, &by_triangle, &by_hand] {
        assert_eq!(snapshot(&by_instance), snapshot(other));
    }
    // drawn to the end or not, a missing vertex is reported
    let faulty = vec![Triangle::new(0, 1, 7, Material::from(Color::blue()))];
    assert_eq!(
        render_mesh_visible(&mut by_mesh, &projected, &faulty),
        Err(RenderError::MissingVertex)
    );
    // and without the skipping the same mesh stops at the edge of the canvas
    let mut stopped = Canvas::from_window(40, 40).unwrap();
    assert_eq!(wide.render(&mut stopped), Err(RenderError::OutOfBounds));
}
