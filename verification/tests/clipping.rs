use softrender::canvas::Canvas;
use softrender::clip::{clip_facet, clip_facets, clip_facets_against, Facet};
use softrender::color::Color;
use softrender::fixed::Fixed;
use softrender::math::Plane;
use softrender::models::{Instance, Model, Transform};
use softrender::scene::Scene;
use softrender::shapes::{Material, Triangle};
use softrender::vector::Vec3;

/// The plane `z = 1`, in front of which `z` is larger.
fn near_plane() -> Plane {
    Plane::new(Vec3::from_ints(0, 0, 1), Fixed::from_int(-1))
}

fn facet(a: (i32, i32, i32), b: (i32, i32, i32), c: (i32, i32, i32)) -> Facet {
    Facet {
        a: Vec3::from_ints(a.0, a.1, a.2),
        b: Vec3::from_ints(b.0, b.1, b.2),
        c: Vec3::from_ints(c.0, c.1, c.2),
        material: Material::from(Color::red()),
    }
}

fn corners(facets: &[Facet]) -> Vec<[Vec3; 3]> {
    facets.iter().map(|f| [f.a, f.b, f.c]).collect()
}

fn v(x: i32, y: i32, z: i32) -> Vec3 {
    Vec3::from_ints(x, y, z)
}

#[test]
fn a_triangle_in_front_of_the_plane_is_kept() {
    let f = facet((0, 0, 2), (2, 0, 2), (0, 2, 2));
    let clipped = clip_facets(&vec![f], &near_plane());
    assert_eq!(corners(&clipped), vec![[v(0, 0, 2), v(2, 0, 2), v(0, 2, 2)]]);
    assert_eq!(clipped[0].material.get_color(), Color::red());
}

#[test]
fn a_triangle_on_the_plane_is_kept() {
    let f = facet((0, 0, 1), (2, 0, 1), (0, 2, 1));
    let clipped = clip_facets(&vec![f], &near_plane());
    assert_eq!(corners(&clipped), vec![[v(0, 0, 1), v(2, 0, 1), v(0, 2, 1)]]);
}

#[test]
fn a_triangle_behind_the_plane_is_dropped() {
    let f = facet((0, 0, 0), (2, 0, 0), (0, 2, 0));
    assert!(clip_facets(&vec![f], &near_plane()).is_empty());
}

#[test]
fn a_triangle_with_one_corner_in_front_keeps_that_corner() {
    let expected = vec![[v(0, 0, 3), v(2, 0, 1), v(0, 2, 1)]];
    // whichever corner comes first, the sense of rotation stays
    let f = facet((0, 0, 3), (4, 0, -1), (0, 4, -1));
    assert_eq!(corners(&clip_facets(&vec![f], &near_plane())), expected);
    let f = facet((0, 4, -1), (0, 0, 3), (4, 0, -1));
    assert_eq!(corners(&clip_facets(&vec![f], &near_plane())), expected);
    let f = facet((4, 0, -1), (0, 4, -1), (0, 0, 3));
    assert_eq!(corners(&clip_facets(&vec![f], &near_plane())), expected);
}

#[test]
fn a_triangle_with_one_corner_behind_becomes_two() {
    let expected = vec![
        [v(4, 0, 3), v(0, 4, 3), v(0, 2, 1)],
        [v(4, 0, 3), v(0, 2, 1), v(2, 0, 1)],
    ];
    let f = facet((0, 0, -1), (4, 0, 3), (0, 4, 3));
    assert_eq!(corners(&clip_facets(&vec![f], &near_plane())), expected);
    let f = facet((4, 0, 3), (0, 4, 3), (0, 0, -1));
    assert_eq!(corners(&clip_facets(&vec![f], &near_plane())), expected);
    let f = facet((0, 4, 3), (0, 0, -1), (4, 0, 3));
    assert_eq!(corners(&clip_facets(&vec![f], &near_plane())), expected);
}

#[test]
fn clip_facet_appends_to_the_list() {
    let mut out = vec![facet((9, 9, 9), (8, 8, 8), (7, 7, 7))];
    clip_facet(&mut out, &facet((0, 0, -1), (4, 0, 3), (0, 4, 3)), &near_plane());
    assert_eq!(out.len(), 3);
    assert_eq!(out[0].a, v(9, 9, 9));
    clip_facet(&mut out, &facet((0, 0, 0), (2, 0, 0), (0, 2, 0)), &near_plane());
    assert_eq!(out.len(), 3);
}

#[test]
fn clipping_against_several_planes_keeps_what_is_in_front_of_all() {
    // in front of z = 1 and of x = 0
    let planes = vec![near_plane(), Plane::new(Vec3::from_ints(1, 0, 0), Fixed::zero())];
    let facets = vec![
        facet((1, 0, 2), (3, 0, 2), (1, 2, 2)),
        facet((-3, 0, 2), (-1, 0, 2), (-3, 2, 2)),
        facet((1, 0, 0), (3, 0, 0), (1, 2, 0)),
        facet((-2, 0, 2), (2, 0, 2), (-2, 4, 2)),
    ];
    let clipped = clip_facets_against(facets, &planes);
    assert_eq!(
        corners(&clipped),
        vec![
            [v(1, 0, 2), v(3, 0, 2), v(1, 2, 2)],
            [v(2, 0, 2), v(0, 2, 2), v(0, 0, 2)],
        ]
    );
    let all = clip_facets_against(vec![facet((0, 0, 0), (1, 0, 0), (0, 1, 0))], &Vec::new());
    assert_eq!(all.len(), 1);
}

#[test]
fn an_instance_in_front_of_the_planes_is_kept_as_it_is() {
    // a triangle at the depth zero in its own space, moved two to the back
    let instance = Instance::new_mesh(
        vec![v(0, 0, 0), v(2, 0, 0), v(0, 2, 0)],
        vec![Triangle::new(0, 1, 2, Material::from(Color::green()))],
        Transform::from_translation(v(0, 0, 2)),
    );
    let kept = instance.clip(&vec![near_plane()]).expect("it lies in front of the plane");
    assert!(matches!(kept.get_model(), Model::Mesh(_)));
    assert_eq!(
        kept.get_model().get_vertices(),
        vec![v(0, 0, 0), v(2, 0, 0), v(0, 2, 0)]
    );
    let triangles = kept.get_model().get_triangles();
    assert_eq!(triangles.len(), 1);
    assert_eq!(triangles[0].get_vertices(), &[0, 1, 2]);
    assert_eq!(triangles[0].get_material().get_color(), Color::green());
    assert_eq!(kept.get_transform().get_translation(), v(0, 0, 2));
    // on the plane counts as in front
    let on_it = Instance::new_mesh(
        vec![v(0, 0, 0), v(2, 0, 0), v(0, 2, 0)],
        vec![Triangle::new(0, 1, 2, Material::from(Color::green()))],
        Transform::from_translation(v(0, 0, 1)),
    );
    let kept = on_it.clip(&vec![near_plane()]).unwrap();
    assert_eq!(kept.get_transform().get_translation(), v(0, 0, 1));
}

#[test]
fn an_instance_behind_a_plane_is_dropped() {
    let hidden = Instance::new_mesh(
        vec![v(0, 0, 0), v(2, 0, 0), v(0, 2, 0)],
        vec![Triangle::new(0, 1, 2, Material::from(Color::green()))],
        Transform::from_translation(v(0, 0, -2)),
    );
    assert!(hidden.clip(&vec![near_plane()]).is_none());
    let planes = vec![Plane::new(v(1, 0, 0), Fixed::from_int(100)), near_plane()];
    assert!(hidden.clip(&planes).is_none());
    assert!(Instance::new_cube(Transform::from_translation(v(0, 0, -7)))
        .clip(&planes)
        .is_none());
}

#[test]
fn a_cube_in_front_of_the_planes_stays_a_cube() {
    let instance = Instance::new_cube(Transform::from_translation(v(0, 0, 7)));
    let kept = instance.clip(&vec![near_plane()]).unwrap();
    assert!(matches!(kept.get_model(), Model::Cube(_)));
    assert_eq!(kept.get_model().get_triangles().len(), 12);
    assert_eq!(kept.get_model().get_vertices().len(), 8);
    assert_eq!(kept.get_transform().get_translation(), v(0, 0, 7));
    let mut whole = Canvas::from_window(100, 100).unwrap();
    instance.render(&mut whole).unwrap();
    let mut clipped = Canvas::from_window(100, 100).unwrap();
    kept.render(&mut clipped).unwrap();
    for x in -50..=50 {
        for y in -50..=50 {
            assert_eq!(whole.get_pixel(x, y), clipped.get_pixel(x, y));
        }
    }
}

#[test]
fn without_planes_every_instance_is_kept_as_it_is() {
    // even one that has no triangles, and one that names a missing vertex
    let bare = Instance::new_mesh(vec![v(0, 0, -5)], Vec::new(), Transform::default());
    let kept = bare.clip(&Vec::new()).unwrap();
    assert_eq!(kept.get_model().get_vertices(), vec![v(0, 0, -5)]);
    assert!(kept.get_model().get_triangles().is_empty());
    let empty = Instance::new_mesh(Vec::new(), Vec::new(), Transform::default());
    assert!(empty.clip(&Vec::new()).is_some());
    let faulty = Instance::new_mesh(
        vec![v(0, 0, 2), v(2, 0, 2), v(0, 2, 2)],
        vec![Triangle::new(0, 1, 5, Material::from(Color::green()))],
        Transform::default(),
    );
    let kept = faulty.clip(&Vec::new()).unwrap();
    assert_eq!(kept.get_model().get_triangles()[0].get_vertices(), &[0, 1, 5]);
}

#[test]
fn a_cube_around_the_camera_is_cut_at_the_near_plane() {
    // the cube reaches from z = -1 to z = 3
    let instance = Instance::new_cube(Transform::new(
        v(0, 0, 1),
        softrender::matrix::Quat::identity(),
        Fixed::from_int(2),
    ));
    let clipped = instance.clip(&vec![near_plane()]).unwrap();
    assert!(matches!(clipped.get_model(), Model::Mesh(_)));
    for vertex in clipped.get_model().get_vertices() {
        assert!(Fixed::one().le(vertex.z));
    }
    // the far side is whole, the near side is gone, and each other side
    // keeps a strip of three triangles
    assert_eq!(clipped.get_model().get_triangles().len(), 2 + 4 * 3);
    assert_eq!(clipped.get_model().get_vertices().len(), 3 * 14);
    // what is left stands in the world as it is
    assert_eq!(clipped.get_transform().get_translation(), Vec3::zero());
    assert_eq!(clipped.get_transform().get_scale(), Fixed::one());
}

#[test]
fn a_cut_instance_keeps_the_part_in_front() {
    // a triangle across the plane: one corner in front
    let instance = Instance::new_mesh(
        vec![v(0, 0, 2), v(4, 0, -2), v(0, 4, -2)],
        vec![Triangle::new(0, 1, 2, Material::from(Color::blue()))],
        Transform::from_translation(v(0, 0, 1)),
    );
    let cut = instance.clip(&vec![near_plane()]).unwrap();
    assert_eq!(
        cut.get_model().get_vertices(),
        vec![v(0, 0, 3), v(2, 0, 1), v(0, 2, 1)]
    );
    let triangles = cut.get_model().get_triangles();
    assert_eq!(triangles.len(), 1);
    assert_eq!(triangles[0].get_vertices(), &[0, 1, 2]);
    assert_eq!(triangles[0].get_material().get_color(), Color::blue());
    assert_eq!(cut.get_transform().get_translation(), Vec3::zero());
}

#[test]
fn an_instance_that_names_a_missing_vertex_is_not_cut() {
    // the plane crosses it, but it cannot be cut: drawing it reports the fault
    let instance = Instance::new_mesh(
        vec![v(0, 0, 2), v(2, 0, 2), v(0, 2, 0)],
        vec![
            Triangle::new(0, 1, 5, Material::from(Color::green())),
            Triangle::new(0, 1, 2, Material::from(Color::blue())),
        ],
        Transform::default(),
    );
    let kept = instance.clip(&vec![near_plane()]).unwrap();
    let triangles = kept.get_model().get_triangles();
    assert_eq!(triangles.len(), 2);
    assert_eq!(triangles[0].get_vertices(), &[0, 1, 5]);
    assert_eq!(kept.get_model().get_vertices().len(), 3);
    let mut canvas = Canvas::from_window(40, 40).unwrap();
    assert_eq!(
        kept.render(&mut canvas),
        Err(softrender::surface::RenderError::MissingVertex)
    );
}

#[test]
fn a_scene_is_clipped_instance_by_instance() {
    let mut scene = Scene::default();
    scene.add_instance(Instance::new_cube(Transform::from_translation(v(0, 0, 7))));
    scene.add_instance(Instance::new_cube(Transform::from_translation(v(0, 0, -7))));
    scene.add_instance(Instance::new_cube(Transform::from_translation(v(3, 0, 1))));
    let clipped = scene.clip(&vec![near_plane()]);
    assert_eq!(clipped.get_instances().len(), 2);
    // the first is in front and kept as it is
    let first = &clipped.get_instances()[0];
    assert!(matches!(first.get_model(), Model::Cube(_)));
    assert_eq!(first.get_transform().get_translation(), v(0, 0, 7));
    // the third is cut: its far side lies at z = 2
    let third = &clipped.get_instances()[1];
    assert!(matches!(third.get_model(), Model::Mesh(_)));
    assert_eq!(third.get_model().get_vertices()[0], v(4, 1, 2));
    // the scene itself is as it was
    assert_eq!(scene.get_instances().len(), 3);
}

#[test]
fn a_scene_without_planes_is_unchanged_by_clipping() {
    let mut scene = Scene::default();
    scene.add_instance(Instance::new_cube(Transform::from_translation(v(0, 0, 7))));
    scene.add_instance(Instance::new_cube(Transform::from_translation(v(0, 0, -7))));
    scene.add_instance(Instance::new_mesh(Vec::new(), Vec::new(), Transform::default()));
    let same = scene.clip(&Vec::new());
    assert_eq!(same.get_instances().len(), 3);
    for (a, b) in same.get_instances().iter().zip(scene.get_instances()) {
        assert_eq!(a.get_model().get_vertices(), b.get_model().get_vertices());
        assert_eq!(a.get_model().get_triangles().len(), b.get_model().get_triangles().len());
        assert_eq!(
            a.get_transform().get_translation(),
            b.get_transform().get_translation()
        );
        assert_eq!(
            matches!(a.get_model(), Model::Cube(_)),
            matches!(b.get_model(), Model::Cube(_))
        );
    }
}
