use softrender::camera::Camera;
use softrender::fixed::Fixed;
use softrender::matrix::{Mat4, Quat};
use softrender::models::Transform;
use softrender::vector::Vec3;

fn raw(v: Vec3) -> (i64, i64, i64) {
    (v.x.raw(), v.y.raw(), v.z.raw())
}

fn quat(x: i64, y: i64, z: i64, w: i64) -> Quat {
    Quat::new(
        Fixed::from_raw(x),
        Fixed::from_raw(y),
        Fixed::from_raw(z),
        Fixed::from_raw(w),
    )
}

/// A quarter turn about the y axis: the sine and cosine of 45 degrees.
fn quarter_turn_about_y() -> Quat {
    quat(0, 46341, 0, 46341)
}

/// A half turn about the z axis.
fn half_turn_about_z() -> Quat {
    quat(0, 0, 65536, 0)
}

#[test]
fn the_identity_turns_nothing() {
    let q = Quat::identity();
    assert_eq!(q, Quat::default());
    let (x, y, z) = q.axes();
    assert_eq!(x, Vec3::from_ints(1, 0, 0));
    assert_eq!(y, Vec3::from_ints(0, 1, 0));
    assert_eq!(z, Vec3::from_ints(0, 0, 1));
    let v = Vec3::new(Fixed::from_raw(123), Fixed::from_raw(-456), Fixed::from_raw(789));
    assert_eq!(q.rotate(v), v);
}

#[test]
fn a_quarter_turn_about_y_takes_x_to_minus_z() {
    let q = quarter_turn_about_y();
    assert_eq!(q.rotate(Vec3::from_ints(1, 0, 0)), Vec3::from_ints(0, 0, -1));
    assert_eq!(q.rotate(Vec3::from_ints(0, 0, 1)), Vec3::from_ints(1, 0, 0));
    assert_eq!(q.rotate(Vec3::from_ints(0, 1, 0)), Vec3::from_ints(0, 1, 0));
}

#[test]
fn a_half_turn_about_z_negates_x_and_y() {
    let q = half_turn_about_z();
    assert_eq!(q.rotate(Vec3::from_ints(1, 2, 3)), Vec3::from_ints(-1, -2, 3));
}

#[test]
fn the_axes_of_a_rotation_about_x() {
    // the half angle has the sine 3 / 5 and the cosine 4 / 5
    let q = Quat::new(
        Fixed::from_ratio(3, 5),
        Fixed::zero(),
        Fixed::zero(),
        Fixed::from_ratio(4, 5),
    );
    let (x, y, z) = q.axes();
    assert_eq!(raw(x), (65536, 0, 0));
    assert_eq!(raw(y), (0, 18352, 62912));
    assert_eq!(raw(z), (0, -62912, 18352));
    assert_eq!(raw(q.rotate(Vec3::from_ints(0, 1, 0))), (0, 18352, 62912));
}

#[test]
fn a_transform_scales_turns_and_moves() {
    let t = Transform::new(Vec3::from_ints(1, 2, 3), half_turn_about_z(), Fixed::from_int(2));
    assert_eq!(t.get_translation(), Vec3::from_ints(1, 2, 3));
    assert_eq!(t.get_rotation(), half_turn_about_z());
    assert_eq!(t.get_scale(), Fixed::from_int(2));
    let m = t.get_matrix();
    assert_eq!(m.x_axis, Vec3::from_ints(-2, 0, 0));
    assert_eq!(m.y_axis, Vec3::from_ints(0, -2, 0));
    assert_eq!(m.z_axis, Vec3::from_ints(0, 0, 2));
    assert_eq!(m.w_axis, Vec3::from_ints(1, 2, 3));
    assert_eq!(m.transform_point(Vec3::from_ints(1, 1, 1)), Vec3::from_ints(-1, 0, 5));
    assert_eq!(m.transform_vector(Vec3::from_ints(1, 1, 1)), Vec3::from_ints(-2, -2, 2));
}

#[test]
fn the_default_transform_has_the_identity_matrix() {
    let m = Transform::default().get_matrix();
    assert_eq!(
        m,
        Mat4 {
            x_axis: Vec3::from_ints(1, 0, 0),
            y_axis: Vec3::from_ints(0, 1, 0),
            z_axis: Vec3::from_ints(0, 0, 1),
            w_axis: Vec3::zero(),
        }
    );
    let v = Vec3::new(Fixed::from_raw(123), Fixed::from_raw(-456), Fixed::from_raw(789));
    assert_eq!(m.transform_point(v), v);
    let t = Transform::from_translation(Vec3::from_ints(4, 5, 6));
    assert_eq!(t.get_matrix().transform_point(v), v.add(Vec3::from_ints(4, 5, 6)));
    assert_eq!(t.get_scale(), Fixed::one());
    assert_eq!(t.get_rotation(), Quat::identity());
}

#[test]
fn a_matrix_from_scale_rotation_and_translation() {
    let m = Mat4::from_scale_rotation_translation(
        Vec3::from_ints(1, 2, 3),
        Quat::identity(),
        Vec3::from_ints(-1, -1, -1),
    );
    assert_eq!(m.transform_point(Vec3::from_ints(1, 1, 1)), Vec3::from_ints(0, 1, 2));
}

#[test]
fn the_camera_matrix_is_the_inverse_of_the_placement_of_the_camera() {
    let camera = Camera::new(Vec3::from_ints(5, 5, -15), half_turn_about_z());
    assert_eq!(camera.get_translation(), Vec3::from_ints(5, 5, -15));
    assert_eq!(camera.get_rotation(), half_turn_about_z());
    let m = camera.get_matrix();
    // half a turn back, and the position, turned back and negated
    assert_eq!(m.x_axis, Vec3::from_ints(-1, 0, 0));
    assert_eq!(m.y_axis, Vec3::from_ints(0, -1, 0));
    assert_eq!(m.z_axis, Vec3::from_ints(0, 0, 1));
    assert_eq!(m.w_axis, Vec3::from_ints(5, 5, 15));
    assert_eq!(
        m,
        Mat4::from_rotation_translation(
            half_turn_about_z().conjugate(),
            Vec3::from_ints(5, 5, 15)
        )
    );
}

#[test]
fn the_camera_sees_its_own_position_at_the_origin() {
    for rotation in [Quat::identity(), half_turn_about_z(), quarter_turn_about_y()] {
        for position in [
            Vec3::from_ints(1, 0, 0),
            Vec3::from_ints(5, 5, -15),
            Vec3::from_ints(-3, 1, -2),
        ] {
            let camera = Camera::new(position, rotation);
            assert_eq!(camera.get_matrix().transform_point(position), Vec3::zero());
        }
    }
}

#[test]
fn the_camera_matrix_undoes_the_placement_of_the_camera() {
    // a point of camera space is placed in the world by the rotation and the
    // position of the camera, and the matrix brings it back
    let rotation = quarter_turn_about_y();
    let position = Vec3::from_ints(3, 0, 0);
    let camera = Camera::new(position, rotation);
    let p = Vec3::from_ints(1, 2, 3);
    let in_world = rotation.rotate(p).add(position);
    assert_eq!(in_world, Vec3::from_ints(6, 2, -1));
    assert_eq!(camera.get_matrix().transform_point(in_world), p);
    // what lies ahead of the turned camera is seen straight ahead
    let ahead = rotation.rotate(Vec3::from_ints(0, 0, 4)).add(position);
    assert_eq!(camera.get_matrix().transform_point(ahead), Vec3::from_ints(0, 0, 4));
}

#[test]
fn the_matrix_of_an_unturned_camera_moves_by_the_negated_position() {
    let camera = Camera::from_translation(Vec3::from_ints(1, 2, 3));
    let m = camera.get_matrix();
    assert_eq!(m.w_axis, Vec3::from_ints(-1, -2, -3));
    assert_eq!(m.transform_point(Vec3::from_ints(5, 5, 5)), Vec3::from_ints(4, 3, 2));
}

#[test]
fn the_conjugate_turns_the_other_way() {
    let q = quarter_turn_about_y();
    let v = Vec3::from_ints(1, 2, 3);
    assert_eq!(q.conjugate().rotate(q.rotate(v)), v);
    assert_eq!(q.conjugate().conjugate(), q);
    assert_eq!(Quat::identity().conjugate(), Quat::identity());
}

#[test]
fn the_default_camera_stands_at_the_origin() {
    let camera = Camera::default();
    assert_eq!(camera.get_translation(), Vec3::zero());
    assert_eq!(camera.get_rotation(), Quat::identity());
    let moved = Camera::from_translation(Vec3::from_ints(1, 2, 3));
    assert_eq!(moved.get_translation(), Vec3::from_ints(1, 2, 3));
    assert_eq!(moved.get_rotation(), Quat::identity());
}

#[test]
fn a_product_of_matrices_applies_the_right_one_first() {
    let placement =
        Transform::new(Vec3::from_ints(1, 2, 3), half_turn_about_z(), Fixed::from_int(2))
            .get_matrix();
    let camera = Camera::new(Vec3::from_ints(5, 5, -15), half_turn_about_z()).get_matrix();
    let both = camera.mul_mat4(&placement);
    assert_eq!(both.x_axis, Vec3::from_ints(2, 0, 0));
    assert_eq!(both.y_axis, Vec3::from_ints(0, 2, 0));
    assert_eq!(both.z_axis, Vec3::from_ints(0, 0, 2));
    assert_eq!(both.w_axis, Vec3::from_ints(4, 3, 18));
    let v = Vec3::from_ints(1, 1, 1);
    assert_eq!(
        both.transform_point(v),
        camera.transform_point(placement.transform_point(v))
    );
    assert_eq!(both.transform_point(v), Vec3::from_ints(6, 5, 20));
}
