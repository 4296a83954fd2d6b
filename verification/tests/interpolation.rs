use softrender::fixed::Fixed;
use softrender::math::{interpolate, Plane};
use softrender::vector::Vec3;

fn raws(values: Vec<Fixed>) -> Vec<i64> {
    values.into_iter().map(|v| v.raw()).collect()
}

#[test]
fn interpolate_between_equal_steps_is_the_first_value() {
    let values = interpolate(5, Fixed::from_int(10), 5, Fixed::from_int(20));
    assert_eq!(values, vec![Fixed::from_int(10)]);
}

#[test]
fn interpolate_has_one_value_for_each_step() {
    let values = interpolate(0, Fixed::zero(), 4, Fixed::from_int(2));
    assert_eq!(raws(values), vec![0, 32768, 65536, 98304, 131072]);
}

#[test]
fn interpolate_starts_and_ends_at_the_given_values() {
    let values = interpolate(-3, Fixed::from_ratio(7, 3), 9, Fixed::from_ratio(-11, 7));
    assert_eq!(values.len(), 13);
    assert_eq!(values[0], Fixed::from_ratio(7, 3));
    assert_eq!(values[12], Fixed::from_ratio(-11, 7));
}

#[test]
fn interpolate_rounds_toward_the_first_value() {
    assert_eq!(
        raws(interpolate(0, Fixed::one(), 3, Fixed::zero())),
        vec![65536, 43691, 21846, 0]
    );
    assert_eq!(
        raws(interpolate(-2, Fixed::from_int(-1), 1, Fixed::from_int(1))),
        vec![-65536, -21846, 21845, 65536]
    );
}

#[test]
fn interpolate_over_a_backward_range_is_empty() {
    assert!(interpolate(3, Fixed::zero(), 2, Fixed::one()).is_empty());
}

#[test]
fn interpolate_between_the_bounds_does_not_overflow() {
    let values = interpolate(i32::MIN, Fixed::min_value(), i32::MIN + 4, Fixed::max_value());
    assert_eq!(
        raws(values),
        vec![-(1 << 30), -(1 << 29), 0, 1 << 29, 1 << 30]
    );
}

#[test]
fn signed_distance_is_positive_in_front_of_the_plane() {
    // the plane z = 1, which looks along z
    let plane = Plane::new(Vec3::from_ints(0, 0, 1), Fixed::from_int(-1));
    assert_eq!(plane.signed_distance(&Vec3::from_ints(5, 7, 3)), Fixed::from_int(2));
    assert_eq!(plane.signed_distance(&Vec3::from_ints(5, 7, 1)), Fixed::zero());
    assert_eq!(plane.signed_distance(&Vec3::from_ints(5, 7, -2)), Fixed::from_int(-3));
}

#[test]
fn signed_distance_is_the_dot_product_plus_the_offset() {
    let plane = Plane::new(Vec3::from_ints(1, 2, 3), Fixed::from_ratio(1, 2));
    let d = plane.signed_distance(&Vec3::from_ints(4, -5, 6));
    assert_eq!(d.raw(), 12 * 65536 + 32768);
    assert_eq!(plane.get_normal(), Vec3::from_ints(1, 2, 3));
    assert_eq!(plane.get_distance(), Fixed::from_ratio(1, 2));
}

#[test]
fn signed_distance_saturates() {
    let plane = Plane::new(Vec3::from_ints(100, 100, 100), Fixed::zero());
    let d = plane.signed_distance(&Vec3::from_ints(100, 100, 100));
    assert_eq!(d, Fixed::max_value());
}
