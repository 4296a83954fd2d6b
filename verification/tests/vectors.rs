use softrender::fixed::Fixed;
use softrender::vector::Vec3;

fn raw(v: Vec3) -> (i64, i64, i64) {
    (v.x.raw(), v.y.raw(), v.z.raw())
}

#[test]
fn sum_difference_and_negation_work_by_component() {
    let a = Vec3::from_ints(1, 2, 3);
    let b = Vec3::from_ints(4, -5, 6);
    assert_eq!(a.add(b), Vec3::from_ints(5, -3, 9));
    assert_eq!(a.sub(b), Vec3::from_ints(-3, 7, -3));
    assert_eq!(a.neg(), Vec3::from_ints(-1, -2, -3));
    assert_eq!(Vec3::zero(), Vec3::from_ints(0, 0, 0));
}

#[test]
fn sum_saturates_by_component() {
    let a = Vec3::from_ints(16000, 0, -16000);
    let sum = a.add(a);
    assert_eq!(sum.x, Fixed::max_value());
    assert_eq!(sum.y, Fixed::zero());
    assert_eq!(sum.z, Fixed::min_value());
}

#[test]
fn scaling_multiplies_each_component() {
    let a = Vec3::from_ints(2, -4, 6);
    assert_eq!(a.scale(Fixed::from_ratio(1, 2)), Vec3::from_ints(1, -2, 3));
    assert_eq!(a.scale(Fixed::zero()), Vec3::zero());
}

#[test]
fn dot_product_of_two_vectors() {
    let a = Vec3::from_ints(1, 2, 3);
    let b = Vec3::from_ints(4, -5, 6);
    assert_eq!(a.dot(b), Fixed::from_int(12));
    assert_eq!(a.dot(b).raw(), 786432);
    assert_eq!(a.dot_raw(b), 12 * 65536 * 65536);
}

#[test]
fn length_of_a_three_four_five_triangle() {
    let a = Vec3::from_ints(3, 4, 0);
    assert_eq!(a.length(), Fixed::from_int(5));
    assert_eq!(a.length_raw(), 327680);
    assert_eq!(Vec3::zero().length(), Fixed::zero());
}

#[test]
fn length_is_rounded_down() {
    let a = Vec3::from_ints(1, 1, 1);
    // the square root of three is 1.7320508..., and 113511 / 65536 is 1.73204...
    assert_eq!(a.length_raw(), 113511);
}

#[test]
fn normalizing_divides_by_the_length() {
    assert_eq!(Vec3::from_ints(0, 0, 5).normalize_or_zero(), Vec3::from_ints(0, 0, 1));
    assert_eq!(raw(Vec3::from_ints(3, 4, 0).normalize_or_zero()), (39321, 52428, 0));
    assert_eq!(raw(Vec3::from_ints(1, 1, 1).normalize_or_zero()), (37837, 37837, 37837));
}

#[test]
fn normalizing_the_zero_vector_gives_the_zero_vector() {
    assert_eq!(Vec3::zero().normalize_or_zero(), Vec3::zero());
}

#[test]
fn new_keeps_the_components() {
    let v = Vec3::new(Fixed::from_int(1), Fixed::from_ratio(1, 2), Fixed::from_raw(-3));
    assert_eq!(raw(v), (65536, 32768, -3));
}
