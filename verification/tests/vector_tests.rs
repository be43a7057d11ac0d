use skipping_stone::basic_structs::Vector2D;
use skipping_stone::fixed::{Fixed, RAW_MAX};

fn fx(x: f64) -> Fixed {
    Fixed::from_raw((x * 1e9).round() as i64)
}

fn v(x: f64, y: f64) -> Vector2D {
    Vector2D::new(fx(x), fx(y))
}

#[test]
fn new_keeps_the_components() {
    let p = Vector2D::new(Fixed::from_raw(3), Fixed::from_raw(-4));
    assert_eq!(p.x.raw, 3);
    assert_eq!(p.y.raw, -4);
}

#[test]
fn sum_and_difference_are_component_wise() {
    assert_eq!(v(1.0, 2.0).add(v(0.5, -3.0)), v(1.5, -1.0));
    assert_eq!(v(1.0, 2.0).sub(v(0.5, -3.0)), v(0.5, 5.0));
}

#[test]
fn scaling_multiplies_and_divides_both_components() {
    assert_eq!(v(1.0, -2.0).mul(fx(2.5)), v(2.5, -5.0));
    assert_eq!(v(1.0, -2.0).div(fx(4.0)), v(0.25, -0.5));
    assert_eq!(v(1.0, -2.0).div(Fixed::zero()), v(0.0, 0.0));
}

#[test]
fn dot_and_cross_products() {
    assert_eq!(v(1.0, 2.0).dot(v(3.0, 4.0)), fx(11.0));
    assert_eq!(v(1.0, 2.0).cross(v(3.0, 4.0)), fx(-2.0));
    assert_eq!(v(3.0, 4.0).cross(v(1.0, 2.0)), fx(2.0));
    assert_eq!(v(1.0, 0.0).cross(v(0.0, 1.0)), fx(1.0));
}

#[test]
fn length_of_a_three_four_five_triangle() {
    assert_eq!(v(3.0, 4.0).length_squared(), fx(25.0));
    assert_eq!(v(3.0, 4.0).length(), fx(5.0));
    assert_eq!(v(-3.0, -4.0).length(), fx(5.0));
}

#[test]
fn length_is_exact_for_small_vectors() {
    // The squared length of such a vector rounds to zero; its length does not.
    let tiny = Vector2D::new(Fixed::from_raw(3), Fixed::from_raw(4));
    assert_eq!(tiny.length_squared().raw, 0);
    assert_eq!(tiny.length().raw, 5);
}

#[test]
fn length_of_the_largest_vector_saturates() {
    let huge = Vector2D::new(Fixed::from_raw(i64::MIN), Fixed::from_raw(i64::MIN));
    assert_eq!(huge.length().raw, RAW_MAX);
    assert_eq!(huge.length_squared().raw, RAW_MAX);
}

#[test]
fn length_rounds_down() {
    // sqrt(2) = 1.41421356237...
    assert_eq!(v(1.0, 1.0).length().raw, 1_414_213_562);
}

#[test]
fn normalize_gives_a_unit_vector() {
    assert_eq!(v(3.0, 4.0).normalize(), v(0.6, 0.8));
    assert_eq!(v(0.0, -2.0).normalize(), v(0.0, -1.0));
}

#[test]
fn normalize_leaves_the_zero_vector_alone() {
    assert_eq!(v(0.0, 0.0).normalize(), v(0.0, 0.0));
}

#[test]
fn operators_on_plane_vectors() {
    assert_eq!(v(1.0, 2.0) + v(0.5, -3.0), v(1.5, -1.0));
    assert_eq!(v(1.0, 2.0) - v(0.5, -3.0), v(0.5, 5.0));
    assert_eq!(v(1.0, -2.0) * fx(2.5), v(2.5, -5.0));
    assert_eq!((v(1.0, 2.0) + v(1.0, 0.0) - v(0.0, 2.0)) * fx(0.5), v(1.0, 0.0));
}

#[test]
fn plane_vector_times_a_ratio_is_rounded_once() {
    assert_eq!(v(1.0, -2.0).mul_div(fx(1.0), fx(3.0)), Vector2D::new(
        Fixed::from_raw(333_333_333),
        Fixed::from_raw(-666_666_666),
    ));
    assert_eq!(v(3.0, -6.0).mul_div(fx(2.0), fx(3.0)), v(2.0, -4.0));
}

fn raw(x: i64, y: i64) -> Vector2D {
    Vector2D::new(Fixed::from_raw(x), Fixed::from_raw(y))
}

#[test]
fn normalize_gives_a_unit_vector_however_short_the_vector_is() {
    assert_eq!(raw(1, 1).normalize(), raw(707_106_781, 707_106_781));
    assert_eq!(raw(1, 0).normalize(), raw(1_000_000_000, 0));
    assert_eq!(raw(-7, 24).normalize(), raw(-280_000_000, 960_000_000));
    assert_eq!(raw(1400, -100).normalize(), raw(997_458_699, -71_247_049));
}

#[test]
fn normalize_gives_a_unit_vector_however_long_the_vector_is() {
    assert_eq!(v(20.0, -30.0).normalize(), raw(554_700_196, -832_050_294));
    assert_eq!(raw(RAW_MAX, -RAW_MAX).normalize(), raw(707_106_781, -707_106_781));
    assert_eq!(raw(i64::MIN, 0).normalize(), raw(-1_000_000_000, 0));
}

#[test]
fn normalized_vectors_have_length_one_within_three_billionths() {
    let samples: [(i64, i64); 8] = [
        (1, 1),
        (3, -2),
        (1400, -100),
        (-1, 1_000_000),
        (123_456_789, 987_654_321),
        (18_000_000_000, 4_000_000_000),
        (18_500_000_000, -1),
        (-9_000_000_000_000_000_000, 1),
    ];
    for (x, y) in samples {
        let u = raw(x, y).normalize();
        let squares = (u.x.raw as i128) * (u.x.raw as i128) + (u.y.raw as i128) * (u.y.raw as i128);
        let one: i128 = 1_000_000_000_000_000_000;
        assert!(squares > one - 4_000_000_002 && squares <= one + 2_000_000_000, "{:?}", u);
        let cross = (u.x.raw as i128) * (y as i128) - (u.y.raw as i128) * (x as i128);
        assert!(cross.abs() <= (x as i128).abs() + (y as i128).abs());
        assert!((x >= 0) == (u.x.raw >= 0) || u.x.raw == 0);
        assert!((y >= 0) == (u.y.raw >= 0) || u.y.raw == 0);
    }
}
