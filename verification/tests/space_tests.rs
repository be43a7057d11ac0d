use skipping_stone::basic_structs::{Quaternion, Tensor3d, Vector3D};
use skipping_stone::fixed::{Fixed, RAW_MAX};

fn fx(x: f64) -> Fixed {
    Fixed::from_raw((x * 1e9).round() as i64)
}

fn v(x: f64, y: f64, z: f64) -> Vector3D {
    Vector3D::new(fx(x), fx(y), fx(z))
}

fn q(w: f64, x: f64, y: f64, z: f64) -> Quaternion {
    Quaternion { w: fx(w), x: fx(x), y: fx(y), z: fx(z) }
}

#[test]
fn space_vector_keeps_its_components() {
    let p = Vector3D::new(Fixed::from_raw(1), Fixed::from_raw(2), Fixed::from_raw(3));
    assert_eq!((p.x.raw, p.y.raw, p.z.raw), (1, 2, 3));
}

#[test]
fn space_vectors_add_and_subtract() {
    assert_eq!(v(1.0, 2.0, 3.0).add(v(0.5, -2.0, 1.0)), v(1.5, 0.0, 4.0));
    assert_eq!(v(1.0, 2.0, 3.0).sub(v(0.5, -2.0, 1.0)), v(0.5, 4.0, 2.0));
}

#[test]
fn space_vectors_scale() {
    assert_eq!(v(1.0, -2.0, 3.0).mul(fx(2.0)), v(2.0, -4.0, 6.0));
    assert_eq!(v(1.0, -2.0, 3.0).div(fx(2.0)), v(0.5, -1.0, 1.5));
    assert_eq!(v(1.0, -2.0, 3.0).div(fx(0.0)), v(0.0, 0.0, 0.0));
}

#[test]
fn space_vectors_multiply_and_divide_by_components() {
    assert_eq!(v(1.0, -2.0, 3.0).mul_elem(v(2.0, 0.5, -1.0)), v(2.0, -1.0, -3.0));
    assert_eq!(v(1.0, -2.0, 3.0).div_elem(v(2.0, 0.5, -1.0)), v(0.5, -4.0, -3.0));
}

#[test]
fn scalar_product_in_space() {
    assert_eq!(v(1.0, 2.0, 3.0).dot(v(4.0, -5.0, 6.0)), fx(12.0));
}

#[test]
fn vector_product_in_space() {
    assert_eq!(v(1.0, 0.0, 0.0).times(v(0.0, 1.0, 0.0)), v(0.0, 0.0, 1.0));
    assert_eq!(v(0.0, 1.0, 0.0).times(v(0.0, 0.0, 1.0)), v(1.0, 0.0, 0.0));
    assert_eq!(v(0.0, 0.0, 1.0).times(v(1.0, 0.0, 0.0)), v(0.0, 1.0, 0.0));
    assert_eq!(v(1.0, 2.0, 3.0).times(v(4.0, 5.0, 6.0)), v(-3.0, 6.0, -3.0));
}

#[test]
fn length_in_space() {
    assert_eq!(v(2.0, 3.0, 6.0).length_squared(), fx(49.0));
    assert_eq!(v(2.0, 3.0, 6.0).length(), fx(7.0));
    assert_eq!(v(1.0, 1.0, 1.0).length().raw, 1_732_050_807);
    let far = Fixed::from_raw(i64::MIN);
    assert_eq!(Vector3D::new(far, far, far).length().raw, RAW_MAX);
}

#[test]
fn identity_quaternion() {
    assert_eq!(Quaternion::identity(), q(1.0, 0.0, 0.0, 0.0));
}

#[test]
fn quaternion_from_a_vector_is_pure() {
    assert_eq!(Quaternion::from_vector(v(1.0, 2.0, 3.0)), q(0.0, 1.0, 2.0, 3.0));
}

#[test]
fn quaternion_is_normalized_to_magnitude_one() {
    assert_eq!(q(0.0, 3.0, 0.0, 4.0).normalize(), q(0.0, 0.6, 0.0, 0.8));
    assert_eq!(q(2.0, 2.0, 2.0, 2.0).normalize(), q(0.5, 0.5, 0.5, 0.5));
}

#[test]
fn quaternion_without_magnitude_becomes_the_identity() {
    assert_eq!(q(0.0, 0.0, 0.0, 0.0).normalize(), Quaternion::identity());
}

#[test]
fn quaternion_is_normalized_however_small_it_is() {
    let tiny = Quaternion {
        w: Fixed::from_raw(3),
        x: Fixed::from_raw(-2),
        y: Fixed::from_raw(1),
        z: Fixed::from_raw(0),
    };
    let unit = Quaternion {
        w: Fixed::from_raw(801_783_725),
        x: Fixed::from_raw(-534_522_483),
        y: Fixed::from_raw(267_261_241),
        z: Fixed::from_raw(0),
    };
    assert_eq!(tiny.normalize(), unit);
}

#[test]
fn normalized_quaternions_have_magnitude_one_within_five_billionths() {
    let samples: [(i64, i64, i64, i64); 5] = [
        (1, 1, 1, 1),
        (3, -2, 1, 0),
        (123_456_789, -987_654_321, 5, 77_000),
        (i64::MIN, i64::MIN, i64::MIN, i64::MIN),
        (18_000_000_000, 0, -4_000_000_000, 1),
    ];
    for (w, x, y, z) in samples {
        let u = Quaternion {
            w: Fixed::from_raw(w),
            x: Fixed::from_raw(x),
            y: Fixed::from_raw(y),
            z: Fixed::from_raw(z),
        }
        .normalize();
        let squares: i128 = [u.w.raw, u.x.raw, u.y.raw, u.z.raw]
            .iter()
            .map(|c| (*c as i128) * (*c as i128))
            .sum();
        let one: i128 = 1_000_000_000_000_000_000;
        assert!(squares > one - 8_000_000_004 && squares <= one + 2_000_000_000, "{:?}", u);
    }
}

#[test]
fn quaternions_multiply_like_the_units_i_j_k() {
    let i = q(0.0, 1.0, 0.0, 0.0);
    let j = q(0.0, 0.0, 1.0, 0.0);
    let k = q(0.0, 0.0, 0.0, 1.0);
    assert_eq!(i.mul(j), k);
    assert_eq!(j.mul(k), i);
    assert_eq!(k.mul(i), j);
    assert_eq!(j.mul(i), q(0.0, 0.0, 0.0, -1.0));
    assert_eq!(i.mul(i), q(-1.0, 0.0, 0.0, 0.0));
    assert_eq!(Quaternion::identity().mul(q(1.0, 2.0, 3.0, 4.0)), q(1.0, 2.0, 3.0, 4.0));
}

#[test]
fn product_of_two_quaternions() {
    assert_eq!(q(1.0, 2.0, 3.0, 4.0).mul(q(5.0, 6.0, 7.0, 8.0)), q(-60.0, 12.0, 30.0, 24.0));
}

#[test]
fn quaternions_add_and_scale() {
    assert_eq!(q(1.0, 2.0, 3.0, 4.0).add(q(0.5, -2.0, 1.0, 0.0)), q(1.5, 0.0, 4.0, 4.0));
    assert_eq!(q(1.0, 2.0, 3.0, 4.0).scale(fx(-0.5)), q(-0.5, -1.0, -1.5, -2.0));
}

#[test]
fn tensor_keeps_its_rows() {
    let t = Tensor3d::new(v(1.0, 0.0, 0.0), v(0.0, 2.0, 0.0), v(0.0, 0.0, 3.0));
    assert_eq!(t.x, v(1.0, 0.0, 0.0));
    assert_eq!(t.y, v(0.0, 2.0, 0.0));
    assert_eq!(t.z, v(0.0, 0.0, 3.0));
}

#[test]
fn operators_on_space_vectors() {
    assert_eq!(v(1.0, 2.0, 3.0) + v(0.5, -2.0, 1.0), v(1.5, 0.0, 4.0));
    assert_eq!(v(1.0, 2.0, 3.0) - v(0.5, -2.0, 1.0), v(0.5, 4.0, 2.0));
    assert_eq!(v(1.0, -2.0, 3.0) * fx(2.0), v(2.0, -4.0, 6.0));
    assert_eq!(v(1.0, -2.0, 3.0) / fx(2.0), v(0.5, -1.0, 1.5));
    assert_eq!(v(1.0, -2.0, 3.0) * v(2.0, 0.5, -1.0), v(2.0, -1.0, -3.0));
    assert_eq!(v(1.0, -2.0, 3.0) / v(2.0, 0.5, -1.0), v(0.5, -4.0, -3.0));
}

#[test]
fn operators_on_quaternions() {
    assert_eq!(q(1.0, 2.0, 3.0, 4.0) * q(5.0, 6.0, 7.0, 8.0), q(-60.0, 12.0, 30.0, 24.0));
    assert_eq!(q(1.0, 2.0, 3.0, 4.0) * fx(-0.5), q(-0.5, -1.0, -1.5, -2.0));
    assert_eq!(q(1.0, 2.0, 3.0, 4.0) + q(0.5, -2.0, 1.0, 0.0), q(1.5, 0.0, 4.0, 4.0));
}
