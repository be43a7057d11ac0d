use skipping_stone::basic_structs::Vector2D;
use skipping_stone::bezier::{de_iterative, lerp, BezierInfo, CALCULATE_POINTS};
use skipping_stone::fixed::Fixed;

fn fx(x: f64) -> Fixed {
    Fixed::from_raw((x * 1e9).round() as i64)
}

fn v(x: f64, y: f64) -> Vector2D {
    Vector2D::new(fx(x), fx(y))
}

#[test]
fn interpolation_between_two_points() {
    assert_eq!(lerp(v(1.0, 1.0), v(3.0, 5.0), fx(0.25)), v(1.5, 2.0));
    assert_eq!(lerp(v(1.0, 1.0), v(3.0, 5.0), fx(0.0)), v(1.0, 1.0));
    assert_eq!(lerp(v(1.0, 1.0), v(3.0, 5.0), fx(1.0)), v(3.0, 5.0));
}

#[test]
fn interpolation_beyond_the_ends() {
    assert_eq!(lerp(v(1.0, 1.0), v(3.0, 5.0), fx(2.0)), v(5.0, 9.0));
    assert_eq!(lerp(v(1.0, 1.0), v(3.0, 5.0), fx(-1.0)), v(-1.0, -3.0));
}

#[test]
fn curve_without_control_points_has_no_points() {
    assert_eq!(de_iterative(&[], fx(0.5)), None);
}

#[test]
fn curve_of_one_control_point_is_that_point() {
    assert_eq!(de_iterative(&[v(3.0, 4.0)], fx(0.7)), Some(v(3.0, 4.0)));
}

#[test]
fn curve_of_two_control_points_is_the_segment() {
    assert_eq!(de_iterative(&[v(0.0, 0.0), v(4.0, 2.0)], fx(0.25)), Some(v(1.0, 0.5)));
}

#[test]
fn point_of_a_quadratic_curve() {
    let control = [v(0.0, 0.0), v(1.0, 2.0), v(2.0, 0.0)];
    assert_eq!(de_iterative(&control, fx(0.5)), Some(v(1.0, 1.0)));
    assert_eq!(de_iterative(&control, fx(0.25)), Some(v(0.5, 0.75)));
    assert_eq!(de_iterative(&control, fx(0.0)), Some(v(0.0, 0.0)));
    assert_eq!(de_iterative(&control, fx(1.0)), Some(v(2.0, 0.0)));
}

#[test]
fn point_of_a_cubic_curve() {
    let control = [v(0.0, 0.0), v(1.0, 3.0), v(3.0, 3.0), v(4.0, 0.0)];
    // x = 3 t (1-t)^2 + 9 t^2 (1-t) + 4 t^3, y = 9 t (1-t) at t = 0.3
    assert_eq!(de_iterative(&control, fx(0.3)), Some(v(1.116, 1.89)));
}

#[test]
fn curve_info_holds_the_polyline() {
    let control = vec![v(0.0, 0.0), v(1.0, 2.0), v(2.0, 0.0)];
    let info = BezierInfo::new(String::from("arc"), control.clone());
    assert_eq!(info.name, "arc");
    assert_eq!(info.control_points, control);
    assert_eq!(info.order, 2);
    assert_eq!(info.polyline_points.len(), CALCULATE_POINTS + 1);
    assert_eq!(info.polyline_points[0], v(0.0, 0.0));
    assert_eq!(info.polyline_points[250], v(0.5, 0.75));
    assert_eq!(info.polyline_points[333], v(0.666, 0.888444));
    assert_eq!(info.polyline_points[500], v(1.0, 1.0));
    assert_eq!(info.polyline_points[1000], v(2.0, 0.0));
    assert_eq!(info.get_polyline_points(), &info.polyline_points);
}

#[test]
fn curve_info_without_control_points() {
    let info = BezierInfo::new(String::from("nothing"), Vec::new());
    assert_eq!(info.order, 0);
    assert!(info.polyline_points.is_empty());
}

#[test]
fn curve_info_of_one_control_point() {
    let info = BezierInfo::new(String::from("dot"), vec![v(1.0, 1.0)]);
    assert_eq!(info.order, 0);
    assert_eq!(info.polyline_points.len(), 1001);
    assert!(info.polyline_points.iter().all(|p| *p == v(1.0, 1.0)));
}
