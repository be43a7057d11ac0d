use skipping_stone::basic_structs::Vector2D;
use skipping_stone::fixed::Fixed;
use skipping_stone::stone_editor::StoneBlueprint;
use skipping_stone::stone_phy::{
    calculate_inertia_y, calculate_inertia_z, find_aabb, generate_collision_mesh,
    is_point_in_polygon, StoneProperties, COLLISION_MESH_POINTS, DENSITY_SLATE,
};

fn fx(x: f64) -> Fixed {
    Fixed::from_raw((x * 1e9).round() as i64)
}

fn v(x: f64, y: f64) -> Vector2D {
    Vector2D::new(fx(x), fx(y))
}

fn poly(points: &[(f64, f64)]) -> Vec<Vector2D> {
    points.iter().map(|p| v(p.0, p.1)).collect()
}

fn blueprint(points: Vec<Vector2D>, thickness: f64) -> StoneBlueprint {
    StoneBlueprint { points, thickness: fx(thickness), name: String::from("stone") }
}

fn octagon() -> Vec<Vector2D> {
    poly(&[
        (0.050, 0.0),
        (0.035, 0.035),
        (0.0, 0.050),
        (-0.035, 0.035),
        (-0.050, 0.0),
        (-0.035, -0.035),
        (0.0, -0.050),
        (0.035, -0.035),
    ])
}

#[test]
fn unit_square_of_unit_thickness_weighs_its_density() {
    let square = poly(&[(2.0, 3.0), (3.0, 3.0), (3.0, 4.0), (2.0, 4.0)]);
    let stone = StoneProperties::new(&blueprint(square, 1.0));
    assert_eq!(stone.mass.raw, DENSITY_SLATE);
    assert_eq!(stone.mass, fx(2700.0));
}

#[test]
fn unit_square_is_sampled_on_a_grid_of_two_hundred_by_two_hundred() {
    let square = poly(&[(2.0, 3.0), (3.0, 3.0), (3.0, 4.0), (2.0, 4.0)]);
    let stone = StoneProperties::new(&blueprint(square, 1.0));
    assert_eq!(stone.n, 40000);
    assert_eq!(stone.collision_mesh_com.len(), 40000);
    assert_eq!(stone.collision_mesh_com[0], v(-0.5, -0.5));
    assert_eq!(stone.collision_mesh_com[1], v(-0.495, -0.5));
    assert_eq!(stone.collision_mesh_com[200], v(-0.5, -0.495));
    assert_eq!(stone.collision_mesh_com[39999], v(0.495, 0.495));
}

#[test]
fn unit_square_outline_is_moved_to_its_center() {
    let square = poly(&[(2.0, 3.0), (3.0, 3.0), (3.0, 4.0), (2.0, 4.0)]);
    let stone = StoneProperties::new(&blueprint(square, 1.0));
    assert_eq!(stone.outline_com, poly(&[(-0.5, -0.5), (0.5, -0.5), (0.5, 0.5), (-0.5, 0.5)]));
}

#[test]
fn unit_square_moments_of_inertia() {
    let square = poly(&[(2.0, 3.0), (3.0, 3.0), (3.0, 4.0), (2.0, 4.0)]);
    let stone = StoneProperties::new(&blueprint(square, 1.0));
    // A plate of mass m and side 1 has m / 12 about an axis in its plane and
    // m / 6 about the axis across it; the grid misses that by its spacing.
    assert_eq!(stone.inertia_tensor_x.raw, 225_011_250_000);
    assert_eq!(stone.inertia_tensor_y.raw, 450_022_500_000);
    assert_eq!(stone.d_max, fx(0.5));
}

#[test]
fn mass_is_area_times_thickness_times_density() {
    let stone = StoneProperties::new(&blueprint(octagon(), 0.01));
    // 0.007 m^2 * 0.01 m * 2700 kg/m^3
    assert_eq!(stone.mass, fx(0.189));
}

#[test]
fn octagon_properties() {
    let stone = StoneProperties::new(&blueprint(octagon(), 0.01));
    assert_eq!(stone.n, 39984);
    assert_eq!(stone.collision_mesh_com.len(), stone.n);
    assert_eq!(stone.inertia_tensor_x.raw, 105_481);
    assert_eq!(stone.inertia_tensor_y.raw, 210_963);
    assert_eq!(stone.d_max.raw, 2_458_746);
    assert_eq!(stone.outline_com, octagon());
}

#[test]
fn sample_count_is_near_the_target() {
    let stone = StoneProperties::new(&blueprint(octagon(), 0.01));
    let target = COLLISION_MESH_POINTS as i64;
    assert!((stone.n as i64 - target).abs() * 100 < target);
}

#[test]
fn stone_without_area_is_empty() {
    let line = poly(&[(0.0, 0.0), (1.0, 1.0), (2.0, 2.0)]);
    let stone = StoneProperties::new(&blueprint(line, 0.01));
    assert_eq!(stone.n, 0);
    assert_eq!(stone.mass.raw, 0);
    assert_eq!(stone.inertia_tensor_x.raw, 0);
    assert_eq!(stone.inertia_tensor_y.raw, 0);
    assert_eq!(stone.d_max.raw, 0);
    assert!(stone.outline_com.is_empty());
    assert!(stone.collision_mesh_com.is_empty());
}

#[test]
fn stone_of_two_points_is_empty() {
    let stone = StoneProperties::new(&blueprint(poly(&[(0.0, 0.0), (1.0, 1.0)]), 0.01));
    assert_eq!(stone.n, 0);
    assert_eq!(stone.mass.raw, 0);
    assert!(stone.outline_com.is_empty());
}

#[test]
fn default_stone_is_empty() {
    let stone = StoneProperties::default();
    assert_eq!(stone.n, 0);
    assert_eq!(stone.mass.raw, 0);
    assert_eq!(stone.inertia_tensor_x.raw, 0);
    assert_eq!(stone.inertia_tensor_y.raw, 0);
    assert_eq!(stone.d_max.raw, 0);
    assert!(stone.outline_com.is_empty());
    assert!(stone.collision_mesh_com.is_empty());
}

#[test]
fn point_in_a_concave_polygon() {
    let l = poly(&[(0.0, 0.0), (2.0, 0.0), (2.0, 1.0), (1.0, 1.0), (1.0, 2.0), (0.0, 2.0)]);
    assert!(is_point_in_polygon(v(0.5, 0.5), &l));
    assert!(is_point_in_polygon(v(1.5, 0.5), &l));
    assert!(is_point_in_polygon(v(0.5, 1.5), &l));
    assert!(!is_point_in_polygon(v(1.5, 1.5), &l));
    assert!(!is_point_in_polygon(v(-0.5, 0.5), &l));
    assert!(!is_point_in_polygon(v(2.5, 0.5), &l));
    assert!(!is_point_in_polygon(v(0.5, 2.5), &l));
    assert!(!is_point_in_polygon(v(0.5, -0.5), &l));
}

#[test]
fn point_in_an_empty_polygon() {
    assert!(!is_point_in_polygon(v(0.0, 0.0), &poly(&[])));
}

#[test]
fn lower_and_left_sides_belong_to_a_square() {
    let square = poly(&[(0.0, 0.0), (1.0, 0.0), (1.0, 1.0), (0.0, 1.0)]);
    assert!(is_point_in_polygon(v(0.0, 0.0), &square));
    assert!(is_point_in_polygon(v(0.0, 0.5), &square));
    assert!(is_point_in_polygon(v(0.5, 0.0), &square));
    assert!(!is_point_in_polygon(v(1.0, 0.5), &square));
    assert!(!is_point_in_polygon(v(0.5, 1.0), &square));
}

#[test]
fn bounding_box() {
    let shape = poly(&[(0.1, 0.2), (3.7, -1.1), (2.2, 4.9), (-1.3, 2.0)]);
    assert_eq!(find_aabb(&shape), (v(-1.3, -1.1), v(3.7, 4.9)));
}

#[test]
fn bounding_box_of_nothing() {
    let (lo, hi) = find_aabb(&poly(&[]));
    assert_eq!(lo, Vector2D::new(Fixed::from_raw(i64::MAX), Fixed::from_raw(i64::MAX)));
    assert_eq!(hi, Vector2D::new(Fixed::from_raw(i64::MIN), Fixed::from_raw(i64::MIN)));
}

#[test]
fn mesh_of_a_small_grid() {
    // Four points aimed at on a unit square: spacing one half.
    let square = poly(&[(0.0, 0.0), (1.0, 0.0), (1.0, 1.0), (0.0, 1.0)]);
    let mesh = generate_collision_mesh(&square, 4, fx(1.0));
    assert_eq!(mesh, poly(&[(0.0, 0.0), (0.5, 0.0), (0.0, 0.5), (0.5, 0.5)]));
}

#[test]
fn mesh_of_a_triangle() {
    let triangle = poly(&[(0.0, 0.0), (1.0, 0.0), (0.0, 1.0)]);
    let mesh = generate_collision_mesh(&triangle, 8, fx(0.5));
    // Spacing one quarter; the points on the slanted side are outside.
    assert_eq!(
        mesh,
        poly(&[
            (0.0, 0.0),
            (0.25, 0.0),
            (0.5, 0.0),
            (0.75, 0.0),
            (0.0, 0.25),
            (0.25, 0.25),
            (0.5, 0.25),
            (0.0, 0.5),
            (0.25, 0.5),
            (0.0, 0.75),
        ])
    );
}

#[test]
fn mesh_of_degenerate_input_is_empty() {
    let square = poly(&[(0.0, 0.0), (1.0, 0.0), (1.0, 1.0), (0.0, 1.0)]);
    assert!(generate_collision_mesh(&poly(&[]), 4, fx(1.0)).is_empty());
    assert!(generate_collision_mesh(&square, 4, fx(0.0)).is_empty());
    assert!(generate_collision_mesh(&square, 0, fx(1.0)).is_empty());
    let flat = poly(&[(0.0, 0.0), (1.0, 0.0), (2.0, 0.0)]);
    assert!(generate_collision_mesh(&flat, 4, fx(1.0)).is_empty());
    let upright = poly(&[(0.0, 0.0), (0.0, 1.0), (0.0, 2.0)]);
    assert!(generate_collision_mesh(&upright, 4, fx(1.0)).is_empty());
}

#[test]
fn inertia_of_point_masses() {
    let points = poly(&[(1.0, 0.0), (-1.0, 0.0), (0.0, 2.0), (0.0, -2.0)]);
    // Pitch axis: (1 + 1 + 0 + 0) * 8 / 4; spin axis: (1 + 1 + 4 + 4) * 8 / 4.
    assert_eq!(calculate_inertia_z(&points, fx(8.0)), fx(4.0));
    assert_eq!(calculate_inertia_y(&points, fx(8.0)), fx(20.0));
}

#[test]
fn inertia_of_no_points_is_zero() {
    assert_eq!(calculate_inertia_z(&poly(&[]), fx(8.0)).raw, 0);
    assert_eq!(calculate_inertia_y(&poly(&[]), fx(8.0)).raw, 0);
}

#[test]
fn unit_square_weighs_its_density_wherever_it_lies() {
    let corners = [
        (0.0, 0.0),
        (2.0, 3.0),
        (-7.5, 0.25),
        (0.123456789, -0.987654321),
        (-1234.567890123, 4321.000000001),
        (9999.999999999, -9999.999999999),
    ];
    for (a, b) in corners {
        let (a, b) = (fx(a), fx(b));
        let one = Fixed::from_int(1);
        let square = vec![
            Vector2D::new(a, b),
            Vector2D::new(a.add(one), b),
            Vector2D::new(a.add(one), b.add(one)),
            Vector2D::new(a, b.add(one)),
        ];
        let stone = StoneProperties::new(&blueprint(square, 1.0));
        assert!(stone.n > 0);
        assert!(stone.n <= 40_804, "{} samples", stone.n);
        let excess = (stone.mass.raw - DENSITY_SLATE).abs();
        assert!(excess <= 8100, "mass off by {}", excess);
        if a.raw.abs() < 60_000_000_000 && b.raw.abs() < 60_000_000_000 {
            assert_eq!(stone.mass.raw, DENSITY_SLATE);
        }
        let tolerance = 2700.0 / (stone.n as f64).sqrt();
        assert!(excess as f64 / 1e9 <= tolerance);
    }
}

#[test]
fn outline_is_the_blueprint_seen_from_its_centroid() {
    let points = poly(&[(2.0, 3.0), (5.0, 3.0), (2.0, 6.0)]);
    let stone = StoneProperties::new(&blueprint(points.clone(), 0.01));
    assert_eq!(stone.outline_com.len(), 3);
    for (shifted, point) in stone.outline_com.iter().zip(points.iter()) {
        assert_eq!(*shifted, point.sub(v(3.0, 4.0)));
    }
}

#[test]
fn centroid_of_the_outline_lies_at_the_origin() {
    let corners: [(f64, f64); 4] = [(3.25, -7.5), (-6.1, 2.3), (0.0, 0.0), (0.123456789, 9.87654321)];
    for (a, b) in corners {
        let points = poly(&[(a, b), (a + 1.0, b), (a + 1.0, b + 1.0), (a, b + 1.0)]);
        let stone = StoneProperties::new(&blueprint(points, 1.0));
        assert!(stone.n > 0);
        let center = skipping_stone::geometry::calculate_centroid(&stone.outline_com);
        assert_eq!(center, v(0.0, 0.0));
        assert_eq!(stone.outline_com[0], v(-0.5, -0.5));
    }
}

#[test]
fn centroid_of_the_outline_of_an_uneven_stone_lies_at_the_origin() {
    let shapes = [
        octagon(),
        poly(&[(0.0, 0.0), (0.1, 0.013), (0.17, 0.05), (0.09, 0.11), (0.03, 0.07), (-0.02, 0.04)]),
        poly(&[(2.0, 3.0), (5.0, 3.0), (2.0, 6.0)]),
        poly(&[(-9.9, 9.9), (-9.8999, 9.9), (-9.8999, 9.90007), (-9.89995, 9.90009)]),
    ];
    for points in shapes {
        let stone = StoneProperties::new(&blueprint(points, 0.01));
        assert!(stone.n > 0);
        let center = skipping_stone::geometry::calculate_centroid(&stone.outline_com);
        assert_eq!(center, v(0.0, 0.0));
    }
}

#[test]
fn mass_of_a_thin_small_plate_is_rounded_once() {
    // 0.01 m * 0.001 m * 0.00001 m * 2700 kg/m^3 = 2.7e-7 kg
    let plate = poly(&[(0.0, 0.0), (0.01, 0.0), (0.01, 0.001), (0.0, 0.001)]);
    let stone = StoneProperties::new(&blueprint(plate, 0.00001));
    assert!(stone.n > 0);
    assert_eq!(stone.mass.raw, 270);
    // 0.0123 m * 0.0017 m * 0.000077 m * 2700 kg/m^3 = 4.347189e-6 kg
    let plate = poly(&[(0.0, 0.0), (0.0123, 0.0), (0.0123, 0.0017), (0.0, 0.0017)]);
    let stone = StoneProperties::new(&blueprint(plate, 0.000077));
    assert_eq!(stone.mass.raw, 4_347);
}

#[test]
fn stone_over_a_unit_square_is_the_same_wherever_the_square_lies() {
    let centered = poly(&[(-0.5, -0.5), (0.5, -0.5), (0.5, 0.5), (-0.5, 0.5)]);
    for (a, b) in [(0.0, 0.0), (-0.5, -0.5), (12.345678901, -66.999999999), (-67.0, 67.0 - 1.0)] {
        let points = poly(&[(a, b), (a + 1.0, b), (a + 1.0, b + 1.0), (a, b + 1.0)]);
        let stone = StoneProperties::new(&blueprint(points, 1.0));
        assert_eq!(stone.n, 40000);
        assert_eq!(stone.mass.raw, DENSITY_SLATE);
        assert_eq!(stone.outline_com, centered);
    }
}
