use skipping_stone::basic_structs::Vector2D;
use skipping_stone::fixed::Fixed;
use skipping_stone::physics::simulation::StoneInfo;
use skipping_stone::stone_editor::{
    accepts_char, count_self_intersections, deg_to_rad, line_segments_intersect, on_segment,
    orientation, screen_to_world, world_to_screen, EditorMode, StoneEditor, Turn,
};
use skipping_stone::trig::PI;

fn fx(x: f64) -> Fixed {
    Fixed::from_raw((x * 1e9).round() as i64)
}

fn v(x: f64, y: f64) -> Vector2D {
    Vector2D::new(fx(x), fx(y))
}

fn poly(points: &[(f64, f64)]) -> Vec<Vector2D> {
    points.iter().map(|p| v(p.0, p.1)).collect()
}

#[test]
fn orientation_of_three_points() {
    assert_eq!(orientation(v(0.0, 0.0), v(1.0, 1.0), v(2.0, 2.0)), Turn::Straight);
    assert_eq!(orientation(v(0.0, 0.0), v(1.0, 1.0), v(2.0, 0.0)), Turn::Clockwise);
    assert_eq!(orientation(v(0.0, 0.0), v(1.0, 1.0), v(0.0, 2.0)), Turn::CounterClockwise);
    assert_eq!(orientation(v(0.0, 0.0), v(1.0, 0.0), v(1.0, 1.0)), Turn::CounterClockwise);
    assert_eq!(orientation(v(0.0, 0.0), v(1.0, 0.0), v(1.0, -1.0)), Turn::Clockwise);
}

#[test]
fn nearly_straight_path_counts_as_straight() {
    // The measure is 1 m * 0.00000000009 m, below a tenth of a billionth.
    let close = Vector2D::new(fx(2.0), Fixed::from_raw(0));
    assert_eq!(orientation(v(0.0, 0.0), v(1.0, 0.0), close), Turn::Straight);
    let p = Vector2D::new(Fixed::from_raw(0), Fixed::from_raw(0));
    let q = Vector2D::new(Fixed::from_raw(10_000), Fixed::from_raw(0));
    let below = Vector2D::new(Fixed::from_raw(20_000), Fixed::from_raw(-9_999));
    let at = Vector2D::new(Fixed::from_raw(20_000), Fixed::from_raw(-10_000));
    let above = Vector2D::new(Fixed::from_raw(20_000), Fixed::from_raw(10_000));
    assert_eq!(orientation(p, q, below), Turn::Straight);
    assert_eq!(orientation(p, q, at), Turn::Clockwise);
    assert_eq!(orientation(p, q, above), Turn::CounterClockwise);
}

#[test]
fn orientation_of_the_farthest_points_is_exact() {
    let lo = Fixed::from_raw(i64::MIN);
    let hi = Fixed::from_raw(i64::MAX);
    let a = Vector2D::new(lo, lo);
    let b = Vector2D::new(hi, hi);
    assert_eq!(orientation(a, Vector2D::new(fx(0.0), fx(-0.5)), b), Turn::CounterClockwise);
    assert_eq!(orientation(a, Vector2D::new(fx(0.0), fx(0.5)), b), Turn::Clockwise);
    assert_eq!(orientation(a, Vector2D::new(Fixed::from_raw(-1), Fixed::from_raw(-1)), b), Turn::Straight);
    assert_eq!(orientation(a, Vector2D::new(lo, hi), b), Turn::Clockwise);
    assert_eq!(orientation(a, Vector2D::new(hi, lo), b), Turn::CounterClockwise);
}

#[test]
fn point_within_the_box_of_a_segment() {
    assert!(on_segment(v(0.0, 0.0), v(1.0, 1.0), v(2.0, 2.0)));
    assert!(on_segment(v(2.0, 2.0), v(1.0, 1.0), v(0.0, 0.0)));
    assert!(on_segment(v(0.0, 0.0), v(0.0, 0.0), v(2.0, 2.0)));
    assert!(!on_segment(v(0.0, 0.0), v(3.0, 3.0), v(2.0, 2.0)));
    assert!(!on_segment(v(0.0, 0.0), v(1.0, -0.1), v(2.0, 2.0)));
}

#[test]
fn segments_that_cross() {
    assert!(line_segments_intersect(v(0.0, 0.0), v(2.0, 2.0), v(0.0, 2.0), v(2.0, 0.0)));
    assert!(!line_segments_intersect(v(0.0, 0.0), v(1.0, 1.0), v(2.0, 0.0), v(3.0, 1.0)));
    assert!(!line_segments_intersect(v(0.0, 0.0), v(1.0, 0.0), v(0.0, 1.0), v(1.0, 1.0)));
}

#[test]
fn segments_that_touch() {
    assert!(line_segments_intersect(v(0.0, 0.0), v(2.0, 0.0), v(1.0, 0.0), v(1.0, 1.0)));
    assert!(line_segments_intersect(v(0.0, 0.0), v(2.0, 0.0), v(1.0, 0.0), v(3.0, 0.0)));
    assert!(!line_segments_intersect(v(0.0, 0.0), v(1.0, 0.0), v(2.0, 0.0), v(3.0, 0.0)));
}

#[test]
fn simple_outline_does_not_cross_itself() {
    let square = poly(&[(0.0, 0.0), (1.0, 0.0), (1.0, 1.0), (0.0, 1.0), (0.0, 0.0)]);
    assert_eq!(count_self_intersections(&square), 0);
}

#[test]
fn bow_tie_crosses_itself_once() {
    let bow = poly(&[(0.0, 0.0), (2.0, 2.0), (2.0, 0.0), (0.0, 2.0), (0.0, 0.0)]);
    assert_eq!(count_self_intersections(&bow), 1);
}

#[test]
fn star_crosses_itself_five_times() {
    let star = poly(&[
        (0.0, 1.0),
        (0.59, -0.81),
        (-0.95, 0.31),
        (0.95, 0.31),
        (-0.59, -0.81),
        (0.0, 1.0),
    ]);
    assert_eq!(count_self_intersections(&star), 5);
}

#[test]
fn short_paths_are_not_examined() {
    assert_eq!(count_self_intersections(&poly(&[])), 0);
    assert_eq!(count_self_intersections(&poly(&[(0.0, 0.0), (1.0, 1.0), (0.0, 1.0)])), 0);
}

#[test]
fn keys_for_typing_a_number() {
    for c in "0123456789.".chars() {
        assert!(accepts_char(c, true));
        assert!(accepts_char(c, false));
    }
    assert!(accepts_char('-', true));
    assert!(!accepts_char('-', false));
    for c in "abc+e, /:".chars() {
        assert!(!accepts_char(c, true));
        assert!(!accepts_char(c, false));
    }
}

#[test]
fn degrees_to_radians() {
    assert_eq!(deg_to_rad(fx(180.0)).raw, PI);
    assert_eq!(deg_to_rad(fx(5.0)).raw, 87_266_462);
    assert_eq!(deg_to_rad(fx(-90.0)).raw, -1_570_796_327);
    assert_eq!(deg_to_rad(fx(33.3)).raw, 581_194_640);
    assert_eq!(deg_to_rad(fx(0.0)).raw, 0);
}

#[test]
fn pixels_and_points_of_the_sheet() {
    let p = screen_to_world(fx(1200.0), fx(200.0), fx(1600.0), fx(1200.0));
    assert_eq!(p, v(0.05, 0.05));
    assert_eq!(world_to_screen(p, fx(1600.0), fx(1200.0)), v(1200.0, 200.0));
    assert_eq!(screen_to_world(fx(800.0), fx(600.0), fx(1600.0), fx(1200.0)), v(0.0, 0.0));
    assert_eq!(world_to_screen(v(-0.1, -0.05), fx(1600.0), fx(1200.0)), v(0.0, 1000.0));
}

#[test]
fn new_editor_shows_the_menu() {
    let editor = StoneEditor::new();
    assert_eq!(editor.mode, EditorMode::Menu);
    assert_eq!(editor.previous_mode, EditorMode::Menu);
    assert!(editor.bezier_control_points.is_empty());
    assert!(editor.freehand_points.is_empty());
    assert!(editor.preview_points.is_empty());
    assert!(!editor.self_intersection_warning);
    assert!(editor.blueprint_buffer.is_none());
    assert!(editor.result.is_none());
}

#[test]
fn freehand_stroke_skips_points_that_are_too_close() {
    let mut editor = StoneEditor::new();
    editor.start_freehand();
    assert_eq!(editor.mode, EditorMode::FreehandDrawing);
    editor.add_freehand_point(v(0.0, 0.0));
    editor.add_freehand_point(v(3.0, 4.0));
    assert_eq!(editor.freehand_points, poly(&[(0.0, 0.0)]));
    editor.add_freehand_point(v(3.0, 4.000000001));
    assert_eq!(editor.freehand_points, poly(&[(0.0, 0.0), (3.0, 4.000000001)]));
}

#[test]
fn starting_a_drawing_clears_the_sheet() {
    let mut editor = StoneEditor::new();
    editor.start_bezier();
    editor.add_control_point(v(1.0, 1.0));
    editor.start_bezier();
    assert_eq!(editor.mode, EditorMode::BezierDrawing);
    assert!(editor.bezier_control_points.is_empty());
    editor.start_freehand();
    editor.add_freehand_point(v(1.0, 1.0));
    editor.start_freehand();
    assert!(editor.freehand_points.is_empty());
}

#[test]
fn freehand_drawing_is_closed_and_previewed() {
    let mut editor = StoneEditor::new();
    editor.start_freehand();
    editor.freehand_points = poly(&[(0.0, 0.0), (10.0, 0.0), (10.0, 10.0), (0.0, 10.0)]);
    editor.finalize_stone();
    assert_eq!(editor.mode, EditorMode::Preview);
    assert_eq!(editor.previous_mode, EditorMode::FreehandDrawing);
    assert_eq!(
        editor.preview_points,
        poly(&[(0.0, 0.0), (10.0, 0.0), (10.0, 10.0), (0.0, 10.0), (0.0, 0.0)])
    );
    assert!(!editor.self_intersection_warning);
}

#[test]
fn stroke_that_ends_where_it_began_is_not_closed_again() {
    let mut editor = StoneEditor::new();
    editor.start_freehand();
    editor.freehand_points = poly(&[(0.0, 0.0), (10.0, 0.0), (10.0, 10.0), (0.01, 0.01)]);
    editor.finalize_stone();
    assert_eq!(editor.preview_points.len(), 4);
    // The gap may be two centimeters wide.
    editor.back_to_drawing();
    editor.freehand_points = poly(&[(0.0, 0.0), (10.0, 0.0), (10.0, 10.0), (0.02, 0.0)]);
    editor.finalize_stone();
    assert_eq!(editor.preview_points.len(), 4);
    editor.back_to_drawing();
    editor.freehand_points = poly(&[(0.0, 0.0), (10.0, 0.0), (10.0, 10.0), (0.02, 0.001)]);
    editor.finalize_stone();
    assert_eq!(editor.preview_points.len(), 5);
}

#[test]
fn crossing_outline_is_flagged() {
    let mut editor = StoneEditor::new();
    editor.start_freehand();
    editor.freehand_points = poly(&[
        (0.0, 1.0),
        (0.59, -0.81),
        (-0.95, 0.31),
        (0.95, 0.31),
        (-0.59, -0.81),
    ]);
    editor.finalize_stone();
    assert_eq!(editor.mode, EditorMode::Preview);
    assert!(editor.self_intersection_warning);
}

#[test]
fn outline_that_crosses_once_is_not_flagged() {
    let mut editor = StoneEditor::new();
    editor.start_freehand();
    editor.freehand_points = poly(&[(0.0, 0.0), (2.0, 2.0), (2.0, 0.0), (0.0, 2.0)]);
    editor.finalize_stone();
    assert!(!editor.self_intersection_warning);
}

#[test]
fn control_points_give_the_polyline_of_the_closed_curve() {
    let mut editor = StoneEditor::new();
    editor.start_bezier();
    for p in poly(&[(0.0, 0.0), (0.1, 0.0), (0.1, 0.1), (0.0, 0.1)]) {
        editor.add_control_point(p);
    }
    editor.finalize_stone();
    assert_eq!(editor.mode, EditorMode::Preview);
    assert_eq!(editor.previous_mode, EditorMode::BezierDrawing);
    assert_eq!(editor.preview_points.len(), 1001);
    assert_eq!(editor.preview_points[0], v(0.0, 0.0));
    assert_eq!(editor.preview_points[500], v(0.0625, 0.0625));
    assert_eq!(editor.preview_points[1000], v(0.0, 0.0));
    assert!(!editor.self_intersection_warning);
    assert_eq!(editor.bezier_control_points.len(), 4);
}

#[test]
fn drawing_of_fewer_than_two_points_is_not_finished() {
    let mut editor = StoneEditor::new();
    editor.start_freehand();
    editor.add_freehand_point(v(1.0, 1.0));
    editor.finalize_stone();
    assert_eq!(editor.mode, EditorMode::FreehandDrawing);
    assert_eq!(editor.previous_mode, EditorMode::FreehandDrawing);
    assert!(editor.preview_points.is_empty());
    let mut idle = StoneEditor::new();
    idle.finalize_stone();
    assert_eq!(idle.mode, EditorMode::Menu);
}

#[test]
fn going_back_from_the_preview_discards_it() {
    let mut editor = StoneEditor::new();
    editor.start_freehand();
    editor.freehand_points = poly(&[
        (0.0, 1.0),
        (0.59, -0.81),
        (-0.95, 0.31),
        (0.95, 0.31),
        (-0.59, -0.81),
    ]);
    editor.finalize_stone();
    editor.back_to_drawing();
    assert_eq!(editor.mode, EditorMode::FreehandDrawing);
    assert!(editor.preview_points.is_empty());
    assert!(!editor.self_intersection_warning);
    assert_eq!(editor.freehand_points.len(), 5);
}

#[test]
fn confirmed_preview_becomes_a_blueprint() {
    let mut editor = StoneEditor::new();
    editor.start_freehand();
    editor.freehand_points = poly(&[(0.0, 0.0), (10.0, 0.0), (10.0, 10.0), (0.0, 10.0)]);
    editor.finalize_stone();
    editor.confirm_preview(fx(1.5));
    assert_eq!(editor.mode, EditorMode::SetInitialConditions);
    let blueprint = editor.blueprint_buffer.as_ref().unwrap();
    assert_eq!(blueprint.points, editor.preview_points);
    assert_eq!(blueprint.thickness, fx(0.015));
    assert_eq!(blueprint.name, "CustomStone");
}

#[test]
fn initial_conditions_finish_the_editor() {
    let mut editor = StoneEditor::new();
    editor.start_freehand();
    editor.freehand_points = poly(&[(0.0, 0.0), (10.0, 0.0), (10.0, 10.0), (0.0, 10.0)]);
    editor.finalize_stone();
    editor.confirm_preview(fx(1.0));
    editor.show(EditorMode::Preview);
    assert_eq!(editor.mode, EditorMode::Preview);
    editor.show(EditorMode::SetInitialConditions);
    editor.finish_and_build_y0(v(0.0, 0.2), v(10.0, 0.0), fx(5.0), fx(30.0));
    assert_eq!(editor.mode, EditorMode::Finished);
    assert!(editor.blueprint_buffer.is_none());
    let (blueprint, y0) = editor.result.as_ref().unwrap();
    assert_eq!(blueprint.points.len(), 5);
    assert_eq!(blueprint.thickness, fx(0.01));
    assert_eq!(
        *y0,
        StoneInfo {
            position: v(0.0, 0.2),
            velocity: v(10.0, 0.0),
            angle: Vector2D::new(Fixed::from_raw(87_266_462), fx(0.0)),
            angle_velocity: v(0.0, 30.0),
        }
    );
}

#[test]
fn initial_conditions_without_a_blueprint_lead_back_to_the_menu() {
    let mut editor = StoneEditor::new();
    editor.show(EditorMode::SetInitialConditions);
    editor.finish_and_build_y0(v(0.0, 0.2), v(10.0, 0.0), fx(5.0), fx(30.0));
    assert_eq!(editor.mode, EditorMode::Menu);
    assert!(editor.result.is_none());
}
