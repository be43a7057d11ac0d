use skipping_stone::basic_structs::Vector2D;
use skipping_stone::fixed::Fixed;
use skipping_stone::physics::simulation::StoneInfo;
use skipping_stone::print::SimulationRenderer;
use skipping_stone::stone_editor::StoneBlueprint;
use skipping_stone::stone_phy::StoneProperties;

fn fx(x: f64) -> Fixed {
    Fixed::from_raw((x * 1e9).round() as i64)
}

fn v(x: f64, y: f64) -> Vector2D {
    Vector2D::new(fx(x), fx(y))
}

fn near(a: Vector2D, x: f64, y: f64) -> bool {
    (a.x.raw as f64 / 1e9 - x).abs() < 1e-5 && (a.y.raw as f64 / 1e9 - y).abs() < 1e-5
}

fn square_stone() -> StoneProperties {
    let points = vec![v(0.0, 0.0), v(0.1, 0.0), v(0.1, 0.1), v(0.0, 0.1)];
    StoneProperties::new(&StoneBlueprint { points, thickness: fx(0.01), name: String::from("square") })
}

fn renderer() -> SimulationRenderer {
    SimulationRenderer::new(square_stone(), fx(1000.0), fx(1600.0), fx(1200.0))
}

fn state(x: f64, y: f64, pitch: f64, spin: f64) -> StoneInfo {
    StoneInfo {
        position: v(x, y),
        velocity: v(0.0, 0.0),
        angle: v(pitch, spin),
        angle_velocity: v(0.0, 0.0),
    }
}

#[test]
fn new_display_places_the_origin() {
    let r = renderer();
    assert_eq!(r.world_origin_on_screen, v(400.0, 900.0));
    assert_eq!(r.scale, fx(1000.0));
    assert_eq!(r.current_frame, 0);
    assert!(r.is_playing);
    assert!(!r.is_panning);
    assert_eq!(r.last_mouse_pos, v(0.0, 0.0));
    assert_eq!(r.trajectory_len(), 0);
    assert!(!r.has_trajectory());
    assert_eq!(r.current_state(), None);
}

#[test]
fn states_are_recorded_in_order() {
    let mut r = renderer();
    r.add_state(state(0.0, 0.2, 0.0, 0.0));
    r.add_state(state(0.1, 0.2, 0.0, 0.0));
    assert_eq!(r.trajectory_len(), 2);
    assert!(r.has_trajectory());
    assert_eq!(r.trajectory[1], state(0.1, 0.2, 0.0, 0.0));
    assert_eq!(r.current_state(), Some(state(0.0, 0.2, 0.0, 0.0)));
}

#[test]
fn playing_display_moves_on_until_the_last_state() {
    let mut r = renderer();
    r.advance_frame();
    assert_eq!(r.current_frame, 0);
    for i in 0..3 {
        r.add_state(state(i as f64, 0.0, 0.0, 0.0));
    }
    r.advance_frame();
    assert_eq!(r.current_frame, 1);
    r.advance_frame();
    assert_eq!(r.current_frame, 2);
    r.advance_frame();
    assert_eq!(r.current_frame, 2);
    assert_eq!(r.current_state(), Some(state(2.0, 0.0, 0.0, 0.0)));
}

#[test]
fn paused_display_stays() {
    let mut r = renderer();
    for i in 0..3 {
        r.add_state(state(i as f64, 0.0, 0.0, 0.0));
    }
    r.toggle_play();
    assert!(!r.is_playing);
    r.advance_frame();
    assert_eq!(r.current_frame, 0);
    r.toggle_play();
    assert!(r.is_playing);
    r.advance_frame();
    assert_eq!(r.current_frame, 1);
}

#[test]
fn reset_goes_back_to_the_first_state_and_plays() {
    let mut r = renderer();
    for i in 0..3 {
        r.add_state(state(i as f64, 0.0, 0.0, 0.0));
    }
    r.advance_frame();
    r.advance_frame();
    r.toggle_play();
    r.reset();
    assert_eq!(r.current_frame, 0);
    assert!(r.is_playing);
    assert_eq!(r.trajectory_len(), 3);
}

#[test]
fn world_and_screen() {
    let r = renderer();
    assert_eq!(r.world_to_screen(v(0.0, 0.0)), v(400.0, 900.0));
    assert_eq!(r.world_to_screen(v(0.5, 0.25)), v(900.0, 650.0));
    assert_eq!(r.screen_to_world(v(900.0, 650.0)), v(0.5, 0.25));
    assert_eq!(r.screen_to_world(v(0.0, 1200.0)), v(-0.4, -0.3));
}

#[test]
fn zoom_changes_the_scale_and_moves_the_origin() {
    let mut r = renderer();
    let mouse = v(900.0, 650.0);
    // The point under the mouse is (0.5, 0.25) before and a third of that
    // after; the origin moves by the difference in pixels of the new scale.
    r.zoom(fx(1.0), mouse);
    assert_eq!(r.scale, fx(3000.0));
    assert_eq!(r.world_origin_on_screen.x.raw, 1_400_000_002_000);
    assert_eq!(r.world_origin_on_screen.y.raw, 399_999_999_000);
    let mut back = renderer();
    back.zoom(fx(-1.0), mouse);
    assert_eq!(back.scale.raw, 333_333_333_333);
    // (0.5, 0.25) before, (1.5, 0.75) after.
    assert!(near(back.world_origin_on_screen, 400.0 - 1000.0 / 3.0, 900.0 + 500.0 / 3.0));
}

#[test]
fn small_movements_of_the_wheel_do_nothing() {
    let mut r = renderer();
    r.zoom(fx(0.1), v(900.0, 650.0));
    assert_eq!(r.scale, fx(1000.0));
    r.zoom(fx(-0.1), v(900.0, 650.0));
    assert_eq!(r.scale, fx(1000.0));
    assert_eq!(r.world_origin_on_screen, v(400.0, 900.0));
    r.zoom(fx(-0.100000001), v(400.0, 900.0));
    assert_eq!(r.scale.raw, 333_333_333_333);
}

#[test]
fn drag_moves_the_view_with_the_mouse() {
    let mut r = renderer();
    r.pan(v(100.0, 100.0), false, false);
    assert!(!r.is_panning);
    assert_eq!(r.world_origin_on_screen, v(400.0, 900.0));
    r.pan(v(100.0, 100.0), true, false);
    assert!(r.is_panning);
    assert_eq!(r.last_mouse_pos, v(100.0, 100.0));
    assert_eq!(r.world_origin_on_screen, v(400.0, 900.0));
    r.pan(v(130.0, 90.0), false, false);
    assert_eq!(r.world_origin_on_screen, v(430.0, 890.0));
    r.pan(v(140.0, 90.0), false, true);
    assert!(!r.is_panning);
    assert_eq!(r.world_origin_on_screen, v(430.0, 890.0));
    r.pan(v(500.0, 500.0), false, false);
    assert_eq!(r.world_origin_on_screen, v(430.0, 890.0));
}

#[test]
fn wheel_and_mouse_together() {
    let mut r = renderer();
    r.handle_view_controls(fx(1.0), v(400.0, 900.0), true, false);
    assert_eq!(r.scale, fx(3000.0));
    assert_eq!(r.world_origin_on_screen, v(400.0, 900.0));
    assert!(r.is_panning);
    r.handle_view_controls(fx(0.0), v(410.0, 905.0), false, false);
    assert_eq!(r.world_origin_on_screen, v(410.0, 905.0));
}

#[test]
fn outline_of_the_stone_seen_from_the_side() {
    let r = renderer();
    let flat = r.stone_outline_on_screen(&state(1.0, 0.5, 0.0, 2.0));
    // The outline about its center, moved to (1, 0.5): the spin does not show.
    assert_eq!(flat, vec![v(1350.0, 450.0), v(1450.0, 450.0), v(1450.0, 350.0), v(1350.0, 350.0)]);
    let quarter = std::f64::consts::FRAC_PI_2;
    let upright = r.stone_outline_on_screen(&state(1.0, 0.5, quarter, 0.0));
    assert_eq!(upright.len(), 4);
    assert!(near(upright[0], 1450.0, 450.0));
    assert!(near(upright[1], 1450.0, 350.0));
}

#[test]
fn outline_of_the_stone_seen_from_above() {
    let r = renderer();
    // The largest radius is that of the sample in the corner, sqrt(0.005);
    // eighty pixels stand for it.
    let center = v(120.0, 200.0);
    let still = r.spin_outline_in_window(&state(1.0, 0.5, 2.0, 0.0), center, fx(200.0));
    assert_eq!(still.len(), 4);
    let k = 80.0 / 0.005_f64.sqrt();
    assert!(near(still[0], 120.0 - 0.05 * k, 200.0 + 0.05 * k));
    assert!(near(still[2], 120.0 + 0.05 * k, 200.0 - 0.05 * k));
    let half = std::f64::consts::PI;
    let turned = r.spin_outline_in_window(&state(1.0, 0.5, 0.0, half), center, fx(200.0));
    assert!(near(turned[0], 120.0 + 0.05 * k, 200.0 - 0.05 * k));
}

#[test]
fn stone_without_extent_has_no_view_from_above() {
    let r = SimulationRenderer::new(StoneProperties::default(), fx(1000.0), fx(1600.0), fx(1200.0));
    assert!(r.spin_outline_in_window(&state(0.0, 0.0, 0.0, 0.0), v(0.0, 0.0), fx(200.0)).is_empty());
    assert!(r.stone_outline_on_screen(&state(0.0, 0.0, 0.0, 0.0)).is_empty());
}

#[test]
fn path_is_drawn_up_to_the_state_shown() {
    let mut r = renderer();
    assert!(r.trajectory_on_screen().is_empty());
    for i in 0..4 {
        r.add_state(state(i as f64 * 0.1, 0.2, 0.0, 0.0));
    }
    assert_eq!(r.trajectory_on_screen(), vec![v(400.0, 700.0)]);
    r.advance_frame();
    r.advance_frame();
    assert_eq!(r.trajectory_on_screen(), vec![v(400.0, 700.0), v(500.0, 700.0), v(600.0, 700.0)]);
}
