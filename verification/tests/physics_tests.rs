use skipping_stone::basic_structs::Vector2D;
use skipping_stone::fixed::Fixed;
use skipping_stone::geometry::{polygon_area, pressure_center};
use skipping_stone::physics::derivative::{MAX_ARM, MAX_PITCH_ACCELERATION};
use skipping_stone::physics::parameters::{CustomSettings, Phase};
use skipping_stone::physics::simulation::{advance, simulate, Stamp, StoneInfo};
use skipping_stone::solver2::{OdeSystem, RungeKuttaSolver, VectorSpace};
use skipping_stone::stone_editor::StoneBlueprint;
use skipping_stone::stone_phy::StoneProperties;

fn fx(x: f64) -> Fixed {
    Fixed::from_raw((x * 1e9).round() as i64)
}

fn raw(x: i64, y: i64) -> Vector2D {
    Vector2D::new(Fixed::from_raw(x), Fixed::from_raw(y))
}

fn v(x: f64, y: f64) -> Vector2D {
    Vector2D::new(fx(x), fx(y))
}

fn to_f64(x: Fixed) -> f64 {
    x.raw as f64 / 1e9
}

/// An octagonal stone, ten centimeters across and one centimeter thick.
fn stone() -> StoneProperties {
    let points = vec![
        v(0.050, 0.0),
        v(0.035, 0.035),
        v(0.0, 0.050),
        v(-0.035, 0.035),
        v(-0.050, 0.0),
        v(-0.035, -0.035),
        v(0.0, -0.050),
        v(0.035, -0.035),
    ];
    StoneProperties::new(&StoneBlueprint { points, thickness: fx(0.01), name: String::from("octagon") })
}

fn settings() -> CustomSettings {
    CustomSettings::new(fx(9.81), stone())
}

/// A stone that has just touched the water, moving forward and down.
fn touching() -> StoneInfo {
    StoneInfo {
        position: v(1.5, 0.01),
        velocity: v(10.0, -1.0),
        angle: v(0.1, 0.3),
        angle_velocity: v(0.5, 30.0),
    }
}

#[test]
fn new_settings_hold_the_defaults() {
    let s = settings();
    assert_eq!(s.gravity, fx(9.81));
    assert_eq!(s.rho, fx(1000.0));
    assert_eq!(s.Cl, fx(0.2));
    assert_eq!(s.Cf, fx(0.05));
    assert_eq!(s.Sim, fx(0.01));
    assert_eq!(s.M, fx(0.189));
    assert_eq!(s.beta, fx(0.02));
    assert_eq!(s.phase, Phase::Flying);
    assert_eq!(s.water_level, fx(0.0));
    assert_eq!(s.min_speed, fx(0.2));
    assert_eq!(s.min_net_lift, fx(0.0));
    assert_eq!(s.stone.n, 39984);
    assert!(s.current_submerged_polygon.is_empty());
}

#[test]
fn stone_states_add_and_scale() {
    let a = touching();
    let b = StoneInfo {
        position: v(0.5, 1.0),
        velocity: v(-10.0, 1.0),
        angle: v(0.1, 0.1),
        angle_velocity: v(0.5, -30.0),
    };
    let sum = a.add(&b);
    assert_eq!(sum.position, v(2.0, 1.01));
    assert_eq!(sum.velocity, v(0.0, 0.0));
    assert_eq!(sum.angle, v(0.2, 0.4));
    assert_eq!(sum.angle_velocity, v(1.0, 0.0));
    let half = a.scale(fx(0.5));
    assert_eq!(half.position, v(0.75, 0.005));
    assert_eq!(half.velocity, v(5.0, -0.5));
    assert_eq!(half.angle, v(0.05, 0.15));
    assert_eq!(half.angle_velocity, v(0.25, 15.0));
}

#[test]
fn outline_without_rotation_is_moved_to_the_position() {
    let s = settings();
    let state = StoneInfo {
        position: v(3.0, -2.0),
        velocity: v(0.0, 0.0),
        angle: v(0.0, 0.0),
        angle_velocity: v(0.0, 0.0),
    };
    let world = s.outline_to_world(&state);
    assert_eq!(world.len(), 8);
    assert_eq!(world[0], v(3.05, -2.0));
    assert_eq!(world[1], v(3.035, -1.965));
    assert_eq!(world[6], v(3.0, -2.05));
}

#[test]
fn outline_is_turned_by_spin_and_pitch() {
    let s = settings();
    let world = s.outline_to_world(&touching());
    assert_eq!(
        world,
        vec![
            raw(1_546_053_049, 29_470_916),
            raw(1_518_607_493, 55_866_775),
            raw(1_480_529_084, 56_053_049),
            raw(1_454_133_225, 28_607_493),
            raw(1_453_946_951, -9_470_916),
            raw(1_481_392_507, -35_866_775),
            raw(1_519_470_916, -36_053_049),
            raw(1_545_866_775, -8_607_493),
        ]
    );
    // Spin and pitch add up to a turn by 0.4 radians.
    let c = 0.4_f64.cos();
    let si = 0.4_f64.sin();
    assert!((to_f64(world[0].x) - (1.5 + 0.05 * c)).abs() < 1e-8);
    assert!((to_f64(world[0].y) - (0.01 + 0.05 * si)).abs() < 1e-8);
}

#[test]
fn submerged_polygon_of_a_stone_that_touches_the_water() {
    let s = settings();
    let (sim, clipped) = s.calculate_instant_submerged(&touching());
    assert_eq!(
        clipped,
        vec![
            raw(1_453_993_282, 0),
            raw(1_453_946_951, -9_470_916),
            raw(1_481_392_507, -35_866_775),
            raw(1_519_470_916, -36_053_049),
            raw(1_545_866_775, -8_607_493),
            raw(1_545_908_881, 0),
        ]
    );
    assert_eq!(sim.raw, 2_580_843);
    assert_eq!(sim, polygon_area(&clipped));
    // The exact centroid is (1.49993674639, -0.01545147150).
    assert_eq!(pressure_center(&clipped), raw(1_499_936_746, -15_451_471));
}

#[test]
fn stone_above_the_water_has_no_submerged_area() {
    let s = settings();
    let mut state = touching();
    state.position = v(1.5, 1.0);
    let (sim, clipped) = s.calculate_instant_submerged(&state);
    assert_eq!(sim.raw, 0);
    assert!(clipped.is_empty());
}

#[test]
fn update_submerged_area_fills_the_cache() {
    let mut s = settings();
    s.update_submerged_area(&touching());
    assert_eq!(s.Sim.raw, 2_580_843);
    assert_eq!(s.current_submerged_polygon.len(), 6);
    assert_eq!(s.phase, Phase::Flying);
    let mut state = touching();
    state.position = v(1.5, 1.0);
    s.update_submerged_area(&state);
    assert_eq!(s.Sim.raw, 0);
    assert!(s.current_submerged_polygon.is_empty());
}

#[test]
fn derivative_in_flight() {
    let s = settings();
    let d = s.deriv_flying(fx(0.0), &touching());
    assert_eq!(d.position, v(10.0, -1.0));
    assert_eq!(d.velocity, v(0.0, -9.81));
    assert_eq!(d.angle, v(0.5, 30.0));
    assert_eq!(d.angle_velocity, v(0.0, 0.0));
}

#[test]
fn derivative_of_a_sinking_stone() {
    let s = settings();
    let d = s.deriv_sinking(fx(0.0), &touching());
    assert_eq!(d.position, v(10.0, -1.0));
    assert_eq!(d.velocity, v(-100.0, 10.0));
    assert_eq!(d.angle, v(0.5, 30.0));
    assert_eq!(d.angle_velocity, v(-5.0, -300.0));
}

#[test]
fn sunk_stone_at_rest_stays_at_rest() {
    let s = settings();
    let resting = StoneInfo {
        position: v(3.0, -1.0),
        velocity: v(0.0, 0.0),
        angle: v(0.3, 1.0),
        angle_velocity: v(0.0, 0.0),
    };
    let d = s.deriv_sinking(fx(0.0), &resting);
    assert_eq!(d.position, v(0.0, 0.0));
    assert_eq!(d.velocity, v(0.0, 0.0));
    assert_eq!(d.angle, v(0.0, 0.0));
    assert_eq!(d.angle_velocity, v(0.0, 0.0));
}

#[test]
fn sinking_stone_comes_to_rest() {
    let mut s = settings();
    s.phase = Phase::Sinking;
    let mut solver = RungeKuttaSolver::new(fx(0.0), touching());
    let mut speed = solver.state.velocity.length();
    for _ in 0..3000 {
        solver.step(&s, fx(0.001));
        let now = solver.state.velocity.length();
        assert!(now.raw <= speed.raw);
        speed = now;
    }
    // After three seconds at the rate ten per second nothing is left.
    assert!(speed.raw < 1_000);
    assert!(solver.state.angle_velocity.length().raw < 1_000);
}

#[test]
fn derivative_in_contact_with_the_water() {
    let s = settings();
    let d = s.deriv_bouncing(fx(0.0), &touching());
    assert_eq!(d.position, v(10.0, -1.0));
    assert_eq!(d.velocity, raw(-66_428_194_125, 141_993_014_661));
    assert_eq!(d.angle, v(0.5, 30.0));
    assert_eq!(d.angle_velocity, raw(-500_000_000_000, -18_000_000_000));
}

#[test]
fn derivative_in_contact_without_submerged_area_is_that_of_the_weight_alone() {
    let s = settings();
    let mut state = touching();
    state.position = v(1.5, 1.0);
    let d = s.deriv_bouncing(fx(0.0), &state);
    // No force of the water, no added mass: the weight acts downward, as in flight.
    assert_eq!(d.velocity, v(0.0, -9.81));
    assert_eq!(d.velocity, s.deriv_flying(fx(0.0), &state).velocity);
    assert_eq!(d.position, v(10.0, -1.0));
    assert_eq!(d.angle_velocity, v(0.0, -18.0));
}

#[test]
fn derivative_follows_the_phase() {
    let mut s = settings();
    let state = touching();
    assert_eq!(s.derivatives(fx(0.0), &state), s.deriv_flying(fx(0.0), &state));
    s.phase = Phase::Bouncing;
    assert_eq!(s.derivatives(fx(0.0), &state), s.deriv_bouncing(fx(0.0), &state));
    s.phase = Phase::Sinking;
    assert_eq!(s.derivatives(fx(0.0), &state), s.deriv_sinking(fx(0.0), &state));
}

#[test]
fn derivative_does_not_depend_on_the_time() {
    let mut s = settings();
    s.phase = Phase::Bouncing;
    let state = touching();
    assert_eq!(s.derivatives(fx(0.0), &state), s.derivatives(fx(123.0), &state));
}

#[test]
fn derivative_does_not_read_the_cached_polygon() {
    let mut s = settings();
    s.phase = Phase::Bouncing;
    let state = touching();
    let fresh = s.derivatives(fx(0.0), &state);
    let mut elsewhere = state;
    elsewhere.position = v(7.0, -0.02);
    s.update_submerged_area(&elsewhere);
    assert_eq!(s.derivatives(fx(0.0), &state), fresh);
}

#[test]
fn force_of_the_water_on_a_descending_stone() {
    let s = settings();
    let f = s.compute_hydro_force(&touching(), fx(0.005));
    assert_eq!(f, raw(-57_537_406_714, 126_580_612_547));
}

#[test]
fn force_of_the_water_on_a_rising_stone_includes_suction() {
    let s = settings();
    let mut state = touching();
    state.velocity = v(10.0, 1.0);
    let f = s.compute_hydro_force(&state, fx(0.005));
    assert_eq!(f, raw(-67_587_282_332, -28_344_598_053));
}

#[test]
fn force_of_the_water_follows_the_formulas() {
    let s = settings();
    let cases = [(10.0, -1.0, 0.005), (10.0, 1.0, 0.005), (3.0, 0.5, 0.002), (-4.0, -2.0, 0.001)];
    for (vx, vy, sim) in cases {
        let mut state = touching();
        state.velocity = v(vx, vy);
        let f = s.compute_hydro_force(&state, fx(sim));
        let speed_sq: f64 = vx * vx + vy * vy;
        let speed = speed_sq.sqrt();
        let (dx, dy) = (vx / speed, vy / speed);
        let drag = 0.5 * 1000.0 * sim * 0.05 * speed_sq;
        let lift = 0.5 * 1000.0 * sim * 0.2 * speed_sq;
        let (mut lx, mut ly) = (-dy, dx);
        if ly < 0.0 {
            lx = -lx;
            ly = -ly;
        }
        let damp = 0.5 * 1000.0 * sim * (20.0 * vy.abs() + 10.0);
        let suction = if vy > 0.0 { -8.0 * sim.sqrt() * 4.0 } else { 0.0 };
        let wave = -15.0 * sim * vy;
        let resist = -0.5 * 1000.0 * sim * 2.0 * vx;
        let fx_expected = -dx * drag + lx * lift + resist;
        let fy_expected = -dy * drag + ly * lift - damp * vy + suction + wave;
        assert!((to_f64(f.x) - fx_expected).abs() < 1e-5, "{} {}", to_f64(f.x), fx_expected);
        assert!((to_f64(f.y) - fy_expected).abs() < 1e-5, "{} {}", to_f64(f.y), fy_expected);
    }
}

#[test]
fn water_exerts_no_force_without_submerged_area() {
    let s = settings();
    assert_eq!(s.compute_hydro_force(&touching(), fx(0.0)), v(0.0, 0.0));
    assert_eq!(s.compute_hydro_force(&touching(), Fixed::from_raw(1)), v(0.0, 0.0));
    assert_ne!(s.compute_hydro_force(&touching(), Fixed::from_raw(2)), v(0.0, 0.0));
}

#[test]
fn water_exerts_no_force_on_a_stone_at_rest() {
    let s = settings();
    let mut state = touching();
    state.velocity = v(0.0, 0.0);
    assert_eq!(s.compute_hydro_force(&state, fx(0.005)), v(0.0, 0.0));
}

#[test]
fn slow_stone_has_no_direction_but_is_still_damped() {
    let s = settings();
    let mut state = touching();
    // Slower than a micrometer per second: no drag, no lift.
    state.velocity = raw(0, -500);
    let f = s.compute_hydro_force(&state, fx(0.005));
    assert_eq!(f.x.raw, 0);
    // damping 0.5 * 1000 * 0.005 * (20 * 5e-7 + 10) * 5e-7 plus waves 15 * 0.005 * 5e-7
    assert_eq!(f.y.raw, 12_500 + 37);
}

#[test]
fn angular_acceleration_is_limited() {
    let s = settings();
    let state = touching();
    let (sim, clipped) = s.calculate_instant_submerged(&state);
    let f = s.compute_hydro_force(&state, sim);
    let a = s.compute_angular_acceleration(&state, sim, &clipped, f);
    assert_eq!(a.x.raw, -MAX_PITCH_ACCELERATION);
    assert_eq!(a.y, fx(-18.0));
    // Without pitch damping the opposite force turns the stone the other way.
    let mut steady = state;
    steady.angle_velocity = v(0.0, 30.0);
    let opposite = Vector2D::new(f.x.neg(), f.y.neg());
    let a = s.compute_angular_acceleration(&steady, sim, &clipped, opposite);
    assert_eq!(a.x.raw, MAX_PITCH_ACCELERATION);
}

#[test]
fn angular_acceleration_without_submerged_area_is_spin_damping_alone() {
    let s = settings();
    let state = touching();
    let a = s.compute_angular_acceleration(&state, fx(0.0), &Vec::new(), v(5.0, 5.0));
    // -beta * wy * |wy| = -0.02 * 900
    assert_eq!(a, v(0.0, -18.0));
    // The damping opposes a spin the other way as well.
    let mut back = state;
    back.angle_velocity = v(0.5, -30.0);
    let a = s.compute_angular_acceleration(&back, fx(0.0), &Vec::new(), v(5.0, 5.0));
    assert_eq!(a, v(0.0, 18.0));
    back.angle_velocity = v(0.5, -1.0);
    let a = s.compute_angular_acceleration(&back, fx(0.0), &Vec::new(), v(5.0, 5.0));
    assert_eq!(a, v(0.0, 0.02));
    back.angle_velocity = v(0.5, 0.0);
    let a = s.compute_angular_acceleration(&back, fx(0.0), &Vec::new(), v(5.0, 5.0));
    assert_eq!(a, v(0.0, 0.0));
}

#[test]
fn angular_acceleration_from_torque_and_damping() {
    let mut s = settings();
    s.stone.inertia_tensor_x = fx(2.0);
    let mut state = touching();
    state.position = v(0.0, 0.0);
    state.angle_velocity = v(0.5, 0.0);
    // A submerged square whose center lies at (0.1, -0.05): the lever arm.
    let clipped = vec![v(0.05, -0.1), v(0.15, -0.1), v(0.15, 0.0), v(0.05, 0.0)];
    let a = s.compute_angular_acceleration(&state, fx(0.01), &clipped, v(3.0, 4.0));
    // torque 0.1 * 4 + 0.05 * 3 = 0.55; damping -0.5 * 1000 * 0.01 * 5 * 0.5 = -12.5
    assert_eq!(a, v((0.55 - 12.5) / 2.0, 0.0));
}

#[test]
fn lever_arm_is_limited() {
    let mut s = settings();
    s.stone.inertia_tensor_x = fx(2.0);
    let mut state = touching();
    state.position = v(0.0, 0.0);
    state.angle_velocity = v(0.0, 0.0);
    // The pressure center lies at (3, -4), five meters away: the arm is cut
    // down to (0.12, -0.16).
    assert_eq!(MAX_ARM, 200_000_000);
    let clipped = vec![v(2.0, -5.0), v(4.0, -5.0), v(4.0, -3.0), v(2.0, -3.0)];
    let a = s.compute_angular_acceleration(&state, fx(4.0), &clipped, v(10.0, 10.0));
    // torque 0.12 * 10 + 0.16 * 10 = 2.8
    assert_eq!(a, v(1.4, 0.0));
}

#[test]
fn stone_without_inertia_turns_as_one_of_a_tenth() {
    let mut s = settings();
    s.stone.inertia_tensor_x = fx(0.0);
    let mut state = touching();
    state.position = v(0.0, 0.0);
    state.angle_velocity = v(0.0, 0.0);
    let clipped = vec![v(0.05, -0.1), v(0.15, -0.1), v(0.15, 0.0), v(0.05, 0.0)];
    let a = s.compute_angular_acceleration(&state, fx(0.01), &clipped, v(3.0, 4.0));
    assert_eq!(a, v(5.5, 0.0));
}

#[test]
fn vertical_force_estimate() {
    let s = settings();
    // 0.5 * 1000 * 101 * 0.01 * 0.2 - 0.189 * 9.81
    assert_eq!(s.compute_vertical_force(&touching()).raw, 99_145_910_000);
}

#[test]
fn flying_stone_touches_down_when_its_lowest_point_reaches_the_water() {
    let mut s = settings();
    let mut state = touching();
    // Largest radius sqrt(0.002458746) = 0.0495857, times sin(0.1).
    state.position = v(0.0, 0.004950315);
    s.update_phase(&state);
    assert_eq!(s.phase, Phase::Flying);
    state.position = v(0.0, 0.004950314);
    s.update_phase(&state);
    assert_eq!(s.phase, Phase::Bouncing);
}

#[test]
fn flying_stone_above_the_water_keeps_flying() {
    let mut s = settings();
    let mut state = touching();
    state.position = v(0.0, 1.0);
    state.velocity = v(0.0, 0.0);
    s.update_phase(&state);
    assert_eq!(s.phase, Phase::Flying);
}

#[test]
fn flying_stone_never_sinks_at_once() {
    let mut s = settings();
    let mut state = touching();
    state.position = v(0.0, -5.0);
    state.velocity = v(0.0, 0.0);
    s.update_phase(&state);
    assert_eq!(s.phase, Phase::Bouncing);
    s.update_phase(&state);
    assert_eq!(s.phase, Phase::Sinking);
}

#[test]
fn rising_stone_above_the_water_takes_off_at_once() {
    let mut s = settings();
    s.phase = Phase::Bouncing;
    let mut state = touching();
    state.position = v(0.0, 0.01);
    state.velocity = v(0.0, 0.000000001);
    s.update_phase(&state);
    assert_eq!(s.phase, Phase::Flying);
}

#[test]
fn rising_stone_takes_off_even_where_the_sinking_rule_fires() {
    let mut s = settings();
    s.phase = Phase::Bouncing;
    s.min_speed = fx(100.0);
    s.min_net_lift = fx(1000.0);
    let mut state = touching();
    state.position = v(0.0, 0.5);
    state.velocity = v(0.0, 0.1);
    s.update_phase(&state);
    assert_eq!(s.phase, Phase::Flying);
}

#[test]
fn stone_in_contact_stays_in_contact() {
    let mut s = settings();
    s.phase = Phase::Bouncing;
    // Above the water but moving down.
    let mut state = touching();
    state.position = v(0.0, 0.01);
    s.update_phase(&state);
    assert_eq!(s.phase, Phase::Bouncing);
    // Moving up but still in the water.
    state.position = v(0.0, 0.0);
    state.velocity = v(10.0, 1.0);
    s.update_phase(&state);
    assert_eq!(s.phase, Phase::Bouncing);
}

#[test]
fn depth_alone_does_not_sink_a_stone() {
    let mut s = settings();
    s.phase = Phase::Bouncing;
    let mut state = touching();
    state.position = v(0.0, -5.0);
    s.update_phase(&state);
    assert_eq!(s.phase, Phase::Bouncing);
}

#[test]
fn slow_stone_sinks() {
    let mut s = settings();
    s.phase = Phase::Bouncing;
    // No lift is asked for: only the speed decides.
    s.min_net_lift = fx(-1000.0);
    let mut state = touching();
    state.position = v(0.0, 0.0);
    state.velocity = v(0.12, -0.16);
    s.update_phase(&state);
    assert_eq!(s.phase, Phase::Bouncing);
    state.velocity = v(0.12, -0.159);
    s.update_phase(&state);
    assert_eq!(s.phase, Phase::Sinking);
}

#[test]
fn stone_that_the_lift_does_not_carry_sinks() {
    let mut state = touching();
    state.position = v(0.0, 0.0);
    state.velocity = v(1.0, 0.0);
    let mut s = settings();
    s.phase = Phase::Bouncing;
    // The lift 0.5 * 1000 * 1 * Sim * 0.2 equals the weight 0.189 * 9.81 at Sim = 0.0185409.
    s.Sim = fx(0.0185409);
    assert_eq!(s.compute_vertical_force(&state).raw, 0);
    s.update_phase(&state);
    assert_eq!(s.phase, Phase::Bouncing);
    s.Sim = fx(0.0185408);
    assert_eq!(s.compute_vertical_force(&state).raw, -10_000);
    s.update_phase(&state);
    assert_eq!(s.phase, Phase::Sinking);
}

#[test]
fn thresholds_of_the_sinking_rule_are_settings() {
    let mut state = touching();
    state.position = v(0.0, 0.0);
    state.velocity = v(0.0, 0.0);
    let mut s = settings();
    s.phase = Phase::Bouncing;
    s.min_speed = fx(0.0);
    s.min_net_lift = fx(-2.0);
    // At rest there is no lift: the net force is the weight, -1.85409 newtons.
    s.update_phase(&state);
    assert_eq!(s.phase, Phase::Bouncing);
    s.min_net_lift = fx(-1.8);
    s.update_phase(&state);
    assert_eq!(s.phase, Phase::Sinking);

    let mut fast = settings();
    fast.phase = Phase::Bouncing;
    fast.min_speed = fx(11.0);
    fast.update_phase(&touching());
    assert_eq!(fast.phase, Phase::Sinking);
}

#[test]
fn sinking_stone_goes_on_sinking() {
    let mut s = settings();
    s.phase = Phase::Sinking;
    let mut state = touching();
    state.position = v(0.0, 10.0);
    state.velocity = v(10.0, 10.0);
    s.update_phase(&state);
    assert_eq!(s.phase, Phase::Sinking);
    state.position = v(0.0, -10.0);
    s.update_phase(&state);
    assert_eq!(s.phase, Phase::Sinking);
}

#[test]
fn update_of_the_phase_changes_nothing_else() {
    let mut s = settings();
    s.Sim = fx(0.123);
    let mut state = touching();
    state.position = v(0.0, 0.0);
    s.update_phase(&state);
    assert_eq!(s.phase, Phase::Bouncing);
    assert_eq!(s.Sim, fx(0.123));
    assert_eq!(s.gravity, fx(9.81));
    assert_eq!(s.M, fx(0.189));
    assert!(s.current_submerged_polygon.is_empty());
}

#[test]
fn one_step_in_flight() {
    let s = settings();
    let mut solver = RungeKuttaSolver::new(fx(0.0), touching());
    solver.step(&s, fx(0.001));
    assert_eq!(solver.t, fx(0.001));
    // x + v dt, y + v dt - g dt^2 / 2, v - g dt: without error.
    assert_eq!(solver.state.position, raw(1_510_000_000, 8_995_095));
    assert_eq!(solver.state.velocity, raw(10_000_000_000, -1_009_810_000));
    assert_eq!(solver.state.angle, raw(100_500_000, 330_000_000));
    assert_eq!(solver.state.angle_velocity, raw(500_000_000, 30_000_000_000));
}

#[test]
fn one_step_in_contact_with_the_water() {
    let mut s = settings();
    s.phase = Phase::Bouncing;
    let mut solver = RungeKuttaSolver::new(fx(0.0), touching());
    solver.step(&s, fx(0.001));
    assert_eq!(solver.state.position, raw(1_509_966_586, 9_067_947));
    assert_eq!(solver.state.velocity, raw(9_932_983_724, -867_010_478));
    assert_eq!(solver.state.angle, raw(100_250_000, 329_991_003));
    assert_eq!(solver.state.angle_velocity, raw(0, 29_982_010_794));
}

#[test]
fn free_fall_follows_the_parabola() {
    let s = settings();
    let start = StoneInfo {
        position: v(0.0, 100.0),
        velocity: v(3.0, 0.0),
        angle: v(0.0, 0.0),
        angle_velocity: v(0.0, 0.0),
    };
    let mut solver = RungeKuttaSolver::new(fx(0.0), start);
    for _ in 0..1000 {
        solver.step(&s, fx(0.001));
    }
    assert_eq!(solver.state.position, v(3.0, 100.0 - 0.5 * 9.81));
    assert_eq!(solver.state.velocity, v(3.0, -9.81));
}

#[test]
fn dropped_stone_falls_along_the_parabola_without_error() {
    let mut s = settings();
    let start = StoneInfo {
        position: v(0.0, 1.0),
        velocity: v(0.0, 0.0),
        angle: v(0.0, 0.0),
        angle_velocity: v(0.0, 0.0),
    };
    let mut solver = RungeKuttaSolver::new(fx(0.0), start);
    let trajectory = simulate(&mut s, &mut solver, fx(0.001), 452);
    assert_eq!(s.phase, Phase::Flying);
    assert_eq!(trajectory.len(), 452);
    for (i, stamp) in trajectory.iter().enumerate() {
        // 1 - 4.905 t^2 with t = i / 1000, in billionths.
        let expected = 1_000_000_000 - 4_905 * (i as i64) * (i as i64);
        assert_eq!(stamp.state.position.y.raw, expected);
        assert!(stamp.state.position.y.raw > 0);
        assert_eq!(stamp.t.raw, 1_000_000 * i as i64);
    }
    assert_eq!(trajectory[2].state.position.y.raw, 999_980_380);
}

#[test]
fn dropped_stone_touches_down_at_the_step_at_which_it_reaches_the_water() {
    let mut s = settings();
    let start = StoneInfo {
        position: v(0.0, 1.0),
        velocity: v(0.0, 0.0),
        angle: v(0.0, 0.0),
        angle_velocity: v(0.0, 0.0),
    };
    let mut solver = RungeKuttaSolver::new(fx(0.0), start);
    let mut touched_at = None;
    for i in 0..600 {
        let lowest_before = solver.state.position.y;
        let phase_before = s.phase;
        let stepped = advance(&mut s, &mut solver, fx(0.001));
        assert!(stepped);
        assert_ne!(s.phase, Phase::Sinking);
        if touched_at.is_none() {
            assert_eq!(phase_before, Phase::Flying);
            if lowest_before.raw <= 0 {
                assert_eq!(s.phase, Phase::Bouncing);
                touched_at = Some(i);
                break;
            } else {
                assert_eq!(s.phase, Phase::Flying);
            }
        }
    }
    // 1 = 4.905 t^2 at t = 0.4515
    assert_eq!(touched_at, Some(452));
}

#[test]
fn dropped_stone_sinks_only_after_it_was_in_contact() {
    let mut s = settings();
    let start = StoneInfo {
        position: v(0.0, 1.0),
        velocity: v(0.0, 0.0),
        angle: v(0.0, 0.0),
        angle_velocity: v(0.0, 0.0),
    };
    let mut solver = RungeKuttaSolver::new(fx(0.0), start);
    let trajectory = simulate(&mut s, &mut solver, fx(0.001), 2000);
    assert_eq!(s.phase, Phase::Sinking);
    assert_eq!(trajectory.len(), 457);
    assert_eq!(solver.t, fx(0.456));
    assert_eq!(trajectory[456], Stamp { t: solver.t, state: solver.state });
    assert_eq!(solver.state.position, raw(57_222, -13_197_604));
    assert_eq!(solver.state.velocity, raw(22_157_264, -1_798_072_346));
}

#[test]
fn thrown_stone_skips_and_sinks() {
    let mut s = settings();
    let start = StoneInfo {
        position: v(0.0, 0.2),
        velocity: v(10.0, 0.0),
        angle: raw(87_266_463, 0),
        angle_velocity: v(0.0, 30.0),
    };
    let mut solver = RungeKuttaSolver::new(fx(0.0), start);
    let mut phases = vec![s.phase];
    let mut steps = 0;
    loop {
        let stepped = advance(&mut s, &mut solver, fx(0.001));
        if *phases.last().unwrap() != s.phase {
            phases.push(s.phase);
        }
        if !stepped {
            break;
        }
        steps += 1;
        assert!(steps < 5000);
    }
    // Six contacts, then the stone has become too slow for the lift to carry it.
    assert_eq!(steps, 546);
    assert_eq!(phases.len(), 13);
    for (i, phase) in phases.iter().enumerate().take(12) {
        assert_eq!(*phase, if i % 2 == 0 { Phase::Flying } else { Phase::Bouncing });
    }
    assert_eq!(phases[12], Phase::Sinking);
    assert_eq!(solver.t, fx(0.546));
    assert_eq!(solver.state.position, raw(3_922_699_202, 3_579_784));
    assert_eq!(solver.state.velocity, raw(2_418_759_931, -1_117_347));
    assert_eq!(s.Sim.raw, 3_166_778);
    assert_eq!(s.current_submerged_polygon.len(), 6);
}

#[test]
fn simulate_records_the_state_before_each_step() {
    let mut s = settings();
    let start = StoneInfo {
        position: v(0.0, 0.2),
        velocity: v(10.0, 0.0),
        angle: raw(87_266_463, 0),
        angle_velocity: v(0.0, 30.0),
    };
    let mut solver = RungeKuttaSolver::new(fx(0.0), start);
    let trajectory = simulate(&mut s, &mut solver, fx(0.001), 300);
    assert_eq!(trajectory.len(), 300);
    assert_eq!(trajectory[0], Stamp { t: fx(0.0), state: start });
    assert_eq!(trajectory[1].t, fx(0.001));
    assert_eq!(trajectory[299].t, fx(0.299));
    assert_eq!(solver.t, fx(0.3));
    assert_eq!(s.phase, Phase::Flying);

    let mut again = settings();
    let mut second = RungeKuttaSolver::new(fx(0.0), start);
    for stamp in trajectory.iter() {
        assert_eq!(second.state, stamp.state);
        assert_eq!(second.t, stamp.t);
        assert!(advance(&mut again, &mut second, fx(0.001)));
    }
    assert_eq!(second.state, solver.state);
}

#[test]
fn simulate_of_no_steps_does_nothing() {
    let mut s = settings();
    let mut solver = RungeKuttaSolver::new(fx(1.0), touching());
    let trajectory = simulate(&mut s, &mut solver, fx(0.001), 0);
    assert!(trajectory.is_empty());
    assert_eq!(solver.t, fx(1.0));
    assert_eq!(solver.state, touching());
    assert_eq!(s.phase, Phase::Flying);
}

#[test]
fn simulate_of_a_sinking_stone_records_one_state_and_stops() {
    let mut s = settings();
    s.phase = Phase::Sinking;
    let mut solver = RungeKuttaSolver::new(fx(1.0), touching());
    let trajectory = simulate(&mut s, &mut solver, fx(0.001), 10);
    assert_eq!(trajectory, vec![Stamp { t: fx(1.0), state: touching() }]);
    assert_eq!(solver.t, fx(1.0));
    assert_eq!(solver.state, touching());
    assert!(!advance(&mut s, &mut solver, fx(0.001)));
}

#[test]
fn water_acts_against_a_stone_that_moves_straight_up_or_down() {
    let s = settings();
    let moving = |vy: i64| StoneInfo {
        position: v(0.0, 0.0),
        velocity: raw(0, vy),
        angle: v(0.0, 0.0),
        angle_velocity: v(0.0, 0.0),
    };
    let sim = fx(0.004);
    assert_eq!(s.compute_hydro_force(&moving(500_000_000), sim), raw(-100_000_000, -22_078_857_696));
    assert_eq!(s.compute_hydro_force(&moving(-500_000_000), sim), raw(100_000_000, 20_055_000_000));
    assert_eq!(s.compute_hydro_force(&moving(1_000_001), sim), raw(-400, -2_043_957_816));
    assert_eq!(s.compute_hydro_force(&moving(-1_000_001), sim), raw(400, 20_100_120));
    assert_eq!(s.compute_hydro_force(&moving(0), sim), raw(0, 0));
    // The smallest area that counts as submerged, and the slowest motion
    // for which the force is known not to vanish.
    let sliver = Fixed::from_raw(2);
    assert_eq!(s.compute_hydro_force(&moving(1_000_001), sliver), raw(0, -1_431_082));
    assert_eq!(s.compute_hydro_force(&moving(-1_000_001), sliver), raw(0, 10));
    for vy in [-3_000_000_000_i64, -70_000_000, -1_000_001, 1_000_001, 70_000_000, 3_000_000_000] {
        for area in [2_i64, 1_000, 4_000_000, 1_000_000_000] {
            let f = s.compute_hydro_force(&moving(vy), Fixed::from_raw(area));
            assert!(if vy > 0 { f.y.raw < 0 } else { f.y.raw > 0 }, "{} {}", vy, area);
        }
    }
}

#[test]
fn force_on_a_slow_stone_follows_its_direction_of_motion() {
    let s = settings();
    let slow = StoneInfo {
        position: v(0.0, 0.0),
        velocity: raw(40_000, -30_000),
        angle: v(0.0, 0.0),
        angle_velocity: v(0.0, 0.0),
    };
    assert_eq!(s.compute_hydro_force(&slow, fx(0.004)), raw(-160_000, 601_836));
    let fast = StoneInfo { velocity: v(3.0, -4.0), ..slow };
    assert_eq!(s.compute_hydro_force(&fast, fx(0.004)), raw(-5_500_000_000, 728_240_000_000));
}

#[test]
fn turning_the_outline_keeps_its_distances_from_the_center() {
    let s = settings();
    let angles: [(i64, i64); 6] = [
        (0, 0),
        (100_000_000, 300_000_000),
        (-1_234_567_890, 5_000_000_000),
        (785_398_163, -785_398_164),
        (3_141_592_654, 1_570_796_327),
        (-20_000_000_000, 77_777_777_777),
    ];
    for (pitch, spin) in angles {
        let state = StoneInfo {
            position: v(0.0, 0.0),
            velocity: v(0.0, 0.0),
            angle: raw(pitch, spin),
            angle_velocity: v(0.0, 0.0),
        };
        let world = s.outline_to_world(&state);
        assert_eq!(world.len(), s.stone.outline_com.len());
        for (turned, point) in world.iter().zip(s.stone.outline_com.iter()) {
            let before = (point.x.raw as i128).pow(2) + (point.y.raw as i128).pow(2);
            let after = (turned.x.raw as i128).pow(2) + (turned.y.raw as i128).pow(2);
            // Two turns, each within d * 2e-9 + 8 * (|x| + |y| + 1) of the squared distance d.
            let reach = (point.x.raw as i128).abs() + (point.y.raw as i128).abs() + 4;
            let bound = 2 * (before / 400_000_000 + 8 * (reach + 1));
            assert!((after - before).abs() <= bound, "{:?} {:?}", point, turned);
        }
    }
}
