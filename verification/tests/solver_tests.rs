use skipping_stone::calculate::{CustomOscillator, HyperionState, SimpleHarmonicOscillator};
use skipping_stone::fixed::Fixed;
use skipping_stone::solver2::{OdeSystem, RungeKuttaSolver, VectorSpace};

fn fx(x: f64) -> Fixed {
    Fixed::from_raw((x * 1e9).round() as i64)
}

fn to_f64(x: Fixed) -> f64 {
    x.raw as f64 / 1e9
}

#[test]
fn new_solver_holds_time_and_state() {
    let y0 = HyperionState { theta: fx(1.0), omega: fx(-2.0) };
    let solver = RungeKuttaSolver::new(fx(0.5), y0);
    assert_eq!(solver.t, fx(0.5));
    assert_eq!(solver.state, y0);
}

#[test]
fn step_advances_time() {
    let mut solver = RungeKuttaSolver::new(fx(0.5), HyperionState { theta: fx(1.0), omega: fx(0.0) });
    solver.step(&CustomOscillator, fx(0.01));
    assert_eq!(solver.t, fx(0.51));
    solver.step(&CustomOscillator, fx(0.01));
    assert_eq!(solver.t, fx(0.52));
}

#[test]
fn one_step_of_the_oscillator() {
    let mut solver = RungeKuttaSolver::new(fx(0.0), HyperionState { theta: fx(1.0), omega: fx(0.0) });
    solver.step(&CustomOscillator, fx(0.01));
    // cos(0.01) = 0.99995000042, -sin(0.01) = -0.00999983333
    assert_eq!(solver.state.theta.raw, 999_950_001);
    assert_eq!(solver.state.omega.raw, -9_999_833);
}

#[test]
fn one_large_step_of_the_oscillator() {
    let mut solver = RungeKuttaSolver::new(fx(0.0), HyperionState { theta: fx(1.0), omega: fx(0.0) });
    solver.step(&CustomOscillator, fx(1.0));
    // 1 - 1/2 + 1/24 = 13/24 and -1 + 1/6 = -5/6, rounded toward zero.
    assert_eq!(solver.state.theta.raw, 541_666_667);
    assert_eq!(solver.state.omega.raw, -833_333_333);
}

#[test]
fn ratio_scaling_rounds_once() {
    let y = HyperionState { theta: fx(1.0), omega: fx(-2.75) };
    let r = y.scale_ratio(fx(1.0), fx(6.0));
    assert_eq!(r.theta.raw, 166_666_666);
    assert_eq!(r.omega.raw, -458_333_333);
    assert_eq!(y.scale_ratio(fx(0.001), fx(6.0)).theta.raw, 166_666);
    let list = vec![fx(6.0), fx(-3.0)];
    assert_eq!(VectorSpace::scale_ratio(&list, fx(0.5), fx(3.0)), vec![fx(1.0), fx(-0.5)]);
    assert_eq!(y.scale_ratio(fx(1.0), fx(0.0)), HyperionState { theta: fx(0.0), omega: fx(0.0) });
}

#[test]
fn oscillator_conserves_its_energy_over_a_thousand_steps() {
    let mut solver = RungeKuttaSolver::new(fx(0.0), HyperionState { theta: fx(1.0), omega: fx(0.0) });
    let dt = fx(0.01);
    let mut worst: f64 = 0.0;
    for _ in 0..1000 {
        solver.step(&CustomOscillator, dt);
        let x = to_f64(solver.state.theta);
        let v = to_f64(solver.state.omega);
        let drift = (x * x + v * v - 1.0).abs();
        if drift > worst {
            worst = drift;
        }
    }
    // The error of the method is of the order dt^4 = 1e-8 per unit of time.
    assert!(worst < 1e-7, "energy drifted by {}", worst);
    assert_eq!(solver.t, fx(10.0));
    assert!((to_f64(solver.state.theta) - 10.0_f64.cos()).abs() < 1e-5);
    assert!((to_f64(solver.state.omega) + 10.0_f64.sin()).abs() < 1e-5);
}

#[test]
fn oscillator_over_lists_agrees_with_the_oscillator_over_structs() {
    let mut by_list = RungeKuttaSolver::new(fx(0.0), vec![fx(1.0), fx(0.0)]);
    let mut by_struct =
        RungeKuttaSolver::new(fx(0.0), HyperionState { theta: fx(1.0), omega: fx(0.0) });
    for _ in 0..100 {
        by_list.step(&SimpleHarmonicOscillator, fx(0.01));
        by_struct.step(&CustomOscillator, fx(0.01));
    }
    assert_eq!(by_list.state.len(), 2);
    assert_eq!(by_list.state[0], by_struct.state.theta);
    assert_eq!(by_list.state[1], by_struct.state.omega);
}

#[test]
fn lists_add_and_scale_component_by_component() {
    let a = vec![fx(1.0), fx(2.0), fx(3.0)];
    let b = vec![fx(0.5), fx(-2.0), fx(10.0)];
    assert_eq!(VectorSpace::add(&a, &b), vec![fx(1.5), fx(0.0), fx(13.0)]);
    assert_eq!(VectorSpace::scale(&a, fx(-2.0)), vec![fx(-2.0), fx(-4.0), fx(-6.0)]);
    let empty: Vec<Fixed> = Vec::new();
    assert_eq!(VectorSpace::add(&empty, &empty), empty);
}

#[test]
fn rotator_states_add_and_scale() {
    let a = HyperionState { theta: fx(1.0), omega: fx(2.0) };
    let b = HyperionState { theta: fx(0.25), omega: fx(-2.0) };
    assert_eq!(a.add(&b), HyperionState { theta: fx(1.25), omega: fx(0.0) });
    assert_eq!(a.scale(fx(0.5)), HyperionState { theta: fx(0.5), omega: fx(1.0) });
}

#[test]
fn oscillator_derivatives() {
    let y = HyperionState { theta: fx(0.3), omega: fx(-0.7) };
    assert_eq!(
        CustomOscillator.derivatives(fx(0.0), &y),
        HyperionState { theta: fx(-0.7), omega: fx(-0.3) }
    );
    assert_eq!(
        SimpleHarmonicOscillator.derivatives(fx(0.0), &vec![fx(0.3), fx(-0.7)]),
        vec![fx(-0.7), fx(-0.3)]
    );
}

#[test]
fn every_step_of_the_oscillator_keeps_the_energy_within_a_hundred_millionth() {
    let mut solver = RungeKuttaSolver::new(
        Fixed { raw: 0 },
        HyperionState { theta: Fixed { raw: 1_000_000_000 }, omega: Fixed { raw: 0 } },
    );
    let dt = Fixed { raw: 10_000_000 };
    let tolerance: i128 = 10_000_000_000;
    let start: i128 = 1_000_000_000_000_000_000;
    let mut before = start;
    for k in 1..=2000_i128 {
        solver.step(&CustomOscillator, dt);
        let x = solver.state.theta.raw as i128;
        let v = solver.state.omega.raw as i128;
        let energy = x * x + v * v;
        assert!((energy - before).abs() <= tolerance, "step {}", k);
        assert!((energy - start).abs() <= k * tolerance, "step {}", k);
        before = energy;
    }
}
