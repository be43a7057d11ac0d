//! The energy of the harmonic oscillator under the integrator.
//!
//! One step of a hundredth of a second changes the energy `x * x + v * v` of
//! the oscillator by no more than rounding can: the scheme itself loses about
//! `dt^6 / 72` of it, far less than one unit of the last place of a state.
use crate::calculate::{CustomOscillator, HyperionState};
use crate::fixed::{div_toward_zero, lemma_exact_quotient, Fixed, SCALE};
use crate::solver2::{rk4_formula, rk4_next, OdeSystem, VectorSpace, HALF, SIX, TWO};
use vstd::prelude::*;

verus! {

/// The step of a hundredth of a second, in raw units.
pub const OSCILLATOR_STEP: i64 = 10_000_000;

/// Half the step, in raw units.
pub const HALF_STEP: i64 = 5_000_000;

/// Largest raw magnitude of either component of a state for which the law is
/// stated: one and a half.
pub const OSCILLATOR_REACH: i64 = 1_500_000_000;

/// Largest change of the energy in one step, in squared raw units: a
/// hundred-millionth.
pub const ENERGY_TOLERANCE: i64 = 10_000_000_000;

/// The energy `x * x + v * v` of a state, in squared raw units.
pub open spec fn energy(y: HyperionState) -> int {
    y.theta.raw * y.theta.raw + y.omega.raw * y.omega.raw
}

/// The state one step of a hundredth of a second after `y`.
pub open spec fn oscillator_step(t: Fixed, y: HyperionState) -> HyperionState {
    rk4_next::<HyperionState, CustomOscillator>(
        &CustomOscillator,
        t,
        y,
        Fixed { raw: OSCILLATOR_STEP },
    )
}

/// The state `steps` steps of a hundredth of a second after `y`, the first
/// taken at time `t`.
pub open spec fn oscillator_run(t: Fixed, y: HyperionState, steps: nat) -> HyperionState
    decreases steps,
{
    if steps == 0 {
        y
    } else {
        oscillator_run(
            t.add_spec(Fixed { raw: OSCILLATOR_STEP }),
            oscillator_step(t, y),
            (steps - 1) as nat,
        )
    }
}

/// The largest energy for which the law is stated: that of a state one and a
/// half from rest.
pub open spec fn energy_reach() -> int {
    OSCILLATOR_REACH * OSCILLATOR_REACH
}

/// Dividing `x * c` by `c * d` rounds `x / d` toward zero: the remainder has
/// the sign of `x` and is smaller than `d`.
proof fn lemma_truncation(x: int, c: int, d: int)
    requires
        c > 0,
        d > 0,
    ensures
        x >= 0 ==> 0 <= x - div_toward_zero(x * c, c * d) * d < d,
        x <= 0 ==> -d < x - div_toward_zero(x * c, c * d) * d <= 0,
{
    let n = c * d;
    assert(n > 0) by (nonlinear_arith)
        requires
            n == c * d,
            c > 0,
            d > 0,
    ;
    if x >= 0 {
        let p = x * c;
        let q = p / n;
        assert(p >= 0 && 0 <= x - q * d < d) by (nonlinear_arith)
            requires
                p == x * c,
                n == c * d,
                q == p / n,
                x >= 0,
                c > 0,
                d > 0,
                n > 0,
        ;
    } else {
        let p = (-x) * c;
        let q = p / n;
        assert(p > 0 && p == -(x * c) && 0 <= (-x) - q * d < d) by (nonlinear_arith)
            requires
                p == (-x) * c,
                n == c * d,
                q == p / n,
                x < 0,
                c > 0,
                d > 0,
                n > 0,
        ;
        assert((-q) * d == -(q * d)) by (nonlinear_arith);
    }
}

/// The product of a number of moderate size with a constant `c` that divides
/// one, rounded: `x / d` rounded toward zero, where `c * d` is one.
proof fn lemma_fraction(x: Fixed, c: Fixed, d: int)
    requires
        c.raw > 0,
        d > 0,
        c.raw * d == SCALE,
        x.raw > i64::MIN,
    ensures
        x.raw >= 0 ==> 0 <= x.raw - x.mul_spec(c).raw * d < d,
        x.raw <= 0 ==> -d < x.raw - x.mul_spec(c).raw * d <= 0,
{
    lemma_truncation(x.raw as int, c.raw as int, d);
    let q = div_toward_zero(x.raw * c.raw, SCALE as int);
    let r = x.raw as int;
    if r >= 0 {
        assert(0 <= q <= r) by (nonlinear_arith)
            requires
                d >= 1,
                r >= 0,
                0 <= r - q * d < d,
        ;
    } else {
        assert(r <= q <= 0) by (nonlinear_arith)
            requires
                d >= 1,
                r < 0,
                -d < r - q * d <= 0,
        ;
    }
}

/// Twice a number of moderate size, as the product with two.
proof fn lemma_twice(x: Fixed)
    requires
        -4 * SCALE <= x.raw <= 4 * SCALE,
    ensures
        x.mul_spec(Fixed { raw: TWO }).raw == 2 * x.raw,
{
    assert(x.raw * TWO == SCALE * (2 * x.raw)) by (nonlinear_arith)
        requires
            TWO == 2_000_000_000,
            SCALE == 1_000_000_000,
    ;
    lemma_exact_quotient(SCALE as int, 2 * x.raw);
}

/// The slope at a state displaced from `y` by `step` times the slope `k`,
/// where `step` is one `d`-th: `(v + k.v / d, -(x + k.x / d))`, each quotient
/// rounded toward zero.
proof fn lemma_stage(y: HyperionState, k: HyperionState, step: Fixed, d: int, t: Fixed)
    requires
        -2 * SCALE <= y.theta.raw <= 2 * SCALE,
        -2 * SCALE <= y.omega.raw <= 2 * SCALE,
        -2 * SCALE <= k.theta.raw <= 2 * SCALE,
        -2 * SCALE <= k.omega.raw <= 2 * SCALE,
        step.raw > 0,
        d >= 100,
        step.raw * d == SCALE,
    ensures
        ({
            let next = stage(t, y, k, step);
            let r1 = d * (next.theta.raw - y.omega.raw) - k.omega.raw;
            let r2 = d * (-next.omega.raw - y.theta.raw) - k.theta.raw;
            &&& -d < r1 < d
            &&& -d < r2 < d
        }),
{
    reveal(stage);
    lemma_fraction(k.theta, step, d);
    lemma_fraction(k.omega, step, d);
    let a = k.theta.mul_spec(step).raw as int;
    let b = k.omega.mul_spec(step).raw as int;
    assert(-2 * SCALE <= a <= 2 * SCALE && -2 * SCALE <= b <= 2 * SCALE) by (nonlinear_arith)
        requires
            d >= 100,
            -d < k.theta.raw - a * d < d,
            -d < k.omega.raw - b * d < d,
            -2 * SCALE <= k.theta.raw <= 2 * SCALE,
            -2 * SCALE <= k.omega.raw <= 2 * SCALE,
            SCALE == 1_000_000_000,
    ;
    let next = stage(t, y, k, step);
    assert(next.theta.raw == y.omega.raw + b);
    assert(next.omega.raw == -(y.theta.raw + a));
    assert(d * (next.theta.raw - y.omega.raw) == b * d) by (nonlinear_arith)
        requires
            next.theta.raw - y.omega.raw == b,
    ;
    assert(d * (-next.omega.raw - y.theta.raw) == a * d) by (nonlinear_arith)
        requires
            -next.omega.raw - y.theta.raw == a,
    ;
}

/// The slope at the state displaced from `y` by `step` times the slope `k`.
#[verifier::opaque]
pub open spec fn stage(t: Fixed, y: HyperionState, k: HyperionState, step: Fixed) -> HyperionState {
    CustomOscillator.derivatives_spec(
        t,
        HyperionState::add_spec(y, HyperionState::scale_spec(k, step)),
    )
}

/// The four slopes of a step weighted one, two, two, one and added.
#[verifier::opaque]
pub open spec fn weighted_sum(
    k1: HyperionState,
    k2: HyperionState,
    k3: HyperionState,
    k4: HyperionState,
) -> HyperionState {
    let two = Fixed { raw: TWO };
    HyperionState::add_spec(
        HyperionState::add_spec(
            HyperionState::add_spec(k1, HyperionState::scale_spec(k2, two)),
            HyperionState::scale_spec(k3, two),
        ),
        k4,
    )
}

/// The weighted sum of the four slopes of a step of a hundredth of a second.
pub open spec fn slope_total(t: Fixed, y: HyperionState) -> HyperionState {
    let dt = Fixed { raw: OSCILLATOR_STEP };
    let half = Fixed { raw: HALF_STEP };
    let k1 = CustomOscillator.derivatives_spec(t, y);
    let k2 = stage(t.add_spec(half), y, k1, half);
    let k3 = stage(t.add_spec(half), y, k2, half);
    let k4 = stage(t.add_spec(dt), y, k3, dt);
    weighted_sum(k1, k2, k3, k4)
}

/// Slopes of moderate size are weighted and added without clamping.
proof fn lemma_weighted_sum(
    k1: HyperionState,
    k2: HyperionState,
    k3: HyperionState,
    k4: HyperionState,
)
    requires
        -2 * SCALE <= k1.theta.raw <= 2 * SCALE,
        -2 * SCALE <= k1.omega.raw <= 2 * SCALE,
        -2 * SCALE <= k2.theta.raw <= 2 * SCALE,
        -2 * SCALE <= k2.omega.raw <= 2 * SCALE,
        -2 * SCALE <= k3.theta.raw <= 2 * SCALE,
        -2 * SCALE <= k3.omega.raw <= 2 * SCALE,
        -2 * SCALE <= k4.theta.raw <= 2 * SCALE,
        -2 * SCALE <= k4.omega.raw <= 2 * SCALE,
    ensures
        weighted_sum(k1, k2, k3, k4).theta.raw == k1.theta.raw + 2 * k2.theta.raw + 2
            * k3.theta.raw + k4.theta.raw,
        weighted_sum(k1, k2, k3, k4).omega.raw == k1.omega.raw + 2 * k2.omega.raw + 2
            * k3.omega.raw + k4.omega.raw,
{
    reveal(weighted_sum);
    lemma_twice(k2.theta);
    lemma_twice(k2.omega);
    lemma_twice(k3.theta);
    lemma_twice(k3.omega);
}

/// A step adds a six-hundredth of the sum of the slopes to the state.
proof fn lemma_step_unfolded(t: Fixed, y: HyperionState)
    ensures
        oscillator_step(t, y) == HyperionState::add_spec(
            y,
            HyperionState::scale_ratio_spec(
                slope_total(t, y),
                Fixed { raw: OSCILLATOR_STEP },
                Fixed { raw: SIX },
            ),
        ),
{
    reveal(rk4_formula);
    let half = Fixed { raw: HALF }.mul_spec(Fixed { raw: OSCILLATOR_STEP });
    assert(half.raw == 5_000_000) by {
        assert(HALF * OSCILLATOR_STEP == SCALE * 5_000_000) by (nonlinear_arith)
            requires
                HALF == 500_000_000,
                OSCILLATOR_STEP == 10_000_000,
                SCALE == 1_000_000_000,
        ;
        lemma_exact_quotient(SCALE as int, 5_000_000);
    }
    assert(half == Fixed { raw: HALF_STEP });
    reveal(stage);
    reveal(weighted_sum);
}

/// The sum of the slopes of a step, times four million, is
/// `(23 999 600 v - 119 999 x, -23 999 600 x - 119 999 v)` within 90 000 000.
proof fn lemma_slope_total(t: Fixed, y: HyperionState)
    requires
        -OSCILLATOR_REACH <= y.theta.raw <= OSCILLATOR_REACH,
        -OSCILLATOR_REACH <= y.omega.raw <= OSCILLATOR_REACH,
    ensures
        ({
            let total = slope_total(t, y);
            let u = y.theta.raw as int;
            let w = y.omega.raw as int;
            let e1 = 4_000_000 * total.theta.raw - (23_999_600 * w - 119_999 * u);
            let e2 = 4_000_000 * total.omega.raw - (-23_999_600 * u - 119_999 * w);
            &&& -90_000_000 <= e1 <= 90_000_000
            &&& -90_000_000 <= e2 <= 90_000_000
            &&& -10 * SCALE <= total.theta.raw <= 10 * SCALE
            &&& -10 * SCALE <= total.omega.raw <= 10 * SCALE
        }),
{
    let u = y.theta.raw as int;
    let w = y.omega.raw as int;
    let dt = Fixed { raw: OSCILLATOR_STEP };
    let half = Fixed { raw: HALF_STEP };
    let k1 = CustomOscillator.derivatives_spec(t, y);
    assert(k1.theta.raw == w && k1.omega.raw == -u);
    let k2 = stage(t.add_spec(half), y, k1, half);
    lemma_stage(y, k1, half, 200, t.add_spec(half));
    let k3 = stage(t.add_spec(half), y, k2, half);
    lemma_stage(y, k2, half, 200, t.add_spec(half));
    let k4 = stage(t.add_spec(dt), y, k3, dt);
    lemma_stage(y, k3, dt, 100, t.add_spec(dt));
    lemma_weighted_sum(k1, k2, k3, k4);
}

/// One step moves each component by what the series of sine and cosine give
/// up to the fourth power of the step, within rounding: scaled by
/// 2 400 000 000, the change of `x` is `23 999 600 v - 119 999 x` and that of
/// `v` is `-23 999 600 x - 119 999 v`, each within 2 500 000 000.
pub proof fn lemma_step_increments(t: Fixed, y: HyperionState)
    requires
        -OSCILLATOR_REACH <= y.theta.raw <= OSCILLATOR_REACH,
        -OSCILLATOR_REACH <= y.omega.raw <= OSCILLATOR_REACH,
    ensures
        ({
            let next = oscillator_step(t, y);
            let u = y.theta.raw as int;
            let w = y.omega.raw as int;
            let e1 = 2_400_000_000 * (next.theta.raw - u) - (23_999_600 * w - 119_999 * u);
            let e2 = 2_400_000_000 * (next.omega.raw - w) - (-23_999_600 * u - 119_999 * w);
            &&& -2_500_000_000 <= e1 <= 2_500_000_000
            &&& -2_500_000_000 <= e2 <= 2_500_000_000
        }),
{
    lemma_step_unfolded(t, y);
    lemma_slope_total(t, y);
    let total = slope_total(t, y);
    lemma_truncation(total.theta.raw as int, OSCILLATOR_STEP as int, 600);
    lemma_truncation(total.omega.raw as int, OSCILLATOR_STEP as int, 600);
    assert(OSCILLATOR_STEP * 600 == SIX);
    let gain = HyperionState::scale_ratio_spec(
        total,
        Fixed { raw: OSCILLATOR_STEP },
        Fixed { raw: SIX },
    );
    assert(-600 < total.theta.raw - gain.theta.raw * 600 < 600);
    assert(-600 < total.omega.raw - gain.omega.raw * 600 < 600);
}

/// The product of two numbers bounded in magnitude is bounded in magnitude.
proof fn lemma_product_bound(a: int, b: int, ma: int, mb: int)
    requires
        -ma <= a <= ma,
        -mb <= b <= mb,
    ensures
        -(ma * mb) <= a * b <= ma * mb,
{
    assert(-(ma * mb) <= a * b <= ma * mb) by (nonlinear_arith)
        requires
            -ma <= a <= ma,
            -mb <= b <= mb,
    ;
}

/// The change of `x * x + v * v` when `x` grows by `a` and `v` by `b`, where
/// `n * a` is `p + e1` and `n * b` is `q + e2` for the increments `p` and `q`
/// of the scheme: the scheme's own loss, and what the remainders add.
proof fn lemma_energy_identity(u: int, w: int, a: int, b: int, e1: int, e2: int)
    requires
        e1 == 2_400_000_000 * a - (23_999_600 * w - 119_999 * u),
        e2 == 2_400_000_000 * b - (-23_999_600 * u - 119_999 * w),
    ensures
        5_760_000_000_000_000_000 * ((u + a) * (u + a) + (w + b) * (w + b) - u * u - w * w)
            == -79_999 * (u * u + w * w) + 4_800_000_000 * (u * e1 + w * e2) + 2 * ((23_999_600
            * w - 119_999 * u) * e1 + (-23_999_600 * u - 119_999 * w) * e2) + e1 * e1 + e2 * e2,
{
    let n: int = 2_400_000_000;
    let p = 23_999_600 * w - 119_999 * u;
    let q = -23_999_600 * u - 119_999 * w;
    let na = n * a;
    let nb = n * b;
    assert(na == p + e1 && nb == q + e2);
    assert(na * na == p * p + 2 * (p * e1) + e1 * e1) by (nonlinear_arith)
        requires
            na == p + e1,
    ;
    assert(nb * nb == q * q + 2 * (q * e2) + e2 * e2) by (nonlinear_arith)
        requires
            nb == q + e2,
    ;
    assert(u * na == u * p + u * e1) by (nonlinear_arith)
        requires
            na == p + e1,
    ;
    assert(w * nb == w * q + w * e2) by (nonlinear_arith)
        requires
            nb == q + e2,
    ;
    assert(4_800_000_000 * (u * p + w * q) + p * p + q * q == -79_999 * (u * u + w * w))
        by (nonlinear_arith)
        requires
            p == 23_999_600 * w - 119_999 * u,
            q == -23_999_600 * u - 119_999 * w,
    ;
    assert(5_760_000_000_000_000_000 * ((u + a) * (u + a) + (w + b) * (w + b) - u * u - w * w)
        == 4_800_000_000 * (u * na + w * nb) + na * na + nb * nb) by (nonlinear_arith)
        requires
            na == 2_400_000_000 * a,
            nb == 2_400_000_000 * b,
    ;
}

/// One step of a hundredth of a second changes the energy of a state with
/// components of magnitude at most one and a half by at most a
/// hundred-millionth: the rounding of the state, which outweighs by far the
/// error of the scheme, of the order of the sixth power of the step.
pub proof fn lemma_energy_step(t: Fixed, y: HyperionState)
    requires
        -OSCILLATOR_REACH <= y.theta.raw <= OSCILLATOR_REACH,
        -OSCILLATOR_REACH <= y.omega.raw <= OSCILLATOR_REACH,
    ensures
        -ENERGY_TOLERANCE <= energy(oscillator_step(t, y)) - energy(y) <= ENERGY_TOLERANCE,
{
    lemma_step_increments(t, y);
    let next = oscillator_step(t, y);
    let u = y.theta.raw as int;
    let w = y.omega.raw as int;
    let a = next.theta.raw - u;
    let b = next.omega.raw - w;
    let p = 23_999_600 * w - 119_999 * u;
    let q = -23_999_600 * u - 119_999 * w;
    let e1 = 2_400_000_000 * a - p;
    let e2 = 2_400_000_000 * b - q;
    lemma_energy_identity(u, w, a, b, e1, e2);
    let reach: int = 1_500_000_000;
    let slack: int = 2_500_000_000;
    let span: int = 36_179_398_500_000_000;
    lemma_product_bound(u, u, reach, reach);
    lemma_product_bound(w, w, reach, reach);
    lemma_product_bound(u, e1, reach, slack);
    lemma_product_bound(w, e2, reach, slack);
    lemma_product_bound(p, e1, span, slack);
    lemma_product_bound(q, e2, span, slack);
    lemma_product_bound(e1, e1, slack, slack);
    lemma_product_bound(e2, e2, slack, slack);
    assert(u * u >= 0 && w * w >= 0) by (nonlinear_arith);
    assert(reach * reach == 2_250_000_000_000_000_000 && reach * slack
        == 3_750_000_000_000_000_000 && span * slack == 90_448_496_250_000_000_000_000_000
        && slack * slack == 6_250_000_000_000_000_000) by (nonlinear_arith)
        requires
            reach == 1_500_000_000,
            slack == 2_500_000_000,
            span == 36_179_398_500_000_000,
    ;
    let change = energy(next) - energy(y);
    assert(change == (u + a) * (u + a) + (w + b) * (w + b) - u * u - w * w);
}

/// A state whose energy is within reach has both components within reach.
proof fn lemma_components_within_reach(y: HyperionState)
    requires
        energy(y) <= energy_reach(),
    ensures
        -OSCILLATOR_REACH <= y.theta.raw <= OSCILLATOR_REACH,
        -OSCILLATOR_REACH <= y.omega.raw <= OSCILLATOR_REACH,
{
    let u = y.theta.raw as int;
    let w = y.omega.raw as int;
    let r = OSCILLATOR_REACH as int;
    assert(-r <= u <= r && -r <= w <= r) by (nonlinear_arith)
        requires
            u * u + w * w <= r * r,
            r >= 0,
    ;
}

/// Over any number of steps of a hundredth of a second the energy of the
/// oscillator drifts by at most a hundred-millionth per step, as long as that
/// keeps it within reach. Started at `x = 1, v = 0`, this covers more than a
/// hundred million steps.
pub proof fn lemma_energy_drift(t: Fixed, y: HyperionState, steps: nat)
    requires
        energy(y) + steps * ENERGY_TOLERANCE <= energy_reach(),
    ensures
        -(steps * ENERGY_TOLERANCE) <= energy(oscillator_run(t, y, steps)) - energy(y) <= steps
            * ENERGY_TOLERANCE,
    decreases steps,
{
    if steps > 0 {
        assert(steps * ENERGY_TOLERANCE == (steps - 1) * ENERGY_TOLERANCE + ENERGY_TOLERANCE)
            by (nonlinear_arith);
        assert((steps - 1) * ENERGY_TOLERANCE >= 0) by (nonlinear_arith)
            requires
                steps >= 1,
                ENERGY_TOLERANCE > 0,
        ;
        lemma_components_within_reach(y);
        lemma_energy_step(t, y);
        lemma_energy_drift(
            t.add_spec(Fixed { raw: OSCILLATOR_STEP }),
            oscillator_step(t, y),
            (steps - 1) as nat,
        );
    } else {
        assert(steps * ENERGY_TOLERANCE == 0) by (nonlinear_arith)
            requires
                steps == 0,
        ;
    }
}

/// Started at `x = 1, v = 0`, where the energy is one, the oscillator keeps
/// its energy within a hundred-millionth for every step taken, over a
/// hundred million steps.
pub proof fn lemma_energy_from_unit_start(t: Fixed, steps: nat)
    requires
        steps <= 100_000_000,
    ensures
        ({
            let start = HyperionState { theta: Fixed { raw: SCALE }, omega: Fixed { raw: 0 } };
            let drift = energy(oscillator_run(t, start, steps)) - SCALE * SCALE;
            -(steps * ENERGY_TOLERANCE) <= drift <= steps * ENERGY_TOLERANCE
        }),
{
    let start = HyperionState { theta: Fixed { raw: SCALE }, omega: Fixed { raw: 0 } };
    assert(energy(start) == SCALE * SCALE);
    assert(SCALE * SCALE + steps * ENERGY_TOLERANCE <= OSCILLATOR_REACH * OSCILLATOR_REACH)
        by (nonlinear_arith)
        requires
            steps <= 100_000_000,
            SCALE == 1_000_000_000,
            ENERGY_TOLERANCE == 10_000_000_000,
            OSCILLATOR_REACH == 1_500_000_000,
    ;
    lemma_energy_drift(t, start, steps);
}

} // verus!
