//! Which way the forces of the water point: the drag against the motion, the
//! lift never downward, and the whole force on a stone that moves straight
//! up or down against its motion.
use crate::basic_structs::Vector2D;
use crate::fixed::{
    div_toward_zero, lemma_magnitude_mul, lemma_mul_sign, magnitude, Fixed, RAW_MAX, SCALE,
};
use crate::norm_laws::lemma_normalized_is_unit;
use crate::physics::derivative::{
    direction_of_lift, direction_of_motion, opposes, LINEAR_DAMPING, PERIMETER_FACTOR,
    QUADRATIC_DAMPING, SUBMERGED_EPSILON, TENSION, WAVE_DAMPING,
};
use crate::physics::parameters::{SettingsModel, WATER_DENSITY};
use crate::physics::simulation::StoneInfo;
use crate::solver2::HALF;
use vstd::prelude::*;

verus! {

/// Vertical speed above which the force of the water on a stone that moves
/// straight up or down is known not to vanish: a millimeter per second.
pub const SLOW_SPEED: i64 = 1_000_000;

/// The sum of two numbers that oppose a third opposes it.
proof fn lemma_sum_opposes(a: Fixed, b: Fixed, v: Fixed)
    requires
        opposes(a, v),
        opposes(b, v),
    ensures
        opposes(a.add_spec(b), v),
        v.raw > 0 && a.raw < 0 ==> a.add_spec(b).raw < 0,
        v.raw < 0 && a.raw > 0 ==> a.add_spec(b).raw > 0,
        v.raw > 0 && b.raw < 0 ==> a.add_spec(b).raw < 0,
        v.raw < 0 && b.raw > 0 ==> a.add_spec(b).raw > 0,
{
}

/// The magnitude of a product is at least the product of lower bounds of the
/// magnitudes of its factors, rounded down, where that fits the range.
proof fn lemma_product_at_least(a: Fixed, b: Fixed, la: int, lb: int)
    requires
        0 <= la <= magnitude(a.raw as int),
        0 <= lb <= magnitude(b.raw as int),
        (la * lb) / (SCALE as int) <= RAW_MAX,
    ensures
        magnitude(a.mul_spec(b).raw as int) >= (la * lb) / (SCALE as int),
{
    let n = a.raw * b.raw;
    lemma_magnitude_mul(a.raw as int, b.raw as int);
    let m = magnitude(n);
    assert(la * lb <= m) by (nonlinear_arith)
        requires
            0 <= la <= magnitude(a.raw as int),
            0 <= lb <= magnitude(b.raw as int),
            m == magnitude(a.raw as int) * magnitude(b.raw as int),
    ;
    let low = la * lb;
    assert(low / (SCALE as int) <= m / (SCALE as int)) by (nonlinear_arith)
        requires
            0 <= low <= m,
            SCALE > 0,
    ;
    assert(magnitude(div_toward_zero(n, SCALE as int)) == m / (SCALE as int));
}

/// The vertical parts of the six forces of the water on a stone that moves
/// straight up or down, each of which opposes the motion.
proof fn lemma_vertical_terms(settings: SettingsModel, velocity: Vector2D, sim: Fixed)
    requires
        sim.raw > SUBMERGED_EPSILON,
        settings.rho.raw >= 0,
        settings.Cf.raw >= 0,
        settings.Cl.raw >= 0,
        velocity.x.raw == 0,
    ensures
        opposes(settings.drag(velocity, sim).y, velocity.y),
        settings.lift(velocity, sim).y.raw == 0,
        opposes(settings.vertical_damping(velocity, sim).y, velocity.y),
        opposes(settings.suction(velocity, sim).y, velocity.y),
        opposes(settings.wave_radiation(velocity, sim).y, velocity.y),
        settings.horizontal_resistance(velocity, sim).y.raw == 0,
        settings.half_rho_area(sim).raw >= 0,
{
    let vy = velocity.y;
    let zero = Fixed { raw: 0 };
    let half = Fixed { raw: HALF };
    // The factor common to the pressure forces is not negative.
    lemma_mul_sign(half, settings.rho);
    lemma_mul_sign(half.mul_spec(settings.rho), sim);
    let hra = settings.half_rho_area(sim);
    // The direction of motion is vertical and has the sign of the velocity.
    let dir = direction_of_motion(velocity);
    if velocity.length_spec().raw > 0 {
        lemma_normalized_is_unit(velocity);
        assert(velocity.x.raw * crate::norm_laws::unit_factor(velocity.norm_squared_spec()) == 0)
            by (nonlinear_arith)
            requires
                velocity.x.raw == 0,
        ;
    }
    assert(dir.x.raw == 0);
    assert(vy.raw >= 0 ==> dir.y.raw >= 0);
    assert(vy.raw <= 0 ==> dir.y.raw <= 0);
    // Drag.
    let squared = velocity.length_squared_spec();
    lemma_mul_sign(velocity.x, velocity.x);
    lemma_mul_sign(vy, vy);
    lemma_mul_sign(hra, settings.Cf);
    lemma_mul_sign(hra.mul_spec(settings.Cf), squared);
    let drag_size = hra.mul_spec(settings.Cf).mul_spec(squared);
    lemma_mul_sign(dir.y, drag_size.neg_spec());
    // Lift.
    let turned = direction_of_lift(dir);
    assert(turned.y.raw == 0) by {
        lemma_mul_sign(dir.x, Fixed::of(-SCALE));
    }
    lemma_mul_sign(turned.y, hra.mul_spec(settings.Cl).mul_spec(squared));
    // Vertical damping.
    let quadratic = Fixed { raw: QUADRATIC_DAMPING }.mul_spec(vy.abs_spec());
    lemma_mul_sign(Fixed { raw: QUADRATIC_DAMPING }, vy.abs_spec());
    let blend = quadratic.add_spec(Fixed { raw: LINEAR_DAMPING });
    lemma_mul_sign(hra, blend);
    lemma_mul_sign(hra.mul_spec(blend).neg_spec(), vy);
    // Suction.
    let perimeter = sim.sqrt_spec().mul_spec(Fixed { raw: PERIMETER_FACTOR });
    crate::fixed::lemma_sqrt_brackets(sim);
    lemma_mul_sign(sim.sqrt_spec(), Fixed { raw: PERIMETER_FACTOR });
    lemma_mul_sign(Fixed::of(-TENSION), perimeter);
    // Wave radiation.
    lemma_mul_sign(Fixed::of(-WAVE_DAMPING), sim);
    lemma_mul_sign(Fixed::of(-WAVE_DAMPING).mul_spec(sim), vy);
}

/// The vertical force of the water on a stone that moves straight up or down
/// opposes its motion: it is not upward while the stone rises and not
/// downward while it falls, for a density and coefficients of drag and lift
/// that are not negative.
pub proof fn lemma_vertical_force_opposes_motion(
    settings: SettingsModel,
    stone: StoneInfo,
    sim: Fixed,
)
    requires
        sim.raw > SUBMERGED_EPSILON,
        settings.rho.raw >= 0,
        settings.Cf.raw >= 0,
        settings.Cl.raw >= 0,
        stone.velocity.x.raw == 0,
    ensures
        opposes(settings.hydro_force(stone, sim).y, stone.velocity.y),
{
    let v = stone.velocity;
    let vy = v.y;
    lemma_vertical_terms(settings, v, sim);
    let drag = settings.drag(v, sim).y;
    let lift = settings.lift(v, sim).y;
    let damping = settings.vertical_damping(v, sim).y;
    let suction = settings.suction(v, sim).y;
    let wave = settings.wave_radiation(v, sim).y;
    let resistance = settings.horizontal_resistance(v, sim).y;
    lemma_sum_opposes(drag, lift, vy);
    lemma_sum_opposes(drag.add_spec(lift), damping, vy);
    lemma_sum_opposes(drag.add_spec(lift).add_spec(damping), suction, vy);
    lemma_sum_opposes(drag.add_spec(lift).add_spec(damping).add_spec(suction), wave, vy);
    lemma_sum_opposes(
        drag.add_spec(lift).add_spec(damping).add_spec(suction).add_spec(wave),
        resistance,
        vy,
    );
}

/// The vertical damping of water at least as dense as `WATER_DENSITY` on a
/// stone that moves faster than `SLOW_SPEED` up or down does not vanish.
proof fn lemma_damping_does_not_vanish(settings: SettingsModel, velocity: Vector2D, sim: Fixed)
    requires
        sim.raw > SUBMERGED_EPSILON,
        settings.rho.raw >= WATER_DENSITY,
        magnitude(velocity.y.raw as int) > SLOW_SPEED,
    ensures
        settings.vertical_damping(velocity, sim).y.raw != 0,
{
    let vy = velocity.y;
    let half = Fixed { raw: HALF };
    let half_rho = half.mul_spec(settings.rho);
    lemma_product_at_least(half, settings.rho, 500_000_000, 1_000_000_000_000);
    lemma_mul_sign(half, settings.rho);
    let hra = half_rho.mul_spec(sim);
    lemma_product_at_least(half_rho, sim, 500_000_000_000, 2);
    lemma_mul_sign(half_rho, sim);
    let quadratic = Fixed { raw: QUADRATIC_DAMPING }.mul_spec(vy.abs_spec());
    lemma_mul_sign(Fixed { raw: QUADRATIC_DAMPING }, vy.abs_spec());
    let blend = quadratic.add_spec(Fixed { raw: LINEAR_DAMPING });
    assert(blend.raw >= LINEAR_DAMPING);
    let damp = hra.mul_spec(blend);
    lemma_product_at_least(hra, blend, 1_000, 10_000_000_000);
    lemma_mul_sign(hra, blend);
    assert(damp.raw >= 10_000);
    lemma_product_at_least(damp.neg_spec(), vy, 10_000, 1_000_000);
}

/// The vertical force of water at least as dense as `WATER_DENSITY` on a
/// stone that moves straight up or down faster than `SLOW_SPEED` acts against
/// the motion and does not vanish: it is downward while the stone rises and
/// upward while it falls.
pub proof fn lemma_vertical_force_acts_against_motion(
    settings: SettingsModel,
    stone: StoneInfo,
    sim: Fixed,
)
    requires
        sim.raw > SUBMERGED_EPSILON,
        settings.rho.raw >= WATER_DENSITY,
        settings.Cf.raw >= 0,
        settings.Cl.raw >= 0,
        stone.velocity.x.raw == 0,
    ensures
        stone.velocity.y.raw > SLOW_SPEED ==> settings.hydro_force(stone, sim).y.raw < 0,
        stone.velocity.y.raw < -SLOW_SPEED ==> settings.hydro_force(stone, sim).y.raw > 0,
{
    let v = stone.velocity;
    let vy = v.y;
    lemma_vertical_terms(settings, v, sim);
    if magnitude(vy.raw as int) > SLOW_SPEED {
        lemma_damping_does_not_vanish(settings, v, sim);
    }
    let drag = settings.drag(v, sim).y;
    let lift = settings.lift(v, sim).y;
    let damping = settings.vertical_damping(v, sim).y;
    let suction = settings.suction(v, sim).y;
    let wave = settings.wave_radiation(v, sim).y;
    let resistance = settings.horizontal_resistance(v, sim).y;
    lemma_sum_opposes(drag, lift, vy);
    lemma_sum_opposes(drag.add_spec(lift), damping, vy);
    lemma_sum_opposes(drag.add_spec(lift).add_spec(damping), suction, vy);
    lemma_sum_opposes(drag.add_spec(lift).add_spec(damping).add_spec(suction), wave, vy);
    lemma_sum_opposes(
        drag.add_spec(lift).add_spec(damping).add_spec(suction).add_spec(wave),
        resistance,
        vy,
    );
}

/// The direction of motion has, component by component, the sign of the
/// velocity, or is zero.
proof fn lemma_direction_follows_velocity(velocity: Vector2D)
    ensures
        ({
            let dir = direction_of_motion(velocity);
            &&& velocity.x.raw >= 0 ==> dir.x.raw >= 0
            &&& velocity.x.raw <= 0 ==> dir.x.raw <= 0
            &&& velocity.y.raw >= 0 ==> dir.y.raw >= 0
            &&& velocity.y.raw <= 0 ==> dir.y.raw <= 0
        }),
{
    if velocity.length_spec().raw > 0 {
        lemma_normalized_is_unit(velocity);
    }
}

/// The common factor of drag and lift, `0.5 * rho * sim * coefficient * |v|^2`,
/// is not negative, for a density, an area and a coefficient that are not
/// negative.
proof fn lemma_pressure_not_negative(
    settings: SettingsModel,
    coefficient: Fixed,
    velocity: Vector2D,
    sim: Fixed,
)
    requires
        sim.raw >= 0,
        settings.rho.raw >= 0,
        coefficient.raw >= 0,
    ensures
        settings.half_rho_area(sim).mul_spec(coefficient).mul_spec(
            velocity.length_squared_spec(),
        ).raw >= 0,
{
    let half = Fixed { raw: HALF };
    lemma_mul_sign(half, settings.rho);
    lemma_mul_sign(half.mul_spec(settings.rho), sim);
    let hra = settings.half_rho_area(sim);
    lemma_mul_sign(velocity.x, velocity.x);
    lemma_mul_sign(velocity.y, velocity.y);
    lemma_mul_sign(hra, coefficient);
    lemma_mul_sign(hra.mul_spec(coefficient), velocity.length_squared_spec());
}

/// The drag opposes the motion: neither of its components has the sign of
/// that component of the velocity.
pub proof fn lemma_drag_opposes_motion(settings: SettingsModel, velocity: Vector2D, sim: Fixed)
    requires
        sim.raw >= 0,
        settings.rho.raw >= 0,
        settings.Cf.raw >= 0,
    ensures
        opposes(settings.drag(velocity, sim).x, velocity.x),
        opposes(settings.drag(velocity, sim).y, velocity.y),
{
    lemma_direction_follows_velocity(velocity);
    lemma_pressure_not_negative(settings, settings.Cf, velocity, sim);
    let dir = direction_of_motion(velocity);
    let size = settings.half_rho_area(sim).mul_spec(settings.Cf).mul_spec(
        velocity.length_squared_spec(),
    );
    lemma_mul_sign(dir.x, size.neg_spec());
    lemma_mul_sign(dir.y, size.neg_spec());
}

/// The lift never points downward.
pub proof fn lemma_lift_not_downward(settings: SettingsModel, velocity: Vector2D, sim: Fixed)
    requires
        sim.raw >= 0,
        settings.rho.raw >= 0,
        settings.Cl.raw >= 0,
    ensures
        settings.lift(velocity, sim).y.raw >= 0,
{
    lemma_pressure_not_negative(settings, settings.Cl, velocity, sim);
    let dir = direction_of_motion(velocity);
    let size = settings.half_rho_area(sim).mul_spec(settings.Cl).mul_spec(
        velocity.length_squared_spec(),
    );
    let turned = direction_of_lift(dir);
    lemma_mul_sign(dir.x, Fixed::of(-SCALE));
    assert(turned.y.raw >= 0);
    lemma_mul_sign(turned.y, size);
}

} // verus!
