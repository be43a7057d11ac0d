//! The time derivative of the stone's state in each phase.
//!
//! In flight only gravity acts. In contact with the water the submerged part
//! of the outline is computed afresh for the very state the derivative is
//! asked for, and drag, lift, damping, suction and wave radiation act on it.
//! A sinking stone is braked to rest. Every quotient and every direction is
//! guarded against a vanishing area or speed, the lever arm of the torque and
//! the pitch acceleration are limited.
use crate::basic_structs::Vector2D;
use crate::fixed::{in_range, lemma_div_sign, lemma_mul_sign, Fixed, SCALE};
use crate::geometry::{
    clip_polygon_below_line, polygon_area, polygon_area_spec, pressure_center,
    pressure_center_spec,
};
use crate::physics::parameters::{CustomSettings, Phase, SettingsModel};
use crate::physics::simulation::StoneInfo;
use crate::solver2::{OdeSystem, HALF};
use vstd::prelude::*;

verus! {

/// Submerged area up to which the water exerts no force, in raw units.
pub const SUBMERGED_EPSILON: i64 = 1;

/// Squared speed up to which the stone counts as at rest, in raw units.
pub const SPEED_SQUARED_EPSILON: i64 = 1;

/// Speed up to which the stone has no direction of motion, in raw units.
pub const SPEED_EPSILON: i64 = 1_000;

/// Moment of inertia up to which `FALLBACK_INERTIA` is used instead, in raw units.
pub const INERTIA_EPSILON: i64 = 1;

/// Coefficient of the part of the vertical damping that grows with the vertical speed.
pub const QUADRATIC_DAMPING: i64 = 20_000_000_000;

/// Coefficient of the part of the vertical damping that is there at any speed.
pub const LINEAR_DAMPING: i64 = 10_000_000_000;

/// Suction per meter of wetted perimeter, in newtons.
pub const TENSION: i64 = 8_000_000_000;

/// Ratio of the wetted perimeter to the square root of the submerged area.
pub const PERIMETER_FACTOR: i64 = 4_000_000_000;

/// Coefficient of the damping by radiated waves.
pub const WAVE_DAMPING: i64 = 15_000_000_000;

/// Coefficient of the horizontal resistance.
pub const HORIZONTAL_RESISTANCE: i64 = 2_000_000_000;

/// Thickness of the layer of water that is taken along, in meters.
pub const ADDED_MASS_THICKNESS: i64 = 20_000_000;

/// Coefficient of the added mass.
pub const ADDED_MASS_COEFFICIENT: i64 = 5_000_000_000;

/// Longest lever arm of the hydrodynamic force, in meters.
pub const MAX_ARM: i64 = 200_000_000;

/// Coefficient of the pitch damping.
pub const PITCH_DAMPING: i64 = 5_000_000_000;

/// Moment of inertia used for a stone that has none, in kilogram square meters.
pub const FALLBACK_INERTIA: i64 = 100_000_000;

/// Largest magnitude of the pitch acceleration, in radians per second squared.
pub const MAX_PITCH_ACCELERATION: i64 = 500_000_000_000;

/// Rate at which a sinking stone loses its velocity and its spin, per second.
pub const SINK_BRAKING: i64 = 10_000_000_000;

/// Whether `change` does not push `value` away from zero: the two are of
/// opposite sign, or one of them is zero.
pub open spec fn opposes(change: Fixed, value: Fixed) -> bool {
    (value.raw >= 0 ==> change.raw <= 0) && (value.raw <= 0 ==> change.raw >= 0)
}

/// The vector `(0, 0)`.
pub open spec fn zero_vector() -> Vector2D {
    Vector2D { x: Fixed { raw: 0 }, y: Fixed { raw: 0 } }
}

/// Speed of a stone with the given squared speed; zero up to `SPEED_SQUARED_EPSILON`.
pub open spec fn guarded_speed(speed_sq: Fixed) -> Fixed {
    if speed_sq.raw > SPEED_SQUARED_EPSILON {
        speed_sq.sqrt_spec()
    } else {
        Fixed { raw: 0 }
    }
}

/// Direction of motion: the velocity normalized to length one, and `(0, 0)`
/// for a speed up to `SPEED_EPSILON`.
pub open spec fn direction_of_motion(velocity: Vector2D) -> Vector2D {
    let speed = guarded_speed(velocity.length_squared_spec());
    if speed.raw > SPEED_EPSILON {
        velocity.normalize_spec()
    } else {
        zero_vector()
    }
}

/// Direction of the lift: the direction of motion turned by a quarter turn,
/// whichever way points upward.
pub open spec fn direction_of_lift(dir_v: Vector2D) -> Vector2D {
    let turned = Vector2D { x: dir_v.y.neg_spec(), y: dir_v.x };
    if turned.y.raw < 0 {
        turned.mul_spec(Fixed::of(-SCALE))
    } else {
        turned
    }
}

/// The lever arm limited to the length `MAX_ARM`.
pub open spec fn limited_arm(arm: Vector2D) -> Vector2D {
    let max_arm = Fixed { raw: MAX_ARM };
    if arm.length_squared_spec().raw > max_arm.mul_spec(max_arm).raw {
        arm.normalize_spec().mul_spec(max_arm)
    } else {
        arm
    }
}

impl SettingsModel {
    /// `0.5 * rho * sim`, the factor common to the pressure forces.
    pub open spec fn half_rho_area(self, sim: Fixed) -> Fixed {
        Fixed { raw: HALF }.mul_spec(self.rho).mul_spec(sim)
    }

    /// Drag: against the direction of motion, of magnitude `0.5 * rho * sim * Cf * |v|^2`.
    pub open spec fn drag(self, velocity: Vector2D, sim: Fixed) -> Vector2D {
        let magnitude = self.half_rho_area(sim).mul_spec(self.Cf).mul_spec(
            velocity.length_squared_spec(),
        );
        direction_of_motion(velocity).mul_spec(magnitude.neg_spec())
    }

    /// Lift: across the direction of motion and upward, of magnitude
    /// `0.5 * rho * sim * Cl * |v|^2`.
    pub open spec fn lift(self, velocity: Vector2D, sim: Fixed) -> Vector2D {
        let magnitude = self.half_rho_area(sim).mul_spec(self.Cl).mul_spec(
            velocity.length_squared_spec(),
        );
        direction_of_lift(direction_of_motion(velocity)).mul_spec(magnitude)
    }

    /// Vertical damping: `-0.5 * rho * sim * (QUADRATIC_DAMPING * |vy| + LINEAR_DAMPING) * vy`.
    pub open spec fn vertical_damping(self, velocity: Vector2D, sim: Fixed) -> Vector2D {
        let vy = velocity.y;
        let damp = self.half_rho_area(sim).mul_spec(
            Fixed { raw: QUADRATIC_DAMPING }.mul_spec(vy.abs_spec()).add_spec(
                Fixed { raw: LINEAR_DAMPING },
            ),
        );
        Vector2D { x: Fixed { raw: 0 }, y: damp.neg_spec().mul_spec(vy) }
    }

    /// Suction: while the stone moves upward, a downward force of `TENSION`
    /// per meter of wetted perimeter, the perimeter taken as
    /// `PERIMETER_FACTOR * sqrt(sim)`.
    pub open spec fn suction(self, velocity: Vector2D, sim: Fixed) -> Vector2D {
        if velocity.y.raw > 0 {
            let perimeter = sim.sqrt_spec().mul_spec(Fixed { raw: PERIMETER_FACTOR });
            Vector2D { x: Fixed { raw: 0 }, y: Fixed::of(-TENSION).mul_spec(perimeter) }
        } else {
            zero_vector()
        }
    }

    /// Damping by radiated waves: `-WAVE_DAMPING * sim * vy`, vertical.
    pub open spec fn wave_radiation(self, velocity: Vector2D, sim: Fixed) -> Vector2D {
        Vector2D {
            x: Fixed { raw: 0 },
            y: Fixed::of(-WAVE_DAMPING).mul_spec(sim).mul_spec(velocity.y),
        }
    }

    /// Horizontal resistance: `-0.5 * rho * sim * HORIZONTAL_RESISTANCE * vx`, horizontal.
    pub open spec fn horizontal_resistance(self, velocity: Vector2D, sim: Fixed) -> Vector2D {
        Vector2D {
            x: Fixed::of(-HALF).mul_spec(self.rho).mul_spec(sim).mul_spec(
                Fixed { raw: HORIZONTAL_RESISTANCE },
            ).mul_spec(velocity.x),
            y: Fixed { raw: 0 },
        }
    }

    /// The force of the water on a stone with submerged area `sim`: nothing up
    /// to `SUBMERGED_EPSILON`, otherwise the sum of drag, lift, vertical
    /// damping, suction, wave radiation and horizontal resistance.
    pub open spec fn hydro_force(self, stone: StoneInfo, sim: Fixed) -> Vector2D {
        let v = stone.velocity;
        if sim.raw <= SUBMERGED_EPSILON {
            zero_vector()
        } else {
            self.drag(v, sim).add_spec(self.lift(v, sim)).add_spec(
                self.vertical_damping(v, sim),
            ).add_spec(self.suction(v, sim)).add_spec(self.wave_radiation(v, sim)).add_spec(
                self.horizontal_resistance(v, sim),
            )
        }
    }

    /// Spin damping: `-beta * wy * |wy|`, which opposes the spin whichever way
    /// the stone spins.
    pub open spec fn spin_damping(self, stone: StoneInfo) -> Fixed {
        self.beta.neg_spec().mul_spec(stone.angle_velocity.y).mul_spec(
            stone.angle_velocity.y.abs_spec(),
        )
    }

    /// The moment of inertia about the pitch axis, or `FALLBACK_INERTIA` where
    /// the stone has none.
    pub open spec fn pitch_inertia(self) -> Fixed {
        if self.stone.inertia_tensor_x.raw > INERTIA_EPSILON {
            self.stone.inertia_tensor_x
        } else {
            Fixed { raw: FALLBACK_INERTIA }
        }
    }

    /// Pitch acceleration before it is limited: the torque of the
    /// hydrodynamic force about the center of mass, with the lever arm from the
    /// center of mass to the pressure center limited to `MAX_ARM`, plus the
    /// pitch damping `-0.5 * rho * sim * PITCH_DAMPING * wx`, divided by the
    /// moment of inertia.
    pub open spec fn raw_pitch_acceleration(
        self,
        stone: StoneInfo,
        sim: Fixed,
        clipped: Seq<Vector2D>,
        f_hydro: Vector2D,
    ) -> Fixed {
        let arm = limited_arm(pressure_center_spec(clipped).sub_spec(stone.position));
        let torque = arm.cross_spec(f_hydro);
        let damping = Fixed::of(-HALF).mul_spec(self.rho).mul_spec(sim).mul_spec(
            Fixed { raw: PITCH_DAMPING },
        ).mul_spec(stone.angle_velocity.x);
        torque.add_spec(damping).div_spec(self.pitch_inertia())
    }

    /// Angular acceleration `(pitch, spin)`. The spin is subject to
    /// `spin_damping` alone. The pitch
    /// is left alone up to a submerged area of `SUBMERGED_EPSILON`; beyond it,
    /// it is driven by torque and damping, limited to `MAX_PITCH_ACCELERATION`.
    pub open spec fn angular_acceleration(
        self,
        stone: StoneInfo,
        sim: Fixed,
        clipped: Seq<Vector2D>,
        f_hydro: Vector2D,
    ) -> Vector2D {
        if sim.raw <= SUBMERGED_EPSILON {
            Vector2D { x: Fixed { raw: 0 }, y: self.spin_damping(stone) }
        } else {
            Vector2D {
                x: self.raw_pitch_acceleration(stone, sim, clipped, f_hydro).clamp_spec(
                    Fixed::of(-MAX_PITCH_ACCELERATION),
                    Fixed { raw: MAX_PITCH_ACCELERATION },
                ),
                y: self.spin_damping(stone),
            }
        }
    }

    /// Mass of the water that the stone takes along:
    /// `rho * sim * ADDED_MASS_THICKNESS * ADDED_MASS_COEFFICIENT`.
    pub open spec fn added_mass(self, sim: Fixed) -> Fixed {
        self.rho.mul_spec(sim).mul_spec(Fixed { raw: ADDED_MASS_THICKNESS }).mul_spec(
            Fixed { raw: ADDED_MASS_COEFFICIENT },
        )
    }

    /// Derivative in flight: the velocity, the acceleration `(0, -gravity)`,
    /// the angular velocity, and no angular acceleration.
    pub open spec fn deriv_flying(self, stone: StoneInfo) -> StoneInfo {
        StoneInfo {
            position: stone.velocity,
            velocity: Vector2D { x: Fixed { raw: 0 }, y: self.gravity.neg_spec() },
            angle: stone.angle_velocity,
            angle_velocity: zero_vector(),
        }
    }

    /// Derivative in contact with the water. The submerged polygon and its
    /// area are those of the given state. The acceleration is the sum of the
    /// hydrodynamic force and the weight `(0, -(M * gravity))`, divided by
    /// the mass of the stone plus the added mass.
    pub open spec fn deriv_bouncing(self, stone: StoneInfo) -> StoneInfo {
        let clipped = self.instant_submerged(stone);
        let sim = polygon_area_spec(clipped);
        let f_hydro = self.hydro_force(stone, sim);
        StoneInfo {
            position: stone.velocity,
            velocity: contact_acceleration(self, f_hydro, sim),
            angle: stone.angle_velocity,
            angle_velocity: self.angular_acceleration(stone, sim, clipped, f_hydro),
        }
    }

    /// Derivative of a sinking stone: no force drives it any more, and both
    /// its velocity and its angular velocity decay at the rate `SINK_BRAKING`.
    /// A stone at rest stays at rest.
    pub open spec fn deriv_sinking(self, stone: StoneInfo) -> StoneInfo {
        let braking = Fixed::of(-SINK_BRAKING);
        StoneInfo {
            position: stone.velocity,
            velocity: stone.velocity.mul_spec(braking),
            angle: stone.angle_velocity,
            angle_velocity: stone.angle_velocity.mul_spec(braking),
        }
    }

    /// The derivative of the current phase.
    pub open spec fn derivative(self, stone: StoneInfo) -> StoneInfo {
        match self.phase {
            Phase::Flying => self.deriv_flying(stone),
            Phase::Bouncing => self.deriv_bouncing(stone),
            Phase::Sinking => self.deriv_sinking(stone),
        }
    }
}

/// The water exerts no force on a stone that is not submerged.
pub proof fn lemma_no_force_without_area(settings: SettingsModel, stone: StoneInfo, sim: Fixed)
    requires
        sim.raw <= SUBMERGED_EPSILON,
    ensures
        settings.hydro_force(stone, sim) == zero_vector(),
{
}

/// The pitch acceleration never exceeds `MAX_PITCH_ACCELERATION` in magnitude.
pub proof fn lemma_pitch_acceleration_limited(
    settings: SettingsModel,
    stone: StoneInfo,
    sim: Fixed,
    clipped: Seq<Vector2D>,
    f_hydro: Vector2D,
)
    ensures
        -MAX_PITCH_ACCELERATION <= settings.angular_acceleration(stone, sim, clipped, f_hydro).x.raw
            <= MAX_PITCH_ACCELERATION,
{
}

/// A sunk stone at rest stays at rest: its derivative is zero.
pub proof fn lemma_sunk_stone_at_rest_stays(settings: SettingsModel, stone: StoneInfo)
    requires
        stone.velocity == zero_vector(),
        stone.angle_velocity == zero_vector(),
    ensures
        settings.deriv_sinking(stone) == (StoneInfo {
            position: zero_vector(),
            velocity: zero_vector(),
            angle: zero_vector(),
            angle_velocity: zero_vector(),
        }),
{
    lemma_mul_sign(Fixed { raw: 0 }, Fixed::of(-SINK_BRAKING));
}

/// A sinking stone is only braked: every component of its acceleration and of
/// its angular acceleration opposes the velocity it acts on, or is zero.
pub proof fn lemma_sinking_only_brakes(settings: SettingsModel, stone: StoneInfo)
    ensures
        ({
            let d = settings.deriv_sinking(stone);
            &&& opposes(d.velocity.x, stone.velocity.x)
            &&& opposes(d.velocity.y, stone.velocity.y)
            &&& opposes(d.angle_velocity.x, stone.angle_velocity.x)
            &&& opposes(d.angle_velocity.y, stone.angle_velocity.y)
        }),
{
    let braking = Fixed::of(-SINK_BRAKING);
    lemma_mul_sign(stone.velocity.x, braking);
    lemma_mul_sign(stone.velocity.y, braking);
    lemma_mul_sign(stone.angle_velocity.x, braking);
    lemma_mul_sign(stone.angle_velocity.y, braking);
}

/// The angular acceleration about the spin axis opposes the spin, for a
/// damping coefficient that is not negative, whatever the submerged polygon
/// and the force are, and vanishes for a stone that does not spin.
pub proof fn lemma_spin_damping_opposes_spin(
    settings: SettingsModel,
    stone: StoneInfo,
    sim: Fixed,
    clipped: Seq<Vector2D>,
    f_hydro: Vector2D,
)
    requires
        settings.beta.raw >= 0,
    ensures
        settings.angular_acceleration(stone, sim, clipped, f_hydro).y == settings.spin_damping(
            stone,
        ),
        opposes(settings.spin_damping(stone), stone.angle_velocity.y),
        stone.angle_velocity.y.raw == 0 ==> settings.spin_damping(stone).raw == 0,
{
    let w = stone.angle_velocity.y;
    lemma_mul_sign(settings.beta.neg_spec(), w);
    lemma_mul_sign(settings.beta.neg_spec().mul_spec(w), w.abs_spec());
}

/// No water is taken along by a stone that is not submerged.
pub proof fn lemma_no_added_mass_without_area(settings: SettingsModel)
    ensures
        settings.added_mass(Fixed { raw: 0 }) == (Fixed { raw: 0 }),
{
    let zero = Fixed { raw: 0 };
    lemma_mul_sign(settings.rho, zero);
    lemma_mul_sign(zero, Fixed { raw: ADDED_MASS_THICKNESS });
    lemma_mul_sign(zero, Fixed { raw: ADDED_MASS_COEFFICIENT });
}

/// The acceleration of a stone on which the force `f_hydro` acts besides its
/// weight, with the water it takes along at the submerged area `sim`.
pub open spec fn contact_acceleration(
    settings: SettingsModel,
    f_hydro: Vector2D,
    sim: Fixed,
) -> Vector2D {
    let f_gravity = Vector2D {
        x: Fixed { raw: 0 },
        y: settings.M.mul_spec(settings.gravity).neg_spec(),
    };
    f_hydro.add_spec(f_gravity).div_spec(settings.M.add_spec(settings.added_mass(sim)))
}

/// Without a force of the water and without submerged area, the weight alone
/// accelerates the stone: downward, by its weight divided by its mass.
pub proof fn lemma_weight_alone(settings: SettingsModel)
    requires
        in_range(settings.M),
        settings.M.raw >= 0,
        settings.gravity.raw >= 0,
    ensures
        contact_acceleration(settings, zero_vector(), Fixed { raw: 0 }) == (Vector2D {
            x: Fixed { raw: 0 },
            y: settings.M.mul_spec(settings.gravity).neg_spec().div_spec(settings.M),
        }),
        contact_acceleration(settings, zero_vector(), Fixed { raw: 0 }).y.raw <= 0,
{
    lemma_no_added_mass_without_area(settings);
    let weight = settings.M.mul_spec(settings.gravity).neg_spec();
    lemma_mul_sign(settings.M, settings.gravity);
    lemma_div_sign(weight, settings.M);
    lemma_div_sign(Fixed { raw: 0 }, settings.M);
}

/// In contact with the water but without submerged area, only the weight acts
/// on the stone: downward, as in flight.
pub proof fn lemma_weight_acts_downward(settings: SettingsModel, stone: StoneInfo)
    requires
        polygon_area_spec(settings.instant_submerged(stone)).raw == 0,
        in_range(settings.M),
        settings.M.raw >= 0,
        settings.gravity.raw >= 0,
    ensures
        settings.deriv_bouncing(stone).position == stone.velocity,
        settings.deriv_bouncing(stone).velocity == (Vector2D {
            x: Fixed { raw: 0 },
            y: settings.M.mul_spec(settings.gravity).neg_spec().div_spec(settings.M),
        }),
        settings.deriv_bouncing(stone).velocity.y.raw <= 0,
        settings.deriv_bouncing(stone).angle_velocity.x.raw == 0,
{
    lemma_weight_alone(settings);
    let sim = polygon_area_spec(settings.instant_submerged(stone));
    assert(sim == (Fixed { raw: 0 }));
    assert(settings.hydro_force(stone, sim) == zero_vector());
    assert(settings.deriv_bouncing(stone).velocity == contact_acceleration(
        settings,
        zero_vector(),
        Fixed { raw: 0 },
    ));
}

/// The derivative does not depend on the cached submerged polygon nor on the
/// cached submerged area: it works on the polygon of the state it is asked for.
pub proof fn lemma_derivative_ignores_cache(
    settings: SettingsModel,
    cached_polygon: Seq<Vector2D>,
    cached_area: Fixed,
    stone: StoneInfo,
)
    ensures
        (SettingsModel {
            current_submerged_polygon: cached_polygon,
            Sim: cached_area,
            ..settings
        }).derivative(stone) == settings.derivative(stone),
{
}

/// In flight the derivative does not depend on where the stone is.
pub proof fn lemma_flight_ignores_position(
    settings: SettingsModel,
    stone: StoneInfo,
    position: Vector2D,
)
    ensures
        settings.deriv_flying(StoneInfo { position, ..stone }) == settings.deriv_flying(stone),
{
}

impl OdeSystem<StoneInfo> for CustomSettings {
    open spec fn state_dim(&self) -> nat {
        8
    }

    open spec fn derivatives_spec(&self, t: Fixed, y: StoneInfo) -> StoneInfo {
        self@.derivative(y)
    }

    proof fn lemma_derivative_dim(&self, t: Fixed, y: StoneInfo) {
    }

    /// The derivative of the current phase, whatever the time.
    fn derivatives(&self, t: Fixed, stone: &StoneInfo) -> (r: StoneInfo) {
        match self.phase {
            Phase::Flying => self.deriv_flying(t, stone),
            Phase::Bouncing => self.deriv_bouncing(t, stone),
            Phase::Sinking => self.deriv_sinking(t, stone),
        }
    }
}

impl CustomSettings {
    /// Derivative in flight: only gravity acts, and there is no torque.
    pub fn deriv_flying(&self, _t: Fixed, stone: &StoneInfo) -> (r: StoneInfo)
        ensures
            r == self@.deriv_flying(*stone),
    {
        StoneInfo {
            position: stone.velocity,
            velocity: Vector2D { x: Fixed::zero(), y: self.gravity.neg() },
            angle: stone.angle_velocity,
            angle_velocity: Vector2D { x: Fixed::zero(), y: Fixed::zero() },
        }
    }

    /// Derivative in contact with the water.
    ///
    /// The submerged polygon is computed for the given state itself, never
    /// taken from the cache: the integrator asks for derivatives at positions
    /// between two steps.
    pub fn deriv_bouncing(&self, _t: Fixed, stone: &StoneInfo) -> (r: StoneInfo)
        ensures
            r == self@.deriv_bouncing(*stone),
    {
        let (sim, clipped) = self.calculate_instant_submerged(stone);
        let f_hydro = self.compute_hydro_force(stone, sim);
        let f_gravity = Vector2D { x: Fixed::zero(), y: (self.M * self.gravity).neg() };
        let f_total = f_hydro + f_gravity;
        let added_mass = self.rho * sim * Fixed { raw: ADDED_MASS_THICKNESS } * Fixed {
            raw: ADDED_MASS_COEFFICIENT,
        };
        let effective_mass = self.M + added_mass;
        let acceleration = f_total.div(effective_mass);
        let angular_acc = self.compute_angular_acceleration(stone, sim, &clipped, f_hydro);
        StoneInfo {
            position: stone.velocity,
            velocity: acceleration,
            angle: stone.angle_velocity,
            angle_velocity: angular_acc,
        }
    }

    /// Derivative of a sinking stone: its velocity and its angular velocity
    /// decay, nothing sets it in motion again.
    pub fn deriv_sinking(&self, _t: Fixed, stone: &StoneInfo) -> (r: StoneInfo)
        ensures
            r == self@.deriv_sinking(*stone),
    {
        let braking = Fixed { raw: -SINK_BRAKING };
        StoneInfo {
            position: stone.velocity,
            velocity: stone.velocity * braking,
            angle: stone.angle_velocity,
            angle_velocity: stone.angle_velocity * braking,
        }
    }

    /// The submerged area and polygon of the stone in the given state.
    pub fn calculate_instant_submerged(&self, stone: &StoneInfo) -> (r: (Fixed, Vec<Vector2D>))
        ensures
            r.1@ == self@.instant_submerged(*stone),
            r.0 == polygon_area_spec(r.1@),
    {
        let outline_world = self.outline_to_world(stone);
        let clipped = clip_polygon_below_line(outline_world.as_slice(), self.water_level);
        let sim = if clipped.len() < 3 {
            Fixed::zero()
        } else {
            polygon_area(clipped.as_slice())
        };
        (sim, clipped)
    }

    /// The force of the water on the stone, without its weight.
    ///
    /// With a submerged area of at most `SUBMERGED_EPSILON` there is no force.
    /// Otherwise the force is the sum of drag against the motion, lift across
    /// it and upward, a vertical damping that grows with the vertical speed,
    /// a suction that holds back a stone on its way up, the damping by
    /// radiated waves, and a horizontal resistance.
    pub fn compute_hydro_force(&self, stone: &StoneInfo, sim: Fixed) -> (r: Vector2D)
        ensures
            r == self@.hydro_force(*stone, sim),
    {
        let velocity = stone.velocity;
        let speed_sq = velocity.length_squared();
        if sim.raw <= SUBMERGED_EPSILON {
            return Vector2D { x: Fixed::zero(), y: Fixed::zero() };
        }
        let speed = if speed_sq.raw > SPEED_SQUARED_EPSILON {
            speed_sq.sqrt()
        } else {
            Fixed::zero()
        };
        let dir_v = if speed.raw > SPEED_EPSILON {
            velocity.normalize()
        } else {
            Vector2D { x: Fixed::zero(), y: Fixed::zero() }
        };
        let half_rho_area = Fixed { raw: HALF } * self.rho * sim;

        // Drag, against the motion.
        let f_drag_mag = half_rho_area * self.Cf * speed_sq;
        let f_drag = dir_v * f_drag_mag.neg();

        // Lift, across the motion and upward.
        let mut dir_lift = Vector2D { x: dir_v.y.neg(), y: dir_v.x };
        if dir_lift.y.raw < 0 {
            dir_lift = dir_lift * Fixed { raw: -SCALE };
        }
        let f_lift_mag = half_rho_area * self.Cl * speed_sq;
        let f_lift = dir_lift * f_lift_mag;

        // Vertical damping, by slamming and by friction.
        let vy = velocity.y;
        let damp_mag = half_rho_area * (Fixed { raw: QUADRATIC_DAMPING } * vy.abs() + Fixed {
            raw: LINEAR_DAMPING,
        });
        let f_vertical_damp = Vector2D { x: Fixed::zero(), y: damp_mag.neg() * vy };

        // Suction, only while the stone tries to leave the water.
        let f_suction = if vy.raw > 0 {
            let perimeter = sim.sqrt() * Fixed { raw: PERIMETER_FACTOR };
            Vector2D { x: Fixed::zero(), y: Fixed { raw: -TENSION } * perimeter }
        } else {
            Vector2D { x: Fixed::zero(), y: Fixed::zero() }
        };

        // Energy carried away by waves.
        let f_wave_radiation = Vector2D {
            x: Fixed::zero(),
            y: Fixed { raw: -WAVE_DAMPING } * sim * vy,
        };

        let f_horizontal_resist = Vector2D {
            x: Fixed { raw: -HALF } * self.rho * sim * Fixed { raw: HORIZONTAL_RESISTANCE }
                * velocity.x,
            y: Fixed::zero(),
        };

        f_drag + f_lift + f_vertical_damp + f_suction + f_wave_radiation + f_horizontal_resist
    }

    /// The angular acceleration `(pitch, spin)` of the stone.
    ///
    /// The spin is damped by a torque that opposes it. The pitch is driven by the torque of the
    /// hydrodynamic force, which acts at the pressure center of the submerged
    /// polygon, and by a damping that grows with the submerged area; the lever
    /// arm is limited to `MAX_ARM` and the result to `MAX_PITCH_ACCELERATION`.
    pub fn compute_angular_acceleration(
        &self,
        stone: &StoneInfo,
        sim: Fixed,
        clipped: &Vec<Vector2D>,
        f_hydro: Vector2D,
    ) -> (r: Vector2D)
        ensures
            r == self@.angular_acceleration(*stone, sim, clipped@, f_hydro),
            -MAX_PITCH_ACCELERATION <= r.x.raw <= MAX_PITCH_ACCELERATION,
    {
        let spin_damping = self.beta.neg() * stone.angle_velocity.y
            * stone.angle_velocity.y.abs();
        if sim.raw <= SUBMERGED_EPSILON {
            return Vector2D { x: Fixed::zero(), y: spin_damping };
        }
        // The lever arm runs from the center of mass to the pressure center.
        let force_point = pressure_center(clipped.as_slice());
        let mut r = force_point - stone.position;
        let max_arm = Fixed { raw: MAX_ARM };
        if r.length_squared().raw > (max_arm * max_arm).raw {
            r = r.normalize() * max_arm;
        }
        let torque = r.cross(f_hydro);
        let pitch_damping_torque = Fixed { raw: -HALF } * self.rho * sim * Fixed {
            raw: PITCH_DAMPING,
        } * stone.angle_velocity.x;
        let total_torque_x = torque + pitch_damping_torque;
        let inertia = if self.stone.inertia_tensor_x.raw > INERTIA_EPSILON {
            self.stone.inertia_tensor_x
        } else {
            Fixed { raw: FALLBACK_INERTIA }
        };
        let pitch_acc = total_torque_x / inertia;
        let pitch_acc_clamped = pitch_acc.clamp(
            Fixed { raw: -MAX_PITCH_ACCELERATION },
            Fixed { raw: MAX_PITCH_ACCELERATION },
        );
        Vector2D { x: pitch_acc_clamped, y: spin_damping }
    }
}

} // verus!
