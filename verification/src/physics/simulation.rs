//! The state of the stone, its placement in the world, and the stepping loop.
use crate::basic_structs::{
    lemma_vector_scaling_distributes, lemma_vector_sums, vector_product_fits, vector_sum_fits,
    vectors_within_one, Vector2D,
};
use crate::fixed::{lemma_exact_quotient, Fixed, SCALE};
use crate::geometry::{clip_polygon_below_line, clip_spec, polygon_area, polygon_area_spec};
use crate::physics::parameters::{CustomSettings, Phase, SettingsModel};
use crate::solver2::{
    right_hand_side, rk4_formula, RungeKuttaSolver, VectorSpace, HALF, SIX, TWO,
};
use crate::trig::{cos, cos_spec, sin, sin_spec};
use vstd::prelude::*;

verus! {

/// The state of the stone: where it is, how fast it moves, how it is turned,
/// and how fast it turns. `angle.x` is the pitch, `angle.y` the spin.
#[derive(Clone, Copy, PartialEq, Eq, Debug, Structural)]
pub struct StoneInfo {
    pub position: Vector2D,
    pub velocity: Vector2D,
    pub angle: Vector2D,
    pub angle_velocity: Vector2D,
}

/// A state together with the time at which it was reached.
#[derive(Clone, Copy, PartialEq, Eq, Debug, Structural)]
pub struct Stamp {
    pub t: Fixed,
    pub state: StoneInfo,
}

impl View for StoneInfo {
    type V = StoneInfo;

    open spec fn view(&self) -> StoneInfo {
        *self
    }
}

impl VectorSpace for StoneInfo {
    open spec fn dim(v: StoneInfo) -> nat {
        8
    }

    open spec fn add_spec(a: StoneInfo, b: StoneInfo) -> StoneInfo {
        StoneInfo {
            position: a.position.add_spec(b.position),
            velocity: a.velocity.add_spec(b.velocity),
            angle: a.angle.add_spec(b.angle),
            angle_velocity: a.angle_velocity.add_spec(b.angle_velocity),
        }
    }

    open spec fn scale_spec(a: StoneInfo, scalar: Fixed) -> StoneInfo {
        StoneInfo {
            position: a.position.mul_spec(scalar),
            velocity: a.velocity.mul_spec(scalar),
            angle: a.angle.mul_spec(scalar),
            angle_velocity: a.angle_velocity.mul_spec(scalar),
        }
    }

    open spec fn scale_ratio_spec(a: StoneInfo, num: Fixed, den: Fixed) -> StoneInfo {
        StoneInfo {
            position: a.position.mul_div_spec(num, den),
            velocity: a.velocity.mul_div_spec(num, den),
            angle: a.angle.mul_div_spec(num, den),
            angle_velocity: a.angle_velocity.mul_div_spec(num, den),
        }
    }

    open spec fn sum_fits(a: StoneInfo, b: StoneInfo) -> bool {
        vector_sum_fits(a.position, b.position) && vector_sum_fits(a.velocity, b.velocity)
            && vector_sum_fits(a.angle, b.angle) && vector_sum_fits(
            a.angle_velocity,
            b.angle_velocity,
        )
    }

    open spec fn product_fits(a: StoneInfo, scalar: Fixed) -> bool {
        vector_product_fits(a.position, scalar) && vector_product_fits(a.velocity, scalar)
            && vector_product_fits(a.angle, scalar) && vector_product_fits(
            a.angle_velocity,
            scalar,
        )
    }

    open spec fn within_one(a: StoneInfo, b: StoneInfo) -> bool {
        vectors_within_one(a.position, b.position) && vectors_within_one(a.velocity, b.velocity)
            && vectors_within_one(a.angle, b.angle) && vectors_within_one(
            a.angle_velocity,
            b.angle_velocity,
        )
    }

    proof fn lemma_add_dim(a: StoneInfo, b: StoneInfo) {
    }

    proof fn lemma_scale_dim(a: StoneInfo, scalar: Fixed) {
    }

    proof fn lemma_scale_ratio_dim(a: StoneInfo, num: Fixed, den: Fixed) {
    }

    proof fn lemma_add_commutative(a: StoneInfo, b: StoneInfo) {
    }

    proof fn lemma_add_associative(a: StoneInfo, b: StoneInfo, c: StoneInfo) {
        lemma_vector_sums(a.position, b.position, c.position);
        lemma_vector_sums(a.velocity, b.velocity, c.velocity);
        lemma_vector_sums(a.angle, b.angle, c.angle);
        lemma_vector_sums(a.angle_velocity, b.angle_velocity, c.angle_velocity);
    }

    proof fn lemma_scale_distributes(a: StoneInfo, b: StoneInfo, scalar: Fixed) {
        lemma_vector_scaling_distributes(a.position, b.position, scalar);
        lemma_vector_scaling_distributes(a.velocity, b.velocity, scalar);
        lemma_vector_scaling_distributes(a.angle, b.angle, scalar);
        lemma_vector_scaling_distributes(a.angle_velocity, b.angle_velocity, scalar);
    }

    fn add(&self, other: &Self) -> (r: Self) {
        StoneInfo {
            position: self.position.add(other.position),
            velocity: self.velocity.add(other.velocity),
            angle: self.angle.add(other.angle),
            angle_velocity: self.angle_velocity.add(other.angle_velocity),
        }
    }

    fn scale(&self, scalar: Fixed) -> (r: Self) {
        StoneInfo {
            position: self.position.mul(scalar),
            velocity: self.velocity.mul(scalar),
            angle: self.angle.mul(scalar),
            angle_velocity: self.angle_velocity.mul(scalar),
        }
    }

    fn scale_ratio(&self, num: Fixed, den: Fixed) -> (r: Self) {
        StoneInfo {
            position: self.position.mul_div(num, den),
            velocity: self.velocity.mul_div(num, den),
            angle: self.angle.mul_div(num, den),
            angle_velocity: self.angle_velocity.mul_div(num, den),
        }
    }
}

/// A point turned about the origin by the angle whose cosine and sine are given.
pub open spec fn rotated(p: Vector2D, cosine: Fixed, sine: Fixed) -> Vector2D {
    Vector2D {
        x: p.x.mul_spec(cosine).sub_spec(p.y.mul_spec(sine)),
        y: p.x.mul_spec(sine).add_spec(p.y.mul_spec(cosine)),
    }
}

/// A point of the outline placed in the world: turned by the spin, then by
/// the pitch, then moved to the stone's position.
pub open spec fn to_world(p: Vector2D, stone: StoneInfo) -> Vector2D {
    let spun = rotated(p, cos_spec(stone.angle.y), sin_spec(stone.angle.y));
    let pitched = rotated(spun, cos_spec(stone.angle.x), sin_spec(stone.angle.x));
    stone.position.add_spec(pitched)
}

/// The outline placed in the world, vertex by vertex.
pub open spec fn outline_to_world_spec(outline: Seq<Vector2D>, stone: StoneInfo) -> Seq<Vector2D> {
    Seq::new(outline.len(), |i: int| to_world(outline[i], stone))
}

impl SettingsModel {
    /// The part of the stone's outline that lies below the water surface when
    /// the stone is in the given state.
    pub open spec fn instant_submerged(self, stone: StoneInfo) -> Seq<Vector2D> {
        clip_spec(outline_to_world_spec(self.stone.outline_com, stone), self.water_level)
    }

    /// The settings with the cached submerged polygon and area brought up to
    /// date for the given state.
    pub open spec fn with_submerged_area(self, stone: StoneInfo) -> SettingsModel {
        let clipped = self.instant_submerged(stone);
        SettingsModel {
            Sim: polygon_area_spec(clipped),
            current_submerged_polygon: clipped,
            ..self
        }
    }
}

fn rotate(p: Vector2D, cosine: Fixed, sine: Fixed) -> (r: Vector2D)
    ensures
        r == rotated(p, cosine, sine),
{
    Vector2D { x: p.x * cosine - p.y * sine, y: p.x * sine + p.y * cosine }
}

impl CustomSettings {
    /// The stone's outline in world coordinates for the given state.
    ///
    /// Every vertex of the outline, given in the frame of the center of mass,
    /// is turned by the spin angle, then by the pitch angle, and moved to the
    /// position of the stone.
    pub fn outline_to_world(&self, stone: &StoneInfo) -> (r: Vec<Vector2D>)
        ensures
            r@ == outline_to_world_spec(self@.stone.outline_com, *stone),
    {
        let cos_spin = cos(stone.angle.y);
        let sin_spin = sin(stone.angle.y);
        let cos_pitch = cos(stone.angle.x);
        let sin_pitch = sin(stone.angle.x);
        let n = self.stone.outline_com.len();
        let mut out: Vec<Vector2D> = Vec::new();
        let mut i: usize = 0;
        while i < n
            invariant
                n == self.stone.outline_com.len(),
                0 <= i <= n,
                cos_spin == cos_spec(stone.angle.y),
                sin_spin == sin_spec(stone.angle.y),
                cos_pitch == cos_spec(stone.angle.x),
                sin_pitch == sin_spec(stone.angle.x),
                out@.len() == i,
                forall|k: int|
                    0 <= k < i ==> out@[k] == to_world(self.stone.outline_com@[k], *stone),
            decreases n - i,
        {
            let spun = rotate(self.stone.outline_com[i], cos_spin, sin_spin);
            let pitched = rotate(spun, cos_pitch, sin_pitch);
            out.push(stone.position + pitched);
            i = i + 1;
        }
        assert(out@ =~= outline_to_world_spec(self@.stone.outline_com, *stone));
        out
    }

    /// Brings the cached submerged polygon and its area up to date for the
    /// given state. A polygon of fewer than three vertices has no area.
    pub fn update_submerged_area(&mut self, stone_state: &StoneInfo)
        ensures
            final(self)@ == old(self)@.with_submerged_area(*stone_state),
    {
        let outline_world = self.outline_to_world(stone_state);
        let clipped = clip_polygon_below_line(outline_world.as_slice(), self.water_level);
        if clipped.len() < 3 {
            self.Sim = Fixed::zero();
        } else {
            self.Sim = polygon_area(clipped.as_slice());
        }
        self.current_submerged_polygon = clipped;
    }
}

impl SettingsModel {
    /// Estimate of the height of the stone's lowest point: the height of the
    /// center of mass less the largest radius times the sine of the pitch.
    pub open spec fn lowest_point(self, stone: StoneInfo) -> Fixed {
        stone.position.y.sub_spec(self.stone.d_max.sqrt_spec().mul_spec(sin_spec(stone.angle.x)))
    }

    /// Estimate of the net vertical force on a stone in contact with the
    /// water: the lift `0.5 * rho * |v|^2 * Sim * Cl` on the cached submerged
    /// area, less the weight `M * gravity`.
    pub open spec fn vertical_force(self, stone: StoneInfo) -> Fixed {
        let lift = Fixed { raw: HALF }.mul_spec(self.rho).mul_spec(
            stone.velocity.length_squared_spec(),
        ).mul_spec(self.Sim).mul_spec(self.Cl);
        lift.sub_spec(self.M.mul_spec(self.gravity))
    }

    /// Whether a stone in contact with the water is given up: the estimated
    /// net vertical force is below `min_net_lift`, so that the lift does not
    /// carry the weight, or the stone is slower than `min_speed`.
    pub open spec fn should_sink(self, stone: StoneInfo) -> bool {
        self.vertical_force(stone).raw < self.min_net_lift.raw || stone.velocity.length_spec().raw
            < self.min_speed.raw
    }

    /// The phase that follows the current one for a stone in the given state.
    ///
    /// A flying stone touches down when its lowest point reaches the water
    /// level. A stone in contact takes off again when its lowest point is above
    /// the water level and it moves upward; otherwise it sinks when
    /// `should_sink` holds. A sinking stone goes on sinking.
    pub open spec fn next_phase(self, stone: StoneInfo) -> Phase {
        match self.phase {
            Phase::Flying => {
                if self.lowest_point(stone).raw <= self.water_level.raw {
                    Phase::Bouncing
                } else {
                    Phase::Flying
                }
            },
            Phase::Bouncing => {
                if self.lowest_point(stone).raw > self.water_level.raw && stone.velocity.y.raw > 0 {
                    Phase::Flying
                } else if self.should_sink(stone) {
                    Phase::Sinking
                } else {
                    Phase::Bouncing
                }
            },
            Phase::Sinking => Phase::Sinking,
        }
    }

    /// The settings with the phase replaced by the one that follows it.
    pub open spec fn with_updated_phase(self, stone: StoneInfo) -> SettingsModel {
        SettingsModel { phase: self.next_phase(stone), ..self }
    }

    /// The settings as they stand before the integrator advances from the
    /// given state: the cached submerged area is brought up to date if the
    /// stone is in contact with the water, then the phase is updated.
    pub open spec fn prepared(self, stone: StoneInfo) -> SettingsModel {
        if self.phase == Phase::Bouncing {
            self.with_submerged_area(stone).with_updated_phase(stone)
        } else {
            self.with_updated_phase(stone)
        }
    }
}

/// The force model as a right-hand side: the derivative of the current phase
/// as a function of time and state.
pub open spec fn stone_right_hand_side(settings: SettingsModel) -> spec_fn(
    Fixed,
    StoneInfo,
) -> StoneInfo {
    |t: Fixed, y: StoneInfo| settings.derivative(y)
}

/// What a run of the simulation leaves behind.
pub struct Run {
    /// The settings after the last update.
    pub settings: SettingsModel,
    /// The time reached.
    pub t: Fixed,
    /// The state reached.
    pub state: StoneInfo,
    /// The states passed through, each with its time, the initial one first.
    pub trajectory: Seq<Stamp>,
}

/// A run of at most `max_steps` steps of size `dt` from `(t, state)`.
///
/// Each step records the current state, prepares the settings for it, and,
/// unless the stone is now sinking, advances time and state by one
/// Runge-Kutta step of the force model. The run ends with the step at which
/// the stone starts to sink.
pub open spec fn simulate_spec(
    settings: SettingsModel,
    t: Fixed,
    state: StoneInfo,
    dt: Fixed,
    max_steps: nat,
) -> Run
    decreases max_steps,
{
    if max_steps == 0 {
        Run { settings, t, state, trajectory: Seq::empty() }
    } else {
        let here = seq![Stamp { t, state }];
        let ready = settings.prepared(state);
        if ready.phase == Phase::Sinking {
            Run { settings: ready, t, state, trajectory: here }
        } else {
            let next = rk4_formula::<StoneInfo>(stone_right_hand_side(ready), t, state, dt);
            let rest = simulate_spec(ready, t.add_spec(dt), next, dt, (max_steps - 1) as nat);
            Run { trajectory: here + rest.trajectory, ..rest }
        }
    }
}

/// A run with more states put in front of its trajectory.
pub open spec fn prepend(prefix: Seq<Stamp>, run: Run) -> Run {
    Run { trajectory: prefix + run.trajectory, ..run }
}

/// A run of at least one step begins with the current state. If the stone
/// sinks once the settings are prepared, that is the whole run; otherwise the
/// rest is the run from the next state with one step less.
pub proof fn lemma_simulate_unfold(
    settings: SettingsModel,
    t: Fixed,
    state: StoneInfo,
    dt: Fixed,
    max_steps: nat,
)
    requires
        max_steps > 0,
    ensures
        ({
            let ready = settings.prepared(state);
            let here = seq![Stamp { t, state }];
            if ready.phase == Phase::Sinking {
                simulate_spec(settings, t, state, dt, max_steps) == (Run {
                    settings: ready,
                    t,
                    state,
                    trajectory: here,
                })
            } else {
                simulate_spec(settings, t, state, dt, max_steps) == prepend(
                    here,
                    simulate_spec(
                        ready,
                        t.add_spec(dt),
                        rk4_formula::<StoneInfo>(stone_right_hand_side(ready), t, state, dt),
                        dt,
                        (max_steps - 1) as nat,
                    ),
                )
            }
        }),
{
}

/// Putting two lists in front of a run, one after the other, puts their
/// concatenation in front of it.
pub proof fn lemma_prepend_twice(first: Seq<Stamp>, second: Seq<Stamp>, run: Run)
    ensures
        prepend(first, prepend(second, run)) == prepend(first + second, run),
{
    assert(first + (second + run.trajectory) =~= (first + second) + run.trajectory);
}

/// A run records at most one state per step, and at least the initial state
/// if any step is allowed; the first state recorded is the initial one.
pub proof fn lemma_simulate_length(
    settings: SettingsModel,
    t: Fixed,
    state: StoneInfo,
    dt: Fixed,
    max_steps: nat,
)
    ensures
        simulate_spec(settings, t, state, dt, max_steps).trajectory.len() <= max_steps,
        max_steps > 0 ==> simulate_spec(settings, t, state, dt, max_steps).trajectory.len() >= 1
            && simulate_spec(settings, t, state, dt, max_steps).trajectory[0] == (Stamp {
            t,
            state,
        }),
    decreases max_steps,
{
    if max_steps > 0 {
        let ready = settings.prepared(state);
        if ready.phase != Phase::Sinking {
            let next = rk4_formula::<StoneInfo>(stone_right_hand_side(ready), t, state, dt);
            lemma_simulate_length(ready, t.add_spec(dt), next, dt, (max_steps - 1) as nat);
        }
    }
}

/// A run that ends before its steps are used up ends with a sinking stone.
pub proof fn lemma_simulate_ends_early_only_by_sinking(
    settings: SettingsModel,
    t: Fixed,
    state: StoneInfo,
    dt: Fixed,
    max_steps: nat,
)
    ensures
        simulate_spec(settings, t, state, dt, max_steps).trajectory.len() < max_steps
            ==> simulate_spec(settings, t, state, dt, max_steps).settings.phase == Phase::Sinking,
    decreases max_steps,
{
    if max_steps > 0 {
        let ready = settings.prepared(state);
        if ready.phase != Phase::Sinking {
            let next = rk4_formula::<StoneInfo>(stone_right_hand_side(ready), t, state, dt);
            lemma_simulate_ends_early_only_by_sinking(
                ready,
                t.add_spec(dt),
                next,
                dt,
                (max_steps - 1) as nat,
            );
        }
    }
}

/// Largest raw magnitude of a component of the state, and of the gravity, for
/// which `lemma_flight_step` is stated: a million units.
pub const FLIGHT_REACH: i64 = 1_000_000_000_000_000;

/// Whether both components of a vector lie within `FLIGHT_REACH`.
pub open spec fn within_flight_reach(v: Vector2D) -> bool {
    -FLIGHT_REACH <= v.x.raw <= FLIGHT_REACH && -FLIGHT_REACH <= v.y.raw <= FLIGHT_REACH
}

/// The state one step of size `dt` after `y` for a stone in flight under the
/// gravity `g`: the parabola of free fall, each increment rounded once.
///
/// The horizontal position grows by `vx * dt`, the vertical velocity by
/// `-g * dt`, the angles by the angular velocities times `dt`, and the height
/// by `(6 * vy - 4 * (g * dt/2) - g * dt) * dt / 6`, which is
/// `vy * dt - g * dt * dt / 2` wherever the products are whole.
pub open spec fn flight_step(g: Fixed, y: StoneInfo, dt: Fixed) -> StoneInfo {
    let half_dt = Fixed { raw: HALF }.mul_spec(dt);
    let fall = g.neg_spec();
    let rise = Fixed {
        raw: (6 * y.velocity.y.raw + 4 * fall.mul_spec(half_dt).raw + fall.mul_spec(dt).raw) as i64,
    };
    StoneInfo {
        position: Vector2D {
            x: y.position.x.add_spec(y.velocity.x.mul_spec(dt)),
            y: y.position.y.add_spec(rise.mul_div_spec(dt, Fixed { raw: SIX })),
        },
        velocity: Vector2D { x: y.velocity.x, y: y.velocity.y.add_spec(fall.mul_spec(dt)) },
        angle: Vector2D {
            x: y.angle.x.add_spec(y.angle_velocity.x.mul_spec(dt)),
            y: y.angle.y.add_spec(y.angle_velocity.y.mul_spec(dt)),
        },
        angle_velocity: y.angle_velocity,
    }
}

/// A number within reach, doubled by the integrator, is twice the number, and
/// six times a number times the step, divided by six, is the number times
/// the step, rounded once.
proof fn lemma_flight_arithmetic(x: Fixed, dt: Fixed)
    requires
        -FLIGHT_REACH <= x.raw <= FLIGHT_REACH,
        0 <= dt.raw <= SCALE,
    ensures
        ({
            let zero = Fixed { raw: 0 };
            let half_dt = Fixed { raw: HALF }.mul_spec(dt);
            let six_fold = Fixed { raw: (6 * x.raw) as i64 };
            &&& x.mul_spec(Fixed { raw: TWO }).raw == 2 * x.raw
            &&& six_fold.mul_div_spec(dt, Fixed { raw: SIX }) == x.mul_spec(dt)
            &&& -FLIGHT_REACH <= x.mul_spec(dt).raw <= FLIGHT_REACH
            &&& -FLIGHT_REACH <= x.mul_spec(half_dt).raw <= FLIGHT_REACH
            &&& zero.mul_spec(dt).raw == 0
            &&& zero.mul_spec(half_dt).raw == 0
            &&& 0 <= half_dt.raw <= SCALE
        }),
{
    let n = x.raw * dt.raw;
    assert(6 * x.raw * dt.raw == 6 * n) by (nonlinear_arith)
        requires
            n == x.raw * dt.raw,
    ;
    assert(-FLIGHT_REACH * SCALE <= n <= FLIGHT_REACH * SCALE) by (nonlinear_arith)
        requires
            n == x.raw * dt.raw,
            -FLIGHT_REACH <= x.raw <= FLIGHT_REACH,
            0 <= dt.raw <= SCALE,
    ;
    let h = Fixed { raw: HALF }.mul_spec(dt);
    assert(HALF * dt.raw == 500_000_000 * dt.raw);
    let m = x.raw * h.raw;
    assert(-FLIGHT_REACH * SCALE <= m <= FLIGHT_REACH * SCALE) by (nonlinear_arith)
        requires
            m == x.raw * h.raw,
            -FLIGHT_REACH <= x.raw <= FLIGHT_REACH,
            0 <= h.raw <= SCALE,
    ;
    assert(0 * dt.raw == 0 && 0 * h.raw == 0) by (nonlinear_arith);
}

/// A number of at most twice the reach, doubled by the integrator, is twice the number.
proof fn lemma_doubling(x: Fixed)
    requires
        -2 * FLIGHT_REACH <= x.raw <= 2 * FLIGHT_REACH,
    ensures
        x.mul_spec(Fixed { raw: TWO }).raw == 2 * x.raw,
{
    assert(x.raw * TWO == SCALE * (2 * x.raw)) by (nonlinear_arith)
        requires
            TWO == 2_000_000_000,
            SCALE == 1_000_000_000,
    ;
    lemma_exact_quotient(SCALE as int, 2 * x.raw);
}

/// A stone in flight follows the parabola of free fall: one step of the
/// integrator gives `flight_step`, with no error but one rounding of each
/// increment, for a state, a gravity and a step within reach.
pub proof fn lemma_flight_step(settings: SettingsModel, t: Fixed, y: StoneInfo, dt: Fixed)
    requires
        settings.phase == Phase::Flying,
        -FLIGHT_REACH <= settings.gravity.raw <= FLIGHT_REACH,
        within_flight_reach(y.position),
        within_flight_reach(y.velocity),
        within_flight_reach(y.angle),
        within_flight_reach(y.angle_velocity),
        0 <= dt.raw <= SCALE,
    ensures
        rk4_formula::<StoneInfo>(stone_right_hand_side(settings), t, y, dt) == flight_step(
            settings.gravity,
            y,
            dt,
        ),
{
    reveal(rk4_formula);
    let f = stone_right_hand_side(settings);
    let half_dt = Fixed { raw: HALF }.mul_spec(dt);
    let two = Fixed { raw: TWO };
    let fall = settings.gravity.neg_spec();
    let v = y.velocity;
    let w = y.angle_velocity;
    lemma_flight_arithmetic(fall, dt);
    lemma_flight_arithmetic(v.x, dt);
    lemma_flight_arithmetic(v.y, dt);
    lemma_flight_arithmetic(w.x, dt);
    lemma_flight_arithmetic(w.y, dt);
    let k1 = f(t, y);
    assert(k1 == settings.deriv_flying(y));
    let y2 = StoneInfo::add_spec(y, StoneInfo::scale_spec(k1, half_dt));
    let k2 = f(t.add_spec(half_dt), y2);
    assert(k2 == settings.deriv_flying(y2));
    let y3 = StoneInfo::add_spec(y, StoneInfo::scale_spec(k2, half_dt));
    let k3 = f(t.add_spec(half_dt), y3);
    assert(k3 == settings.deriv_flying(y3));
    let y4 = StoneInfo::add_spec(y, StoneInfo::scale_spec(k3, dt));
    let k4 = f(t.add_spec(dt), y4);
    assert(k4 == settings.deriv_flying(y4));
    let ah = fall.mul_spec(half_dt);
    let ad = fall.mul_spec(dt);
    assert(y2.velocity == (Vector2D { x: v.x, y: Fixed { raw: (v.y.raw + ah.raw) as i64 } }));
    assert(y3.velocity == y2.velocity);
    assert(y4.velocity == (Vector2D { x: v.x, y: Fixed { raw: (v.y.raw + ad.raw) as i64 } }));
    assert(y2.angle_velocity == w && y3.angle_velocity == w && y4.angle_velocity == w);
    lemma_doubling(y2.velocity.y);
    lemma_flight_arithmetic(Fixed { raw: 0 }, dt);
    let total = StoneInfo::add_spec(
        StoneInfo::add_spec(
            StoneInfo::add_spec(k1, StoneInfo::scale_spec(k2, two)),
            StoneInfo::scale_spec(k3, two),
        ),
        k4,
    );
    assert(total.position.x.raw == 6 * v.x.raw);
    assert(total.position.y.raw == 6 * v.y.raw + 4 * ah.raw + ad.raw);
    assert(total.velocity.x.raw == 0);
    assert(total.velocity.y.raw == 6 * fall.raw);
    assert(total.angle.x.raw == 6 * w.x.raw);
    assert(total.angle.y.raw == 6 * w.y.raw);
    assert(total.angle_velocity == (Vector2D { x: Fixed { raw: 0 }, y: Fixed { raw: 0 } }));
    assert((Fixed { raw: 0 }).mul_div_spec(dt, Fixed { raw: SIX }).raw == 0) by {
        assert(0 * dt.raw == 0) by (nonlinear_arith);
    }
}

/// A sinking stone goes on sinking.
pub proof fn lemma_sinking_is_final(settings: SettingsModel, stone: StoneInfo)
    requires
        settings.phase == Phase::Sinking,
    ensures
        settings.next_phase(stone) == Phase::Sinking,
        settings.prepared(stone).phase == Phase::Sinking,
{
}

/// A flying stone touches down exactly when its lowest point has reached the
/// water level, and never starts to sink without touching down first.
pub proof fn lemma_flying_touches_down(settings: SettingsModel, stone: StoneInfo)
    requires
        settings.phase == Phase::Flying,
    ensures
        settings.next_phase(stone) == Phase::Bouncing <==> settings.lowest_point(stone).raw
            <= settings.water_level.raw,
        settings.next_phase(stone) == Phase::Flying <==> settings.lowest_point(stone).raw
            > settings.water_level.raw,
        settings.next_phase(stone) != Phase::Sinking,
        settings.prepared(stone).phase != Phase::Sinking,
{
}

/// A stone in contact with the water that moves upward with its lowest point
/// above the water level flies at the very next update of the phase, whatever
/// the sinking rule says.
pub proof fn lemma_rising_stone_takes_off(settings: SettingsModel, stone: StoneInfo)
    requires
        settings.phase == Phase::Bouncing,
        stone.velocity.y.raw > 0,
        settings.lowest_point(stone).raw > settings.water_level.raw,
    ensures
        settings.next_phase(stone) == Phase::Flying,
{
}

impl CustomSettings {
    /// Sets the phase that follows the current one for a stone in the given state.
    ///
    /// Flying becomes Bouncing when the lowest point of the stone has reached
    /// the water level. Bouncing becomes Flying when the lowest point is above
    /// the water level and the stone moves upward, and otherwise Sinking when
    /// the sinking rule fires. Sinking stays.
    pub fn update_phase(&mut self, stone: &StoneInfo)
        ensures
            final(self)@ == old(self)@.with_updated_phase(*stone),
    {
        let r = self.stone.d_max.sqrt();
        let lowest = stone.position.y - r * sin(stone.angle.x);
        match self.phase {
            Phase::Flying => {
                if lowest.raw <= self.water_level.raw {
                    self.phase = Phase::Bouncing;
                }
            },
            Phase::Bouncing => {
                if lowest.raw > self.water_level.raw && stone.velocity.y.raw > 0 {
                    self.phase = Phase::Flying;
                    return ;
                }
                let vertical_force = self.compute_vertical_force(stone);
                let speed = stone.velocity.length();
                if vertical_force.raw < self.min_net_lift.raw || speed.raw < self.min_speed.raw {
                    self.phase = Phase::Sinking;
                }
            },
            Phase::Sinking => {},
        }
    }

    /// Estimate of the net vertical force on the stone: lift on the cached
    /// submerged area less weight.
    pub fn compute_vertical_force(&self, stone: &StoneInfo) -> (r: Fixed)
        ensures
            r == self@.vertical_force(*stone),
    {
        let v2 = stone.velocity.length_squared();
        Fixed { raw: HALF } * self.rho * v2 * self.Sim * self.Cl - self.M * self.gravity
    }
}

/// The right-hand side that the integrator sees is the force model of the settings.
pub proof fn lemma_right_hand_side(system: &CustomSettings)
    ensures
        right_hand_side::<StoneInfo, CustomSettings>(system) == stone_right_hand_side(system@),
{
    assert(right_hand_side::<StoneInfo, CustomSettings>(system) =~= stone_right_hand_side(
        system@,
    ));
}

/// Performs one step of the simulation and says whether the state advanced.
///
/// The cached submerged area is brought up to date if the stone is in contact
/// with the water, and the phase is updated from the current state. If the
/// stone is then sinking, time and state stay as they are; otherwise they
/// advance by one Runge-Kutta step of the force model.
pub fn advance(
    system: &mut CustomSettings,
    solver: &mut RungeKuttaSolver<StoneInfo>,
    dt: Fixed,
) -> (stepped: bool)
    ensures
        final(system)@ == old(system)@.prepared(old(solver).state),
        stepped == (final(system)@.phase != Phase::Sinking),
        !stepped ==> final(solver).t == old(solver).t && final(solver).state == old(solver).state,
        stepped ==> final(solver).t == old(solver).t.add_spec(dt) && final(solver).state
            == rk4_formula::<StoneInfo>(
            stone_right_hand_side(final(system)@),
            old(solver).t,
            old(solver).state,
            dt,
        ),
{
    if system.phase == Phase::Bouncing {
        system.update_submerged_area(&solver.state);
    }
    system.update_phase(&solver.state);
    if system.phase == Phase::Sinking {
        return false;
    }
    proof {
        lemma_right_hand_side(system);
    }
    solver.step(system, dt);
    true
}

/// Runs the simulation for at most `max_steps` steps of size `dt`.
///
/// The returned trajectory holds the state before each step, the initial
/// state first. Before each step the cached submerged area is brought up to
/// date if the stone is in contact with the water, and the phase is updated
/// from the state before the step. The run ends early, without another step,
/// once the stone sinks.
pub fn simulate(
    system: &mut CustomSettings,
    solver: &mut RungeKuttaSolver<StoneInfo>,
    dt: Fixed,
    max_steps: usize,
) -> (trajectory: Vec<Stamp>)
    ensures
        trajectory@ == simulate_spec(
            old(system)@,
            old(solver).t,
            old(solver).state,
            dt,
            max_steps as nat,
        ).trajectory,
        final(system)@ == simulate_spec(
            old(system)@,
            old(solver).t,
            old(solver).state,
            dt,
            max_steps as nat,
        ).settings,
        final(solver).t == simulate_spec(
            old(system)@,
            old(solver).t,
            old(solver).state,
            dt,
            max_steps as nat,
        ).t,
        final(solver).state == simulate_spec(
            old(system)@,
            old(solver).t,
            old(solver).state,
            dt,
            max_steps as nat,
        ).state,
{
    let mut trajectory: Vec<Stamp> = Vec::new();
    let ghost whole = simulate_spec(
        old(system)@,
        old(solver).t,
        old(solver).state,
        dt,
        max_steps as nat,
    );
    let mut i: usize = 0;
    while i < max_steps
        invariant_except_break
            0 <= i <= max_steps,
            whole == prepend(
                trajectory@,
                simulate_spec(system@, solver.t, solver.state, dt, (max_steps - i) as nat),
            ),
        ensures
            whole.trajectory == trajectory@,
            whole.settings == system@,
            whole.t == solver.t,
            whole.state == solver.state,
        decreases max_steps - i,
    {
        let ghost settings = system@;
        let ghost t = solver.t;
        let ghost state = solver.state;
        let ghost recorded = trajectory@;
        trajectory.push(Stamp { state: solver.state, t: solver.t });
        let stepped = advance(system, solver, dt);
        proof {
            lemma_simulate_unfold(settings, t, state, dt, (max_steps - i) as nat);
            lemma_prepend_twice(
                recorded,
                seq![Stamp { t, state }],
                simulate_spec(system@, solver.t, solver.state, dt, (max_steps - i - 1) as nat),
            );
            assert(trajectory@ =~= recorded + seq![Stamp { t, state }]);
        }
        if !stepped {
            break ;
        }
        i = i + 1;
    }
    proof {
        if i == max_steps {
            assert(trajectory@ + Seq::<Stamp>::empty() =~= trajectory@);
        }
    }
    trajectory
}

} // verus!
