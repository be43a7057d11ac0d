//! The phases of a throw and the coefficients of the force model.
use crate::basic_structs::Vector2D;
use crate::fixed::Fixed;
use crate::stone_phy::{StoneModel, StoneProperties};
use vstd::prelude::*;

verus! {

/// Density of water in kilograms per cubic meter, in raw units.
pub const WATER_DENSITY: i64 = 1_000_000_000_000;

/// Default lift coefficient, in raw units.
pub const DEFAULT_LIFT: i64 = 200_000_000;

/// Default drag coefficient, in raw units.
pub const DEFAULT_DRAG: i64 = 50_000_000;

/// Submerged area assumed before the first contact, in square meters, in raw units.
pub const DEFAULT_SUBMERGED_AREA: i64 = 10_000_000;

/// Default rotational damping coefficient, in raw units.
pub const DEFAULT_SPIN_DAMPING: i64 = 20_000_000;

/// Default speed below which a stone in contact with the water is given up, in raw units.
pub const DEFAULT_MIN_SPEED: i64 = 200_000_000;

/// Default net vertical force below which a stone in contact with the water
/// is given up, in raw units: the lift must at least carry the weight.
pub const DEFAULT_MIN_NET_LIFT: i64 = 0;

/// The dynamical regime of the stone. `Sinking` is final.
#[derive(PartialEq, Eq, Debug, Clone, Copy, Structural)]
pub enum Phase {
    Flying,
    Bouncing,
    Sinking,
}

/// The simulation's configuration: physical coefficients, the current phase,
/// the stone, and the submerged polygon of the last completed step.
#[allow(non_snake_case)]
pub struct CustomSettings {
    /// Gravitational acceleration in meters per second squared.
    pub gravity: Fixed,
    /// Density of the fluid.
    pub rho: Fixed,
    /// Lift coefficient.
    pub Cl: Fixed,
    /// Drag coefficient.
    pub Cf: Fixed,
    /// Submerged area of the last completed step.
    pub Sim: Fixed,
    /// Mass of the stone.
    pub M: Fixed,
    /// Spin damping coefficient.
    pub beta: Fixed,
    /// The current phase.
    pub phase: Phase,
    /// Height of the water surface.
    pub water_level: Fixed,
    /// Speed below which a stone in contact sinks.
    pub min_speed: Fixed,
    /// Estimated net vertical force below which a stone in contact sinks.
    pub min_net_lift: Fixed,
    /// The stone.
    pub stone: StoneProperties,
    /// Submerged polygon of the last completed step; the derivative never reads it.
    pub current_submerged_polygon: Vec<Vector2D>,
}

/// The mathematical content of a `CustomSettings`.
#[allow(non_snake_case)]
pub struct SettingsModel {
    pub gravity: Fixed,
    pub rho: Fixed,
    pub Cl: Fixed,
    pub Cf: Fixed,
    pub Sim: Fixed,
    pub M: Fixed,
    pub beta: Fixed,
    pub phase: Phase,
    pub water_level: Fixed,
    pub min_speed: Fixed,
    pub min_net_lift: Fixed,
    pub stone: StoneModel,
    pub current_submerged_polygon: Seq<Vector2D>,
}

impl View for CustomSettings {
    type V = SettingsModel;

    open spec fn view(&self) -> SettingsModel {
        SettingsModel {
            gravity: self.gravity,
            rho: self.rho,
            Cl: self.Cl,
            Cf: self.Cf,
            Sim: self.Sim,
            M: self.M,
            beta: self.beta,
            phase: self.phase,
            water_level: self.water_level,
            min_speed: self.min_speed,
            min_net_lift: self.min_net_lift,
            stone: self.stone@,
            current_submerged_polygon: self.current_submerged_polygon@,
        }
    }
}

/// The default configuration for a stone under gravity `g`.
pub open spec fn default_settings(g: Fixed, stone: StoneModel) -> SettingsModel {
    SettingsModel {
        gravity: g,
        rho: Fixed { raw: WATER_DENSITY },
        Cl: Fixed { raw: DEFAULT_LIFT },
        Cf: Fixed { raw: DEFAULT_DRAG },
        Sim: Fixed { raw: DEFAULT_SUBMERGED_AREA },
        M: stone.mass,
        beta: Fixed { raw: DEFAULT_SPIN_DAMPING },
        phase: Phase::Flying,
        water_level: Fixed { raw: 0 },
        min_speed: Fixed { raw: DEFAULT_MIN_SPEED },
        min_net_lift: Fixed { raw: DEFAULT_MIN_NET_LIFT },
        stone,
        current_submerged_polygon: Seq::empty(),
    }
}

impl CustomSettings {
    /// The default configuration for a stone under gravity `g`: water as the
    /// fluid, its surface at height zero, the stone in flight.
    pub fn new(g: Fixed, stone: StoneProperties) -> (r: Self)
        ensures
            r@ == default_settings(g, stone@),
    {
        CustomSettings {
            gravity: g,
            rho: Fixed { raw: WATER_DENSITY },
            Cl: Fixed { raw: DEFAULT_LIFT },
            Cf: Fixed { raw: DEFAULT_DRAG },
            Sim: Fixed { raw: DEFAULT_SUBMERGED_AREA },
            M: stone.mass,
            beta: Fixed { raw: DEFAULT_SPIN_DAMPING },
            phase: Phase::Flying,
            water_level: Fixed { raw: 0 },
            min_speed: Fixed { raw: DEFAULT_MIN_SPEED },
            min_net_lift: Fixed { raw: DEFAULT_MIN_NET_LIFT },
            stone,
            current_submerged_polygon: Vec::new(),
        }
    }
}

} // verus!
