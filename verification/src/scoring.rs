//! Counting the skips of a throw and the time it spends in the air.
use crate::fixed::Fixed;
use vstd::prelude::*;

verus! {

/// The score of a throw.
#[derive(Clone, Copy, PartialEq, Eq, Debug, Structural)]
pub struct Score {
    /// Number of times the stone has left the water.
    pub skip_count: u64,
    /// Time spent above the water since the first contact, in seconds.
    pub air_time: Fixed,
    /// Whether the stone has reached the water yet.
    pub has_touched_water: bool,
    /// Whether the stone has sunk.
    pub is_game_over: bool,
}

impl Score {
    /// The score after one step that took the stone's center of mass from
    /// height `y_prev` to height `y_curr` in the time `dt`.
    ///
    /// The first step that ends at or below the water level marks the first
    /// contact. From then on a step from at or below the water level to above
    /// it counts as a skip, and every step that ends above the water level
    /// adds its duration to the time in the air.
    pub open spec fn after_step(
        self,
        y_prev: Fixed,
        y_curr: Fixed,
        dt: Fixed,
        water_level: Fixed,
    ) -> Score {
        let touched = self.has_touched_water || y_curr.raw <= water_level.raw;
        let skipped = touched && y_prev.raw <= water_level.raw && y_curr.raw > water_level.raw;
        let in_air = touched && y_curr.raw > water_level.raw;
        Score {
            skip_count: if skipped && self.skip_count < u64::MAX {
                (self.skip_count + 1) as u64
            } else {
                self.skip_count
            },
            air_time: if in_air {
                self.air_time.add_spec(dt)
            } else {
                self.air_time
            },
            has_touched_water: touched,
            is_game_over: self.is_game_over,
        }
    }

    /// The score at the start of a throw.
    pub fn new() -> (r: Score)
        ensures
            r.skip_count == 0,
            r.air_time.raw == 0,
            !r.has_touched_water,
            !r.is_game_over,
    {
        Score {
            skip_count: 0,
            air_time: Fixed::zero(),
            has_touched_water: false,
            is_game_over: false,
        }
    }

    /// Takes one step of the stone into account.
    pub fn record_step(&mut self, y_prev: Fixed, y_curr: Fixed, dt: Fixed, water_level: Fixed)
        ensures
            *final(self) == old(self).after_step(y_prev, y_curr, dt, water_level),
    {
        if !self.has_touched_water && y_curr.raw <= water_level.raw {
            self.has_touched_water = true;
        }
        if self.has_touched_water {
            if y_prev.raw <= water_level.raw && y_curr.raw > water_level.raw {
                if self.skip_count < u64::MAX {
                    self.skip_count = self.skip_count + 1;
                }
            }
            if y_curr.raw > water_level.raw {
                self.air_time = self.air_time.add(dt);
            }
        }
    }

    /// Marks the throw as over.
    pub fn finish(&mut self)
        ensures
            *final(self) == (Score { is_game_over: true, ..*old(self) }),
    {
        self.is_game_over = true;
    }
}

/// The number of skips never goes down, and the stone, once it has touched
/// the water, has touched it for good.
pub proof fn lemma_score_only_grows(
    score: Score,
    y_prev: Fixed,
    y_curr: Fixed,
    dt: Fixed,
    water_level: Fixed,
)
    ensures
        score.after_step(y_prev, y_curr, dt, water_level).skip_count >= score.skip_count,
        score.has_touched_water ==> score.after_step(
            y_prev,
            y_curr,
            dt,
            water_level,
        ).has_touched_water,
{
}

} // verus!
