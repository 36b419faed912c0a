//! Tunable parameters of the physics core, all in fixed-point sub-units
//! (per `fx::FX_ONE`).

use vstd::prelude::*;

use crate::fx::{FX_MAX, FX_RAW_MAX};

verus! {

/// The engine's configuration: gravity and restitution, the player's
/// radius band and resize rate, rest detection, the win-distance slack,
/// the sub-step distance cap, and the editor's snap threshold.
#[derive(Clone, Copy, PartialEq, Eq, Structural, Debug)]
pub struct Config {
    /// Downward acceleration, sub-units per second squared.
    pub gravity: i64,
    /// Restitution multiplier applied on top of full reflection.
    pub bounciness: i64,
    /// Tangential clamp coefficient of the friction rule.
    pub friction: i64,
    /// Radius taken when neither grow nor shrink is asked for.
    pub neutral_radius: i64,
    /// Lower bound of the radius band reachable by scaling input.
    pub min_radius: i64,
    /// Upper bound of the radius band.
    pub max_radius: i64,
    /// Rate at which the radius closes on its target.
    pub scaling_rate: i64,
    /// Speed above which a body cannot be resting.
    pub still_max_vel: i64,
    /// Seconds of quiet needed to reach full rest.
    pub still_time_to_full: i64,
    /// Extra win distance around the finish point.
    pub finish_radius: i64,
    /// Farthest a body may travel in one micro-step.
    pub tick_distance: i64,
    /// Editor snap and hover threshold.
    pub snap_distance: i64,
}

/// A usable configuration: every parameter in its band, a positive
/// radius band in order, a positive rest ramp and step cap.
pub open spec fn cfg_wf(c: Config) -> bool {
    &&& 0 <= c.gravity <= FX_MAX
    &&& 0 <= c.bounciness <= FX_MAX
    &&& 0 <= c.friction <= FX_MAX
    &&& 0 < c.min_radius <= c.neutral_radius <= c.max_radius <= FX_MAX
    &&& 0 <= c.scaling_rate <= FX_MAX
    &&& 0 <= c.still_max_vel <= FX_MAX
    &&& 1 <= c.still_time_to_full <= FX_RAW_MAX
    &&& 0 <= c.finish_radius <= FX_MAX
    &&& 1 <= c.tick_distance <= FX_MAX
    &&& 0 <= c.snap_distance <= FX_MAX
}

impl Config {
    /// Whether this configuration satisfies every precondition the
    /// engine's entry points put on it; an embedding application checks
    /// this once before stepping.
    pub fn check_wf(&self) -> (r: bool)
        ensures
            r == cfg_wf(*self),
    {
        0 <= self.gravity && self.gravity <= FX_MAX && 0 <= self.bounciness && self.bounciness
            <= FX_MAX && 0 <= self.friction && self.friction <= FX_MAX && 0 < self.min_radius
            && self.min_radius <= self.neutral_radius && self.neutral_radius <= self.max_radius
            && self.max_radius <= FX_MAX && 0 <= self.scaling_rate && self.scaling_rate <= FX_MAX
            && 0 <= self.still_max_vel && self.still_max_vel <= FX_MAX && 1
            <= self.still_time_to_full && self.still_time_to_full <= FX_RAW_MAX && 0
            <= self.finish_radius && self.finish_radius <= FX_MAX && 1 <= self.tick_distance
            && self.tick_distance <= FX_MAX && 0 <= self.snap_distance && self.snap_distance
            <= FX_MAX
    }
}

} // verus!
