//! The player body: the one piece of mutable physical state.

use vstd::prelude::*;

use crate::config::{cfg_wf, Config};
use crate::fx::{FX_MAX, FX_ONE};
use crate::vec::{v_in_range, v_zero, Fv2};

verus! {

/// Mutable physical state of the player-controlled circle. Mutated only
/// by the collision resolver and the step scheduler.
#[derive(Clone, Copy, PartialEq, Eq, Structural, Debug)]
pub struct PlayerBody {
    pub pos: Fv2,
    pub vel: Fv2,
    /// Current radius; scaling keeps it inside the configured band, a
    /// squeeze against a wall may compress it below `min_radius`.
    pub radius: i64,
    /// Rest factor in `[0, FX_ONE]`: 0 fully moving, FX_ONE fully at
    /// rest (gravity and integration suppressed).
    pub stillness: i64,
    /// Pivot of the last radius change: the boundary point nearest the
    /// cursor.
    pub scale_origin: Fv2,
}

/// The body invariant the resolver preserves: vectors in the storable
/// band, radius within `[0, max_radius]`, stillness within
/// `[0, FX_ONE]`.
pub open spec fn body_wf(b: PlayerBody, c: Config) -> bool {
    &&& v_in_range(b.pos)
    &&& v_in_range(b.vel)
    &&& v_in_range(b.scale_origin)
    &&& 0 <= b.radius <= c.max_radius
    &&& 0 <= b.stillness <= FX_ONE
}

impl PlayerBody {
    /// The body placed at a level's start (or a respawn point): at
    /// rest, neutral radius.
    pub fn spawn(start: Fv2, cfg: &Config) -> (r: PlayerBody)
        requires
            cfg_wf(*cfg),
            v_in_range(start),
        ensures
            r.pos == start,
            r.vel == v_zero(),
            r.radius == cfg.neutral_radius,
            r.stillness == 0,
            r.scale_origin == v_zero(),
            body_wf(r, *cfg),
    {
        PlayerBody {
            pos: start,
            vel: Fv2 { x: 0, y: 0 },
            radius: cfg.neutral_radius,
            stillness: 0,
            scale_origin: Fv2 { x: 0, y: 0 },
        }
    }

    /// Whether this body satisfies the invariant the stepping functions
    /// require; an embedding application checks this for state it built
    /// itself.
    pub fn check_wf(&self, cfg: &Config) -> (r: bool)
        ensures
            r == body_wf(*self, *cfg),
    {
        -FX_MAX <= self.pos.x && self.pos.x <= FX_MAX && -FX_MAX <= self.pos.y && self.pos.y
            <= FX_MAX && -FX_MAX <= self.vel.x && self.vel.x <= FX_MAX && -FX_MAX <= self.vel.y
            && self.vel.y <= FX_MAX && -FX_MAX <= self.scale_origin.x && self.scale_origin.x
            <= FX_MAX && -FX_MAX <= self.scale_origin.y && self.scale_origin.y <= FX_MAX && 0
            <= self.radius && self.radius <= cfg.max_radius && 0 <= self.stillness
            && self.stillness <= FX_ONE
    }
}

} // verus!
