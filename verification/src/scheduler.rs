//! The step scheduler: drains a frame's elapsed time into bounded
//! micro-steps.
//!
//! No micro-step may let the body travel farther than the configured
//! `tick_distance`, so the allowed step time shrinks as speed grows:
//! `step_dt = min(remaining, tick_distance / max(|vel|, 1))`, with a
//! floor of one time sub-unit so that draining always progresses. When
//! the resolver signals the finish, draining stops and the run state
//! flips to `Finished`, which the caller may reset for the next level.

use vstd::prelude::*;

use crate::config::{cfg_wf, Config};
use crate::fx;
use crate::fx::{FX_MAX, FX_ONE};
use crate::level::{level_wf, Level};
use crate::player::{body_wf, PlayerBody};
use crate::resolver;
use crate::resolver::{finished_spec, step_body_spec, StepInput};
use crate::segment::Segment;
use crate::vec::{len2_spec, v_in_range, Fv2};

verus! {

/// Per-attempt run state: collisions keep a running body running; only
/// the finish test ends the attempt.
#[derive(Clone, Copy, PartialEq, Eq, Structural, Debug)]
pub enum RunState {
    Running,
    Finished,
}

/// The scheduler's own state: time received but not yet simulated, and
/// the run state.
#[derive(Clone, Copy, PartialEq, Eq, Structural, Debug)]
pub struct Scheduler {
    pub unprocessed: i64,
    pub state: RunState,
}

/// Accumulated time within `[0, FX_MAX]`.
pub open spec fn sched_wf(sc: Scheduler) -> bool {
    0 <= sc.unprocessed <= FX_MAX
}

/// The time the next micro-step is allowed: the remaining frame time,
/// capped so the body travels at most `tick_distance`, never below one
/// time sub-unit.
pub open spec fn step_dt_spec(unprocessed: int, vel: Fv2, tick_distance: int) -> int {
    let vlen = fx::sqrt_floor(len2_spec(vel) as nat) as int;
    let denom = if vlen >= FX_ONE as int {
        vlen
    } else {
        FX_ONE as int
    };
    let cap0 = fx::div_fx_spec(tick_distance, denom);
    let cap = if cap0 >= 1 {
        cap0
    } else {
        1
    };
    if unprocessed <= cap {
        unprocessed
    } else {
        cap
    }
}

/// What draining `unprocessed` time leaves behind.
pub ghost struct DrainResult {
    pub body: PlayerBody,
    pub unprocessed: int,
    pub steps: int,
    pub finished: bool,
}

/// Drain accumulated time into micro-steps until it is used up or the
/// resolver signals the finish.
pub open spec fn drain_spec(
    b: PlayerBody,
    segs: Seq<Segment>,
    finish: Fv2,
    c: Config,
    inp: StepInput,
    unprocessed: int,
) -> DrainResult
    decreases unprocessed,
{
    if unprocessed <= 0 {
        DrainResult { body: b, unprocessed, steps: 0, finished: false }
    } else {
        let dt = step_dt_spec(unprocessed, b.vel, c.tick_distance as int);
        let nb = step_body_spec(b, segs, c, inp, dt);
        let fin = finished_spec(nb, finish, c);
        let left = unprocessed - dt;
        if fin {
            DrainResult { body: nb, unprocessed: left, steps: 1, finished: true }
        } else {
            let rest = drain_spec(nb, segs, finish, c, inp, left);
            DrainResult {
                body: rest.body,
                unprocessed: rest.unprocessed,
                steps: rest.steps + 1,
                finished: rest.finished,
            }
        }
    }
}

/// What one frame update does: nothing when already finished, else
/// accumulate the frame time (saturated) and drain it.
pub open spec fn update_spec(
    sc: Scheduler,
    b: PlayerBody,
    segs: Seq<Segment>,
    finish: Fv2,
    c: Config,
    inp: StepInput,
    frame_dt: int,
) -> (Scheduler, PlayerBody, int) {
    if sc.state == RunState::Finished {
        (sc, b, 0)
    } else {
        let pool = fx::sat_spec(sc.unprocessed + frame_dt);
        let r = drain_spec(b, segs, finish, c, inp, pool);
        (
            Scheduler {
                unprocessed: r.unprocessed as i64,
                state: if r.finished {
                    RunState::Finished
                } else {
                    RunState::Running
                },
            },
            r.body,
            r.steps,
        )
    }
}

impl Scheduler {
    /// A fresh scheduler: nothing pending, attempt running.
    pub fn new() -> (r: Scheduler)
        ensures
            r.unprocessed == 0,
            r.state == RunState::Running,
            sched_wf(r),
    {
        Scheduler { unprocessed: 0, state: RunState::Running }
    }

    /// Return a finished scheduler to `Running` for the next attempt;
    /// pending time is kept, as an attempt transition does not discard
    /// the frame clock.
    pub fn reset(&mut self)
        ensures
            final(self).state == RunState::Running,
            final(self).unprocessed == old(self).unprocessed,
    {
        self.state = RunState::Running;
    }

    /// Feed one frame's elapsed time; runs as many micro-steps as the
    /// distance cap demands and returns how many ran.
    #[verifier::rlimit(60)]
    pub fn update(
        &mut self,
        body: &mut PlayerBody,
        level: &Level,
        cfg: &Config,
        input: &StepInput,
        frame_dt: i64,
    ) -> (steps: usize)
        requires
            cfg_wf(*cfg),
            body_wf(*old(body), *cfg),
            level_wf(*level),
            v_in_range(input.cursor),
            0 <= frame_dt <= FX_MAX,
            sched_wf(*old(self)),
        ensures
            *final(self) == update_spec(
                *old(self),
                *old(body),
                level.surfaces@,
                level.finish_pos,
                *cfg,
                *input,
                frame_dt as int,
            ).0,
            *final(body) == update_spec(
                *old(self),
                *old(body),
                level.surfaces@,
                level.finish_pos,
                *cfg,
                *input,
                frame_dt as int,
            ).1,
            steps as int == update_spec(
                *old(self),
                *old(body),
                level.surfaces@,
                level.finish_pos,
                *cfg,
                *input,
                frame_dt as int,
            ).2,
            body_wf(*final(body), *cfg),
            sched_wf(*final(self)),
    {
        if matches!(self.state, RunState::Finished) {
            return 0;
        }
        self.unprocessed = fx::sat_fx(self.unprocessed + frame_dt);
        let ghost b0: PlayerBody = *body;
        let ghost pool: int = self.unprocessed as int;
        let mut steps: usize = 0;
        let mut fin: bool = false;
        while self.unprocessed > 0 && !fin
            invariant
                cfg_wf(*cfg),
                level_wf(*level),
                v_in_range(input.cursor),
                body_wf(*body, *cfg),
                0 <= pool <= FX_MAX,
                0 <= self.unprocessed <= FX_MAX,
                0 <= steps as int <= pool - self.unprocessed,
                self.state == RunState::Running,
                fin ==> drain_spec(
                    b0,
                    level.surfaces@,
                    level.finish_pos,
                    *cfg,
                    *input,
                    pool,
                ) == (DrainResult {
                    body: *body,
                    unprocessed: self.unprocessed as int,
                    steps: steps as int,
                    finished: true,
                }),
                !fin ==> drain_spec(b0, level.surfaces@, level.finish_pos, *cfg, *input, pool)
                    == (DrainResult {
                    body: drain_spec(
                        *body,
                        level.surfaces@,
                        level.finish_pos,
                        *cfg,
                        *input,
                        self.unprocessed as int,
                    ).body,
                    unprocessed: drain_spec(
                        *body,
                        level.surfaces@,
                        level.finish_pos,
                        *cfg,
                        *input,
                        self.unprocessed as int,
                    ).unprocessed,
                    steps: steps as int + drain_spec(
                        *body,
                        level.surfaces@,
                        level.finish_pos,
                        *cfg,
                        *input,
                        self.unprocessed as int,
                    ).steps,
                    finished: drain_spec(
                        *body,
                        level.surfaces@,
                        level.finish_pos,
                        *cfg,
                        *input,
                        self.unprocessed as int,
                    ).finished,
                }),
            decreases self.unprocessed,
        {
            let ghost u_pre: int = self.unprocessed as int;
            let ghost b_pre: PlayerBody = *body;
            let vlen: i64 = body.vel.len();
            let denom: i64 = fx::max_i64(vlen, FX_ONE);
            let cap0: i64 = fx::div_fx(cfg.tick_distance, denom);
            let cap: i64 = fx::max_i64(cap0, 1);
            let dt: i64 = fx::min_i64(self.unprocessed, cap);
            proof {
                assert(dt as int == step_dt_spec(u_pre, b_pre.vel, cfg.tick_distance as int));
            }
            let out = resolver::micro_step(body, level, cfg, input, dt);
            self.unprocessed = self.unprocessed - dt;
            steps = steps + 1;
            if out.finished {
                fin = true;
            }
        }
        if fin {
            self.state = RunState::Finished;
        }
        steps
    }
}

} // verus!
