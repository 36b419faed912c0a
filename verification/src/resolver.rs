//! The collision resolver: one micro-step of the physics.
//!
//! A micro-step, in order: rest ("stillness") update, gravity and
//! integration damped by rest, radius scaling about the boundary point
//! nearest the cursor, then penetration resolution against every
//! segment in level order (push out along the normal, compress the
//! radius by the same depth, bounce the inbound normal velocity with
//! restitution, clamp the tangential velocity by Coulomb-style
//! friction), and finally the win test against the finish anchor.

use vstd::prelude::*;

use crate::config::{cfg_wf, Config};
use crate::fx;
use crate::fx::{FX_MAX, FX_ONE};
use crate::level::{level_wf, Level};
use crate::player::{body_wf, PlayerBody};
use crate::segment::{seg_in_range, to_spec, Segment};
use crate::vec::{
    add_sat_spec, clamp_len_spec, dist2_spec, len2_spec, sub_sat_spec, v_in_range, v_zero, Fv2,
};

verus! {

/// What the caller observed this micro-step: the cursor's world
/// position and the grow/shrink intents.
#[derive(Clone, Copy, PartialEq, Eq, Structural, Debug)]
pub struct StepInput {
    pub cursor: Fv2,
    pub grow: bool,
    pub shrink: bool,
}

/// What one micro-step reports back: whether the finish was reached,
/// the signed resize speed (for feedback hooks), and the impact speed
/// of every bounce, in level order.
#[derive(Clone, Debug)]
pub struct StepOutcome {
    pub finished: bool,
    pub scaling_speed: i64,
    pub impacts: Vec<i64>,
}

impl StepInput {
    /// Package a step's inputs, clamping the cursor into the storable
    /// band.
    pub fn new(cursor: Fv2, grow: bool, shrink: bool) -> (r: StepInput)
        ensures
            r.cursor == crate::vec::clamp_v_spec(cursor),
            r.grow == grow,
            r.shrink == shrink,
            v_in_range(r.cursor),
    {
        StepInput { cursor: cursor.clamped(), grow, shrink }
    }
}

/// Dot product of an `FX_ONE`-scaled direction with a vector, scaled
/// back down: the vector's component along the direction.
pub open spec fn dot_scaled_spec(n: Fv2, v: Fv2) -> int {
    fx::div_tz(n.x * v.x + n.y * v.y, FX_ONE as int)
}

/// The radius the scaling input asks for.
pub open spec fn target_radius_spec(c: Config, inp: StepInput) -> int {
    if inp.grow {
        c.max_radius as int
    } else if inp.shrink {
        c.min_radius as int
    } else {
        c.neutral_radius as int
    }
}

/// Rest update, gravity, integration: the body after the movement part
/// of a micro-step of `dt`.
pub open spec fn phase_move_spec(b: PlayerBody, c: Config, dt: int) -> PlayerBody {
    let inc = fx::div_fx_spec(dt, c.still_time_to_full as int);
    let raised = if b.stillness + inc <= FX_ONE as int {
        b.stillness + inc
    } else {
        FX_ONE as int
    };
    let vlen = fx::sqrt_floor(len2_spec(b.vel) as nat) as int;
    let st = if vlen > c.still_max_vel {
        0
    } else {
        raised
    };
    let gstep = fx::mul_fx_spec(fx::mul_fx_spec(c.gravity as int, dt), FX_ONE as int - st);
    let vel = Fv2 { x: b.vel.x, y: fx::sat_spec(b.vel.y - gstep) as i64 };
    let mx = fx::mul_fx_spec(fx::mul_fx_spec(vel.x as int, dt), FX_ONE as int - st);
    let my = fx::mul_fx_spec(fx::mul_fx_spec(vel.y as int, dt), FX_ONE as int - st);
    let pos = Fv2 {
        x: fx::sat_spec(b.pos.x + mx) as i64,
        y: fx::sat_spec(b.pos.y + my) as i64,
    };
    PlayerBody {
        pos,
        vel,
        radius: b.radius,
        stillness: st as i64,
        scale_origin: b.scale_origin,
    }
}

/// The signed resize speed a step's input asks for.
pub open spec fn scaling_speed_spec(b: PlayerBody, c: Config, inp: StepInput) -> int {
    fx::mul_fx_spec(target_radius_spec(c, inp) - b.radius, c.scaling_rate as int)
}

/// The offset from the body's center to the boundary point nearest the
/// cursor: the cursor displacement clamped to the radius.
pub open spec fn cursor_offset_spec(b: PlayerBody, inp: StepInput) -> Fv2 {
    clamp_len_spec(sub_sat_spec(inp.cursor, b.pos), b.radius as int)
}

/// The pivot of this step's radius change: the body's boundary point
/// nearest the cursor.
pub open spec fn scale_origin_spec(b: PlayerBody, inp: StepInput) -> Fv2 {
    add_sat_spec(b.pos, cursor_offset_spec(b, inp))
}

/// Radius scaling about the boundary point nearest the cursor: the body
/// after the scale part of a micro-step, and the signed scaling speed.
pub open spec fn phase_scale_spec(b: PlayerBody, c: Config, inp: StepInput, dt: int) -> (
    PlayerBody,
    int,
) {
    let ss = scaling_speed_spec(b, c, inp);
    let st = if fx::abs_spec(ss) > c.still_max_vel {
        0
    } else {
        b.stillness as int
    };
    let origin = scale_origin_spec(b, inp);
    let nr = fx::clamp_spec(
        b.radius + fx::mul_fx_spec(ss, dt),
        c.min_radius as int,
        c.max_radius as int,
    );
    let pos = if b.radius > 0 {
        let away = sub_sat_spec(b.pos, origin);
        add_sat_spec(
            origin,
            Fv2 {
                x: fx::muldiv_sat_spec(away.x as int, nr, b.radius as int) as i64,
                y: fx::muldiv_sat_spec(away.y as int, nr, b.radius as int) as i64,
            },
        )
    } else {
        b.pos
    };
    (
        PlayerBody {
            pos,
            vel: b.vel,
            radius: nr as i64,
            stillness: st as i64,
            scale_origin: origin,
        },
        ss,
    )
}

/// Penetration resolution against one segment: the body afterwards and
/// the impact speed if the step bounced. `ss` is the scaling speed of
/// this micro-step, `so` its scale origin, `orad` the radius before
/// scaling: a growing boundary adds outward velocity at the contact
/// point.
pub open spec fn resolve_seg_spec(
    b: PlayerBody,
    s: Segment,
    c: Config,
    ss: int,
    so: Fv2,
    orad: int,
) -> (PlayerBody, Option<i64>) {
    let f = to_spec(s, b.pos);
    if f.distance < b.radius {
        let pen = b.radius - f.distance;
        let push = Fv2 {
            x: fx::muldiv_sat_spec(f.normal.x as int, pen, FX_ONE as int) as i64,
            y: fx::muldiv_sat_spec(f.normal.y as int, pen, FX_ONE as int) as i64,
        };
        let pos = add_sat_spec(b.pos, push);
        let rel = sub_sat_spec(f.closest_point, so);
        let svel = if orad > 0 {
            Fv2 {
                x: fx::muldiv_sat_spec(ss, rel.x as int, orad) as i64,
                y: fx::muldiv_sat_spec(ss, rel.y as int, orad) as i64,
            }
        } else {
            v_zero()
        };
        let vcp = add_sat_spec(b.vel, svel);
        let nv = dot_scaled_spec(f.normal, vcp);
        let vel1 = if nv < 0 {
            let factor = fx::muldiv_sat_spec(nv, FX_ONE as int + c.bounciness, FX_ONE as int);
            sub_sat_spec(
                b.vel,
                Fv2 {
                    x: fx::muldiv_sat_spec(f.normal.x as int, factor, FX_ONE as int) as i64,
                    y: fx::muldiv_sat_spec(f.normal.y as int, factor, FX_ONE as int) as i64,
                },
            )
        } else {
            b.vel
        };
        let imp = if nv < 0 {
            Some((-nv) as i64)
        } else {
            None
        };
        let along = Fv2 { x: (-f.normal.y) as i64, y: f.normal.x };
        let av = dot_scaled_spec(along, vcp);
        let cap = fx::muldiv_sat_spec(fx::abs_spec(nv), c.friction as int, FX_ONE as int);
        let slow = fx::clamp_abs_spec(av, cap);
        let vel2 = sub_sat_spec(
            vel1,
            Fv2 {
                x: fx::muldiv_sat_spec(along.x as int, slow, FX_ONE as int) as i64,
                y: fx::muldiv_sat_spec(along.y as int, slow, FX_ONE as int) as i64,
            },
        );
        (
            PlayerBody {
                pos,
                vel: vel2,
                radius: f.distance,
                stillness: b.stillness,
                scale_origin: b.scale_origin,
            },
            imp,
        )
    } else {
        (b, None::<i64>)
    }
}

/// The body and impact list after resolving the first `n` segments of
/// the level, in order, independently (no fixed-point iteration).
pub open spec fn resolve_upto_spec(
    b: PlayerBody,
    segs: Seq<Segment>,
    c: Config,
    ss: int,
    so: Fv2,
    orad: int,
    n: int,
) -> (PlayerBody, Seq<i64>)
    decreases n,
{
    if n <= 0 {
        (b, Seq::<i64>::empty())
    } else {
        let prev = resolve_upto_spec(b, segs, c, ss, so, orad, n - 1);
        let step = resolve_seg_spec(prev.0, segs[n - 1], c, ss, so, orad);
        (
            step.0,
            match step.1 {
                Some(v) => prev.1.push(v),
                None => prev.1,
            },
        )
    }
}

/// A whole micro-step up to (not including) the win test: the body
/// afterwards, the impact speeds, and the scaling speed. Opaque so
/// that callers reason through `micro_step`'s contract, not the whole
/// unfolded step.
#[verifier::opaque]
pub open spec fn step_core_spec(
    b: PlayerBody,
    segs: Seq<Segment>,
    c: Config,
    inp: StepInput,
    dt: int,
) -> (PlayerBody, Seq<i64>, int) {
    let moved = phase_move_spec(b, c, dt);
    let scaled = phase_scale_spec(moved, c, inp, dt);
    let resolved = resolve_upto_spec(
        scaled.0,
        segs,
        c,
        scaled.1,
        scaled.0.scale_origin,
        moved.radius as int,
        segs.len() as int,
    );
    (resolved.0, resolved.1, scaled.1)
}

/// The body a whole micro-step leaves behind.
#[verifier::opaque]
pub open spec fn step_body_spec(
    b: PlayerBody,
    segs: Seq<Segment>,
    c: Config,
    inp: StepInput,
    dt: int,
) -> PlayerBody {
    step_core_spec(b, segs, c, inp, dt).0
}

/// The win test: the body overlaps the finish circle.
pub open spec fn finished_spec(b: PlayerBody, finish: Fv2, c: Config) -> bool {
    (fx::sqrt_floor(dist2_spec(b.pos, finish) as nat) as int) < b.radius + c.finish_radius
}

/// The component of `v` along the `FX_ONE`-scaled direction `n`.
fn dot_scaled(n: Fv2, v: Fv2) -> (r: i64)
    requires
        -(FX_ONE as int) <= n.x as int <= FX_ONE as int,
        -(FX_ONE as int) <= n.y as int <= FX_ONE as int,
        v_in_range(v),
    ensures
        r as int == dot_scaled_spec(n, v),
        -0x4000_0000 <= r <= 0x4000_0000,
{
    proof {
        assert(-0x2000_0000_0000 <= n.x as int * v.x as int <= 0x2000_0000_0000
            && -0x2000_0000_0000 <= n.y as int * v.y as int <= 0x2000_0000_0000)
            by (nonlinear_arith)
            requires
                -65536 <= n.x as int <= 65536,
                -65536 <= n.y as int <= 65536,
                -536870912 <= v.x as int <= 536870912,
                -536870912 <= v.y as int <= 536870912,
        ;
        fx::lemma_div_tz_bound(
            n.x as int * v.x as int + n.y as int * v.y as int,
            FX_ONE as int,
            0x4000_0000,
        );
    }
    fx::div_tz_i64(n.x * v.x + n.y * v.y, FX_ONE)
}

/// Rest update, gravity, integration.
fn phase_move(body: &mut PlayerBody, cfg: &Config, dt: i64)
    requires
        cfg_wf(*cfg),
        body_wf(*old(body), *cfg),
        0 <= dt <= FX_MAX,
    ensures
        *final(body) == phase_move_spec(*old(body), *cfg, dt as int),
        body_wf(*final(body), *cfg),
{
    let inc: i64 = fx::div_fx(dt, cfg.still_time_to_full);
    proof {
        fx::lemma_muldiv_sat_nonneg(dt as int, FX_ONE as int, cfg.still_time_to_full as int);
    }
    let mut st: i64 = fx::min_i64(body.stillness + inc, FX_ONE);
    let vlen: i64 = body.vel.len();
    if vlen > cfg.still_max_vel {
        st = 0;
    }
    let gstep: i64 = fx::mul_fx(fx::mul_fx(cfg.gravity, dt), FX_ONE - st);
    let vel = Fv2 { x: body.vel.x, y: fx::sat_fx(body.vel.y - gstep) };
    let mx: i64 = fx::mul_fx(fx::mul_fx(vel.x, dt), FX_ONE - st);
    let my: i64 = fx::mul_fx(fx::mul_fx(vel.y, dt), FX_ONE - st);
    let pos = Fv2 { x: fx::sat_fx(body.pos.x + mx), y: fx::sat_fx(body.pos.y + my) };
    body.pos = pos;
    body.vel = vel;
    body.stillness = st;
}

/// Radius scaling about the boundary point nearest the cursor.
fn phase_scale(body: &mut PlayerBody, cfg: &Config, input: &StepInput, dt: i64) -> (ss: i64)
    requires
        cfg_wf(*cfg),
        body_wf(*old(body), *cfg),
        v_in_range(input.cursor),
        0 <= dt <= FX_MAX,
    ensures
        *final(body) == phase_scale_spec(*old(body), *cfg, *input, dt as int).0,
        ss as int == phase_scale_spec(*old(body), *cfg, *input, dt as int).1,
        -FX_MAX <= ss <= FX_MAX,
        body_wf(*final(body), *cfg),
        final(body).radius >= cfg.min_radius,
{
    let target: i64 = if input.grow {
        cfg.max_radius
    } else if input.shrink {
        cfg.min_radius
    } else {
        cfg.neutral_radius
    };
    let ss: i64 = fx::mul_fx(target - body.radius, cfg.scaling_rate);
    if fx::abs_i64(ss) > cfg.still_max_vel {
        body.stillness = 0;
    }
    let rel = input.cursor.sub_sat(body.pos);
    let co = rel.clamp_len(body.radius);
    let origin = body.pos.add_sat(co);
    let growth: i64 = fx::mul_fx(ss, dt);
    let nr: i64 = fx::clamp_i64(body.radius + growth, cfg.min_radius, cfg.max_radius);
    if body.radius > 0 {
        let away = body.pos.sub_sat(origin);
        let scaled = Fv2 {
            x: fx::muldiv_sat(away.x, nr, body.radius),
            y: fx::muldiv_sat(away.y, nr, body.radius),
        };
        body.pos = origin.add_sat(scaled);
    }
    body.scale_origin = origin;
    body.radius = nr;
    ss
}

/// Penetration resolution against one segment.
fn resolve_one(body: &mut PlayerBody, s: &Segment, cfg: &Config, ss: i64, so: Fv2, orad: i64) -> (imp:
    Option<i64>)
    requires
        cfg_wf(*cfg),
        body_wf(*old(body), *cfg),
        seg_in_range(*s),
        -FX_MAX <= ss <= FX_MAX,
        v_in_range(so),
        0 <= orad <= FX_MAX,
    ensures
        *final(body) == resolve_seg_spec(*old(body), *s, *cfg, ss as int, so, orad as int).0,
        imp == resolve_seg_spec(*old(body), *s, *cfg, ss as int, so, orad as int).1,
        body_wf(*final(body), *cfg),
{
    let f = s.to(body.pos);
    if f.distance < body.radius {
        let pen: i64 = body.radius - f.distance;
        let push = Fv2 {
            x: fx::muldiv_sat(f.normal.x, pen, FX_ONE),
            y: fx::muldiv_sat(f.normal.y, pen, FX_ONE),
        };
        let rel = f.closest_point.sub_sat(so);
        let svel = if orad > 0 {
            Fv2 { x: fx::muldiv_sat(ss, rel.x, orad), y: fx::muldiv_sat(ss, rel.y, orad) }
        } else {
            Fv2 { x: 0, y: 0 }
        };
        let vcp = body.vel.add_sat(svel);
        let nv: i64 = dot_scaled(f.normal, vcp);
        body.pos = body.pos.add_sat(push);
        body.radius = f.distance;
        let mut imp: Option<i64> = None;
        if nv < 0 {
            let factor: i64 = fx::muldiv_sat(nv, FX_ONE + cfg.bounciness, FX_ONE);
            let dv = Fv2 {
                x: fx::muldiv_sat(f.normal.x, factor, FX_ONE),
                y: fx::muldiv_sat(f.normal.y, factor, FX_ONE),
            };
            body.vel = body.vel.sub_sat(dv);
            imp = Some(-nv);
        }
        let along = f.normal.rotate_90();
        let av: i64 = dot_scaled(along, vcp);
        proof {
            fx::lemma_muldiv_sat_nonneg(
                fx::abs_spec(nv as int),
                cfg.friction as int,
                FX_ONE as int,
            );
        }
        let cap: i64 = fx::muldiv_sat(fx::abs_i64(nv), cfg.friction, FX_ONE);
        let slow: i64 = fx::clamp_abs_i64(av, cap);
        let fv = Fv2 {
            x: fx::muldiv_sat(along.x, slow, FX_ONE),
            y: fx::muldiv_sat(along.y, slow, FX_ONE),
        };
        body.vel = body.vel.sub_sat(fv);
        imp
    } else {
        None
    }
}

/// One micro-step of the resolver: advance `body` by `dt` against the
/// level's segments under the given input, and report the outcome.
pub fn micro_step(
    body: &mut PlayerBody,
    level: &Level,
    cfg: &Config,
    input: &StepInput,
    dt: i64,
) -> (out: StepOutcome)
    requires
        cfg_wf(*cfg),
        body_wf(*old(body), *cfg),
        level_wf(*level),
        v_in_range(input.cursor),
        0 <= dt <= FX_MAX,
    ensures
        *final(body) == step_body_spec(*old(body), level.surfaces@, *cfg, *input, dt as int),
        out.impacts@ == step_core_spec(*old(body), level.surfaces@, *cfg, *input, dt as int).1,
        out.scaling_speed as int == step_core_spec(
            *old(body),
            level.surfaces@,
            *cfg,
            *input,
            dt as int,
        ).2,
        out.finished == finished_spec(*final(body), level.finish_pos, *cfg),
        body_wf(*final(body), *cfg),
{
    proof {
        reveal(step_core_spec);
        reveal(step_body_spec);
    }
    phase_move(body, cfg, dt);
    let orad: i64 = body.radius;
    let ss: i64 = phase_scale(body, cfg, input, dt);
    let so: Fv2 = body.scale_origin;
    let ghost b2: PlayerBody = *body;
    let mut impacts: Vec<i64> = Vec::new();
    let mut i: usize = 0;
    while i < level.surfaces.len()
        invariant
            cfg_wf(*cfg),
            level_wf(*level),
            -FX_MAX <= ss <= FX_MAX,
            v_in_range(so),
            0 <= orad <= FX_MAX,
            i <= level.surfaces@.len(),
            body_wf(*body, *cfg),
            *body == resolve_upto_spec(
                b2,
                level.surfaces@,
                *cfg,
                ss as int,
                so,
                orad as int,
                i as int,
            ).0,
            impacts@ == resolve_upto_spec(
                b2,
                level.surfaces@,
                *cfg,
                ss as int,
                so,
                orad as int,
                i as int,
            ).1,
        decreases level.surfaces@.len() - i as int,
    {
        let s: Segment = level.surfaces[i];
        let imp = resolve_one(body, &s, cfg, ss, so, orad);
        if let Some(v) = imp {
            impacts.push(v);
        }
        i = i + 1;
    }
    let d: i64 = body.pos.dist(level.finish_pos);
    let finished: bool = d < body.radius + cfg.finish_radius;
    StepOutcome { finished, scaling_speed: ss, impacts }
}

} // verus!
