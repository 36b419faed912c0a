//! Scenario tests for the collision resolver and the step scheduler.

use squeeze::config::Config;
use squeeze::fx::FX_ONE;
use squeeze::level::Level;
use squeeze::player::PlayerBody;
use squeeze::resolver::{micro_step, StepInput};
use squeeze::scheduler::{RunState, Scheduler};
use squeeze::segment::Segment;
use squeeze::vec::Fv2;

const S: i64 = FX_ONE;

fn test_config() -> Config {
    Config {
        gravity: 10 * S,
        bounciness: S / 2,
        friction: 0,
        neutral_radius: S,
        min_radius: S / 4,
        max_radius: 2 * S,
        scaling_rate: S,
        still_max_vel: 5 * S,
        // Far longer than any test runs, so rest never builds up.
        still_time_to_full: 8589934592,
        finish_radius: S / 10,
        tick_distance: 6554,
        snap_distance: S / 2,
    }
}

fn floor_level() -> Level {
    let mut level = Level::from_parts(
        Some(Fv2::new(0, 10 * S)),
        Some(Fv2::new(-50 * S, -50 * S)),
        Vec::new(),
    );
    level.add_segment(Fv2::new(-10 * S, 0), Fv2::new(10 * S, 0));
    level
}

fn neutral_input(cursor: Fv2) -> StepInput {
    StepInput::new(cursor, false, false)
}

#[test]
fn falling_body_bounces_and_compresses_on_the_floor() {
    // One micro-step of a full second under gravity 10: the body gains
    // downward speed 10, lands inside the floor, is pushed out,
    // compressed by the penetration depth, and its inbound speed is
    // reflected with restitution 1 + 1/2.
    let cfg = test_config();
    let level = floor_level();
    assert!(cfg.check_wf());
    let mut body = PlayerBody::spawn(Fv2::new(0, 10 * S + S / 2), &cfg);
    let input = neutral_input(Fv2::new(0, 10 * S + S / 2));
    let out = micro_step(&mut body, &level, &cfg, &input, S);
    assert_eq!(body.vel.x, 0);
    assert_eq!(body.vel.y, 5 * S); // -10 reflected by (1 + 0.5) => +5
    assert_eq!(body.pos.x, 0);
    assert_eq!(body.pos.y, S); // pushed back out of the floor
    assert_eq!(body.radius, S / 2); // compressed by the penetration
    assert_eq!(body.stillness, 0);
    assert_eq!(out.scaling_speed, 0);
    assert_eq!(out.impacts, vec![10 * S]);
    assert!(!out.finished);
}

#[test]
fn resolved_body_no_longer_penetrates_its_wall() {
    let cfg = test_config();
    let level = floor_level();
    let mut body = PlayerBody::spawn(Fv2::new(0, 10 * S + S / 2), &cfg);
    let input = neutral_input(Fv2::new(0, 10 * S + S / 2));
    micro_step(&mut body, &level, &cfg, &input, S);
    let f = level.segment_at(0).to(body.pos);
    assert!(f.distance >= body.radius);
}

#[test]
fn resolution_on_a_slanted_wall_leaves_at_most_rounding_penetration() {
    // Nothing is axis-aligned here, so every quantity rounds; the
    // resolved body still sits within 7 sub-units of fully clear.
    let cfg = test_config();
    let mut level = Level::from_parts(None, Some(Fv2::new(-50 * S, -50 * S)), Vec::new());
    level.add_segment(Fv2::new(-10 * S, -3 * S), Fv2::new(10 * S, 3 * S));
    let mut body = PlayerBody::spawn(Fv2::new(0, 30000), &cfg);
    let input = neutral_input(Fv2::new(0, 30000));
    let out = micro_step(&mut body, &level, &cfg, &input, 1);
    assert_eq!(out.impacts.len(), 1);
    let f = level.segment_at(0).to(body.pos);
    assert!(
        f.distance >= body.radius - 7,
        "distance {} radius {}",
        f.distance,
        body.radius
    );
}

#[test]
fn zero_dt_step_leaves_body_unchanged() {
    // A first zero-time step settles the cursor-dependent scale
    // origin; the second is the identity.
    let cfg = test_config();
    let level = floor_level();
    let cursor = Fv2::new(3 * S, 12 * S);
    let input = neutral_input(cursor);
    let mut body = PlayerBody::spawn(Fv2::new(0, 10 * S), &cfg);
    micro_step(&mut body, &level, &cfg, &input, 0);
    let settled = body;
    let out = micro_step(&mut body, &level, &cfg, &input, 0);
    assert_eq!(body, settled);
    assert!(out.impacts.is_empty());
    assert!(!out.finished);
}

#[test]
fn radius_stays_in_band_under_any_scaling_sequence() {
    let cfg = test_config();
    let level = Level::from_parts(None, Some(Fv2::new(-50 * S, -50 * S)), Vec::new());
    let mut body = PlayerBody::spawn(Fv2::new(0, 0), &cfg);
    let cursor = Fv2::new(0, 0);
    let grow = StepInput::new(cursor, true, false);
    let shrink = StepInput::new(cursor, false, true);
    for _ in 0..40 {
        micro_step(&mut body, &level, &cfg, &grow, S / 4);
        assert!(cfg.min_radius <= body.radius && body.radius <= cfg.max_radius);
    }
    // Truncating arithmetic stalls a few sub-units short of the target.
    assert!(body.radius >= cfg.max_radius - 4);
    for _ in 0..40 {
        micro_step(&mut body, &level, &cfg, &shrink, S / 4);
        assert!(cfg.min_radius <= body.radius && body.radius <= cfg.max_radius);
    }
    assert!(body.radius <= cfg.min_radius + 4);
}

#[test]
fn scaling_pivots_on_the_boundary_point_nearest_the_cursor() {
    // With the cursor at the bottom of the circle, growth keeps that
    // boundary point fixed and moves the center away from it.
    let cfg = Config { gravity: 0, ..test_config() };
    let level = Level::from_parts(None, Some(Fv2::new(-50 * S, -50 * S)), Vec::new());
    let mut body = PlayerBody::spawn(Fv2::new(0, S), &cfg);
    let grow = StepInput::new(Fv2::new(0, 0), true, false);
    micro_step(&mut body, &level, &cfg, &grow, S / 8);
    assert_eq!(body.scale_origin, Fv2::new(0, 0));
    assert_eq!(body.radius, S + S / 8);
    assert_eq!(body.pos.y, S + S / 8); // the pivot stays on the boundary
    assert_eq!(body.pos.x, 0);
}

#[test]
fn scheduler_caps_each_step_by_tick_distance() {
    // tick_distance 0.1 at speed 100 forces about a thousand
    // micro-steps for one second of frame time.
    let cfg = test_config();
    let level = Level::from_parts(
        Some(Fv2::new(0, 0)),
        Some(Fv2::new(0, -1000 * S)),
        Vec::new(),
    );
    let mut sched = Scheduler::new();
    let mut body = PlayerBody::spawn(Fv2::new(0, 0), &cfg);
    body.vel = Fv2::new(100 * S, 0);
    let cfg = Config { gravity: 0, ..cfg };
    let input = neutral_input(Fv2::new(0, 0));
    let steps = sched.update(&mut body, &level, &cfg, &input, S);
    assert!(steps >= 1000, "only {} micro-steps", steps);
    assert_eq!(steps, 1009);
    assert_eq!(sched.unprocessed, 0);
    assert!(matches!(sched.state, RunState::Running));
    assert_eq!(body.vel.x, 100 * S);
    assert_eq!(body.pos.x, 100 * S);
}

#[test]
fn reaching_the_finish_stops_the_drain() {
    let cfg = test_config();
    let level = Level::from_parts(
        Some(Fv2::new(0, 0)),
        Some(Fv2::new(2 * S, 0)),
        Vec::new(),
    );
    let cfg = Config { gravity: 0, ..cfg };
    let mut sched = Scheduler::new();
    let mut body = PlayerBody::spawn(Fv2::new(0, 0), &cfg);
    body.vel = Fv2::new(4 * S, 0);
    let input = neutral_input(Fv2::new(0, 0));
    let steps = sched.update(&mut body, &level, &cfg, &input, S);
    assert!(matches!(sched.state, RunState::Finished));
    assert!(sched.unprocessed > 0, "drain should stop early");
    assert!(steps >= 1);
    // Once finished, updates do nothing until reset.
    let before = body;
    let steps2 = sched.update(&mut body, &level, &cfg, &input, S);
    assert_eq!(steps2, 0);
    assert_eq!(body, before);
    sched.reset();
    assert!(matches!(sched.state, RunState::Running));
}

#[test]
fn overlapping_segments_resolve_in_level_order() {
    // Two copies of the same floor: the first resolution pushes the
    // body out and compresses it, so the second finds no penetration
    // and only one impact is reported.
    let cfg = test_config();
    let mut level = floor_level();
    level.add_segment(Fv2::new(-10 * S, 0), Fv2::new(10 * S, 0));
    let mut body = PlayerBody::spawn(Fv2::new(0, 10 * S + S / 2), &cfg);
    let input = neutral_input(Fv2::new(0, 10 * S + S / 2));
    let out = micro_step(&mut body, &level, &cfg, &input, S);
    assert_eq!(out.impacts.len(), 1);
    assert_eq!(body.pos.y, S);
}

#[test]
fn out_of_band_coordinates_are_clamped() {
    let big = Fv2::new(i64::MAX, i64::MIN);
    let clamped = big.clamped();
    assert_eq!(clamped, Fv2::new(536870912, -536870912));
    let input = StepInput::new(big, false, true);
    assert_eq!(input.cursor, clamped);
    assert!(input.shrink && !input.grow);
}

#[test]
fn fast_body_resets_stillness() {
    let cfg = Config { still_time_to_full: S, ..test_config() };
    let level = Level::from_parts(None, Some(Fv2::new(-50 * S, -50 * S)), Vec::new());
    let cfg = Config { gravity: 0, ..cfg };
    let mut body = PlayerBody::spawn(Fv2::new(0, 0), &cfg);
    let input = neutral_input(Fv2::new(0, 0));
    // A slow body accumulates stillness.
    micro_step(&mut body, &level, &cfg, &input, S / 2);
    assert!(body.stillness > 0);
    // A fast one loses it at the next step.
    body.vel = Fv2::new(20 * S, 0);
    micro_step(&mut body, &level, &cfg, &input, S / 100);
    assert_eq!(body.stillness, 0);
}
