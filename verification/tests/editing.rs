//! Tests for the editor geometry queries, the level editing API, and
//! the level-document defaults.

use squeeze::config::Config;
use squeeze::editor::{hovered_surface, snap_to_endpoint};
use squeeze::fx::FX_ONE;
use squeeze::level::{Level, DEFAULT_FINISH_X};
use squeeze::segment::Segment;
use squeeze::vec::Fv2;

const S: i64 = FX_ONE;

fn one_segment_level() -> Level {
    let mut level = Level::new();
    level.add_segment(Fv2::new(0, 0), Fv2::new(10 * S, 0));
    level
}

#[test]
fn snap_returns_near_endpoint() {
    // snap_distance 0.5, cursor (0.2, 0), endpoint (0,0): snapped.
    let level = one_segment_level();
    let snapped = snap_to_endpoint(Fv2::new(S / 5, 0), &level, S / 2);
    assert_eq!(snapped, Fv2::new(0, 0));
}

#[test]
fn snap_returns_raw_point_when_nothing_is_near() {
    // Cursor (2, 0) with the same endpoints: unchanged.
    let level = one_segment_level();
    let raw = Fv2::new(2 * S, 0);
    assert_eq!(snap_to_endpoint(raw, &level, S / 2), raw);
}

#[test]
fn snap_breaks_ties_by_level_order() {
    let mut level = Level::new();
    level.add_segment(Fv2::new(0, S), Fv2::new(10 * S, S));
    level.add_segment(Fv2::new(0, -S), Fv2::new(10 * S, -S));
    // The cursor sits exactly between the two left endpoints.
    let snapped = snap_to_endpoint(Fv2::new(0, 0), &level, 2 * S);
    assert_eq!(snapped, Fv2::new(0, S));
}

#[test]
fn hover_picks_the_nearest_segment_within_range() {
    let mut level = Level::new();
    level.add_segment(Fv2::new(0, 2 * S), Fv2::new(10 * S, 2 * S));
    level.add_segment(Fv2::new(0, 0), Fv2::new(10 * S, 0));
    let hovered = hovered_surface(Fv2::new(5 * S, S / 5), &level, S / 2);
    assert_eq!(hovered, Some(1));
}

#[test]
fn hover_returns_none_away_from_all_segments() {
    let level = one_segment_level();
    assert_eq!(hovered_surface(Fv2::new(5 * S, 2 * S), &level, S / 2), None);
}

#[test]
fn hover_breaks_ties_by_level_order() {
    let mut level = Level::new();
    level.add_segment(Fv2::new(0, S), Fv2::new(10 * S, S));
    level.add_segment(Fv2::new(0, -S), Fv2::new(10 * S, -S));
    let hovered = hovered_surface(Fv2::new(5 * S, 0), &level, 2 * S);
    assert_eq!(hovered, Some(0));
}

#[test]
fn document_defaults_fill_missing_anchors() {
    let level = Level::from_parts(None, None, Vec::new());
    assert_eq!(level.start_pos, Fv2::new(0, 0));
    assert_eq!(level.finish_pos, Fv2::new(DEFAULT_FINISH_X, 0));
    assert_eq!(level.segment_count(), 0);
    assert_eq!(DEFAULT_FINISH_X, 5 * S);
}

#[test]
fn add_and_remove_keep_level_order() {
    let mut level = Level::new();
    level.add_segment(Fv2::new(0, 0), Fv2::new(S, 0));
    level.add_segment(Fv2::new(0, S), Fv2::new(S, S));
    level.add_segment(Fv2::new(0, 2 * S), Fv2::new(S, 2 * S));
    assert_eq!(level.segment_count(), 3);
    let removed = level.remove_segment(1);
    assert_eq!(removed.a, Fv2::new(0, S));
    assert_eq!(level.segment_count(), 2);
    assert_eq!(level.segment_at(0).a, Fv2::new(0, 0));
    assert_eq!(level.segment_at(1).a, Fv2::new(0, 2 * S));
}

#[test]
fn from_parts_keeps_segments_in_order() {
    let segs = vec![
        Segment { a: Fv2::new(0, 0), b: Fv2::new(S, 0) },
        Segment { a: Fv2::new(0, S), b: Fv2::new(S, S) },
    ];
    let level = Level::from_parts(Some(Fv2::new(S, S)), Some(Fv2::new(2 * S, 0)), segs);
    assert_eq!(level.start_pos, Fv2::new(S, S));
    assert_eq!(level.finish_pos, Fv2::new(2 * S, 0));
    assert_eq!(level.segment_count(), 2);
    assert_eq!(level.segment_at(1).b, Fv2::new(S, S));
}

#[test]
fn set_anchor_positions() {
    let mut level = Level::new();
    level.set_start_pos(Fv2::new(3 * S, 4 * S));
    level.set_finish_pos(Fv2::new(-2 * S, S));
    assert_eq!(level.start_pos, Fv2::new(3 * S, 4 * S));
    assert_eq!(level.finish_pos, Fv2::new(-2 * S, S));
}

#[test]
fn config_well_formedness_is_checkable() {
    let good = Config {
        gravity: 10 * S,
        bounciness: S / 2,
        friction: S / 10,
        neutral_radius: S,
        min_radius: S / 4,
        max_radius: 2 * S,
        scaling_rate: S,
        still_max_vel: 5 * S,
        still_time_to_full: 2 * S,
        finish_radius: S / 10,
        tick_distance: S / 10,
        snap_distance: S / 2,
    };
    assert!(good.check_wf());
    let bad = Config { min_radius: 3 * S, ..good };
    assert!(!bad.check_wf());
    let bad2 = Config { still_time_to_full: 0, ..good };
    assert!(!bad2.check_wf());
}
