//! Scenario tests for the segment closest-feature query.

use squeeze::fx::FX_ONE;
use squeeze::segment::Segment;
use squeeze::vec::Fv2;

const S: i64 = FX_ONE;

fn seg(ax: i64, ay: i64, bx: i64, by: i64) -> Segment {
    Segment::new(Fv2::new(ax, ay), Fv2::new(bx, by))
}

#[test]
fn perpendicular_foot_below_horizontal_segment() {
    // Segment (0,0)-(10,0), query (5,-1): distance 1, normal (0,-1),
    // closest point (5,0).
    let s = seg(0, 0, 10 * S, 0);
    let f = s.to(Fv2::new(5 * S, -S));
    assert_eq!(f.distance, S);
    assert_eq!(f.normal.x, 0);
    assert_eq!(f.normal.y, -S);
    assert_eq!(f.closest_point.x, 5 * S);
    assert_eq!(f.closest_point.y, 0);
}

#[test]
fn beyond_endpoint_snaps_to_endpoint() {
    // Segment (0,0)-(10,0), query (15,0): nearest feature is the
    // endpoint (10,0) at distance 5.
    let s = seg(0, 0, 10 * S, 0);
    let f = s.to(Fv2::new(15 * S, 0));
    assert_eq!(f.closest_point.x, 10 * S);
    assert_eq!(f.closest_point.y, 0);
    assert_eq!(f.distance, 5 * S);
    assert_eq!(f.normal.x, S);
    assert_eq!(f.normal.y, 0);
}

#[test]
fn beyond_first_endpoint_snaps_there() {
    let s = seg(0, 0, 10 * S, 0);
    let f = s.to(Fv2::new(-3 * S, -4 * S));
    assert_eq!(f.closest_point.x, 0);
    assert_eq!(f.closest_point.y, 0);
    assert_eq!(f.distance, 5 * S);
}

#[test]
fn distance_matches_closest_point_on_diagonal() {
    // The reported distance is the rounded length of p - closest_point,
    // and the closest point lies in the endpoints' box.
    let s = seg(0, 0, 3 * S, 4 * S);
    let p = Fv2::new(3 * S, 0);
    let f = s.to(p);
    let dx = (p.x - f.closest_point.x) as i128;
    let dy = (p.y - f.closest_point.y) as i128;
    let d2 = dx * dx + dy * dy;
    let d = f.distance as i128;
    assert!(d * d <= d2);
    assert!(d2 < (d + 1) * (d + 1));
    assert!(0 <= f.closest_point.x && f.closest_point.x <= 3 * S);
    assert!(0 <= f.closest_point.y && f.closest_point.y <= 4 * S);
}

#[test]
fn normal_is_unit_length_within_tolerance() {
    // Away from the degenerate case the normal has length one, to a
    // few parts in FX_ONE.
    let cases = [
        (seg(0, 0, 10 * S, 0), Fv2::new(5 * S, -S)),
        (seg(0, 0, 3 * S, 4 * S), Fv2::new(3 * S, 0)),
        (seg(-7 * S, 2 * S, 5 * S, 9 * S), Fv2::new(4 * S, -6 * S)),
        (seg(0, 0, 10 * S, 0), Fv2::new(15 * S, 3 * S)),
    ];
    for (s, p) in cases {
        let f = s.to(p);
        assert!(f.distance > 0);
        let n2 = (f.normal.x as i128) * (f.normal.x as i128)
            + (f.normal.y as i128) * (f.normal.y as i128);
        let unit = (S as i128) * (S as i128);
        assert!(n2 >= unit - 6 * S as i128, "normal too short: {}", n2);
        assert!(n2 <= unit + 6 * S as i128, "normal too long: {}", n2);
    }
}

#[test]
fn zero_length_segment_does_not_divide_by_zero() {
    let s = seg(2 * S, 2 * S, 2 * S, 2 * S);
    let f = s.to(Fv2::new(2 * S, 3 * S));
    assert_eq!(f.closest_point.x, 2 * S);
    assert_eq!(f.closest_point.y, 2 * S);
    assert_eq!(f.distance, S);
    assert_eq!(f.normal.x, 0);
    assert_eq!(f.normal.y, S);
}

#[test]
fn integer_square_root_rounds_down() {
    assert_eq!(squeeze::fx::isqrt_u64(0), 0);
    assert_eq!(squeeze::fx::isqrt_u64(1), 1);
    assert_eq!(squeeze::fx::isqrt_u64(15), 3);
    assert_eq!(squeeze::fx::isqrt_u64(16), 4);
    assert_eq!(squeeze::fx::isqrt_u64(u64::MAX), 4294967295);
}

#[test]
fn point_on_segment_gives_zero_normal() {
    let s = seg(0, 0, 10 * S, 0);
    let f = s.to(Fv2::new(4 * S, 0));
    assert_eq!(f.distance, 0);
    assert_eq!(f.normal.x, 0);
    assert_eq!(f.normal.y, 0);
    assert_eq!(f.closest_point.x, 4 * S);
    assert_eq!(f.closest_point.y, 0);
}
