//! Straight wall segments and the closest-feature query shared by the
//! physics resolver and the editor.

use vstd::prelude::*;

use crate::fx;
use crate::fx::FX_ONE;
use crate::vec::{dist2_spec, dot_from_spec, v_in_range, v_zero, Fv2};

verus! {

/// A finite straight wall, defined by two endpoints. Immutable once
/// created; equality is positional.
#[derive(Clone, Copy, PartialEq, Eq, Structural, Debug)]
pub struct Segment {
    pub a: Fv2,
    pub b: Fv2,
}

/// What a point query returns: the nearest point of the segment, the
/// distance to it (rounded down), and the unit normal from that point
/// toward the query point, scaled by `FX_ONE` (zero when the query point
/// lies on the segment).
#[derive(Clone, Copy, PartialEq, Eq, Structural, Debug)]
pub struct ClosestFeature {
    pub normal: Fv2,
    pub distance: i64,
    pub closest_point: Fv2,
}

pub open spec fn seg_in_range(s: Segment) -> bool {
    v_in_range(s.a) && v_in_range(s.b)
}

/// Both endpoints clamped into the storable band.
pub open spec fn seg_clamped(s: Segment) -> Segment {
    Segment { a: crate::vec::clamp_v_spec(s.a), b: crate::vec::clamp_v_spec(s.b) }
}

/// `p` lies in the axis-aligned box spanned by the segment's endpoints.
pub open spec fn in_box(p: Fv2, s: Segment) -> bool {
    ((s.a.x <= p.x <= s.b.x) || (s.b.x <= p.x <= s.a.x)) && ((s.a.y <= p.y <= s.b.y) || (
    s.b.y <= p.y <= s.a.y))
}

/// The clamped projection parameter of `p` onto `[a, b]`, as the pair
/// (numerator, denominator): the nearest point is at fraction `t/td`
/// along `a -> b`, with `0 <= t <= td`.
pub open spec fn clamped_param_spec(s: Segment, p: Fv2) -> (int, int) {
    let tn = dot_from_spec(s.a, p, s.b);
    let td = dist2_spec(s.a, s.b);
    (fx::clamp_spec(tn, 0, td), td)
}

/// The nearest point of the segment to `p`, each component rounded
/// toward the `a` endpoint.
pub open spec fn closest_point_spec(s: Segment, p: Fv2) -> Fv2 {
    let (t, td) = clamped_param_spec(s, p);
    if td == 0 {
        s.a
    } else {
        Fv2 {
            x: (s.a.x + fx::div_tz((s.b.x - s.a.x) * t, td)) as i64,
            y: (s.a.y + fx::div_tz((s.b.y - s.a.y) * t, td)) as i64,
        }
    }
}

/// The full query result for `p`.
pub open spec fn to_spec(s: Segment, p: Fv2) -> ClosestFeature {
    let c = closest_point_spec(s, p);
    let d = fx::sqrt_floor(dist2_spec(p, c) as nat) as int;
    let n = if d == 0 {
        v_zero()
    } else {
        Fv2 {
            x: fx::div_tz((p.x - c.x) * FX_ONE, d) as i64,
            y: fx::div_tz((p.y - c.y) * FX_ONE, d) as i64,
        }
    };
    ClosestFeature { normal: n, distance: d as i64, closest_point: c }
}

impl Segment {
    /// Build a segment, clamping both endpoints into the storable band.
    pub fn new(a: Fv2, b: Fv2) -> (r: Segment)
        ensures
            r == seg_clamped(Segment { a, b }),
            seg_in_range(r),
    {
        Segment { a: a.clamped(), b: b.clamped() }
    }

    /// The geometric primitive: nearest point on the segment to `p`,
    /// the distance to it, and the outward unit normal (scaled by
    /// `FX_ONE`). Total: a zero-length segment yields its endpoint, and
    /// a query point on the segment yields a zero normal.
    pub fn to(&self, p: Fv2) -> (r: ClosestFeature)
        requires
            seg_in_range(*self),
            v_in_range(p),
        ensures
            r == to_spec(*self, p),
            0 <= r.distance <= 0x6000_0000,
            in_box(r.closest_point, *self),
            v_in_range(r.closest_point),
            -(FX_ONE as int) <= r.normal.x as int <= FX_ONE as int,
            -(FX_ONE as int) <= r.normal.y as int <= FX_ONE as int,
            r.distance as int * r.distance as int <= dist2_spec(p, r.closest_point),
            dist2_spec(p, r.closest_point) < (r.distance as int + 1) * (r.distance as int + 1),
            r.distance == 0 <==> p == r.closest_point,
            r.distance == 0 ==> r.normal == v_zero(),
    {
        let a = self.a;
        let b = self.b;
        let dpx: i64 = p.x - a.x;
        let dpy: i64 = p.y - a.y;
        let dbx: i64 = b.x - a.x;
        let dby: i64 = b.y - a.y;
        proof {
            assert(-0x1000_0000_0000_0000 <= dpx as int * dbx as int <= 0x1000_0000_0000_0000
                && -0x1000_0000_0000_0000 <= dpy as int * dby as int <= 0x1000_0000_0000_0000)
                by (nonlinear_arith)
                requires
                    -0x4000_0000 <= dpx as int <= 0x4000_0000,
                    -0x4000_0000 <= dbx as int <= 0x4000_0000,
                    -0x4000_0000 <= dpy as int <= 0x4000_0000,
                    -0x4000_0000 <= dby as int <= 0x4000_0000,
            ;
        }
        let tn: i64 = dpx * dbx + dpy * dby;
        let td: i64 = a.dist2(b);
        let c: Fv2 = if td == 0 {
            a
        } else {
            let t: i64 = fx::clamp_i64(tn, 0, td);
            let qx: i64 = fx::mulfrac_tz(dbx, t, td);
            let qy: i64 = fx::mulfrac_tz(dby, t, td);
            Fv2 { x: a.x + qx, y: a.y + qy }
        };
        let d: i64 = p.dist(c);
        let n: Fv2 = if d == 0 {
            Fv2 { x: 0, y: 0 }
        } else {
            let dx: i64 = p.x - c.x;
            let dy: i64 = p.y - c.y;
            proof {
                assert(dy as int * dy as int >= 0 && dx as int * dx as int >= 0)
                    by (nonlinear_arith);
                assert(-(d as int) <= dx as int <= d as int && -(d as int) <= dy as int
                    <= d as int) by (nonlinear_arith)
                    requires
                        (dx as int) * (dx as int) < (d as int + 1) * (d as int + 1),
                        (dy as int) * (dy as int) < (d as int + 1) * (d as int + 1),
                        d as int >= 0,
                ;
                fx::lemma_div_tz_bound(dx as int * FX_ONE as int, d as int, FX_ONE as int);
                fx::lemma_div_tz_bound(dy as int * FX_ONE as int, d as int, FX_ONE as int);
            }
            Fv2 { x: fx::div_tz_i64(dx * FX_ONE, d), y: fx::div_tz_i64(dy * FX_ONE, d) }
        };
        ClosestFeature { normal: n, distance: d, closest_point: c }
    }
}

} // verus!
