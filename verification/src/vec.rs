//! Fixed-point 2D vectors.

use vstd::prelude::*;

use crate::fx;
use crate::fx::{FX_MAX, FX_ONE};

verus! {

/// A 2D point or vector in fixed-point sub-units.
#[derive(Clone, Copy, PartialEq, Eq, Structural, Debug)]
pub struct Fv2 {
    pub x: i64,
    pub y: i64,
}

/// Both components within the storable band.
pub open spec fn v_in_range(v: Fv2) -> bool {
    fx::fx_in_range(v.x as int) && fx::fx_in_range(v.y as int)
}

pub open spec fn v_zero() -> Fv2 {
    Fv2 { x: 0, y: 0 }
}

/// Squared Euclidean distance, exact.
pub open spec fn dist2_spec(a: Fv2, b: Fv2) -> int {
    (a.x - b.x) * (a.x - b.x) + (a.y - b.y) * (a.y - b.y)
}

/// Squared length, exact.
pub open spec fn len2_spec(v: Fv2) -> int {
    v.x * v.x + v.y * v.y
}

/// Dot product of the displacements `p - o` and `q - o`, exact.
pub open spec fn dot_from_spec(o: Fv2, p: Fv2, q: Fv2) -> int {
    (p.x - o.x) * (q.x - o.x) + (p.y - o.y) * (q.y - o.y)
}

/// Component-wise clamp into the storable band.
pub open spec fn clamp_v_spec(v: Fv2) -> Fv2 {
    Fv2 { x: fx::sat_spec(v.x as int) as i64, y: fx::sat_spec(v.y as int) as i64 }
}

/// Component-wise sum, saturated into the storable band.
pub open spec fn add_sat_spec(a: Fv2, b: Fv2) -> Fv2 {
    Fv2 { x: fx::sat_spec(a.x + b.x) as i64, y: fx::sat_spec(a.y + b.y) as i64 }
}

/// Component-wise difference, saturated into the storable band.
pub open spec fn sub_sat_spec(a: Fv2, b: Fv2) -> Fv2 {
    Fv2 { x: fx::sat_spec(a.x - b.x) as i64, y: fx::sat_spec(a.y - b.y) as i64 }
}

/// `v` shortened to length `r` when longer (per-component scaled by
/// `r / |v|`), else unchanged.
pub open spec fn clamp_len_spec(v: Fv2, r: int) -> Fv2 {
    let l = fx::sqrt_floor(len2_spec(v) as nat) as int;
    if l <= r {
        v
    } else {
        Fv2 {
            x: fx::muldiv_sat_spec(v.x as int, r, l) as i64,
            y: fx::muldiv_sat_spec(v.y as int, r, l) as i64,
        }
    }
}

/// A length-clamped in-band vector stays in band.
pub proof fn lemma_clamp_len_in_band(v: Fv2, r: int)
    requires
        v_in_range(v),
        0 <= r <= FX_MAX as int,
    ensures
        -(FX_MAX as int) <= clamp_len_spec(v, r).x as int <= FX_MAX as int,
        -(FX_MAX as int) <= clamp_len_spec(v, r).y as int <= FX_MAX as int,
{
}

impl Fv2 {
    pub fn new(x: i64, y: i64) -> (r: Fv2)
        ensures
            r == (Fv2 { x, y }),
    {
        Fv2 { x, y }
    }

    pub fn zero() -> (r: Fv2)
        ensures
            r == v_zero(),
    {
        Fv2 { x: 0, y: 0 }
    }

    /// Clamp each component into the storable band; how out-of-band
    /// input reaches the engine's state space.
    pub fn clamped(self) -> (r: Fv2)
        ensures
            r == clamp_v_spec(self),
            v_in_range(r),
    {
        Fv2 { x: fx::sat_fx(self.x), y: fx::sat_fx(self.y) }
    }

    pub fn add_sat(self, o: Fv2) -> (r: Fv2)
        requires
            v_in_range(self),
            v_in_range(o),
        ensures
            r == add_sat_spec(self, o),
            v_in_range(r),
    {
        Fv2 { x: fx::sat_fx(self.x + o.x), y: fx::sat_fx(self.y + o.y) }
    }

    pub fn sub_sat(self, o: Fv2) -> (r: Fv2)
        requires
            v_in_range(self),
            v_in_range(o),
        ensures
            r == sub_sat_spec(self, o),
            v_in_range(r),
    {
        Fv2 { x: fx::sat_fx(self.x - o.x), y: fx::sat_fx(self.y - o.y) }
    }

    /// Squared distance between two in-band points; fits easily in `i64`.
    pub fn dist2(self, o: Fv2) -> (r: i64)
        requires
            v_in_range(self),
            v_in_range(o),
        ensures
            r as int == dist2_spec(self, o),
            0 <= r as int <= 0x2000_0000_0000_0000,
    {
        let dx: i64 = self.x - o.x;
        let dy: i64 = self.y - o.y;
        proof {
            assert(dx as int * dx as int + dy as int * dy as int <= 0x2000_0000_0000_0000
                && dx as int * dx as int >= 0 && dy as int * dy as int >= 0) by (nonlinear_arith)
                requires
                    -0x4000_0000 <= dx as int <= 0x4000_0000,
                    -0x4000_0000 <= dy as int <= 0x4000_0000,
            ;
        }
        dx * dx + dy * dy
    }

    /// Distance between two in-band points, rounded down.
    pub fn dist(self, o: Fv2) -> (r: i64)
        requires
            v_in_range(self),
            v_in_range(o),
        ensures
            r as nat == fx::sqrt_floor(dist2_spec(self, o) as nat),
            0 <= r <= 0x6000_0000,
            r as int * r as int <= dist2_spec(self, o),
            dist2_spec(self, o) < (r as int + 1) * (r as int + 1),
            (r == 0) <==> (self == o),
    {
        let d2: i64 = self.dist2(o);
        let r: u64 = fx::isqrt_u64(d2 as u64);
        proof {
            assert(r as int * r as int <= 0x2000_0000_0000_0000 ==> r as int <= 0x6000_0000)
                by (nonlinear_arith);
            let dx = self.x as int - o.x as int;
            let dy = self.y as int - o.y as int;
            if r == 0 {
                assert(dx * dx + dy * dy == 0);
                assert(dx == 0 && dy == 0) by (nonlinear_arith)
                    requires
                        dx * dx + dy * dy == 0,
                ;
            }
            if self == o {
                assert(dx == 0 && dy == 0);
                assert(dx * dx == 0 && dy * dy == 0) by (nonlinear_arith)
                    requires
                        dx == 0,
                        dy == 0,
                ;
            }
        }
        r as i64
    }

    /// Length of an in-band vector, rounded down.
    pub fn len(self) -> (r: i64)
        requires
            v_in_range(self),
        ensures
            r as nat == fx::sqrt_floor(len2_spec(self) as nat),
            0 <= r <= 0x6000_0000,
            r as int * r as int <= len2_spec(self),
            len2_spec(self) < (r as int + 1) * (r as int + 1),
    {
        self.dist(Fv2 { x: 0, y: 0 })
    }

    /// Shorten this vector to length `r` when longer, keeping its
    /// direction; unchanged when already within `r`.
    pub fn clamp_len(self, r: i64) -> (o: Fv2)
        requires
            v_in_range(self),
            0 <= r <= FX_MAX,
        ensures
            o == clamp_len_spec(self, r as int),
            v_in_range(o),
    {
        let l: i64 = self.len();
        if l <= r {
            self
        } else {
            Fv2 { x: fx::muldiv_sat(self.x, r, l), y: fx::muldiv_sat(self.y, r, l) }
        }
    }

    /// Quarter-turn counterclockwise.
    pub fn rotate_90(self) -> (r: Fv2)
        requires
            self.x > i64::MIN,
            self.y > i64::MIN,
        ensures
            r.x as int == -(self.y as int),
            r.y == self.x,
    {
        Fv2 { x: -self.y, y: self.x }
    }
}

} // verus!
