//! Fixed-point scalar arithmetic.
//!
//! A quantity (position component, speed, radius, seconds) is an `i64`
//! counting sub-units: `FX_ONE` sub-units make one world unit or one
//! second. Engine state is kept inside `[-FX_MAX, FX_MAX]`; arithmetic
//! that could leave that band saturates, matching the engine's policy of
//! clamping rather than rejecting numeric inputs.

use vstd::prelude::*;

verus! {

/// Sub-units per world unit (and per second).
pub const FX_ONE: i64 = 65536;

/// Magnitude bound on every stored state value, in sub-units.
pub const FX_MAX: i64 = 536870912;

/// Magnitude bound accepted by the raw division helper; wide enough for
/// every product of two values bounded by `2^31`.
pub const FX_RAW_MAX: i64 = 0x4000_0000_0000_0000;

/// A value the engine may store: within `[-FX_MAX, FX_MAX]`.
pub open spec fn fx_in_range(v: int) -> bool {
    -(FX_MAX as int) <= v <= FX_MAX as int
}

pub open spec fn clamp_spec(v: int, lo: int, hi: int) -> int {
    if v < lo {
        lo
    } else if v > hi {
        hi
    } else {
        v
    }
}

/// Saturation into the storable band.
pub open spec fn sat_spec(v: int) -> int {
    clamp_spec(v, -(FX_MAX as int), FX_MAX as int)
}

/// Division truncated toward zero (the machine's signed division), for a
/// positive divisor.
pub open spec fn div_tz(a: int, b: int) -> int {
    if a >= 0 {
        a / b
    } else {
        -((-a) / b)
    }
}

/// `a * b / c`, truncated, then saturated into the storable band.
pub open spec fn muldiv_sat_spec(a: int, b: int, c: int) -> int {
    sat_spec(div_tz(a * b, c))
}

/// Fixed-point product: `a * b` scaled back down by `FX_ONE`, saturated.
pub open spec fn mul_fx_spec(a: int, b: int) -> int {
    muldiv_sat_spec(a, b, FX_ONE as int)
}

/// Fixed-point quotient: `a / b` scaled up by `FX_ONE`, saturated.
pub open spec fn div_fx_spec(a: int, b: int) -> int {
    muldiv_sat_spec(a, FX_ONE as int, b)
}

pub open spec fn abs_spec(v: int) -> int {
    if v >= 0 {
        v
    } else {
        -v
    }
}

/// Clamp of `v` into `[-m, m]`.
pub open spec fn clamp_abs_spec(v: int, m: int) -> int {
    clamp_spec(v, -m, m)
}

/// Largest `r` with `r * r <= n`.
pub open spec fn sqrt_floor(n: nat) -> nat
    decreases n,
{
    if n == 0 {
        0
    } else {
        let r = sqrt_floor((n - 1) as nat);
        if (r + 1) * (r + 1) <= n {
            r + 1
        } else {
            r
        }
    }
}

/// `sqrt_floor(n)` is the floor of the real square root of `n`.
pub proof fn lemma_sqrt_floor(n: nat)
    ensures
        sqrt_floor(n) * sqrt_floor(n) <= n,
        n < (sqrt_floor(n) + 1) * (sqrt_floor(n) + 1),
    decreases n,
{
    if n == 0 {
        assert(sqrt_floor(0) == 0);
        assert(n < (sqrt_floor(n) + 1) * (sqrt_floor(n) + 1)) by (nonlinear_arith)
            requires
                n == 0,
                sqrt_floor(n) == 0,
        ;
    } else {
        lemma_sqrt_floor((n - 1) as nat);
        let r0 = sqrt_floor((n - 1) as nat);
        let s = sqrt_floor(n);
        assert(((r0 + 1) * (r0 + 1) <= n && s == r0 + 1) || (!((r0 + 1) * (r0 + 1) <= n) && s
            == r0));
        assert(s * s <= n && n < (s + 1) * (s + 1)) by (nonlinear_arith)
            requires
                n >= 1,
                r0 * r0 <= n - 1,
                n - 1 < (r0 + 1) * (r0 + 1),
                ((r0 + 1) * (r0 + 1) <= n && s == r0 + 1) || (!((r0 + 1) * (r0 + 1) <= n) && s
                    == r0),
        ;
    }
}

/// Only one value satisfies the square-root-floor characterization.
pub proof fn lemma_sqrt_floor_unique(n: nat, r: nat)
    requires
        r * r <= n,
        n < (r + 1) * (r + 1),
    ensures
        r == sqrt_floor(n),
{
    lemma_sqrt_floor(n);
    let s = sqrt_floor(n);
    assert(r == s) by (nonlinear_arith)
        requires
            r * r <= n,
            n < (r + 1) * (r + 1),
            s * s <= n,
            n < (s + 1) * (s + 1),
    ;
}

/// Truncating division keeps a quotient inside any bound the numerator
/// respects `b`-fold.
pub proof fn lemma_div_tz_bound(a: int, b: int, m: int)
    requires
        b >= 1,
        m >= 0,
        -(m * b) <= a <= m * b,
    ensures
        -m <= div_tz(a, b) <= m,
{
    if a >= 0 {
        assert(0 <= a / b <= m) by (nonlinear_arith)
            requires
                b >= 1,
                m >= 0,
                0 <= a <= m * b,
        ;
    } else {
        assert(0 <= (-a) / b <= m) by (nonlinear_arith)
            requires
                b >= 1,
                m >= 0,
                0 <= -a <= m * b,
        ;
    }
}

/// The defining bounds of truncating division: the quotient times the
/// divisor lands within one divisor of the numerator, on the zero side
/// of it.
pub proof fn lemma_div_tz_fundamental(a: int, b: int)
    requires
        b >= 1,
    ensures
        a >= 0 ==> 0 <= div_tz(a, b) * b <= a && a - b < div_tz(a, b) * b,
        a < 0 ==> a <= div_tz(a, b) * b <= 0 && div_tz(a, b) * b < a + b,
{
    if a >= 0 {
        vstd::arithmetic::div_mod::lemma_fundamental_div_mod(a, b);
        vstd::arithmetic::div_mod::lemma_mod_bound(a, b);
        vstd::arithmetic::div_mod::lemma_div_pos_is_pos(a, b);
        let q = a / b;
        let r = a % b;
        assert(q * b == a - r) by (nonlinear_arith)
            requires
                a == b * q + r,
        ;
        assert(q * b >= 0) by (nonlinear_arith)
            requires
                q >= 0,
                b >= 1,
        ;
    } else {
        let na = -a;
        vstd::arithmetic::div_mod::lemma_fundamental_div_mod(na, b);
        vstd::arithmetic::div_mod::lemma_mod_bound(na, b);
        vstd::arithmetic::div_mod::lemma_div_pos_is_pos(na, b);
        let q = na / b;
        let r = na % b;
        assert(q * b == na - r) by (nonlinear_arith)
            requires
                na == b * q + r,
        ;
        assert(q * b >= 0) by (nonlinear_arith)
            requires
                q >= 0,
                b >= 1,
        ;
        assert((-q) * b == -(q * b)) by (nonlinear_arith);
    }
}

/// A quotient of a product by a clamped fraction `t/d` stays between
/// zero and the scaled value, keeping its sign.
pub proof fn lemma_frac_div_bounds(a: int, t: int, d: int)
    requires
        d >= 1,
        0 <= t <= d,
    ensures
        a >= 0 ==> 0 <= div_tz(a * t, d) <= a,
        a < 0 ==> a <= div_tz(a * t, d) <= 0,
{
    if a >= 0 {
        assert(0 <= a * t <= a * d) by (nonlinear_arith)
            requires
                0 <= t <= d,
                a >= 0,
        ;
        vstd::arithmetic::div_mod::lemma_div_is_ordered(a * t, a * d, d);
        vstd::arithmetic::div_mod::lemma_div_multiples_vanish(a, d);
        assert(a * d == d * a) by (nonlinear_arith);
        vstd::arithmetic::div_mod::lemma_div_pos_is_pos(a * t, d);
    } else {
        let na = -a;
        assert(0 <= na * t <= na * d) by (nonlinear_arith)
            requires
                0 <= t <= d,
                na >= 0,
        ;
        assert(na * t == -(a * t)) by (nonlinear_arith)
            requires
                na == -a,
        ;
        vstd::arithmetic::div_mod::lemma_div_is_ordered(na * t, na * d, d);
        vstd::arithmetic::div_mod::lemma_div_multiples_vanish(na, d);
        assert(na * d == d * na) by (nonlinear_arith);
        vstd::arithmetic::div_mod::lemma_div_pos_is_pos(na * t, d);
        if a * t >= 0 {
            assert(a * t == 0);
            vstd::arithmetic::div_mod::lemma_div_basics(d);
        }
    }
}

/// Truncating division undoes an exact multiple.
pub proof fn lemma_div_tz_multiple(a: int, b: int)
    requires
        b >= 1,
    ensures
        div_tz(a * b, b) == a,
{
    if a >= 0 {
        vstd::arithmetic::div_mod::lemma_div_multiples_vanish(a, b);
        assert(a * b == b * a && a * b >= 0) by (nonlinear_arith)
            requires
                a >= 0,
                b >= 1,
        ;
    } else {
        let na = -a;
        vstd::arithmetic::div_mod::lemma_div_multiples_vanish(na, b);
        assert(na * b == b * na && na * b == -(a * b) && a * b < 0) by (nonlinear_arith)
            requires
                na == -a,
                a < 0,
                b >= 1,
        ;
    }
}

/// Clamping is 1-Lipschitz: clamped values differ no more than the
/// raw ones.
pub proof fn lemma_clamp_lipschitz(x: int, y: int, lo: int, hi: int)
    requires
        lo <= hi,
    ensures
        clamp_spec(x, lo, hi) - clamp_spec(y, lo, hi) <= if x - y >= 0 {
            x - y
        } else {
            y - x
        },
        clamp_spec(y, lo, hi) - clamp_spec(x, lo, hi) <= if x - y >= 0 {
            x - y
        } else {
            y - x
        },
{
}

/// Scaling by the ratio `r / r` is the identity on stored values.
pub proof fn lemma_muldiv_same(a: int, r: int)
    requires
        r >= 1,
        -(FX_MAX as int) <= a <= FX_MAX as int,
    ensures
        muldiv_sat_spec(a, r, r) == a,
{
    if a >= 0 {
        vstd::arithmetic::div_mod::lemma_div_multiples_vanish(a, r);
        assert(a * r == r * a) by (nonlinear_arith);
    } else {
        let na = -a;
        vstd::arithmetic::div_mod::lemma_div_multiples_vanish(na, r);
        assert(na * r == r * na && na * r == -(a * r)) by (nonlinear_arith)
            requires
                na == -a,
        ;
        if a * r >= 0 {
            assert(na * r <= 0);
            assert(na == 0) by (nonlinear_arith)
                requires
                    na * r <= 0,
                    na >= 0,
                    r >= 1,
            ;
        }
    }
}

/// Any product with zero vanishes; stated for the saturated forms.
pub proof fn lemma_mul_fx_zero(a: int)
    ensures
        mul_fx_spec(a, 0) == 0,
        mul_fx_spec(0, a) == 0,
{
    assert(a * 0 == 0 && 0 * a == 0) by (nonlinear_arith);
    vstd::arithmetic::div_mod::lemma_div_basics(FX_ONE as int);
}

/// A saturated product-quotient of nonnegative operands is nonnegative.
pub proof fn lemma_muldiv_sat_nonneg(a: int, b: int, c: int)
    requires
        a >= 0,
        b >= 0,
        c >= 1,
    ensures
        muldiv_sat_spec(a, b, c) >= 0,
{
    assert(a * b >= 0) by (nonlinear_arith)
        requires
            a >= 0,
            b >= 0,
    ;
    vstd::arithmetic::div_mod::lemma_div_pos_is_pos(a * b, c);
}

pub fn clamp_i64(v: i64, lo: i64, hi: i64) -> (r: i64)
    requires
        lo <= hi,
    ensures
        r as int == clamp_spec(v as int, lo as int, hi as int),
{
    if v < lo {
        lo
    } else if v > hi {
        hi
    } else {
        v
    }
}

pub fn sat_fx(v: i64) -> (r: i64)
    ensures
        r as int == sat_spec(v as int),
{
    clamp_i64(v, -FX_MAX, FX_MAX)
}

pub fn abs_i64(v: i64) -> (r: i64)
    requires
        v > i64::MIN,
    ensures
        r as int == abs_spec(v as int),
{
    if v >= 0 {
        v
    } else {
        -v
    }
}

pub fn min_i64(a: i64, b: i64) -> (r: i64)
    ensures
        r as int == if a as int <= b as int {
            a as int
        } else {
            b as int
        },
{
    if a <= b {
        a
    } else {
        b
    }
}

pub fn max_i64(a: i64, b: i64) -> (r: i64)
    ensures
        r as int == if a as int >= b as int {
            a as int
        } else {
            b as int
        },
{
    if a >= b {
        a
    } else {
        b
    }
}

/// Truncating signed division by a positive divisor.
pub fn div_tz_i64(a: i64, b: i64) -> (r: i64)
    requires
        b >= 1,
        -FX_RAW_MAX <= a <= FX_RAW_MAX,
    ensures
        r as int == div_tz(a as int, b as int),
{
    if a >= 0 {
        let q: u64 = (a as u64) / (b as u64);
        q as i64
    } else {
        let q: u64 = ((-a) as u64) / (b as u64);
        -(q as i64)
    }
}

/// `a * b / c`, truncated, saturated into the storable band.
pub fn muldiv_sat(a: i64, b: i64, c: i64) -> (r: i64)
    requires
        -0x8000_0000 <= a <= 0x8000_0000,
        -0x8000_0000 <= b <= 0x8000_0000,
        c >= 1,
    ensures
        r as int == muldiv_sat_spec(a as int, b as int, c as int),
{
    proof {
        assert(-FX_RAW_MAX <= a as int * b as int <= FX_RAW_MAX) by (nonlinear_arith)
            requires
                -0x8000_0000 <= a as int <= 0x8000_0000,
                -0x8000_0000 <= b as int <= 0x8000_0000,
        ;
    }
    let p: i64 = a * b;
    sat_fx(div_tz_i64(p, c))
}

pub fn mul_fx(a: i64, b: i64) -> (r: i64)
    requires
        -0x8000_0000 <= a <= 0x8000_0000,
        -0x8000_0000 <= b <= 0x8000_0000,
    ensures
        r as int == mul_fx_spec(a as int, b as int),
{
    muldiv_sat(a, b, FX_ONE)
}

pub fn div_fx(a: i64, b: i64) -> (r: i64)
    requires
        -0x8000_0000 <= a <= 0x8000_0000,
        b >= 1,
    ensures
        r as int == div_fx_spec(a as int, b as int),
{
    muldiv_sat(a, FX_ONE, b)
}

pub fn clamp_abs_i64(v: i64, m: i64) -> (r: i64)
    requires
        0 <= m,
    ensures
        r as int == clamp_abs_spec(v as int, m as int),
{
    clamp_i64(v, -m, m)
}

/// `a * t / d`, truncated, for a clamped fraction `0 <= t <= d`: the
/// quotient never exceeds `a` in magnitude and keeps its sign.
pub fn mulfrac_tz(a: i64, t: i64, d: i64) -> (r: i64)
    requires
        d >= 1,
        0 <= t <= d,
        -0x4000_0000 <= a <= 0x4000_0000,
    ensures
        r as int == div_tz(a as int * t as int, d as int),
        a >= 0 ==> 0 <= r as int <= a as int,
        a < 0 ==> a as int <= r as int <= 0,
{
    proof {
        assert(a as int >= 0 ==> 0 <= a as int * t as int <= a as int * d as int)
            by (nonlinear_arith)
            requires
                0 <= t as int <= d as int,
        ;
        assert((a as int) < 0 ==> 0 <= (-a) as int * t as int <= (-a) as int * d as int)
            by (nonlinear_arith)
            requires
                0 <= t as int <= d as int,
        ;
        assert((a as int) < 0 ==> (-(a as int)) * t as int == -(a as int * t as int))
            by (nonlinear_arith);
    }
    if a >= 0 {
        proof {
            assert(a as int * t as int <= 0x4000_0000 * 0x8000_0000_0000_0000) by (nonlinear_arith)
                requires
                    0 <= a as int <= 0x4000_0000,
                    0 <= t as int && (t as int) < 0x8000_0000_0000_0000,
            ;
        }
        let q: u128 = (a as u128) * (t as u128) / (d as u128);
        proof {
            vstd::arithmetic::div_mod::lemma_div_is_ordered(
                a as int * t as int,
                a as int * d as int,
                d as int,
            );
            vstd::arithmetic::div_mod::lemma_div_multiples_vanish(a as int, d as int);
            assert(a as int * d as int == d as int * a as int) by (nonlinear_arith);
        }
        q as i64
    } else {
        let neg: i64 = -a;
        proof {
            assert(neg as int * t as int <= 0x4000_0000 * 0x8000_0000_0000_0000)
                by (nonlinear_arith)
                requires
                    0 <= neg as int <= 0x4000_0000,
                    0 <= t as int && (t as int) < 0x8000_0000_0000_0000,
            ;
        }
        let q: u128 = (neg as u128) * (t as u128) / (d as u128);
        proof {
            vstd::arithmetic::div_mod::lemma_div_is_ordered(
                neg as int * t as int,
                neg as int * d as int,
                d as int,
            );
            vstd::arithmetic::div_mod::lemma_div_multiples_vanish(neg as int, d as int);
            assert(neg as int * d as int == d as int * neg as int) by (nonlinear_arith);
            vstd::arithmetic::div_mod::lemma_div_pos_is_pos(neg as int * t as int, d as int);
        }
        -(q as i64)
    }
}

/// Floor square root over the full `u64` range.
pub fn isqrt_u64(n: u64) -> (r: u64)
    ensures
        r as nat == sqrt_floor(n as nat),
        r as int * r as int <= n as int,
        (n as int) < (r as int + 1) * (r as int + 1),
        r <= 4294967295,
        r == 0 ==> n == 0,
        n == 0 ==> r == 0,
{
    let mut lo: u64 = 0;
    let mut hi: u64 = 4294967295;
    assert((hi as int + 1) * (hi as int + 1) > n as int);
    while lo < hi
        invariant
            lo <= hi <= 4294967295,
            lo as int * lo as int <= n as int,
            (n as int) < (hi as int + 1) * (hi as int + 1),
        decreases hi - lo,
    {
        let mid: u64 = lo + (hi - lo + 1) / 2;
        proof {
            assert(mid as int * mid as int <= 0x1_0000_0000 * 0x1_0000_0000) by (nonlinear_arith)
                requires
                    0 <= mid as int <= 0x1_0000_0000,
            ;
        }
        if (mid as u128) * (mid as u128) <= (n as u128) {
            lo = mid;
        } else {
            hi = mid - 1;
        }
    }
    proof {
        lemma_sqrt_floor_unique(n as nat, lo as nat);
        assert(lo == 0 ==> (n as int) < (0 + 1) * (0 + 1)) by (nonlinear_arith)
            requires
                (n as int) < (lo as int + 1) * (lo as int + 1),
        ;
        assert(lo as int * lo as int >= 1 ==> n >= 1);
        assert(n == 0 ==> (lo as int * lo as int) < 1);
        assert(n == 0 && lo >= 1 ==> lo as int * lo as int >= 1) by (nonlinear_arith);
    }
    lo
}

} // verus!
