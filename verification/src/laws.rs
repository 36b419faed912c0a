//! The library's general laws, stated over the same spec functions its
//! public contracts use, and proved once and for all.

use vstd::prelude::*;

use crate::config::{cfg_wf, Config};
use crate::fx;
use crate::fx::FX_ONE;
use crate::player::{body_wf, PlayerBody};
use crate::resolver::{
    phase_move_spec, phase_scale_spec, resolve_upto_spec, scale_origin_spec, scaling_speed_spec,
    step_body_spec, step_core_spec, StepInput,
};
use crate::segment::{closest_point_spec, in_box, seg_in_range, to_spec, Segment};
use crate::vec::{dist2_spec, len2_spec, v_in_range, Fv2};

verus! {

/// LAW (closest feature): for any in-band point and segment, the query
/// reports the distance as the rounded-down length of `p` minus the
/// closest point, and the closest point lies on the segment: inside
/// the endpoints' box, at the clamped projection parameter.
pub proof fn lemma_closest_feature_sound(s: Segment, p: Fv2)
    requires
        seg_in_range(s),
        v_in_range(p),
    ensures
        to_spec(s, p).closest_point == closest_point_spec(s, p),
        in_box(to_spec(s, p).closest_point, s),
        v_in_range(to_spec(s, p).closest_point),
        0 <= to_spec(s, p).distance <= 0x6000_0000,
        to_spec(s, p).distance as int * to_spec(s, p).distance as int <= dist2_spec(
            p,
            to_spec(s, p).closest_point,
        ),
        dist2_spec(p, to_spec(s, p).closest_point) < (to_spec(s, p).distance as int + 1) * (
        to_spec(s, p).distance as int + 1),
        -(FX_ONE as int) <= to_spec(s, p).normal.x as int <= FX_ONE as int,
        -(FX_ONE as int) <= to_spec(s, p).normal.y as int <= FX_ONE as int,
{
    let td = dist2_spec(s.a, s.b);
    let dax = s.a.x as int - s.b.x as int;
    let day = s.a.y as int - s.b.y as int;
    assert(td == dax * dax + day * day);
    assert(dax * dax >= 0 && day * day >= 0) by (nonlinear_arith);
    let dbx = s.b.x as int - s.a.x as int;
    let dby = s.b.y as int - s.a.y as int;
    let c = closest_point_spec(s, p);
    if td != 0 {
        let tn = crate::vec::dot_from_spec(s.a, p, s.b);
        let t = fx::clamp_spec(tn, 0, td);
        fx::lemma_frac_div_bounds(dbx, t, td);
        fx::lemma_frac_div_bounds(dby, t, td);
    }
    assert(in_box(c, s));
    let dx = p.x as int - c.x as int;
    let dy = p.y as int - c.y as int;
    let d2 = dist2_spec(p, c);
    assert(d2 == dx * dx + dy * dy);
    assert(dx * dx >= 0 && dy * dy >= 0 && dx * dx + dy * dy <= 0x2000_0000_0000_0000)
        by (nonlinear_arith)
        requires
            -0x4000_0000 <= dx <= 0x4000_0000,
            -0x4000_0000 <= dy <= 0x4000_0000,
    ;
    fx::lemma_sqrt_floor(d2 as nat);
    let sf = fx::sqrt_floor(d2 as nat) as int;
    assert(sf <= 0x6000_0000) by (nonlinear_arith)
        requires
            sf >= 0,
            sf * sf <= 0x2000_0000_0000_0000,
    ;
    let d = to_spec(s, p).distance as int;
    assert(d == sf);
    if d != 0 {
        assert(-d <= dx <= d && -d <= dy <= d) by (nonlinear_arith)
            requires
                dx * dx < (d + 1) * (d + 1),
                dy * dy < (d + 1) * (d + 1),
                d >= 0,
        ;
        fx::lemma_div_tz_bound(dx * FX_ONE as int, d, FX_ONE as int);
        fx::lemma_div_tz_bound(dy * FX_ONE as int, d, FX_ONE as int);
    }
}

/// Core of the unit-normal bound, on magnitudes: when the squared sum
/// of `ax, ay` rounds down to `d`, the scaled quotients
/// `ax * FX_ONE / d` and `ay * FX_ONE / d` have a squared sum within
/// `[FX_ONE^2 - 4 FX_ONE, FX_ONE^2 + 2 FX_ONE]`, provided `d` is at
/// least one world unit so truncation cannot dominate.
proof fn lemma_unit_normal_scalar(ax: int, ay: int, d: int)
    requires
        ax >= 0,
        ay >= 0,
        d >= FX_ONE as int,
        ax <= d,
        ay <= d,
        d * d <= ax * ax + ay * ay,
        ax * ax + ay * ay < (d + 1) * (d + 1),
    ensures
        FX_ONE as int * FX_ONE as int - 4 * FX_ONE as int <= (ax * FX_ONE as int / d) * (ax
            * FX_ONE as int / d) + (ay * FX_ONE as int / d) * (ay * FX_ONE as int / d),
        (ax * FX_ONE as int / d) * (ax * FX_ONE as int / d) + (ay * FX_ONE as int / d) * (ay
            * FX_ONE as int / d) <= FX_ONE as int * FX_ONE as int + 2 * FX_ONE as int,
{
    let s1 = FX_ONE as int;
    let mx = ax * s1 / d;
    let my = ay * s1 / d;
    let rx = (ax * s1) % d;
    let ry = (ay * s1) % d;
    vstd::arithmetic::div_mod::lemma_fundamental_div_mod(ax * s1, d);
    vstd::arithmetic::div_mod::lemma_mod_bound(ax * s1, d);
    vstd::arithmetic::div_mod::lemma_fundamental_div_mod(ay * s1, d);
    vstd::arithmetic::div_mod::lemma_mod_bound(ay * s1, d);
    vstd::arithmetic::div_mod::lemma_div_pos_is_pos(ax * s1, d);
    vstd::arithmetic::div_mod::lemma_div_pos_is_pos(ay * s1, d);
    assert(mx * d == ax * s1 - rx && my * d == ay * s1 - ry) by (nonlinear_arith)
        requires
            ax * s1 == d * mx + rx,
            ay * s1 == d * my + ry,
    ;
    // Upper bound: each scaled quotient is at most the exact ratio.
    let ux = mx * d;
    let uy = my * d;
    assert(ux >= 0 && uy >= 0) by (nonlinear_arith)
        requires
            ux == mx * d,
            uy == my * d,
            mx >= 0,
            my >= 0,
            d >= 1,
    ;
    assert(ux * ux <= (ax * s1) * (ax * s1) && uy * uy <= (ay * s1) * (ay * s1))
        by (nonlinear_arith)
        requires
            0 <= ux <= ax * s1,
            0 <= uy <= ay * s1,
    ;
    assert((mx * mx) * (d * d) == ux * ux && (my * my) * (d * d) == uy * uy)
        by (nonlinear_arith)
        requires
            ux == mx * d,
            uy == my * d,
    ;
    assert((mx * mx + my * my) * (d * d) == (mx * mx) * (d * d) + (my * my) * (d * d))
        by (nonlinear_arith);
    assert((ax * s1) * (ax * s1) + (ay * s1) * (ay * s1) == s1 * s1 * (ax * ax + ay * ay))
        by (nonlinear_arith);
    assert((mx * mx + my * my) * (d * d) <= s1 * s1 * (ax * ax + ay * ay));
    assert(s1 * s1 * (ax * ax + ay * ay) <= s1 * s1 * (d * d) + 2 * (s1 * s1) * d)
        by (nonlinear_arith)
        requires
            ax * ax + ay * ay < (d + 1) * (d + 1),
            s1 == 65536,
            d >= 1,
    ;
    assert(mx * mx + my * my <= s1 * s1 + 2 * s1) by (nonlinear_arith)
        requires
            (mx * mx + my * my) * (d * d) <= s1 * s1 * (d * d) + 2 * (s1 * s1) * d,
            mx * mx + my * my >= 0,
            d >= s1,
            s1 == 65536,
    ;
    // Lower bound: at most one component can be so small that its
    // quotient truncates to nothing.
    if ax * s1 >= d && ay * s1 >= d {
        let vx = ax * s1 - d;
        let vy = ay * s1 - d;
        assert(ux >= vx && vx >= 0 && uy >= vy && vy >= 0);
        assert(ux * ux >= vx * vx && uy * uy >= vy * vy) by (nonlinear_arith)
            requires
                ux >= vx >= 0,
                uy >= vy >= 0,
        ;
        assert(vx * vx == (s1 * s1) * (ax * ax) - 2 * (s1 * d) * ax + d * d) by (nonlinear_arith)
            requires
                vx == ax * s1 - d,
        ;
        assert(vy * vy == (s1 * s1) * (ay * ay) - 2 * (s1 * d) * ay + d * d) by (nonlinear_arith)
            requires
                vy == ay * s1 - d,
        ;
        assert(s1 * s1 * (ax * ax + ay * ay) == (s1 * s1) * (ax * ax) + (s1 * s1) * (ay * ay)
            && 2 * (s1 * d) * (ax + ay) == 2 * (s1 * d) * ax + 2 * (s1 * d) * ay)
            by (nonlinear_arith);
        assert(vx * vx + vy * vy == s1 * s1 * (ax * ax + ay * ay) - 2 * (s1 * d) * (ax + ay) + 2
            * (d * d));
        assert(s1 * s1 * (ax * ax + ay * ay) >= s1 * s1 * (d * d)) by (nonlinear_arith)
            requires
                ax * ax + ay * ay >= d * d,
                s1 >= 1,
        ;
        assert(2 * (s1 * d) * (ax + ay) <= 4 * s1 * (d * d)) by (nonlinear_arith)
            requires
                ax <= d,
                ay <= d,
                s1 >= 1,
                d >= 1,
        ;
        assert(s1 * s1 * (d * d) - 4 * s1 * (d * d) + 2 * (d * d) >= (s1 * s1 - 4 * s1) * (d
            * d)) by (nonlinear_arith)
            requires
                d >= 1,
        ;
        assert((mx * mx + my * my) * (d * d) >= (s1 * s1 - 4 * s1) * (d * d));
        assert(mx * mx + my * my >= s1 * s1 - 4 * s1) by (nonlinear_arith)
            requires
                (mx * mx + my * my) * (d * d) >= (s1 * s1 - 4 * s1) * (d * d),
                d >= 1,
        ;
    } else {
        // One scaled component is below d; the other then carries
        // nearly the whole length.
        let (bs, br, bm) = if ax * s1 < d {
            (ay * s1, ry, my)
        } else {
            (ax * s1, rx, mx)
        };
        assert(bs * bs >= (d * d) * (s1 * s1) - d * d) by (nonlinear_arith)
            requires
                (ax * s1 < d && bs == ay * s1) || (ay * s1 < d && bs == ax * s1),
                ax >= 0,
                ay >= 0,
                s1 >= 1,
                d >= 1,
                d * d <= ax * ax + ay * ay,
        ;
        assert(bs >= d) by (nonlinear_arith)
            requires
                bs * bs >= (d * d) * (s1 * s1) - d * d,
                bs >= 0,
                s1 >= 2,
                d >= 1,
        ;
        assert(bs <= s1 * d) by (nonlinear_arith)
            requires
                (bs == ay * s1 && ay <= d) || (bs == ax * s1 && ax <= d),
                s1 >= 1,
        ;
        assert(bm * d == bs - br) by (nonlinear_arith)
            requires
                (bs == ay * s1 && br == ry && bm == my && my * d == ay * s1 - ry) || (bs == ax
                    * s1 && br == rx && bm == mx && mx * d == ax * s1 - rx),
        ;
        let ub = bm * d;
        let vb = bs - d;
        assert(ub >= vb && vb >= 0);
        assert(ub * ub >= vb * vb) by (nonlinear_arith)
            requires
                ub >= vb >= 0,
        ;
        assert(vb * vb >= (d * d) * (s1 * s1) - d * d - 2 * (s1 * d) * d + d * d)
            by (nonlinear_arith)
            requires
                vb == bs - d,
                bs * bs >= (d * d) * (s1 * s1) - d * d,
                bs <= s1 * d,
                d >= 1,
        ;
        assert((d * d) * (s1 * s1) - d * d - 2 * (s1 * d) * d + d * d >= (s1 * s1 - 4 * s1) * (d
            * d)) by (nonlinear_arith)
            requires
                d >= 1,
                s1 >= 1,
        ;
        assert((bm * bm) * (d * d) == ub * ub) by (nonlinear_arith)
            requires
                ub == bm * d,
        ;
        assert((bm * bm) * (d * d) >= (s1 * s1 - 4 * s1) * (d * d));
        assert(bm * bm >= s1 * s1 - 4 * s1) by (nonlinear_arith)
            requires
                (bm * bm) * (d * d) >= (s1 * s1 - 4 * s1) * (d * d),
                d >= 1,
        ;
        assert(mx * mx >= 0 && my * my >= 0) by (nonlinear_arith);
        assert(mx * mx + my * my >= s1 * s1 - 4 * s1);
    }
}

/// LAW (unit normal): whenever the query point is at least one world
/// unit away from the segment, the reported normal is a unit vector
/// at scale `FX_ONE`, to within a few parts in `FX_ONE`: its squared
/// length lies in `[FX_ONE^2 - 4 FX_ONE, FX_ONE^2 + 2 FX_ONE]`.
pub proof fn lemma_normal_unit_length(s: Segment, p: Fv2)
    requires
        seg_in_range(s),
        v_in_range(p),
        to_spec(s, p).distance >= FX_ONE,
    ensures
        FX_ONE as int * FX_ONE as int - 4 * FX_ONE as int <= to_spec(s, p).normal.x as int
            * to_spec(s, p).normal.x as int + to_spec(s, p).normal.y as int * to_spec(
            s,
            p,
        ).normal.y as int,
        to_spec(s, p).normal.x as int * to_spec(s, p).normal.x as int + to_spec(
            s,
            p,
        ).normal.y as int * to_spec(s, p).normal.y as int <= FX_ONE as int * FX_ONE as int + 2
            * FX_ONE as int,
{
    lemma_closest_feature_sound(s, p);
    let f = to_spec(s, p);
    let c = f.closest_point;
    let d = f.distance as int;
    let s1 = FX_ONE as int;
    let dx = p.x as int - c.x as int;
    let dy = p.y as int - c.y as int;
    assert(dx * dx >= 0 && dy * dy >= 0) by (nonlinear_arith);
    assert(-d <= dx <= d && -d <= dy <= d) by (nonlinear_arith)
        requires
            dx * dx < (d + 1) * (d + 1),
            dy * dy < (d + 1) * (d + 1),
            d >= 0,
    ;
    let ax = if dx >= 0 {
        dx
    } else {
        -dx
    };
    let ay = if dy >= 0 {
        dy
    } else {
        -dy
    };
    assert(ax * ax == dx * dx && ay * ay == dy * dy) by (nonlinear_arith)
        requires
            ax == dx || ax == -dx,
            ay == dy || ay == -dy,
    ;
    lemma_unit_normal_scalar(ax, ay, d);
    let nx = f.normal.x as int;
    let ny = f.normal.y as int;
    assert(dx * s1 >= 0 <==> dx >= 0) by (nonlinear_arith)
        requires
            s1 == 65536,
    ;
    assert(dy * s1 >= 0 <==> dy >= 0) by (nonlinear_arith)
        requires
            s1 == 65536,
    ;
    assert(-(dx * s1) == (-dx) * s1 && -(dy * s1) == (-dy) * s1) by (nonlinear_arith);
    fx::lemma_div_tz_bound(dx * s1, d, s1);
    fx::lemma_div_tz_bound(dy * s1, d, s1);
    let d2 = dist2_spec(p, c);
    assert(d2 == dx * dx + dy * dy);
    assert(dx * dx + dy * dy <= 0x2000_0000_0000_0000) by (nonlinear_arith)
        requires
            -0x4000_0000 <= dx <= 0x4000_0000,
            -0x4000_0000 <= dy <= 0x4000_0000,
    ;
    fx::lemma_sqrt_floor(d2 as nat);
    let sf = fx::sqrt_floor(d2 as nat) as int;
    assert(sf <= 0x6000_0000) by (nonlinear_arith)
        requires
            sf >= 0,
            sf * sf <= 0x2000_0000_0000_0000,
    ;
    assert(d == sf);
    assert(nx == fx::div_tz(dx * s1, d) && ny == fx::div_tz(dy * s1, d));
    assert(nx == ax * s1 / d || nx == -(ax * s1 / d));
    assert(ny == ay * s1 / d || ny == -(ay * s1 / d));
    assert(nx * nx == (ax * s1 / d) * (ax * s1 / d) && ny * ny == (ay * s1 / d) * (ay * s1 / d))
        by (nonlinear_arith)
        requires
            nx == ax * s1 / d || nx == -(ax * s1 / d),
            ny == ay * s1 / d || ny == -(ay * s1 / d),
    ;
}

/// One component of the push-out gain: pushing along the rounded
/// normal, the dot with the true offset loses at most one divisor of
/// rounding per stage.
proof fn lemma_push_dot_component(dx: int, d: int, pen: int, nx: int, qx: int)
    requires
        d >= 1,
        pen >= 1,
        -d <= dx <= d,
        dx * (FX_ONE as int) >= 0 ==> 0 <= nx * d <= dx * (FX_ONE as int) && dx * (FX_ONE as int)
            - d < nx * d,
        dx * (FX_ONE as int) < 0 ==> dx * (FX_ONE as int) <= nx * d <= 0 && nx * d < dx * (
        FX_ONE as int) + d,
        nx * pen >= 0 ==> 0 <= qx * (FX_ONE as int) <= nx * pen && nx * pen - (FX_ONE as int) < qx
            * (FX_ONE as int),
        nx * pen < 0 ==> nx * pen <= qx * (FX_ONE as int) <= 0 && qx * (FX_ONE as int) < nx * pen
            + (FX_ONE as int),
    ensures
        (dx * qx) * ((FX_ONE as int) * d) >= (dx * dx) * ((FX_ONE as int) * pen) - (d * d) * pen
            - (d * d) * (FX_ONE as int),
{
    let s1 = FX_ONE as int;
    let adx = if dx >= 0 {
        dx
    } else {
        -dx
    };
    let t1 = qx * s1 - nx * pen;
    assert(-s1 < t1 < s1);
    assert(dx * t1 >= -(adx * s1)) by (nonlinear_arith)
        requires
            -s1 < t1 < s1,
            (dx >= 0 && adx == dx) || (dx < 0 && adx == -dx),
            s1 >= 1,
    ;
    let t2 = dx * s1 - nx * d;
    assert(-d < t2 < d ==> dx * t2 <= adx * d) by (nonlinear_arith)
        requires
            (dx >= 0 && adx == dx) || (dx < 0 && adx == -dx),
            d >= 1,
    ;
    assert(-d < t2 < d);
    assert((dx * qx) * (s1 * d) == d * (dx * (qx * s1))) by (nonlinear_arith);
    assert(dx * (qx * s1) == dx * (nx * pen) + dx * t1) by (nonlinear_arith)
        requires
            t1 == qx * s1 - nx * pen,
    ;
    assert(d * (dx * (qx * s1)) >= d * (dx * (nx * pen) - (adx * s1))) by (nonlinear_arith)
        requires
            dx * (qx * s1) >= dx * (nx * pen) - (adx * s1),
            d >= 1,
    ;
    assert(d * (dx * (nx * pen) - (adx * s1)) == pen * (dx * (nx * d)) - d * (adx * s1))
        by (nonlinear_arith);
    assert(dx * (nx * d) == dx * dx * s1 - dx * t2) by (nonlinear_arith)
        requires
            t2 == dx * s1 - nx * d,
    ;
    assert(pen * (dx * (nx * d)) >= pen * (dx * dx * s1 - adx * d)) by (nonlinear_arith)
        requires
            dx * (nx * d) >= dx * dx * s1 - adx * d,
            pen >= 1,
    ;
    assert(pen * (dx * dx * s1 - adx * d) - d * (adx * s1) >= (dx * dx) * (s1 * pen) - (d * d)
        * pen - (d * d) * s1) by (nonlinear_arith)
        requires
            0 <= adx <= d,
            pen >= 1,
            s1 >= 1,
            d >= 1,
    ;
}

/// The push along the rounded normal, dotted with the offset from the
/// closest point, regains nearly `pen` lengths of that offset.
proof fn lemma_push_dot(dx: int, dy: int, d: int, pen: int)
    requires
        d >= 1,
        pen >= 1,
        -d <= dx <= d,
        -d <= dy <= d,
    ensures
        ({
            let s1 = FX_ONE as int;
            let qx = fx::div_tz(fx::div_tz(dx * s1, d) * pen, s1);
            let qy = fx::div_tz(fx::div_tz(dy * s1, d) * pen, s1);
            (dx * qx + dy * qy) * (s1 * d) >= (dx * dx + dy * dy) * (s1 * pen) - 2 * ((d * d)
                * pen) - 2 * ((d * d) * s1)
        }),
{
    let s1 = FX_ONE as int;
    let nx = fx::div_tz(dx * s1, d);
    let ny = fx::div_tz(dy * s1, d);
    let qx = fx::div_tz(nx * pen, s1);
    let qy = fx::div_tz(ny * pen, s1);
    fx::lemma_div_tz_fundamental(dx * s1, d);
    fx::lemma_div_tz_fundamental(dy * s1, d);
    fx::lemma_div_tz_fundamental(nx * pen, s1);
    fx::lemma_div_tz_fundamental(ny * pen, s1);
    lemma_push_dot_component(dx, d, pen, nx, qx);
    lemma_push_dot_component(dy, d, pen, ny, qy);
    assert((dx * qx + dy * qy) * (s1 * d) == (dx * qx) * (s1 * d) + (dy * qy) * (s1 * d))
        by (nonlinear_arith);
    assert((dx * dx + dy * dy) * (s1 * pen) == (dx * dx) * (s1 * pen) + (dy * dy) * (s1 * pen))
        by (nonlinear_arith);
}

/// The rounded closest point keeps its supporting property under a
/// bounded move of the query point: the old offset direction, dotted
/// with the closest point's displacement, loses at most a rounding
/// margin.
proof fn lemma_closest_shift(s: Segment, p: Fv2, p2: Fv2, pen: int)
    requires
        seg_in_range(s),
        v_in_range(p),
        v_in_range(p2),
        pen >= 1,
        -pen <= p2.x - p.x <= pen,
        -pen <= p2.y - p.y <= pen,
    ensures
        ({
            let c = closest_point_spec(s, p);
            let c2 = closest_point_spec(s, p2);
            let dx = p.x as int - c.x as int;
            let dy = p.y as int - c.y as int;
            let adx = if dx >= 0 {
                dx
            } else {
                -dx
            };
            let ady = if dy >= 0 {
                dy
            } else {
                -dy
            };
            dx * (c.x - c2.x) + dy * (c.y - c2.y) >= -(2 * pen) - 2 * (adx + ady)
        }),
{
    let c = closest_point_spec(s, p);
    let c2 = closest_point_spec(s, p2);
    let dx = p.x as int - c.x as int;
    let dy = p.y as int - c.y as int;
    let adx = if dx >= 0 {
        dx
    } else {
        -dx
    };
    let ady = if dy >= 0 {
        dy
    } else {
        -dy
    };
    let td = dist2_spec(s.a, s.b);
    let dbx = s.b.x as int - s.a.x as int;
    let dby = s.b.y as int - s.a.y as int;
    let dax = s.a.x as int - s.b.x as int;
    let day = s.a.y as int - s.b.y as int;
    assert(td == dax * dax + day * day);
    assert(dax * dax == dbx * dbx && day * day == dby * dby && dbx * dbx >= 0 && dby * dby >= 0)
        by (nonlinear_arith)
        requires
            dax == -dbx,
            day == -dby,
    ;
    if td == 0 {
        assert(c == s.a && c2 == s.a);
        assert(dx * 0 == 0 && dy * 0 == 0) by (nonlinear_arith);
    } else {
        let tn = crate::vec::dot_from_spec(s.a, p, s.b);
        let tn2 = crate::vec::dot_from_spec(s.a, p2, s.b);
        let t = fx::clamp_spec(tn, 0, td);
        let t2c = fx::clamp_spec(tn2, 0, td);
        let mv = pen * (if dbx >= 0 {
            dbx
        } else {
            -dbx
        } + if dby >= 0 {
            dby
        } else {
            -dby
        });
        assert(tn - tn2 == (p.x - p2.x) * dbx + (p.y - p2.y) * dby) by (nonlinear_arith)
            requires
                tn == (p.x - s.a.x) * (s.b.x - s.a.x) + (p.y - s.a.y) * (s.b.y - s.a.y),
                tn2 == (p2.x - s.a.x) * (s.b.x - s.a.x) + (p2.y - s.a.y) * (s.b.y - s.a.y),
                dbx == s.b.x - s.a.x,
                dby == s.b.y - s.a.y,
        ;
        assert(-mv <= tn - tn2 <= mv) by (nonlinear_arith)
            requires
                tn - tn2 == (p.x - p2.x) * dbx + (p.y - p2.y) * dby,
                -pen <= p.x - p2.x <= pen,
                -pen <= p.y - p2.y <= pen,
                mv == pen * (if dbx >= 0 {
                    dbx
                } else {
                    -dbx
                } + if dby >= 0 {
                    dby
                } else {
                    -dby
                }),
                pen >= 1,
        ;
        fx::lemma_clamp_lipschitz(tn, tn2, 0, td);
        assert(-mv <= t - t2c <= mv);
        let ax1 = fx::div_tz(dbx * t, td);
        let ay1 = fx::div_tz(dby * t, td);
        let ax2 = fx::div_tz(dbx * t2c, td);
        let ay2 = fx::div_tz(dby * t2c, td);
        fx::lemma_frac_div_bounds(dbx, t, td);
        fx::lemma_frac_div_bounds(dby, t, td);
        fx::lemma_frac_div_bounds(dbx, t2c, td);
        fx::lemma_frac_div_bounds(dby, t2c, td);
        assert(c.x == s.a.x + ax1 && c.y == s.a.y + ay1);
        assert(c2.x == s.a.x + ax2 && c2.y == s.a.y + ay2);
        fx::lemma_div_tz_fundamental(dbx * t, td);
        fx::lemma_div_tz_fundamental(dby * t, td);
        fx::lemma_div_tz_fundamental(dbx * t2c, td);
        fx::lemma_div_tz_fundamental(dby * t2c, td);
        let rx1 = dbx * t - ax1 * td;
        let ry1 = dby * t - ay1 * td;
        let rx2 = dbx * t2c - ax2 * td;
        let ry2 = dby * t2c - ay2 * td;
        assert(-td < rx1 < td && -td < ry1 < td && -td < rx2 < td && -td < ry2 < td);
        let w = dx * dbx + dy * dby;
        // The displacement of the rounded closest point, against the
        // old offset, component by component.
        assert(td * (dx * (ax1 - ax2)) == (t - t2c) * (dx * dbx) - dx * (rx1 - rx2))
            by (nonlinear_arith)
            requires
                rx1 == dbx * t - ax1 * td,
                rx2 == dbx * t2c - ax2 * td,
        ;
        assert(td * (dy * (ay1 - ay2)) == (t - t2c) * (dy * dby) - dy * (ry1 - ry2))
            by (nonlinear_arith)
            requires
                ry1 == dby * t - ay1 * td,
                ry2 == dby * t2c - ay2 * td,
        ;
        assert((t - t2c) * w == (t - t2c) * (dx * dbx) + (t - t2c) * (dy * dby))
            by (nonlinear_arith)
            requires
                w == dx * dbx + dy * dby,
        ;
        assert(td * (dx * (ax1 - ax2) + dy * (ay1 - ay2)) == td * (dx * (ax1 - ax2)) + td * (dy
            * (ay1 - ay2))) by (nonlinear_arith);
        assert(td * (dx * (ax1 - ax2) + dy * (ay1 - ay2)) == (t - t2c) * w - (dx * (rx1 - rx2)
            + dy * (ry1 - ry2)));
        assert(dx * (rx1 - rx2) + dy * (ry1 - ry2) <= (adx + ady) * (2 * td)) by (nonlinear_arith)
            requires
                -td < rx1 < td,
                -td < ry1 < td,
                -td < rx2 < td,
                -td < ry2 < td,
                (dx >= 0 && adx == dx) || (dx < 0 && adx == -dx),
                (dy >= 0 && ady == dy) || (dy < 0 && ady == -dy),
                td >= 1,
        ;
        // The supporting property of the closest feature, per clamp case.
        let adbx = if dbx >= 0 {
            dbx
        } else {
            -dbx
        };
        let adby = if dby >= 0 {
            dby
        } else {
            -dby
        };
        if 0 <= tn <= td {
            assert(t == tn);
            assert(td * (dx * dbx) == (td * (p.x - s.a.x)) * dbx - ((dbx * t) * dbx - rx1 * dbx))
                by (nonlinear_arith)
                requires
                    dx == p.x - s.a.x - ax1,
                    rx1 == dbx * t - ax1 * td,
            ;
            assert(td * (dy * dby) == (td * (p.y - s.a.y)) * dby - ((dby * t) * dby - ry1 * dby))
                by (nonlinear_arith)
                requires
                    dy == p.y - s.a.y - ay1,
                    ry1 == dby * t - ay1 * td,
            ;
            assert((td * (p.x - s.a.x)) * dbx + (td * (p.y - s.a.y)) * dby == td * tn)
                by (nonlinear_arith)
                requires
                    tn == (p.x - s.a.x) * dbx + (p.y - s.a.y) * dby,
            ;
            assert((dbx * t) * dbx + (dby * t) * dby == t * td) by (nonlinear_arith)
                requires
                    td == dbx * dbx + dby * dby,
            ;
            assert(td * w == td * (dx * dbx) + td * (dy * dby)) by (nonlinear_arith)
                requires
                    w == dx * dbx + dy * dby,
            ;
            assert(td * tn == t * td) by (nonlinear_arith)
                requires
                    t == tn,
            ;
            assert(td * w == rx1 * dbx + ry1 * dby);
            assert(-((adbx + adby) * td) <= td * w <= (adbx + adby) * td) by (nonlinear_arith)
                requires
                    td * w == rx1 * dbx + ry1 * dby,
                    -td < rx1 < td,
                    -td < ry1 < td,
                    (dbx >= 0 && adbx == dbx) || (dbx < 0 && adbx == -dbx),
                    (dby >= 0 && adby == dby) || (dby < 0 && adby == -dby),
                    td >= 1,
            ;
            assert(-(adbx + adby) <= w <= adbx + adby) by (nonlinear_arith)
                requires
                    -((adbx + adby) * td) <= td * w <= (adbx + adby) * td,
                    td >= 1,
            ;
            assert((adbx + adby) * (adbx + adby) <= 2 * td) by (nonlinear_arith)
                requires
                    td == dbx * dbx + dby * dby,
                    (dbx >= 0 && adbx == dbx) || (dbx < 0 && adbx == -dbx),
                    (dby >= 0 && adby == dby) || (dby < 0 && adby == -dby),
            ;
            assert(mv == pen * (adbx + adby));
            assert((t - t2c) * w >= -(2 * pen) * td) by (nonlinear_arith)
                requires
                    -mv <= t - t2c <= mv,
                    mv == pen * (adbx + adby),
                    -(adbx + adby) <= w <= adbx + adby,
                    (adbx + adby) * (adbx + adby) <= 2 * td,
                    adbx + adby >= 0,
                    pen >= 1,
                    td >= 1,
            ;
        } else if tn < 0 {
            assert(t == 0);
            fx::lemma_div_tz_multiple(0, td);
            assert(dbx * 0 == 0 && dby * 0 == 0 && 0 * td == 0) by (nonlinear_arith);
            assert(ax1 == 0 && ay1 == 0);
            assert(w == tn) by (nonlinear_arith)
                requires
                    dx == p.x - s.a.x,
                    dy == p.y - s.a.y,
                    w == dx * dbx + dy * dby,
                    tn == (p.x - s.a.x) * dbx + (p.y - s.a.y) * dby,
            ;
            assert((t - t2c) * w >= 0) by (nonlinear_arith)
                requires
                    t == 0,
                    0 <= t2c,
                    w < 0,
            ;
            assert((t - t2c) * w >= -(2 * pen) * td) by (nonlinear_arith)
                requires
                    (t - t2c) * w >= 0,
                    pen >= 1,
                    td >= 1,
            ;
        } else {
            assert(t == td);
            fx::lemma_div_tz_multiple(dbx, td);
            fx::lemma_div_tz_multiple(dby, td);
            assert(ax1 == dbx && ay1 == dby);
            assert(w == tn - td) by (nonlinear_arith)
                requires
                    dx == p.x - s.a.x - dbx,
                    dy == p.y - s.a.y - dby,
                    w == dx * dbx + dy * dby,
                    tn == (p.x - s.a.x) * dbx + (p.y - s.a.y) * dby,
                    td == dbx * dbx + dby * dby,
            ;
            assert((t - t2c) * w >= 0) by (nonlinear_arith)
                requires
                    t == td,
                    t2c <= td,
                    w >= 0,
            ;
            assert((t - t2c) * w >= -(2 * pen) * td) by (nonlinear_arith)
                requires
                    (t - t2c) * w >= 0,
                    pen >= 1,
                    td >= 1,
            ;
        }
        assert(td * (dx * (c.x - c2.x) + dy * (c.y - c2.y)) >= (-(2 * pen) - 2 * (adx + ady))
            * td) by (nonlinear_arith)
            requires
                td * (dx * (ax1 - ax2) + dy * (ay1 - ay2)) == (t - t2c) * w - (dx * (rx1 - rx2)
                    + dy * (ry1 - ry2)),
                (t - t2c) * w >= -(2 * pen) * td,
                dx * (rx1 - rx2) + dy * (ry1 - ry2) <= (adx + ady) * (2 * td),
                dx * (c.x - c2.x) == dx * (ax1 - ax2),
                dy * (c.y - c2.y) == dy * (ay1 - ay2),
                td >= 1,
        ;
        assert(dx * (c.x - c2.x) + dy * (c.y - c2.y) >= -(2 * pen) - 2 * (adx + ady))
            by (nonlinear_arith)
            requires
                td * (dx * (c.x - c2.x) + dy * (c.y - c2.y)) >= (-(2 * pen) - 2 * (adx + ady))
                    * td,
                td >= 1,
        ;
    }
}

/// LAW (no residual penetration, per wall): resolving against a
/// segment leaves the body clear of that segment: its distance to the
/// segment afterwards is at least the new (compressed) radius, minus a
/// rounding margin of at most 7 sub-units (about 1e-4 world units).
/// The body must have room to be pushed out without leaving the
/// storable band. Walls are resolved independently in level order, so
/// this holds per wall as resolved; a later wall of the same step may
/// push the body back into an earlier one, the engine's documented
/// simplification.
pub proof fn lemma_resolution_clears_wall(
    b: PlayerBody,
    s: Segment,
    c: Config,
    ss: int,
    so: Fv2,
    orad: int,
)
    requires
        cfg_wf(c),
        body_wf(b, c),
        seg_in_range(s),
        fx::fx_in_range(b.pos.x - b.radius),
        fx::fx_in_range(b.pos.x + b.radius),
        fx::fx_in_range(b.pos.y - b.radius),
        fx::fx_in_range(b.pos.y + b.radius),
    ensures
        ({
            let nb = crate::resolver::resolve_seg_spec(b, s, c, ss, so, orad).0;
            to_spec(s, nb.pos).distance >= nb.radius - 7
        }),
{
    let f = to_spec(s, b.pos);
    lemma_closest_feature_sound(s, b.pos);
    let nb = crate::resolver::resolve_seg_spec(b, s, c, ss, so, orad).0;
    if f.distance < b.radius {
        let p = b.pos;
        let cpt = f.closest_point;
        let s1 = FX_ONE as int;
        let dx = p.x as int - cpt.x as int;
        let dy = p.y as int - cpt.y as int;
        let d2 = dist2_spec(p, cpt);
        assert(d2 == dx * dx + dy * dy);
        assert(dx * dx >= 0 && dy * dy >= 0 && dx * dx + dy * dy <= 0x2000_0000_0000_0000)
            by (nonlinear_arith)
            requires
                -0x4000_0000 <= dx <= 0x4000_0000,
                -0x4000_0000 <= dy <= 0x4000_0000,
        ;
        fx::lemma_sqrt_floor(d2 as nat);
        let sf = fx::sqrt_floor(d2 as nat) as int;
        assert(sf <= 0x6000_0000) by (nonlinear_arith)
            requires
                sf >= 0,
                sf * sf <= 0x2000_0000_0000_0000,
        ;
        let d = f.distance as int;
        assert(d == sf);
        let pen = b.radius as int - d;
        assert(pen >= 1);
        assert(-d <= dx <= d && -d <= dy <= d) by (nonlinear_arith)
            requires
                dx * dx < (d + 1) * (d + 1),
                dy * dy < (d + 1) * (d + 1),
                d >= 0,
        ;
        // The push is the rounded normal times the penetration, and
        // lands within `pen` of the old position in each component.
        let nx = fx::div_tz(dx * s1, d);
        let ny = fx::div_tz(dy * s1, d);
        let qx = fx::div_tz(nx * pen, s1);
        let qy = fx::div_tz(ny * pen, s1);
        if d == 0 {
            assert(f.normal == crate::vec::v_zero());
            assert(fx::muldiv_sat_spec(0, pen, s1) == 0) by {
                assert(0 * pen == 0) by (nonlinear_arith);
                vstd::arithmetic::div_mod::lemma_div_basics(s1);
            };
            assert(nb.pos == p);
            lemma_closest_feature_sound(s, nb.pos);
        } else {
            fx::lemma_div_tz_bound(dx * s1, d, s1);
            fx::lemma_div_tz_bound(dy * s1, d, s1);
            assert(f.normal.x as int == nx && f.normal.y as int == ny);
            assert(-(pen * s1) <= nx * pen <= pen * s1 && -(pen * s1) <= ny * pen <= pen * s1)
                by (nonlinear_arith)
                requires
                    -s1 <= nx <= s1,
                    -s1 <= ny <= s1,
                    pen >= 1,
            ;
            fx::lemma_div_tz_bound(nx * pen, s1, pen);
            assert(fx::muldiv_sat_spec(nx, pen, s1) == qx && fx::muldiv_sat_spec(ny, pen, s1)
                == qy);
            assert(nb.pos.x as int == p.x + qx && nb.pos.y as int == p.y + qy);
            assert(v_in_range(nb.pos));
            let p2 = nb.pos;
            lemma_closest_feature_sound(s, p2);
            if d <= 7 {
                assert(to_spec(s, p2).distance >= 0);
            } else {
                assert(d * d >= 64) by (nonlinear_arith)
                    requires
                        d >= 8,
                ;
                lemma_push_dot(dx, dy, d, pen);
                lemma_closest_shift(s, p, p2, pen);
                let c2 = closest_point_spec(s, p2);
                let ux = p2.x as int - c2.x as int;
                let uy = p2.y as int - c2.y as int;
                let cshift = dx * (cpt.x - c2.x) + dy * (cpt.y - c2.y);
                let pdot = dx * qx + dy * qy;
                let big = dx * ux + dy * uy;
                assert(ux == dx + qx + (cpt.x - c2.x) && uy == dy + qy + (cpt.y - c2.y));
                assert(big == d2 + pdot + cshift) by (nonlinear_arith)
                    requires
                        ux == dx + qx + (cpt.x - c2.x),
                        uy == dy + qy + (cpt.y - c2.y),
                        big == dx * ux + dy * uy,
                        d2 == dx * dx + dy * dy,
                        pdot == dx * qx + dy * qy,
                        cshift == dx * (cpt.x - c2.x) + dy * (cpt.y - c2.y),
                ;
                let adx = if dx >= 0 {
                    dx
                } else {
                    -dx
                };
                let ady = if dy >= 0 {
                    dy
                } else {
                    -dy
                };
                assert(cshift >= -(2 * pen) - 2 * (adx + ady));
                assert(cshift * (s1 * d) >= (-(2 * pen) - 4 * d) * (s1 * d)) by (nonlinear_arith)
                    requires
                        cshift >= -(2 * pen) - 2 * (adx + ady),
                        adx <= d,
                        ady <= d,
                        s1 >= 1,
                        d >= 1,
                ;
                assert(big * (s1 * d) == d2 * (s1 * d) + pdot * (s1 * d) + cshift * (s1 * d))
                    by (nonlinear_arith)
                    requires
                        big == d2 + pdot + cshift,
                ;
                assert(big * (s1 * d) >= ((d + 1) * (d - 7)) * (s1 * d)) by (nonlinear_arith)
                    requires
                        big * (s1 * d) == d2 * (s1 * d) + pdot * (s1 * d) + cshift * (s1 * d),
                        pdot * (s1 * d) >= d2 * (s1 * pen) - 2 * ((d * d) * pen) - 2 * ((d * d)
                            * s1),
                        cshift * (s1 * d) >= (-(2 * pen) - 4 * d) * (s1 * d),
                        d2 >= d * d,
                        d >= 8,
                        pen >= 1,
                        s1 == 65536,
                ;
                assert(big >= (d + 1) * (d - 7)) by (nonlinear_arith)
                    requires
                        big * (s1 * d) >= ((d + 1) * (d - 7)) * (s1 * d),
                        s1 >= 1,
                        d >= 1,
                ;
                // Cauchy-Schwarz turns the dot bound into a distance
                // bound.
                assert((dx * uy - dy * ux) * (dx * uy - dy * ux) >= 0) by (nonlinear_arith);
                let ca = dx * ux;
                let cb = dy * uy;
                let cc = dx * uy;
                let cd = dy * ux;
                assert(ca * cb == cc * cd) by (nonlinear_arith)
                    requires
                        ca == dx * ux,
                        cb == dy * uy,
                        cc == dx * uy,
                        cd == dy * ux,
                ;
                assert(ca * ca == (dx * dx) * (ux * ux) && cb * cb == (dy * dy) * (uy * uy) && cc
                    * cc == (dx * dx) * (uy * uy) && cd * cd == (dy * dy) * (ux * ux))
                    by (nonlinear_arith)
                    requires
                        ca == dx * ux,
                        cb == dy * uy,
                        cc == dx * uy,
                        cd == dy * ux,
                ;
                assert((ca + cb) * (ca + cb) == ca * ca + 2 * (ca * cb) + cb * cb)
                    by (nonlinear_arith);
                assert((cc - cd) * (cc - cd) == cc * cc - 2 * (cc * cd) + cd * cd)
                    by (nonlinear_arith);
                assert((dx * dx) * (ux * ux + uy * uy) == (dx * dx) * (ux * ux) + (dx * dx) * (uy
                    * uy)) by (nonlinear_arith);
                assert((dy * dy) * (ux * ux + uy * uy) == (dy * dy) * (ux * ux) + (dy * dy) * (uy
                    * uy)) by (nonlinear_arith);
                assert((dx * dx + dy * dy) * (ux * ux + uy * uy) == (dx * dx) * (ux * ux + uy
                    * uy) + (dy * dy) * (ux * ux + uy * uy)) by (nonlinear_arith);
                assert((cc - cd) * (cc - cd) == (dx * uy - dy * ux) * (dx * uy - dy * ux));
                assert(big * big <= (dx * dx + dy * dy) * (ux * ux + uy * uy));
                let d2b = dist2_spec(p2, c2);
                assert(d2b == ux * ux + uy * uy);
                assert(big * big >= ((d + 1) * (d - 7)) * ((d + 1) * (d - 7)))
                    by (nonlinear_arith)
                    requires
                        big >= (d + 1) * (d - 7),
                        d >= 8,
                ;
                assert(((d + 1) * (d - 7)) * ((d + 1) * (d - 7)) >= d2 * ((d - 7) * (d - 7)))
                    by (nonlinear_arith)
                    requires
                        d2 < (d + 1) * (d + 1),
                        d2 >= 0,
                        d >= 8,
                ;
                assert(d2 * d2b >= d2 * ((d - 7) * (d - 7))) by (nonlinear_arith)
                    requires
                        d2 * d2b >= big * big,
                        big * big >= ((d + 1) * (d - 7)) * ((d + 1) * (d - 7)),
                        ((d + 1) * (d - 7)) * ((d + 1) * (d - 7)) >= d2 * ((d - 7) * (d - 7)),
                ;
                assert(d2b >= (d - 7) * (d - 7)) by (nonlinear_arith)
                    requires
                        d2 * d2b >= d2 * ((d - 7) * (d - 7)),
                        d2 >= 1,
                ;
                let db = to_spec(s, p2).distance as int;
                assert(d2b < (db + 1) * (db + 1));
                assert(db >= d - 7) by (nonlinear_arith)
                    requires
                        d2b >= (d - 7) * (d - 7),
                        d2b < (db + 1) * (db + 1),
                        db >= 0,
                        d >= 8,
                ;
            }
        }
    } else {
        assert(nb == b);
    }
}

/// The segments of a level are all in band.
pub open spec fn segs_wf(segs: Seq<Segment>) -> bool {
    forall|i: int| 0 <= i < segs.len() ==> seg_in_range(#[trigger] segs[i])
}

/// Resolving any prefix of the segments preserves the body invariant,
/// never grows the radius, and leaves stillness and the scale origin
/// alone.
pub proof fn lemma_resolve_upto_wf(
    b: PlayerBody,
    segs: Seq<Segment>,
    c: Config,
    ss: int,
    so: Fv2,
    orad: int,
    n: int,
)
    requires
        cfg_wf(c),
        body_wf(b, c),
        segs_wf(segs),
        0 <= n <= segs.len(),
    ensures
        body_wf(resolve_upto_spec(b, segs, c, ss, so, orad, n).0, c),
        resolve_upto_spec(b, segs, c, ss, so, orad, n).0.radius <= b.radius,
        resolve_upto_spec(b, segs, c, ss, so, orad, n).0.stillness == b.stillness,
        resolve_upto_spec(b, segs, c, ss, so, orad, n).0.scale_origin == b.scale_origin,
    decreases n,
{
    if n > 0 {
        lemma_resolve_upto_wf(b, segs, c, ss, so, orad, n - 1);
        let prev = resolve_upto_spec(b, segs, c, ss, so, orad, n - 1).0;
        lemma_closest_feature_sound(segs[n - 1], prev.pos);
    }
}

/// LAW (radius band): the scaling step always lands the radius inside
/// `[min_radius, max_radius]`, whatever the input and elapsed time;
/// the whole micro-step keeps it within `[0, max_radius]` (a squeeze
/// against a wall is the one thing that may compress it below
/// `min_radius`).
pub proof fn lemma_radius_band(
    b: PlayerBody,
    segs: Seq<Segment>,
    c: Config,
    inp: StepInput,
    dt: int,
)
    requires
        cfg_wf(c),
        body_wf(b, c),
        segs_wf(segs),
        dt >= 0,
    ensures
        c.min_radius <= phase_scale_spec(phase_move_spec(b, c, dt), c, inp, dt).0.radius
            <= c.max_radius,
        0 <= step_body_spec(b, segs, c, inp, dt).radius <= c.max_radius,
        body_wf(step_body_spec(b, segs, c, inp, dt), c),
{
    reveal(crate::resolver::step_core_spec);
    reveal(crate::resolver::step_body_spec);
    let moved = phase_move_spec(b, c, dt);
    let scaled = phase_scale_spec(moved, c, inp, dt).0;
    lemma_resolve_upto_wf(
        scaled,
        segs,
        c,
        phase_scale_spec(moved, c, inp, dt).1,
        scaled.scale_origin,
        moved.radius as int,
        segs.len() as int,
    );
}

/// LAW (no residual penetration after a micro-step, single wall): in a
/// level with one wall, a whole micro-step leaves the body clear of it
/// to within the rounding margin of 7 sub-units, provided the body has
/// room at the world's edge. With several walls, each is resolved
/// independently in level order, and a later wall may push the body
/// back into an earlier one: the engine's documented simplification.
pub proof fn lemma_step_clears_single_wall(
    b: PlayerBody,
    segs: Seq<Segment>,
    c: Config,
    inp: StepInput,
    dt: int,
)
    requires
        cfg_wf(c),
        body_wf(b, c),
        segs.len() == 1,
        seg_in_range(segs[0]),
        0 <= dt,
        ({
            let scaled = phase_scale_spec(phase_move_spec(b, c, dt), c, inp, dt).0;
            &&& fx::fx_in_range(scaled.pos.x - scaled.radius)
            &&& fx::fx_in_range(scaled.pos.x + scaled.radius)
            &&& fx::fx_in_range(scaled.pos.y - scaled.radius)
            &&& fx::fx_in_range(scaled.pos.y + scaled.radius)
        }),
    ensures
        ({
            let nb = step_body_spec(b, segs, c, inp, dt);
            to_spec(segs[0], nb.pos).distance >= nb.radius - 7
        }),
{
    reveal(crate::resolver::step_core_spec);
    reveal(crate::resolver::step_body_spec);
    let moved = phase_move_spec(b, c, dt);
    let scaled = phase_scale_spec(moved, c, inp, dt).0;
    let ss = phase_scale_spec(moved, c, inp, dt).1;
    assert(resolve_upto_spec(scaled, segs, c, ss, scaled.scale_origin, moved.radius as int, 0).0
        == scaled);
    lemma_resolution_clears_wall(scaled, segs[0], c, ss, scaled.scale_origin, moved.radius as int);
}

/// Resolving against segments none of which the body penetrates
/// changes nothing and reports no impact.
pub proof fn lemma_resolve_upto_untouched(
    b: PlayerBody,
    segs: Seq<Segment>,
    c: Config,
    ss: int,
    so: Fv2,
    orad: int,
    n: int,
)
    requires
        0 <= n <= segs.len(),
        forall|i: int|
            0 <= i < segs.len() ==> (#[trigger] to_spec(segs[i], b.pos)).distance >= b.radius,
    ensures
        resolve_upto_spec(b, segs, c, ss, so, orad, n).0 == b,
        resolve_upto_spec(b, segs, c, ss, so, orad, n).1 == Seq::<i64>::empty(),
    decreases n,
{
    if n > 0 {
        lemma_resolve_upto_untouched(b, segs, c, ss, so, orad, n - 1);
    }
}

/// LAW (zero-step idempotence): a micro-step of `dt = 0` leaves the
/// body exactly as it was, on any state consistent with the engine's
/// own updates: stillness already reset where speed or resize speed
/// demands it, the radius inside the scaling band, the scale origin
/// the one this cursor yields without hitting the world's edge, and no
/// segment penetrated.
pub proof fn lemma_step_zero_dt(b: PlayerBody, segs: Seq<Segment>, c: Config, inp: StepInput)
    requires
        cfg_wf(c),
        body_wf(b, c),
        segs_wf(segs),
        c.min_radius <= b.radius,
        (fx::sqrt_floor(len2_spec(b.vel) as nat) as int) > c.still_max_vel ==> b.stillness == 0,
        fx::abs_spec(scaling_speed_spec(b, c, inp)) > c.still_max_vel ==> b.stillness == 0,
        fx::fx_in_range(b.pos.x + cursor_offset_spec_x(b, inp)),
        fx::fx_in_range(b.pos.y + cursor_offset_spec_y(b, inp)),
        b.scale_origin == scale_origin_spec(b, inp),
        forall|i: int|
            0 <= i < segs.len() ==> (#[trigger] to_spec(segs[i], b.pos)).distance >= b.radius,
    ensures
        step_body_spec(b, segs, c, inp, 0) == b,
        step_core_spec(b, segs, c, inp, 0).1 == Seq::<i64>::empty(),
{
    reveal(crate::resolver::step_core_spec);
    reveal(crate::resolver::step_body_spec);
    lemma_phase_move_zero(b, c);
    lemma_phase_scale_zero(b, c, inp);
    lemma_resolve_upto_untouched(
        b,
        segs,
        c,
        phase_scale_spec(b, c, inp, 0).1,
        b.scale_origin,
        b.radius as int,
        segs.len() as int,
    );
}

/// The x component of the cursor offset (helper for stating the P5
/// preconditions without nested lets).
pub open spec fn cursor_offset_spec_x(b: PlayerBody, inp: StepInput) -> int {
    crate::resolver::cursor_offset_spec(b, inp).x as int
}

pub open spec fn cursor_offset_spec_y(b: PlayerBody, inp: StepInput) -> int {
    crate::resolver::cursor_offset_spec(b, inp).y as int
}

/// The movement phase with `dt = 0` moves nothing.
proof fn lemma_phase_move_zero(b: PlayerBody, c: Config)
    requires
        cfg_wf(c),
        body_wf(b, c),
        (fx::sqrt_floor(len2_spec(b.vel) as nat) as int) > c.still_max_vel ==> b.stillness == 0,
    ensures
        phase_move_spec(b, c, 0) == b,
{
    assert(0 * FX_ONE as int == 0) by (nonlinear_arith);
    vstd::arithmetic::div_mod::lemma_div_basics(c.still_time_to_full as int);
    fx::lemma_mul_fx_zero(c.gravity as int);
    fx::lemma_mul_fx_zero(fx::mul_fx_spec(c.gravity as int, 0));
    assert(fx::mul_fx_spec(c.gravity as int, 0) == 0);
    fx::lemma_mul_fx_zero(FX_ONE as int - b.stillness as int);
    fx::lemma_mul_fx_zero(b.vel.x as int);
    fx::lemma_mul_fx_zero(b.vel.y as int);
    let res = phase_move_spec(b, c, 0);
    assert(res.pos == b.pos);
    assert(res.vel == b.vel);
    assert(res == b);
}

/// The scaling phase with `dt = 0` and a consistent state changes
/// nothing.
proof fn lemma_phase_scale_zero(b: PlayerBody, c: Config, inp: StepInput)
    requires
        cfg_wf(c),
        body_wf(b, c),
        c.min_radius <= b.radius,
        fx::abs_spec(scaling_speed_spec(b, c, inp)) > c.still_max_vel ==> b.stillness == 0,
        fx::fx_in_range(b.pos.x + cursor_offset_spec_x(b, inp)),
        fx::fx_in_range(b.pos.y + cursor_offset_spec_y(b, inp)),
        b.scale_origin == scale_origin_spec(b, inp),
    ensures
        phase_scale_spec(b, c, inp, 0).0 == b,
{
    let ss = scaling_speed_spec(b, c, inp);
    fx::lemma_mul_fx_zero(ss);
    let co = crate::resolver::cursor_offset_spec(b, inp);
    crate::vec::lemma_clamp_len_in_band(
        crate::vec::sub_sat_spec(inp.cursor, b.pos),
        b.radius as int,
    );
    let origin = scale_origin_spec(b, inp);
    assert(origin.x as int == b.pos.x + co.x && origin.y as int == b.pos.y + co.y);
    let away = crate::vec::sub_sat_spec(b.pos, origin);
    assert(away.x as int == -(co.x as int) && away.y as int == -(co.y as int));
    fx::lemma_muldiv_same(away.x as int, b.radius as int);
    fx::lemma_muldiv_same(away.y as int, b.radius as int);
    let res = phase_scale_spec(b, c, inp, 0).0;
    assert(res.pos == b.pos);
    assert(res == b);
}

} // verus!
