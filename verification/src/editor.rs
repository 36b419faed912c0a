//! Editor geometry queries: snap-to-endpoint and hover/selection
//! picking, built on the same closest-feature primitive as the physics
//! so that gameplay and editing agree on what counts as near a wall.

use vstd::prelude::*;

use crate::fx::FX_MAX;
use crate::level::{level_wf, Level};
use crate::segment::{to_spec, Segment};
use crate::vec::{dist2_spec, v_in_range, Fv2};

verus! {

/// The `j`-th segment endpoint in level order: each segment lists its
/// first endpoint, then its second.
pub open spec fn endpoint_spec(segs: Seq<Segment>, j: int) -> Fv2 {
    if j % 2 == 0 {
        segs[j / 2].a
    } else {
        segs[j / 2].b
    }
}

/// Snap a raw world point to the nearest segment endpoint within
/// `snap_distance`, ties broken by level order; the raw point comes
/// back unchanged when no endpoint is near enough.
pub fn snap_to_endpoint(p: Fv2, level: &Level, snap_distance: i64) -> (r: Fv2)
    requires
        level_wf(*level),
        v_in_range(p),
        0 <= snap_distance <= FX_MAX,
    ensures
        (forall|k: int|
            0 <= k < 2 * level.surfaces@.len() ==> dist2_spec(
                #[trigger] endpoint_spec(level.surfaces@, k),
                p,
            ) >= snap_distance * snap_distance) ==> r == p,
        (exists|k: int|
            0 <= k < 2 * level.surfaces@.len() && dist2_spec(
                #[trigger] endpoint_spec(level.surfaces@, k),
                p,
            ) < snap_distance * snap_distance) ==> (exists|j: int|
            {
                &&& 0 <= j < 2 * level.surfaces@.len()
                &&& r == endpoint_spec(level.surfaces@, j)
                &&& dist2_spec(#[trigger] endpoint_spec(level.surfaces@, j), p) < snap_distance
                    * snap_distance
                &&& forall|k: int|
                    0 <= k < 2 * level.surfaces@.len() ==> dist2_spec(
                        #[trigger] endpoint_spec(level.surfaces@, k),
                        p,
                    ) >= dist2_spec(endpoint_spec(level.surfaces@, j), p)
                &&& forall|k: int|
                    0 <= k < j ==> dist2_spec(#[trigger] endpoint_spec(level.surfaces@, k), p)
                        > dist2_spec(endpoint_spec(level.surfaces@, j), p)
            }),
{
    proof {
        assert(0 <= snap_distance as int * snap_distance as int <= 0x1000_0000_0000_0000)
            by (nonlinear_arith)
            requires
                0 <= snap_distance as int <= 0x2000_0000,
        ;
    }
    let snap2: i64 = snap_distance * snap_distance;
    let n: usize = level.surfaces.len();
    let mut found: bool = false;
    let mut best_pt: Fv2 = p;
    let mut best_d2: i64 = 0;
    let ghost mut best_j: int = 0;
    let mut i: usize = 0;
    while i < n
        invariant
            level_wf(*level),
            v_in_range(p),
            n as int == level.surfaces@.len(),
            i <= n,
            snap2 == snap_distance * snap_distance,
            !found ==> forall|k: int|
                0 <= k < 2 * i as int ==> dist2_spec(
                    #[trigger] endpoint_spec(level.surfaces@, k),
                    p,
                ) >= snap2,
            found ==> {
                &&& 0 <= best_j < 2 * i as int
                &&& best_pt == endpoint_spec(level.surfaces@, best_j)
                &&& best_d2 as int == dist2_spec(endpoint_spec(level.surfaces@, best_j), p)
                &&& best_d2 < snap2
                &&& forall|k: int|
                    0 <= k < 2 * i as int ==> dist2_spec(
                        #[trigger] endpoint_spec(level.surfaces@, k),
                        p,
                    ) >= best_d2 as int
                &&& forall|k: int|
                    0 <= k < best_j ==> dist2_spec(
                        #[trigger] endpoint_spec(level.surfaces@, k),
                        p,
                    ) > best_d2 as int
            },
        decreases n - i,
    {
        let s: Segment = level.surfaces[i];
        let d2a: i64 = s.a.dist2(p);
        proof {
            assert(endpoint_spec(level.surfaces@, 2 * i as int) == s.a);
        }
        if d2a < snap2 && (!found || d2a < best_d2) {
            found = true;
            best_pt = s.a;
            best_d2 = d2a;
            proof {
                best_j = 2 * i as int;
            }
        }
        let d2b: i64 = s.b.dist2(p);
        proof {
            assert(endpoint_spec(level.surfaces@, 2 * i as int + 1) == s.b);
        }
        if d2b < snap2 && (!found || d2b < best_d2) {
            found = true;
            best_pt = s.b;
            best_d2 = d2b;
            proof {
                best_j = 2 * i as int + 1;
            }
        }
        i = i + 1;
    }
    if found {
        best_pt
    } else {
        p
    }
}

/// The segment hovered by the cursor: the one whose distance to the
/// cursor is below `snap_distance` and minimal, ties broken by level
/// order; `None` when no segment is near enough.
pub fn hovered_surface(cursor: Fv2, level: &Level, snap_distance: i64) -> (r: Option<usize>)
    requires
        level_wf(*level),
        v_in_range(cursor),
        0 <= snap_distance <= FX_MAX,
    ensures
        r is None ==> forall|k: int|
            0 <= k < level.surfaces@.len() ==> (#[trigger] to_spec(
                level.surfaces@[k],
                cursor,
            )).distance >= snap_distance,
        r is Some ==> {
            let j = r->0 as int;
            &&& 0 <= j < level.surfaces@.len()
            &&& to_spec(level.surfaces@[j], cursor).distance < snap_distance
            &&& forall|k: int|
                0 <= k < level.surfaces@.len() ==> (#[trigger] to_spec(
                    level.surfaces@[k],
                    cursor,
                )).distance as int >= to_spec(level.surfaces@[j], cursor).distance as int
            &&& forall|k: int|
                0 <= k < j ==> (#[trigger] to_spec(level.surfaces@[k], cursor)).distance as int
                    > to_spec(level.surfaces@[j], cursor).distance as int
        },
{
    let n: usize = level.surfaces.len();
    let mut best: Option<usize> = None;
    let mut best_d: i64 = 0;
    let mut i: usize = 0;
    while i < n
        invariant
            level_wf(*level),
            v_in_range(cursor),
            n as int == level.surfaces@.len(),
            i <= n,
            best is None ==> forall|k: int|
                0 <= k < i as int ==> (#[trigger] to_spec(
                    level.surfaces@[k],
                    cursor,
                )).distance >= snap_distance,
            best is Some ==> {
                let j = best->0 as int;
                &&& 0 <= j < i as int
                &&& best_d as int == to_spec(level.surfaces@[j], cursor).distance as int
                &&& best_d < snap_distance
                &&& forall|k: int|
                    0 <= k < i as int ==> (#[trigger] to_spec(
                        level.surfaces@[k],
                        cursor,
                    )).distance as int >= best_d as int
                &&& forall|k: int|
                    0 <= k < j ==> (#[trigger] to_spec(level.surfaces@[k], cursor)).distance as int
                        > best_d as int
            },
        decreases n - i,
    {
        let s: Segment = level.surfaces[i];
        let f = s.to(cursor);
        let nearer: bool = match best {
            Some(_) => f.distance < best_d,
            None => true,
        };
        if f.distance < snap_distance && nearer {
            best = Some(i);
            best_d = f.distance;
        }
        i = i + 1;
    }
    best
}

} // verus!
