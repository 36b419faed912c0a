//! A level: start and finish anchors plus an insertion-ordered list of
//! wall segments, with a pure editing API.

use vstd::prelude::*;

use crate::segment::{seg_clamped, seg_in_range, Segment};
use crate::vec::{clamp_v_spec, v_in_range, v_zero, Fv2};

verus! {

/// Default horizontal offset of the finish anchor: five world units.
pub const DEFAULT_FINISH_X: i64 = 5 * 65536;

/// The finish anchor used when a level document gives none.
pub open spec fn default_finish_spec() -> Fv2 {
    Fv2 { x: DEFAULT_FINISH_X, y: 0 }
}

/// Pure level data; mutated only through the editing methods below.
#[derive(Clone, Debug)]
pub struct Level {
    pub start_pos: Fv2,
    pub finish_pos: Fv2,
    pub surfaces: Vec<Segment>,
}

/// Anchors and every segment within the storable band.
pub open spec fn level_wf(l: Level) -> bool {
    &&& v_in_range(l.start_pos)
    &&& v_in_range(l.finish_pos)
    &&& forall|i: int| 0 <= i < l.surfaces@.len() ==> seg_in_range(#[trigger] l.surfaces@[i])
}

impl Level {
    /// The empty level with default anchors: start at the origin,
    /// finish five world units to the right.
    pub fn new() -> (r: Level)
        ensures
            r.start_pos == v_zero(),
            r.finish_pos == default_finish_spec(),
            r.surfaces@.len() == 0,
            level_wf(r),
    {
        Level {
            start_pos: Fv2 { x: 0, y: 0 },
            finish_pos: Fv2 { x: DEFAULT_FINISH_X, y: 0 },
            surfaces: Vec::new(),
        }
    }

    /// Assemble a level from the fields of a level document, applying
    /// the document defaults for missing anchors and clamping every
    /// coordinate into the storable band.
    pub fn from_parts(start_pos: Option<Fv2>, finish_pos: Option<Fv2>, surfaces: Vec<Segment>) -> (r:
        Level)
        ensures
            r.start_pos == (match start_pos {
                Some(p) => clamp_v_spec(p),
                None => v_zero(),
            }),
            r.finish_pos == (match finish_pos {
                Some(p) => clamp_v_spec(p),
                None => default_finish_spec(),
            }),
            r.surfaces@.len() == surfaces@.len(),
            forall|i: int|
                0 <= i < surfaces@.len() ==> #[trigger] r.surfaces@[i] == seg_clamped(
                    surfaces@[i],
                ),
            level_wf(r),
    {
        let start: Fv2 = match start_pos {
            Some(p) => p.clamped(),
            None => Fv2 { x: 0, y: 0 },
        };
        let finish: Fv2 = match finish_pos {
            Some(p) => p.clamped(),
            None => Fv2 { x: DEFAULT_FINISH_X, y: 0 },
        };
        let mut clamped: Vec<Segment> = Vec::new();
        let mut i: usize = 0;
        while i < surfaces.len()
            invariant
                i <= surfaces@.len(),
                clamped@.len() == i as int,
                forall|j: int|
                    0 <= j < i as int ==> #[trigger] clamped@[j] == seg_clamped(surfaces@[j]),
                forall|j: int| 0 <= j < i as int ==> seg_in_range(#[trigger] clamped@[j]),
            decreases surfaces@.len() - i as int,
        {
            let s = surfaces[i];
            clamped.push(Segment::new(s.a, s.b));
            i = i + 1;
        }
        Level { start_pos: start, finish_pos: finish, surfaces: clamped }
    }

    /// Append a wall segment drawn from `a` to `b` (clamped).
    pub fn add_segment(&mut self, a: Fv2, b: Fv2)
        requires
            level_wf(*old(self)),
        ensures
            final(self).surfaces@ == old(self).surfaces@.push(seg_clamped(Segment { a, b })),
            final(self).start_pos == old(self).start_pos,
            final(self).finish_pos == old(self).finish_pos,
            level_wf(*final(self)),
    {
        self.surfaces.push(Segment::new(a, b));
    }

    /// Remove the segment at `index`, keeping the order of the rest.
    pub fn remove_segment(&mut self, index: usize) -> (removed: Segment)
        requires
            level_wf(*old(self)),
            index < old(self).surfaces@.len(),
        ensures
            final(self).surfaces@ == old(self).surfaces@.remove(index as int),
            removed == old(self).surfaces@[index as int],
            final(self).start_pos == old(self).start_pos,
            final(self).finish_pos == old(self).finish_pos,
            level_wf(*final(self)),
    {
        self.surfaces.remove(index)
    }

    /// Move the start anchor (clamped).
    pub fn set_start_pos(&mut self, p: Fv2)
        requires
            level_wf(*old(self)),
        ensures
            final(self).start_pos == clamp_v_spec(p),
            final(self).finish_pos == old(self).finish_pos,
            final(self).surfaces@ == old(self).surfaces@,
            level_wf(*final(self)),
    {
        self.start_pos = p.clamped();
    }

    /// Move the finish anchor (clamped).
    pub fn set_finish_pos(&mut self, p: Fv2)
        requires
            level_wf(*old(self)),
        ensures
            final(self).finish_pos == clamp_v_spec(p),
            final(self).start_pos == old(self).start_pos,
            final(self).surfaces@ == old(self).surfaces@,
            level_wf(*final(self)),
    {
        self.finish_pos = p.clamped();
    }

    pub fn segment_count(&self) -> (n: usize)
        ensures
            n as int == self.surfaces@.len(),
    {
        self.surfaces.len()
    }

    pub fn segment_at(&self, index: usize) -> (s: Segment)
        requires
            index < self.surfaces@.len(),
        ensures
            s == self.surfaces@[index as int],
    {
        self.surfaces[index]
    }
}

} // verus!
