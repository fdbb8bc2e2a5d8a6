//! A tile pyramid: one bounding box per zoom level, describing a reader's
//! coverage.

use vstd::prelude::*;

use crate::types::bbox::TileBBox;
use crate::types::coord::pow2;
use crate::types::coord::TileCoord3;

verus! {

/// Number of zoom levels a pyramid holds.
pub open spec fn pyramid_levels() -> int {
    33
}

/// An ordered sequence of 33 bounding boxes, indexed by zoom level.
#[derive(Debug)]
pub struct TileBBoxPyramide {
    level_bbox: Vec<TileBBox>,
}

impl View for TileBBoxPyramide {
    type V = Seq<TileBBox>;

    closed spec fn view(&self) -> Seq<TileBBox> {
        self.level_bbox@
    }
}

/// The per-level coordinate list of a box, in row-major order.
pub open spec fn bbox_coords_seq(b: TileBBox) -> Seq<TileCoord3> {
    Seq::new(b.spec_count(), |i: int| b.spec_coord_at(i))
}

/// All coordinates of the first `k` levels of a pyramid, ascending by level.
pub open spec fn pyramid_coords_prefix(p: Seq<TileBBox>, k: int) -> Seq<TileCoord3>
    decreases k,
{
    if k <= 0 {
        Seq::empty()
    } else {
        pyramid_coords_prefix(p, k - 1) + bbox_coords_seq(p[k - 1])
    }
}

/// Total tile count of the first `k` levels.
pub open spec fn pyramid_count_prefix(p: Seq<TileBBox>, k: int) -> nat
    decreases k,
{
    if k <= 0 {
        0
    } else {
        pyramid_count_prefix(p, k - 1) + p[k - 1].spec_count()
    }
}

/// A well-formed box never covers more tiles than its whole level holds.
pub proof fn lemma_bbox_count_bound(b: TileBBox)
    requires
        b.wf(),
    ensures
        b.spec_count() <= 0x1_0000_0000_0000_0000,
{
    crate::types::coord::lemma_pow2_monotone(b.level as nat, 32);
    crate::types::coord::lemma_pow2_32();
    let w = b.spec_width() as int;
    let h = b.spec_height() as int;
    assert(w * h <= 0x1_0000_0000_0000_0000int) by (nonlinear_arith)
        requires
            0 <= w <= 0x1_0000_0000,
            0 <= h <= 0x1_0000_0000,
    ;
}

impl TileBBoxPyramide {
    /// A valid pyramid has one well-formed box per level, in level order.
    pub open spec fn wf(self) -> bool {
        &&& self@.len() == pyramid_levels()
        &&& forall|i: int|
            0 <= i < pyramid_levels() ==> (#[trigger] self@[i]).wf() && self@[i].level == i
    }

    /// A pyramid covering every tile of every level.
    pub fn new_full() -> (r: TileBBoxPyramide)
        ensures
            r.wf(),
            forall|i: int, x: int, y: int|
                0 <= i < pyramid_levels() ==> ((#[trigger] r@[i].spec_contains_xy(x, y)) <==> (0
                    <= x < pow2(i as nat) && 0 <= y < pow2(i as nat))),
    {
        let mut level_bbox: Vec<TileBBox> = Vec::new();
        let mut z: u8 = 0;
        while z < 33
            invariant
                z <= 33,
                level_bbox@.len() == z,
                forall|i: int|
                    0 <= i < z ==> (#[trigger] level_bbox@[i]).wf() && level_bbox@[i].level == i,
                forall|i: int, x: int, y: int|
                    0 <= i < z ==> ((#[trigger] level_bbox@[i].spec_contains_xy(x, y)) <==> (0 <= x
                        < pow2(i as nat) && 0 <= y < pow2(i as nat))),
            decreases 33 - z,
        {
            level_bbox.push(TileBBox::new_full(z));
            z = z + 1;
        }
        TileBBoxPyramide { level_bbox }
    }

    /// A pyramid covering nothing.
    pub fn new_empty() -> (r: TileBBoxPyramide)
        ensures
            r.wf(),
            forall|i: int|
                0 <= i < pyramid_levels() ==> #[trigger] r@[i] == TileBBox::spec_empty(i as u8),
            forall|i: int| 0 <= i < pyramid_levels() ==> (#[trigger] r@[i]).spec_is_empty(),
    {
        let mut level_bbox: Vec<TileBBox> = Vec::new();
        let mut z: u8 = 0;
        while z < 33
            invariant
                z <= 33,
                level_bbox@.len() == z,
                forall|i: int|
                    0 <= i < z ==> #[trigger] level_bbox@[i] == TileBBox::spec_empty(i as u8),
            decreases 33 - z,
        {
            level_bbox.push(TileBBox::new_empty(z));
            z = z + 1;
        }
        TileBBoxPyramide { level_bbox }
    }

    /// Empties every level below the given zoom.
    pub fn set_zoom_min(&mut self, zoom_level_min: u64)
        requires
            old(self).wf(),
        ensures
            final(self).wf(),
            forall|i: int|
                0 <= i < pyramid_levels() ==> #[trigger] final(self)@[i] == if i
                    < zoom_level_min {
                    TileBBox::spec_empty(i as u8)
                } else {
                    old(self)@[i]
                },
    {
        let mut z: usize = 0;
        while z < 33
            invariant
                old(self).wf(),
                z <= 33,
                self@.len() == 33,
                forall|i: int|
                    0 <= i < z ==> #[trigger] self@[i] == if i < zoom_level_min {
                        TileBBox::spec_empty(i as u8)
                    } else {
                        old(self)@[i]
                    },
                forall|i: int| z <= i < 33 ==> #[trigger] self@[i] == old(self)@[i],
            decreases 33 - z,
        {
            if (z as u64) < zoom_level_min {
                let b = TileBBox::new_empty(z as u8);
                self.level_bbox.set(z, b);
            }
            z = z + 1;
        }
    }

    /// Empties every level above the given zoom.
    pub fn set_zoom_max(&mut self, zoom_level_max: u64)
        requires
            old(self).wf(),
        ensures
            final(self).wf(),
            forall|i: int|
                0 <= i < pyramid_levels() ==> #[trigger] final(self)@[i] == if i
                    > zoom_level_max {
                    TileBBox::spec_empty(i as u8)
                } else {
                    old(self)@[i]
                },
    {
        let mut z: usize = 0;
        while z < 33
            invariant
                old(self).wf(),
                z <= 33,
                self@.len() == 33,
                forall|i: int|
                    0 <= i < z ==> #[trigger] self@[i] == if i > zoom_level_max {
                        TileBBox::spec_empty(i as u8)
                    } else {
                        old(self)@[i]
                    },
                forall|i: int| z <= i < 33 ==> #[trigger] self@[i] == old(self)@[i],
            decreases 33 - z,
        {
            if (z as u64) > zoom_level_max {
                let b = TileBBox::new_empty(z as u8);
                self.level_bbox.set(z, b);
            }
            z = z + 1;
        }
    }

    /// Shrinks each level to its intersection with the other pyramid's level.
    pub fn intersect(&mut self, other: &TileBBoxPyramide)
        requires
            old(self).wf(),
            other.wf(),
        ensures
            final(self).wf(),
            forall|i: int|
                0 <= i < pyramid_levels() ==> #[trigger] final(self)@[i] == old(
                    self,
                )@[i].spec_intersect(other@[i]),
    {
        let mut z: usize = 0;
        while z < 33
            invariant
                old(self).wf(),
                other.wf(),
                z <= 33,
                self@.len() == 33,
                forall|i: int|
                    0 <= i < z ==> #[trigger] self@[i] == old(self)@[i].spec_intersect(other@[i]),
                forall|i: int| z <= i < 33 ==> #[trigger] self@[i] == old(self)@[i],
            decreases 33 - z,
        {
            let o = other.level_bbox[z];
            let mut b = self.level_bbox[z];
            b.intersect(&o);
            self.level_bbox.set(z, b);
            z = z + 1;
        }
    }

    /// The bounding box of one zoom level.
    pub fn get_level_bbox(&self, level: u64) -> (r: &TileBBox)
        requires
            self.wf(),
            level < 33,
        ensures
            *r == self@[level as int],
    {
        &self.level_bbox[level as usize]
    }

    /// Overwrites the bounding box of one zoom level.
    pub fn set_level_bbox(&mut self, level: u64, bbox: &TileBBox)
        requires
            old(self).wf(),
            level < 33,
            bbox.wf(),
            bbox.level == level,
        ensures
            final(self).wf(),
            final(self)@ == old(self)@.update(level as int, *bbox),
    {
        let mut b = TileBBox::new_empty(level as u8);
        b.set(bbox);
        self.level_bbox.set(level as usize, b);
    }

    /// Grows one level's box to cover one more tile.
    pub fn include_tile(&mut self, level: u64, col: u64, row: u64)
        requires
            old(self).wf(),
            level < 33,
            (col as nat) < pow2(level as nat),
            (row as nat) < pow2(level as nat),
        ensures
            final(self).wf(),
            final(self)@ == old(self)@.update(
                level as int,
                old(self)@[level as int].spec_include(col as int, row as int),
            ),
    {
        proof {
            crate::types::coord::lemma_pow2_monotone(level as nat, 32);
            crate::types::coord::lemma_pow2_32();
        }
        let mut b = self.level_bbox[level as usize];
        b.include_tile(col as u32, row as u32);
        self.level_bbox.set(level as usize, b);
    }

    /// Grows the pyramid to cover one more coordinate.
    pub fn include_coord(&mut self, c: &TileCoord3)
        requires
            old(self).wf(),
            c.is_valid(),
        ensures
            final(self).wf(),
            final(self)@ == old(self)@.update(
                c.z as int,
                old(self)@[c.z as int].spec_include(c.x as int, c.y as int),
            ),
    {
        self.include_tile(c.z as u64, c.x as u64, c.y as u64)
    }

    /// Grows each level to the hull of both pyramids' levels.
    pub fn include_bbox_pyramid(&mut self, other: &TileBBoxPyramide)
        requires
            old(self).wf(),
            other.wf(),
        ensures
            final(self).wf(),
            forall|i: int|
                0 <= i < pyramid_levels() ==> #[trigger] final(self)@[i] == old(
                    self,
                )@[i].spec_hull(other@[i]),
    {
        let mut z: usize = 0;
        while z < 33
            invariant
                old(self).wf(),
                other.wf(),
                z <= 33,
                self@.len() == 33,
                forall|i: int|
                    0 <= i < z ==> #[trigger] self@[i] == old(self)@[i].spec_hull(other@[i]),
                forall|i: int| z <= i < 33 ==> #[trigger] self@[i] == old(self)@[i],
            decreases 33 - z,
        {
            let o = other.level_bbox[z];
            let mut b = self.level_bbox[z];
            b.include_bbox(&o);
            self.level_bbox.set(z, b);
            z = z + 1;
        }
    }

    /// A copy of the pyramid.
    pub fn duplicate(&self) -> (r: TileBBoxPyramide)
        ensures
            r@ == self@,
    {
        let mut level_bbox: Vec<TileBBox> = Vec::new();
        let mut i: usize = 0;
        while i < self.level_bbox.len()
            invariant
                i <= self.level_bbox@.len(),
                level_bbox@ == self.level_bbox@.subrange(0, i as int),
            decreases self.level_bbox@.len() - i,
        {
            level_bbox.push(self.level_bbox[i]);
            i = i + 1;
        }
        proof {
            assert(self.level_bbox@.subrange(0, self.level_bbox@.len() as int)
                =~= self.level_bbox@);
        }
        TileBBoxPyramide { level_bbox }
    }

    /// The per-level boxes, ascending by zoom level.
    pub fn iter(&self) -> (r: &Vec<TileBBox>)
        ensures
            r@ == self@,
    {
        &self.level_bbox
    }

    /// Every covered coordinate, ascending by zoom level, row-major within a
    /// level.
    pub fn iter_tile_indexes(&self) -> (r: Vec<TileCoord3>)
        requires
            self.wf(),
        ensures
            r@ == pyramid_coords_prefix(self@, pyramid_levels()),
    {
        let mut r: Vec<TileCoord3> = Vec::new();
        let mut z: usize = 0;
        while z < 33
            invariant
                self.wf(),
                z <= 33,
                r@ == pyramid_coords_prefix(self@, z as int),
            decreases 33 - z,
        {
            let mut cs = self.level_bbox[z].coords();
            proof {
                assert(cs@ =~= bbox_coords_seq(self@[z as int]));
            }
            r.append(&mut cs);
            z = z + 1;
        }
        r
    }

    /// Number of tiles covered over all levels.
    pub fn count_tiles(&self) -> (r: u128)
        requires
            self.wf(),
        ensures
            r == pyramid_count_prefix(self@, pyramid_levels()),
    {
        let mut r: u128 = 0;
        let mut z: usize = 0;
        while z < 33
            invariant
                self.wf(),
                z <= 33,
                r == pyramid_count_prefix(self@, z as int),
                r <= (z as int) * 0x1_0000_0000_0000_0000int,
            decreases 33 - z,
        {
            proof {
                lemma_bbox_count_bound(self@[z as int]);
                assert((z as int) * 0x1_0000_0000_0000_0000int + 0x1_0000_0000_0000_0000int == ((
                z + 1) as int) * 0x1_0000_0000_0000_0000int) by (nonlinear_arith);
                assert(((z + 1) as int) * 0x1_0000_0000_0000_0000int <= 33
                    * 0x1_0000_0000_0000_0000int) by (nonlinear_arith)
                    requires
                        z + 1 <= 33,
                ;
            }
            r = r + self.level_bbox[z].count_tiles();
            z = z + 1;
        }
        r
    }

    /// The lowest and highest non-empty zoom level, or `(0, 0)` when every
    /// level is empty.
    pub fn get_zoom_range(&self) -> (r: (u64, u64))
        requires
            self.wf(),
        ensures
            (forall|i: int| 0 <= i < pyramid_levels() ==> (#[trigger] self@[i]).spec_is_empty())
                ==> r == (0u64, 0u64),
            (exists|i: int| 0 <= i < pyramid_levels() && !(#[trigger] self@[i]).spec_is_empty())
                ==> {
                &&& 0 <= r.0 <= r.1 < pyramid_levels()
                &&& !self@[r.0 as int].spec_is_empty()
                &&& !self@[r.1 as int].spec_is_empty()
                &&& forall|i: int| 0 <= i < r.0 ==> (#[trigger] self@[i]).spec_is_empty()
                &&& forall|i: int|
                    r.1 < i < pyramid_levels() ==> (#[trigger] self@[i]).spec_is_empty()
            },
    {
        let mut start: u64 = 0;
        let mut end: u64 = 0;
        let mut found = false;
        let mut z: usize = 0;
        while z < 33
            invariant
                self.wf(),
                z <= 33,
                !found ==> forall|i: int| 0 <= i < z ==> (#[trigger] self@[i]).spec_is_empty(),
                !found ==> start == 0 && end == 0,
                found ==> {
                    &&& 0 <= start <= end < z
                    &&& !self@[start as int].spec_is_empty()
                    &&& !self@[end as int].spec_is_empty()
                    &&& forall|i: int| 0 <= i < start ==> (#[trigger] self@[i]).spec_is_empty()
                    &&& forall|i: int| end < i < z ==> (#[trigger] self@[i]).spec_is_empty()
                },
            decreases 33 - z,
        {
            if !self.level_bbox[z].is_empty() {
                if !found {
                    start = z as u64;
                    found = true;
                }
                end = z as u64;
            }
            z = z + 1;
        }
        (start, end)
    }
}

} // verus!
