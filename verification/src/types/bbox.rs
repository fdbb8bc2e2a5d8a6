//! Inclusive tile rectangles at a fixed zoom level, with hull, intersection,
//! row-major enumeration and grid partitioning.

use vstd::prelude::*;

use crate::types::coord::pow2;
use crate::types::coord::pow2_u64;
use crate::types::coord::TileCoord3;

verus! {

/// An inclusive rectangle `[x_min..x_max] x [y_min..y_max]` of tiles at one
/// zoom level, or the empty set (canonically `x_min=1, x_max=0`).
#[derive(Clone, Copy, Debug, PartialEq, Eq, Hash, Structural)]
pub struct TileBBox {
    pub level: u8,
    pub x_min: u32,
    pub y_min: u32,
    pub x_max: u32,
    pub y_max: u32,
}

impl TileBBox {
    /// A box is empty exactly when one of its ranges is empty.
    pub open spec fn spec_is_empty(self) -> bool {
        self.x_max < self.x_min || self.y_max < self.y_min
    }

    /// Well-formed boxes sit inside their level's grid; the empty box has one
    /// canonical shape, so box equality is equality of the covered tile set.
    pub open spec fn wf(self) -> bool {
        &&& self.level <= 32
        &&& if self.spec_is_empty() {
            self.x_min == 1 && self.x_max == 0 && self.y_min == 1 && self.y_max == 0
        } else {
            (self.x_max as nat) < pow2(self.level as nat) && (self.y_max as nat) < pow2(
                self.level as nat,
            )
        }
    }

    /// Which positions the box covers.
    pub open spec fn spec_contains_xy(self, x: int, y: int) -> bool {
        !self.spec_is_empty() && self.x_min <= x <= self.x_max && self.y_min <= y <= self.y_max
    }

    /// Which coordinates the box covers.
    pub open spec fn spec_contains(self, c: TileCoord3) -> bool {
        c.z == self.level && self.spec_contains_xy(c.x as int, c.y as int)
    }

    pub open spec fn spec_width(self) -> nat {
        if self.spec_is_empty() {
            0
        } else {
            (self.x_max - self.x_min + 1) as nat
        }
    }

    pub open spec fn spec_height(self) -> nat {
        if self.spec_is_empty() {
            0
        } else {
            (self.y_max - self.y_min + 1) as nat
        }
    }

    /// Number of tiles covered.
    pub open spec fn spec_count(self) -> nat {
        self.spec_width() * self.spec_height()
    }

    /// The dense row-major index of a covered coordinate.
    pub open spec fn spec_tile_index(self, c: TileCoord3) -> int {
        (c.y - self.y_min) * self.spec_width() + (c.x - self.x_min)
    }

    /// The coordinate at a dense row-major index.
    pub open spec fn spec_coord_at(self, i: int) -> TileCoord3 {
        TileCoord3 {
            x: (self.x_min + i % (self.spec_width() as int)) as u32,
            y: (self.y_min + i / (self.spec_width() as int)) as u32,
            z: self.level,
        }
    }

    /// The canonical empty box of a level.
    pub open spec fn spec_empty(level: u8) -> TileBBox {
        TileBBox { level, x_min: 1, y_min: 1, x_max: 0, y_max: 0 }
    }

    /// The box grown to cover one more tile.
    pub open spec fn spec_include(self, x: int, y: int) -> TileBBox {
        if self.spec_is_empty() {
            TileBBox { level: self.level, x_min: x as u32, y_min: y as u32, x_max: x as u32, y_max: y as u32 }
        } else {
            TileBBox {
                level: self.level,
                x_min: if x < self.x_min { x as u32 } else { self.x_min },
                y_min: if y < self.y_min { y as u32 } else { self.y_min },
                x_max: if x > self.x_max { x as u32 } else { self.x_max },
                y_max: if y > self.y_max { y as u32 } else { self.y_max },
            }
        }
    }

    /// The hull of two boxes of one level.
    pub open spec fn spec_hull(self, o: TileBBox) -> TileBBox {
        if o.spec_is_empty() {
            self
        } else if self.spec_is_empty() {
            o
        } else {
            TileBBox {
                level: self.level,
                x_min: if self.x_min <= o.x_min { self.x_min } else { o.x_min },
                y_min: if self.y_min <= o.y_min { self.y_min } else { o.y_min },
                x_max: if self.x_max >= o.x_max { self.x_max } else { o.x_max },
                y_max: if self.y_max >= o.y_max { self.y_max } else { o.y_max },
            }
        }
    }

    /// Intersection of two boxes of one level, canonicalized when empty.
    pub open spec fn spec_intersect(self, o: TileBBox) -> TileBBox {
        let x_min = if self.x_min >= o.x_min {
            self.x_min
        } else {
            o.x_min
        };
        let y_min = if self.y_min >= o.y_min {
            self.y_min
        } else {
            o.y_min
        };
        let x_max = if self.x_max <= o.x_max {
            self.x_max
        } else {
            o.x_max
        };
        let y_max = if self.y_max <= o.y_max {
            self.y_max
        } else {
            o.y_max
        };
        let r = TileBBox { level: self.level, x_min, y_min, x_max, y_max };
        if r.spec_is_empty() {
            TileBBox::spec_empty(self.level)
        } else {
            r
        }
    }

    /// Builds a box, rejecting bounds outside the level's grid or in the
    /// wrong order.
    pub fn new(level: u8, x_min: u32, y_min: u32, x_max: u32, y_max: u32) -> (r: Result<
        TileBBox,
        BBoxError,
    >)
        ensures
            r matches Ok(b) ==> b == (TileBBox { level, x_min, y_min, x_max, y_max }) && b.wf()
                && !b.spec_is_empty(),
            r matches Err(_) ==> !(level <= 32 && x_min <= x_max && y_min <= y_max && (
            TileBBox { level, x_min, y_min, x_max, y_max }).wf()),
    {
        if level > 32 {
            return Err(BBoxError::LevelOutOfRange);
        }
        if x_min > x_max || y_min > y_max {
            return Err(BBoxError::EmptyBounds);
        }
        if level < 32 {
            let limit = pow2_u64(level);
            if x_max as u64 >= limit || y_max as u64 >= limit {
                return Err(BBoxError::PositionOutOfRange);
            }
        } else {
            proof {
                crate::types::coord::lemma_pow2_32();
            }
        }
        Ok(TileBBox { level, x_min, y_min, x_max, y_max })
    }

    /// The box covering a whole zoom level.
    pub fn new_full(level: u8) -> (r: TileBBox)
        requires
            level <= 32,
        ensures
            r.level == level,
            r.wf(),
            forall|x: int, y: int|
                r.spec_contains_xy(x, y) <==> (0 <= x < pow2(level as nat) && 0 <= y < pow2(
                    level as nat,
                )),
    {
        proof {
            crate::types::coord::lemma_pow2_32();
        }
        let limit_minus_1: u32 = if level == 32 {
            0xffff_ffff
        } else {
            proof {
                crate::types::coord::lemma_pow2_monotone(0, level as nat);
                crate::types::coord::lemma_pow2_monotone(level as nat, 31);
                assert(pow2(31) == 0x8000_0000) by {
                    reveal_with_fuel(pow2, 32);
                }
            }
            (pow2_u64(level) - 1) as u32
        };
        TileBBox { level, x_min: 0, y_min: 0, x_max: limit_minus_1, y_max: limit_minus_1 }
    }

    /// The empty box of a zoom level.
    pub fn new_empty(level: u8) -> (r: TileBBox)
        requires
            level <= 32,
        ensures
            r == TileBBox::spec_empty(level),
            r.wf(),
            r.spec_is_empty(),
    {
        TileBBox { level, x_min: 1, y_min: 1, x_max: 0, y_max: 0 }
    }

    /// Empties the box in place.
    pub fn set_empty(&mut self)
        ensures
            *final(self) == TileBBox::spec_empty(old(self).level),
    {
        self.x_min = 1;
        self.y_min = 1;
        self.x_max = 0;
        self.y_max = 0;
    }

    /// Overwrites the box with another one.
    pub fn set(&mut self, o: &TileBBox)
        ensures
            *final(self) == *o,
    {
        self.level = o.level;
        self.x_min = o.x_min;
        self.y_min = o.y_min;
        self.x_max = o.x_max;
        self.y_max = o.y_max;
    }

    pub fn is_empty(&self) -> (r: bool)
        ensures
            r == self.spec_is_empty(),
    {
        self.x_max < self.x_min || self.y_max < self.y_min
    }

    pub fn width(&self) -> (r: u64)
        ensures
            r == self.spec_width(),
    {
        if self.x_max < self.x_min || self.y_max < self.y_min {
            0
        } else {
            self.x_max as u64 - self.x_min as u64 + 1
        }
    }

    pub fn height(&self) -> (r: u64)
        ensures
            r == self.spec_height(),
    {
        if self.x_max < self.x_min || self.y_max < self.y_min {
            0
        } else {
            self.y_max as u64 - self.y_min as u64 + 1
        }
    }

    /// Number of tiles covered.
    pub fn count_tiles(&self) -> (r: u128)
        ensures
            r == self.spec_count(),
    {
        let w = self.width();
        let h = self.height();
        proof {
            assert((w as int) * (h as int) <= 0x1_0000_0000_0000_0000_0000int) by (nonlinear_arith)
                requires
                    w <= 0x1_0000_0000,
                    h <= 0x1_0000_0000,
            ;
        }
        (w as u128) * (h as u128)
    }

    /// Whether the box covers a coordinate.
    pub fn contains(&self, c: &TileCoord3) -> (r: bool)
        ensures
            r == self.spec_contains(*c),
    {
        c.z == self.level && !(self.x_max < self.x_min || self.y_max < self.y_min) && self.x_min
            <= c.x && c.x <= self.x_max && self.y_min <= c.y && c.y <= self.y_max
    }

    /// Grows the box to cover one more tile.
    pub fn include_tile(&mut self, x: u32, y: u32)
        requires
            old(self).wf(),
            (x as nat) < pow2(old(self).level as nat),
            (y as nat) < pow2(old(self).level as nat),
        ensures
            *final(self) == old(self).spec_include(x as int, y as int),
            final(self).level == old(self).level,
            final(self).wf(),
            !final(self).spec_is_empty(),
            final(self).x_min == if old(self).spec_is_empty() || x < old(self).x_min {
                x
            } else {
                old(self).x_min
            },
            final(self).x_max == if old(self).spec_is_empty() || x > old(self).x_max {
                x
            } else {
                old(self).x_max
            },
            final(self).y_min == if old(self).spec_is_empty() || y < old(self).y_min {
                y
            } else {
                old(self).y_min
            },
            final(self).y_max == if old(self).spec_is_empty() || y > old(self).y_max {
                y
            } else {
                old(self).y_max
            },
            forall|a: int, b: int|
                final(self).spec_contains_xy(a, b) <== old(self).spec_contains_xy(a, b),
            final(self).spec_contains_xy(x as int, y as int),
    {
        if self.x_max < self.x_min || self.y_max < self.y_min {
            self.x_min = x;
            self.x_max = x;
            self.y_min = y;
            self.y_max = y;
        } else {
            if x < self.x_min {
                self.x_min = x;
            }
            if x > self.x_max {
                self.x_max = x;
            }
            if y < self.y_min {
                self.y_min = y;
            }
            if y > self.y_max {
                self.y_max = y;
            }
        }
    }

    /// Grows the box to the hull of itself and another box of the same level.
    pub fn include_bbox(&mut self, o: &TileBBox)
        requires
            old(self).wf(),
            o.wf(),
            o.level == old(self).level,
        ensures
            *final(self) == old(self).spec_hull(*o),
            final(self).level == old(self).level,
            final(self).wf(),
            final(self).spec_is_empty() <==> (old(self).spec_is_empty() && o.spec_is_empty()),
            forall|a: int, b: int|
                old(self).spec_contains_xy(a, b) || o.spec_contains_xy(a, b)
                    ==> final(self).spec_contains_xy(a, b),
            !old(self).spec_is_empty() && !o.spec_is_empty() ==> *final(self) == (TileBBox {
                level: old(self).level,
                x_min: if old(self).x_min <= o.x_min {
                    old(self).x_min
                } else {
                    o.x_min
                },
                y_min: if old(self).y_min <= o.y_min {
                    old(self).y_min
                } else {
                    o.y_min
                },
                x_max: if old(self).x_max >= o.x_max {
                    old(self).x_max
                } else {
                    o.x_max
                },
                y_max: if old(self).y_max >= o.y_max {
                    old(self).y_max
                } else {
                    o.y_max
                },
            }),
            old(self).spec_is_empty() ==> *final(self) == if o.spec_is_empty() {
                *old(self)
            } else {
                *o
            },
            o.spec_is_empty() ==> *final(self) == *old(self),
    {
        if o.x_max < o.x_min || o.y_max < o.y_min {
            return ;
        }
        if self.x_max < self.x_min || self.y_max < self.y_min {
            self.x_min = o.x_min;
            self.y_min = o.y_min;
            self.x_max = o.x_max;
            self.y_max = o.y_max;
            return ;
        }
        if o.x_min < self.x_min {
            self.x_min = o.x_min;
        }
        if o.x_max > self.x_max {
            self.x_max = o.x_max;
        }
        if o.y_min < self.y_min {
            self.y_min = o.y_min;
        }
        if o.y_max > self.y_max {
            self.y_max = o.y_max;
        }
    }

    /// Shrinks the box to its intersection with another box of the same level.
    pub fn intersect(&mut self, o: &TileBBox)
        requires
            old(self).wf(),
            o.wf(),
            o.level == old(self).level,
        ensures
            *final(self) == old(self).spec_intersect(*o),
            final(self).wf(),
            forall|a: int, b: int|
                final(self).spec_contains_xy(a, b) <==> (old(self).spec_contains_xy(a, b)
                    && o.spec_contains_xy(a, b)),
    {
        if o.x_min > self.x_min {
            self.x_min = o.x_min;
        }
        if o.y_min > self.y_min {
            self.y_min = o.y_min;
        }
        if o.x_max < self.x_max {
            self.x_max = o.x_max;
        }
        if o.y_max < self.y_max {
            self.y_max = o.y_max;
        }
        if self.x_max < self.x_min || self.y_max < self.y_min {
            self.set_empty();
        }
    }

    /// The dense row-major index of a covered coordinate; the inverse of
    /// walking `coords()`.
    pub fn get_tile_index3(&self, c: &TileCoord3) -> (r: u64)
        requires
            self.wf(),
            self.spec_contains(*c),
        ensures
            r == self.spec_tile_index(*c),
            r < self.spec_count(),
    {
        let w = self.width();
        let dy = (c.y - self.y_min) as u64;
        let dx = (c.x - self.x_min) as u64;
        proof {
            let wi = w as int;
            let hi = self.spec_height() as int;
            assert((dy as int) * wi + (dx as int) < wi * hi && wi * hi
                <= 0x1_0000_0000_0000_0000int) by (nonlinear_arith)
                requires
                    0 <= (dx as int) < wi <= 0x1_0000_0000,
                    0 <= (dy as int) < hi <= 0x1_0000_0000,
            ;
            assert(wi * hi == self.spec_count());
        }
        dy * w + dx
    }
}

impl TileBBox {
    /// One sub-box of the grid partition: column `i`, row `j`, chunk side `n`.
    pub open spec fn spec_grid_chunk(self, n: nat, i: int, j: int) -> TileBBox {
        let x_lo = self.x_min + i * n;
        let y_lo = self.y_min + j * n;
        TileBBox {
            level: self.level,
            x_min: x_lo as u32,
            y_min: y_lo as u32,
            x_max: if x_lo + n - 1 <= self.x_max {
                (x_lo + n - 1) as u32
            } else {
                self.x_max
            },
            y_max: if y_lo + n - 1 <= self.y_max {
                (y_lo + n - 1) as u32
            } else {
                self.y_max
            },
        }
    }

    /// Number of grid columns when partitioning with chunk side `n`.
    pub open spec fn spec_grid_cols(self, n: nat) -> int {
        (self.spec_width() + n - 1) / (n as int)
    }

    /// Number of grid rows when partitioning with chunk side `n`.
    pub open spec fn spec_grid_rows(self, n: nat) -> int {
        (self.spec_height() + n - 1) / (n as int)
    }

    /// All covered coordinates in row-major order.
    pub fn coords(&self) -> (r: Vec<TileCoord3>)
        requires
            self.wf(),
        ensures
            r@.len() == self.spec_count(),
            forall|i: int| 0 <= i < r@.len() ==> r@[i] == self.spec_coord_at(i),
            forall|i: int| 0 <= i < r@.len() ==> self.spec_contains(#[trigger] r@[i]),
    {
        let mut r: Vec<TileCoord3> = Vec::new();
        if self.x_max < self.x_min || self.y_max < self.y_min {
            return r;
        }
        let w = self.width();
        let ghost wi = w as int;
        let mut y: u64 = self.y_min as u64;
        while y <= self.y_max as u64
            invariant
                self.wf(),
                !self.spec_is_empty(),
                w == self.spec_width(),
                wi == w as int,
                self.y_min <= y <= self.y_max as u64 + 1,
                r@.len() == (y - self.y_min) * wi,
                forall|i: int| 0 <= i < r@.len() ==> r@[i] == self.spec_coord_at(i),
                forall|i: int| 0 <= i < r@.len() ==> self.spec_contains(#[trigger] r@[i]),
            decreases self.y_max as u64 + 1 - y,
        {
            let mut x: u64 = self.x_min as u64;
            while x <= self.x_max as u64
                invariant
                    self.wf(),
                    !self.spec_is_empty(),
                    w == self.spec_width(),
                    wi == w as int,
                    self.y_min <= y <= self.y_max as u64,
                    self.x_min <= x <= self.x_max as u64 + 1,
                    r@.len() == (y - self.y_min) * wi + (x - self.x_min),
                    forall|i: int| 0 <= i < r@.len() ==> r@[i] == self.spec_coord_at(i),
                    forall|i: int| 0 <= i < r@.len() ==> self.spec_contains(#[trigger] r@[i]),
                decreases self.x_max as u64 + 1 - x,
            {
                let c = TileCoord3 { x: x as u32, y: y as u32, z: self.level };
                proof {
                    let len = r@.len() as int;
                    let dy = y - self.y_min;
                    let dx = x - self.x_min;
                    vstd::arithmetic::div_mod::lemma_fundamental_div_mod_converse(
                        len,
                        wi,
                        dy as int,
                        dx as int,
                    );
                    assert(self.spec_coord_at(len) == c);
                }
                r.push(c);
                x = x + 1;
            }
            proof {
                let dy = y - self.y_min;
                assert(dy * wi + wi == (dy + 1) * wi) by (nonlinear_arith);
            }
            y = y + 1;
        }
        proof {
            let h = self.spec_height() as int;
            assert(h * wi == self.spec_count()) by (nonlinear_arith)
                requires
                    h == self.spec_height(),
                    wi == self.spec_width(),
                    self.spec_count() == self.spec_width() * self.spec_height(),
            ;
        }
        r
    }

    /// Partitions a box into sub-boxes of at most `n` by `n` tiles, row-major
    /// over the grid of chunks. The empty box has no chunks.
    pub fn iter_bbox_grid(&self, n: u32) -> (r: Vec<TileBBox>)
        requires
            self.wf(),
            n >= 1,
            self.spec_grid_cols(n as nat) * self.spec_grid_rows(n as nat) <= usize::MAX,
        ensures
            self.spec_is_empty() ==> r@.len() == 0,
            !self.spec_is_empty() ==> {
                &&& r@.len() == self.spec_grid_cols(n as nat) * self.spec_grid_rows(n as nat)
                &&& forall|k: int|
                    0 <= k < r@.len() ==> r@[k] == self.spec_grid_chunk(
                        n as nat,
                        k % self.spec_grid_cols(n as nat),
                        k / self.spec_grid_cols(n as nat),
                    )
            },
            forall|k: int|
                0 <= k < r@.len() ==> (#[trigger] r@[k]).wf() && !r@[k].spec_is_empty()
                    && r@[k].level == self.level,
            forall|k: int, a: int, b: int|
                0 <= k < r@.len() && #[trigger] r@[k].spec_contains_xy(a, b)
                    ==> self.spec_contains_xy(a, b),
    {
        let mut r: Vec<TileBBox> = Vec::new();
        if self.x_max < self.x_min || self.y_max < self.y_min {
            return r;
        }
        let w = self.width();
        let h = self.height();
        let nn = n as u64;
        let cols = (w + nn - 1) / nn;
        let rows = (h + nn - 1) / nn;
        let ghost colsi = cols as int;
        proof {
            vstd::arithmetic::div_mod::lemma_div_by_self(nn as int);
            vstd::arithmetic::div_mod::lemma_div_is_ordered(nn as int, w + nn - 1, nn as int);
            vstd::arithmetic::div_mod::lemma_div_is_ordered(nn as int, h + nn - 1, nn as int);
        }
        let mut j: u64 = 0;
        while j < rows
            invariant
                self.wf(),
                !self.spec_is_empty(),
                n >= 1,
                nn == n as u64,
                w == self.spec_width(),
                h == self.spec_height(),
                cols == self.spec_grid_cols(n as nat),
                rows == self.spec_grid_rows(n as nat),
                colsi == cols as int,
                cols >= 1,
                0 <= j <= rows,
                r@.len() == j * colsi,
                r@.len() <= usize::MAX,
                colsi * (rows as int) <= usize::MAX,
                forall|k: int|
                    0 <= k < r@.len() ==> r@[k] == self.spec_grid_chunk(
                        n as nat,
                        k % colsi,
                        k / colsi,
                    ),
                forall|k: int|
                    0 <= k < r@.len() ==> (#[trigger] r@[k]).wf() && !r@[k].spec_is_empty()
                        && r@[k].level == self.level,
                forall|k: int, a: int, b: int|
                    0 <= k < r@.len() && #[trigger] r@[k].spec_contains_xy(a, b)
                        ==> self.spec_contains_xy(a, b),
            decreases rows - j,
        {
            let mut i: u64 = 0;
            while i < cols
                invariant
                    self.wf(),
                    !self.spec_is_empty(),
                    n >= 1,
                    nn == n as u64,
                    w == self.spec_width(),
                    h == self.spec_height(),
                    cols == self.spec_grid_cols(n as nat),
                    rows == self.spec_grid_rows(n as nat),
                    colsi == cols as int,
                    cols >= 1,
                    0 <= j < rows,
                    0 <= i <= cols,
                    r@.len() == j * colsi + i,
                    colsi * (rows as int) <= usize::MAX,
                    r@.len() <= usize::MAX,
                    forall|k: int|
                        0 <= k < r@.len() ==> r@[k] == self.spec_grid_chunk(
                            n as nat,
                            k % colsi,
                            k / colsi,
                        ),
                    forall|k: int|
                        0 <= k < r@.len() ==> (#[trigger] r@[k]).wf() && !r@[k].spec_is_empty()
                            && r@[k].level == self.level,
                    forall|k: int, a: int, b: int|
                        0 <= k < r@.len() && #[trigger] r@[k].spec_contains_xy(a, b)
                            ==> self.spec_contains_xy(a, b),
                decreases cols - i,
            {
                proof {
                    assert(i * nn <= (cols - 1) * nn && j * nn <= (rows - 1) * nn && (cols - 1) * nn
                        < w && (rows - 1) * nn < h && j * colsi + i < colsi * (rows as int))
                        by (nonlinear_arith)
                        requires
                            0 <= i < cols,
                            0 <= j < rows,
                            nn >= 1,
                            cols == (w + nn - 1) / (nn as int),
                            rows == (h + nn - 1) / (nn as int),
                            colsi == cols as int,
                            w >= 1,
                            h >= 1,
                    ;
                }
                let x_lo = self.x_min as u64 + i * nn;
                let y_lo = self.y_min as u64 + j * nn;
                let x_hi = if x_lo + (nn - 1) <= self.x_max as u64 {
                    x_lo + (nn - 1)
                } else {
                    self.x_max as u64
                };
                let y_hi = if y_lo + (nn - 1) <= self.y_max as u64 {
                    y_lo + (nn - 1)
                } else {
                    self.y_max as u64
                };
                let chunk = TileBBox {
                    level: self.level,
                    x_min: x_lo as u32,
                    y_min: y_lo as u32,
                    x_max: x_hi as u32,
                    y_max: y_hi as u32,
                };
                proof {
                    let len = r@.len() as int;
                    vstd::arithmetic::div_mod::lemma_fundamental_div_mod_converse(
                        len,
                        colsi,
                        j as int,
                        i as int,
                    );
                    assert(chunk == self.spec_grid_chunk(n as nat, i as int, j as int));
                }
                r.push(chunk);
                i = i + 1;
            }
            proof {
                let ji = j as int;
                assert(ji * colsi + colsi == (ji + 1) * colsi) by (nonlinear_arith);
            }
            j = j + 1;
        }
        proof {
            assert((rows as int) * colsi == colsi * (rows as int)) by (nonlinear_arith);
        }
        r
    }
}

/// The row-major enumeration and the dense index are inverse: the coordinate
/// listed at a covered coordinate's index is that coordinate itself.
pub proof fn lemma_coord_round_trip(b: TileBBox, c: TileCoord3)
    requires
        b.wf(),
        b.spec_contains(c),
    ensures
        0 <= b.spec_tile_index(c) < b.spec_count(),
        b.spec_coord_at(b.spec_tile_index(c)) == c,
{
    let w = b.spec_width() as int;
    let h = b.spec_height() as int;
    let dx = c.x - b.x_min;
    let dy = c.y - b.y_min;
    assert(dy * w + dx < w * h) by (nonlinear_arith)
        requires
            0 <= dx < w,
            0 <= dy < h,
    ;
    vstd::arithmetic::div_mod::lemma_fundamental_div_mod_converse(dy * w + dx, w, dy, dx);
}

/// Why a bounding box was rejected.
#[derive(Clone, Copy, Debug, PartialEq, Eq, Structural)]
pub enum BBoxError {
    LevelOutOfRange,
    EmptyBounds,
    PositionOutOfRange,
}

/// Intersecting a well-formed box with itself gives the box back.
pub proof fn lemma_intersect_idempotent(a: TileBBox)
    requires
        a.wf(),
    ensures
        a.spec_intersect(a) == a,
{
}

} // verus!
