//! Tile coordinates in the Web Mercator tiling scheme.

use vstd::prelude::*;

verus! {

/// `2^e`, the number of tiles along one axis of zoom level `e`.
pub open spec fn pow2(e: nat) -> nat
    decreases e,
{
    if e == 0 {
        1
    } else {
        2 * pow2((e - 1) as nat)
    }
}

pub proof fn lemma_pow2_monotone(a: nat, b: nat)
    requires
        a <= b,
    ensures
        pow2(a) <= pow2(b),
    decreases b,
{
    if a < b {
        lemma_pow2_monotone(a, (b - 1) as nat);
    }
}

pub proof fn lemma_pow2_32()
    ensures
        pow2(32) == 0x1_0000_0000,
{
    assert(pow2(32) == 0x1_0000_0000) by {
        reveal_with_fuel(pow2, 33);
    }
}

/// Computes `2^e` for a zoom level.
pub fn pow2_u64(e: u8) -> (r: u64)
    requires
        e <= 32,
    ensures
        r == pow2(e as nat),
{
    proof {
        lemma_pow2_32();
    }
    let mut r: u64 = 1;
    let mut i: u8 = 0;
    while i < e
        invariant
            i <= e <= 32,
            r == pow2(i as nat),
        decreases e - i,
    {
        proof {
            lemma_pow2_monotone((i + 1) as nat, 32);
            lemma_pow2_32();
        }
        r = r * 2;
        i = i + 1;
    }
    r
}

/// A tile address `(x, y)` at zoom level `z`, with `x, y < 2^z`.
#[derive(Clone, Copy, Debug, PartialEq, Eq, Hash, Structural)]
pub struct TileCoord3 {
    pub x: u32,
    pub y: u32,
    pub z: u8,
}

impl TileCoord3 {
    /// A coordinate is valid when its zoom level is in range and both axes
    /// fall inside the level's grid.
    pub open spec fn is_valid(self) -> bool {
        self.z <= 32 && (self.x as nat) < pow2(self.z as nat) && (self.y as nat) < pow2(
            self.z as nat,
        )
    }

    /// Builds a coordinate, rejecting addresses outside the zoom level's grid.
    pub fn new(x: u32, y: u32, z: u8) -> (r: Result<TileCoord3, CoordError>)
        ensures
            r matches Ok(c) ==> c == (TileCoord3 { x, y, z }) && c.is_valid(),
            r matches Err(_) ==> !(TileCoord3 { x, y, z }).is_valid(),
    {
        if z > 32 {
            return Err(CoordError::ZoomOutOfRange);
        }
        if z < 32 {
            let limit = pow2_u64(z);
            if x as u64 >= limit || y as u64 >= limit {
                return Err(CoordError::PositionOutOfRange);
            }
        } else {
            proof {
                lemma_pow2_32();
            }
        }
        Ok(TileCoord3 { x, y, z })
    }
}

/// Why a tile coordinate was rejected.
#[derive(Clone, Copy, Debug, PartialEq, Eq, Structural)]
pub enum CoordError {
    ZoomOutOfRange,
    PositionOutOfRange,
}

} // verus!
