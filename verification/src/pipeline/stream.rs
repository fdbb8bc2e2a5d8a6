//! A finite, ordered sequence of addressed tiles, pulled from a source
//! bounded by one bounding box.

use vstd::prelude::*;

use crate::types::blob::Blob;
use crate::types::coord::TileCoord3;

verus! {

/// The mathematical shape of a stream: coordinates with their payloads, in
/// emission order.
pub type TileStreamV = Seq<(TileCoord3, Seq<u8>)>;

/// The view of raw stream items.
pub open spec fn items_view(v: Seq<(TileCoord3, Blob)>) -> TileStreamV {
    Seq::new(v.len(), |i: int| (v[i].0, v[i].1@))
}

/// An ordered finite sequence of `(coordinate, payload)` pairs.
#[derive(Debug)]
pub struct TileStream {
    items: Vec<(TileCoord3, Blob)>,
}

impl View for TileStream {
    type V = TileStreamV;

    closed spec fn view(&self) -> TileStreamV {
        items_view(self.items@)
    }
}

impl TileStream {
    /// The empty stream.
    pub fn new_empty() -> (r: TileStream)
        ensures
            r@ == Seq::<(TileCoord3, Seq<u8>)>::empty(),
    {
        let r = TileStream { items: Vec::new() };
        proof {
            assert(r@ =~= Seq::<(TileCoord3, Seq<u8>)>::empty());
        }
        r
    }

    /// A finite stream emitting the given tiles in order.
    pub fn from_vec(items: Vec<(TileCoord3, Blob)>) -> (r: TileStream)
        ensures
            r@ == items_view(items@),
    {
        let ghost v = items@;
        let r = TileStream { items };
        proof {
            assert(r@ =~= items_view(v));
        }
        r
    }

    pub fn len(&self) -> (r: usize)
        ensures
            r == self@.len(),
    {
        self.items.len()
    }

    /// Appends one tile at the end.
    pub fn push(&mut self, coord: TileCoord3, blob: Blob)
        ensures
            final(self)@ == old(self)@.push((coord, blob@)),
    {
        let ghost b = blob@;
        self.items.push((coord, blob));
        proof {
            assert(self@ =~= old(self)@.push((coord, b)));
        }
    }

    /// Appends every tile of another stream, in its order.
    pub fn append(&mut self, other: TileStream)
        ensures
            final(self)@ == old(self)@ + other@,
    {
        let ghost ov = other@;
        let mut rest = other.items;
        proof {
            assert(items_view(rest@) =~= ov);
        }
        while rest.len() > 0
            invariant
                self@ + items_view(rest@) =~= old(self)@ + ov,
            decreases rest@.len(),
        {
            let ghost pre = items_view(rest@);
            let (c, b) = rest.remove(0);
            proof {
                assert(pre[0] == (c, b@));
                assert(items_view(rest@) =~= pre.subrange(1, pre.len() as int));
            }
            let ghost bv = b@;
            let ghost sp = self@;
            self.items.push((c, b));
            proof {
                assert(self@ =~= sp.push((c, bv)));
                assert(sp.push((c, bv)) + items_view(rest@) =~= sp + pre);
            }
        }
        proof {
            assert(items_view(rest@) =~= Seq::<(TileCoord3, Seq<u8>)>::empty());
            assert(self@ + items_view(rest@) =~= self@);
        }
    }

    /// Materializes the stream.
    pub fn collect(self) -> (r: Vec<(TileCoord3, Blob)>)
        ensures
            items_view(r@) == self@,
    {
        self.items
    }

    /// The tile at an emission position.
    pub fn get(&self, i: usize) -> (r: &(TileCoord3, Blob))
        requires
            i < self@.len(),
        ensures
            r.0 == self@[i as int].0,
            r.1@ == self@[i as int].1,
    {
        &self.items[i]
    }
}

} // verus!
