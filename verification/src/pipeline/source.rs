//! An in-memory tile source: the leaf of an operation tree. Containers on
//! disk are loaded into one of these before a pipeline runs over them.

use vstd::prelude::*;

use crate::params::TileReaderParameters;
use crate::pipeline::stream::TileStream;
use crate::types::bbox::TileBBox;
use crate::types::blob::Blob;
use crate::types::coord::TileCoord3;
use crate::types::format::TileCompression;
use crate::types::format::TileFormat;

verus! {

/// The view of stored tiles.
pub open spec fn tiles_view(v: Seq<(TileCoord3, Blob)>) -> Seq<(TileCoord3, Seq<u8>)> {
    Seq::new(v.len(), |i: int| (v[i].0, v[i].1@))
}

/// The payload of a coordinate in a tile list: the first entry that holds
/// it.
pub open spec fn spec_tiles_lookup(tiles: Seq<(TileCoord3, Seq<u8>)>, c: TileCoord3) -> Option<
    Seq<u8>,
>
    decreases tiles.len(),
{
    if tiles.len() == 0 {
        None
    } else if tiles[0].0 == c {
        Some(tiles[0].1)
    } else {
        spec_tiles_lookup(tiles.subrange(1, tiles.len() as int), c)
    }
}

/// Every listed tile is a valid coordinate inside the advertised pyramid.
pub open spec fn spec_tiles_in_pyramid(
    tiles: Seq<(TileCoord3, Seq<u8>)>,
    pyramid: Seq<TileBBox>,
) -> bool {
    forall|i: int|
        0 <= i < tiles.len() ==> {
            let c = (#[trigger] tiles[i]).0;
            c.is_valid() && pyramid[c.z as int].spec_contains(c)
        }
}

/// No coordinate is listed twice.
pub open spec fn spec_tiles_unique(tiles: Seq<(TileCoord3, Seq<u8>)>) -> bool {
    forall|i: int, j: int|
        0 <= i < j < tiles.len() ==> (#[trigger] tiles[i]).0 != (#[trigger] tiles[j]).0
}

/// The tiles of a list that fall inside a box, in stored order.
pub open spec fn spec_tiles_in_bbox(tiles: Seq<(TileCoord3, Seq<u8>)>, bbox: TileBBox) -> Seq<
    (TileCoord3, Seq<u8>),
>
    decreases tiles.len(),
{
    if tiles.len() == 0 {
        Seq::empty()
    } else {
        (if bbox.spec_contains(tiles[0].0) {
            seq![tiles[0]]
        } else {
            Seq::empty()
        }) + spec_tiles_in_bbox(tiles.subrange(1, tiles.len() as int), bbox)
    }
}

/// A reader whose whole content sits in memory: its advertised parameters,
/// an optional metadata payload, and its tiles.
#[derive(Debug)]
pub struct MemTileSource {
    parameters: TileReaderParameters,
    name: String,
    meta: Option<Blob>,
    tiles: Vec<(TileCoord3, Blob)>,
}

impl MemTileSource {
    pub closed spec fn spec_params(self) -> TileReaderParameters {
        self.parameters
    }

    pub closed spec fn spec_tiles(self) -> Seq<(TileCoord3, Seq<u8>)> {
        tiles_view(self.tiles@)
    }

    pub closed spec fn spec_meta(self) -> Option<Blob> {
        self.meta
    }

    pub closed spec fn spec_name(self) -> Seq<char> {
        self.name@
    }

    /// A source is valid when its parameters are and every stored tile sits
    /// inside the advertised pyramid, each coordinate at most once.
    pub open spec fn wf(self) -> bool {
        &&& self.spec_params().wf()
        &&& spec_tiles_in_pyramid(self.spec_tiles(), self.spec_params().spec_pyramid()@)
        &&& spec_tiles_unique(self.spec_tiles())
    }

    /// Builds a source: succeeds exactly when every tile sits inside the
    /// advertised pyramid and no coordinate repeats; a stray tile is
    /// reported before a duplicate.
    pub fn new(
        tile_format: TileFormat,
        tile_compression: TileCompression,
        bbox_pyramid: crate::types::pyramid::TileBBoxPyramide,
        name: String,
        meta: Option<Blob>,
        tiles: Vec<(TileCoord3, Blob)>,
    ) -> (r: Result<MemTileSource, SourceError>)
        requires
            bbox_pyramid.wf(),
        ensures
            r matches Ok(s) ==> {
                &&& s.wf()
                &&& s.spec_params().spec_format() == tile_format
                &&& s.spec_params().spec_compression() == tile_compression
                &&& s.spec_params().spec_pyramid() == bbox_pyramid
                &&& s.spec_tiles() == tiles_view(tiles@)
                &&& s.spec_meta() == meta
                &&& s.spec_name() == name@
            },
            (r is Ok) <==> (spec_tiles_in_pyramid(tiles_view(tiles@), bbox_pyramid@)
                && spec_tiles_unique(tiles_view(tiles@))),
            !spec_tiles_in_pyramid(tiles_view(tiles@), bbox_pyramid@) ==> r == Err::<
                MemTileSource,
                SourceError,
            >(SourceError::TileOutsidePyramid),
            (spec_tiles_in_pyramid(tiles_view(tiles@), bbox_pyramid@) && !spec_tiles_unique(
                tiles_view(tiles@),
            )) ==> r == Err::<MemTileSource, SourceError>(SourceError::DuplicateTile),
    {
        let parameters = TileReaderParameters::new(tile_format, tile_compression, bbox_pyramid);
        let n = tiles.len();
        let mut i: usize = 0;
        while i < n
            invariant
                i <= n,
                n == tiles@.len(),
                parameters.wf(),
                parameters.spec_pyramid() == bbox_pyramid,
                forall|k: int|
                    0 <= k < i ==> {
                        let c = (#[trigger] tiles_view(tiles@)[k]).0;
                        c.is_valid() && bbox_pyramid@[c.z as int].spec_contains(c)
                    },
            decreases n - i,
        {
            let c = tiles[i].0;
            proof {
                assert(tiles_view(tiles@)[i as int].0 == c);
            }
            if c.z > 32 {
                return Err(SourceError::TileOutsidePyramid);
            }
            let level = parameters.get_level_bbox().get_level_bbox(c.z as u64);
            if !level.contains(&c) {
                return Err(SourceError::TileOutsidePyramid);
            }
            proof {
                assert(tiles_view(tiles@)[i as int].0 == c);
                assert(bbox_pyramid@[c.z as int].spec_contains(c));
                assert(c.is_valid()) by {
                    assert(bbox_pyramid@[c.z as int].wf());
                    crate::types::coord::lemma_pow2_monotone(c.z as nat, 32);
                }
            }
            i = i + 1;
        }
        proof {
            assert(spec_tiles_in_pyramid(tiles_view(tiles@), bbox_pyramid@));
        }
        let mut j: usize = 0;
        while j < n
            invariant
                j <= n,
                n == tiles@.len(),
                spec_tiles_in_pyramid(tiles_view(tiles@), bbox_pyramid@),
                forall|a: int, b: int|
                    0 <= a < b < tiles@.len() && a < j ==> (#[trigger] tiles_view(tiles@)[a]).0
                        != (#[trigger] tiles_view(tiles@)[b]).0,
            decreases n - j,
        {
            let cj = tiles[j].0;
            let mut k: usize = j + 1;
            while k < n
                invariant
                    j < k <= n,
                    n == tiles@.len(),
                    spec_tiles_in_pyramid(tiles_view(tiles@), bbox_pyramid@),
                    cj == tiles@[j as int].0,
                    forall|b: int|
                        j < b < k ==> (#[trigger] tiles_view(tiles@)[b]).0 != tiles_view(
                            tiles@,
                        )[j as int].0,
                decreases n - k,
            {
                if tiles[k].0 == cj {
                    proof {
                        assert(tiles_view(tiles@)[j as int].0 == tiles_view(tiles@)[k as int].0);
                    }
                    return Err(SourceError::DuplicateTile);
                }
                proof {
                    assert(tiles_view(tiles@)[k as int].0 == tiles@[k as int].0);
                }
                k = k + 1;
            }
            j = j + 1;
        }
        let ghost tv = tiles_view(tiles@);
        let r = MemTileSource { parameters, name, meta, tiles };
        proof {
            assert(r.spec_tiles() =~= tv);
        }
        Ok(r)
    }

    pub fn get_name(&self) -> (r: &str)
        ensures
            r@ == self.spec_name(),
    {
        self.name.as_str()
    }

    pub fn get_parameters(&self) -> (r: &TileReaderParameters)
        ensures
            *r == self.spec_params(),
    {
        &self.parameters
    }

    /// The source's metadata payload, if it has one.
    pub fn get_meta(&self) -> (r: Option<Blob>)
        ensures
            match self.spec_meta() {
                Some(m) => r matches Some(b) && b@ == m@,
                None => r is None,
            },
    {
        match &self.meta {
            Some(m) => Some(m.clone()),
            None => None,
        }
    }

    /// The payload stored for a coordinate.
    pub fn get_tile_data(&self, coord: &TileCoord3) -> (r: Option<Blob>)
        ensures
            match spec_tiles_lookup(self.spec_tiles(), *coord) {
                Some(b) => r matches Some(rb) && rb@ == b,
                None => r is None,
            },
    {
        let n = self.tiles.len();
        let mut i: usize = 0;
        proof {
            assert(self.spec_tiles().subrange(0, n as int) =~= self.spec_tiles());
        }
        while i < n
            invariant
                i <= n,
                n == self.tiles@.len(),
                spec_tiles_lookup(self.spec_tiles(), *coord) == spec_tiles_lookup(
                    self.spec_tiles().subrange(i as int, n as int),
                    *coord,
                ),
            decreases n - i,
        {
            let ghost pre = self.spec_tiles().subrange(i as int, n as int);
            proof {
                assert(pre[0] == self.spec_tiles()[i as int]);
                assert(pre.subrange(1, pre.len() as int) =~= self.spec_tiles().subrange(
                    i + 1,
                    n as int,
                ));
            }
            if tiles_coord_eq(&self.tiles[i].0, coord) {
                return Some(self.tiles[i].1.clone());
            }
            i = i + 1;
        }
        proof {
            assert(self.spec_tiles().subrange(n as int, n as int) =~= Seq::<
                (TileCoord3, Seq<u8>),
            >::empty());
        }
        None
    }

    /// The stored tiles inside a box, in stored order.
    pub fn get_bbox_tile_stream(&self, bbox: &TileBBox) -> (r: TileStream)
        ensures
            r@ == spec_tiles_in_bbox(self.spec_tiles(), *bbox),
    {
        let n = self.tiles.len();
        let mut out = TileStream::new_empty();
        let mut i: usize = 0;
        proof {
            assert(self.spec_tiles().subrange(0, n as int) =~= self.spec_tiles());
            assert(out@ + spec_tiles_in_bbox(self.spec_tiles(), *bbox) =~= spec_tiles_in_bbox(
                self.spec_tiles(),
                *bbox,
            ));
        }
        while i < n
            invariant
                i <= n,
                n == self.tiles@.len(),
                out@ + spec_tiles_in_bbox(
                    self.spec_tiles().subrange(i as int, n as int),
                    *bbox,
                ) =~= spec_tiles_in_bbox(self.spec_tiles(), *bbox),
            decreases n - i,
        {
            let ghost pre = self.spec_tiles().subrange(i as int, n as int);
            proof {
                assert(pre[0] == self.spec_tiles()[i as int]);
                assert(pre.subrange(1, pre.len() as int) =~= self.spec_tiles().subrange(
                    i + 1,
                    n as int,
                ));
            }
            let c = self.tiles[i].0;
            if bbox.contains(&c) {
                let ghost op = out@;
                out.push(c, self.tiles[i].1.clone());
                proof {
                    assert(op.push(pre[0]) + spec_tiles_in_bbox(
                        pre.subrange(1, pre.len() as int),
                        *bbox,
                    ) =~= op + (seq![pre[0]] + spec_tiles_in_bbox(
                        pre.subrange(1, pre.len() as int),
                        *bbox,
                    )));
                }
            }
            i = i + 1;
        }
        proof {
            assert(spec_tiles_in_bbox(self.spec_tiles().subrange(n as int, n as int), *bbox) =~= Seq::<
                (TileCoord3, Seq<u8>),
            >::empty());
            assert(out@ + spec_tiles_in_bbox(
                self.spec_tiles().subrange(n as int, n as int),
                *bbox,
            ) =~= out@);
        }
        out
    }
}

/// Compares coordinates.
fn tiles_coord_eq(a: &TileCoord3, b: &TileCoord3) -> (r: bool)
    ensures
        r == (*a == *b),
{
    a.x == b.x && a.y == b.y && a.z == b.z
}

/// Why an in-memory source was rejected.
#[derive(Clone, Copy, Debug, PartialEq, Eq, Structural)]
pub enum SourceError {
    TileOutsidePyramid,
    DuplicateTile,
}

} // verus!
