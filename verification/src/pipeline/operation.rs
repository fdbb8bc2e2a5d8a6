//! The operation graph: read leaves, first-wins overlays, and the
//! property-update transform, each exposing reader semantics.

use vstd::prelude::*;

use crate::geometry::codec::d_tile;
use crate::geometry::codec::tile_enc;
use crate::geometry::types::GeoProperties;
use crate::params::TileReaderParameters;
use crate::pipeline::source::spec_tiles_in_bbox;
use crate::pipeline::source::spec_tiles_lookup;
use crate::pipeline::source::MemTileSource;
use crate::pipeline::stream::TileStream;
use crate::pipeline::stream::TileStreamV;
use crate::pipeline::vectortiles_update_properties::build_properties_map;
use crate::pipeline::vectortiles_update_properties::rows_view;
use crate::pipeline::vectortiles_update_properties::spec_pm_build;
use crate::pipeline::vectortiles_update_properties::Args;
use crate::pipeline::vectortiles_update_properties::Runner;
use crate::pipeline::vectortiles_update_properties::TileCodecError;
use crate::types::bbox::TileBBox;
use crate::types::blob::Blob;
use crate::types::coord::TileCoord3;
use crate::types::format::TileCompression;
use crate::types::format::TileFormat;
use crate::types::pyramid::bbox_coords_seq;
use crate::types::pyramid::pyramid_levels;
use crate::utils::compression::recompress;
use crate::utils::compression::spec_compress;
use crate::utils::compression::spec_decompress;

verus! {

broadcast use vstd::std_specs::vec::axiom_vec_index_decreases;

/// What asking a source for one tile yields: an error, no tile, or a
/// payload.
pub enum TileGet {
    Fail,
    Miss,
    Hit(Seq<u8>),
}

/// A payload moved between wire compressions, or nothing when it is not a
/// well-formed stream of the source compression.
pub open spec fn spec_recompress_bytes(
    b: Seq<u8>,
    src: TileCompression,
    dst: TileCompression,
) -> Option<Seq<u8>> {
    if src == dst {
        Some(b)
    } else {
        match spec_decompress(b, src) {
            None => None,
            Some(d) => Some(spec_compress(d, dst)),
        }
    }
}

/// One node of the pipeline graph.
pub enum Operation {
    Read(MemTileSource),
    Overlay(OverlayOp),
    UpdateProperties(UpdatePropertiesOp),
}

/// A first-wins composition of sources sharing one tile format.
pub struct OverlayOp {
    pub parameters: TileReaderParameters,
    pub sources: Vec<Operation>,
}

/// The property-update transform over one source.
pub struct UpdatePropertiesOp {
    pub parameters: TileReaderParameters,
    pub runner: Runner,
    pub source: Box<Operation>,
    pub meta: Option<Blob>,
}

impl Operation {
    /// The parameters a node advertises.
    pub open spec fn spec_params(self) -> TileReaderParameters {
        match self {
            Operation::Read(src) => src.spec_params(),
            Operation::Overlay(o) => o.parameters,
            Operation::UpdateProperties(u) => u.parameters,
        }
    }

    /// The metadata a node hands out.
    pub open spec fn spec_meta(self) -> Option<Seq<u8>> {
        match self {
            Operation::Read(src) => match src.spec_meta() {
                Some(b) => Some(b@),
                None => None,
            },
            Operation::Overlay(o) => None,
            Operation::UpdateProperties(u) => match u.meta {
                Some(b) => Some(b@),
                None => None,
            },
        }
    }

    /// A valid tree: parameters valid everywhere, overlays nonempty, and
    /// the transform frozen at its source's compression.
    pub open spec fn wf(self) -> bool
        decreases self, 1int,
    {
        match self {
            Operation::Read(src) => src.wf(),
            Operation::Overlay(o) => {
                &&& o.parameters.wf()
                &&& o.sources.len() >= 1
                &&& sources_wf(o.sources, 0)
            },
            Operation::UpdateProperties(u) => {
                &&& u.parameters.wf()
                &&& u.parameters.spec_format() == TileFormat::PBF
                &&& u.parameters.spec_compression() == u.runner.tile_compression
                &&& (*u.source).wf()
                &&& u.runner.tile_compression == (*u.source).spec_params().spec_compression()
            },
        }
    }

    /// What one tile request yields.
    pub open spec fn spec_get_tile(self, c: TileCoord3) -> TileGet
        decreases self, 1int,
    {
        match self {
            Operation::Read(src) => match spec_tiles_lookup(src.spec_tiles(), c) {
                Some(b) => TileGet::Hit(b),
                None => TileGet::Miss,
            },
            Operation::Overlay(o) => spec_overlay_first(
                o.sources,
                0,
                c,
                o.parameters.spec_compression(),
            ),
            Operation::UpdateProperties(u) => match (*u.source).spec_get_tile(c) {
                TileGet::Fail => TileGet::Fail,
                TileGet::Miss => TileGet::Miss,
                TileGet::Hit(b) => match spec_decompress(b, u.runner.tile_compression) {
                    None => TileGet::Fail,
                    Some(d) => match d_tile(d) {
                        None => TileGet::Fail,
                        Some(t) => TileGet::Hit(tile_enc(u.runner.spec_run_tile(t))),
                    },
                },
            },
        }
    }

    /// What one bounded stream request yields, in emission order.
    pub open spec fn spec_stream(self, bbox: TileBBox) -> TileStreamV
        decreases self, 1int,
    {
        match self {
            Operation::Read(src) => spec_tiles_in_bbox(src.spec_tiles(), bbox),
            Operation::Overlay(o) => spec_overlay_chunks(
                o.sources,
                spec_grid_seq(bbox, 32),
                0,
                o.parameters.spec_compression(),
            ),
            Operation::UpdateProperties(u) => spec_update_stream(
                u.runner,
                (*u.source).spec_stream(bbox),
                0,
            ),
        }
    }
}

/// Every source of an overlay, from an index on, is a valid tree.
pub open spec fn sources_wf(v: Vec<Operation>, i: int) -> bool
    decreases v, v@.len() - i + 1,
{
    if i >= v@.len() || i < 0 {
        true
    } else {
        v[i].wf() && sources_wf(v, i + 1)
    }
}

/// The first-wins walk over an overlay's sources from an index on: the
/// first source that has the tile supplies it, recompressed to the
/// overlay's wire compression; a source error, or a payload that is no
/// well-formed stream of its source's compression, fails the request.
pub open spec fn spec_overlay_first(
    v: Vec<Operation>,
    i: int,
    c: TileCoord3,
    out: TileCompression,
) -> TileGet
    decreases v, v@.len() - i + 1,
{
    if i >= v@.len() || i < 0 {
        TileGet::Miss
    } else {
        match v[i].spec_get_tile(c) {
            TileGet::Fail => TileGet::Fail,
            TileGet::Hit(b) => match spec_recompress_bytes(
                b,
                v[i].spec_params().spec_compression(),
                out,
            ) {
                Some(b2) => TileGet::Hit(b2),
                None => TileGet::Fail,
            },
            TileGet::Miss => spec_overlay_first(v, i + 1, c, out),
        }
    }
}

/// The grid chunks of a box with chunk side `n`, row-major; none for the
/// empty box.
pub open spec fn spec_grid_seq(b: TileBBox, n: nat) -> Seq<TileBBox> {
    if b.spec_is_empty() {
        Seq::empty()
    } else {
        Seq::new(
            (b.spec_grid_cols(n) * b.spec_grid_rows(n)) as nat,
            |k: int| b.spec_grid_chunk(n, k % b.spec_grid_cols(n), k / b.spec_grid_cols(n)),
        )
    }
}

/// The overlay tiles of one chunk's coordinates from an index on: each
/// covered coordinate that some source supplies, in row-major order;
/// failing coordinates are dropped.
pub open spec fn spec_overlay_coords(
    v: Vec<Operation>,
    cs: Seq<TileCoord3>,
    j: int,
    out: TileCompression,
) -> TileStreamV
    decreases cs.len() - j,
{
    if j < 0 || j >= cs.len() {
        Seq::empty()
    } else {
        (match spec_overlay_first(v, 0, cs[j], out) {
            TileGet::Hit(b) => seq![(cs[j], b)],
            _ => Seq::empty(),
        }) + spec_overlay_coords(v, cs, j + 1, out)
    }
}

/// The overlay stream over a chunk list from an index on.
pub open spec fn spec_overlay_chunks(
    v: Vec<Operation>,
    chunks: Seq<TileBBox>,
    k: int,
    out: TileCompression,
) -> TileStreamV
    decreases chunks.len() - k,
{
    if k < 0 || k >= chunks.len() {
        Seq::empty()
    } else {
        spec_overlay_coords(v, bbox_coords_seq(chunks[k]), 0, out) + spec_overlay_chunks(
            v,
            chunks,
            k + 1,
            out,
        )
    }
}

/// The transform applied along a stream from an index on: tiles that are
/// no well-formed compressed tiles are dropped.
pub open spec fn spec_update_stream(r: Runner, items: TileStreamV, j: int) -> TileStreamV
    decreases items.len() - j,
{
    if j < 0 || j >= items.len() {
        Seq::empty()
    } else {
        (match spec_decompress(items[j].1, r.tile_compression) {
            None => Seq::empty(),
            Some(d) => match d_tile(d) {
                None => Seq::empty(),
                Some(t) => seq![(items[j].0, tile_enc(r.spec_run_tile(t)))],
            },
        }) + spec_update_stream(r, items, j + 1)
    }
}

} // verus!

verus! {

/// Why a pipeline could not be built.
#[derive(Clone, Copy, Debug, PartialEq, Eq, Structural)]
pub enum ConfigError {
    EmptyPipeline,
    UnknownOperation,
    LeftmostMustBeRead,
    MissingProperty,
    NoChildren,
    MismatchedFormats,
    SourceNotVector,
    MissingKeyColumn,
    UnknownFile,
    UnknownTable,
    InvalidPropertyValue,
}

impl Operation {
    /// A leaf node over an in-memory source.
    pub fn new_read(src: MemTileSource) -> (r: Operation)
        requires
            src.wf(),
        ensures
            r == Operation::Read(src),
            r.wf(),
    {
        Operation::Read(src)
    }

    pub fn get_parameters(&self) -> (r: &TileReaderParameters)
        ensures
            *r == self.spec_params(),
    {
        match self {
            Operation::Read(src) => src.get_parameters(),
            Operation::Overlay(o) => &o.parameters,
            Operation::UpdateProperties(u) => &u.parameters,
        }
    }

    /// The node's metadata payload, if it has one.
    pub fn get_meta(&self) -> (r: Option<Blob>)
        ensures
            match self.spec_meta() {
                Some(m) => r matches Some(b) && b@ == m,
                None => r is None,
            },
    {
        match self {
            Operation::Read(src) => src.get_meta(),
            Operation::Overlay(_) => None,
            Operation::UpdateProperties(u) => match &u.meta {
                Some(m) => Some(m.clone()),
                None => None,
            },
        }
    }

    /// One tile, as the node's composition defines it. Errs exactly where
    /// a source fails or a payload is not a well-formed compressed tile.
    pub fn get_tile_data(&self, coord: &TileCoord3) -> (r: Result<Option<Blob>, TileCodecError>)
        requires
            self.wf(),
        ensures
            match self.spec_get_tile(*coord) {
                TileGet::Fail => r is Err,
                TileGet::Miss => r == Ok::<Option<Blob>, TileCodecError>(None),
                TileGet::Hit(b) => (r matches Ok(o) && o matches Some(rb) && rb@ == b),
            },
        decreases *self, 2int,
    {
        match self {
            Operation::Read(src) => Ok(src.get_tile_data(coord)),
            Operation::Overlay(o) => overlay_first_at(
                &o.sources,
                coord,
                o.parameters.get_tile_precompression(),
            ),
            Operation::UpdateProperties(u) => {
                let inner = (&*u.source).get_tile_data(coord)?;
                match inner {
                    None => Ok(None),
                    Some(b) => match u.runner.run(b) {
                        Ok(o) => Ok(o),
                        Err(e) => Err(e),
                    },
                }
            },
        }
    }

    /// The node's tiles inside a box, in the order its composition
    /// defines; tiles that fail per-tile work are dropped from streams.
    pub fn get_bbox_tile_stream(&self, bbox: &TileBBox) -> (r: TileStream)
        requires
            self.wf(),
            bbox.wf(),
            bbox.spec_grid_cols(32) * bbox.spec_grid_rows(32) <= usize::MAX,
        ensures
            r@ == self.spec_stream(*bbox),
        decreases *self, 2int,
    {
        match self {
            Operation::Read(src) => src.get_bbox_tile_stream(bbox),
            Operation::Overlay(o) => {
                let out_comp = *o.parameters.get_tile_precompression();
                let chunks = bbox.iter_bbox_grid(32);
                let ghost gseq = spec_grid_seq(*bbox, 32);
                proof {
                    assert(chunks@ =~= gseq);
                }
                let mut out = TileStream::new_empty();
                let mut k: usize = 0;
                proof {
                    assert(out@ + spec_overlay_chunks(o.sources, gseq, 0, out_comp)
                        =~= spec_overlay_chunks(o.sources, gseq, 0, out_comp));
                }
                while k < chunks.len()
                    invariant
                        self.wf(),
                        self is Overlay,
                        o == self->Overlay_0,
                        out_comp == o.parameters.spec_compression(),
                        gseq == chunks@,
                        forall|q: int|
                            0 <= q < chunks@.len() ==> (#[trigger] chunks@[q]).wf(),
                        out@ + spec_overlay_chunks(o.sources, gseq, k as int, out_comp)
                            =~= spec_overlay_chunks(o.sources, gseq, 0, out_comp),
                    decreases chunks@.len() - k,
                {
                    let chunk = &chunks[k];
                    let coords = chunk.coords();
                    let ghost cseq = bbox_coords_seq(chunks@[k as int]);
                    proof {
                        assert(coords@ =~= cseq);
                    }
                    let mut j: usize = 0;
                    while j < coords.len()
                        invariant
                            self.wf(),
                            self is Overlay,
                            o == self->Overlay_0,
                            out_comp == o.parameters.spec_compression(),
                            cseq == coords@,
                            0 <= k < chunks@.len(),
                            gseq == chunks@,
                            out@ + spec_overlay_coords(o.sources, cseq, j as int, out_comp)
                                + spec_overlay_chunks(o.sources, gseq, k as int + 1, out_comp)
                                =~= spec_overlay_chunks(o.sources, gseq, 0, out_comp),
                        decreases coords@.len() - j,
                    {
                        let c = coords[j];
                        let ghost op = out@;
                        match overlay_first_at(&o.sources, &c, &out_comp) {
                            Ok(Some(b)) => {
                                let ghost bv = b@;
                                out.push(c, b);
                                proof {
                                    assert(op.push((c, bv)) + spec_overlay_coords(
                                        o.sources,
                                        cseq,
                                        j as int + 1,
                                        out_comp,
                                    ) =~= op + (seq![(c, bv)] + spec_overlay_coords(
                                        o.sources,
                                        cseq,
                                        j as int + 1,
                                        out_comp,
                                    )));
                                }
                            },
                            _ => {},
                        }
                        j = j + 1;
                    }
                    proof {
                        assert(spec_overlay_coords(
                            o.sources,
                            cseq,
                            coords@.len() as int,
                            out_comp,
                        ) =~= Seq::<(TileCoord3, Seq<u8>)>::empty());
                        assert(out@ + Seq::<(TileCoord3, Seq<u8>)>::empty() =~= out@);
                    }
                    k = k + 1;
                }
                proof {
                    assert(spec_overlay_chunks(o.sources, gseq, chunks@.len() as int, out_comp)
                        =~= Seq::<(TileCoord3, Seq<u8>)>::empty());
                    assert(out@ + Seq::<(TileCoord3, Seq<u8>)>::empty() =~= out@);
                }
                out
            },
            Operation::UpdateProperties(u) => {
                let inner = (&*u.source).get_bbox_tile_stream(bbox);
                let ghost iv = inner@;
                let items = inner.collect();
                let mut out = TileStream::new_empty();
                let mut rest = items;
                let ghost n0 = iv.len();
                proof {
                    assert(crate::pipeline::stream::items_view(rest@) =~= iv);
                    assert(iv.subrange(0, n0 as int) =~= iv);
                    assert(out@ + spec_update_stream(u.runner, iv, 0) =~= spec_update_stream(
                        u.runner,
                        iv,
                        0,
                    ));
                }
                while rest.len() > 0
                    invariant
                        self.wf(),
                        self is UpdateProperties,
                        u == self->UpdateProperties_0,
                        n0 == iv.len(),
                        rest@.len() <= n0,
                        crate::pipeline::stream::items_view(rest@) =~= iv.subrange(
                            n0 - rest@.len(),
                            n0 as int,
                        ),
                        out@ + spec_update_stream(u.runner, iv, n0 - rest@.len())
                            =~= spec_update_stream(u.runner, iv, 0),
                    decreases rest@.len(),
                {
                    let ghost j = n0 - rest@.len();
                    let ghost pre = crate::pipeline::stream::items_view(rest@);
                    let (c, b) = rest.remove(0);
                    proof {
                        assert(pre[0] == (c, b@));
                        assert(iv[j] == (c, b@));
                        assert(crate::pipeline::stream::items_view(rest@) =~= pre.subrange(
                            1,
                            pre.len() as int,
                        ));
                        assert(crate::pipeline::stream::items_view(rest@) =~= iv.subrange(
                            j + 1,
                            n0 as int,
                        ));
                    }
                    let ghost op = out@;
                    match u.runner.run(b) {
                        Ok(Some(b2)) => {
                            let ghost b2v = b2@;
                            out.push(c, b2);
                            proof {
                                assert(op.push((c, b2v)) + spec_update_stream(
                                    u.runner,
                                    iv,
                                    j + 1,
                                ) =~= op + (seq![(c, b2v)] + spec_update_stream(
                                    u.runner,
                                    iv,
                                    j + 1,
                                )));
                            }
                        },
                        Ok(None) => {},
                        Err(_) => {},
                    }
                }
                proof {
                    assert(spec_update_stream(u.runner, iv, n0 as int) =~= Seq::<
                        (TileCoord3, Seq<u8>),
                    >::empty());
                    assert(out@ + Seq::<(TileCoord3, Seq<u8>)>::empty() =~= out@);
                }
                out
            },
        }
    }
}

/// The first-wins walk over an overlay's sources.
fn overlay_first_at(
    sources: &Vec<Operation>,
    coord: &TileCoord3,
    out: &TileCompression,
) -> (r: Result<Option<Blob>, TileCodecError>)
    requires
        sources_wf(*sources, 0),
    ensures
        match spec_overlay_first(*sources, 0, *coord, *out) {
            TileGet::Fail => r is Err,
            TileGet::Miss => r == Ok::<Option<Blob>, TileCodecError>(None),
            TileGet::Hit(b) => (r matches Ok(o) && o matches Some(rb) && rb@ == b),
        },
    decreases *sources, 1int,
{
    let n = sources.len();
    let mut i: usize = 0;
    while i < n
        invariant
            n == sources@.len(),
            i <= n,
            sources_wf(*sources, 0),
            spec_overlay_first(*sources, 0, *coord, *out) == spec_overlay_first(
                *sources,
                i as int,
                *coord,
                *out,
            ),
        decreases n - i,
    {
        proof {
            lemma_sources_wf_at(*sources, 0, i as int);
        }
        let got = sources[i].get_tile_data(coord)?;
        match got {
            Some(b) => {
                let src_comp = *sources[i].get_parameters().get_tile_precompression();
                let b2 = match recompress(b, &src_comp, out) {
                    Ok(b2) => b2,
                    Err(_) => {
                        return Err(TileCodecError::Decompression);
                    },
                };
                return Ok(Some(b2));
            },
            None => {},
        }
        i = i + 1;
    }
    Ok(None)
}

/// Every source from the start of a valid list is itself valid.
proof fn lemma_sources_wf_at(v: Vec<Operation>, i: int, j: int)
    requires
        sources_wf(v, i),
        0 <= i <= j < v@.len(),
    ensures
        v[j].wf(),
    decreases j - i,
{
    if i < j {
        lemma_sources_wf_at(v, i + 1, j);
    }
}

} // verus!

verus! {

/// The hull of the first `k+1` sources' pyramids at one level.
pub open spec fn spec_pyr_hull(srcs: Seq<Operation>, k: int, lv: int) -> TileBBox
    decreases k,
{
    if k <= 0 {
        srcs[0].spec_params().spec_pyramid()@[lv]
    } else {
        spec_pyr_hull(srcs, k - 1, lv).spec_hull(srcs[k].spec_params().spec_pyramid()@[lv])
    }
}

/// Whether every source advertises one wire compression.
pub open spec fn spec_all_same_compression(srcs: Seq<Operation>) -> bool {
    forall|i: int|
        0 <= i < srcs.len() ==> (#[trigger] srcs[i]).spec_params().spec_compression()
            == srcs[0].spec_params().spec_compression()
}

impl Operation {
    /// Builds a first-wins overlay. All sources must share one tile
    /// format; the output compression is the sources' compression when
    /// they agree and uncompressed otherwise; the output pyramid is the
    /// union (per-level hull) of the sources' pyramids.
    pub fn new_overlay(sources: Vec<Operation>) -> (r: Result<Operation, ConfigError>)
        requires
            sources_wf(sources, 0),
        ensures
            sources@.len() == 0 ==> r == Err::<Operation, ConfigError>(ConfigError::NoChildren),
            (exists|i: int|
                0 <= i < sources@.len() && (#[trigger] sources@[i]).spec_params().spec_format()
                    != sources@[0].spec_params().spec_format()) ==> r == Err::<
                Operation,
                ConfigError,
            >(ConfigError::MismatchedFormats),
            (sources@.len() > 0 && (forall|i: int|
                0 <= i < sources@.len() ==> (#[trigger] sources@[i]).spec_params().spec_format()
                    == sources@[0].spec_params().spec_format())) ==> (r matches Ok(op) && {
                &&& op.wf()
                &&& op is Overlay
                &&& op->Overlay_0.sources@ == sources@
                &&& op.spec_params().spec_format() == sources@[0].spec_params().spec_format()
                &&& op.spec_params().spec_compression() == (if spec_all_same_compression(
                    sources@,
                ) {
                    sources@[0].spec_params().spec_compression()
                } else {
                    TileCompression::Uncompressed
                })
                &&& forall|lv: int|
                    0 <= lv < pyramid_levels()
                        ==> #[trigger] op.spec_params().spec_pyramid()@[lv] == spec_pyr_hull(
                        sources@,
                        sources@.len() - 1,
                        lv,
                    )
            }),
    {
        if sources.len() == 0 {
            return Err(ConfigError::NoChildren);
        }
        let tile_format = *sources[0].get_parameters().get_tile_format();
        let mut tile_compression = *sources[0].get_parameters().get_tile_precompression();
        let mut pyramid = sources[0].get_parameters().get_level_bbox().duplicate();
        proof {
            lemma_sources_wf_at(sources, 0, 0);
            assert(forall|lv: int|
                0 <= lv < pyramid_levels() ==> #[trigger] pyramid@[lv] == spec_pyr_hull(
                    sources@,
                    0,
                    lv,
                ));
        }
        let n = sources.len();
        let mut i: usize = 1;
        while i < n
            invariant
                1 <= i <= n,
                n == sources@.len(),
                sources_wf(sources, 0),
                tile_format == sources@[0].spec_params().spec_format(),
                forall|k: int|
                    0 <= k < i ==> (#[trigger] sources@[k]).spec_params().spec_format()
                        == tile_format,
                (forall|k: int|
                    0 <= k < i ==> (#[trigger] sources@[k]).spec_params().spec_compression()
                        == sources@[0].spec_params().spec_compression()) ==> tile_compression
                    == sources@[0].spec_params().spec_compression(),
                (exists|k: int|
                    0 <= k < i && (#[trigger] sources@[k]).spec_params().spec_compression()
                        != sources@[0].spec_params().spec_compression()) ==> tile_compression
                    == TileCompression::Uncompressed,
                pyramid.wf(),
                forall|lv: int|
                    0 <= lv < pyramid_levels() ==> #[trigger] pyramid@[lv] == spec_pyr_hull(
                        sources@,
                        i - 1,
                        lv,
                    ),
            decreases n - i,
        {
            proof {
                lemma_sources_wf_at(sources, 0, i as int);
            }
            let params = sources[i].get_parameters();
            if !(*params.get_tile_format() == tile_format) {
                proof {
                    lemma_formats_differ(sources@, i as int);
                }
                return Err(ConfigError::MismatchedFormats);
            }
            if !(*params.get_tile_precompression() == tile_compression) {
                tile_compression = TileCompression::Uncompressed;
            }
            pyramid.include_bbox_pyramid(params.get_level_bbox());
            i = i + 1;
        }
        let parameters = TileReaderParameters::new(tile_format, tile_compression, pyramid);
        Ok(Operation::Overlay(OverlayOp { parameters, sources }))
    }

    /// Builds the property-update transform over a source: the source must
    /// carry vector tiles, and the side-data rows become the frozen map.
    /// The transform keeps the source's parameters, wire compression
    /// included.
    pub fn new_update_properties(args: Args, rows: Vec<GeoProperties>, source: Operation) -> (r:
        Result<Operation, ConfigError>)
        requires
            source.wf(),
        ensures
            source.spec_params().spec_format() != TileFormat::PBF ==> r == Err::<
                Operation,
                ConfigError,
            >(ConfigError::SourceNotVector),
            source.spec_params().spec_format() == TileFormat::PBF ==> match spec_pm_build(
                Seq::empty(),
                rows_view(rows@),
                args.id_field_values@,
                args.add_id,
            ) {
                None => r == Err::<Operation, ConfigError>(ConfigError::MissingKeyColumn),
                Some(m) => (r matches Ok(op) && {
                    &&& op.wf()
                    &&& op is UpdateProperties
                    &&& *op->UpdateProperties_0.source == source
                    &&& crate::pipeline::vectortiles_update_properties::pm_view(
                        op->UpdateProperties_0.runner.properties_map@,
                    ) == m
                    &&& op->UpdateProperties_0.runner.args == args
                    &&& op->UpdateProperties_0.runner.tile_compression
                        == source.spec_params().spec_compression()
                    &&& op.spec_params().spec_format() == TileFormat::PBF
                    &&& op.spec_params().spec_compression()
                        == source.spec_params().spec_compression()
                    &&& op.spec_params().spec_pyramid()@ == source.spec_params().spec_pyramid()@
                    &&& op.spec_meta() == source.spec_meta()
                }),
            },
    {
        let src_params = source.get_parameters();
        if !(*src_params.get_tile_format() == TileFormat::PBF) {
            return Err(ConfigError::SourceNotVector);
        }
        let properties_map = match build_properties_map(
            rows,
            args.id_field_values.as_str(),
            args.add_id,
        ) {
            Ok(m) => m,
            Err(_) => {
                return Err(ConfigError::MissingKeyColumn);
            },
        };
        let tile_compression = *src_params.get_tile_precompression();
        let parameters = TileReaderParameters::new(
            TileFormat::PBF,
            tile_compression,
            src_params.get_level_bbox().duplicate(),
        );
        let meta = source.get_meta();
        let runner = Runner { args, tile_compression, properties_map };
        Ok(
            Operation::UpdateProperties(
                UpdatePropertiesOp { parameters, runner, source: Box::new(source), meta },
            ),
        )
    }
}

/// Seen from a mismatching index, some source's format differs from the
/// first source's.
proof fn lemma_formats_differ(srcs: Seq<Operation>, i: int)
    requires
        0 <= i < srcs.len(),
        srcs[i].spec_params().spec_format() != srcs[0].spec_params().spec_format(),
    ensures
        exists|k: int|
            0 <= k < srcs.len() && (#[trigger] srcs[k]).spec_params().spec_format()
                != srcs[0].spec_params().spec_format(),
{
}

/// The overlay honours declaration order in general: the least source
/// that has a tile supplies it — sources before it miss, sources after it
/// are never consulted — recompressed to the overlay's wire compression.
pub proof fn lemma_overlay_first_wins(
    v: Vec<Operation>,
    i: int,
    c: TileCoord3,
    out: TileCompression,
    b: Seq<u8>,
)
    requires
        0 <= i < v@.len(),
        v[i].spec_get_tile(c) == TileGet::Hit(b),
        forall|j: int| 0 <= j < i ==> (#[trigger] v[j].spec_get_tile(c)) is Miss,
    ensures
        spec_overlay_first(v, 0, c, out) == (match spec_recompress_bytes(
            b,
            v[i].spec_params().spec_compression(),
            out,
        ) {
            Some(b2) => TileGet::Hit(b2),
            None => TileGet::Fail,
        }),
{
    lemma_overlay_first_wins_from(v, 0, i, c, out, b);
}

proof fn lemma_overlay_first_wins_from(
    v: Vec<Operation>,
    s: int,
    i: int,
    c: TileCoord3,
    out: TileCompression,
    b: Seq<u8>,
)
    requires
        0 <= s <= i < v@.len(),
        v[i].spec_get_tile(c) == TileGet::Hit(b),
        forall|j: int| s <= j < i ==> (#[trigger] v[j].spec_get_tile(c)) is Miss,
    ensures
        spec_overlay_first(v, s, c, out) == (match spec_recompress_bytes(
            b,
            v[i].spec_params().spec_compression(),
            out,
        ) {
            Some(b2) => TileGet::Hit(b2),
            None => TileGet::Fail,
        }),
    decreases i - s,
{
    if s < i {
        assert(v[s].spec_get_tile(c) is Miss);
        lemma_overlay_first_wins_from(v, s + 1, i, c, out, b);
        assert(spec_overlay_first(v, s, c, out) == spec_overlay_first(v, s + 1, c, out));
    } else {
        assert(s == i);
        assert(spec_overlay_first(v, i, c, out) == (match v[i].spec_get_tile(c) {
            TileGet::Fail => TileGet::Fail,
            TileGet::Hit(b0) => match spec_recompress_bytes(
                b0,
                v[i].spec_params().spec_compression(),
                out,
            ) {
                Some(b2) => TileGet::Hit(b2),
                None => TileGet::Fail,
            },
            TileGet::Miss => spec_overlay_first(v, i + 1, c, out),
        }));
    }
}

/// The overlay honours declaration order: where its first source has a
/// tile, the overlay serves that source's payload, recompressed to the
/// overlay's wire compression.
pub proof fn lemma_overlay_precedence(
    v: Vec<Operation>,
    c: TileCoord3,
    out: TileCompression,
    b: Seq<u8>,
)
    requires
        v@.len() >= 1,
        v[0].spec_get_tile(c) == TileGet::Hit(b),
    ensures
        spec_overlay_first(v, 0, c, out) == (match spec_recompress_bytes(
            b,
            v[0].spec_params().spec_compression(),
            out,
        ) {
            Some(b2) => TileGet::Hit(b2),
            None => TileGet::Fail,
        }),
{
}

} // verus!

verus! {

/// The semantic content of one built node: everything its reader-facing
/// behaviour depends on, with parameters flattened to plain values.
pub enum OpModel {
    Read(MemTileSource),
    Overlay(OverlayModel),
    UpdateProperties(Box<UpdateModel>),
}

/// An overlay's semantic content.
pub struct OverlayModel {
    pub format: TileFormat,
    pub compression: TileCompression,
    pub pyramid: Seq<TileBBox>,
    pub sources: Seq<OpModel>,
}

/// The transform's semantic content.
pub struct UpdateModel {
    pub data_source_path: Seq<char>,
    pub id_field_tiles: Seq<char>,
    pub id_field_values: Seq<char>,
    pub layer_name: Option<Seq<char>>,
    pub replace_properties: bool,
    pub remove_empty_properties: bool,
    pub add_id: bool,
    pub compression: TileCompression,
    pub pyramid: Seq<TileBBox>,
    pub map: Seq<(Seq<char>, crate::pipeline::vectortiles_update_properties::PropsV)>,
    pub meta: Option<Seq<u8>>,
    pub source: OpModel,
}

impl Operation {
    /// The node's semantic content.
    pub open spec fn model(self) -> OpModel
        decreases self,
    {
        match self {
            Operation::Read(src) => OpModel::Read(src),
            Operation::Overlay(o) => OpModel::Overlay(
                OverlayModel {
                    format: o.parameters.spec_format(),
                    compression: o.parameters.spec_compression(),
                    pyramid: o.parameters.spec_pyramid()@,
                    sources: Seq::new(
                        o.sources@.len(),
                        |i: int|
                            if 0 <= i < o.sources@.len() {
                                o.sources[i].model()
                            } else {
                                arbitrary()
                            },
                    ),
                },
            ),
            Operation::UpdateProperties(u) => OpModel::UpdateProperties(
                Box::new(
                    UpdateModel {
                        data_source_path: u.runner.args.data_source_path@,
                        id_field_tiles: u.runner.args.id_field_tiles@,
                        id_field_values: u.runner.args.id_field_values@,
                        layer_name:
                            crate::pipeline::vectortiles_update_properties::layer_name_view(
                            u.runner.args.layer_name,
                        ),
                        replace_properties: u.runner.args.replace_properties,
                        remove_empty_properties: u.runner.args.remove_empty_properties,
                        add_id: u.runner.args.add_id,
                        compression: u.runner.tile_compression,
                        pyramid: u.parameters.spec_pyramid()@,
                        map: crate::pipeline::vectortiles_update_properties::pm_view(
                            u.runner.properties_map@,
                        ),
                        meta: self.spec_meta(),
                        source: (*u.source).model(),
                    },
                ),
            ),
        }
    }
}

/// The format, compression and pyramid a modelled node advertises.
pub open spec fn model_params(m: OpModel) -> (TileFormat, TileCompression, Seq<TileBBox>) {
    match m {
        OpModel::Read(src) => (
            src.spec_params().spec_format(),
            src.spec_params().spec_compression(),
            src.spec_params().spec_pyramid()@,
        ),
        OpModel::Overlay(o) => (o.format, o.compression, o.pyramid),
        OpModel::UpdateProperties(u) => (TileFormat::PBF, u.compression, u.pyramid),
    }
}

/// A node's model hands out its metadata.
pub proof fn lemma_model_meta(op: Operation)
    ensures
        crate::pipeline::factory::model_meta(op.model()) == op.spec_meta(),
{
}

/// A node's model advertises its parameters.
pub proof fn lemma_model_params(op: Operation)
    requires
        op.wf(),
    ensures
        model_params(op.model()) == (
            op.spec_params().spec_format(),
            op.spec_params().spec_compression(),
            op.spec_params().spec_pyramid()@,
        ),
{
}

} // verus!
