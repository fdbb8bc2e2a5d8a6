//! The directory converter: plans, for a whole reader, the files a
//! directory-shaped tile container holds — `z/y/x` paths with format and
//! compression extensions, and the metadata document. Writing the planned
//! files to a disk is the caller's concern.

use vstd::prelude::*;

use crate::pipeline::operation::Operation;
use crate::pipeline::reader::PipelineReader;
use crate::pipeline::stream::TileStreamV;
use crate::types::blob::Blob;
use crate::types::coord::TileCoord3;
use crate::types::format::spec_compression_extension;
use crate::types::format::spec_format_extension;
use crate::types::format::TileCompression;
use crate::types::format::TileFormat;
use crate::utils::convert::conv_apply;
use crate::utils::convert::spec_recompressor_steps;
use crate::utils::convert::ConvStep;
use crate::utils::convert::DataConverter;
use crate::utils::strings::dec_str;
use crate::utils::strings::u64_to_string;

verus! {

/// How a converter writes: fixed format and compression where set, the
/// reader's otherwise.
#[derive(Debug)]
pub struct TilesConverterConfig {
    pub tile_format: Option<TileFormat>,
    pub tile_compression: Option<TileCompression>,
    pub force_recompress: bool,
}

impl TilesConverterConfig {
    pub fn new(
        tile_format: Option<TileFormat>,
        tile_compression: Option<TileCompression>,
        force_recompress: bool,
    ) -> (r: TilesConverterConfig)
        ensures
            r == (TilesConverterConfig { tile_format, tile_compression, force_recompress }),
    {
        TilesConverterConfig { tile_format, tile_compression, force_recompress }
    }

    /// The configuration that keeps everything as the reader advertises
    /// it.
    pub fn new_full() -> (r: TilesConverterConfig)
        ensures
            r == (TilesConverterConfig {
                tile_format: None::<TileFormat>,
                tile_compression: None::<TileCompression>,
                force_recompress: false,
            }),
    {
        TilesConverterConfig { tile_format: None, tile_compression: None, force_recompress: false }
    }

    /// The output format against a reader's format.
    pub open spec fn spec_final_format(self, reader_format: TileFormat) -> TileFormat {
        match self.tile_format {
            Some(f) => f,
            None => reader_format,
        }
    }

    /// The output compression against a reader's compression.
    pub open spec fn spec_final_compression(self, reader_comp: TileCompression) -> TileCompression {
        match self.tile_compression {
            Some(c) => c,
            None => reader_comp,
        }
    }
}

/// The directory-layout path of a tile: `z/y/x` with the format's and
/// compression's extensions.
pub open spec fn spec_tile_path(c: TileCoord3, fmt: TileFormat, comp: TileCompression) -> Seq<
    char,
> {
    dec_str(c.z as nat) + "/"@ + dec_str(c.y as nat) + "/"@ + dec_str(c.x as nat)
        + spec_format_extension(fmt) + spec_compression_extension(comp)
}

/// The planned writes of one stream: each tile that recompresses cleanly,
/// under its path; the rest dropped.
pub open spec fn spec_plan_items(
    items: TileStreamV,
    steps: Seq<ConvStep>,
    fmt: TileFormat,
    comp: TileCompression,
    j: int,
) -> Seq<(Seq<char>, Seq<u8>)>
    decreases items.len() - j,
{
    if j < 0 || j >= items.len() {
        Seq::empty()
    } else {
        (match conv_apply(steps, items[j].1) {
            None => Seq::empty(),
            Some(b2) => seq![(spec_tile_path(items[j].0, fmt, comp), b2)],
        }) + spec_plan_items(items, steps, fmt, comp, j + 1)
    }
}

/// The planned writes of the first `lv` zoom levels.
pub open spec fn spec_plan_levels(
    op: Operation,
    steps: Seq<ConvStep>,
    fmt: TileFormat,
    comp: TileCompression,
    lv: int,
) -> Seq<(Seq<char>, Seq<u8>)>
    decreases lv,
{
    if lv <= 0 {
        Seq::empty()
    } else {
        spec_plan_levels(op, steps, fmt, comp, lv - 1) + spec_plan_items(
            op.spec_stream(op.spec_params().spec_pyramid()@[lv - 1]),
            steps,
            fmt,
            comp,
            0,
        )
    }
}

/// The planned metadata write, when the reader has metadata.
pub open spec fn spec_plan_meta(op: Operation, comp: TileCompression) -> Seq<
    (Seq<char>, Seq<u8>),
> {
    match op.spec_meta() {
        None => Seq::empty(),
        Some(m) => seq![
            (
                "tiles.json"@ + spec_compression_extension(comp),
                crate::utils::compression::spec_compress(m, comp),
            ),
        ],
    }
}

/// The views of planned writes.
pub open spec fn writes_view(v: Seq<(String, Blob)>) -> Seq<(Seq<char>, Seq<u8>)> {
    Seq::new(v.len(), |i: int| (v[i].0@, v[i].1@))
}

/// Why a conversion plan was rejected.
#[derive(Clone, Copy, Debug, PartialEq, Eq, Structural)]
pub enum DirectoryError {
    UnsupportedFormatConversion,
    PlanTooLarge,
}

/// Plans directory-shaped writes for whole readers.
#[derive(Debug)]
pub struct DirectoryTilesConverter {
    pub config: TilesConverterConfig,
}

impl DirectoryTilesConverter {
    pub fn new(config: TilesConverterConfig) -> (r: DirectoryTilesConverter)
        ensures
            r.config == config,
    {
        DirectoryTilesConverter { config }
    }

    /// The converter's step pipeline against a reader: from the reader's
    /// format and compression to the configured ones.
    pub open spec fn spec_steps(self, op: crate::pipeline::operation::Operation) -> Option<
        Seq<ConvStep>,
    > {
        spec_recompressor_steps(
            op.spec_params().spec_format(),
            op.spec_params().spec_compression(),
            self.config.spec_final_format(op.spec_params().spec_format()),
            self.config.spec_final_compression(op.spec_params().spec_compression()),
            self.config.force_recompress,
        )
    }

    /// Whether every level of a reader's pyramid can be planned on this
    /// machine.
    pub open spec fn spec_plan_fits(op: crate::pipeline::operation::Operation) -> bool {
        forall|lv: int|
            0 <= lv < 33 ==> (#[trigger] op.spec_params().spec_pyramid()@[lv]).spec_grid_cols(32)
                * op.spec_params().spec_pyramid()@[lv].spec_grid_rows(32) <= usize::MAX
    }

    /// Plans every write for a reader: the metadata document first, then
    /// each level's tiles in level order, converted and recompressed to
    /// the output format and compression; tiles that fail per-tile
    /// conversion are dropped. Succeeds whenever the format pair has a
    /// conversion and every level fits the machine; errs exactly on a
    /// format pair without a conversion, or on a level too large to plan.
    pub fn convert_from(&self, reader: &PipelineReader) -> (r: Result<
        Vec<(String, Blob)>,
        DirectoryError,
    >)
        requires
            reader.wf(),
        ensures
            r matches Ok(writes) ==> {
                let comp = self.config.spec_final_compression(
                    reader.operation.spec_params().spec_compression(),
                );
                let fmt = self.config.spec_final_format(
                    reader.operation.spec_params().spec_format(),
                );
                &&& self.spec_steps(reader.operation) matches Some(steps) && writes_view(writes@)
                    == spec_plan_meta(reader.operation, comp) + spec_plan_levels(
                    reader.operation,
                    steps,
                    fmt,
                    comp,
                    33,
                )
            },
            (self.spec_steps(reader.operation) is None) ==> r == Err::<
                Vec<(String, Blob)>,
                DirectoryError,
            >(DirectoryError::UnsupportedFormatConversion),
            (self.spec_steps(reader.operation) is Some && Self::spec_plan_fits(reader.operation))
                ==> r is Ok,
            r == Err::<Vec<(String, Blob)>, DirectoryError>(DirectoryError::PlanTooLarge)
                ==> !Self::spec_plan_fits(reader.operation),
    {
        let src_params = reader.get_parameters();
        let src_fmt = *src_params.get_tile_format();
        let src_comp = *src_params.get_tile_precompression();
        let fmt = match &self.config.tile_format {
            Some(f) => *f,
            None => src_fmt,
        };
        let comp = match &self.config.tile_compression {
            Some(c) => *c,
            None => src_comp,
        };
        let converter = match DataConverter::new_tile_recompressor(
            &src_fmt,
            &src_comp,
            &fmt,
            &comp,
            self.config.force_recompress,
        ) {
            Ok(c) => c,
            Err(_) => {
                return Err(DirectoryError::UnsupportedFormatConversion);
            },
        };
        let ghost steps = converter@;
        let mut writes: Vec<(String, Blob)> = Vec::new();
        match reader.get_meta() {
            Some(meta) => {
                let name = "tiles.json".to_owned().concat(comp.as_extension());
                let body = crate::utils::compression::compress(meta, &comp);
                writes.push((name, body));
            },
            None => {},
        }
        proof {
            assert(writes_view(writes@) =~= spec_plan_meta(reader.operation, comp));
            assert(spec_plan_levels(reader.operation, steps, fmt, comp, 0) =~= Seq::<
                (Seq<char>, Seq<u8>),
            >::empty());
            assert(writes_view(writes@) + spec_plan_levels(reader.operation, steps, fmt, comp, 0)
                =~= writes_view(writes@));
        }
        let levels = src_params.get_level_bbox().iter();
        let mut z: usize = 0;
        while z < 33
            invariant
                reader.wf(),
                z <= 33,
                steps == converter@,
                fmt == self.config.spec_final_format(reader.operation.spec_params().spec_format()),
                comp == self.config.spec_final_compression(
                    reader.operation.spec_params().spec_compression(),
                ),
                Some(steps) == self.spec_steps(reader.operation),
                levels@.len() == 33,
                levels@ == reader.operation.spec_params().spec_pyramid()@,
                writes_view(writes@) =~= spec_plan_meta(reader.operation, comp)
                    + spec_plan_levels(reader.operation, steps, fmt, comp, z as int),
            decreases 33 - z,
        {
            let bbox = levels[z];
            let w = bbox.width();
            let h = bbox.height();
            let cols = (w + 31) / 32;
            let rows = (h + 31) / 32;
            proof {
                assert((cols as int) * (rows as int)
                    < 0x1_0000_0000_0000_0000_0000_0000_0000_0000int) by (nonlinear_arith)
                    requires
                        0 <= cols < 0x1_0000_0000_0000_0000,
                        0 <= rows < 0x1_0000_0000_0000_0000,
                ;
            }
            if !((cols as u128) * (rows as u128) <= (usize::MAX as u128)) {
                proof {
                    assert(bbox == reader.operation.spec_params().spec_pyramid()@[z as int]);
                    assert(cols == bbox.spec_grid_cols(32) && rows == bbox.spec_grid_rows(32));
                    assert((cols as u128) * (rows as u128) == (cols as int) * (rows as int))
                        by (nonlinear_arith);
                    assert(!Self::spec_plan_fits(reader.operation));
                }
                return Err(DirectoryError::PlanTooLarge);
            }
            proof {
                assert(bbox.wf());
                assert(cols == bbox.spec_grid_cols(32) && rows == bbox.spec_grid_rows(32));
                assert((cols as u128) * (rows as u128) == (cols as int) * (rows as int))
                    by (nonlinear_arith);
            }
            let stream = reader.get_bbox_tile_stream(&bbox);
            let ghost sv = stream@;
            let items = stream.collect();
            let mut rest = items;
            let ghost n0 = sv.len();
            proof {
                assert(crate::pipeline::stream::items_view(rest@) =~= sv);
                assert(spec_plan_items(sv, steps, fmt, comp, n0 as int) =~= Seq::<
                    (Seq<char>, Seq<u8>),
                >::empty());
            }
            while rest.len() > 0
                invariant
                    steps == converter@,
                    n0 == sv.len(),
                    rest@.len() <= n0,
                    crate::pipeline::stream::items_view(rest@) =~= sv.subrange(
                        n0 - rest@.len(),
                        n0 as int,
                    ),
                    writes_view(writes@) + spec_plan_items(sv, steps, fmt, comp, n0 - rest@.len())
                        =~= spec_plan_meta(reader.operation, comp) + spec_plan_levels(
                        reader.operation,
                        steps,
                        fmt,
                        comp,
                        z as int,
                    ) + spec_plan_items(sv, steps, fmt, comp, 0),
                decreases rest@.len(),
            {
                let ghost j = n0 - rest@.len();
                let ghost pre = crate::pipeline::stream::items_view(rest@);
                let (c, b) = rest.remove(0);
                proof {
                    assert(pre[0] == (c, b@));
                    assert(sv[j] == (c, b@));
                    assert(crate::pipeline::stream::items_view(rest@) =~= pre.subrange(
                        1,
                        pre.len() as int,
                    ));
                    assert(crate::pipeline::stream::items_view(rest@) =~= sv.subrange(
                        j + 1,
                        n0 as int,
                    ));
                }
                let ghost wp = writes_view(writes@);
                match converter.run(b) {
                    Ok(b2) => {
                        let path = tile_path(&c, &fmt, &comp);
                        let ghost b2v = b2@;
                        let ghost pathv = path@;
                        writes.push((path, b2));
                        proof {
                            assert(writes_view(writes@) =~= wp.push((pathv, b2v)));
                            assert(wp.push((pathv, b2v)) + spec_plan_items(
                                sv,
                                steps,
                                fmt,
                                comp,
                                j + 1,
                            ) =~= wp + (seq![(pathv, b2v)] + spec_plan_items(
                                sv,
                                steps,
                                fmt,
                                comp,
                                j + 1,
                            )));
                        }
                    },
                    Err(_) => {},
                }
            }
            proof {
                assert(spec_plan_items(sv, steps, fmt, comp, n0 as int) =~= Seq::<
                    (Seq<char>, Seq<u8>),
                >::empty());
                assert(writes_view(writes@) + Seq::<(Seq<char>, Seq<u8>)>::empty() =~= writes_view(
                    writes@,
                ));
                assert(spec_plan_meta(reader.operation, comp) + spec_plan_levels(
                    reader.operation,
                    steps,
                    fmt,
                    comp,
                    z as int,
                ) + spec_plan_items(sv, steps, fmt, comp, 0) =~= spec_plan_meta(
                    reader.operation,
                    comp,
                ) + spec_plan_levels(reader.operation, steps, fmt, comp, z as int + 1));
            }
            z = z + 1;
        }
        Ok(writes)
    }
}

/// The directory-layout path of one tile.
fn tile_path(c: &TileCoord3, fmt: &TileFormat, comp: &TileCompression) -> (r: String)
    ensures
        r@ == spec_tile_path(*c, *fmt, *comp),
{
    let mut out = u64_to_string(c.z as u64);
    out.append("/");
    let y = u64_to_string(c.y as u64);
    out.append(y.as_str());
    out.append("/");
    let x = u64_to_string(c.x as u64);
    out.append(x.as_str());
    out.append(fmt.as_extension());
    out.append(comp.as_extension());
    out
}

} // verus!
