//! A writer that drains a reader and discards everything: it exercises a
//! reader end to end without touching a disk.

use vstd::prelude::*;

use crate::pipeline::reader::PipelineReader;
use crate::types::format::TileCompression;
use crate::types::format::TileFormat;

verus! {

/// What a writer writes: payload format and wire compression.
#[derive(Clone, Copy, Debug, PartialEq, Eq, Structural)]
pub struct TilesWriterParameters {
    pub tile_format: TileFormat,
    pub tile_compression: TileCompression,
}

impl TilesWriterParameters {
    pub fn new(tile_format: TileFormat, tile_compression: TileCompression) -> (r:
        TilesWriterParameters)
        ensures
            r == (TilesWriterParameters { tile_format, tile_compression }),
    {
        TilesWriterParameters { tile_format, tile_compression }
    }
}

/// Ready-made writer profiles.
#[derive(Clone, Copy, Debug, PartialEq, Eq, Structural)]
pub enum MockTilesWriterProfile {
    PNG,
    PBF,
}

/// A writer that reads every tile of a reader and keeps none.
#[derive(Debug)]
pub struct MockTilesWriter {
    parameters: TilesWriterParameters,
}

impl MockTilesWriter {
    /// A writer with a profile's format and compression.
    pub fn new_mock_profile(profile: MockTilesWriterProfile) -> (r: MockTilesWriter)
        ensures
            r.spec_params() == (match profile {
                MockTilesWriterProfile::PNG => TilesWriterParameters {
                    tile_format: TileFormat::PNG,
                    tile_compression: TileCompression::Uncompressed,
                },
                MockTilesWriterProfile::PBF => TilesWriterParameters {
                    tile_format: TileFormat::PBF,
                    tile_compression: TileCompression::Gzip,
                },
            }),
    {
        Self::new_mock(
            match profile {
                MockTilesWriterProfile::PNG => TilesWriterParameters::new(
                    TileFormat::PNG,
                    TileCompression::Uncompressed,
                ),
                MockTilesWriterProfile::PBF => TilesWriterParameters::new(
                    TileFormat::PBF,
                    TileCompression::Gzip,
                ),
            },
        )
    }

    pub fn new_mock(parameters: TilesWriterParameters) -> (r: MockTilesWriter)
        ensures
            r.spec_params() == parameters,
    {
        MockTilesWriter { parameters }
    }

    pub closed spec fn spec_params(self) -> TilesWriterParameters {
        self.parameters
    }

    pub fn get_parameters(&self) -> (r: &TilesWriterParameters)
        ensures
            *r == self.spec_params(),
    {
        &self.parameters
    }

    /// Pulls every level's stream from the reader and discards the tiles;
    /// never fails.
    pub fn write_tiles(&mut self, reader: &PipelineReader) -> (r: Result<(), ()>)
        requires
            reader.wf(),
        ensures
            r is Ok,
    {
        let _name = reader.get_container_name();
        let _meta = reader.get_meta();
        let pyramid = reader.get_parameters().get_level_bbox();
        let levels = pyramid.iter();
        let mut z: usize = 0;
        while z < levels.len()
            invariant
                reader.wf(),
                levels@.len() == reader.operation.spec_params().spec_pyramid()@.len(),
                forall|i: int|
                    0 <= i < levels@.len() ==> #[trigger] levels@[i]
                        == reader.operation.spec_params().spec_pyramid()@[i],
            decreases levels@.len() - z,
        {
            let bbox = levels[z];
            let w = bbox.width();
            let h = bbox.height();
            let cols = (w + 31) / 32;
            let rows = (h + 31) / 32;
            proof {
                assert((cols as int) * (rows as int)
                    < 0x1_0000_0000_0000_0000_0000_0000_0000_0000int) by (nonlinear_arith)
                    requires
                        0 <= cols < 0x1_0000_0000_0000_0000,
                        0 <= rows < 0x1_0000_0000_0000_0000,
                ;
            }
            if (cols as u128) * (rows as u128) <= (usize::MAX as u128) {
                proof {
                    assert(bbox.wf());
                    assert(cols == bbox.spec_grid_cols(32) && rows == bbox.spec_grid_rows(32));
                    assert((cols as u128) * (rows as u128) == (cols as int) * (rows as int))
                        by (nonlinear_arith);
                }
                let stream = reader.get_bbox_tile_stream(&bbox);
                let _tiles = stream.collect();
            }
            z = z + 1;
        }
        Ok(())
    }
}

} // verus!
