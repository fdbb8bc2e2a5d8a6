//! What every tile source advertises: payload format, wire compression, and
//! the pyramid of tiles it can produce.

use vstd::prelude::*;

use crate::types::format::TileCompression;
use crate::types::format::TileFormat;
use crate::types::pyramid::TileBBoxPyramide;
use crate::utils::convert::spec_decompressor_steps;
use crate::utils::convert::DataConverter;

verus! {

/// Parameters published by a tile reader or pipeline operation.
#[derive(Debug)]
pub struct TileReaderParameters {
    tile_format: TileFormat,
    tile_precompression: TileCompression,
    bbox_pyramide: TileBBoxPyramide,
    decompressor: DataConverter,
}

impl TileReaderParameters {
    pub open spec fn wf(self) -> bool {
        self.spec_pyramid().wf()
    }

    pub closed spec fn spec_format(self) -> TileFormat {
        self.tile_format
    }

    pub closed spec fn spec_compression(self) -> TileCompression {
        self.tile_precompression
    }

    pub closed spec fn spec_pyramid(self) -> TileBBoxPyramide {
        self.bbox_pyramide
    }

    pub closed spec fn spec_decompressor(self) -> DataConverter {
        self.decompressor
    }

    pub fn new(
        tile_format: TileFormat,
        tile_precompression: TileCompression,
        bbox_pyramide: TileBBoxPyramide,
    ) -> (r: TileReaderParameters)
        requires
            bbox_pyramide.wf(),
        ensures
            r.wf(),
            r.spec_format() == tile_format,
            r.spec_compression() == tile_precompression,
            r.spec_pyramid() == bbox_pyramide,
            r.spec_decompressor()@ == spec_decompressor_steps(tile_precompression),
    {
        let decompressor = DataConverter::new_decompressor(&tile_precompression);
        TileReaderParameters { decompressor, tile_format, tile_precompression, bbox_pyramide }
    }

    pub fn get_tile_format(&self) -> (r: &TileFormat)
        ensures
            *r == self.spec_format(),
    {
        &self.tile_format
    }

    pub fn get_tile_precompression(&self) -> (r: &TileCompression)
        ensures
            *r == self.spec_compression(),
    {
        &self.tile_precompression
    }

    /// The pipeline that decompresses this reader's payloads.
    pub fn get_decompressor(&self) -> (r: &DataConverter)
        ensures
            *r == self.spec_decompressor(),
    {
        &self.decompressor
    }

    /// The pyramid of tiles the reader covers.
    pub fn get_level_bbox(&self) -> (r: &TileBBoxPyramide)
        ensures
            *r == self.spec_pyramid(),
    {
        &self.bbox_pyramide
    }
}

} // verus!
