//! The reader over a built pipeline: parses a document, builds the
//! operation tree, and serves tiles from it.

use vstd::prelude::*;

use crate::params::TileReaderParameters;
use crate::pipeline::factory::PipelineFactory;
use crate::pipeline::factory::PipelineResources;
use crate::pipeline::operation::ConfigError;
use crate::pipeline::operation::Operation;
use crate::pipeline::operation::TileGet;
use crate::pipeline::stream::TileStream;
use crate::pipeline::vectortiles_update_properties::TileCodecError;
use crate::types::bbox::TileBBox;
use crate::types::blob::Blob;
use crate::types::coord::TileCoord3;
use crate::types::format::TileCompression;
use crate::vdl::parser::parse_vdl;

verus! {

/// Why a pipeline reader could not be opened.
#[derive(Clone, Copy, Debug, PartialEq, Eq, Structural)]
pub enum PipelineError {
    Parse(crate::vdl::parser::ParseError),
    Config(ConfigError),
}

/// A reader that serves the composed tiles of one pipeline.
pub struct PipelineReader {
    pub name: String,
    pub operation: Operation,
}

impl PipelineReader {
    pub open spec fn wf(self) -> bool {
        self.operation.wf()
    }

    /// Parses a pipeline document and builds its operation tree against
    /// the provided resources: exactly what the specification builder
    /// makes of the parsed document. Errs exactly when the document is
    /// malformed or the build is rejected, each with its cause.
    pub fn open_str(vdl: &str, name: &str, res: &mut PipelineResources) -> (r: Result<
        PipelineReader,
        PipelineError,
    >)
        requires
            old(res).wf(),
        ensures
            final(res).wf(),
            match crate::vdl::grammar::vdl_parse(vdl@) {
                None => (r matches Err(e) && e is Parse && final(res).spec_res() == old(
                    res,
                ).spec_res()),
                Some(pv) => match crate::pipeline::factory::spec_build_pipeline(
                    pv,
                    old(res).spec_res(),
                ) {
                    Err(e) => r == Err::<PipelineReader, PipelineError>(PipelineError::Config(e)),
                    Ok((m, r2)) => (r matches Ok(p) && p.wf() && p.name@ == name@
                        && p.operation.model() == m && final(res).spec_res() == r2),
                },
            },
    {
        let pipe = match parse_vdl(vdl) {
            Ok(p) => p,
            Err(e) => {
                return Err(PipelineError::Parse(e));
            },
        };
        let operation = match PipelineFactory::build_pipeline(&pipe, res) {
            Ok(op) => op,
            Err(e) => {
                return Err(PipelineError::Config(e));
            },
        };
        Ok(PipelineReader { name: name.to_owned(), operation })
    }

    pub fn get_name(&self) -> (r: &str)
        ensures
            r@ == self.name@,
    {
        self.name.as_str()
    }

    /// The kind of container this reader fronts.
    pub fn get_container_name(&self) -> (r: &'static str)
        ensures
            r@ == "pipeline"@,
    {
        "pipeline"
    }

    pub fn get_parameters(&self) -> (r: &TileReaderParameters)
        ensures
            *r == self.operation.spec_params(),
    {
        self.operation.get_parameters()
    }

    /// A pipeline's compression is derived from its graph; overriding it
    /// is always refused.
    pub fn override_compression(&mut self, _tile_compression: TileCompression) -> (r: Result<
        (),
        ConfigError,
    >)
        ensures
            *final(self) == *old(self),
            r is Err,
    {
        Err(ConfigError::UnknownOperation)
    }

    /// The pipeline's metadata, always uncompressed.
    pub fn get_meta(&self) -> (r: Option<Blob>)
        ensures
            match self.operation.spec_meta() {
                Some(m) => r matches Some(b) && b@ == m,
                None => r is None,
            },
    {
        self.operation.get_meta()
    }

    /// One composed tile, compressed and formatted per the parameters.
    pub fn get_tile_data(&self, coord: &TileCoord3) -> (r: Result<Option<Blob>, TileCodecError>)
        requires
            self.wf(),
        ensures
            match self.operation.spec_get_tile(*coord) {
                TileGet::Fail => r is Err,
                TileGet::Miss => r == Ok::<Option<Blob>, TileCodecError>(None),
                TileGet::Hit(b) => (r matches Ok(o) && o matches Some(rb) && rb@ == b),
            },
    {
        self.operation.get_tile_data(coord)
    }

    /// The composed tiles within a box.
    pub fn get_bbox_tile_stream(&self, bbox: &TileBBox) -> (r: TileStream)
        requires
            self.wf(),
            bbox.wf(),
            bbox.spec_grid_cols(32) * bbox.spec_grid_rows(32) <= usize::MAX,
        ensures
            r@ == self.operation.spec_stream(*bbox),
    {
        self.operation.get_bbox_tile_stream(bbox)
    }
}

} // verus!
