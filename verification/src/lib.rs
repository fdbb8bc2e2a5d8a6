//! A map-tile toolkit: coordinate and bounding-box algebra, tile pyramids,
//! compression and format handling, a declarative pipeline language, tile
//! composition (overlay, property updates) and the logic behind an HTTP tile
//! server.

use vstd::prelude::*;

mod params;
mod pipeline;
mod server;
mod types;
mod container;
mod geometry;
mod utils;
mod vdl;

pub use container::directory::DirectoryError;
pub use container::directory::DirectoryTilesConverter;
pub use container::directory::TilesConverterConfig;
pub use container::io::DataReaderTrait;
pub use container::io::DataWriterTrait;
pub use container::io::MemDataReader;
pub use container::io::MemDataWriter;
pub use container::mock_writer::MockTilesWriter;
pub use container::mock_writer::MockTilesWriterProfile;
pub use container::mock_writer::TilesWriterParameters;
pub use container::tar_index::build_tar_index;
pub use container::tar_index::TarEntry;
pub use container::tar_index::TarIndex;
pub use container::tar_index::TarIndexError;
pub use params::TileReaderParameters;
pub use pipeline::factory::PipelineFactory;
pub use pipeline::factory::PipelineResources;
pub use pipeline::operation::ConfigError;
pub use pipeline::operation::Operation;
pub use pipeline::operation::OverlayOp;
pub use pipeline::operation::TileGet;
pub use pipeline::operation::UpdatePropertiesOp;
pub use server::container::AcceptEncoding;
pub use server::container::SourceResponse;
pub use server::container::TileContainer;
pub use server::folder::Folder;
pub use pipeline::reader::PipelineError;
pub use pipeline::reader::PipelineReader;
pub use pipeline::source::MemTileSource;
pub use pipeline::source::SourceError;
pub use pipeline::stream::TileStream;
pub use pipeline::vectortiles_update_properties::build_properties_map;
pub use pipeline::vectortiles_update_properties::Args;
pub use pipeline::vectortiles_update_properties::Runner;
pub use pipeline::vectortiles_update_properties::TileCodecError;
pub use vdl::ast::VDLNode;
pub use vdl::ast::VDLNodeView;
pub use vdl::ast::VDLPipelineView;
pub use vdl::parser::parse_bare_identifier;
pub use vdl::parser::parse_identifier;
pub use vdl::parser::parse_node;
pub use vdl::parser::parse_prop;
pub use vdl::parser::parse_quoted_string;
pub use vdl::parser::parse_unquoted_value;
pub use vdl::parser::parse_value;
pub use vdl::parser::parse_vdl;
pub use vdl::parser::ParseError;
pub use vdl::ast::VDLPipeline;
pub use types::blob::Blob;
pub use types::blob::ByteRange;
pub use types::bbox::TileBBox;
pub use types::coord::TileCoord3;
pub use types::pyramid::TileBBoxPyramide;
pub use types::format::TileCompression;
pub use types::format::TileFormat;
pub use geometry::model::Feature;
pub use geometry::model::FeatureV;
pub use geometry::model::Geometry;
pub use geometry::model::Layer;
pub use geometry::model::LayerV;
pub use geometry::model::VectorTile;
pub use geometry::model::VectorTileV;
pub use geometry::types::GeoProperties;
pub use geometry::types::GeoValue;
pub use geometry::types::GeoValueV;
pub use utils::compression::compress;
pub use utils::compression::compress_brotli;
pub use utils::compression::compress_gzip;
pub use utils::compression::decompress;
pub use utils::compression::decompress_brotli;
pub use utils::compression::decompress_gzip;
pub use utils::compression::recompress;
pub use utils::compression::CodecError;
pub use utils::convert::ConvStep;
pub use utils::convert::ConvertError;
pub use utils::convert::DataConverter;
pub use utils::convert::UnsupportedFormatConversion;
pub use utils::image::ImageCodecError;

verus! {

} // verus!
