//! The closed set of tile payload formats and wire compressions, with their
//! MIME types and file-name extensions.

use vstd::prelude::*;

verus! {

/// Payload format of a tile.
#[derive(Clone, Copy, Debug, PartialEq, Eq, Structural, Hash)]
pub enum TileFormat {
    PBF,
    PNG,
    JPG,
    WEBP,
    AVIF,
    SVG,
    GEOJSON,
    TOPOJSON,
    JSON,
    BIN,
}

/// Wire compression of a tile payload as it leaves a reader.
#[derive(Clone, Copy, Debug, PartialEq, Eq, Structural, Hash)]
pub enum TileCompression {
    Uncompressed,
    Gzip,
    Brotli,
}

impl TileFormat {
    /// The MIME type a server sends for this format.
    pub fn as_mime(&self) -> (r: &'static str)
        ensures
            r@ == spec_mime(*self),
    {
        match self {
            TileFormat::PBF => "application/x-protobuf",
            TileFormat::PNG => "image/png",
            TileFormat::JPG => "image/jpeg",
            TileFormat::WEBP => "image/webp",
            TileFormat::AVIF => "image/avif",
            TileFormat::SVG => "image/svg+xml",
            TileFormat::GEOJSON => "application/json",
            TileFormat::TOPOJSON => "application/json",
            TileFormat::JSON => "application/json",
            TileFormat::BIN => "application/octet-stream",
        }
    }

    /// The file-name extension used by directory and tar containers.
    pub fn as_extension(&self) -> (r: &'static str)
        ensures
            r@ == spec_format_extension(*self),
    {
        match self {
            TileFormat::PBF => ".pbf",
            TileFormat::PNG => ".png",
            TileFormat::JPG => ".jpg",
            TileFormat::WEBP => ".webp",
            TileFormat::AVIF => ".avif",
            TileFormat::SVG => ".svg",
            TileFormat::GEOJSON => ".geojson",
            TileFormat::TOPOJSON => ".topojson",
            TileFormat::JSON => ".json",
            TileFormat::BIN => "",
        }
    }
}

impl TileCompression {
    /// The file-name extension used by directory and tar containers.
    pub fn as_extension(&self) -> (r: &'static str)
        ensures
            r@ == spec_compression_extension(*self),
    {
        match self {
            TileCompression::Uncompressed => "",
            TileCompression::Gzip => ".gz",
            TileCompression::Brotli => ".br",
        }
    }
}

pub open spec fn spec_mime(f: TileFormat) -> Seq<char> {
    match f {
        TileFormat::PBF => "application/x-protobuf"@,
        TileFormat::PNG => "image/png"@,
        TileFormat::JPG => "image/jpeg"@,
        TileFormat::WEBP => "image/webp"@,
        TileFormat::AVIF => "image/avif"@,
        TileFormat::SVG => "image/svg+xml"@,
        TileFormat::GEOJSON => "application/json"@,
        TileFormat::TOPOJSON => "application/json"@,
        TileFormat::JSON => "application/json"@,
        TileFormat::BIN => "application/octet-stream"@,
    }
}

pub open spec fn spec_format_extension(f: TileFormat) -> Seq<char> {
    match f {
        TileFormat::PBF => ".pbf"@,
        TileFormat::PNG => ".png"@,
        TileFormat::JPG => ".jpg"@,
        TileFormat::WEBP => ".webp"@,
        TileFormat::AVIF => ".avif"@,
        TileFormat::SVG => ".svg"@,
        TileFormat::GEOJSON => ".geojson"@,
        TileFormat::TOPOJSON => ".topojson"@,
        TileFormat::JSON => ".json"@,
        TileFormat::BIN => ""@,
    }
}

pub open spec fn spec_compression_extension(c: TileCompression) -> Seq<char> {
    match c {
        TileCompression::Uncompressed => ""@,
        TileCompression::Gzip => ".gz"@,
        TileCompression::Brotli => ".br"@,
    }
}

} // verus!
