//! The HTTP tile source: routes a request path to one tile or the
//! metadata document, negotiating the response's compression.

use vstd::prelude::*;

use crate::pipeline::operation::TileGet;
use crate::pipeline::reader::PipelineReader;
use crate::types::blob::Blob;
use crate::types::coord::pow2;
use crate::types::coord::TileCoord3;
use crate::types::format::spec_mime;
use crate::types::format::TileCompression;
use crate::utils::compression::compress_brotli;
use crate::utils::compression::compress_gzip;
use crate::utils::compression::decompress;
use crate::utils::compression::spec_compress;
use crate::utils::compression::spec_decompress;
use crate::utils::compression::CodecError;
use crate::utils::strings::all_digits;
use crate::utils::strings::digits_val;
use crate::utils::strings::parse_u64;
use crate::utils::strings::scan_dot;
use crate::utils::strings::split_first_dot;

verus! {

/// The compressions a client accepts beside the identity.
#[derive(Clone, Copy, Debug, PartialEq, Eq, Structural)]
pub struct AcceptEncoding {
    pub gzip: bool,
    pub brotli: bool,
}

/// Whether a stored compression may go out as-is.
pub open spec fn spec_accepts(a: AcceptEncoding, c: TileCompression) -> bool {
    match c {
        TileCompression::Uncompressed => true,
        TileCompression::Gzip => a.gzip,
        TileCompression::Brotli => a.brotli,
    }
}

impl AcceptEncoding {
    pub fn contains(&self, c: &TileCompression) -> (r: bool)
        ensures
            r == spec_accepts(*self, *c),
    {
        match c {
            TileCompression::Uncompressed => true,
            TileCompression::Gzip => self.gzip,
            TileCompression::Brotli => self.brotli,
        }
    }
}

/// A found document: its media type, the compression of its body, and the
/// body. A request for something absent yields no response (the server
/// sends 404); a failing one yields an error (the server sends 500).
#[derive(Debug)]
pub struct SourceResponse {
    pub mime: String,
    pub encoding: TileCompression,
    pub body: Blob,
}

/// The coordinate a three-segment request path addresses: `z/y/x`, an
/// extension on the last segment ignored; nothing when a segment is not a
/// number or the address is outside the zoom level's grid.
pub open spec fn spec_path_coord(z: Seq<char>, y: Seq<char>, x: Seq<char>) -> Option<TileCoord3> {
    let xp = x.subrange(0, scan_dot(x, 0));
    if z.len() > 0 && all_digits(z) && y.len() > 0 && all_digits(y) && xp.len() > 0 && all_digits(
        xp,
    ) {
        let zv = digits_val(z);
        let yv = digits_val(y);
        let xv = digits_val(xp);
        if zv <= 32 && xv < pow2(zv) && yv < pow2(zv) {
            Some(TileCoord3 { x: xv as u32, y: yv as u32, z: zv as u8 })
        } else {
            None
        }
    } else {
        None
    }
}

/// An HTTP source over one pipeline reader: its tiles under
/// `z/y/x[.ext]`, its metadata under `meta.json`.
pub struct TileContainer {
    reader: PipelineReader,
    mime: String,
    compression: TileCompression,
}

impl TileContainer {
    pub closed spec fn spec_reader(self) -> PipelineReader {
        self.reader
    }

    pub closed spec fn spec_compression(self) -> TileCompression {
        self.compression
    }

    pub open spec fn wf(self) -> bool {
        &&& self.spec_reader().wf()
        &&& self.spec_compression()
            == self.spec_reader().operation.spec_params().spec_compression()
        &&& self.spec_mime_str() == spec_mime(
            self.spec_reader().operation.spec_params().spec_format(),
        )
    }

    pub closed spec fn spec_mime_str(self) -> Seq<char> {
        self.mime@
    }

    /// Wraps a reader, fixing the served media type and compression from
    /// its parameters.
    pub fn from(reader: PipelineReader) -> (r: TileContainer)
        requires
            reader.wf(),
        ensures
            r.wf(),
            r.spec_reader() == reader,
    {
        let mime = reader.get_parameters().get_tile_format().as_mime().to_owned();
        let compression = *reader.get_parameters().get_tile_precompression();
        TileContainer { reader, mime, compression }
    }

    pub fn get_name(&self) -> (r: &str)
        ensures
            r@ == self.spec_reader().name@,
    {
        self.reader.get_name()
    }

    /// Serves one request path. A three-segment path addresses a tile: a
    /// stored tile goes out as stored when the client accepts that
    /// compression and decompressed otherwise. `meta.json` serves the
    /// metadata at the best accepted compression (brotli, then gzip, then
    /// none). Everything else, missing tiles and empty metadata included,
    /// is not found; a failing tile read or decompression is an error.
    pub fn get_data(&self, path: &Vec<String>, accept: &AcceptEncoding) -> (r: Result<
        Option<SourceResponse>,
        CodecError,
    >)
        requires
            self.wf(),
        ensures
            path@.len() == 3 ==> match spec_path_coord(path@[0]@, path@[1]@, path@[2]@) {
                None => r == Ok::<Option<SourceResponse>, CodecError>(None),
                Some(c) => match self.spec_reader().operation.spec_get_tile(c) {
                    TileGet::Fail => r is Err,
                    TileGet::Miss => r == Ok::<Option<SourceResponse>, CodecError>(None),
                    TileGet::Hit(b) => {
                        if spec_accepts(*accept, self.spec_compression()) {
                            (r matches Ok(o) && o matches Some(resp) && resp.body@ == b
                                && resp.encoding == self.spec_compression() && resp.mime@
                                == self.spec_mime_str())
                        } else {
                            match spec_decompress(b, self.spec_compression()) {
                                None => r is Err,
                                Some(d) => (r matches Ok(o) && o matches Some(resp) && resp.body@
                                    == d && resp.encoding == TileCompression::Uncompressed
                                    && resp.mime@ == self.spec_mime_str()),
                            }
                        }
                    },
                },
            },
            (path@.len() == 1 && path@[0]@ == "meta.json"@) ==> match self.spec_reader(
            ).operation.spec_meta() {
                None => r == Ok::<Option<SourceResponse>, CodecError>(None),
                Some(m) => {
                    if m.len() == 0 {
                        r == Ok::<Option<SourceResponse>, CodecError>(None)
                    } else {
                        let enc = if accept.brotli {
                            TileCompression::Brotli
                        } else if accept.gzip {
                            TileCompression::Gzip
                        } else {
                            TileCompression::Uncompressed
                        };
                        (r matches Ok(o) && o matches Some(resp) && resp.body@ == spec_compress(
                            m,
                            enc,
                        ) && resp.encoding == enc && resp.mime@ == "application/json"@)
                    }
                },
            },
            !(path@.len() == 3 || (path@.len() == 1 && path@[0]@ == "meta.json"@)) ==> r == Ok::<
                Option<SourceResponse>,
                CodecError,
            >(None),
    {
        if path.len() == 3 {
            proof {
                lemma_path_coord_some(path@[0]@, path@[1]@, path@[2]@);
            }
            let z = match parse_u64(path[0].as_str()) {
                Some(v) => v,
                None => {
                    return Ok(None);
                },
            };
            let y = match parse_u64(path[1].as_str()) {
                Some(v) => v,
                None => {
                    return Ok(None);
                },
            };
            let (x_part, _ext) = split_first_dot(path[2].as_str());
            let x = match parse_u64(x_part.as_str()) {
                Some(v) => v,
                None => {
                    return Ok(None);
                },
            };
            if z > 32 || x > 0xffff_ffff || y > 0xffff_ffff {
                return Ok(None);
            }
            let coord = match TileCoord3::new(x as u32, y as u32, z as u8) {
                Ok(c) => c,
                Err(_) => {
                    return Ok(None);
                },
            };
            let tile = match self.reader.get_tile_data(&coord) {
                Ok(t) => t,
                Err(_) => {
                    return Err(CodecError { compression: self.compression });
                },
            };
            let data = match tile {
                Some(d) => d,
                None => {
                    return Ok(None);
                },
            };
            if accept.contains(&self.compression) {
                Ok(
                    Some(
                        SourceResponse {
                            mime: self.mime.clone(),
                            encoding: self.compression,
                            body: data,
                        },
                    ),
                )
            } else {
                let d = decompress(data, &self.compression)?;
                Ok(
                    Some(
                        SourceResponse {
                            mime: self.mime.clone(),
                            encoding: TileCompression::Uncompressed,
                            body: d,
                        },
                    ),
                )
            }
        } else if path.len() == 1 && path[0] == "meta.json".to_owned() {
            let meta = match self.reader.get_meta() {
                Some(m) => m,
                None => {
                    return Ok(None);
                },
            };
            if meta.len() == 0 {
                return Ok(None);
            }
            let json: &str = "application/json";
            if accept.brotli {
                Ok(
                    Some(
                        SourceResponse {
                            mime: json.to_owned(),
                            encoding: TileCompression::Brotli,
                            body: compress_brotli(meta),
                        },
                    ),
                )
            } else if accept.gzip {
                Ok(
                    Some(
                        SourceResponse {
                            mime: json.to_owned(),
                            encoding: TileCompression::Gzip,
                            body: compress_gzip(meta),
                        },
                    ),
                )
            } else {
                Ok(
                    Some(
                        SourceResponse {
                            mime: json.to_owned(),
                            encoding: TileCompression::Uncompressed,
                            body: meta,
                        },
                    ),
                )
            }
        } else {
            Ok(None)
        }
    }
}

/// What a path that addresses a tile must look like.
proof fn lemma_path_coord_some(z: Seq<char>, y: Seq<char>, x: Seq<char>)
    ensures
        match spec_path_coord(z, y, x) {
            Some(c) => {
                &&& z.len() > 0 && all_digits(z) && digits_val(z) <= 32
                &&& y.len() > 0 && all_digits(y) && digits_val(y) < 0x1_0000_0000
                &&& x.subrange(0, scan_dot(x, 0)).len() > 0
                &&& all_digits(x.subrange(0, scan_dot(x, 0)))
                &&& digits_val(x.subrange(0, scan_dot(x, 0))) < 0x1_0000_0000
                &&& c == (TileCoord3 {
                    x: digits_val(x.subrange(0, scan_dot(x, 0))) as u32,
                    y: digits_val(y) as u32,
                    z: digits_val(z) as u8,
                })
                &&& c.is_valid()
            },
            None => true,
        },
{
    if spec_path_coord(z, y, x) is Some {
        crate::types::coord::lemma_pow2_monotone(digits_val(z), 32);
        crate::types::coord::lemma_pow2_32();
    }
}

} // verus!
