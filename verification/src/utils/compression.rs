//! Compress and decompress tile payloads with gzip or brotli.
//!
//! The codecs themselves live in outside crates; each is reached through one
//! trusted wrapper whose contract names its result. Everything layered on
//! top — dispatch over [`TileCompression`], the round-trip guarantee — is
//! verified.

use vstd::prelude::*;

use crate::types::blob::Blob;
use crate::types::format::TileCompression;

use std::io::Write;

verus! {

/// The gzip encoding of a byte sequence, as flate2 computes it.
pub uninterp spec fn gzip_of(data: Seq<u8>) -> Seq<u8>;

/// What gzip decompression yields for a byte sequence: the decoded bytes, or
/// nothing when the input is not a well-formed gzip stream.
pub uninterp spec fn gunzip_of(data: Seq<u8>) -> Option<Seq<u8>>;

/// The brotli encoding of a byte sequence, as the brotli crate computes it.
pub uninterp spec fn brotli_of(data: Seq<u8>) -> Seq<u8>;

/// What brotli decompression yields for a byte sequence: the decoded bytes,
/// or nothing when the input is not a well-formed brotli stream.
pub uninterp spec fn unbrotli_of(data: Seq<u8>) -> Option<Seq<u8>>;

/// A decompression failed: the payload is not a valid stream of the given
/// compression.
#[derive(Clone, Copy, Debug, PartialEq, Eq, Structural)]
pub struct CodecError {
    pub compression: TileCompression,
}

/// Relies on flate2's `GzEncoder` writing to a `Vec`: encoding is a
/// deterministic function of the input bytes (the header's mtime is fixed at
/// zero), never fails, and gzip is lossless, so decompressing the result
/// gives the input back.
#[verifier::external_body]
fn gzip_compress_raw(data: &[u8]) -> (r: Vec<u8>)
    ensures
        r@ == gzip_of(data@),
        gunzip_of(r@) == Some(data@),
{
    let mut encoder = flate2::write::GzEncoder::new(Vec::new(), flate2::Compression::default());
    encoder.write_all(data).unwrap();
    encoder.finish().unwrap()
}

/// Relies on flate2's `GzDecoder` writing to a `Vec`: it decodes exactly the
/// well-formed gzip streams and errs on the rest.
#[verifier::external_body]
fn gzip_decompress_raw(data: &[u8]) -> (r: Result<Vec<u8>, CodecError>)
    ensures
        (r matches Ok(v)) <==> gunzip_of(data@) is Some,
        r matches Ok(v) ==> Some(v@) == gunzip_of(data@),
{
    let mut decoder = flate2::write::GzDecoder::new(Vec::new());
    match decoder.write_all(data) {
        Ok(()) => {},
        Err(_) => {
            return Err(CodecError { compression: TileCompression::Gzip });
        },
    }
    match decoder.finish() {
        Ok(v) => Ok(v),
        Err(_) => Err(CodecError { compression: TileCompression::Gzip }),
    }
}

/// Relies on the brotli crate's `BrotliCompress` with default parameters:
/// encoding is a deterministic function of the input bytes, never fails for
/// in-memory buffers, and brotli is lossless, so decompressing the result
/// gives the input back.
#[verifier::external_body]
fn brotli_compress_raw(data: &[u8]) -> (r: Vec<u8>)
    ensures
        r@ == brotli_of(data@),
        unbrotli_of(r@) == Some(data@),
{
    let mut out: Vec<u8> = Vec::new();
    let params = brotli::enc::BrotliEncoderParams::default();
    brotli::enc::BrotliCompress(&mut &data[..], &mut out, &params).unwrap();
    out
}

/// Relies on the brotli crate's `BrotliDecompress`: it decodes exactly the
/// well-formed brotli streams and errs on the rest.
#[verifier::external_body]
fn brotli_decompress_raw(data: &[u8]) -> (r: Result<Vec<u8>, CodecError>)
    ensures
        (r matches Ok(v)) <==> unbrotli_of(data@) is Some,
        r matches Ok(v) ==> Some(v@) == unbrotli_of(data@),
{
    let mut out: Vec<u8> = Vec::new();
    match brotli::BrotliDecompress(&mut &data[..], &mut out) {
        Ok(()) => Ok(out),
        Err(_) => Err(CodecError { compression: TileCompression::Brotli }),
    }
}

/// The bytes a payload carries after applying a wire compression.
pub open spec fn spec_compress(data: Seq<u8>, c: TileCompression) -> Seq<u8> {
    match c {
        TileCompression::Uncompressed => data,
        TileCompression::Gzip => gzip_of(data),
        TileCompression::Brotli => brotli_of(data),
    }
}

/// The bytes a payload decodes to under a wire compression, or nothing when
/// it is not a well-formed stream of that compression.
pub open spec fn spec_decompress(data: Seq<u8>, c: TileCompression) -> Option<Seq<u8>> {
    match c {
        TileCompression::Uncompressed => Some(data),
        TileCompression::Gzip => gunzip_of(data),
        TileCompression::Brotli => unbrotli_of(data),
    }
}

/// Compresses a payload with gzip.
pub fn compress_gzip(blob: Blob) -> (r: Blob)
    ensures
        r@ == gzip_of(blob@),
        gunzip_of(r@) == Some(blob@),
{
    Blob::from_vec(gzip_compress_raw(blob.as_slice()))
}

/// Decompresses a gzip payload; errs exactly on malformed streams.
pub fn decompress_gzip(blob: Blob) -> (r: Result<Blob, CodecError>)
    ensures
        (r matches Ok(b)) <==> gunzip_of(blob@) is Some,
        r matches Ok(b) ==> Some(b@) == gunzip_of(blob@),
{
    match gzip_decompress_raw(blob.as_slice()) {
        Ok(v) => Ok(Blob::from_vec(v)),
        Err(e) => Err(e),
    }
}

/// Compresses a payload with brotli.
pub fn compress_brotli(blob: Blob) -> (r: Blob)
    ensures
        r@ == brotli_of(blob@),
        unbrotli_of(r@) == Some(blob@),
{
    Blob::from_vec(brotli_compress_raw(blob.as_slice()))
}

/// Decompresses a brotli payload; errs exactly on malformed streams.
pub fn decompress_brotli(blob: Blob) -> (r: Result<Blob, CodecError>)
    ensures
        (r matches Ok(b)) <==> unbrotli_of(blob@) is Some,
        r matches Ok(b) ==> Some(b@) == unbrotli_of(blob@),
{
    match brotli_decompress_raw(blob.as_slice()) {
        Ok(v) => Ok(Blob::from_vec(v)),
        Err(e) => Err(e),
    }
}

/// Compresses a payload with the given wire compression. The second clause
/// is the round-trip guarantee: the result always decompresses back to the
/// input.
pub fn compress(blob: Blob, c: &TileCompression) -> (r: Blob)
    ensures
        r@ == spec_compress(blob@, *c),
        spec_decompress(r@, *c) == Some(blob@),
{
    match c {
        TileCompression::Uncompressed => blob,
        TileCompression::Gzip => compress_gzip(blob),
        TileCompression::Brotli => compress_brotli(blob),
    }
}

/// Decompresses a payload of the given wire compression; errs exactly on
/// payloads that are not well-formed streams of it.
pub fn decompress(blob: Blob, c: &TileCompression) -> (r: Result<Blob, CodecError>)
    ensures
        (r matches Ok(b)) <==> spec_decompress(blob@, *c) is Some,
        r matches Ok(b) ==> Some(b@) == spec_decompress(blob@, *c),
{
    match c {
        TileCompression::Uncompressed => Ok(blob),
        TileCompression::Gzip => decompress_gzip(blob),
        TileCompression::Brotli => decompress_brotli(blob),
    }
}

/// Moves a payload from one wire compression to another. Equal compressions
/// pass the payload through untouched; otherwise the payload is decompressed
/// and re-compressed, and errs exactly when it is not a well-formed stream
/// of the source compression.
pub fn recompress(blob: Blob, src: &TileCompression, dst: &TileCompression) -> (r: Result<
    Blob,
    CodecError,
>)
    ensures
        src == dst ==> (r matches Ok(b) && b@ == blob@),
        src != dst ==> {
            &&& (r matches Ok(b)) <==> spec_decompress(blob@, *src) is Some
            &&& r matches Ok(b) ==> Some(b@) == match spec_decompress(blob@, *src) {
                Some(d) => Some(spec_compress(d, *dst)),
                None => None::<Seq<u8>>,
            }
        },
{
    if src == dst {
        return Ok(blob);
    }
    let decompressed = decompress(blob, src)?;
    Ok(compress(decompressed, dst))
}

} // verus!
