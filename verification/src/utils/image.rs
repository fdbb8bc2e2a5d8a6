//! Raster format conversions between PNG, JPEG and WebP payloads.
//!
//! The pixel codecs live in the image crate; each conversion pair is
//! reached through one trusted wrapper whose result is named, since a
//! pixel codec's output takes pages to state but is a function of the
//! input bytes alone for the locked crate version. The conversion
//! pipeline in [`crate::utils::convert`] is specified over these names.

use vstd::prelude::*;

use std::io::Cursor;

use crate::types::format::TileFormat;

verus! {

/// What converting a PNG payload to JPEG yields: the re-encoded bytes, or
/// nothing when the input is not a well-formed PNG image.
pub uninterp spec fn png_to_jpg_of(data: Seq<u8>) -> Option<Seq<u8>>;

/// What converting a PNG payload to WebP yields.
pub uninterp spec fn png_to_webp_of(data: Seq<u8>) -> Option<Seq<u8>>;

/// What converting a JPEG payload to PNG yields.
pub uninterp spec fn jpg_to_png_of(data: Seq<u8>) -> Option<Seq<u8>>;

/// What converting a JPEG payload to WebP yields.
pub uninterp spec fn jpg_to_webp_of(data: Seq<u8>) -> Option<Seq<u8>>;

/// What converting a WebP payload to PNG yields.
pub uninterp spec fn webp_to_png_of(data: Seq<u8>) -> Option<Seq<u8>>;

/// What converting a WebP payload to JPEG yields.
pub uninterp spec fn webp_to_jpg_of(data: Seq<u8>) -> Option<Seq<u8>>;

/// An image conversion failed: the payload is not a well-formed image of
/// the source format.
#[derive(Clone, Copy, Debug, PartialEq, Eq, Structural)]
pub struct ImageCodecError {
    pub src: TileFormat,
    pub dst: TileFormat,
}

/// Relies on the image crate's PNG decoder and JPEG encoder: decoding
/// succeeds exactly on well-formed PNG payloads, and both directions are
/// deterministic functions of the bytes for the locked version.
#[verifier::external_body]
pub fn png_to_jpg(data: &[u8]) -> (r: Result<Vec<u8>, ImageCodecError>)
    ensures
        (r matches Ok(v)) <==> png_to_jpg_of(data@) is Some,
        r matches Ok(v) ==> Some(v@) == png_to_jpg_of(data@),
{
    let err = ImageCodecError { src: TileFormat::PNG, dst: TileFormat::JPG };
    let img = match image::load_from_memory_with_format(data, image::ImageFormat::Png) {
        Ok(i) => i,
        Err(_) => {
            return Err(err);
        },
    };
    let mut out = Cursor::new(Vec::new());
    match img.to_rgb8().write_to(&mut out, image::ImageFormat::Jpeg) {
        Ok(()) => Ok(out.into_inner()),
        Err(_) => Err(err),
    }
}

/// Relies on the image crate's PNG decoder and (lossless) WebP encoder.
#[verifier::external_body]
pub fn png_to_webp(data: &[u8]) -> (r: Result<Vec<u8>, ImageCodecError>)
    ensures
        (r matches Ok(v)) <==> png_to_webp_of(data@) is Some,
        r matches Ok(v) ==> Some(v@) == png_to_webp_of(data@),
{
    let err = ImageCodecError { src: TileFormat::PNG, dst: TileFormat::WEBP };
    let img = match image::load_from_memory_with_format(data, image::ImageFormat::Png) {
        Ok(i) => i,
        Err(_) => {
            return Err(err);
        },
    };
    let mut out = Cursor::new(Vec::new());
    match img.write_to(&mut out, image::ImageFormat::WebP) {
        Ok(()) => Ok(out.into_inner()),
        Err(_) => Err(err),
    }
}

/// Relies on the image crate's JPEG decoder and PNG encoder.
#[verifier::external_body]
pub fn jpg_to_png(data: &[u8]) -> (r: Result<Vec<u8>, ImageCodecError>)
    ensures
        (r matches Ok(v)) <==> jpg_to_png_of(data@) is Some,
        r matches Ok(v) ==> Some(v@) == jpg_to_png_of(data@),
{
    let err = ImageCodecError { src: TileFormat::JPG, dst: TileFormat::PNG };
    let img = match image::load_from_memory_with_format(data, image::ImageFormat::Jpeg) {
        Ok(i) => i,
        Err(_) => {
            return Err(err);
        },
    };
    let mut out = Cursor::new(Vec::new());
    match img.write_to(&mut out, image::ImageFormat::Png) {
        Ok(()) => Ok(out.into_inner()),
        Err(_) => Err(err),
    }
}

/// Relies on the image crate's JPEG decoder and (lossless) WebP encoder.
#[verifier::external_body]
pub fn jpg_to_webp(data: &[u8]) -> (r: Result<Vec<u8>, ImageCodecError>)
    ensures
        (r matches Ok(v)) <==> jpg_to_webp_of(data@) is Some,
        r matches Ok(v) ==> Some(v@) == jpg_to_webp_of(data@),
{
    let err = ImageCodecError { src: TileFormat::JPG, dst: TileFormat::WEBP };
    let img = match image::load_from_memory_with_format(data, image::ImageFormat::Jpeg) {
        Ok(i) => i,
        Err(_) => {
            return Err(err);
        },
    };
    let mut out = Cursor::new(Vec::new());
    match img.write_to(&mut out, image::ImageFormat::WebP) {
        Ok(()) => Ok(out.into_inner()),
        Err(_) => Err(err),
    }
}

/// Relies on the image crate's WebP decoder and PNG encoder.
#[verifier::external_body]
pub fn webp_to_png(data: &[u8]) -> (r: Result<Vec<u8>, ImageCodecError>)
    ensures
        (r matches Ok(v)) <==> webp_to_png_of(data@) is Some,
        r matches Ok(v) ==> Some(v@) == webp_to_png_of(data@),
{
    let err = ImageCodecError { src: TileFormat::WEBP, dst: TileFormat::PNG };
    let img = match image::load_from_memory_with_format(data, image::ImageFormat::WebP) {
        Ok(i) => i,
        Err(_) => {
            return Err(err);
        },
    };
    let mut out = Cursor::new(Vec::new());
    match img.write_to(&mut out, image::ImageFormat::Png) {
        Ok(()) => Ok(out.into_inner()),
        Err(_) => Err(err),
    }
}

/// Relies on the image crate's WebP decoder and JPEG encoder.
#[verifier::external_body]
pub fn webp_to_jpg(data: &[u8]) -> (r: Result<Vec<u8>, ImageCodecError>)
    ensures
        (r matches Ok(v)) <==> webp_to_jpg_of(data@) is Some,
        r matches Ok(v) ==> Some(v@) == webp_to_jpg_of(data@),
{
    let err = ImageCodecError { src: TileFormat::WEBP, dst: TileFormat::JPG };
    let img = match image::load_from_memory_with_format(data, image::ImageFormat::WebP) {
        Ok(i) => i,
        Err(_) => {
            return Err(err);
        },
    };
    let mut out = Cursor::new(Vec::new());
    match img.to_rgb8().write_to(&mut out, image::ImageFormat::Jpeg) {
        Ok(()) => Ok(out.into_inner()),
        Err(_) => Err(err),
    }
}

} // verus!
