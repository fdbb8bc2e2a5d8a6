//! An ordered pipeline of payload conversions — decompression, raster
//! format conversion, compression — applied blob-to-blob.

use vstd::prelude::*;

use crate::types::blob::Blob;
use crate::types::format::TileCompression;
use crate::types::format::TileFormat;
use crate::utils::compression::compress_brotli;
use crate::utils::compression::compress_gzip;
use crate::utils::compression::decompress_brotli;
use crate::utils::compression::decompress_gzip;
use crate::utils::compression::brotli_of;
use crate::utils::compression::gunzip_of;
use crate::utils::compression::gzip_of;
use crate::utils::compression::unbrotli_of;
use crate::utils::compression::CodecError;
use crate::utils::image::jpg_to_png;
use crate::utils::image::jpg_to_png_of;
use crate::utils::image::jpg_to_webp;
use crate::utils::image::jpg_to_webp_of;
use crate::utils::image::png_to_jpg;
use crate::utils::image::png_to_jpg_of;
use crate::utils::image::png_to_webp;
use crate::utils::image::png_to_webp_of;
use crate::utils::image::webp_to_jpg;
use crate::utils::image::webp_to_jpg_of;
use crate::utils::image::webp_to_png;
use crate::utils::image::webp_to_png_of;
use crate::utils::image::ImageCodecError;

verus! {

/// One pure payload conversion.
#[derive(Clone, Copy, Debug, PartialEq, Eq, Structural)]
pub enum ConvStep {
    DecompressGzip,
    DecompressBrotli,
    CompressGzip,
    CompressBrotli,
    PngToJpg,
    PngToWebp,
    JpgToPng,
    JpgToWebp,
    WebpToPng,
    WebpToJpg,
}

/// What one step yields on a payload; decompression and image steps fail
/// on malformed payloads.
pub open spec fn conv_step_apply(s: ConvStep, data: Seq<u8>) -> Option<Seq<u8>> {
    match s {
        ConvStep::DecompressGzip => gunzip_of(data),
        ConvStep::DecompressBrotli => unbrotli_of(data),
        ConvStep::CompressGzip => Some(gzip_of(data)),
        ConvStep::CompressBrotli => Some(brotli_of(data)),
        ConvStep::PngToJpg => png_to_jpg_of(data),
        ConvStep::PngToWebp => png_to_webp_of(data),
        ConvStep::JpgToPng => jpg_to_png_of(data),
        ConvStep::JpgToWebp => jpg_to_webp_of(data),
        ConvStep::WebpToPng => webp_to_png_of(data),
        ConvStep::WebpToJpg => webp_to_jpg_of(data),
    }
}

/// What a pipeline of steps yields on a payload, left to right; the first
/// failing step fails the whole run.
pub open spec fn conv_apply(steps: Seq<ConvStep>, data: Seq<u8>) -> Option<Seq<u8>>
    decreases steps.len(),
{
    if steps.len() == 0 {
        Some(data)
    } else {
        match conv_step_apply(steps[0], data) {
            Some(next) => conv_apply(steps.subrange(1, steps.len() as int), next),
            None => None,
        }
    }
}

/// The steps that decompress from a wire compression.
pub open spec fn spec_decompressor_steps(c: TileCompression) -> Seq<ConvStep> {
    match c {
        TileCompression::Uncompressed => Seq::empty(),
        TileCompression::Gzip => seq![ConvStep::DecompressGzip],
        TileCompression::Brotli => seq![ConvStep::DecompressBrotli],
    }
}

/// The steps that compress to a wire compression.
pub open spec fn spec_compressor_steps(c: TileCompression) -> Seq<ConvStep> {
    match c {
        TileCompression::Uncompressed => Seq::empty(),
        TileCompression::Gzip => seq![ConvStep::CompressGzip],
        TileCompression::Brotli => seq![ConvStep::CompressBrotli],
    }
}

/// The step that changes a payload's format: none for an unchanged
/// format, one raster conversion for the supported pairs, and nothing for
/// the pairs that have no conversion (everything involving the
/// non-raster formats, such as raster to vector).
pub open spec fn spec_format_steps(src: TileFormat, dst: TileFormat) -> Option<Seq<ConvStep>> {
    if src == dst {
        Some(Seq::empty())
    } else {
        match (src, dst) {
            (TileFormat::PNG, TileFormat::JPG) => Some(seq![ConvStep::PngToJpg]),
            (TileFormat::PNG, TileFormat::WEBP) => Some(seq![ConvStep::PngToWebp]),
            (TileFormat::JPG, TileFormat::PNG) => Some(seq![ConvStep::JpgToPng]),
            (TileFormat::JPG, TileFormat::WEBP) => Some(seq![ConvStep::JpgToWebp]),
            (TileFormat::WEBP, TileFormat::PNG) => Some(seq![ConvStep::WebpToPng]),
            (TileFormat::WEBP, TileFormat::JPG) => Some(seq![ConvStep::WebpToJpg]),
            _ => None,
        }
    }
}

/// The steps that move a tile between formats and wire compressions: the
/// format conversion alone when the compression stays and recompression
/// is not forced, else decompress, convert, compress.
pub open spec fn spec_recompressor_steps(
    src_form: TileFormat,
    src_comp: TileCompression,
    dst_form: TileFormat,
    dst_comp: TileCompression,
    force: bool,
) -> Option<Seq<ConvStep>> {
    match spec_format_steps(src_form, dst_form) {
        None => None,
        Some(fs) => Some(
            if src_comp == dst_comp && !force {
                fs
            } else {
                spec_decompressor_steps(src_comp) + fs + spec_compressor_steps(dst_comp)
            },
        ),
    }
}

/// A converter build was rejected: the format pair has no conversion.
#[derive(Clone, Copy, Debug, PartialEq, Eq, Structural)]
pub struct UnsupportedFormatConversion {
    pub src: TileFormat,
    pub dst: TileFormat,
}

/// A conversion pipeline failed on a payload.
#[derive(Clone, Copy, Debug, PartialEq, Eq, Structural)]
pub enum ConvertError {
    Codec(CodecError),
    Image(ImageCodecError),
}

/// An ordered list of pure payload conversions, applied left to right by
/// [`DataConverter::run`].
#[derive(Debug)]
pub struct DataConverter {
    pipeline: Vec<ConvStep>,
}

impl View for DataConverter {
    type V = Seq<ConvStep>;

    closed spec fn view(&self) -> Seq<ConvStep> {
        self.pipeline@
    }
}

impl DataConverter {
    fn empty() -> (r: DataConverter)
        ensures
            r@ == Seq::<ConvStep>::empty(),
    {
        DataConverter { pipeline: Vec::new() }
    }

    fn push(&mut self, s: ConvStep)
        ensures
            final(self)@ == old(self)@.push(s),
    {
        self.pipeline.push(s);
    }

    /// The pipeline that decompresses payloads arriving with the given wire
    /// compression.
    pub fn new_decompressor(src_comp: &TileCompression) -> (r: DataConverter)
        ensures
            r@ == spec_decompressor_steps(*src_comp),
    {
        let mut converter = DataConverter::empty();
        match src_comp {
            TileCompression::Uncompressed => {},
            TileCompression::Gzip => converter.push(ConvStep::DecompressGzip),
            TileCompression::Brotli => converter.push(ConvStep::DecompressBrotli),
        }
        proof {
            assert(converter@ =~= spec_decompressor_steps(*src_comp));
        }
        converter
    }

    /// The pipeline that compresses payloads to the given wire compression.
    pub fn new_compressor(dst_comp: &TileCompression) -> (r: DataConverter)
        ensures
            r@ == spec_compressor_steps(*dst_comp),
    {
        let mut converter = DataConverter::empty();
        match dst_comp {
            TileCompression::Uncompressed => {},
            TileCompression::Gzip => converter.push(ConvStep::CompressGzip),
            TileCompression::Brotli => converter.push(ConvStep::CompressBrotli),
        }
        proof {
            assert(converter@ =~= spec_compressor_steps(*dst_comp));
        }
        converter
    }

    /// The step that converts between two formats, where a conversion
    /// exists.
    fn format_step(src_form: &TileFormat, dst_form: &TileFormat) -> (r: Option<ConvStep>)
        requires
            src_form != dst_form,
        ensures
            match spec_format_steps(*src_form, *dst_form) {
                Some(fs) => (r matches Some(s) && fs == seq![s]),
                None => r is None,
            },
    {
        match (src_form, dst_form) {
            (TileFormat::PNG, TileFormat::JPG) => Some(ConvStep::PngToJpg),
            (TileFormat::PNG, TileFormat::WEBP) => Some(ConvStep::PngToWebp),
            (TileFormat::JPG, TileFormat::PNG) => Some(ConvStep::JpgToPng),
            (TileFormat::JPG, TileFormat::WEBP) => Some(ConvStep::JpgToWebp),
            (TileFormat::WEBP, TileFormat::PNG) => Some(ConvStep::WebpToPng),
            (TileFormat::WEBP, TileFormat::JPG) => Some(ConvStep::WebpToJpg),
            _ => None,
        }
    }

    /// The pipeline that moves tiles between formats and wire
    /// compressions: format pairs without a conversion are rejected when
    /// the pipeline is built, not per tile.
    pub fn new_tile_recompressor(
        src_form: &TileFormat,
        src_comp: &TileCompression,
        dst_form: &TileFormat,
        dst_comp: &TileCompression,
        force_recompress: bool,
    ) -> (r: Result<DataConverter, UnsupportedFormatConversion>)
        ensures
            match spec_recompressor_steps(
                *src_form,
                *src_comp,
                *dst_form,
                *dst_comp,
                force_recompress,
            ) {
                Some(steps) => (r matches Ok(c) && c@ == steps),
                None => r == Err::<DataConverter, UnsupportedFormatConversion>(
                    UnsupportedFormatConversion { src: *src_form, dst: *dst_form },
                ),
            },
    {
        let fmt_step: Option<ConvStep> = if src_form == dst_form {
            None
        } else {
            match Self::format_step(src_form, dst_form) {
                Some(s) => Some(s),
                None => {
                    return Err(UnsupportedFormatConversion { src: *src_form, dst: *dst_form });
                },
            }
        };
        let mut converter = DataConverter::empty();
        if src_comp == dst_comp && !force_recompress {
            match fmt_step {
                Some(s) => converter.push(s),
                None => {},
            }
            proof {
                assert(converter@ =~= spec_recompressor_steps(
                    *src_form,
                    *src_comp,
                    *dst_form,
                    *dst_comp,
                    force_recompress,
                ).unwrap());
            }
            return Ok(converter);
        }
        match src_comp {
            TileCompression::Uncompressed => {},
            TileCompression::Gzip => converter.push(ConvStep::DecompressGzip),
            TileCompression::Brotli => converter.push(ConvStep::DecompressBrotli),
        }
        match fmt_step {
            Some(s) => converter.push(s),
            None => {},
        }
        match dst_comp {
            TileCompression::Uncompressed => {},
            TileCompression::Gzip => converter.push(ConvStep::CompressGzip),
            TileCompression::Brotli => converter.push(ConvStep::CompressBrotli),
        }
        proof {
            assert(converter@ =~= spec_recompressor_steps(
                *src_form,
                *src_comp,
                *dst_form,
                *dst_comp,
                force_recompress,
            ).unwrap());
        }
        Ok(converter)
    }

    /// Feeds a payload through the pipeline, left to right. Errs exactly
    /// when some step meets a payload that is not a well-formed stream or
    /// image of the expected kind.
    pub fn run(&self, data: Blob) -> (r: Result<Blob, ConvertError>)
        ensures
            (r matches Ok(b)) <==> conv_apply(self@, data@) is Some,
            r matches Ok(b) ==> Some(b@) == conv_apply(self@, data@),
    {
        let mut current = data;
        let mut i: usize = 0;
        let n = self.pipeline.len();
        proof {
            assert(self@.subrange(0, n as int) =~= self@);
        }
        while i < n
            invariant
                n == self@.len(),
                0 <= i <= n,
                conv_apply(self@, data@) == conv_apply(
                    self@.subrange(i as int, n as int),
                    current@,
                ),
            decreases n - i,
        {
            let ghost pre = self@.subrange(i as int, n as int);
            proof {
                assert(pre[0] == self@[i as int]);
                assert(pre.subrange(1, pre.len() as int) =~= self@.subrange(
                    i as int + 1,
                    n as int,
                ));
            }
            let step = self.pipeline[i];
            let next = match step {
                ConvStep::DecompressGzip => match decompress_gzip(current) {
                    Ok(b) => b,
                    Err(e) => {
                        return Err(ConvertError::Codec(e));
                    },
                },
                ConvStep::DecompressBrotli => match decompress_brotli(current) {
                    Ok(b) => b,
                    Err(e) => {
                        return Err(ConvertError::Codec(e));
                    },
                },
                ConvStep::CompressGzip => compress_gzip(current),
                ConvStep::CompressBrotli => compress_brotli(current),
                ConvStep::PngToJpg => match png_to_jpg(current.as_slice()) {
                    Ok(v) => Blob::from_vec(v),
                    Err(e) => {
                        return Err(ConvertError::Image(e));
                    },
                },
                ConvStep::PngToWebp => match png_to_webp(current.as_slice()) {
                    Ok(v) => Blob::from_vec(v),
                    Err(e) => {
                        return Err(ConvertError::Image(e));
                    },
                },
                ConvStep::JpgToPng => match jpg_to_png(current.as_slice()) {
                    Ok(v) => Blob::from_vec(v),
                    Err(e) => {
                        return Err(ConvertError::Image(e));
                    },
                },
                ConvStep::JpgToWebp => match jpg_to_webp(current.as_slice()) {
                    Ok(v) => Blob::from_vec(v),
                    Err(e) => {
                        return Err(ConvertError::Image(e));
                    },
                },
                ConvStep::WebpToPng => match webp_to_png(current.as_slice()) {
                    Ok(v) => Blob::from_vec(v),
                    Err(e) => {
                        return Err(ConvertError::Image(e));
                    },
                },
                ConvStep::WebpToJpg => match webp_to_jpg(current.as_slice()) {
                    Ok(v) => Blob::from_vec(v),
                    Err(e) => {
                        return Err(ConvertError::Image(e));
                    },
                },
            };
            current = next;
            i = i + 1;
        }
        proof {
            assert(self@.subrange(i as int, n as int) =~= Seq::<ConvStep>::empty());
        }
        Ok(current)
    }
}

/// An empty recompressor is the identity: moving a tile between equal
/// format and compression, without forcing, leaves every payload unchanged.
pub proof fn lemma_recompressor_identity(fmt: TileFormat, comp: TileCompression, data: Seq<u8>)
    ensures
        spec_recompressor_steps(fmt, comp, fmt, comp, false) == Some(Seq::<ConvStep>::empty()),
        conv_apply(spec_recompressor_steps(fmt, comp, fmt, comp, false).unwrap(), data) == Some(
            data,
        ),
{
}

} // verus!
