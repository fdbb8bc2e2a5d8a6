//! Codecs and the blob conversion pipeline on concrete payloads.

use versatiles::compress;
use versatiles::decompress;
use versatiles::recompress;
use versatiles::Blob;
use versatiles::DataConverter;
use versatiles::TileCompression;
use versatiles::TileFormat;

fn payload() -> Blob {
    Blob::from_vec(b"the quick brown fox jumps over the lazy dog, twice over".to_vec())
}

#[test]
fn decompress_undoes_compress_for_every_compression() {
    for c in [
        TileCompression::Uncompressed,
        TileCompression::Gzip,
        TileCompression::Brotli,
    ] {
        let original = payload();
        let packed = compress(payload(), &c);
        let unpacked = decompress(packed, &c).unwrap();
        assert_eq!(unpacked.as_slice(), original.as_slice());
    }
}

#[test]
fn gzip_actually_shrinks_repetitive_data() {
    let data = Blob::from_vec(vec![7u8; 4096]);
    let packed = compress(data, &TileCompression::Gzip);
    assert!(packed.len() < 4096);
    assert_ne!(packed.as_slice(), &[7u8; 4096]);
}

#[test]
fn decompress_rejects_garbage() {
    let garbage = Blob::from_vec(vec![1, 2, 3, 4, 5]);
    assert!(decompress(garbage, &TileCompression::Gzip).is_err());
    let garbage = Blob::from_vec(vec![1, 2, 3, 4, 5]);
    assert!(decompress(garbage, &TileCompression::Brotli).is_err());
}

#[test]
fn recompress_moves_between_compressions() {
    let packed = compress(payload(), &TileCompression::Gzip);
    let moved = recompress(packed, &TileCompression::Gzip, &TileCompression::Brotli).unwrap();
    let unpacked = decompress(moved, &TileCompression::Brotli).unwrap();
    assert_eq!(unpacked.as_slice(), payload().as_slice());
}

#[test]
fn recompressor_with_equal_ends_is_identity() {
    for c in [
        TileCompression::Uncompressed,
        TileCompression::Gzip,
        TileCompression::Brotli,
    ] {
        let conv = DataConverter::new_tile_recompressor(
            &TileFormat::PBF,
            &c,
            &TileFormat::PBF,
            &c,
            false,
        )
        .unwrap();
        let out = conv.run(payload()).unwrap();
        assert_eq!(out.as_slice(), payload().as_slice());
    }
}

#[test]
fn recompressor_rejects_format_changes() {
    let r = DataConverter::new_tile_recompressor(
        &TileFormat::PNG,
        &TileCompression::Uncompressed,
        &TileFormat::PBF,
        &TileCompression::Uncompressed,
        false,
    );
    assert!(r.is_err());
}

#[test]
fn forced_recompression_round_trips() {
    let conv = DataConverter::new_tile_recompressor(
        &TileFormat::PBF,
        &TileCompression::Gzip,
        &TileFormat::PBF,
        &TileCompression::Gzip,
        true,
    )
    .unwrap();
    let packed = compress(payload(), &TileCompression::Gzip);
    let out = conv.run(packed).unwrap();
    let unpacked = decompress(out, &TileCompression::Gzip).unwrap();
    assert_eq!(unpacked.as_slice(), payload().as_slice());
}

#[test]
fn decompressor_of_reader_parameters_unpacks() {
    let params = versatiles::TileReaderParameters::new(
        TileFormat::PBF,
        TileCompression::Gzip,
        versatiles::TileBBoxPyramide::new_empty(),
    );
    assert_eq!(*params.get_tile_format(), TileFormat::PBF);
    assert_eq!(*params.get_tile_precompression(), TileCompression::Gzip);
    let packed = compress(payload(), &TileCompression::Gzip);
    let out = params.get_decompressor().run(packed).unwrap();
    assert_eq!(out.as_slice(), payload().as_slice());
}

#[test]
fn raster_conversions_re_encode_payloads() {
    let pixel = image::RgbImage::from_pixel(1, 1, image::Rgb([200, 30, 30]));
    let mut cursor = std::io::Cursor::new(Vec::new());
    image::DynamicImage::ImageRgb8(pixel)
        .write_to(&mut cursor, image::ImageFormat::Png)
        .unwrap();
    let png_bytes = cursor.into_inner();

    let to_jpg = DataConverter::new_tile_recompressor(
        &TileFormat::PNG,
        &TileCompression::Uncompressed,
        &TileFormat::JPG,
        &TileCompression::Uncompressed,
        false,
    )
    .unwrap();
    let jpg = to_jpg.run(Blob::from_vec(png_bytes.clone())).unwrap();
    assert_ne!(jpg.as_slice(), png_bytes.as_slice());
    assert_eq!(&jpg.as_slice()[..2], &[0xFF, 0xD8]);

    let back_to_png = DataConverter::new_tile_recompressor(
        &TileFormat::JPG,
        &TileCompression::Uncompressed,
        &TileFormat::PNG,
        &TileCompression::Uncompressed,
        false,
    )
    .unwrap();
    let png_again = back_to_png
        .run(Blob::from_vec(jpg.as_slice().to_vec()))
        .unwrap();
    assert_eq!(&png_again.as_slice()[..4], &[0x89, 0x50, 0x4E, 0x47]);

    let to_webp = DataConverter::new_tile_recompressor(
        &TileFormat::PNG,
        &TileCompression::Gzip,
        &TileFormat::WEBP,
        &TileCompression::Uncompressed,
        false,
    )
    .unwrap();
    let packed = compress(Blob::from_vec(png_bytes), &TileCompression::Gzip);
    let webp = to_webp.run(packed).unwrap();
    assert_eq!(&webp.as_slice()[..4], b"RIFF");
}

#[test]
fn raster_conversion_rejects_malformed_images() {
    let to_jpg = DataConverter::new_tile_recompressor(
        &TileFormat::PNG,
        &TileCompression::Uncompressed,
        &TileFormat::JPG,
        &TileCompression::Uncompressed,
        false,
    )
    .unwrap();
    assert!(to_jpg.run(Blob::from_vec(vec![1, 2, 3, 4])).is_err());
}
