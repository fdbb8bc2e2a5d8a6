//! Pipelines built from documents: reads, overlays, and their semantics.

use versatiles::Blob;
use versatiles::MemTileSource;
use versatiles::PipelineReader;
use versatiles::PipelineResources;
use versatiles::TileBBox;
use versatiles::TileBBoxPyramide;
use versatiles::TileCompression;
use versatiles::TileCoord3;
use versatiles::TileFormat;

fn source_with_tile(level: u64, x: u32, y: u32, bytes: Vec<u8>, name: &str) -> MemTileSource {
    let mut pyramid = TileBBoxPyramide::new_empty();
    pyramid.include_tile(level, x as u64, y as u64);
    let coord = TileCoord3::new(x, y, level as u8).unwrap();
    MemTileSource::new(
        TileFormat::PBF,
        TileCompression::Uncompressed,
        pyramid,
        name.to_string(),
        None,
        vec![(coord, Blob::from_vec(bytes))],
    )
    .unwrap()
}

fn resources_ab() -> PipelineResources {
    PipelineResources {
        readers: vec![
            (
                "a.mbtiles".to_string(),
                source_with_tile(5, 10, 10, vec![0xAA], "a.mbtiles"),
            ),
            (
                "b.mbtiles".to_string(),
                source_with_tile(5, 10, 10, vec![0xBB], "b.mbtiles"),
            ),
        ],
        tables: vec![],
    }
}

#[test]
fn overlay_prefers_the_first_source() {
    let mut res = resources_ab();
    let vdl = "overlay_tiles [ read filename=\"a.mbtiles\", read filename=\"b.mbtiles\" ]";
    let reader = PipelineReader::open_str(vdl, "overlay", &mut res).unwrap();
    let coord = TileCoord3::new(10, 10, 5).unwrap();
    let tile = reader.get_tile_data(&coord).unwrap().unwrap();
    assert_eq!(tile.as_slice(), &[0xAA]);
}

#[test]
fn overlay_pyramid_is_the_union_of_the_sources() {
    let mut res = PipelineResources {
        readers: vec![
            (
                "a.mbtiles".to_string(),
                source_with_tile(5, 10, 10, vec![0xAA], "a.mbtiles"),
            ),
            (
                "b.mbtiles".to_string(),
                source_with_tile(5, 12, 13, vec![0xBB], "b.mbtiles"),
            ),
        ],
        tables: vec![],
    };
    let vdl = "overlay_tiles [ read filename=\"a.mbtiles\", read filename=\"b.mbtiles\" ]";
    let reader = PipelineReader::open_str(vdl, "overlay", &mut res).unwrap();
    let level = reader.get_parameters().get_level_bbox().get_level_bbox(5);
    assert_eq!(*level, TileBBox::new(5, 10, 10, 12, 13).unwrap());
}

#[test]
fn overlay_falls_back_to_later_sources() {
    let mut res = PipelineResources {
        readers: vec![
            (
                "a.mbtiles".to_string(),
                source_with_tile(5, 10, 10, vec![0xAA], "a.mbtiles"),
            ),
            (
                "b.mbtiles".to_string(),
                source_with_tile(5, 12, 13, vec![0xBB], "b.mbtiles"),
            ),
        ],
        tables: vec![],
    };
    let vdl = "overlay_tiles [ read filename=\"a.mbtiles\", read filename=\"b.mbtiles\" ]";
    let reader = PipelineReader::open_str(vdl, "overlay", &mut res).unwrap();
    let coord = TileCoord3::new(12, 13, 5).unwrap();
    let tile = reader.get_tile_data(&coord).unwrap().unwrap();
    assert_eq!(tile.as_slice(), &[0xBB]);
}

#[test]
fn tile_outside_the_pyramid_is_absent() {
    let mut res = resources_ab();
    let reader =
        PipelineReader::open_str("read filename=\"a.mbtiles\"", "plain", &mut res).unwrap();
    let inside = TileCoord3::new(10, 10, 5).unwrap();
    assert!(reader.get_tile_data(&inside).unwrap().is_some());
    let outside = TileCoord3::new(0, 0, 14).unwrap();
    assert!(reader.get_tile_data(&outside).unwrap().is_none());
}

#[test]
fn read_reader_advertises_the_source_parameters() {
    let mut res = resources_ab();
    let reader =
        PipelineReader::open_str("read filename=\"a.mbtiles\"", "plain", &mut res).unwrap();
    assert_eq!(reader.get_container_name(), "pipeline");
    assert_eq!(reader.get_name(), "plain");
    assert_eq!(*reader.get_parameters().get_tile_format(), TileFormat::PBF);
    assert_eq!(
        *reader.get_parameters().get_tile_precompression(),
        TileCompression::Uncompressed
    );
}

#[test]
fn pipeline_compression_cannot_be_overridden() {
    let mut res = resources_ab();
    let mut reader =
        PipelineReader::open_str("read filename=\"a.mbtiles\"", "plain", &mut res).unwrap();
    assert!(reader.override_compression(TileCompression::Brotli).is_err());
}

#[test]
fn unknown_file_and_bad_documents_are_rejected() {
    let mut res = resources_ab();
    assert!(PipelineReader::open_str("read filename=\"zz.mbtiles\"", "x", &mut res).is_err());
    let mut res = resources_ab();
    assert!(PipelineReader::open_str("read filename=\"a.mbtiles\" ] trailing", "x", &mut res)
        .is_err());
    let mut res = resources_ab();
    assert!(PipelineReader::open_str("dance filename=\"a.mbtiles\"", "x", &mut res).is_err());
}

#[test]
fn bbox_stream_lists_the_covered_tiles() {
    let mut res = resources_ab();
    let reader =
        PipelineReader::open_str("read filename=\"a.mbtiles\"", "plain", &mut res).unwrap();
    let bbox = TileBBox::new(5, 0, 0, 31, 31).unwrap();
    let items = reader.get_bbox_tile_stream(&bbox).collect();
    assert_eq!(items.len(), 1);
    assert_eq!(items[0].0, TileCoord3::new(10, 10, 5).unwrap());
    assert_eq!(items[0].1.as_slice(), &[0xAA]);
}

#[test]
fn overlay_stream_recompresses_to_the_common_compression() {
    let mut pyramid = TileBBoxPyramide::new_empty();
    pyramid.include_tile(5, 10, 10);
    let coord = TileCoord3::new(10, 10, 5).unwrap();
    let gz_tile = versatiles::compress(Blob::from_vec(vec![0xCC]), &TileCompression::Gzip);
    let gz_source = MemTileSource::new(
        TileFormat::PBF,
        TileCompression::Gzip,
        pyramid,
        "gz.mbtiles".to_string(),
        None,
        vec![(coord, gz_tile)],
    )
    .unwrap();
    let mut res = PipelineResources {
        readers: vec![
            ("gz.mbtiles".to_string(), gz_source),
            (
                "plain.mbtiles".to_string(),
                source_with_tile(5, 12, 13, vec![0xDD], "plain.mbtiles"),
            ),
        ],
        tables: vec![],
    };
    let vdl = "overlay_tiles [ read filename=\"gz.mbtiles\", read filename=\"plain.mbtiles\" ]";
    let reader = PipelineReader::open_str(vdl, "overlay", &mut res).unwrap();
    // Mixed compressions: the overlay serves uncompressed tiles.
    assert_eq!(
        *reader.get_parameters().get_tile_precompression(),
        TileCompression::Uncompressed
    );
    let tile = reader
        .get_tile_data(&TileCoord3::new(10, 10, 5).unwrap())
        .unwrap()
        .unwrap();
    assert_eq!(tile.as_slice(), &[0xCC]);
}
