//! The HTTP tile source: routing, negotiation, and the directory plan.

use versatiles::decompress;
use versatiles::AcceptEncoding;
use versatiles::Blob;
use versatiles::DirectoryTilesConverter;
use versatiles::Folder;
use versatiles::MemTileSource;
use versatiles::MockTilesWriter;
use versatiles::MockTilesWriterProfile;
use versatiles::PipelineReader;
use versatiles::PipelineResources;
use versatiles::TileBBoxPyramide;
use versatiles::TileCompression;
use versatiles::TileContainer;
use versatiles::TileCoord3;
use versatiles::TileFormat;
use versatiles::TilesConverterConfig;

fn payload() -> Vec<u8> {
    b"a protobuf tile payload, allegedly".to_vec()
}

fn gzip_reader() -> PipelineReader {
    let mut pyramid = TileBBoxPyramide::new_empty();
    pyramid.include_tile(14, 8800, 5377);
    let coord = TileCoord3::new(8800, 5377, 14).unwrap();
    let tile = versatiles::compress(Blob::from_vec(payload()), &TileCompression::Gzip);
    let source = MemTileSource::new(
        TileFormat::PBF,
        TileCompression::Gzip,
        pyramid,
        "berlin.mbtiles".to_string(),
        Some(Blob::from_vec(b"{\"name\":\"berlin\"}".to_vec())),
        vec![(coord, tile)],
    )
    .unwrap();
    let mut res = PipelineResources { readers: vec![("berlin.mbtiles".to_string(), source)], tables: vec![] };
    PipelineReader::open_str("read filename=\"berlin.mbtiles\"", "berlin", &mut res).unwrap()
}

fn path(parts: &[&str]) -> Vec<String> {
    parts.iter().map(|s| s.to_string()).collect()
}

#[test]
fn tile_goes_out_as_stored_when_the_client_accepts_gzip() {
    let container = TileContainer::from(gzip_reader());
    let accept = AcceptEncoding { gzip: true, brotli: false };
    let resp = container
        .get_data(&path(&["14", "5377", "8800"]), &accept)
        .unwrap()
        .unwrap();
    assert_eq!(resp.encoding, TileCompression::Gzip);
    assert_eq!(resp.mime, "application/x-protobuf");
    let unpacked = decompress(resp.body, &TileCompression::Gzip).unwrap();
    assert_eq!(unpacked.as_slice(), payload().as_slice());
}

#[test]
fn tile_is_decompressed_when_the_client_accepts_nothing() {
    let container = TileContainer::from(gzip_reader());
    let accept = AcceptEncoding { gzip: false, brotli: false };
    let resp = container
        .get_data(&path(&["14", "5377", "8800"]), &accept)
        .unwrap()
        .unwrap();
    assert_eq!(resp.encoding, TileCompression::Uncompressed);
    assert_eq!(resp.mime, "application/x-protobuf");
    assert_eq!(resp.body.as_slice(), payload().as_slice());
}

#[test]
fn both_negotiations_serve_the_same_payload() {
    let container = TileContainer::from(gzip_reader());
    let gz = container
        .get_data(&path(&["14", "5377", "8800"]), &AcceptEncoding { gzip: true, brotli: false })
        .unwrap()
        .unwrap();
    let plain = container
        .get_data(&path(&["14", "5377", "8800"]), &AcceptEncoding { gzip: false, brotli: false })
        .unwrap()
        .unwrap();
    let unpacked = decompress(gz.body, &TileCompression::Gzip).unwrap();
    assert_eq!(unpacked.as_slice(), plain.body.as_slice());
}

#[test]
fn missing_tiles_and_foreign_paths_are_not_found() {
    let container = TileContainer::from(gzip_reader());
    let accept = AcceptEncoding { gzip: true, brotli: false };
    assert!(container
        .get_data(&path(&["14", "0", "0"]), &accept)
        .unwrap()
        .is_none());
    assert!(container
        .get_data(&path(&["nonsense"]), &accept)
        .unwrap()
        .is_none());
    assert!(container
        .get_data(&path(&["14", "x", "8800"]), &accept)
        .unwrap()
        .is_none());
    assert!(container.get_data(&path(&[]), &accept).unwrap().is_none());
}

#[test]
fn tile_extension_on_the_last_segment_is_ignored() {
    let container = TileContainer::from(gzip_reader());
    let accept = AcceptEncoding { gzip: true, brotli: false };
    assert!(container
        .get_data(&path(&["14", "5377", "8800.pbf"]), &accept)
        .unwrap()
        .is_some());
}

#[test]
fn meta_json_negotiates_the_best_encoding() {
    let container = TileContainer::from(gzip_reader());
    let br = container
        .get_data(&path(&["meta.json"]), &AcceptEncoding { gzip: true, brotli: true })
        .unwrap()
        .unwrap();
    assert_eq!(br.encoding, TileCompression::Brotli);
    assert_eq!(br.mime, "application/json");
    let unpacked = decompress(br.body, &TileCompression::Brotli).unwrap();
    assert_eq!(unpacked.as_slice(), b"{\"name\":\"berlin\"}");

    let plain = container
        .get_data(&path(&["meta.json"]), &AcceptEncoding { gzip: false, brotli: false })
        .unwrap()
        .unwrap();
    assert_eq!(plain.encoding, TileCompression::Uncompressed);
    assert_eq!(plain.body.as_slice(), b"{\"name\":\"berlin\"}");
}

#[test]
fn directory_plan_covers_mock_reader_levels() {
    let mock_png: Vec<u8> = vec![0x89, 0x50, 0x4E, 0x47, 0x0D, 0x0A, 0x1A, 0x0A];
    let mut pyramid = TileBBoxPyramide::new_full();
    pyramid.set_zoom_max(3);
    let mut tiles = Vec::new();
    for z in 0..=3u8 {
        let side = 1u32 << z;
        for y in 0..side {
            for x in 0..side {
                tiles.push((
                    TileCoord3::new(x, y, z).unwrap(),
                    Blob::from_vec(mock_png.clone()),
                ));
            }
        }
    }
    let source = MemTileSource::new(
        TileFormat::PNG,
        TileCompression::Uncompressed,
        pyramid,
        "mock.png".to_string(),
        Some(Blob::from_vec(b"dummy meta data".to_vec())),
        tiles,
    )
    .unwrap();
    let mut res = PipelineResources { readers: vec![("mock.png".to_string(), source)], tables: vec![] };
    let reader = PipelineReader::open_str("read filename=\"mock.png\"", "mock", &mut res).unwrap();
    let converter = DirectoryTilesConverter::new(TilesConverterConfig::new_full());
    let writes = converter.convert_from(&reader).unwrap();
    assert_eq!(writes.len(), 1 + 1 + 4 + 16 + 64);
    assert_eq!(writes[0].0, "tiles.json");
    assert_eq!(writes[0].1.as_slice(), b"dummy meta data");
    let find = |name: &str| {
        writes
            .iter()
            .find(|(n, _)| n == name)
            .unwrap_or_else(|| panic!("missing {name}"))
    };
    assert_eq!(find("0/0/0.png").1.as_slice(), mock_png.as_slice());
    assert_eq!(find("3/7/7.png").1.as_slice(), mock_png.as_slice());
}

#[test]
fn mock_writer_drains_a_reader() {
    let mut writer = MockTilesWriter::new_mock_profile(MockTilesWriterProfile::PBF);
    assert_eq!(writer.get_parameters().tile_format, TileFormat::PBF);
    assert_eq!(
        writer.get_parameters().tile_compression,
        TileCompression::Gzip
    );
    let reader = gzip_reader();
    writer.write_tiles(&reader).unwrap();
}

#[test]
fn folder_resolves_safe_paths_and_refuses_traversal() {
    let folder = Folder::new("/srv/static".to_string(), "static".to_string());
    assert_eq!(folder.get_name(), "static");
    assert_eq!(
        folder.local_path(&path(&["css", "site.css"])).unwrap(),
        "/srv/static/css/site.css"
    );
    assert!(folder.local_path(&path(&["..", "secret"])).is_none());
    assert!(folder.local_path(&path(&["a/b"])).is_none());
    assert!(folder.local_path(&path(&[""])).is_none());
}
