//! The index built from a tar archive's entries.

use versatiles::build_tar_index;
use versatiles::compress;
use versatiles::Blob;
use versatiles::ByteRange;
use versatiles::MemDataReader;
use versatiles::DataReaderTrait;
use versatiles::TarEntry;
use versatiles::TarIndexError;
use versatiles::TileCompression;
use versatiles::TileCoord3;
use versatiles::TileFormat;

fn entry(parts: &[&str], offset: u64, size: u64) -> TarEntry {
    TarEntry {
        segments: parts.iter().map(|s| s.to_string()).collect(),
        offset,
        size,
        content: None,
        is_regular: true,
    }
}

#[test]
fn archive_entries_become_an_index() {
    let meta = compress(
        Blob::from_vec(b"dummy meta data".to_vec()),
        &TileCompression::Gzip,
    );
    let entries = vec![
        entry(&["tiles", "5", "10", "11.pbf.gz"], 512, 100),
        entry(&["tiles", "5", "12", "13.pbf.gz"], 1024, 200),
        TarEntry {
            segments: vec!["tiles".to_string(), "tiles.json.gz".to_string()],
            offset: 2048,
            size: meta.len() as u64,
            content: Some(meta),
            is_regular: true,
        },
        // Directories and unrelated files are ignored.
        TarEntry {
            segments: vec!["tiles".to_string(), "5".to_string()],
            offset: 0,
            size: 0,
            content: None,
            is_regular: false,
        },
        entry(&["tiles", "readme.txt"], 0, 3),
    ];
    let idx = build_tar_index(entries).unwrap();
    assert_eq!(idx.tile_format, TileFormat::PBF);
    assert_eq!(idx.tile_compression, TileCompression::Gzip);
    assert_eq!(idx.meta.as_slice(), b"dummy meta data");
    assert_eq!(idx.tiles.len(), 2);
    assert_eq!(idx.tiles[0].0, TileCoord3::new(11, 10, 5).unwrap());
    assert_eq!(
        idx.tiles[0].1,
        ByteRange {
            offset: 512,
            length: 100
        }
    );
    let level = idx.bbox_pyramid.get_level_bbox(5);
    assert!(level.contains(&TileCoord3::new(11, 10, 5).unwrap()));
    assert!(level.contains(&TileCoord3::new(13, 12, 5).unwrap()));
}

#[test]
fn later_duplicate_paths_replace_earlier_ones() {
    let entries = vec![
        entry(&["tiles", "5", "10", "11.pbf"], 512, 100),
        entry(&["tiles", "5", "10", "11.pbf"], 9000, 50),
    ];
    let idx = build_tar_index(entries).unwrap();
    assert_eq!(idx.tiles.len(), 1);
    assert_eq!(
        idx.tiles[0].1,
        ByteRange {
            offset: 9000,
            length: 50
        }
    );
}

#[test]
fn mixed_formats_and_compressions_are_rejected() {
    let entries = vec![
        entry(&["t", "5", "10", "11.pbf"], 0, 1),
        entry(&["t", "5", "10", "12.png"], 0, 1),
    ];
    assert_eq!(
        build_tar_index(entries).err(),
        Some(TarIndexError::MixedFormats)
    );

    let entries = vec![
        entry(&["t", "5", "10", "11.pbf"], 0, 1),
        entry(&["t", "5", "10", "12.pbf.gz"], 0, 1),
    ];
    assert_eq!(
        build_tar_index(entries).err(),
        Some(TarIndexError::MixedCompressions)
    );
}

#[test]
fn bad_tile_paths_are_rejected() {
    assert_eq!(
        build_tar_index(vec![entry(&["t", "x", "10", "11.pbf"], 0, 1)]).err(),
        Some(TarIndexError::InvalidTilePath)
    );
    assert_eq!(
        build_tar_index(vec![entry(&["t", "5", "10", "11.mp3"], 0, 1)]).err(),
        Some(TarIndexError::UnknownExtension)
    );
    assert_eq!(
        build_tar_index(vec![entry(&["t", "33", "0", "0.pbf"], 0, 1)]).err(),
        Some(TarIndexError::InvalidTilePath)
    );
    assert_eq!(build_tar_index(vec![]).err(), Some(TarIndexError::NoTiles));
}

#[test]
fn ranges_read_back_through_a_data_reader() {
    let mut reader = MemDataReader::new("tar".to_string(), b"0123456789".to_vec());
    let blob = reader
        .read_range(&ByteRange {
            offset: 4,
            length: 3,
        })
        .unwrap();
    assert_eq!(blob.as_slice(), b"456");
    assert!(reader
        .read_range(&ByteRange {
            offset: 8,
            length: 3,
        })
        .is_err());
}
