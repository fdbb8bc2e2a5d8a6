//! The vector-tile model, its codec, and the property-update transform.

use versatiles::Args;
use versatiles::Blob;
use versatiles::Feature;
use versatiles::GeoProperties;
use versatiles::GeoValue;
use versatiles::Geometry;
use versatiles::Layer;
use versatiles::Runner;
use versatiles::TileCompression;
use versatiles::VectorTile;

fn props(entries: Vec<(&str, GeoValue)>) -> GeoProperties {
    GeoProperties::from_entries(
        entries
            .into_iter()
            .map(|(k, v)| (k.to_string(), v))
            .collect(),
    )
}

fn sample_tile() -> VectorTile {
    VectorTile {
        layers: vec![Layer {
            name: "test_layer".to_string(),
            extent: 4096,
            version: 2,
            features: vec![
                Feature {
                    id: None,
                    geometry: Geometry { data: vec![9, 0, 0] },
                    properties: Some(props(vec![
                        ("tile_id", GeoValue::Int(1)),
                        ("tile_name", GeoValue::Text("Bärlin".to_string())),
                    ])),
                },
                Feature {
                    id: Some(4),
                    geometry: Geometry { data: vec![9, 2, 2] },
                    properties: Some(props(vec![
                        ("tile_id", GeoValue::Int(4)),
                        ("tile_name", GeoValue::Text("Madrid".to_string())),
                    ])),
                },
            ],
        }],
    }
}

fn runner(replace: bool, remove_empty: bool, add_id: bool) -> Runner {
    let rows = vec![
        props(vec![
            ("city_id", GeoValue::Int(1)),
            ("population", GeoValue::UInt(3_700_000)),
        ]),
        props(vec![
            ("city_id", GeoValue::Int(4)),
            ("population", GeoValue::UInt(3_200_000)),
        ]),
    ];
    let properties_map =
        versatiles::build_properties_map(rows, "city_id", add_id).unwrap();
    Runner {
        args: Args {
            data_source_path: "cities.csv".to_string(),
            id_field_tiles: "tile_id".to_string(),
            id_field_values: "city_id".to_string(),
            layer_name: None,
            replace_properties: replace,
            remove_empty_properties: remove_empty,
            add_id,
        },
        tile_compression: TileCompression::Uncompressed,
        properties_map,
    }
}

#[test]
fn codec_round_trips_a_tile() {
    let tile = sample_tile();
    let blob = tile.to_blob();
    let back = VectorTile::from_blob(&blob).unwrap();
    assert_eq!(back, sample_tile());
}

#[test]
fn codec_rejects_trailing_and_garbage_bytes() {
    let tile = sample_tile();
    let mut bytes = tile.to_blob().into_vec();
    bytes.push(0);
    assert!(VectorTile::from_blob(&Blob::from_vec(bytes)).is_none());
    assert!(VectorTile::from_blob(&Blob::from_vec(vec![1, 2, 3])).is_none());
}

#[test]
fn update_merges_row_values_into_features() {
    let r = runner(false, false, false);
    let out = r.run_tile(sample_tile());
    let feature = &out.layers[0].features[0];
    let p = feature.properties.as_ref().unwrap();
    assert_eq!(
        *p.get("population").unwrap(),
        GeoValue::UInt(3_700_000)
    );
    // The id column was stripped from the joined rows.
    assert!(p.get("city_id").is_none());
    // Existing properties survive an update.
    assert_eq!(
        *p.get("tile_name").unwrap(),
        GeoValue::Text("Bärlin".to_string())
    );
}

#[test]
fn replace_swaps_the_whole_property_set() {
    let r = runner(true, false, true);
    let out = r.run_tile(sample_tile());
    let p = out.layers[0].features[1].properties.as_ref().unwrap();
    assert_eq!(*p.get("city_id").unwrap(), GeoValue::Int(4));
    assert_eq!(
        *p.get("population").unwrap(),
        GeoValue::UInt(3_200_000)
    );
    assert!(p.get("tile_name").is_none());
}

#[test]
fn features_without_a_matching_row_lose_their_properties() {
    let r = runner(false, false, false);
    let mut tile = sample_tile();
    tile.layers[0].features[0].properties = Some(props(vec![(
        "tile_id",
        GeoValue::Int(99),
    )]));
    let out = r.run_tile(tile);
    assert!(out.layers[0].features[0].properties.is_none());
}

#[test]
fn remove_empty_properties_drops_bare_features() {
    let r = runner(false, true, false);
    let mut tile = sample_tile();
    tile.layers[0].features[0].properties = Some(props(vec![(
        "tile_id",
        GeoValue::Int(99),
    )]));
    let out = r.run_tile(tile);
    // The feature whose row is missing lost its properties and was dropped.
    assert_eq!(out.layers[0].features.len(), 1);
}

#[test]
fn layer_filter_leaves_other_layers_alone() {
    let r = Runner {
        args: Args {
            layer_name: Some("another_layer".to_string()),
            ..runner(false, false, false).args
        },
        ..runner(false, false, false)
    };
    let out = r.run_tile(sample_tile());
    assert_eq!(out, sample_tile());
}

#[test]
fn running_the_replace_transform_twice_changes_nothing_more() {
    // With ids kept and one field joining both sides, every joined row
    // carries its own key, so a second run finds the same rows again.
    let mut r = runner(true, false, true);
    r.args.id_field_tiles = "city_id".to_string();
    let tile = VectorTile {
        layers: vec![Layer {
            name: "test_layer".to_string(),
            extent: 4096,
            version: 2,
            features: vec![Feature {
                id: Some(1),
                geometry: Geometry { data: vec![9, 0, 0] },
                properties: Some(props(vec![
                    ("city_id", GeoValue::Int(1)),
                    ("tile_name", GeoValue::Text("Bärlin".to_string())),
                ])),
            }],
        }],
    };
    let once = r.run(tile.to_blob()).unwrap().unwrap();
    let twice = r
        .run(Blob::from_vec(once.as_slice().to_vec()))
        .unwrap()
        .unwrap();
    assert_eq!(once.as_slice(), twice.as_slice());
}

#[test]
fn stringify_uses_canonical_text() {
    assert_eq!(GeoValue::Int(-42).stringify(), "-42");
    assert_eq!(GeoValue::UInt(12345).stringify(), "12345");
    assert_eq!(GeoValue::Bool(true).stringify(), "true");
    assert_eq!(GeoValue::Bool(false).stringify(), "false");
    assert_eq!(GeoValue::Null.stringify(), "null");
    assert_eq!(GeoValue::Text("x y".to_string()).stringify(), "x y");
}

#[test]
fn rows_missing_the_key_column_fail_the_build() {
    let rows = vec![props(vec![("name", GeoValue::Text("a".to_string()))])];
    assert!(versatiles::build_properties_map(rows, "city_id", false).is_err());
}
