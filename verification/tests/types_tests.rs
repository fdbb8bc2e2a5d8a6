//! Coordinates, boxes and pyramids on concrete values.

use versatiles::TileBBox;
use versatiles::TileBBoxPyramide;
use versatiles::TileCoord3;

#[test]
fn empty_pyramid_has_no_tiles_and_zero_zoom_range() {
    let p = TileBBoxPyramide::new_empty();
    assert_eq!(p.get_zoom_range(), (0, 0));
    assert_eq!(p.count_tiles(), 0);
    assert_eq!(p.iter_tile_indexes().len(), 0);
}

#[test]
fn full_pyramid_zoom_range_and_level_counts() {
    let mut p = TileBBoxPyramide::new_full();
    p.set_zoom_min(2);
    p.set_zoom_max(4);
    assert_eq!(p.get_zoom_range(), (2, 4));
    assert_eq!(p.count_tiles(), 16 + 64 + 256);
}

#[test]
fn bbox_intersect_with_itself_is_identity() {
    let mut a = TileBBox::new(5, 3, 4, 10, 12).unwrap();
    let b = a;
    a.intersect(&b);
    assert_eq!(a, b);

    let mut e = TileBBox::new_empty(7);
    let e2 = e;
    e.intersect(&e2);
    assert_eq!(e, e2);
}

#[test]
fn bbox_intersection_of_disjoint_boxes_is_empty() {
    let mut a = TileBBox::new(5, 0, 0, 3, 3).unwrap();
    let b = TileBBox::new(5, 10, 10, 12, 12).unwrap();
    a.intersect(&b);
    assert!(a.is_empty());
    assert_eq!(a, TileBBox::new_empty(5));
}

#[test]
fn coords_round_trip_through_tile_index() {
    let b = TileBBox::new(6, 2, 3, 9, 11).unwrap();
    let coords = b.coords();
    assert_eq!(coords.len() as u128, b.count_tiles());
    for c in [
        TileCoord3 { x: 2, y: 3, z: 6 },
        TileCoord3 { x: 9, y: 11, z: 6 },
        TileCoord3 { x: 5, y: 7, z: 6 },
    ] {
        let idx = b.get_tile_index3(&c);
        assert_eq!(coords[idx as usize], c);
    }
}

#[test]
fn coords_are_row_major() {
    let b = TileBBox::new(3, 1, 1, 2, 2).unwrap();
    let coords = b.coords();
    assert_eq!(
        coords,
        vec![
            TileCoord3 { x: 1, y: 1, z: 3 },
            TileCoord3 { x: 2, y: 1, z: 3 },
            TileCoord3 { x: 1, y: 2, z: 3 },
            TileCoord3 { x: 2, y: 2, z: 3 },
        ]
    );
}

#[test]
fn grid_partition_covers_box_in_chunks() {
    let b = TileBBox::new(8, 0, 0, 69, 39).unwrap();
    let chunks = b.iter_bbox_grid(32);
    assert_eq!(chunks.len(), 3 * 2);
    let total: u128 = chunks.iter().map(|c| c.count_tiles()).sum();
    assert_eq!(total, b.count_tiles());
    for c in &chunks {
        assert!(c.width() <= 32 && c.height() <= 32);
    }
}

#[test]
fn include_tile_grows_to_hull() {
    let mut b = TileBBox::new_empty(4);
    b.include_tile(3, 5);
    assert_eq!(b, TileBBox::new(4, 3, 5, 3, 5).unwrap());
    b.include_tile(7, 2);
    assert_eq!(b, TileBBox::new(4, 3, 2, 7, 5).unwrap());
}

#[test]
fn coord_new_rejects_out_of_range() {
    assert!(TileCoord3::new(0, 0, 33).is_err());
    assert!(TileCoord3::new(8, 0, 3).is_err());
    assert!(TileCoord3::new(7, 7, 3).is_ok());
}

#[test]
fn pyramid_include_and_intersect() {
    let mut p = TileBBoxPyramide::new_empty();
    p.include_tile(5, 10, 10);
    p.include_tile(5, 12, 13);
    assert_eq!(
        *p.get_level_bbox(5),
        TileBBox::new(5, 10, 10, 12, 13).unwrap()
    );
    let mut q = TileBBoxPyramide::new_full();
    q.intersect(&p);
    assert_eq!(*q.get_level_bbox(5), *p.get_level_bbox(5));
    assert_eq!(q.count_tiles(), p.count_tiles());
}
