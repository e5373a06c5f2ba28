use tilemap::coords::{decode_index, floor_div, tile_coord_to_chunk_coord, to_index, Point2, Point3};

#[test]
fn index_round_trip_over_small_map() {
    let mx: u32 = 2;
    let my: u32 = 3;
    for y in 0..my as i32 {
        for x in 0..mx as i32 {
            let index = to_index(Point2::new(x, y), mx, my);
            let back = decode_index(index, mx);
            assert_eq!(back, Point2::new(x, y));
        }
    }
}

#[test]
fn to_index_is_row_major() {
    assert_eq!(to_index(Point2::new(0, 0), 2, 2), 0);
    assert_eq!(to_index(Point2::new(1, 0), 2, 2), 1);
    assert_eq!(to_index(Point2::new(0, 1), 2, 2), 2);
    assert_eq!(to_index(Point2::new(1, 1), 2, 2), 3);
}

#[test]
fn floor_div_rounds_toward_negative_infinity() {
    assert_eq!(floor_div(7, 2), 3);
    assert_eq!(floor_div(-7, 2), -4);
    assert_eq!(floor_div(-8, 4), -2);
    assert_eq!(floor_div(-1, 4), -1);
    assert_eq!(floor_div(0, 4), 0);
    assert_eq!(floor_div(i32::MIN, 1), i32::MIN);
}

#[test]
fn tile_coord_maps_to_owning_chunk() {
    assert_eq!(tile_coord_to_chunk_coord(Point3::new(6, 1, 0), 4, 4), Point2::new(1, 0));
    assert_eq!(tile_coord_to_chunk_coord(Point3::new(3, 3, 0), 4, 4), Point2::new(0, 0));
    assert_eq!(tile_coord_to_chunk_coord(Point3::new(-1, -1, 0), 4, 4), Point2::new(-1, -1));
    assert_eq!(tile_coord_to_chunk_coord(Point3::new(8, 7, 2), 4, 4), Point2::new(2, 1));
}
