use tilemap::coords::{Point2, Point3};
use tilemap::tile::{
    dense_tiles_to_attributes, sparse_tiles_to_attributes, Color, RawTile, Tile, TileBuilder,
    TileSetter,
};

#[test]
fn horizontal_flip_alone_sets_bit_zero() {
    let tile = TileBuilder::new().is_horizontally_flipped(true).finish();
    let raw = RawTile::from(tile);
    assert_eq!(raw.flags, 0b01);
}

#[test]
fn both_flips_set_both_bits() {
    let tile = TileBuilder::new()
        .is_horizontally_flipped(true)
        .is_vertically_flipped(true)
        .finish();
    let raw = RawTile::from(tile);
    assert_eq!(raw.flags, 0b11);
}

#[test]
fn vertical_flip_alone_sets_bit_one() {
    let tile = TileBuilder::new().is_vertically_flipped(true).finish();
    assert_eq!(RawTile::from(tile).flags, 0b10);
}

#[test]
fn no_flips_leave_flags_zero() {
    let tile = Tile::new(Point2::new(3, 3), 7);
    let raw = RawTile::from(tile);
    assert_eq!(raw.flags, 0);
    assert_eq!(raw.index, 7);
    assert_eq!(raw.color, Color::white());
}

#[test]
fn raw_tile_copies_index_and_tint() {
    let tint = Color::new(10, 20, 30, 40);
    let tile = Tile::with_tint(Point2::new(0, 0), 5, tint);
    let raw = RawTile::from(tile);
    assert_eq!(raw.index, 5);
    assert_eq!(raw.color, tint);
}

#[test]
fn builder_sets_every_field() {
    let tile = TileBuilder::new()
        .point(Point2::new(2, -3))
        .z_order(9)
        .sprite_index(4)
        .tint(Color::new(1, 2, 3, 4))
        .is_horizontally_flipped(true)
        .is_vertically_flipped(true)
        .finish();
    assert_eq!(tile.point, Point2::new(2, -3));
    assert_eq!(tile.z_order, 9);
    assert_eq!(tile.sprite_index, 4);
    assert_eq!(tile.tint, Color::new(1, 2, 3, 4));
    assert!(tile.is_horizontally_flipped);
    assert!(tile.is_vertically_flipped);
}

#[test]
fn convenience_constructors_fill_defaults() {
    let a = Tile::new(Point2::new(3, 3), 0);
    assert_eq!(a.z_order, 0);
    assert_eq!(a.tint, Color::white());
    let b = Tile::with_z_order(Point2::new(1, 1), 2, 8);
    assert_eq!(b.sprite_index, 2);
    assert_eq!(b.z_order, 8);
    let c = Tile::with_z_order_and_tint(Point2::new(15, 15), 2, 1, Color::new(9, 9, 9, 9));
    assert_eq!(c.sprite_index, 2);
    assert_eq!(c.z_order, 1);
    assert_eq!(c.tint, Color::new(9, 9, 9, 9));
    let d = Tile::default();
    assert_eq!(d.point, Point2::new(0, 0));
    assert_eq!(d.sprite_index, 0);
}

#[test]
fn setter_keeps_insertion_order_and_duplicates() {
    let mut setter = TileSetter::new();
    let tile = Tile::new(Point2::new(0, 0), 1);
    setter.push(Point3::new(1, 1, 0), tile);
    setter.push(Point3::new(2, 2, 0), tile);
    setter.push(Point3::new(1, 1, 0), tile);
    assert_eq!(setter.len(), 3);
    assert!(!setter.is_empty());
    assert_eq!(setter.get(0).0, Point3::new(1, 1, 0));
    assert_eq!(setter.get(1).0, Point3::new(2, 2, 0));
    assert_eq!(setter.get(2).0, Point3::new(1, 1, 0));
    let cloned = setter.clone();
    assert_eq!(cloned, setter);
}

#[test]
fn dense_attributes_replicate_each_tile_four_times() {
    let tiles = vec![
        RawTile { index: 7, color: Color::new(1, 2, 3, 4), flags: 0b01 },
        RawTile { index: 9, color: Color::new(5, 6, 7, 8), flags: 0b10 },
    ];
    let (indexes, flags, colors) = dense_tiles_to_attributes(&tiles);
    assert_eq!(indexes, vec![7, 7, 7, 7, 9, 9, 9, 9]);
    assert_eq!(flags, vec![0b01, 0b01, 0b01, 0b01, 0b10, 0b10, 0b10, 0b10]);
    assert_eq!(colors.len(), 8);
    for j in 0..4 {
        assert_eq!(colors[j], Color::new(1, 2, 3, 4));
        assert_eq!(colors[4 + j], Color::new(5, 6, 7, 8));
    }
}

#[test]
fn sparse_attributes_fill_missing_cells_with_transparent_sentinel() {
    let tiles = vec![(1usize, RawTile { index: 3, color: Color::new(9, 8, 7, 6), flags: 0b11 })];
    let (indexes, flags, colors) = sparse_tiles_to_attributes(3, &tiles);
    assert_eq!(indexes.len(), 12);
    assert_eq!(flags.len(), 12);
    assert_eq!(colors.len(), 12);
    for j in 0..12 {
        if (4..8).contains(&j) {
            assert_eq!(indexes[j], 3);
            assert_eq!(flags[j], 0b11);
            assert_eq!(colors[j], Color::new(9, 8, 7, 6));
        } else {
            assert_eq!(indexes[j], 0);
            assert_eq!(flags[j], 0);
            assert_eq!(colors[j], Color::transparent());
        }
    }
}

#[test]
fn sparse_attributes_ignore_entries_past_the_area() {
    let tiles = vec![(5usize, RawTile { index: 3, color: Color::white(), flags: 1 })];
    let (indexes, flags, colors) = sparse_tiles_to_attributes(2, &tiles);
    assert_eq!(indexes, vec![0; 8]);
    assert_eq!(flags, vec![0; 8]);
    for j in 0..8 {
        assert_eq!(colors[j], Color::transparent());
    }
}
