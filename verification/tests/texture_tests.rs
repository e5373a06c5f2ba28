use tilemap::coords::{Point2, Point3};
use tilemap::texture::{set_tiles, tile_pixel_offset, Rect, Texture, TextureAtlas};
use tilemap::tile::Tile;

fn sheet() -> Texture {
    Texture {
        width: 4,
        height: 2,
        pixel_size: 1,
        data: vec![0, 1, 2, 3, 10, 11, 12, 13],
    }
}

fn atlas() -> TextureAtlas {
    TextureAtlas {
        texture: 0,
        rects: vec![Rect { min_x: 1, min_y: 0, width: 2, height: 2 }],
    }
}

#[test]
fn compositing_copies_the_sprite_rectangle_verbatim() {
    let sheet = sheet();
    let atlas = atlas();
    let mut chunk = Texture::new(4, 4, 1);
    let tile = Tile::new(Point2::new(0, 0), 0);
    let rect = Rect { min_x: 0, min_y: 0, width: 2, height: 2 };
    set_tiles(&tile, &mut chunk, &sheet, &atlas, rect, 1, 1);
    let expected: Vec<u8> = vec![
        0, 0, 0, 0,
        0, 1, 2, 0,
        0, 11, 12, 0,
        0, 0, 0, 0,
    ];
    assert_eq!(chunk.data, expected);
}

#[test]
fn compositing_twice_equals_compositing_once() {
    let sheet = sheet();
    let atlas = atlas();
    let mut chunk = Texture::new(4, 4, 1);
    let tile = Tile::new(Point2::new(0, 0), 0);
    let rect = Rect { min_x: 0, min_y: 0, width: 2, height: 2 };
    set_tiles(&tile, &mut chunk, &sheet, &atlas, rect, 2, 0);
    let once = chunk.data.clone();
    set_tiles(&tile, &mut chunk, &sheet, &atlas, rect, 2, 0);
    assert_eq!(chunk.data, once);
}

#[test]
fn a_sprite_the_atlas_does_not_know_is_a_no_op() {
    let sheet = sheet();
    let atlas = atlas();
    let mut chunk = Texture::new(4, 4, 1);
    let tile = Tile::new(Point2::new(0, 0), 9);
    let rect = Rect { min_x: 0, min_y: 0, width: 2, height: 2 };
    set_tiles(&tile, &mut chunk, &sheet, &atlas, rect, 0, 0);
    assert_eq!(chunk.data, vec![0; 16]);
}

#[test]
fn compositing_respects_multi_byte_pixels() {
    let sheet = Texture {
        width: 2,
        height: 1,
        pixel_size: 2,
        data: vec![1, 2, 3, 4],
    };
    let atlas = TextureAtlas {
        texture: 0,
        rects: vec![Rect { min_x: 0, min_y: 0, width: 2, height: 1 }],
    };
    let mut chunk = Texture::new(2, 2, 2);
    let tile = Tile::new(Point2::new(0, 0), 0);
    let rect = Rect { min_x: 0, min_y: 0, width: 2, height: 1 };
    set_tiles(&tile, &mut chunk, &sheet, &atlas, rect, 0, 1);
    assert_eq!(chunk.data, vec![0, 0, 0, 0, 1, 2, 3, 4]);
}

#[test]
fn tile_cells_map_to_scaled_pixel_offsets() {
    assert_eq!(tile_pixel_offset(Point3::new(0, 0, 0), 8, 8), (0, 0));
    assert_eq!(tile_pixel_offset(Point3::new(2, 3, 0), 8, 16), (16, 48));
}

#[test]
fn atlas_lookup_is_by_sprite_index() {
    let atlas = atlas();
    assert_eq!(atlas.rect_for(0), Some(Rect { min_x: 1, min_y: 0, width: 2, height: 2 }));
    assert_eq!(atlas.rect_for(1), None);
}
