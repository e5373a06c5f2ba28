use tilemap::chunk::{Chunk, Chunks};
use tilemap::coords::{Dimensions2, Point2, Point3};
use tilemap::events::{Entity, MapEvent};
use tilemap::map::{ErrorKind, MapError, WorldMap};
use tilemap::tile::{RawTile, Tile, TileSetter};

fn small_map() -> WorldMap {
    WorldMap::new(Dimensions2::new(2, 2), 4, 4, 0)
}

#[test]
fn set_chunk_rejects_out_of_bounds_coordinates() {
    let mut map = small_map();
    let mut chunks = Chunks::new();
    let result = map.set_chunk(0, Chunk::new_dense(4, 4, None), Point2::new(2, 0), &mut chunks);
    assert_eq!(result.unwrap_err().kind(), ErrorKind::OutOfBounds);
    let result = map.set_chunk(0, Chunk::new_dense(4, 4, None), Point2::new(0, 2), &mut chunks);
    assert_eq!(result.unwrap_err().kind(), ErrorKind::OutOfBounds);
    let result = map.set_chunk(0, Chunk::new_dense(4, 4, None), Point2::new(-1, 0), &mut chunks);
    assert_eq!(result.unwrap_err().kind(), ErrorKind::OutOfBounds);
}

#[test]
fn get_chunk_rejects_out_of_bounds_and_tolerates_empty_slots() {
    let map = small_map();
    let chunks = Chunks::new();
    let result = map.get_chunk(Point2::new(5, 0), &chunks);
    assert_eq!(result.unwrap_err(), MapError::new(ErrorKind::OutOfBounds));
    let found = map.get_chunk(Point2::new(1, 1), &chunks).unwrap();
    assert!(found.is_none());
}

#[test]
fn scenario_add_chunk_then_set_tile() {
    let mut map = small_map();
    let mut chunks = Chunks::new();
    map.add_chunk(Chunk::new_dense(4, 4, None), Point2::new(1, 0), &mut chunks);
    let tile = Tile::new(Point2::new(6, 1), 3);
    map.set_tile(Point3::new(6, 1, 0), tile).unwrap();
    let drained = map.collect_frame_events();
    assert_eq!(drained.len(), 2);
    match &drained[0] {
        MapEvent::Created { index, handle } => {
            assert_eq!(*index, 1);
            assert_eq!(*handle, 0);
        }
        other => panic!("expected Created, got {:?}", other),
    }
    match &drained[1] {
        MapEvent::Modified { handle, setter } => {
            assert_eq!(*handle, 0);
            assert_eq!(setter.len(), 1);
            let entry = setter.get(0);
            assert_eq!(entry.0, Point3::new(2, 2, 0));
            assert_eq!(entry.1, tile);
        }
        other => panic!("expected Modified, got {:?}", other),
    }
}

#[test]
fn batch_spanning_three_chunks_emits_three_modified_events() {
    let mut map = small_map();
    let mut chunks = Chunks::new();
    map.add_chunk(Chunk::new_dense(4, 4, None), Point2::new(0, 0), &mut chunks);
    map.add_chunk(Chunk::new_dense(4, 4, None), Point2::new(1, 0), &mut chunks);
    map.add_chunk(Chunk::new_dense(4, 4, None), Point2::new(0, 1), &mut chunks);
    map.collect_frame_events();

    let tile = Tile::new(Point2::new(0, 0), 1);
    let mut setter = TileSetter::new();
    setter.push(Point3::new(0, 0, 0), tile);
    setter.push(Point3::new(4, 0, 0), tile);
    setter.push(Point3::new(1, 1, 0), tile);
    setter.push(Point3::new(0, 4, 0), tile);
    setter.push(Point3::new(5, 1, 0), tile);
    map.set_tiles(setter).unwrap();

    let drained = map.collect_frame_events();
    assert_eq!(drained.len(), 3);
    let expect = [
        (0usize, vec![Point3::new(0, 3, 0), Point3::new(1, 2, 0)]),
        (1usize, vec![Point3::new(0, 3, 0), Point3::new(1, 2, 0)]),
        (2usize, vec![Point3::new(0, 3, 0)]),
    ];
    for (event, (expected_handle, expected_locals)) in drained.iter().zip(expect.iter()) {
        match event {
            MapEvent::Modified { handle, setter } => {
                assert_eq!(handle, expected_handle);
                assert_eq!(setter.len(), expected_locals.len());
                for (i, local) in expected_locals.iter().enumerate() {
                    assert_eq!(setter.get(i).0, *local);
                }
            }
            other => panic!("expected Modified, got {:?}", other),
        }
    }
}

#[test]
fn set_tiles_with_a_bad_entry_sends_nothing() {
    let mut map = small_map();
    let mut chunks = Chunks::new();
    map.add_chunk(Chunk::new_dense(4, 4, None), Point2::new(0, 0), &mut chunks);
    map.collect_frame_events();
    let tile = Tile::new(Point2::new(0, 0), 1);
    let mut setter = TileSetter::new();
    setter.push(Point3::new(0, 0, 0), tile);
    setter.push(Point3::new(4, 0, 0), tile);
    let result = map.set_tiles(setter);
    assert_eq!(result.unwrap_err().kind(), ErrorKind::ChunkNotFound);
    assert!(map.collect_frame_events().is_empty());
}

#[test]
fn set_tile_distinguishes_its_two_errors() {
    let mut map = small_map();
    let tile = Tile::new(Point2::new(0, 0), 0);
    let result = map.set_tile(Point3::new(-1, 0, 0), tile);
    assert_eq!(result.unwrap_err().kind(), ErrorKind::OutOfBounds);
    let result = map.set_tile(Point3::new(8, 0, 0), tile);
    assert_eq!(result.unwrap_err().kind(), ErrorKind::OutOfBounds);
    let result = map.set_tile(Point3::new(0, 0, 0), tile);
    assert_eq!(result.unwrap_err().kind(), ErrorKind::ChunkNotFound);
}

#[test]
fn set_chunk_refreshes_where_an_entity_exists() {
    let mut map = small_map();
    let mut chunks = Chunks::new();
    map.set_chunk(5, Chunk::new_dense(4, 4, None), Point2::new(0, 0), &mut chunks).unwrap();
    map.insert_entity(3, Entity(9));
    map.set_chunk(6, Chunk::new_dense(4, 4, None), Point2::new(1, 1), &mut chunks).unwrap();
    let drained = map.collect_frame_events();
    assert!(matches!(drained[0], MapEvent::Created { index: 0, handle: 5 }));
    assert!(matches!(drained[1], MapEvent::Refresh { handle: 6 }));
    assert_eq!(chunks.len(), 7);
    assert!(chunks.contains(5));
    assert!(chunks.contains(6));
    assert!(!chunks.contains(0));
}

#[test]
fn handles_and_entities_are_stored_and_cleared() {
    let mut map = small_map();
    map.push_chunk_handle(2, Some(8));
    assert_eq!(map.get_chunk_handle(2), Some(8));
    assert!(map.chunk_exists(Point2::new(0, 1)));
    map.remove_chunk_handle(2);
    assert_eq!(map.get_chunk_handle(2), None);
    assert!(!map.chunk_exists(Point2::new(0, 1)));
    assert_eq!(map.get_chunk_handle(99), None);

    assert!(!map.contains_entity(1));
    map.insert_entity(1, Entity(4));
    assert!(map.contains_entity(1));
    assert_eq!(map.get_entity(1), Some(Entity(4)));
    assert_eq!(map.get_entity(99), None);
}

#[test]
fn resizing_clears_every_slot() {
    let mut map = small_map();
    map.push_chunk_handle(0, Some(1));
    map.insert_entity(0, Entity(2));
    map.set_dimensions(Dimensions2::new(3, 1));
    assert_eq!(map.dimensions(), Dimensions2::new(3, 1));
    assert_eq!(map.get_chunk_handle(0), None);
    assert_eq!(map.get_entity(0), None);
}

#[test]
fn texture_atlas_handle_round_trips() {
    let mut map = small_map();
    assert_eq!(map.texture_atlas_handle(), 0);
    map.set_texture_atlas(42);
    assert_eq!(map.texture_atlas_handle(), 42);
}

#[test]
fn chunk_cells_read_back_what_was_written() {
    let raw = RawTile { index: 2, color: tilemap::tile::Color::white(), flags: 1 };
    for mut chunk in [Chunk::new_dense(4, 4, Some(0)), Chunk::new_sparse(4, 4, Some(0))] {
        assert_eq!(chunk.get_tile(Point2::new(2, 1)), None);
        chunk.set_tile(Point2::new(2, 1), raw);
        assert_eq!(chunk.get_tile(Point2::new(2, 1)), Some(raw));
        assert_eq!(chunk.get_tile(Point2::new(1, 2)), None);
        assert_eq!(chunk.encode_coord(Point2::new(2, 1)), 6);
        let entries = chunk.raw_tiles();
        assert_eq!(entries, vec![(6usize, raw)]);
        chunk.clean();
        assert_eq!(chunk.get_tile(Point2::new(2, 1)), None);
        assert_eq!(chunk.texture, Some(0));
    }
}

#[test]
fn chunk_arena_resolves_and_replaces() {
    let mut chunks = Chunks::new();
    let handle = chunks.add(Chunk::new_dense(2, 2, None));
    assert_eq!(handle, 0);
    assert_eq!(chunks.len(), 1);
    assert!(chunks.get(0).is_some());
    assert!(chunks.get(7).is_none());
    chunks.set(0, Chunk::new_sparse(3, 3, Some(4)));
    assert_eq!(chunks.get(0).unwrap().texture, Some(4));
    let chunk = chunks.get_mut(0);
    chunk.set_tile(Point2::new(0, 0), RawTile { index: 1, color: tilemap::tile::Color::white(), flags: 0 });
    assert_eq!(chunks.get(0).unwrap().get_tile(Point2::new(0, 0)).unwrap().index, 1);
}

#[test]
fn get_chunk_mut_edits_the_stored_chunk() {
    let mut map = small_map();
    let mut chunks = Chunks::new();
    map.add_chunk(Chunk::new_dense(4, 4, None), Point2::new(0, 0), &mut chunks);
    assert!(map.get_chunk_mut(Point2::new(3, 0), &mut chunks).is_err());
    assert!(map.get_chunk_mut(Point2::new(1, 1), &mut chunks).unwrap().is_none());
    let raw = RawTile { index: 9, color: tilemap::tile::Color::white(), flags: 0 };
    let chunk = map.get_chunk_mut(Point2::new(0, 0), &mut chunks).unwrap().unwrap();
    chunk.set_tile(Point2::new(1, 1), raw);
    let read = map.get_chunk(Point2::new(0, 0), &chunks).unwrap().unwrap();
    assert_eq!(read.get_tile(Point2::new(1, 1)), Some(raw));
}

#[test]
fn map_centers_and_translations_use_floored_division() {
    let map = small_map();
    assert_eq!(map.center_tile_coord(), Point2::new(4, 4));
    assert_eq!(map.tile_coord_to_chunk_coord(Point3::new(6, 1, 0)), Point2::new(1, 0));
    assert_eq!(map.translation_to_tile_coord(Point2::new(-8, 8), 8, 8), Point2::new(3, 5));
    assert_eq!(map.translation_to_chunk_coord(Point2::new(-1, 65), 8, 8), Point2::new(0, 3));
}

#[test]
fn center_of_an_odd_map_floors_the_tile_product() {
    let map = WorldMap::new(Dimensions2::new(3, 3), 4, 4, 0);
    assert_eq!(map.center_tile_coord(), Point2::new(6, 6));
    assert_eq!(map.translation_to_tile_coord(Point2::new(-8, 8), 8, 8), Point2::new(5, 7));
}

#[test]
fn map_error_kind_round_trips() {
    let error = MapError::new(ErrorKind::OutOfBounds);
    assert_eq!(error.kind(), ErrorKind::OutOfBounds);
    let from: MapError = ErrorKind::ChunkNotFound.into();
    assert_eq!(from.kind(), ErrorKind::ChunkNotFound);
}
