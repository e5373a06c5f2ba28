//! The map: a grid of chunk handles indexed by linearized chunk
//! coordinate, an index-to-entity mapping for chunks with a visual
//! representation, the event log, and the shared sprite-atlas handle.

use vstd::prelude::*;
use crate::chunk::{store_set, Chunk, Chunks};
use crate::coords::{floor_div, floor_div_spec, to_index, Dimensions2, Point2, Point3};
use crate::events::{Entity, EventReader, Events, MapEvent, MapEventView};
use crate::tile::{filled, Tile, TileSetter};
use vstd::arithmetic::div_mod::{lemma_fundamental_div_mod, lemma_mod_bound};

verus! {

/// The kinds of errors that can occur for a [`MapError`].
#[derive(Clone, Copy, Debug, PartialEq, Eq, Structural)]
pub enum ErrorKind {
    /// The coordinate or index is out of bounds.
    OutOfBounds,
    /// The coordinate lies in a chunk slot that holds no chunk.
    ChunkNotFound,
}

/// An error with the map has occurred.
#[derive(Clone, Copy, Debug, PartialEq, Eq, Structural)]
pub struct MapError(pub ErrorKind);

impl MapError {
    /// Creates a new `MapError`.
    pub fn new(kind: ErrorKind) -> (error: MapError)
        ensures
            error.0 == kind,
    {
        MapError(kind)
    }

    /// Returns the underlying error kind.
    pub fn kind(&self) -> (kind: ErrorKind)
        ensures
            kind == self.0,
    {
        self.0
    }
}

impl From<ErrorKind> for MapError {
    fn from(kind: ErrorKind) -> (error: MapError) {
        MapError(kind)
    }
}

impl vstd::std_specs::convert::FromSpecImpl<ErrorKind> for MapError {
    open spec fn obeys_from_spec() -> bool {
        true
    }

    open spec fn from_spec(kind: ErrorKind) -> MapError {
        MapError(kind)
    }
}

/// A map result.
pub type MapResult<T> = Result<T, MapError>;

/// A map of chunk handles over a fixed grid of chunk coordinates, with
/// uniform chunk extents, an entity slot per chunk, and an event log that
/// records every change.
pub struct WorldMap {
    /// The map's extent, in chunks per axis.
    pub dimensions: Dimensions2,
    /// Each chunk's extent in tiles along the horizontal axis.
    pub chunk_width: u32,
    /// Each chunk's extent in tiles along the vertical axis.
    pub chunk_height: u32,
    /// One slot per chunk coordinate, holding the arena handle of the
    /// chunk stored there, if any.
    pub handles: Vec<Option<usize>>,
    /// One slot per chunk coordinate, holding the visual entity spawned
    /// for the chunk there, if any.
    pub entities: Vec<Option<Entity>>,
    /// The log of every change since the log's retention window began.
    pub events: Events,
    /// The handle of the shared sprite atlas.
    pub texture_atlas: usize,
}

impl WorldMap {
    /// The number of chunk slots: one per chunk coordinate.
    pub open spec fn chunk_count(self) -> int {
        self.dimensions.x * self.dimensions.y
    }

    /// The map is well formed: the handle and entity arrays have exactly
    /// one slot per chunk coordinate, the chunk extents are positive and
    /// fit local coordinates, and the event log's ids fit the machine
    /// word.
    pub open spec fn wf(self) -> bool {
        &&& self.chunk_count() <= usize::MAX
        &&& self.handles@.len() == self.chunk_count()
        &&& self.entities@.len() == self.chunk_count()
        &&& 1 <= self.chunk_width <= i32::MAX
        &&& 1 <= self.chunk_height <= i32::MAX
        &&& self.events.wf()
    }

    /// The chunk coordinate lies on the map.
    pub open spec fn coord_in_bounds(self, coord: Point2) -> bool {
        &&& 0 <= coord.x < self.dimensions.x
        &&& 0 <= coord.y < self.dimensions.y
    }

    /// The flat storage index of an in-bounds chunk coordinate.
    pub open spec fn index_of(self, coord: Point2) -> int {
        coord.y * self.dimensions.x + coord.x
    }

    /// The chunk coordinate that owns a tile coordinate.
    pub open spec fn chunk_coord_of(self, coord: Point3) -> Point2 {
        Point2 {
            x: floor_div_spec(coord.x as int, self.chunk_width as int) as i32,
            y: floor_div_spec(coord.y as int, self.chunk_height as int) as i32,
        }
    }

    /// The tile coordinate lies in a chunk of the map.
    pub open spec fn tile_in_bounds(self, coord: Point3) -> bool {
        &&& 0 <= floor_div_spec(coord.x as int, self.chunk_width as int) < self.dimensions.x
        &&& 0 <= floor_div_spec(coord.y as int, self.chunk_height as int) < self.dimensions.y
    }

    /// The handle slot of the chunk that owns an in-bounds tile
    /// coordinate.
    pub open spec fn tile_handle(self, coord: Point3) -> Option<usize> {
        self.handles@[self.index_of(self.chunk_coord_of(coord))]
    }

    /// The placement of a tile coordinate within its owning chunk's
    /// texture: the horizontal offset inside the chunk, the vertical
    /// offset flipped because pixel rows run top to bottom while tile
    /// rows run bottom to top, and the depth layer unchanged.
    pub open spec fn local_of(self, coord: Point3) -> Point3 {
        let width = self.chunk_width as int;
        let height = self.chunk_height as int;
        let cx = floor_div_spec(coord.x as int, width);
        let cy = floor_div_spec(coord.y as int, height);
        Point3 {
            x: (coord.x - cx * width) as i32,
            y: (height - 1 - (coord.y - cy * height)) as i32,
            z: coord.z,
        }
    }

    /// Creates a map of `dimensions` empty chunk slots, with the given
    /// uniform chunk extents and sprite-atlas handle, and a fresh log.
    pub fn new(dimensions: Dimensions2, chunk_width: u32, chunk_height: u32, texture_atlas: usize) -> (map: WorldMap)
        requires
            dimensions.x * dimensions.y <= usize::MAX,
            1 <= chunk_width <= i32::MAX,
            1 <= chunk_height <= i32::MAX,
        ensures
            map.wf(),
            map.dimensions == dimensions,
            map.chunk_width == chunk_width,
            map.chunk_height == chunk_height,
            map.texture_atlas == texture_atlas,
            forall|i: int| 0 <= i < map.chunk_count() ==> (#[trigger] map.handles@[i]) is None,
            forall|i: int| 0 <= i < map.chunk_count() ==> (#[trigger] map.entities@[i]) is None,
            map.events@ == (crate::events::EventsView {
                previous: Seq::<MapEventView>::empty(),
                current: Seq::<MapEventView>::empty(),
                first_id: 0int,
            }),
    {
        let size = (dimensions.x as usize) * (dimensions.y as usize);
        WorldMap {
            dimensions,
            chunk_width,
            chunk_height,
            handles: filled(size, None),
            entities: filled(size, None),
            events: Events::new(),
            texture_atlas,
        }
    }

    /// The map's extent, in chunks per axis.
    pub fn dimensions(&self) -> (dimensions: Dimensions2)
        ensures
            dimensions == self.dimensions,
    {
        self.dimensions
    }

    /// Replaces the map's extent, reallocating the handle and entity
    /// arrays: destructive, every slot comes back empty.
    pub fn set_dimensions(&mut self, dimensions: Dimensions2)
        requires
            old(self).wf(),
            dimensions.x * dimensions.y <= usize::MAX,
        ensures
            final(self).wf(),
            final(self).dimensions == dimensions,
            final(self).chunk_width == old(self).chunk_width,
            final(self).chunk_height == old(self).chunk_height,
            final(self).texture_atlas == old(self).texture_atlas,
            final(self).events == old(self).events,
            forall|i: int| 0 <= i < final(self).chunk_count() ==> (#[trigger] final(self).handles@[i]) is None,
            forall|i: int| 0 <= i < final(self).chunk_count() ==> (#[trigger] final(self).entities@[i]) is None,
    {
        let size = (dimensions.x as usize) * (dimensions.y as usize);
        self.handles = filled(size, None);
        self.entities = filled(size, None);
        self.dimensions = dimensions;
    }

    /// Sets the sprite sheet, or texture atlas, for use in the map.
    pub fn set_texture_atlas(&mut self, handle: usize)
        ensures
            *final(self) == (WorldMap { texture_atlas: handle, ..*old(self) }),
    {
        self.texture_atlas = handle;
    }

    /// The handle of the texture atlas.
    pub fn texture_atlas_handle(&self) -> (handle: usize)
        ensures
            handle == self.texture_atlas,
    {
        self.texture_atlas
    }

    /// Gets the chunk handle at an index position, if one exists there.
    pub fn get_chunk_handle(&self, index: usize) -> (handle: Option<usize>)
        ensures
            handle == (if index < self.handles@.len() {
                self.handles@[index as int]
            } else {
                None
            }),
    {
        if index < self.handles.len() {
            self.handles[index]
        } else {
            None
        }
    }

    /// Whether a visual entity exists at an index position.
    pub fn contains_entity(&self, index: usize) -> (present: bool)
        ensures
            present == (index < self.entities@.len() && self.entities@[index as int] is Some),
    {
        index < self.entities.len() && self.entities[index].is_some()
    }

    /// Stores a chunk handle at an index position. Prefer `add_chunk`,
    /// which also stores the chunk itself and records the event.
    pub fn push_chunk_handle(&mut self, index: usize, handle: Option<usize>)
        requires
            old(self).wf(),
            index < old(self).handles@.len(),
        ensures
            final(self).wf(),
            *final(self) == (WorldMap {
                handles: final(self).handles,
                ..*old(self)
            }),
            final(self).handles@ == old(self).handles@.update(index as int, handle),
    {
        self.handles.set(index, handle);
    }

    /// Clears the chunk handle at an index position, without touching the
    /// chunk arena: pairing this with a `Removed` event and a despawn is
    /// the caller's responsibility.
    pub fn remove_chunk_handle(&mut self, index: usize)
        requires
            old(self).wf(),
            index < old(self).handles@.len(),
        ensures
            final(self).wf(),
            *final(self) == (WorldMap {
                handles: final(self).handles,
                ..*old(self)
            }),
            final(self).handles@ == old(self).handles@.update(index as int, None),
    {
        self.handles.set(index, None);
    }

    /// Stores a visual entity at an index position.
    pub fn insert_entity(&mut self, index: usize, entity: Entity)
        requires
            old(self).wf(),
            index < old(self).entities@.len(),
        ensures
            final(self).wf(),
            *final(self) == (WorldMap {
                entities: final(self).entities,
                ..*old(self)
            }),
            final(self).entities@ == old(self).entities@.update(index as int, Some(entity)),
    {
        self.entities.set(index, Some(entity));
    }

    /// Gets the visual entity at an index position, if one exists there.
    pub fn get_entity(&self, index: usize) -> (entity: Option<Entity>)
        ensures
            entity == (if index < self.entities@.len() {
                self.entities@[index as int]
            } else {
                None
            }),
    {
        if index < self.entities.len() {
            self.entities[index]
        } else {
            None
        }
    }

    /// The map's event log.
    pub fn events(&self) -> (events: &Events)
        ensures
            *events == self.events,
    {
        &self.events
    }

    /// Sends an event by appending it to the log's open generation.
    pub fn send_event(&mut self, event: MapEvent)
        requires
            old(self).wf(),
        ensures
            final(self).wf(),
            *final(self) == (WorldMap { events: final(self).events, ..*old(self) }),
            final(self).events@ == old(self).events@.send(event@),
    {
        self.events.send(event);
    }

    /// Swaps the event log's buffers and discards the oldest generation.
    /// In general, this should be called once per frame.
    pub fn events_update(&mut self)
        requires
            old(self).wf(),
            old(self).events@.next_id() <= usize::MAX,
        ensures
            final(self).wf(),
            *final(self) == (WorldMap { events: final(self).events, ..*old(self) }),
            final(self).events@ == old(self).events@.update(),
    {
        self.events.update();
    }

    /// A fresh reader over the map's events, at cursor zero.
    pub fn events_reader(&self) -> (reader: EventReader)
        ensures
            reader.cursor == 0,
    {
        self.events.get_reader()
    }

    /// Adds a chunk: stores it in the arena under a fresh handle, records
    /// that handle at the coordinate's slot, and sends `Created`. The
    /// coordinate must already be in range.
    pub fn add_chunk(&mut self, chunk: Chunk, coord: Point2, chunks: &mut Chunks)
        requires
            old(self).wf(),
            old(self).coord_in_bounds(coord),
        ensures
            final(self).wf(),
            final(chunks)@ == old(chunks)@.push(Some(chunk)),
            *final(self) == (WorldMap {
                handles: final(self).handles,
                events: final(self).events,
                ..*old(self)
            }),
            final(self).handles@ == old(self).handles@.update(
                old(self).index_of(coord),
                Some(old(chunks)@.len() as usize),
            ),
            final(self).events@ == old(self).events@.send(MapEventView::Created {
                index: old(self).index_of(coord),
                handle: old(chunks)@.len() as int,
            }),
    {
        let index = to_index(coord, self.dimensions.x, self.dimensions.y);
        let handle = chunks.add(chunk);
        self.events.send(MapEvent::Created { index, handle });
        self.handles.set(index, Some(handle));
    }

    /// Sets a chunk under a caller-chosen handle at a coordinate
    /// position, replacing whatever the arena held under that handle. If
    /// a visual entity already exists at that coordinate, a `Refresh` is
    /// sent, else a `Created`.
    ///
    /// # Errors
    /// Returns `OutOfBounds`, changing nothing, when the coordinate is
    /// outside the map.
    pub fn set_chunk(&mut self, handle: usize, chunk: Chunk, coord: Point2, chunks: &mut Chunks) -> (result: MapResult<()>)
        requires
            old(self).wf(),
            handle < usize::MAX,
        ensures
            final(self).wf(),
            result is Ok <==> old(self).coord_in_bounds(coord),
            match result {
                Ok(()) => {
                    &&& final(chunks)@ == store_set(old(chunks)@, handle as int, chunk)
                    &&& *final(self) == (WorldMap { events: final(self).events, ..*old(self) })
                    &&& final(self).events@ == old(self).events@.send(
                        if old(self).entities@[old(self).index_of(coord)] is Some {
                            MapEventView::Refresh { handle: handle as int }
                        } else {
                            MapEventView::Created {
                                index: old(self).index_of(coord),
                                handle: handle as int,
                            }
                        },
                    )
                },
                Err(error) => {
                    &&& error.0 == ErrorKind::OutOfBounds
                    &&& *final(self) == *old(self)
                    &&& *final(chunks) == *old(chunks)
                },
            },
    {
        if coord.x < 0 || coord.y < 0 {
            return Err(MapError(ErrorKind::OutOfBounds));
        }
        if (coord.x as u32) >= self.dimensions.x || (coord.y as u32) >= self.dimensions.y {
            return Err(MapError(ErrorKind::OutOfBounds));
        }
        let index = to_index(coord, self.dimensions.x, self.dimensions.y);
        chunks.set(handle, chunk);
        if self.contains_entity(index) {
            self.events.send(MapEvent::Refresh { handle });
        } else {
            self.events.send(MapEvent::Created { index, handle });
        }
        Ok(())
    }

    /// Gets a reference to the chunk stored at a coordinate position:
    /// `None` when the slot is empty, or holds a handle the arena cannot
    /// resolve.
    ///
    /// # Errors
    /// Returns `OutOfBounds` when the coordinate is outside the map.
    pub fn get_chunk<'a>(&self, coord: Point2, chunks: &'a Chunks) -> (result: MapResult<Option<&'a Chunk>>)
        requires
            self.wf(),
        ensures
            result is Ok <==> self.coord_in_bounds(coord),
            match result {
                Ok(found) => match self.handles@[self.index_of(coord)] {
                    Some(handle) => match found {
                        Some(chunk) => handle < chunks@.len() && chunks@[handle as int] == Some(
                            *chunk,
                        ),
                        None => handle >= chunks@.len() || chunks@[handle as int] is None,
                    },
                    None => found is None,
                },
                Err(error) => error.0 == ErrorKind::OutOfBounds,
            },
    {
        if coord.x < 0 || coord.y < 0 {
            return Err(MapError(ErrorKind::OutOfBounds));
        }
        if (coord.x as u32) >= self.dimensions.x || (coord.y as u32) >= self.dimensions.y {
            return Err(MapError(ErrorKind::OutOfBounds));
        }
        let index = to_index(coord, self.dimensions.x, self.dimensions.y);
        match self.handles[index] {
            Some(handle) => Ok(chunks.get(handle)),
            None => Ok(None),
        }
    }

    /// Gets a mutable reference to the chunk stored at a coordinate
    /// position: `None` when the slot is empty, or holds a handle the
    /// arena cannot resolve.
    ///
    /// # Errors
    /// Returns `OutOfBounds` when the coordinate is outside the map.
    pub fn get_chunk_mut<'a>(&self, coord: Point2, chunks: &'a mut Chunks) -> (result: MapResult<
        Option<&'a mut Chunk>,
    >)
        requires
            self.wf(),
        ensures
            result is Ok <==> self.coord_in_bounds(coord),
            match result {
                Ok(found) => match self.handles@[self.index_of(coord)] {
                    Some(handle) => match found {
                        Some(chunk) => {
                            &&& handle < old(chunks)@.len()
                            &&& old(chunks)@[handle as int] == Some(*chunk)
                            &&& final(chunks)@ == old(chunks)@.update(
                                handle as int,
                                Some(*final(chunk)),
                            )
                        },
                        None => (handle >= old(chunks)@.len() || old(chunks)@[handle as int] is None)
                            && *final(chunks) == *old(chunks),
                    },
                    None => found is None && *final(chunks) == *old(chunks),
                },
                Err(error) => error.0 == ErrorKind::OutOfBounds && *final(chunks) == *old(chunks),
            },
    {
        if coord.x < 0 || coord.y < 0 {
            return Err(MapError(ErrorKind::OutOfBounds));
        }
        if (coord.x as u32) >= self.dimensions.x || (coord.y as u32) >= self.dimensions.y {
            return Err(MapError(ErrorKind::OutOfBounds));
        }
        let index = to_index(coord, self.dimensions.x, self.dimensions.y);
        match self.handles[index] {
            Some(handle) => {
                if chunks.contains(handle) {
                    Ok(Some(chunks.get_mut(handle)))
                } else {
                    Ok(None)
                }
            },
            None => Ok(None),
        }
    }

    /// Whether a chunk handle is stored at a coordinate position: false
    /// when the coordinate is outside the map or the slot is empty.
    pub fn chunk_exists(&self, coord: Point2) -> (present: bool)
        requires
            self.wf(),
        ensures
            present == (self.coord_in_bounds(coord) && self.handles@[self.index_of(coord)] is Some),
    {
        if coord.x < 0 || coord.y < 0 {
            return false;
        }
        if (coord.x as u32) >= self.dimensions.x || (coord.y as u32) >= self.dimensions.y {
            return false;
        }
        let index = to_index(coord, self.dimensions.x, self.dimensions.y);
        self.handles[index].is_some()
    }

    /// The batch entry's tile coordinate lies in a chunk of the map whose
    /// slot holds a chunk handle.
    pub open spec fn entry_valid(self, entry: (Point3, Tile)) -> bool {
        self.tile_in_bounds(entry.0) && self.tile_handle(entry.0) is Some
    }

    /// The handle of the chunk that owns a valid batch entry.
    pub open spec fn owner_of(self, entry: (Point3, Tile)) -> int {
        self.tile_handle(entry.0).unwrap() as int
    }

    /// The failure of the first invalid entry of a batch, in entry order:
    /// `OutOfBounds` when its owning chunk coordinate is off the map,
    /// `ChunkNotFound` when the slot there holds no chunk; `None` when
    /// every entry is valid.
    pub open spec fn first_bad(self, entries: Seq<(Point3, Tile)>) -> Option<ErrorKind>
        decreases entries.len(),
    {
        if entries.len() == 0 {
            None
        } else if !self.tile_in_bounds(entries[0].0) {
            Some(ErrorKind::OutOfBounds)
        } else if self.tile_handle(entries[0].0) is None {
            Some(ErrorKind::ChunkNotFound)
        } else {
            self.first_bad(entries.subrange(1, entries.len() as int))
        }
    }

    /// The handles of the chunks a batch touches, in order of each
    /// handle's first occurrence, each handle once.
    pub open spec fn group_handles(self, entries: Seq<(Point3, Tile)>) -> Seq<int>
        decreases entries.len(),
    {
        if entries.len() == 0 {
            Seq::empty()
        } else {
            let rest = self.group_handles(entries.drop_last());
            if rest.contains(self.owner_of(entries.last())) {
                rest
            } else {
                rest.push(self.owner_of(entries.last()))
            }
        }
    }

    /// The batch entries owned by the chunk under `handle`, in their
    /// original relative order, each with its coordinate turned into the
    /// tile's placement within that chunk's texture.
    pub open spec fn group_entries(self, entries: Seq<(Point3, Tile)>, handle: int) -> Seq<
        (Point3, Tile),
    >
        decreases entries.len(),
    {
        if entries.len() == 0 {
            Seq::empty()
        } else {
            let rest = self.group_entries(entries.drop_last(), handle);
            if self.owner_of(entries.last()) == handle {
                rest.push((self.local_of(entries.last().0), entries.last().1))
            } else {
                rest
            }
        }
    }

    /// A batch whose every entry is valid has no first failure.
    proof fn lemma_first_bad_none(self, entries: Seq<(Point3, Tile)>)
        requires
            forall|j: int| 0 <= j < entries.len() ==> self.entry_valid(#[trigger] entries[j]),
        ensures
            self.first_bad(entries) is None,
        decreases entries.len(),
    {
        if entries.len() > 0 {
            let rest = entries.subrange(1, entries.len() as int);
            assert(self.entry_valid(entries[0]));
            assert forall|j: int| 0 <= j < rest.len() implies self.entry_valid(#[trigger] rest[j]) by {
                assert(rest[j] == entries[j + 1]);
            }
            self.lemma_first_bad_none(rest);
        }
    }

    /// When every entry before `i` is valid and entry `i` is not, the
    /// batch's first failure is entry `i`'s.
    proof fn lemma_first_bad_at(self, entries: Seq<(Point3, Tile)>, i: int)
        requires
            0 <= i < entries.len(),
            forall|j: int| 0 <= j < i ==> self.entry_valid(#[trigger] entries[j]),
            !self.entry_valid(entries[i]),
        ensures
            self.first_bad(entries) == Some(
                if self.tile_in_bounds(entries[i].0) {
                    ErrorKind::ChunkNotFound
                } else {
                    ErrorKind::OutOfBounds
                },
            ),
        decreases i,
    {
        if i == 0 {
        } else {
            let rest = entries.subrange(1, entries.len() as int);
            assert(self.entry_valid(entries[0]));
            assert forall|j: int| 0 <= j < i - 1 implies self.entry_valid(#[trigger] rest[j]) by {
                assert(rest[j] == entries[j + 1]);
            }
            assert(rest[i - 1] == entries[i]);
            self.lemma_first_bad_at(rest, i - 1);
        }
    }

    /// Resolves the chunk that owns a tile coordinate and the tile's
    /// placement within that chunk's texture.
    fn resolve_tile(&self, coord: Point3) -> (result: MapResult<(usize, Point3)>)
        requires
            self.wf(),
        ensures
            match result {
                Ok((handle, local)) => {
                    &&& self.tile_in_bounds(coord)
                    &&& self.tile_handle(coord) == Some(handle)
                    &&& local == self.local_of(coord)
                },
                Err(error) => {
                    &&& !(self.tile_in_bounds(coord) && self.tile_handle(coord) is Some)
                    &&& error.0 == (if self.tile_in_bounds(coord) {
                        ErrorKind::ChunkNotFound
                    } else {
                        ErrorKind::OutOfBounds
                    })
                },
            },
    {
        let width = self.chunk_width as i32;
        let height = self.chunk_height as i32;
        let cx = floor_div(coord.x, width);
        let cy = floor_div(coord.y, height);
        if cx < 0 || cy < 0 {
            return Err(MapError(ErrorKind::OutOfBounds));
        }
        if (cx as u32) >= self.dimensions.x || (cy as u32) >= self.dimensions.y {
            return Err(MapError(ErrorKind::OutOfBounds));
        }
        let index = to_index(Point2 { x: cx, y: cy }, self.dimensions.x, self.dimensions.y);
        let handle = match self.handles[index] {
            Some(handle) => handle,
            None => {
                return Err(MapError(ErrorKind::ChunkNotFound));
            },
        };
        proof {
            let x = coord.x as int;
            let w = width as int;
            let y = coord.y as int;
            let h = height as int;
            lemma_fundamental_div_mod(x, w);
            lemma_mod_bound(x, w);
            lemma_fundamental_div_mod(y, h);
            lemma_mod_bound(y, h);
            assert(cx * w == x - (x % w)) by (nonlinear_arith)
                requires
                    cx == x / w,
                    x == w * (x / w) + x % w,
            ;
            assert(cy * h == y - (y % h)) by (nonlinear_arith)
                requires
                    cy == y / h,
                    y == h * (y / h) + y % h,
            ;
            assert(cx * w >= 0) by (nonlinear_arith)
                requires
                    cx >= 0,
                    w > 0,
            ;
            assert(cy * h >= 0) by (nonlinear_arith)
                requires
                    cy >= 0,
                    h > 0,
            ;
        }
        let local_x = coord.x - cx * width;
        let local_y = height - 1 - (coord.y - cy * height);
        Ok((handle, Point3 { x: local_x, y: local_y, z: coord.z }))
    }

    /// Sets a single tile: resolves the chunk that owns the tile
    /// coordinate, computes the tile's placement within that chunk's
    /// texture, and sends `Modified` with a one-entry batch.
    ///
    /// # Errors
    /// Returns `OutOfBounds`, changing nothing, when the owning chunk
    /// coordinate is outside the map, and `ChunkNotFound`, changing
    /// nothing, when the slot there holds no chunk.
    pub fn set_tile(&mut self, coord: Point3, tile: Tile) -> (result: MapResult<()>)
        requires
            old(self).wf(),
        ensures
            final(self).wf(),
            result is Ok <==> (old(self).tile_in_bounds(coord) && old(self).tile_handle(coord) is Some),
            match result {
                Ok(()) => {
                    &&& *final(self) == (WorldMap { events: final(self).events, ..*old(self) })
                    &&& final(self).events@ == old(self).events@.send(MapEventView::Modified {
                        handle: old(self).tile_handle(coord).unwrap() as int,
                        setter: seq![(old(self).local_of(coord), tile)],
                    })
                },
                Err(error) => {
                    &&& *final(self) == *old(self)
                    &&& error.0 == (if old(self).tile_in_bounds(coord) {
                        ErrorKind::ChunkNotFound
                    } else {
                        ErrorKind::OutOfBounds
                    })
                },
            },
    {
        match self.resolve_tile(coord) {
            Ok((handle, local)) => {
                let mut setter = TileSetter::with_capacity(1);
                setter.push(local, tile);
                self.events.send(MapEvent::Modified { handle, setter });
                proof {
                    assert(setter@ =~= seq![(old(self).local_of(coord), tile)]);
                }
                Ok(())
            },
            Err(error) => Err(error),
        }
    }

    /// The handle of a batch's last entry is always among the batch's
    /// group handles.
    proof fn lemma_group_handles_contains_last(self, entries: Seq<(Point3, Tile)>)
        requires
            entries.len() > 0,
        ensures
            self.group_handles(entries).contains(self.owner_of(entries.last())),
    {
        let rest = self.group_handles(entries.drop_last());
        let h = self.owner_of(entries.last());
        if !rest.contains(h) {
            assert(self.group_handles(entries)[rest.len() as int] == h);
        }
    }

    /// A handle that is not among a batch's group handles owns none of
    /// its entries.
    proof fn lemma_group_entries_absent(self, entries: Seq<(Point3, Tile)>, handle: int)
        requires
            !self.group_handles(entries).contains(handle),
        ensures
            self.group_entries(entries, handle) == Seq::<(Point3, Tile)>::empty(),
        decreases entries.len(),
    {
        if entries.len() > 0 {
            let rest = self.group_handles(entries.drop_last());
            self.lemma_group_handles_contains_last(entries);
            assert(self.owner_of(entries.last()) != handle);
            if rest.contains(handle) {
                let k = choose|k: int| 0 <= k < rest.len() && rest[k] == handle;
                if rest.contains(self.owner_of(entries.last())) {
                    assert(self.group_handles(entries)[k] == handle);
                } else {
                    assert(self.group_handles(entries)[k] == handle);
                }
                assert(false);
            }
            self.lemma_group_entries_absent(entries.drop_last(), handle);
        }
    }

    /// Sets many tiles using a batch: the entries are grouped by the
    /// chunk that owns them, and one `Modified` event is sent per
    /// distinct touched chunk, in order of each chunk's first occurrence,
    /// holding exactly that chunk's entries in their original relative
    /// order, each coordinate turned into the tile's placement within the
    /// chunk's texture.
    ///
    /// # Errors
    /// When any entry's owning chunk coordinate is off the map or its
    /// slot holds no chunk, nothing is sent and the first such entry's
    /// failure is returned.
    pub fn set_tiles(&mut self, setter: TileSetter) -> (result: MapResult<()>)
        requires
            old(self).wf(),
        ensures
            final(self).wf(),
            result is Ok <==> old(self).first_bad(setter@) is None,
            match result {
                Ok(()) => {
                    &&& *final(self) == (WorldMap { events: final(self).events, ..*old(self) })
                    &&& final(self).events@.previous == old(self).events@.previous
                    &&& final(self).events@.first_id == old(self).events@.first_id
                    &&& final(self).events@.current.len() == old(self).events@.current.len()
                        + old(self).group_handles(setter@).len()
                    &&& final(self).events@.current.take(old(self).events@.current.len() as int)
                        == old(self).events@.current
                    &&& forall|n: int|
                        old(self).events@.current.len() <= n < final(self).events@.current.len()
                            ==> #[trigger] final(self).events@.current[n] == (MapEventView::Modified {
                            handle: old(self).group_handles(setter@)[n - old(
                                self,
                            ).events@.current.len()],
                            setter: old(self).group_entries(
                                setter@,
                                old(self).group_handles(setter@)[n - old(self).events@.current.len()],
                            ),
                        })
                },
                Err(error) => {
                    &&& *final(self) == *old(self)
                    &&& Some(error.0) == old(self).first_bad(setter@)
                },
            },
    {
        let mut i: usize = 0;
        while i < setter.len()
            invariant
                *self == *old(self),
                old(self).wf(),
                i <= setter@.len(),
                forall|j: int| 0 <= j < i ==> old(self).entry_valid(#[trigger] setter@[j]),
            decreases setter@.len() - i,
        {
            let coord = setter.get(i).0;
            match self.resolve_tile(coord) {
                Ok(_) => {},
                Err(error) => {
                    proof {
                        self.lemma_first_bad_at(setter@, i as int);
                    }
                    return Err(error);
                },
            }
            i = i + 1;
        }
        proof {
            self.lemma_first_bad_none(setter@);
        }
        let mut groups: Vec<(usize, TileSetter)> = Vec::new();
        let mut i: usize = 0;
        while i < setter.len()
            invariant
                *self == *old(self),
                old(self).wf(),
                i <= setter@.len(),
                forall|j: int|
                    0 <= j < setter@.len() ==> old(self).entry_valid(#[trigger] setter@[j]),
                groups@.len() == old(self).group_handles(setter@.take(i as int)).len(),
                forall|k: int|
                    0 <= k < groups@.len() ==> (#[trigger] groups@[k]).0 as int == old(
                        self,
                    ).group_handles(setter@.take(i as int))[k],
                forall|k: int|
                    0 <= k < groups@.len() ==> (#[trigger] groups@[k]).1@ == old(
                        self,
                    ).group_entries(setter@.take(i as int), groups@[k].0 as int),
                forall|k1: int, k2: int|
                    0 <= k1 < k2 < groups@.len() ==> (#[trigger] groups@[k1]).0 != (
                    #[trigger] groups@[k2]).0,
            decreases setter@.len() - i,
        {
            let entry = setter.get(i);
            let coord = entry.0;
            let tile = entry.1;
            let (handle, local) = match self.resolve_tile(coord) {
                Ok(resolved) => resolved,
                Err(_) => {
                    proof {
                        assert(old(self).entry_valid(setter@[i as int]));
                    }
                    vstd::pervasive::unreached()
                },
            };
            let ghost prefix = setter@.take(i as int);
            let ghost extended = setter@.take(i as int + 1);
            let ghost groups0 = groups@;
            proof {
                assert(extended.drop_last() =~= prefix);
                assert(extended.last() == setter@[i as int]);
                assert(old(self).owner_of(extended.last()) == handle as int);
                assert forall|hh: int| #[trigger] old(self).group_entries(extended, hh) == (if hh
                    == handle as int {
                    old(self).group_entries(prefix, hh).push((local, tile))
                } else {
                    old(self).group_entries(prefix, hh)
                }) by {
                    assert(old(self).local_of(extended.last().0) == local);
                }
            }
            let mut j: usize = 0;
            let mut found = false;
            while j < groups.len() && !found
                invariant
                    groups@ == groups0,
                    j <= groups@.len(),
                    found ==> j < groups@.len() && groups@[j as int].0 == handle,
                    !found ==> forall|k: int| 0 <= k < j ==> (#[trigger] groups@[k]).0 != handle,
                decreases groups@.len() - j + (if found {
                    0int
                } else {
                    1int
                }),
            {
                if groups[j].0 == handle {
                    found = true;
                } else {
                    j = j + 1;
                }
            }
            if found {
                proof {
                    assert(old(self).group_handles(prefix).contains(handle as int)) by {
                        assert(old(self).group_handles(prefix)[j as int] == handle as int);
                    }
                    assert(old(self).group_handles(extended) == old(self).group_handles(prefix));
                }
                let g = &mut groups[j];
                g.1.push(local, tile);
            } else {
                proof {
                    assert(!old(self).group_handles(prefix).contains(handle as int)) by {
                        assert forall|k: int|
                            0 <= k < old(self).group_handles(prefix).len() implies old(
                            self,
                        ).group_handles(prefix)[k] != handle as int by {
                            assert(groups@[k].0 != handle);
                        }
                    }
                    assert(old(self).group_handles(extended) == old(self).group_handles(
                        prefix,
                    ).push(handle as int));
                    old(self).lemma_group_entries_absent(prefix, handle as int);
                }
                let mut group_setter = TileSetter::new();
                group_setter.push(local, tile);
                groups.push((handle, group_setter));
            }
            i = i + 1;
        }
        proof {
            assert(setter@.take(i as int) =~= setter@);
        }
        let ghost current0 = self.events@.current;
        let ghost groups_snapshot = groups@;
        let mut k: usize = 0;
        while k < groups.len()
            invariant
                old(self).wf(),
                self.wf(),
                k <= groups@.len(),
                groups@ == groups_snapshot,
                groups@.len() == old(self).group_handles(setter@).len(),
                forall|n: int|
                    0 <= n < groups@.len() ==> (#[trigger] groups@[n]).0 as int == old(
                        self,
                    ).group_handles(setter@)[n],
                forall|n: int|
                    0 <= n < groups@.len() ==> (#[trigger] groups@[n]).1@ == old(
                        self,
                    ).group_entries(setter@, groups@[n].0 as int),
                *self == (WorldMap { events: self.events, ..*old(self) }),
                current0 == old(self).events@.current,
                self.events@.previous == old(self).events@.previous,
                self.events@.first_id == old(self).events@.first_id,
                self.events@.current.len() == current0.len() + k,
                self.events@.current.take(current0.len() as int) == current0,
                forall|n: int|
                    current0.len() <= n < current0.len() + k ==> #[trigger] self.events@.current[n]
                        == (MapEventView::Modified {
                        handle: groups@[n - current0.len()].0 as int,
                        setter: groups@[n - current0.len()].1@,
                    }),
            decreases groups@.len() - k,
        {
            let ghost current_before = self.events@.current;
            let handle = groups[k].0;
            let event_setter = groups[k].1.clone();
            self.events.send(MapEvent::Modified { handle, setter: event_setter });
            proof {
                assert(self.events@.current =~= current_before.push(MapEventView::Modified {
                    handle: groups@[k as int].0 as int,
                    setter: groups@[k as int].1@,
                }));
                assert(self.events@.current.take(current0.len() as int) =~= current0);
            }
            k = k + 1;
        }
        Ok(())
    }

    /// Collects one frame's events, as the per-frame driver does: swaps
    /// the log's buffers, then drains a fresh reader. Delivered are
    /// exactly the events sent since the previous swap, in send order;
    /// the events delivered by the previous frame's collection are
    /// discarded.
    pub fn collect_frame_events(&mut self) -> (drained: Vec<MapEvent>)
        requires
            old(self).wf(),
            old(self).events@.next_id() <= usize::MAX,
        ensures
            final(self).wf(),
            *final(self) == (WorldMap { events: final(self).events, ..*old(self) }),
            final(self).events@ == old(self).events@.update(),
            drained@.map_values(|e: MapEvent| e@) == old(self).events@.current,
    {
        self.events.update();
        let mut reader = self.events.get_reader();
        let drained = reader.read(&self.events);
        proof {
            assert(self.events@.read_from(0) =~= old(self).events@.current);
        }
        drained
    }

    /// The tile coordinate of the map's visual center along the
    /// horizontal axis: half the map's extent in tiles, rounded down.
    pub open spec fn center_tile_x(self) -> int {
        self.dimensions.x * self.chunk_width / 2
    }

    /// The tile coordinate of the map's visual center along the vertical
    /// axis: half the map's extent in tiles, rounded down.
    pub open spec fn center_tile_y(self) -> int {
        self.dimensions.y * self.chunk_height / 2
    }

    /// The tile coordinate of the map's visual center: half the extent,
    /// in tiles, rounded down.
    pub fn center_tile_coord(&self) -> (center: Point2)
        requires
            self.wf(),
            self.center_tile_x() <= i32::MAX,
            self.center_tile_y() <= i32::MAX,
        ensures
            center.x == self.center_tile_x(),
            center.y == self.center_tile_y(),
    {
        proof {
            assert(self.dimensions.x * self.chunk_width <= u32::MAX * (i32::MAX as int))
                by (nonlinear_arith)
                requires
                    self.dimensions.x <= u32::MAX,
                    self.chunk_width <= i32::MAX,
            ;
            assert(self.dimensions.y * self.chunk_height <= u32::MAX * (i32::MAX as int))
                by (nonlinear_arith)
                requires
                    self.dimensions.y <= u32::MAX,
                    self.chunk_height <= i32::MAX,
            ;
        }
        let x = ((self.dimensions.x as u64) * (self.chunk_width as u64)) / 2;
        let y = ((self.dimensions.y as u64) * (self.chunk_height as u64)) / 2;
        Point2 { x: x as i32, y: y as i32 }
    }

    /// Takes a tile coordinate and returns the coordinate of the chunk
    /// that owns it.
    pub fn tile_coord_to_chunk_coord(&self, coord: Point3) -> (chunk_coord: Point2)
        requires
            self.wf(),
        ensures
            chunk_coord == self.chunk_coord_of(coord),
    {
        crate::coords::tile_coord_to_chunk_coord(coord, self.chunk_width, self.chunk_height)
    }

    /// Takes a world translation, in pixels, and returns the tile
    /// coordinate it falls on: each axis divided by the tile's pixel
    /// extent, rounded toward negative infinity, offset by the map's
    /// center tile coordinate.
    pub fn translation_to_tile_coord(&self, translation: Point2, tile_width: u32, tile_height: u32) -> (coord: Point2)
        requires
            self.wf(),
            1 <= tile_width <= i32::MAX,
            1 <= tile_height <= i32::MAX,
            self.center_tile_x() <= i32::MAX,
            self.center_tile_y() <= i32::MAX,
            i32::MIN <= floor_div_spec(translation.x as int, tile_width as int)
                + self.center_tile_x() <= i32::MAX,
            i32::MIN <= floor_div_spec(translation.y as int, tile_height as int)
                + self.center_tile_y() <= i32::MAX,
        ensures
            coord.x == floor_div_spec(translation.x as int, tile_width as int)
                + self.center_tile_x(),
            coord.y == floor_div_spec(translation.y as int, tile_height as int)
                + self.center_tile_y(),
    {
        let center = self.center_tile_coord();
        let x = floor_div(translation.x, tile_width as i32) + center.x;
        let y = floor_div(translation.y, tile_height as i32) + center.y;
        Point2 { x, y }
    }

    /// Takes a world translation, in pixels, and returns the chunk
    /// coordinate it falls in: each axis divided by the chunk's pixel
    /// extent, rounded toward negative infinity, offset by the map's
    /// center chunk coordinate.
    pub fn translation_to_chunk_coord(&self, translation: Point2, tile_width: u32, tile_height: u32) -> (coord: Point2)
        requires
            self.wf(),
            1 <= tile_width,
            1 <= tile_height,
            tile_width * self.chunk_width <= i32::MAX,
            tile_height * self.chunk_height <= i32::MAX,
            i32::MIN <= floor_div_spec(
                translation.x as int,
                tile_width * self.chunk_width,
            ) + self.dimensions.x as int / 2 <= i32::MAX,
            i32::MIN <= floor_div_spec(
                translation.y as int,
                tile_height * self.chunk_height,
            ) + self.dimensions.y as int / 2 <= i32::MAX,
        ensures
            coord.x == floor_div_spec(translation.x as int, tile_width * self.chunk_width)
                + self.dimensions.x as int / 2,
            coord.y == floor_div_spec(translation.y as int, tile_height * self.chunk_height)
                + self.dimensions.y as int / 2,
    {
        proof {
            assert(1 <= tile_width * self.chunk_width) by (nonlinear_arith)
                requires
                    tile_width >= 1,
                    self.chunk_width >= 1,
            ;
            assert(1 <= tile_height * self.chunk_height) by (nonlinear_arith)
                requires
                    tile_height >= 1,
                    self.chunk_height >= 1,
            ;
        }
        let span_x = (tile_width as u64) * (self.chunk_width as u64);
        let span_y = (tile_height as u64) * (self.chunk_height as u64);
        let x = floor_div(translation.x, span_x as i32) + (self.dimensions.x / 2) as i32;
        let y = floor_div(translation.y, span_y as i32) + (self.dimensions.y / 2) as i32;
        Point2 { x, y }
    }
}

} // verus!
