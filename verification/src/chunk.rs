//! Chunks: one fixed-size rectangular tile region each, with a dense or a
//! sparse tile layout, and the arena that owns every chunk and hands out
//! stable integer handles.

use vstd::prelude::*;
use crate::coords::Point2;
use crate::tile::{sparse_find, RawTile};

verus! {

/// How a chunk stores its tiles: a dense array with one optional slot per
/// local index, or a sparse list of (local index, tile) entries for
/// mostly-empty chunks.
#[derive(Debug)]
pub enum TileStorage {
    /// One slot per local index, present or empty.
    Dense(Vec<Option<RawTile>>),
    /// Entries for the present local indices only, each index at most once.
    Sparse(Vec<(usize, RawTile)>),
}

/// The sparse entries carry pairwise distinct local indices.
pub open spec fn distinct_keys(entries: Seq<(usize, RawTile)>) -> bool {
    forall|i: int, j: int|
        0 <= i < j < entries.len() ==> (#[trigger] entries[i]).0 != (#[trigger] entries[j]).0
}

/// Every local index of the sparse entries lies below `bound`.
pub open spec fn keys_below(entries: Seq<(usize, RawTile)>, bound: int) -> bool {
    forall|i: int| 0 <= i < entries.len() ==> (#[trigger] entries[i]).0 < bound
}

/// Reads a tile among sparse entries by its local index.
fn sparse_get(entries: &Vec<(usize, RawTile)>, index: usize) -> (tile: Option<RawTile>)
    requires
        distinct_keys(entries@),
    ensures
        tile == sparse_find(entries@, index as int),
{
    let mut i: usize = 0;
    while i < entries.len()
        invariant
            i <= entries@.len(),
            distinct_keys(entries@),
            forall|j: int| 0 <= j < i ==> (#[trigger] entries@[j]).0 != index,
        decreases entries@.len() - i,
    {
        if entries[i].0 == index {
            proof {
                lemma_sparse_find_present(entries@, i as int);
            }
            return Some(entries[i].1);
        }
        i = i + 1;
    }
    proof {
        lemma_sparse_find_absent(entries@, index as int);
    }
    None
}

/// Writes a tile among sparse entries by its local index, replacing the
/// entry that carries it or appending a new one.
fn sparse_put(entries: &mut Vec<(usize, RawTile)>, index: usize, tile: RawTile, Ghost(bound): Ghost<int>)
    requires
        distinct_keys(old(entries)@),
        keys_below(old(entries)@, bound),
        index < bound,
    ensures
        distinct_keys(final(entries)@),
        keys_below(final(entries)@, bound),
        forall|key: int|
            #[trigger] sparse_find(final(entries)@, key) == (if key == index {
                Some(tile)
            } else {
                sparse_find(old(entries)@, key)
            }),
{
    let ghost entries0 = entries@;
    let mut i: usize = 0;
    let mut found = false;
    while i < entries.len() && !found
        invariant
            i <= entries@.len(),
            entries@ == entries0,
            !found ==> forall|j: int| 0 <= j < i ==> (#[trigger] entries0[j]).0 != index,
            found ==> i < entries0.len() && entries0[i as int].0 == index,
        decreases entries@.len() - i + (if found { 0int } else { 1int }),
    {
        if entries[i].0 == index {
            found = true;
        } else {
            i = i + 1;
        }
    }
    if found {
        entries.set(i, (index, tile));
        proof {
            lemma_sparse_find_update(entries0, i as int, tile);
        }
    } else {
        entries.push((index, tile));
        proof {
            assert(entries@.drop_last() =~= entries0);
            assert forall|key: int| #[trigger] sparse_find(entries@, key) == (if key == index {
                Some(tile)
            } else {
                sparse_find(entries0, key)
            }) by {
                assert(entries@.last() == (index, tile));
            }
        }
    }
}

/// The present slots of a dense layout as sparse entries, in index order.
fn dense_entries(slots: &Vec<Option<RawTile>>) -> (entries: Vec<(usize, RawTile)>)
    ensures
        distinct_keys(entries@),
        keys_below(entries@, slots@.len() as int),
        forall|index: int| 0 <= index < slots@.len() ==> sparse_find(entries@, index) == slots@[index],
{
    let mut entries: Vec<(usize, RawTile)> = Vec::new();
    let mut i: usize = 0;
    while i < slots.len()
        invariant
            i <= slots@.len(),
            distinct_keys(entries@),
            keys_below(entries@, i as int),
            forall|index: int| 0 <= index < i ==> sparse_find(entries@, index) == slots@[index],
            forall|index: int| i <= index ==> sparse_find(entries@, index) is None,
        decreases slots@.len() - i,
    {
        let ghost entries0 = entries@;
        match slots[i] {
            Some(tile) => {
                entries.push((i, tile));
                proof {
                    assert(entries@.drop_last() =~= entries0);
                    assert forall|index: int| #[trigger] sparse_find(entries@, index) == (if index
                        == i {
                        Some(tile)
                    } else {
                        sparse_find(entries0, index)
                    }) by {
                        assert(entries@.last() == (i as usize, tile));
                    }
                }
            },
            None => {},
        }
        i = i + 1;
    }
    entries
}

/// Empties every slot of a dense layout.
fn clear_slots(slots: &mut Vec<Option<RawTile>>)
    ensures
        final(slots)@.len() == old(slots)@.len(),
        forall|j: int| 0 <= j < final(slots)@.len() ==> (#[trigger] final(slots)@[j]) is None,
{
    let len = slots.len();
    let mut i: usize = 0;
    while i < len
        invariant
            i <= len,
            slots@.len() == len,
            forall|j: int| 0 <= j < i ==> (#[trigger] slots@[j]) is None,
        decreases len - i,
    {
        slots.set(i, None);
        i = i + 1;
    }
}

/// A copy of the sparse entries, in order.
fn copy_entries(entries: &Vec<(usize, RawTile)>) -> (out: Vec<(usize, RawTile)>)
    ensures
        out@ == entries@,
{
    let mut out: Vec<(usize, RawTile)> = Vec::new();
    let mut i: usize = 0;
    while i < entries.len()
        invariant
            i <= entries@.len(),
            out@ =~= entries@.take(i as int),
        decreases entries@.len() - i,
    {
        out.push(entries[i]);
        i = i + 1;
    }
    proof {
        assert(out@ =~= entries@);
    }
    out
}

/// A dense layout of `area` empty slots.
fn empty_slots(area: usize) -> (slots: Vec<Option<RawTile>>)
    ensures
        slots@.len() == area,
        forall|j: int| 0 <= j < area ==> (#[trigger] slots@[j]) is None,
{
    let mut slots: Vec<Option<RawTile>> = Vec::new();
    while slots.len() < area
        invariant
            slots@.len() <= area,
            forall|j: int| 0 <= j < slots@.len() ==> (#[trigger] slots@[j]) is None,
        decreases area - slots@.len(),
    {
        slots.push(None);
    }
    slots
}

/// One rectangular tile region of `width` by `height` tiles, owning its
/// tile storage and a handle to its own destination pixel buffer.
#[derive(Debug)]
pub struct Chunk {
    /// The chunk's extent in tiles along the horizontal axis.
    pub width: u32,
    /// The chunk's extent in tiles along the vertical axis.
    pub height: u32,
    /// The tiles of the chunk, indexed by `local_y * width + local_x`.
    pub tiles: TileStorage,
    /// The handle of the chunk's own destination pixel buffer, if one has
    /// been attached.
    pub texture: Option<usize>,
}

impl Chunk {
    /// The number of local indices of the chunk.
    pub open spec fn area(self) -> int {
        self.width * self.height
    }

    /// The chunk is well formed: its extents are positive and small enough
    /// for local coordinates and attribute cells to fit the machine word,
    /// a dense layout has exactly one slot per local index, and a sparse
    /// layout carries each in-range local index at most once.
    pub open spec fn wf(self) -> bool {
        &&& 1 <= self.width <= i32::MAX
        &&& 1 <= self.height <= i32::MAX
        &&& self.area() * 4 <= usize::MAX
        &&& match self.tiles {
            TileStorage::Dense(slots) => slots@.len() == self.area(),
            TileStorage::Sparse(entries) => distinct_keys(entries@) && keys_below(
                entries@,
                self.area(),
            ),
        }
    }

    /// The tile at a local index, or `None` when the cell is empty.
    pub open spec fn tile_at(self, index: int) -> Option<RawTile> {
        match self.tiles {
            TileStorage::Dense(slots) => slots@[index],
            TileStorage::Sparse(entries) => sparse_find(entries@, index),
        }
    }

    /// Creates a chunk of `width` by `height` tiles with a dense layout,
    /// every cell empty.
    pub fn new_dense(width: u32, height: u32, texture: Option<usize>) -> (chunk: Chunk)
        requires
            1 <= width <= i32::MAX,
            1 <= height <= i32::MAX,
            width * height * 4 <= usize::MAX,
        ensures
            chunk.wf(),
            chunk.width == width,
            chunk.height == height,
            chunk.texture == texture,
            chunk.tiles is Dense,
            forall|index: int| 0 <= index < chunk.area() ==> chunk.tile_at(index) is None,
    {
        proof {
            assert(width * height <= width * height * 4) by (nonlinear_arith)
                requires
                    width >= 1,
                    height >= 1,
            ;
        }
        let area = (width as usize) * (height as usize);
        let slots = empty_slots(area);
        Chunk { width, height, tiles: TileStorage::Dense(slots), texture }
    }

    /// Creates a chunk of `width` by `height` tiles with a sparse layout,
    /// every cell empty.
    pub fn new_sparse(width: u32, height: u32, texture: Option<usize>) -> (chunk: Chunk)
        requires
            1 <= width <= i32::MAX,
            1 <= height <= i32::MAX,
            width * height * 4 <= usize::MAX,
        ensures
            chunk.wf(),
            chunk.width == width,
            chunk.height == height,
            chunk.texture == texture,
            chunk.tiles is Sparse,
            forall|index: int| 0 <= index < chunk.area() ==> chunk.tile_at(index) is None,
    {
        Chunk { width, height, tiles: TileStorage::Sparse(Vec::new()), texture }
    }

    /// The local coordinate is inside the chunk.
    pub open spec fn local_in_bounds(self, local: Point2) -> bool {
        0 <= local.x < self.width && 0 <= local.y < self.height
    }

    /// The flat local index of an in-bounds local coordinate.
    pub open spec fn local_index(self, local: Point2) -> int {
        local.y * self.width + local.x
    }

    /// Linearizes an in-bounds local coordinate into a flat local index.
    pub fn encode_coord(&self, local: Point2) -> (index: usize)
        requires
            self.wf(),
            self.local_in_bounds(local),
        ensures
            index == self.local_index(local),
            index < self.area(),
    {
        proof {
            crate::coords::lemma_index_in_range(
                local.x as int,
                local.y as int,
                self.width as int,
                self.height as int,
            );
        }
        (local.y as usize) * (self.width as usize) + (local.x as usize)
    }

    /// Writes a tile at an in-bounds local coordinate, replacing whatever
    /// the cell held; no other cell changes.
    pub fn set_tile(&mut self, local: Point2, tile: RawTile)
        requires
            old(self).wf(),
            old(self).local_in_bounds(local),
        ensures
            final(self).wf(),
            final(self).width == old(self).width,
            final(self).height == old(self).height,
            final(self).texture == old(self).texture,
            final(self).tile_at(old(self).local_index(local)) == Some(tile),
            forall|index: int|
                0 <= index < old(self).area() && index != old(self).local_index(local)
                    ==> final(self).tile_at(index) == old(self).tile_at(index),
    {
        let index = self.encode_coord(local);
        let ghost area = self.area();
        match &mut self.tiles {
            TileStorage::Dense(slots) => {
                slots.set(index, Some(tile));
            },
            TileStorage::Sparse(entries) => {
                sparse_put(entries, index, tile, Ghost(area));
            },
        }
    }

    /// Reads the tile at an in-bounds local coordinate, or `None` when the
    /// cell is empty.
    pub fn get_tile(&self, local: Point2) -> (tile: Option<RawTile>)
        requires
            self.wf(),
            self.local_in_bounds(local),
        ensures
            tile == self.tile_at(self.local_index(local)),
    {
        let index = self.encode_coord(local);
        match &self.tiles {
            TileStorage::Dense(slots) => slots[index],
            TileStorage::Sparse(entries) => sparse_get(entries, index),
        }
    }

    /// Empties every cell, keeping the chunk's extents, layout and pixel
    /// buffer handle.
    pub fn clean(&mut self)
        requires
            old(self).wf(),
        ensures
            final(self).wf(),
            final(self).width == old(self).width,
            final(self).height == old(self).height,
            final(self).texture == old(self).texture,
            forall|index: int| 0 <= index < final(self).area() ==> final(self).tile_at(index) is None,
    {
        match &mut self.tiles {
            TileStorage::Dense(slots) => {
                clear_slots(slots);
            },
            TileStorage::Sparse(entries) => {
                entries.clear();
            },
        }
        proof {
            if self.tiles is Sparse {
                assert forall|index: int| 0 <= index < self.area() implies self.tile_at(index) is None by {
                    match self.tiles {
                        TileStorage::Sparse(entries) => {
                            lemma_sparse_find_absent(entries@, index);
                        },
                        TileStorage::Dense(_) => {},
                    }
                }
            }
        }
    }

    /// The present tiles of the chunk as (local index, tile) entries, each
    /// in-range local index at most once: looking an index up among the
    /// entries gives exactly the chunk's cell.
    pub fn raw_tiles(&self) -> (entries: Vec<(usize, RawTile)>)
        requires
            self.wf(),
        ensures
            distinct_keys(entries@),
            keys_below(entries@, self.area()),
            forall|index: int|
                0 <= index < self.area() ==> sparse_find(entries@, index) == self.tile_at(index),
    {
        match &self.tiles {
            TileStorage::Dense(slots) => dense_entries(slots),
            TileStorage::Sparse(entries) => copy_entries(entries),
        }
    }
}

/// With the entry at position `i` replaced by one carrying the same local
/// index, looking that index up finds the replacement, and every other
/// index is unchanged, provided the indices were distinct.
proof fn lemma_sparse_find_update(entries: Seq<(usize, RawTile)>, i: int, tile: RawTile)
    requires
        0 <= i < entries.len(),
        distinct_keys(entries),
    ensures
        forall|key: int|
            #[trigger] sparse_find(entries.update(i, (entries[i].0, tile)), key) == (if key
                == entries[i].0 {
                Some(tile)
            } else {
                sparse_find(entries, key)
            }),
    decreases entries.len(),
{
    let updated = entries.update(i, (entries[i].0, tile));
    if i == entries.len() - 1 {
        assert(updated.drop_last() =~= entries.drop_last());
        assert forall|key: int| #[trigger] sparse_find(updated, key) == (if key == entries[i].0 {
            Some(tile)
        } else {
            sparse_find(entries, key)
        }) by {
            assert(updated.last() == (entries[i].0, tile));
            if key != entries[i].0 {
                assert(sparse_find(updated, key) == sparse_find(updated.drop_last(), key));
                assert(sparse_find(entries, key) == sparse_find(entries.drop_last(), key));
            }
        }
    } else {
        lemma_sparse_find_update(entries.drop_last(), i, tile);
        assert(entries.drop_last()[i] == entries[i]);
        assert(updated.drop_last() =~= entries.drop_last().update(i, (entries[i].0, tile)));
        assert forall|key: int| #[trigger] sparse_find(updated, key) == (if key == entries[i].0 {
            Some(tile)
        } else {
            sparse_find(entries, key)
        }) by {
            assert(updated.last() == entries.last());
            if key == entries.last().0 {
                assert(entries[i].0 != entries.last().0);
                assert(sparse_find(updated, key) == Some(entries.last().1));
                assert(sparse_find(entries, key) == Some(entries.last().1));
            } else {
                assert(sparse_find(updated, key) == sparse_find(updated.drop_last(), key));
                assert(sparse_find(entries, key) == sparse_find(entries.drop_last(), key));
                assert(sparse_find(entries.drop_last().update(i, (entries[i].0, tile)), key) == (
                if key == entries[i].0 {
                    Some(tile)
                } else {
                    sparse_find(entries.drop_last(), key)
                }));
            }
        }
    }
}

/// Looking up the index of entry `i` finds that entry, provided the
/// indices are distinct.
proof fn lemma_sparse_find_present(entries: Seq<(usize, RawTile)>, i: int)
    requires
        0 <= i < entries.len(),
        distinct_keys(entries),
    ensures
        sparse_find(entries, entries[i].0 as int) == Some(entries[i].1),
    decreases entries.len(),
{
    if i < entries.len() - 1 {
        assert(entries[i].0 != entries.last().0);
        lemma_sparse_find_present(entries.drop_last(), i);
        assert(entries.drop_last()[i] == entries[i]);
    }
}

/// Looking up an index that no entry carries finds nothing.
proof fn lemma_sparse_find_absent(entries: Seq<(usize, RawTile)>, key: int)
    requires
        forall|j: int| 0 <= j < entries.len() ==> (#[trigger] entries[j]).0 != key,
    ensures
        sparse_find(entries, key) is None,
    decreases entries.len(),
{
    if entries.len() > 0 {
        lemma_sparse_find_absent(entries.drop_last(), key);
    }
}

/// An arena owning every chunk, addressed by stable integer handles. The
/// map's handle array and the event log both carry these copyable handles;
/// the arena alone owns the chunks.
pub struct Chunks {
    items: Vec<Option<Chunk>>,
}

impl View for Chunks {
    type V = Seq<Option<Chunk>>;

    closed spec fn view(&self) -> Seq<Option<Chunk>> {
        self.items@
    }
}

/// The contents of a chunk arena after storing `chunk` under `handle`:
/// slots grow with empty cells as far as needed, and only `handle`
/// changes.
pub open spec fn store_set(slots: Seq<Option<Chunk>>, handle: int, chunk: Chunk) -> Seq<
    Option<Chunk>,
> {
    if handle < slots.len() {
        slots.update(handle, Some(chunk))
    } else {
        (slots + Seq::new((handle - slots.len()) as nat, |i: int| None)).push(Some(chunk))
    }
}

impl Chunks {
    /// Creates an empty arena.
    pub fn new() -> (chunks: Chunks)
        ensures
            chunks@ == Seq::<Option<Chunk>>::empty(),
    {
        Chunks { items: Vec::new() }
    }

    /// The number of slots ever allocated.
    pub fn len(&self) -> (n: usize)
        ensures
            n == self@.len(),
    {
        self.items.len()
    }

    /// Stores a chunk in a fresh slot and returns its handle.
    pub fn add(&mut self, chunk: Chunk) -> (handle: usize)
        ensures
            handle == old(self)@.len(),
            final(self)@ == old(self)@.push(Some(chunk)),
    {
        let handle = self.items.len();
        self.items.push(Some(chunk));
        handle
    }

    /// Stores a chunk under a caller-chosen handle, replacing what the
    /// slot held and growing the arena with empty slots as far as needed.
    pub fn set(&mut self, handle: usize, chunk: Chunk)
        requires
            handle < usize::MAX,
        ensures
            final(self)@ == store_set(old(self)@, handle as int, chunk),
    {
        if handle < self.items.len() {
            self.items.set(handle, Some(chunk));
        } else {
            let ghost slots0 = self.items@;
            while self.items.len() < handle
                invariant
                    slots0.len() <= self.items@.len() <= handle,
                    self.items@ =~= slots0 + Seq::new(
                        (self.items@.len() - slots0.len()) as nat,
                        |i: int| None,
                    ),
                decreases handle - self.items@.len(),
            {
                self.items.push(None);
            }
            self.items.push(Some(chunk));
            proof {
                assert(self.items@ =~= store_set(slots0, handle as int, chunk));
            }
        }
    }

    /// True when the handle addresses a stored chunk.
    pub fn contains(&self, handle: usize) -> (present: bool)
        ensures
            present == (handle < self@.len() && self@[handle as int] is Some),
    {
        handle < self.items.len() && self.items[handle].is_some()
    }

    /// Resolves a handle to the stored chunk, or `None` when the handle
    /// was never allocated or its slot is empty.
    pub fn get(&self, handle: usize) -> (chunk: Option<&Chunk>)
        ensures
            match chunk {
                Some(c) => handle < self@.len() && self@[handle as int] == Some(*c),
                None => handle >= self@.len() || self@[handle as int] is None,
            },
    {
        if handle < self.items.len() {
            match &self.items[handle] {
                Some(c) => Some(c),
                None => None,
            }
        } else {
            None
        }
    }

    /// Resolves a handle known to address a stored chunk, for mutation.
    pub fn get_mut(&mut self, handle: usize) -> (chunk: &mut Chunk)
        requires
            handle < old(self)@.len(),
            old(self)@[handle as int] is Some,
        ensures
            *chunk == old(self)@[handle as int].unwrap(),
            final(self)@ == old(self)@.update(handle as int, Some(*final(chunk))),
    {
        match &mut self.items[handle] {
            Some(c) => c,
            None => vstd::pervasive::unreached(),
        }
    }
}

} // verus!
