//! Tiles: the in-memory description of one cell, its compact render form,
//! a fluent builder, and the ordered batch used to stage many writes.

use vstd::prelude::*;
use crate::coords::{Point2, Point3};

verus! {

/// An RGBA color with 8-bit channels. The identity tint is opaque white;
/// a fully transparent color marks a cell the renderer must discard.
#[derive(Clone, Copy, Debug, PartialEq, Eq, Structural)]
pub struct Color {
    /// The red channel.
    pub r: u8,
    /// The green channel.
    pub g: u8,
    /// The blue channel.
    pub b: u8,
    /// The alpha channel; zero means fully transparent.
    pub a: u8,
}

impl Color {
    /// Creates a color from its four channels.
    pub fn new(r: u8, g: u8, b: u8, a: u8) -> (c: Color)
        ensures
            c == (Color { r, g, b, a }),
    {
        Color { r, g, b, a }
    }

    /// Opaque white, the identity tint.
    pub fn white() -> (c: Color)
        ensures
            c == (Color { r: 255u8, g: 255u8, b: 255u8, a: 255u8 }),
    {
        Color { r: 255, g: 255, b: 255, a: 255 }
    }

    /// Fully transparent black, the sentinel for cells never written.
    pub fn transparent() -> (c: Color)
        ensures
            c == (Color { r: 0u8, g: 0u8, b: 0u8, a: 0u8 }),
    {
        Color { r: 0, g: 0, b: 0, a: 0 }
    }
}

/// One cell's visual description: where it sits, its draw order, which
/// sprite of the shared sheet it shows, its tint, and its orientation.
#[derive(Clone, Copy, Debug, PartialEq, Eq, Structural)]
#[non_exhaustive]
pub struct Tile {
    /// A point where the tile will exist.
    pub point: Point2,
    /// The Z order layer of the tile. Higher will place the tile above others.
    pub z_order: usize,
    /// The sprite's index in the texture atlas.
    pub sprite_index: usize,
    /// The desired tint and alpha of the tile. White means no change.
    pub tint: Color,
    /// Whether the sprite is mirrored left-to-right.
    pub is_horizontally_flipped: bool,
    /// Whether the sprite is mirrored top-to-bottom.
    pub is_vertically_flipped: bool,
}

/// The orientation flags of a tile packed into the low bits of a word:
/// bit 0 set when horizontally flipped, bit 1 set when vertically flipped.
pub open spec fn tile_flags_spec(tile: Tile) -> u32 {
    ((if tile.is_horizontally_flipped {
        1int
    } else {
        0int
    }) + (if tile.is_vertically_flipped {
        2int
    } else {
        0int
    })) as u32
}

/// The compact render form of a [`Tile`]: its sprite index, its color, and
/// its orientation flags bit-packed by [`tile_flags_spec`].
pub open spec fn raw_tile_spec(tile: Tile) -> RawTile {
    RawTile { index: tile.sprite_index, color: tile.tint, flags: tile_flags_spec(tile) }
}

impl Default for Tile {
    /// The tile at the origin showing sprite zero, untinted and unflipped.
    fn default() -> (tile: Tile)
        ensures
            tile == (Tile {
                point: Point2 { x: 0, y: 0 },
                z_order: 0usize,
                sprite_index: 0usize,
                tint: Color { r: 255u8, g: 255u8, b: 255u8, a: 255u8 },
                is_horizontally_flipped: false,
                is_vertically_flipped: false,
            }),
    {
        Tile {
            point: Point2 { x: 0, y: 0 },
            z_order: 0,
            sprite_index: 0,
            tint: Color::white(),
            is_horizontally_flipped: false,
            is_vertically_flipped: false,
        }
    }
}

impl Tile {
    /// Creates a new tile with a provided point and sprite index, untinted.
    pub fn new(point: Point2, sprite_index: usize) -> (tile: Tile)
        ensures
            tile == (Tile {
                point,
                z_order: 0usize,
                sprite_index,
                tint: Color { r: 255u8, g: 255u8, b: 255u8, a: 255u8 },
                is_horizontally_flipped: false,
                is_vertically_flipped: false,
            }),
    {
        Tile {
            point,
            z_order: 0,
            sprite_index,
            tint: Color::white(),
            is_horizontally_flipped: false,
            is_vertically_flipped: false,
        }
    }

    /// Creates a new tile with a given Z order and sprite index at a point.
    pub fn with_z_order(point: Point2, sprite_index: usize, z_order: usize) -> (tile: Tile)
        ensures
            tile == (Tile {
                point,
                z_order,
                sprite_index,
                tint: Color { r: 255u8, g: 255u8, b: 255u8, a: 255u8 },
                is_horizontally_flipped: false,
                is_vertically_flipped: false,
            }),
    {
        Tile {
            point,
            z_order,
            sprite_index,
            tint: Color::white(),
            is_horizontally_flipped: false,
            is_vertically_flipped: false,
        }
    }

    /// Creates a new tile with a tint color and a given sprite index.
    pub fn with_tint(point: Point2, sprite_index: usize, tint: Color) -> (tile: Tile)
        ensures
            tile == (Tile {
                point,
                z_order: 0usize,
                sprite_index,
                tint,
                is_horizontally_flipped: false,
                is_vertically_flipped: false,
            }),
    {
        Tile {
            point,
            z_order: 0,
            sprite_index,
            tint,
            is_horizontally_flipped: false,
            is_vertically_flipped: false,
        }
    }

    /// Creates a new tile with a given Z order, sprite index and tint at a
    /// point.
    pub fn with_z_order_and_tint(point: Point2, sprite_index: usize, z_order: usize, tint: Color) -> (tile: Tile)
        ensures
            tile == (Tile {
                point,
                z_order,
                sprite_index,
                tint,
                is_horizontally_flipped: false,
                is_vertically_flipped: false,
            }),
    {
        Tile {
            point,
            z_order,
            sprite_index,
            tint,
            is_horizontally_flipped: false,
            is_vertically_flipped: false,
        }
    }
}

/// A raw tile composed of simply an index, a color and packed flags. It is
/// the one-way render-attribute export form of a [`Tile`], never used for
/// authoring.
#[derive(Clone, Copy, Debug, PartialEq, Eq, Structural)]
pub struct RawTile {
    /// The index of the tile in the sprite sheet.
    pub index: usize,
    /// The color, or tint, of the tile.
    pub color: Color,
    /// The flags for this tile: bit 0 is horizontal flip, bit 1 vertical.
    pub flags: u32,
}

impl From<Tile> for RawTile {
    fn from(tile: Tile) -> (raw: RawTile) {
        let mut flags: u32 = 0;
        if tile.is_horizontally_flipped {
            flags = flags + 1;
        }
        if tile.is_vertically_flipped {
            flags = flags + 2;
        }
        RawTile { index: tile.sprite_index, color: tile.tint, flags }
    }
}

impl vstd::std_specs::convert::FromSpecImpl<Tile> for RawTile {
    open spec fn obeys_from_spec() -> bool {
        true
    }

    open spec fn from_spec(tile: Tile) -> RawTile {
        raw_tile_spec(tile)
    }
}

/// A fluent builder assembling a [`Tile`] field by field.
#[derive(Clone, Copy, Debug, PartialEq, Eq, Structural)]
pub struct TileBuilder {
    /// The point at which the built tile will exist.
    pub point: Point2,
    /// The Z order layer of the built tile.
    pub z_order: usize,
    /// The sprite's index in the texture atlas.
    pub sprite_index: usize,
    /// The tint and alpha of the built tile.
    pub tint: Color,
    /// Whether the sprite is mirrored left-to-right.
    pub is_horizontally_flipped: bool,
    /// Whether the sprite is mirrored top-to-bottom.
    pub is_vertically_flipped: bool,
}

impl Default for TileBuilder {
    /// A builder whose every field starts at the default tile's value.
    fn default() -> (builder: TileBuilder)
        ensures
            builder == (TileBuilder {
                point: Point2 { x: 0, y: 0 },
                z_order: 0usize,
                sprite_index: 0usize,
                tint: Color { r: 255u8, g: 255u8, b: 255u8, a: 255u8 },
                is_horizontally_flipped: false,
                is_vertically_flipped: false,
            }),
    {
        TileBuilder {
            point: Point2 { x: 0, y: 0 },
            z_order: 0,
            sprite_index: 0,
            tint: Color::white(),
            is_horizontally_flipped: false,
            is_vertically_flipped: false,
        }
    }
}

impl TileBuilder {
    /// Creates a builder with every field at its default.
    pub fn new() -> (builder: TileBuilder)
        ensures
            builder == (TileBuilder {
                point: Point2 { x: 0, y: 0 },
                z_order: 0usize,
                sprite_index: 0usize,
                tint: Color { r: 255u8, g: 255u8, b: 255u8, a: 255u8 },
                is_horizontally_flipped: false,
                is_vertically_flipped: false,
            }),
    {
        TileBuilder::default()
    }

    /// Sets the point at which the tile will exist.
    pub fn point(self, point: Point2) -> (builder: TileBuilder)
        ensures
            builder == (TileBuilder { point, ..self }),
    {
        TileBuilder { point, ..self }
    }

    /// Sets the Z order layer of the tile.
    pub fn z_order(self, z_order: usize) -> (builder: TileBuilder)
        ensures
            builder == (TileBuilder { z_order, ..self }),
    {
        TileBuilder { z_order, ..self }
    }

    /// Sets the sprite's index in the texture atlas.
    pub fn sprite_index(self, sprite_index: usize) -> (builder: TileBuilder)
        ensures
            builder == (TileBuilder { sprite_index, ..self }),
    {
        TileBuilder { sprite_index, ..self }
    }

    /// Sets the tint and alpha of the tile.
    pub fn tint(self, tint: Color) -> (builder: TileBuilder)
        ensures
            builder == (TileBuilder { tint, ..self }),
    {
        TileBuilder { tint, ..self }
    }

    /// Sets whether the sprite is mirrored left-to-right.
    pub fn is_horizontally_flipped(self, is_horizontally_flipped: bool) -> (builder: TileBuilder)
        ensures
            builder == (TileBuilder { is_horizontally_flipped, ..self }),
    {
        TileBuilder { is_horizontally_flipped, ..self }
    }

    /// Sets whether the sprite is mirrored top-to-bottom.
    pub fn is_vertically_flipped(self, is_vertically_flipped: bool) -> (builder: TileBuilder)
        ensures
            builder == (TileBuilder { is_vertically_flipped, ..self }),
    {
        TileBuilder { is_vertically_flipped, ..self }
    }

    /// Produces the tile described so far.
    pub fn finish(self) -> (tile: Tile)
        ensures
            tile == (Tile {
                point: self.point,
                z_order: self.z_order,
                sprite_index: self.sprite_index,
                tint: self.tint,
                is_horizontally_flipped: self.is_horizontally_flipped,
                is_vertically_flipped: self.is_vertically_flipped,
            }),
    {
        Tile {
            point: self.point,
            z_order: self.z_order,
            sprite_index: self.sprite_index,
            tint: self.tint,
            is_horizontally_flipped: self.is_horizontally_flipped,
            is_vertically_flipped: self.is_vertically_flipped,
        }
    }
}

/// An ordered batch of (local coordinate, tile) writes. Insertion order is
/// preserved and duplicates are allowed; consumers replay all entries in
/// order.
#[derive(Debug, PartialEq)]
pub struct TileSetter {
    entries: Vec<(Point3, Tile)>,
}

impl View for TileSetter {
    type V = Seq<(Point3, Tile)>;

    closed spec fn view(&self) -> Seq<(Point3, Tile)> {
        self.entries@
    }
}

impl Clone for TileSetter {
    /// A clone holds exactly the same entries in the same order.
    fn clone(&self) -> (setter: Self)
        ensures
            setter@ == self@,
    {
        let mut entries: Vec<(Point3, Tile)> = Vec::new();
        let mut i: usize = 0;
        while i < self.entries.len()
            invariant
                i <= self.entries.len(),
                entries@ =~= self.entries@.take(i as int),
            decreases self.entries.len() - i,
        {
            entries.push(self.entries[i]);
            i = i + 1;
        }
        proof {
            assert(entries@ =~= self.entries@);
        }
        TileSetter { entries }
    }
}

impl TileSetter {
    /// Creates an empty batch.
    pub fn new() -> (setter: TileSetter)
        ensures
            setter@ == Seq::<(Point3, Tile)>::empty(),
    {
        TileSetter { entries: Vec::new() }
    }

    /// Creates an empty batch with room reserved for `capacity` entries.
    pub fn with_capacity(capacity: usize) -> (setter: TileSetter)
        ensures
            setter@ == Seq::<(Point3, Tile)>::empty(),
    {
        TileSetter { entries: Vec::with_capacity(capacity) }
    }

    /// Appends one (coordinate, tile) write to the batch.
    pub fn push(&mut self, coord: Point3, tile: Tile)
        ensures
            final(self)@ == old(self)@.push((coord, tile)),
    {
        self.entries.push((coord, tile));
    }

    /// The number of staged writes.
    pub fn len(&self) -> (n: usize)
        ensures
            n == self@.len(),
    {
        self.entries.len()
    }

    /// True when no write is staged.
    pub fn is_empty(&self) -> (empty: bool)
        ensures
            empty == (self@.len() == 0),
    {
        self.entries.len() == 0
    }

    /// The staged write at position `i`.
    pub fn get(&self, i: usize) -> (entry: &(Point3, Tile))
        requires
            i < self@.len(),
        ensures
            *entry == self@[i as int],
    {
        &self.entries[i]
    }
}

/// Looks a local index up among sparse entries: the value of the latest
/// entry carrying that index, or `None` when no entry does.
pub open spec fn sparse_find(entries: Seq<(usize, RawTile)>, key: int) -> Option<RawTile>
    decreases entries.len(),
{
    if entries.len() == 0 {
        None
    } else if entries.last().0 == key {
        Some(entries.last().1)
    } else {
        sparse_find(entries.drop_last(), key)
    }
}

/// A vector of `n` copies of one value.
pub(crate) fn filled<T: Copy>(n: usize, value: T) -> (r: Vec<T>)
    ensures
        r@ == Seq::new(n as nat, |i: int| value),
{
    let mut r: Vec<T> = Vec::new();
    while r.len() < n
        invariant
            r.len() <= n,
            r@ =~= Seq::new(r.len() as nat, |i: int| value),
        decreases n - r.len(),
    {
        r.push(value);
    }
    proof {
        assert(r@ =~= Seq::new(n as nat, |i: int| value));
    }
    r
}

/// Splits a dense array of raw tiles into three parallel per-vertex
/// attribute arrays (sprite index, flags, color), replicating each tile's
/// attributes four times, once per quad corner.
pub fn dense_tiles_to_attributes(tiles: &Vec<RawTile>) -> (attributes: (Vec<usize>, Vec<u32>, Vec<Color>))
    requires
        tiles@.len() * 4 <= usize::MAX,
    ensures
        attributes.0@.len() == tiles@.len() * 4,
        attributes.1@.len() == tiles@.len() * 4,
        attributes.2@.len() == tiles@.len() * 4,
        forall|k: int|
            0 <= k < tiles@.len() * 4 ==> {
                &&& #[trigger] attributes.0@[k] == tiles@[k / 4].index
                &&& attributes.1@[k] == tiles@[k / 4].flags
                &&& attributes.2@[k] == tiles@[k / 4].color
            },
{
    let mut tile_indexes: Vec<usize> = Vec::new();
    let mut tile_flags: Vec<u32> = Vec::new();
    let mut tile_colors: Vec<Color> = Vec::new();
    let mut i: usize = 0;
    while i < tiles.len()
        invariant
            i <= tiles@.len(),
            tiles@.len() * 4 <= usize::MAX,
            tile_indexes@.len() == i * 4,
            tile_flags@.len() == i * 4,
            tile_colors@.len() == i * 4,
            forall|k: int|
                0 <= k < i * 4 ==> {
                    &&& #[trigger] tile_indexes@[k] == tiles@[k / 4].index
                    &&& tile_flags@[k] == tiles@[k / 4].flags
                    &&& tile_colors@[k] == tiles@[k / 4].color
                },
        decreases tiles@.len() - i,
    {
        proof {
            assert(i * 4 + 4 <= tiles@.len() * 4) by (nonlinear_arith)
                requires
                    i < tiles@.len(),
            ;
        }
        let tile: RawTile = tiles[i];
        let mut j: usize = 0;
        while j < 4
            invariant
                j <= 4,
                i < tiles@.len(),
                tile == tiles@[i as int],
                tile_indexes@.len() == i * 4 + j,
                tile_flags@.len() == i * 4 + j,
                tile_colors@.len() == i * 4 + j,
                forall|k: int|
                    0 <= k < i * 4 ==> {
                        &&& tile_indexes@[k] == tiles@[k / 4].index
                        &&& tile_flags@[k] == tiles@[k / 4].flags
                        &&& tile_colors@[k] == tiles@[k / 4].color
                    },
                forall|k: int|
                    i * 4 <= k < i * 4 + j ==> {
                        &&& #[trigger] tile_indexes@[k] == tile.index
                        &&& tile_flags@[k] == tile.flags
                        &&& tile_colors@[k] == tile.color
                    },
                i * 4 + 4 <= tiles@.len() * 4,
            decreases 4 - j,
        {
            tile_indexes.push(tile.index);
            tile_flags.push(tile.flags);
            tile_colors.push(tile.color);
            j = j + 1;
        }
        i = i + 1;
        proof {
            assert forall|k: int| 0 <= k < i * 4 implies {
                &&& tile_indexes@[k] == tiles@[k / 4].index
                &&& tile_flags@[k] == tiles@[k / 4].flags
                &&& tile_colors@[k] == tiles@[k / 4].color
            } by {
                if k >= (i - 1) * 4 {
                    assert(k / 4 == i - 1) by (nonlinear_arith)
                        requires
                            (i - 1) * 4 <= k < i * 4,
                    ;
                }
            }
        }
    }
    (tile_indexes, tile_flags, tile_colors)
}

/// One attribute cell of a sparse export is correct: cell `k` belongs to
/// local index `k / 4`, and holds that entry's attributes when the mapping
/// carries the index, or the transparent zero sentinel when it does not.
pub open spec fn sparse_cell_ok(
    idxs: Seq<usize>,
    flags: Seq<u32>,
    colors: Seq<Color>,
    entries: Seq<(usize, RawTile)>,
    k: int,
) -> bool {
    match sparse_find(entries, k / 4) {
        Some(tile) => {
            &&& idxs[k] == tile.index
            &&& flags[k] == tile.flags
            &&& colors[k] == tile.color
        },
        None => {
            &&& idxs[k] == 0
            &&& flags[k] == 0
            &&& colors[k] == (Color { r: 0u8, g: 0u8, b: 0u8, a: 0u8 })
        },
    }
}

/// Splits a sparse mapping from local index to raw tile into three
/// parallel per-vertex attribute arrays of length `area * 4`. Cells whose
/// index no entry carries keep a fully transparent zero sentinel, which
/// tells the renderer to discard them; entries at or beyond `area` are
/// ignored.
pub fn sparse_tiles_to_attributes(area: usize, tiles: &Vec<(usize, RawTile)>) -> (attributes: (
    Vec<usize>,
    Vec<u32>,
    Vec<Color>,
))
    requires
        area * 4 <= usize::MAX,
        forall|i: int, j: int| 0 <= i < j < tiles@.len() ==> (#[trigger] tiles@[i]).0 != (#[trigger] tiles@[j]).0,
    ensures
        attributes.0@.len() == area * 4,
        attributes.1@.len() == area * 4,
        attributes.2@.len() == area * 4,
        forall|k: int|
            0 <= k < area * 4 ==> #[trigger] sparse_cell_ok(attributes.0@, attributes.1@, attributes.2@, tiles@, k),
{
    let capacity: usize = area * 4;
    let mut tile_indexes: Vec<usize> = filled(capacity, 0);
    let mut tile_flags: Vec<u32> = filled(capacity, 0);
    let mut tile_colors: Vec<Color> = filled(capacity, Color::transparent());
    let mut i: usize = 0;
    while i < tiles.len()
        invariant
            i <= tiles@.len(),
            area * 4 <= usize::MAX,
            tile_indexes@.len() == area * 4,
            tile_flags@.len() == area * 4,
            tile_colors@.len() == area * 4,
            forall|k: int|
                0 <= k < area * 4 ==> #[trigger] sparse_cell_ok(
                    tile_indexes@,
                    tile_flags@,
                    tile_colors@,
                    tiles@.take(i as int),
                    k,
                ),
        decreases tiles@.len() - i,
    {
        let (key, tile): (usize, RawTile) = tiles[i];
        let ghost prefix = tiles@.take(i as int);
        let ghost extended = tiles@.take(i as int + 1);
        let ghost idxs0 = tile_indexes@;
        let ghost flags0 = tile_flags@;
        let ghost colors0 = tile_colors@;
        proof {
            assert(extended.drop_last() =~= prefix);
            assert(extended.last() == tiles@[i as int]);
            assert forall|key2: int| #[trigger] sparse_find(extended, key2) == (if tiles@[i as int].0 == key2 {
                Some(tiles@[i as int].1)
            } else {
                sparse_find(prefix, key2)
            }) by {
                assert(extended.len() == i + 1);
            }
        }
        if key < area {
            let base: usize = key * 4;
            proof {
                assert(key * 4 + 4 <= area * 4) by (nonlinear_arith)
                    requires
                        key < area,
                ;
            }
            tile_indexes.set(base, tile.index);
            tile_indexes.set(base + 1, tile.index);
            tile_indexes.set(base + 2, tile.index);
            tile_indexes.set(base + 3, tile.index);
            tile_flags.set(base, tile.flags);
            tile_flags.set(base + 1, tile.flags);
            tile_flags.set(base + 2, tile.flags);
            tile_flags.set(base + 3, tile.flags);
            tile_colors.set(base, tile.color);
            tile_colors.set(base + 1, tile.color);
            tile_colors.set(base + 2, tile.color);
            tile_colors.set(base + 3, tile.color);
        }
        i = i + 1;
        proof {
            assert(tiles@.take(i as int) =~= extended);
            assert forall|k: int| 0 <= k < area * 4 implies #[trigger] sparse_cell_ok(
                tile_indexes@,
                tile_flags@,
                tile_colors@,
                tiles@.take(i as int),
                k,
            ) by {
                let c = k / 4;
                assert(sparse_cell_ok(idxs0, flags0, colors0, prefix, k));
                assert(0 <= c < area && 4 * c <= k < 4 * c + 4) by (nonlinear_arith)
                    requires
                        0 <= k < area * 4,
                        c == k / 4,
                ;
                if key < area && c == key {
                    assert(sparse_find(extended, c) == Some(tiles@[i as int - 1].1));
                } else {
                    assert(sparse_find(extended, c) == sparse_find(prefix, c));
                }
            }
        }
    }
    proof {
        assert(tiles@.take(i as int) =~= tiles@);
    }
    (tile_indexes, tile_flags, tile_colors)
}

} // verus!
