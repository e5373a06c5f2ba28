//! Coordinate spaces and the arithmetic that relates them.
//!
//! Three spaces are in play: the flat storage index of a chunk inside the
//! map's handle array, the 2-D chunk coordinate (in chunks), and the tile
//! coordinate (in tiles). Tile and world coordinates may be negative, so
//! the conversions divide with rounding toward negative infinity.

use vstd::prelude::*;

verus! {

/// A 2-D integer coordinate.
#[derive(Clone, Copy, Debug, PartialEq, Eq, Structural)]
pub struct Point2 {
    /// The horizontal position.
    pub x: i32,
    /// The vertical position.
    pub y: i32,
}

impl Point2 {
    /// Creates a point from its two components.
    pub fn new(x: i32, y: i32) -> (p: Point2)
        ensures
            p == (Point2 { x, y }),
    {
        Point2 { x, y }
    }
}

/// A 3-D integer coordinate: a tile position together with its depth layer.
#[derive(Clone, Copy, Debug, PartialEq, Eq, Structural)]
pub struct Point3 {
    /// The horizontal position.
    pub x: i32,
    /// The vertical position.
    pub y: i32,
    /// The depth layer.
    pub z: i32,
}

impl Point3 {
    /// Creates a point from its three components.
    pub fn new(x: i32, y: i32, z: i32) -> (p: Point3)
        ensures
            p == (Point3 { x, y, z }),
    {
        Point3 { x, y, z }
    }
}

/// A map's extent, in chunks per axis.
#[derive(Clone, Copy, Debug, PartialEq, Eq, Structural)]
pub struct Dimensions2 {
    /// The number of chunks along the horizontal axis.
    pub x: u32,
    /// The number of chunks along the vertical axis.
    pub y: u32,
}

impl Dimensions2 {
    /// Creates an extent from its two components.
    pub fn new(x: u32, y: u32) -> (d: Dimensions2)
        ensures
            d == (Dimensions2 { x, y }),
    {
        Dimensions2 { x, y }
    }
}

/// The flat storage index of the chunk coordinate `(x, y)` on a map that is
/// `mx` chunks wide: row-major, `y * mx + x`.
pub open spec fn index_spec(x: int, y: int, mx: int) -> int {
    y * mx + x
}

/// Linearizes an in-range chunk coordinate into a flat storage index.
///
/// Out-of-range coordinates would alias a slot of some other row, so the
/// caller must bounds-check first; every in-range coordinate maps to an
/// index below `mx * my`, and distinct coordinates map to distinct indices.
pub fn to_index(coord: Point2, mx: u32, my: u32) -> (index: usize)
    requires
        0 <= coord.x < mx,
        0 <= coord.y < my,
        mx * my <= usize::MAX,
    ensures
        index == index_spec(coord.x as int, coord.y as int, mx as int),
        index < mx * my,
{
    proof {
        lemma_index_in_range(coord.x as int, coord.y as int, mx as int, my as int);
    }
    (coord.y as usize) * (mx as usize) + (coord.x as usize)
}

/// An in-range coordinate linearizes below `mx * my`.
pub proof fn lemma_index_in_range(x: int, y: int, mx: int, my: int)
    requires
        0 <= x < mx,
        0 <= y < my,
    ensures
        0 <= index_spec(x, y, mx) < mx * my,
{
    assert(y * mx + x < mx * my) by (nonlinear_arith)
        requires
            0 <= x < mx,
            0 <= y < my,
    ;
    assert(y * mx >= 0) by (nonlinear_arith)
        requires
            0 <= y,
            0 < mx,
    ;
}

/// Recovers the chunk coordinate from a flat storage index: the inverse of
/// [`to_index`] on every in-range index.
pub fn decode_index(index: usize, mx: u32) -> (coord: Point2)
    requires
        mx > 0,
        index as int % mx as int <= i32::MAX,
        index as int / mx as int <= i32::MAX,
    ensures
        coord.x == index as int % mx as int,
        coord.y == index as int / mx as int,
{
    let x: usize = index % (mx as usize);
    let y: usize = index / (mx as usize);
    Point2 { x: x as i32, y: y as i32 }
}

/// Round trip: linearizing an in-range chunk coordinate and dividing back
/// out reconstructs the coordinate exactly.
pub proof fn lemma_index_round_trip(x: int, y: int, mx: int, my: int)
    requires
        0 <= x < mx,
        0 <= y < my,
    ensures
        index_spec(x, y, mx) % mx == x,
        index_spec(x, y, mx) / mx == y,
{
    let i = index_spec(x, y, mx);
    assert(i % mx == x && i / mx == y) by (nonlinear_arith)
        requires
            0 <= x < mx,
            0 <= y < my,
            i == y * mx + x,
    ;
}

/// Division rounding toward negative infinity, as a spec-level fact: for a
/// positive divisor this is exactly the SMT-level Euclidean `/`.
pub open spec fn floor_div_spec(a: int, b: int) -> int {
    a / b
}

/// Divides rounding toward negative infinity: for a positive divisor,
/// Euclidean division is exactly that rounding.
pub fn floor_div(a: i32, b: i32) -> (q: i32)
    requires
        b > 0,
    ensures
        q == floor_div_spec(a as int, b as int),
{
    proof {
        assert(i32::MIN <= a as int / b as int <= i32::MAX) by (nonlinear_arith)
            requires
                b > 0,
                i32::MIN <= a <= i32::MAX,
        ;
    }
    match a.checked_div_euclid(b) {
        Some(q) => q,
        None => 0,
    }
}

/// The chunk coordinate that owns a tile coordinate: each component divided
/// by the chunk's extent in tiles, rounded toward negative infinity.
pub open spec fn tile_to_chunk_spec(x: int, y: int, chunk_width: int, chunk_height: int) -> (int, int) {
    (floor_div_spec(x, chunk_width), floor_div_spec(y, chunk_height))
}

/// Takes a tile coordinate and returns the coordinate of the chunk that
/// owns it, for chunks of `chunk_width` by `chunk_height` tiles.
pub fn tile_coord_to_chunk_coord(coord: Point3, chunk_width: u32, chunk_height: u32) -> (c: Point2)
    requires
        0 < chunk_width <= i32::MAX,
        0 < chunk_height <= i32::MAX,
    ensures
        (c.x as int, c.y as int) == tile_to_chunk_spec(
            coord.x as int,
            coord.y as int,
            chunk_width as int,
            chunk_height as int,
        ),
{
    let x: i32 = floor_div(coord.x, chunk_width as i32);
    let y: i32 = floor_div(coord.y, chunk_height as i32);
    Point2 { x, y }
}

} // verus!
