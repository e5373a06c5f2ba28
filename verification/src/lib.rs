//! A chunk-based 2-D tilemap core.
//!
//! A large world is subdivided into fixed-size rectangular chunks, each
//! holding a grid of tiles. The map translates between flat storage
//! indices, tile coordinates and chunk coordinates, tracks changes through
//! a double-buffered event log with per-reader cursors, and prepares
//! per-chunk pixel buffers by copying sprite regions out of a shared
//! sprite sheet.

pub mod chunk;
pub mod coords;
pub mod events;
pub mod map;
pub mod texture;
pub mod tile;
