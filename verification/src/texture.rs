//! The texture compositor: copies a sprite's pixel rectangle out of the
//! shared sprite sheet into a chunk's destination pixel buffer, row by
//! row, overwriting bytes verbatim with no blending. Stateless: safe to
//! invoke any number of times across chunks.

use vstd::prelude::*;
use crate::coords::Point3;
use crate::tile::Tile;

verus! {

/// A pixel rectangle inside a texture: its top-left corner and extents.
#[derive(Clone, Copy, Debug, PartialEq, Eq, Structural)]
pub struct Rect {
    /// The horizontal pixel coordinate of the left edge.
    pub min_x: usize,
    /// The vertical pixel coordinate of the top edge.
    pub min_y: usize,
    /// The extent in pixels along the horizontal axis.
    pub width: usize,
    /// The extent in pixels along the vertical axis.
    pub height: usize,
}

/// A CPU-side pixel buffer: its extents in pixels, the byte size of one
/// pixel, and its contiguous bytes in row-major order, rows top to
/// bottom.
#[derive(Debug)]
pub struct Texture {
    /// The extent in pixels along the horizontal axis.
    pub width: usize,
    /// The extent in pixels along the vertical axis.
    pub height: usize,
    /// The byte size of one pixel.
    pub pixel_size: usize,
    /// The pixel bytes, exactly `width * height * pixel_size` of them.
    pub data: Vec<u8>,
}

impl Texture {
    /// The buffer is well formed: one byte run per pixel, rows complete.
    pub open spec fn wf(self) -> bool {
        &&& 1 <= self.pixel_size
        &&& self.data@.len() == self.width * self.height * self.pixel_size
    }

    /// Creates a buffer of the given extents with every byte zero.
    pub fn new(width: usize, height: usize, pixel_size: usize) -> (texture: Texture)
        requires
            1 <= pixel_size,
            width * height * pixel_size <= usize::MAX,
        ensures
            texture.wf(),
            texture.width == width,
            texture.height == height,
            texture.pixel_size == pixel_size,
            texture.data@ == Seq::new((width * height * pixel_size) as nat, |i: int| 0u8),
    {
        proof {
            assert(0 <= width * height <= width * height * pixel_size) by (nonlinear_arith)
                requires
                    pixel_size >= 1,
                    width >= 0,
                    height >= 0,
            ;
        }
        let len = width * height * pixel_size;
        Texture { width, height, pixel_size, data: crate::tile::filled(len, 0) }
    }
}

/// The shared sprite atlas: the handle of the sheet's own pixel buffer,
/// and one pixel rectangle per sprite index.
#[derive(Debug)]
pub struct TextureAtlas {
    /// The handle of the sprite sheet's pixel buffer.
    pub texture: usize,
    /// The pixel rectangle of each sprite, indexed by sprite index.
    pub rects: Vec<Rect>,
}

impl TextureAtlas {
    /// The pixel rectangle of a sprite index, or `None` when the atlas
    /// knows no such sprite.
    pub fn rect_for(&self, sprite_index: usize) -> (rect: Option<Rect>)
        ensures
            rect == (if sprite_index < self.rects@.len() {
                Some(self.rects@[sprite_index as int])
            } else {
                None
            }),
    {
        if sprite_index < self.rects.len() {
            Some(self.rects[sprite_index])
        } else {
            None
        }
    }
}

/// The pixel coordinate, inside a chunk's texture, of the top-left
/// corner of the cell at a local tile coordinate: each axis scaled by
/// the tile's pixel extent.
pub fn tile_pixel_offset(local: Point3, tile_width: usize, tile_height: usize) -> (offset: (
    usize,
    usize,
))
    requires
        0 <= local.x,
        0 <= local.y,
        local.x * tile_width <= usize::MAX,
        local.y * tile_height <= usize::MAX,
    ensures
        offset.0 == local.x * tile_width,
        offset.1 == local.y * tile_height,
{
    ((local.x as usize) * tile_width, (local.y as usize) * tile_height)
}

/// The geometry of one copy: the destination buffer's pixel width and
/// pixel byte size, the destination rectangle's top-left corner and
/// extents, and the source buffer's pixel width and the source
/// rectangle's top-left corner. Source and destination share extents and
/// pixel byte size.
pub ghost struct BlitParams {
    /// The destination buffer's extent in pixels along the horizontal axis.
    pub dest_width: int,
    /// The byte size of one pixel, in both buffers.
    pub pixel_size: int,
    /// The destination rectangle's left edge, in pixels.
    pub dest_x: int,
    /// The destination rectangle's top edge, in pixels.
    pub dest_y: int,
    /// The copied rectangle's extent in pixels along the horizontal axis.
    pub width: int,
    /// The copied rectangle's extent in pixels along the vertical axis.
    pub height: int,
    /// The source buffer's extent in pixels along the horizontal axis.
    pub src_width: int,
    /// The source rectangle's left edge, in pixels.
    pub src_x: int,
    /// The source rectangle's top edge, in pixels.
    pub src_y: int,
}

/// The pixel row of byte `j` of the destination buffer.
pub open spec fn row_of(j: int, p: BlitParams) -> int {
    (j / p.pixel_size) / p.dest_width
}

/// The pixel column of byte `j` of the destination buffer.
pub open spec fn col_of(j: int, p: BlitParams) -> int {
    (j / p.pixel_size) % p.dest_width
}

/// Byte `j` of the destination buffer lies inside the destination
/// rectangle.
pub open spec fn covered(j: int, p: BlitParams) -> bool {
    &&& p.dest_y <= row_of(j, p) < p.dest_y + p.height
    &&& p.dest_x <= col_of(j, p) < p.dest_x + p.width
}

/// The byte of the source buffer that a covered destination byte `j`
/// receives: the same offset into the source rectangle.
pub open spec fn src_index_of(j: int, p: BlitParams) -> int {
    ((p.src_y + row_of(j, p) - p.dest_y) * p.src_width + p.src_x + (col_of(j, p) - p.dest_x))
        * p.pixel_size + j % p.pixel_size
}

/// The destination bytes after one copy: every byte inside the
/// destination rectangle holds its source byte, every other byte is
/// unchanged.
pub open spec fn blit(dest: Seq<u8>, src: Seq<u8>, p: BlitParams) -> Seq<u8> {
    Seq::new(
        dest.len(),
        |j: int|
            if covered(j, p) {
                src[src_index_of(j, p)]
            } else {
                dest[j]
            },
    )
}

/// Byte `j` lies in the part of the destination rectangle already
/// scanned: a full row before row `r`, or the first `c` bytes of row `r`.
pub open spec fn written_before(j: int, p: BlitParams, r: int, c: int) -> bool {
    &&& covered(j, p)
    &&& (row_of(j, p) - p.dest_y < r || (row_of(j, p) - p.dest_y == r && (col_of(j, p) - p.dest_x)
        * p.pixel_size + j % p.pixel_size < c))
}

/// One byte of the destination buffer part way through a copy: its source
/// byte once scanned, its original value until then.
pub open spec fn blit_at(dest0: Seq<u8>, src: Seq<u8>, p: BlitParams, r: int, c: int, j: int) -> u8 {
    if written_before(j, p, r, c) {
        src[src_index_of(j, p)]
    } else {
        dest0[j]
    }
}

/// Compositing is idempotent: copying the same source rectangle into the
/// same destination twice leaves exactly the bytes one copy leaves; bytes
/// are overwritten verbatim, nothing accumulates.
pub proof fn lemma_blit_idempotent(dest: Seq<u8>, src: Seq<u8>, p: BlitParams)
    ensures
        blit(blit(dest, src, p), src, p) == blit(dest, src, p),
{
    assert(blit(blit(dest, src, p), src, p) =~= blit(dest, src, p));
}

/// Copies the sprite rectangle of `tile` out of the sprite sheet into the
/// chunk's pixel buffer, top-left at `(dest_x, dest_y)`, copying
/// `chunk_rect.width` by `chunk_rect.height` pixels row by row, top to
/// bottom, overwriting verbatim. A tile whose sprite index the atlas does
/// not know leaves the buffer untouched.
pub fn set_tiles(
    tile: &Tile,
    chunk_texture: &mut Texture,
    sprite_sheet_texture: &Texture,
    sprite_sheet_atlas: &TextureAtlas,
    chunk_rect: Rect,
    dest_x: usize,
    dest_y: usize,
)
    requires
        old(chunk_texture).wf(),
        sprite_sheet_texture.wf(),
        old(chunk_texture).pixel_size == sprite_sheet_texture.pixel_size,
        dest_x + chunk_rect.width <= old(chunk_texture).width,
        dest_y + chunk_rect.height <= old(chunk_texture).height,
        tile.sprite_index < sprite_sheet_atlas.rects@.len() ==> {
            let sprite_rect = sprite_sheet_atlas.rects@[tile.sprite_index as int];
            &&& sprite_rect.min_x + chunk_rect.width <= sprite_sheet_texture.width
            &&& sprite_rect.min_y + chunk_rect.height <= sprite_sheet_texture.height
        },
    ensures
        final(chunk_texture).wf(),
        final(chunk_texture).width == old(chunk_texture).width,
        final(chunk_texture).height == old(chunk_texture).height,
        final(chunk_texture).pixel_size == old(chunk_texture).pixel_size,
        final(chunk_texture).data@ == (if tile.sprite_index < sprite_sheet_atlas.rects@.len() {
            blit(
                old(chunk_texture).data@,
                sprite_sheet_texture.data@,
                BlitParams {
                    dest_width: old(chunk_texture).width as int,
                    pixel_size: old(chunk_texture).pixel_size as int,
                    dest_x: dest_x as int,
                    dest_y: dest_y as int,
                    width: chunk_rect.width as int,
                    height: chunk_rect.height as int,
                    src_width: sprite_sheet_texture.width as int,
                    src_x: sprite_sheet_atlas.rects@[tile.sprite_index as int].min_x as int,
                    src_y: sprite_sheet_atlas.rects@[tile.sprite_index as int].min_y as int,
                },
            )
        } else {
            old(chunk_texture).data@
        }),
{
    let sprite_rect = match sprite_sheet_atlas.rect_for(tile.sprite_index) {
        Some(rect) => rect,
        None => {
            return ;
        },
    };
    let ghost p = BlitParams {
        dest_width: chunk_texture.width as int,
        pixel_size: chunk_texture.pixel_size as int,
        dest_x: dest_x as int,
        dest_y: dest_y as int,
        width: chunk_rect.width as int,
        height: chunk_rect.height as int,
        src_width: sprite_sheet_texture.width as int,
        src_x: sprite_rect.min_x as int,
        src_y: sprite_rect.min_y as int,
    };
    let ghost dest0 = chunk_texture.data@;
    let ghost src = sprite_sheet_texture.data@;
    let pixel_size = chunk_texture.pixel_size;
    let dest_width = chunk_texture.width;
    let src_width = sprite_sheet_texture.width;
    let dest_height = chunk_texture.height;
    let dest_len = chunk_texture.data.len();
    let src_len = sprite_sheet_texture.data.len();
    if chunk_rect.width == 0 || chunk_rect.height == 0 {
        proof {
            assert(chunk_texture.data@ =~= blit(dest0, src, p));
        }
        return ;
    }
    proof {
        assert(chunk_rect.width * pixel_size <= dest_width * pixel_size <= dest0.len()
            && dest_width * pixel_size >= 0) by (nonlinear_arith)
            requires
                chunk_rect.width <= dest_width,
                pixel_size >= 1,
                dest0.len() == dest_width * dest_height * pixel_size,
                dest_height >= chunk_rect.height,
                chunk_rect.height >= 1,
                dest_width >= 0,
            ;
    }
    let row_bytes = chunk_rect.width * pixel_size;
    let mut r: usize = 0;
    while r < chunk_rect.height
        invariant
            r <= chunk_rect.height,
            chunk_texture.width == p.dest_width,
            chunk_texture.pixel_size == p.pixel_size,
            chunk_texture.height == old(chunk_texture).height,
            chunk_texture.wf(),
            sprite_sheet_texture.wf(),
            sprite_sheet_texture.pixel_size == p.pixel_size,
            sprite_sheet_texture.width == p.src_width,
            p == (BlitParams {
                dest_width: dest_width as int,
                pixel_size: pixel_size as int,
                dest_x: dest_x as int,
                dest_y: dest_y as int,
                width: chunk_rect.width as int,
                height: chunk_rect.height as int,
                src_width: src_width as int,
                src_x: sprite_rect.min_x as int,
                src_y: sprite_rect.min_y as int,
            }),
            dest0.len() == chunk_texture.data@.len(),
            src == sprite_sheet_texture.data@,
            dest_x + chunk_rect.width <= dest_width,
            dest_y + chunk_rect.height <= old(chunk_texture).height,
            sprite_rect.min_x + chunk_rect.width <= src_width,
            sprite_rect.min_y + chunk_rect.height <= sprite_sheet_texture.height,
            row_bytes == chunk_rect.width * pixel_size,
            1 <= chunk_rect.width,
            1 <= chunk_rect.height,
            dest_len == dest0.len(),
            src_len == src.len(),
            forall|j: int|
                0 <= j < dest0.len() ==> #[trigger] chunk_texture.data@[j] == blit_at(
                    dest0,
                    src,
                    p,
                    r as int,
                    0,
                    j,
                ),
        decreases chunk_rect.height - r,
    {
        let mut c: usize = 0;
        while c < row_bytes
            invariant
                c <= row_bytes,
                r < chunk_rect.height,
                chunk_texture.width == p.dest_width,
                chunk_texture.pixel_size == p.pixel_size,
                chunk_texture.height == old(chunk_texture).height,
                chunk_texture.wf(),
                sprite_sheet_texture.wf(),
                sprite_sheet_texture.pixel_size == p.pixel_size,
                sprite_sheet_texture.width == p.src_width,
                p == (BlitParams {
                    dest_width: dest_width as int,
                    pixel_size: pixel_size as int,
                    dest_x: dest_x as int,
                    dest_y: dest_y as int,
                    width: chunk_rect.width as int,
                    height: chunk_rect.height as int,
                    src_width: src_width as int,
                    src_x: sprite_rect.min_x as int,
                    src_y: sprite_rect.min_y as int,
                }),
                dest0.len() == chunk_texture.data@.len(),
                src == sprite_sheet_texture.data@,
                dest_x + chunk_rect.width <= dest_width,
                dest_y + chunk_rect.height <= old(chunk_texture).height,
                sprite_rect.min_x + chunk_rect.width <= src_width,
                sprite_rect.min_y + chunk_rect.height <= sprite_sheet_texture.height,
                row_bytes == chunk_rect.width * pixel_size,
                1 <= chunk_rect.width,
                1 <= chunk_rect.height,
                dest_len == dest0.len(),
                src_len == src.len(),
                forall|j: int|
                    0 <= j < dest0.len() ==> #[trigger] chunk_texture.data@[j] == blit_at(
                        dest0,
                        src,
                        p,
                        r as int,
                        c as int,
                        j,
                    ),
            decreases row_bytes - c,
        {
            proof {
                lemma_scan_bounds(p, r as int, c as int, old(chunk_texture).height as int,
                    sprite_sheet_texture.height as int, dest0.len() as int, src.len() as int);
            }
            let dest_index = ((dest_y + r) * dest_width + dest_x) * pixel_size + c;
            let src_index = ((sprite_rect.min_y + r) * src_width + sprite_rect.min_x) * pixel_size
                + c;
            let byte = sprite_sheet_texture.data[src_index];
            chunk_texture.data.set(dest_index, byte);
            proof {
                lemma_scan_step(dest0, src, p, r as int, c as int);
                assert forall|j: int| 0 <= j < dest0.len() implies #[trigger] chunk_texture.data@[j]
                    == blit_at(dest0, src, p, r as int, c as int + 1, j) by {
                    if j != ((p.dest_y + r) * p.dest_width + p.dest_x) * p.pixel_size + c {
                        assert(chunk_texture.data@[j] == blit_at(dest0, src, p, r as int, c as int, j));
                    }
                }
            }
            c = c + 1;
        }
        proof {
            assert forall|j: int| 0 <= j < dest0.len() implies #[trigger] chunk_texture.data@[j]
                == blit_at(dest0, src, p, r as int + 1, 0, j) by {
                lemma_row_done(p, r as int, j);
                assert(chunk_texture.data@[j] == blit_at(dest0, src, p, r as int, row_bytes as int, j));
            }
        }
        r = r + 1;
    }
    proof {
        assert(chunk_texture.data@ =~= blit(dest0, src, p));
    }
}

/// The byte indices touched while scanning row `r` at byte offset `c`
/// stay inside both buffers.
proof fn lemma_scan_bounds(p: BlitParams, r: int, c: int, dest_height: int, src_height: int, dest_len: int, src_len: int)
    requires
        p.pixel_size >= 1,
        p.dest_width >= 0,
        p.src_width >= 0,
        0 <= r < p.height,
        0 <= c < p.width * p.pixel_size,
        p.dest_x >= 0,
        p.dest_y >= 0,
        p.src_x >= 0,
        p.src_y >= 0,
        p.dest_x + p.width <= p.dest_width,
        p.dest_y + p.height <= dest_height,
        p.src_x + p.width <= p.src_width,
        p.src_y + p.height <= src_height,
        dest_len == p.dest_width * dest_height * p.pixel_size,
        src_len == p.src_width * src_height * p.pixel_size,
    ensures
        0 <= ((p.dest_y + r) * p.dest_width + p.dest_x) * p.pixel_size + c < dest_len,
        0 <= ((p.src_y + r) * p.src_width + p.src_x) * p.pixel_size + c < src_len,
        0 <= (p.dest_y + r) * p.dest_width <= (p.dest_y + r) * p.dest_width + p.dest_x,
        (p.dest_y + r) * p.dest_width + p.dest_x <= ((p.dest_y + r) * p.dest_width + p.dest_x)
            * p.pixel_size,
        0 <= (p.src_y + r) * p.src_width <= (p.src_y + r) * p.src_width + p.src_x,
        (p.src_y + r) * p.src_width + p.src_x <= ((p.src_y + r) * p.src_width + p.src_x)
            * p.pixel_size,
{
    assert(0 <= (p.dest_y + r) * p.dest_width && (p.dest_y + r) * p.dest_width + p.dest_x <= ((
    p.dest_y + r) * p.dest_width + p.dest_x) * p.pixel_size) by (nonlinear_arith)
        requires
            p.pixel_size >= 1,
            p.dest_width >= 0,
            p.dest_x >= 0,
            p.dest_y >= 0,
            r >= 0,
    ;
    assert(0 <= (p.src_y + r) * p.src_width && (p.src_y + r) * p.src_width + p.src_x <= ((p.src_y
        + r) * p.src_width + p.src_x) * p.pixel_size) by (nonlinear_arith)
        requires
            p.pixel_size >= 1,
            p.src_width >= 0,
            p.src_x >= 0,
            p.src_y >= 0,
            r >= 0,
    ;
    assert(0 <= ((p.dest_y + r) * p.dest_width + p.dest_x) * p.pixel_size + c < p.dest_width
        * dest_height * p.pixel_size) by (nonlinear_arith)
        requires
            p.pixel_size >= 1,
            p.dest_width >= 0,
            0 <= r < p.height,
            0 <= c < p.width * p.pixel_size,
            p.dest_x >= 0,
            p.dest_y >= 0,
            p.dest_x + p.width <= p.dest_width,
            p.dest_y + p.height <= dest_height,
    ;
    assert(0 <= ((p.src_y + r) * p.src_width + p.src_x) * p.pixel_size + c < p.src_width
        * src_height * p.pixel_size) by (nonlinear_arith)
        requires
            p.pixel_size >= 1,
            p.src_width >= 0,
            0 <= r < p.height,
            0 <= c < p.width * p.pixel_size,
            p.src_x >= 0,
            p.src_y >= 0,
            p.src_x + p.width <= p.src_width,
            p.src_y + p.height <= src_height,
    ;
}

/// The byte written at scan position `(r, c)` is the one byte that
/// `written_before` gains from `(r, c)` to `(r, c + 1)`, and it receives
/// exactly its source byte.
proof fn lemma_scan_step(dest0: Seq<u8>, src: Seq<u8>, p: BlitParams, r: int, c: int)
    requires
        p.pixel_size >= 1,
        p.dest_width >= 1,
        0 <= r < p.height,
        0 <= c < p.width * p.pixel_size,
        p.dest_x >= 0,
        p.dest_y >= 0,
        p.dest_x + p.width <= p.dest_width,
    ensures
        ({
            let j = ((p.dest_y + r) * p.dest_width + p.dest_x) * p.pixel_size + c;
            &&& row_of(j, p) == p.dest_y + r
            &&& col_of(j, p) == p.dest_x + c / p.pixel_size
            &&& j % p.pixel_size == c % p.pixel_size
            &&& covered(j, p)
            &&& written_before(j, p, r, c + 1)
            &&& !written_before(j, p, r, c)
            &&& src_index_of(j, p) == ((p.src_y + r) * p.src_width + p.src_x) * p.pixel_size + c
            &&& forall|j2: int|
                j2 != j ==> (written_before(j2, p, r, c + 1) == written_before(j2, p, r, c))
        }),
{
    let ps = p.pixel_size;
    let w = p.dest_width;
    let j = ((p.dest_y + r) * w + p.dest_x) * ps + c;
    let cp = c / ps;
    let cb = c % ps;
    vstd::arithmetic::div_mod::lemma_fundamental_div_mod(c, ps);
    vstd::arithmetic::div_mod::lemma_mod_bound(c, ps);
    assert(0 <= cp < p.width) by (nonlinear_arith)
        requires
            c == ps * cp + cb,
            0 <= cb < ps,
            0 <= c < p.width * ps,
            ps >= 1,
    ;
    assert(j == ((p.dest_y + r) * w + p.dest_x + cp) * ps + cb) by (nonlinear_arith)
        requires
            j == ((p.dest_y + r) * w + p.dest_x) * ps + c,
            c == ps * cp + cb,
    ;
    assert((p.dest_y + r) * w + p.dest_x + cp >= 0) by (nonlinear_arith)
        requires
            p.dest_y >= 0,
            r >= 0,
            w >= 1,
            p.dest_x >= 0,
            cp >= 0,
    ;
    vstd::arithmetic::div_mod::lemma_fundamental_div_mod_converse(
        j,
        ps,
        (p.dest_y + r) * w + p.dest_x + cp,
        cb,
    );
    assert(j / ps == (p.dest_y + r) * w + (p.dest_x + cp));
    assert(0 <= p.dest_x + cp < w);
    vstd::arithmetic::div_mod::lemma_fundamental_div_mod_converse(
        j / ps,
        w,
        p.dest_y + r,
        p.dest_x + cp,
    );
    assert(row_of(j, p) == p.dest_y + r);
    assert(col_of(j, p) == p.dest_x + cp);
    assert(j % ps == cb);
    assert((col_of(j, p) - p.dest_x) * ps + j % ps == c) by (nonlinear_arith)
        requires
            col_of(j, p) == p.dest_x + cp,
            j % ps == cb,
            c == ps * cp + cb,
    ;
    assert(src_index_of(j, p) == ((p.src_y + r) * p.src_width + p.src_x) * ps + c)
        by (nonlinear_arith)
        requires
            row_of(j, p) == p.dest_y + r,
            col_of(j, p) == p.dest_x + cp,
            j % ps == cb,
            c == ps * cp + cb,
            src_index_of(j, p) == ((p.src_y + row_of(j, p) - p.dest_y) * p.src_width + p.src_x + (
            col_of(j, p) - p.dest_x)) * ps + j % ps,
    ;
    assert forall|j2: int| j2 != j implies (written_before(j2, p, r, c + 1) == written_before(
        j2,
        p,
        r,
        c,
    )) by {
        if covered(j2, p) && row_of(j2, p) - p.dest_y == r && (col_of(j2, p) - p.dest_x) * ps + j2
            % ps == c {
            let cp2 = col_of(j2, p) - p.dest_x;
            vstd::arithmetic::div_mod::lemma_fundamental_div_mod(j2, ps);
            vstd::arithmetic::div_mod::lemma_mod_bound(j2, ps);
            vstd::arithmetic::div_mod::lemma_fundamental_div_mod(j2 / ps, w);
            vstd::arithmetic::div_mod::lemma_mod_bound(j2 / ps, w);
            assert(j2 == ((row_of(j2, p)) * w + col_of(j2, p)) * ps + j2 % ps) by (nonlinear_arith)
                requires
                    j2 == ps * (j2 / ps) + j2 % ps,
                    j2 / ps == w * row_of(j2, p) + col_of(j2, p),
            ;
            assert(cp2 == cp && j2 % ps == cb) by (nonlinear_arith)
                requires
                    cp2 * ps + j2 % ps == c,
                    c == ps * cp + cb,
                    0 <= cb < ps,
                    0 <= j2 % ps < ps,
            ;
            assert(j2 == j) by (nonlinear_arith)
                requires
                    j2 == ((row_of(j2, p)) * w + col_of(j2, p)) * ps + j2 % ps,
                    j == ((p.dest_y + r) * w + p.dest_x) * ps + c,
                    row_of(j2, p) == p.dest_y + r,
                    col_of(j2, p) == p.dest_x + cp2,
                    cp2 == cp,
                    j2 % ps == cb,
                    c == ps * cp + cb,
            ;
            assert(false);
        }
    }
}

/// At the end of a row every byte of that row has been scanned: position
/// `(r, width * pixel_size)` covers the same bytes as `(r + 1, 0)`.
proof fn lemma_row_done(p: BlitParams, r: int, j: int)
    requires
        p.pixel_size >= 1,
    ensures
        written_before(j, p, r, p.width * p.pixel_size) == written_before(j, p, r + 1, 0),
{
    if covered(j, p) && row_of(j, p) - p.dest_y == r {
        vstd::arithmetic::div_mod::lemma_mod_bound(j, p.pixel_size);
        assert((col_of(j, p) - p.dest_x) * p.pixel_size + j % p.pixel_size < p.width
            * p.pixel_size) by (nonlinear_arith)
            requires
                0 <= col_of(j, p) - p.dest_x < p.width,
                0 <= j % p.pixel_size < p.pixel_size,
        ;
    }
}

} // verus!
