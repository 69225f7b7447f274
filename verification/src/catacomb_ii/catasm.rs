//! Drawing the tiles of the play window, and putting objects' shapes
//! into the level view and taking them out again.
use vstd::prelude::*;

use crate::catacomb_ii::gr_type::grtype;
use crate::catacomb_ii::obj_type::objtype;
use crate::catacomb_ii::screen::{
    blit, blitted, box_col, box_ok, box_row, in_box, screenpitch, source_ok, src_pixel, Source,
};

verus! {

/// Where tile `tile` lies in the tile data: 16 bytes per tile in CGA; in
/// EGA 32 bytes, one plane after the other.
pub open spec fn tile_source(mode: grtype, tile: int) -> Source {
    match mode {
        grtype::CGAgr => Source { base: (tile * 16) as usize, rowstride: 2, planeofs: [0, 8, 16, 24] },
        _ => Source { base: (tile * 32) as usize, rowstride: 1, planeofs: [0, 8, 16, 24] },
    }
}

/// The graphics mode in which tiles are drawn: CGA, else EGA.
pub open spec fn tile_mode(mode: grtype) -> grtype {
    match mode {
        grtype::CGAgr => grtype::CGAgr,
        _ => grtype::EGAgr,
    }
}

/// A tile number whose data lies in the tile data.
pub open spec fn tile_ok(pics: Seq<u8>, tile: int) -> bool {
    0 <= tile && tile * 32 + 32 <= pics.len() && tile * 32 + 32 <= usize::MAX
}

/// Draws CGA tile `tile` into the screen with its top-left pixel at
/// `screenseg_ofs`.
pub fn drawcgachartile(screenseg_ofs: usize, tile: i32, screen: &mut [u8], pics: &[u8])
    requires
        tile_ok(pics@, tile as int),
        box_ok(old(screen)@.len() as int, screenseg_ofs as int, 8, 8),
    ensures
        blitted(
            old(screen)@,
            final(screen)@,
            screenseg_ofs as int,
            8,
            8,
            grtype::CGAgr,
            pics@,
            tile_source(grtype::CGAgr, tile as int),
        ),
{
    let src = Source { base: (tile as usize) * 16, rowstride: 2, planeofs: [0, 8, 16, 24] };
    blit(screen, screenseg_ofs, 8, 8, grtype::CGAgr, pics, &src);
}

/// Draws EGA tile `tile` into the screen with its top-left pixel at
/// `screenseg_ofs`.
pub fn drawegachartile(screenseg_ofs: usize, tile: i32, screen: &mut [u8], pics: &[u8])
    requires
        tile_ok(pics@, tile as int),
        box_ok(old(screen)@.len() as int, screenseg_ofs as int, 8, 8),
    ensures
        blitted(
            old(screen)@,
            final(screen)@,
            screenseg_ofs as int,
            8,
            8,
            grtype::EGAgr,
            pics@,
            tile_source(grtype::EGAgr, tile as int),
        ),
{
    let src = Source { base: (tile as usize) * 32, rowstride: 1, planeofs: [0, 8, 16, 24] };
    blit(screen, screenseg_ofs, 8, 8, grtype::EGAgr, pics, &src);
}

/// Draws tile `tile` into character cell (x, y), in CGA when that is the
/// graphics mode and in EGA otherwise.
pub fn drawchartile(x: i32, y: i32, tile: i32, screen: &mut [u8], pics: &[u8], grmode: grtype)
    requires
        0 <= x,
        0 <= y,
        tile_ok(pics@, tile as int),
        y * 8 * screenpitch + x * 8 <= i32::MAX,
        box_ok(old(screen)@.len() as int, y * 8 * screenpitch + x * 8, 8, 8),
    ensures
        blitted(
            old(screen)@,
            final(screen)@,
            y * 8 * screenpitch + x * 8,
            8,
            8,
            tile_mode(grmode),
            pics@,
            tile_source(grmode, tile as int),
        ),
{
    let ofs = ((y * 8) * (screenpitch as i32) + x * 8) as usize;
    match grmode {
        grtype::CGAgr => drawcgachartile(ofs, tile, screen, pics),
        _ => drawegachartile(ofs, tile, screen, pics),
    }
}

/// The number of tiles across and down the play window.
pub const TILES_ACROSS: usize = 24;

/// The number of tiles of a row of the level view.
pub const VIEW_STRIDE: usize = 86;

/// The number of tiles of the play window.
pub const WINDOW_TILES: usize = 576;

/// The index in the level view of tile `i` of the play window whose
/// top-left tile is (ox, oy): the window is 24 by 24 tiles, row by row.
pub open spec fn view_index(ox: int, oy: int, i: int) -> int {
    oy * VIEW_STRIDE + ox + (i / 24) * VIEW_STRIDE + i % 24
}

/// The screen position of tile `i` of the play window.
pub open spec fn tile_screen_ofs(i: int) -> int {
    (i / 24) * 2560 + (i % 24) * 8
}

/// Whether screen pixel `p` lies in the play window (its top-left 192 by
/// 192 pixels).
pub open spec fn in_window(p: int) -> bool {
    p / (screenpitch as int) < 192 && p % (screenpitch as int) < 192
}

/// The tile of the play window that screen pixel `p` lies in.
pub open spec fn window_tile(p: int) -> int {
    (p / (screenpitch as int) / 8) * 24 + (p % (screenpitch as int)) / 8
}

/// The play window on screen after a refresh in `mode`: the pixels of each
/// tile that differs from the one last drawn there come from that tile, all
/// other pixels are as before.
pub open spec fn refreshed(
    before: Seq<u8>,
    after: Seq<u8>,
    oldtiles: Seq<i32>,
    view: Seq<i32>,
    ox: int,
    oy: int,
    mode: grtype,
    pics: Seq<u8>,
    done: int,
) -> bool {
    &&& after.len() == before.len()
    &&& forall|p: int|
        0 <= p < before.len() ==> #[trigger] after[p] == if in_window(p) && window_tile(p) < done
            && view[view_index(ox, oy, window_tile(p))] != oldtiles[window_tile(p)] {
            src_pixel(
                tile_mode(mode),
                pics,
                tile_source(mode, view[view_index(ox, oy, window_tile(p))] as int),
                (p / (screenpitch as int)) % 8,
                (p % (screenpitch as int)) % 8,
            )
        } else {
            before[p]
        }
}

/// The pixels of tile `k`'s box on screen are those of the play window
/// that lie in tile `k`, at the same row and column within it.
pub proof fn lemma_tile_box(k: int, p: int)
    requires
        0 <= k < 576,
        0 <= p,
    ensures
        in_box(tile_screen_ofs(k), 8, 8, p) <==> (in_window(p) && window_tile(p) == k),
        in_box(tile_screen_ofs(k), 8, 8, p) ==> box_row(tile_screen_ofs(k), p) == (p / 320) % 8
            && box_col(tile_screen_ofs(k), p) == (p % 320) % 8,
{
    let q = p / 320;
    let m = p % 320;
    let a = k / 24;
    let b = k % 24;
    let t = tile_screen_ofs(k);
    assert(p == 320 * q + m && 0 <= m < 320) by (nonlinear_arith)
        requires
            q == p / 320,
            m == p % 320,
            p >= 0,
    ;
    assert(k == 24 * a + b && 0 <= b < 24 && 0 <= a < 24) by (nonlinear_arith)
        requires
            a == k / 24,
            b == k % 24,
            0 <= k < 576,
    ;
    assert(screenpitch == 320);
    assert(t == 2560 * a + 8 * b);
    if m >= 8 * b {
        let d = p - t;
        assert(d == 320 * (q - 8 * a) + (m - 8 * b));
        if q >= 8 * a {
            assert(d / 320 == q - 8 * a && d % 320 == m - 8 * b) by (nonlinear_arith)
                requires
                    d == 320 * (q - 8 * a) + (m - 8 * b),
                    q - 8 * a >= 0,
                    0 <= m - 8 * b < 320,
            ;
            assert((q / 8 == a) <==> (q - 8 * a < 8)) by (nonlinear_arith)
                requires
                    q >= 8 * a,
            ;
            assert((m / 8 == b) <==> (m - 8 * b < 8)) by (nonlinear_arith)
                requires
                    m >= 8 * b,
            ;
            if q / 8 == a && m / 8 == b {
                assert((q - 8 * a) == q % 8 && (m - 8 * b) == m % 8) by (nonlinear_arith)
                    requires
                        q / 8 == a,
                        m / 8 == b,
                        q >= 0,
                        m >= 0,
                ;
            }
        } else {
            assert(q / 8 < a) by (nonlinear_arith)
                requires
                    q < 8 * a,
                    q >= 0,
            ;
            assert(p < t);
        }
    } else {
        assert(m / 8 < b) by (nonlinear_arith)
            requires
                m < 8 * b,
                m >= 0,
        ;
        let d = p - t;
        if d >= 0 {
            assert(d == 320 * (q - 8 * a - 1) + (320 + m - 8 * b));
            assert(d % 320 == 320 + m - 8 * b) by (nonlinear_arith)
                requires
                    d == 320 * (q - 8 * a - 1) + (320 + m - 8 * b),
                    0 <= 320 + m - 8 * b < 320,
                    d >= 0,
            ;
        }
    }
    assert(window_tile(p) == (q / 8) * 24 + m / 8);
    if in_window(p) && window_tile(p) == k {
        assert(q / 8 == a && m / 8 == b) by (nonlinear_arith)
            requires
                (q / 8) * 24 + m / 8 == 24 * a + b,
                0 <= m < 192,
                0 <= b < 24,
                q >= 0,
        ;
    }
}

/// Redraws the tiles of the play window that changed since they were last
/// drawn, in CGA when `ega` is false and in EGA otherwise, and remembers
/// what was drawn.
fn refresh_tiles(
    view: &[i32],
    origin_x: i32,
    origin_y: i32,
    oldtiles: &mut [i32; 576],
    screen: &mut [u8],
    pics: &[u8],
    mode: grtype,
)
    requires
        mode == grtype::CGAgr || mode == grtype::EGAgr,
        0 <= origin_x,
        0 <= origin_y,
        view_index(origin_x as int, origin_y as int, 575) < view@.len(),
        forall|i: int|
            0 <= i < 576 ==> #[trigger] tile_ok(
                pics@,
                view@[view_index(origin_x as int, origin_y as int, i)] as int,
            ),
        old(screen)@.len() >= 192 * screenpitch,
    ensures
        refreshed(
            old(screen)@,
            final(screen)@,
            old(oldtiles)@,
            view@,
            origin_x as int,
            origin_y as int,
            mode,
            pics@,
            576,
        ),
        forall|i: int|
            0 <= i < 576 ==> #[trigger] final(oldtiles)@[i] == view@[view_index(
                origin_x as int,
                origin_y as int,
                i,
            )],
{
    let ghost before = screen@;
    let ghost tiles0 = oldtiles@;
    let n = screen.len();
    let vn = view.len();
    proof {
        assert(view_index(origin_x as int, origin_y as int, 575) == origin_y * 86 + origin_x + 23
            * 86 + 23);
    }
    let origin = (origin_y as usize) * VIEW_STRIDE + (origin_x as usize);
    let mut i: usize = 0;
    while i < WINDOW_TILES
        invariant
            i <= WINDOW_TILES,
            mode == grtype::CGAgr || mode == grtype::EGAgr,
            n == before.len(),
            n >= 192 * screenpitch,
            vn == view@.len(),
            tiles0.len() == 576,
            origin == origin_y * VIEW_STRIDE + origin_x,
            view_index(origin_x as int, origin_y as int, 575) < view@.len(),
            forall|j: int|
                0 <= j < 576 ==> #[trigger] tile_ok(
                    pics@,
                    view@[view_index(origin_x as int, origin_y as int, j)] as int,
                ),
            forall|j: int|
                0 <= j < 576 ==> #[trigger] oldtiles@[j] == if j < i {
                    view@[view_index(origin_x as int, origin_y as int, j)]
                } else {
                    tiles0[j]
                },
            refreshed(
                before,
                screen@,
                tiles0,
                view@,
                origin_x as int,
                origin_y as int,
                mode,
                pics@,
                i as int,
            ),
        decreases WINDOW_TILES - i,
    {
        let row = i / TILES_ACROSS;
        let col = i % TILES_ACROSS;
        proof {
            assert(view_index(origin_x as int, origin_y as int, i as int) <= view_index(
                origin_x as int,
                origin_y as int,
                575,
            )) by (nonlinear_arith)
                requires
                    0 <= i < 576,
            ;
            assert(tile_screen_ofs(i as int) + 7 * 320 + 8 <= 192 * 320) by (nonlinear_arith)
                requires
                    0 <= i < 576,
            ;
        }
        assert(origin + row * VIEW_STRIDE + col == view_index(
            origin_x as int,
            origin_y as int,
            i as int,
        ));
        let tile = view[origin + row * VIEW_STRIDE + col];
        let screenseg_ofs = row * (8 * screenpitch) + col * 8;
        let ghost s_before = screen@;
        if tile != oldtiles[i] {
            oldtiles[i] = tile;
            assert(tile_ok(pics@, view@[view_index(origin_x as int, origin_y as int, i as int)] as int));
            match mode {
                grtype::CGAgr => drawcgachartile(screenseg_ofs, tile, screen, pics),
                _ => drawegachartile(screenseg_ofs, tile, screen, pics),
            }
            proof {
                assert forall|p: int| 0 <= p < before.len() implies #[trigger] screen@[p] == if in_window(p)
                    && window_tile(p) < i + 1 && view@[view_index(
                    origin_x as int,
                    origin_y as int,
                    window_tile(p),
                )] != tiles0[window_tile(p)] {
                    src_pixel(
                        tile_mode(mode),
                        pics@,
                        tile_source(
                            mode,
                            view@[view_index(origin_x as int, origin_y as int, window_tile(p))]
                                as int,
                        ),
                        (p / (screenpitch as int)) % 8,
                        (p % (screenpitch as int)) % 8,
                    )
                } else {
                    before[p]
                } by {
                    lemma_tile_box(i as int, p);
                }
            }
        } else {
            proof {
                assert forall|p: int| 0 <= p < before.len() implies #[trigger] screen@[p] == if in_window(p)
                    && window_tile(p) < i + 1 && view@[view_index(
                    origin_x as int,
                    origin_y as int,
                    window_tile(p),
                )] != tiles0[window_tile(p)] {
                    src_pixel(
                        tile_mode(mode),
                        pics@,
                        tile_source(
                            mode,
                            view@[view_index(origin_x as int, origin_y as int, window_tile(p))]
                                as int,
                        ),
                        (p / (screenpitch as int)) % 8,
                        (p % (screenpitch as int)) % 8,
                    )
                } else {
                    before[p]
                } by {}
            }
        }
        i += 1;
    }
}

/// Redraws the changed tiles of the play window in CGA (see `refreshed`).
pub fn cgarefresh(
    view: &[i32],
    origin_x: i32,
    origin_y: i32,
    oldtiles: &mut [i32; 576],
    screen: &mut [u8],
    pics: &[u8],
)
    requires
        0 <= origin_x,
        0 <= origin_y,
        view_index(origin_x as int, origin_y as int, 575) < view@.len(),
        forall|i: int|
            0 <= i < 576 ==> #[trigger] tile_ok(
                pics@,
                view@[view_index(origin_x as int, origin_y as int, i)] as int,
            ),
        old(screen)@.len() >= 192 * screenpitch,
    ensures
        refreshed(
            old(screen)@,
            final(screen)@,
            old(oldtiles)@,
            view@,
            origin_x as int,
            origin_y as int,
            grtype::CGAgr,
            pics@,
            576,
        ),
        forall|i: int|
            0 <= i < 576 ==> #[trigger] final(oldtiles)@[i] == view@[view_index(
                origin_x as int,
                origin_y as int,
                i,
            )],
{
    refresh_tiles(view, origin_x, origin_y, oldtiles, screen, pics, grtype::CGAgr);
}

/// Redraws the changed tiles of the play window in EGA (see `refreshed`).
pub fn egarefresh(
    view: &[i32],
    origin_x: i32,
    origin_y: i32,
    oldtiles: &mut [i32; 576],
    screen: &mut [u8],
    pics: &[u8],
)
    requires
        0 <= origin_x,
        0 <= origin_y,
        view_index(origin_x as int, origin_y as int, 575) < view@.len(),
        forall|i: int|
            0 <= i < 576 ==> #[trigger] tile_ok(
                pics@,
                view@[view_index(origin_x as int, origin_y as int, i)] as int,
            ),
        old(screen)@.len() >= 192 * screenpitch,
    ensures
        refreshed(
            old(screen)@,
            final(screen)@,
            old(oldtiles)@,
            view@,
            origin_x as int,
            origin_y as int,
            grtype::EGAgr,
            pics@,
            576,
        ),
        forall|i: int|
            0 <= i < 576 ==> #[trigger] final(oldtiles)@[i] == view@[view_index(
                origin_x as int,
                origin_y as int,
                i,
            )],
{
    refresh_tiles(view, origin_x, origin_y, oldtiles, screen, pics, grtype::EGAgr);
}

/// Refreshing a play window whose tiles are all as last drawn changes no
/// pixel, so a second refresh after a first one draws nothing.
pub proof fn lemma_refresh_unchanged(
    before: Seq<u8>,
    after: Seq<u8>,
    oldtiles: Seq<i32>,
    view: Seq<i32>,
    ox: int,
    oy: int,
    mode: grtype,
    pics: Seq<u8>,
)
    requires
        forall|i: int| 0 <= i < 576 ==> #[trigger] oldtiles[i] == view[view_index(ox, oy, i)],
        refreshed(before, after, oldtiles, view, ox, oy, mode, pics, 576),
    ensures
        after == before,
{
    assert forall|p: int| 0 <= p < before.len() implies after[p] == before[p] by {
        if in_window(p) && window_tile(p) < 576 {
            assert(window_tile(p) >= 0) by (nonlinear_arith)
                requires
                    p >= 0,
                    window_tile(p) == (p / 320 / 8) * 24 + (p % 320) / 8,
            ;
            assert(oldtiles[window_tile(p)] == view[view_index(ox, oy, window_tile(p))]);
        }
    }
    assert(after =~= before);
}


/// Whether view cell `i` lies in the `size` by `size` square of cells
/// whose top-left cell is `base` (the view is 86 cells wide).
pub open spec fn in_square(base: int, size: int, i: int) -> bool {
    let d = i - base;
    &&& d >= 0
    &&& d / (VIEW_STRIDE as int) < size
    &&& d % (VIEW_STRIDE as int) < size
}

/// The tile of a shape at view cell `i` of its square: the shape's tiles
/// run row by row from `first`.
pub open spec fn square_tile(base: int, size: int, first: int, i: int) -> int {
    let d = i - base;
    first + (d / (VIEW_STRIDE as int)) * size + d % (VIEW_STRIDE as int)
}

/// The first tile of an object's shape in its direction and stage: each
/// picture has `size * size` tiles, the stages of a direction follow each
/// other, and the direction is masked by the object's direction mask.
pub open spec fn shape_tile(obj: objtype) -> int {
    obj.firstchar + obj.size * obj.size * ((obj.dir & (obj.dirmask as u16)) * obj.stages + obj.stage)
}

/// The view cell of an object's top-left corner at (x, y).
pub open spec fn obj_base(x: int, y: int) -> int {
    y * VIEW_STRIDE + x
}

/// The cell at row `r`, column `c` of a square is in it, and its shape
/// tile is the `r * size + c`-th.
proof fn lemma_square_cell(base: int, size: int, first: int, r: int, c: int)
    requires
        0 <= r < size,
        0 <= c < size,
        size <= VIEW_STRIDE,
    ensures
        in_square(base, size, base + r * VIEW_STRIDE + c),
        square_tile(base, size, first, base + r * VIEW_STRIDE + c) == first + r * size + c,
{
    let d = r * 86 + c;
    assert(d / 86 == r && d % 86 == c) by (nonlinear_arith)
        requires
            d == r * 86 + c,
            0 <= r,
            0 <= c < 86,
    ;
}

/// Within a square, the cells before the start of row `r + 1` are those
/// before the end of row `r`.
proof fn lemma_square_rows(base: int, size: int, r: int, i: int)
    requires
        in_square(base, size, i),
        size <= VIEW_STRIDE,
    ensures
        (i - base < (r + 1) * VIEW_STRIDE) == (i - base < r * VIEW_STRIDE + size),
{
    let d = i - base;
    let q = d / 86;
    let m = d % 86;
    assert(d == q * 86 + m) by (nonlinear_arith)
        requires
            q == d / 86,
            m == d % 86,
            d >= 0,
    ;
    assert((q * 86 + m < (r + 1) * 86) == (q * 86 + m < r * 86 + size)) by (nonlinear_arith)
        requires
            0 <= m < size,
            size <= 86,
    ;
}

/// The last cell of a square lies in a view of `len` cells.
pub open spec fn square_fits(base: int, size: int, len: int) -> bool {
    size == 0 || base + (size - 1) * VIEW_STRIDE + size - 1 < len
}

/// Every cell of a square lies before its last one.
proof fn lemma_square_within(base: int, size: int, i: int)
    requires
        in_square(base, size, i),
        size <= VIEW_STRIDE,
    ensures
        i <= base + (size - 1) * VIEW_STRIDE + size - 1,
{
    let d = i - base;
    let q = d / 86;
    let m = d % 86;
    assert(d == q * 86 + m) by (nonlinear_arith)
        requires
            q == d / 86,
            m == d % 86,
            d >= 0,
    ;
    assert(q * 86 + m <= (size - 1) * 86 + size - 1) by (nonlinear_arith)
        requires
            0 <= q < size,
            0 <= m < size,
    ;
}

/// The view after an object's shape is put into it (see `drawobj`).
pub open spec fn drawn_view(view: Seq<i32>, obj: objtype, priority: Seq<u8>) -> Seq<i32> {
    let base = obj_base(obj.x as int, obj.y as int);
    let first = shape_tile(obj);
    Seq::new(
        view.len(),
        |i: int|
            if in_square(base, obj.size as int, i) && priority[view[i] as int] <= priority[first] {
                square_tile(base, obj.size as int, first, i) as i32
            } else {
                view[i]
            },
    )
}

/// The view after an object's shape is taken out of it (see `eraseobj`).
pub open spec fn erased_view(view: Seq<i32>, obj: objtype, background: Seq<i32>) -> Seq<i32> {
    let base = obj_base(obj.oldx as int, obj.oldy as int);
    Seq::new(
        view.len(),
        |i: int|
            if in_square(base, obj.size as int, i) && view[i] == square_tile(
                base,
                obj.size as int,
                obj.oldtile as int,
                i,
            ) {
                background[i]
            } else {
                view[i]
            },
    )
}

/// Puts an object's shape into the view (see `shape_tile`): each tile goes
/// into its cell of the object's square unless the tile there has a higher
/// priority than the shape's first tile. The object remembers the tile and
/// place it was drawn with.
pub fn drawobj(obj: &mut objtype, view: &mut [i32], priority: &[u8])
    requires
        old(obj).size <= 8,
        shape_tile(*old(obj)) < priority@.len(),
        square_fits(obj_base(old(obj).x as int, old(obj).y as int), old(obj).size as int, old(view)@.len() as int),
        forall|i: int|
            0 <= i < old(view)@.len() && in_square(
                obj_base(old(obj).x as int, old(obj).y as int),
                old(obj).size as int,
                i,
            ) ==> 0 <= #[trigger] old(view)@[i] < priority@.len(),
    ensures
        *final(obj) == (objtype {
            oldtile: shape_tile(*old(obj)) as i16,
            oldx: old(obj).x,
            oldy: old(obj).y,
            ..*old(obj)
        }),
        final(view)@ == drawn_view(old(view)@, *old(obj), priority@),
{
    let ghost v0 = view@;
    let ghost o0 = *obj;
    let size: usize = obj.size as usize;
    let dir: u16 = obj.dir;
    let mask: u16 = obj.dirmask as u16;
    let masked: u16 = dir & mask;
    assert(masked <= 255) by (bit_vector)
        requires
            masked == dir & mask,
            mask <= 255,
    ;
    assert(size * size <= 64) by (nonlinear_arith)
        requires
            size <= 8,
    ;
    let sq: i32 = (size * size) as i32;
    let stages: i32 = obj.stages as i32;
    assert(masked * stages <= 255 * 255) by (nonlinear_arith)
        requires
            masked <= 255,
            0 <= stages <= 255,
    ;
    let inner: i32 = masked as i32 * stages + obj.stage as i32;
    assert(0 <= sq * inner <= 64 * 65280) by (nonlinear_arith)
        requires
            0 <= sq <= 64,
            0 <= inner <= 65280,
    ;
    let tile0: i32 = obj.firstchar as i32 + sq * inner;
    assert(tile0 == shape_tile(o0));
    obj.oldtile = tile0 as i16;
    obj.oldy = obj.y;
    obj.oldx = obj.x;
    let objpri = priority[tile0 as usize];
    let base: usize = (obj.y as usize) * VIEW_STRIDE + (obj.x as usize);
    let ghost len = v0.len() as int;
    let mut ofs: usize = base;
    let mut tilenum: i32 = tile0;
    let ghost mut k: int = 0;
    let mut r: usize = 0;
    while r < size
        invariant
            r <= size,
            size <= 8,
            view@.len() == len,
            v0.len() == len,
            ofs == base + r * VIEW_STRIDE,
            k == r * size,
            tilenum == tile0 + k,
            tile0 == shape_tile(o0),
            0 <= tile0 <= 65535 + 64 * 65280 + 64 * 255,
            base == obj_base(o0.x as int, o0.y as int),
            size == o0.size,
            objpri == priority@[tile0 as int],
            square_fits(base as int, size as int, len),
            forall|i: int|
                0 <= i < len && in_square(base as int, size as int, i) ==> 0 <= #[trigger] v0[i]
                    < priority@.len(),
            forall|i: int|
                0 <= i < len ==> #[trigger] view@[i] == if in_square(base as int, size as int, i)
                    && i - base < r * VIEW_STRIDE && priority@[v0[i] as int] <= objpri {
                    square_tile(base as int, size as int, tile0 as int, i) as i32
                } else {
                    v0[i]
                },
        decreases size - r,
    {
        let mut c: usize = 0;
        while c < size
            invariant
                r < size,
                c <= size,
                size <= 8,
                view@.len() == len,
                v0.len() == len,
                ofs == base + r * VIEW_STRIDE + c,
                k == r * size + c,
                tilenum == tile0 + k,
                0 <= tile0 <= 65535 + 64 * 65280 + 64 * 255,
                objpri == priority@[tile0 as int],
                square_fits(base as int, size as int, len),
                forall|i: int|
                    0 <= i < len && in_square(base as int, size as int, i) ==> 0 <= #[trigger] v0[i]
                        < priority@.len(),
                forall|i: int|
                    0 <= i < len ==> #[trigger] view@[i] == if in_square(base as int, size as int, i)
                        && i - base < r * VIEW_STRIDE + c && priority@[v0[i] as int] <= objpri {
                        square_tile(base as int, size as int, tile0 as int, i) as i32
                    } else {
                        v0[i]
                    },
            decreases size - c,
        {
            proof {
                lemma_square_cell(base as int, size as int, tile0 as int, r as int, c as int);
                lemma_square_within(base as int, size as int, ofs as int);
                assert(k < 64) by (nonlinear_arith)
                    requires
                        k == r * size + c,
                        r < size,
                        c < size,
                        size <= 8,
                ;
            }
            let here = view[ofs];
            assert(here == v0[ofs as int]);
            if priority[here as usize] <= objpri {
                view[ofs] = tilenum;
            }
            tilenum = tilenum + 1;
            ofs = ofs + 1;
            c = c + 1;
            proof {
                k = k + 1;
            }
        }
        ofs = ofs + (VIEW_STRIDE - size);
        r = r + 1;
        proof {
            assert(k == r * size) by (nonlinear_arith)
                requires
                    k == (r - 1) * size + size,
            ;
            assert forall|i: int| 0 <= i < len && in_square(base as int, size as int, i) implies (i
                - base < r * VIEW_STRIDE) == (i - base < (r - 1) * VIEW_STRIDE + size) by {
                lemma_square_rows(base as int, size as int, r - 1, i);
            }
        }
    }
    proof {
        assert forall|i: int| 0 <= i < len && in_square(base as int, size as int, i) implies i - base
            < r * VIEW_STRIDE by {
            lemma_square_within(base as int, size as int, i);
            lemma_square_rows(base as int, size as int, r - 1, i);
        }
    }
    assert(view@ =~= Seq::new(
        len as nat,
        |i: int|
            if in_square(base as int, size as int, i) && priority@[v0[i] as int] <= priority@[tile0 as int] {
                square_tile(base as int, size as int, tile0 as int, i) as i32
            } else {
                v0[i]
            },
    ));
}


/// Takes an object's shape out of the view where it was last drawn: each
/// cell of its square that still holds the shape's tile for it (counting
/// from the tile it was drawn with) gets the background back.
pub fn eraseobj(obj: &objtype, view: &mut [i32], background: &[i32])
    requires
        obj.size <= VIEW_STRIDE,
        background@.len() == old(view)@.len(),
        square_fits(obj_base(obj.oldx as int, obj.oldy as int), obj.size as int, old(view)@.len() as int),
        obj.oldtile + obj.size * obj.size <= i16::MAX,
    ensures
        final(view)@ == erased_view(old(view)@, *obj, background@),
{
    let ghost v0 = view@;
    let size: usize = obj.size as usize;
    let base: usize = (obj.oldy as usize) * VIEW_STRIDE + (obj.oldx as usize);
    let ghost len = v0.len() as int;
    let ghost t0 = obj.oldtile as int;
    let mut tilenum: i16 = obj.oldtile;
    let mut ofs: usize = base;
    let ghost mut k: int = 0;
    let mut r: usize = 0;
    while r < size
        invariant
            r <= size,
            size <= VIEW_STRIDE,
            view@.len() == len,
            v0.len() == len,
            background@.len() == len,
            ofs == base + r * VIEW_STRIDE,
            base <= 255 * VIEW_STRIDE + 255,
            k == r * size,
            tilenum == t0 + k,
            t0 + size * size <= i16::MAX,
            square_fits(base as int, size as int, len),
            forall|i: int|
                0 <= i < len ==> #[trigger] view@[i] == if in_square(base as int, size as int, i)
                    && i - base < r * VIEW_STRIDE && v0[i] == square_tile(base as int, size as int, t0, i) {
                    background@[i]
                } else {
                    v0[i]
                },
        decreases size - r,
    {
        let mut c: usize = 0;
        while c < size
            invariant
                r < size,
                c <= size,
                size <= VIEW_STRIDE,
                view@.len() == len,
                v0.len() == len,
                background@.len() == len,
                ofs == base + r * VIEW_STRIDE + c,
                k == r * size + c,
                tilenum == t0 + k,
                t0 + size * size <= i16::MAX,
                square_fits(base as int, size as int, len),
                forall|i: int|
                    0 <= i < len ==> #[trigger] view@[i] == if in_square(base as int, size as int, i)
                        && i - base < r * VIEW_STRIDE + c && v0[i] == square_tile(
                        base as int,
                        size as int,
                        t0,
                        i,
                    ) {
                        background@[i]
                    } else {
                        v0[i]
                    },
            decreases size - c,
        {
            proof {
                lemma_square_cell(base as int, size as int, t0, r as int, c as int);
                lemma_square_within(base as int, size as int, ofs as int);
                assert(k < size * size) by (nonlinear_arith)
                    requires
                        k == r * size + c,
                        r < size,
                        c < size,
                ;
            }
            let here = view[ofs];
            assert(here == v0[ofs as int]);
            if here == tilenum as i32 {
                view[ofs] = background[ofs];
            }
            tilenum = tilenum + 1;
            ofs = ofs + 1;
            c = c + 1;
            proof {
                k = k + 1;
            }
        }
        ofs = ofs + (VIEW_STRIDE - size);
        r = r + 1;
        proof {
            assert(k == r * size) by (nonlinear_arith)
                requires
                    k == (r - 1) * size + size,
            ;
            assert forall|i: int| 0 <= i < len && in_square(base as int, size as int, i) implies (i
                - base < r * VIEW_STRIDE) == (i - base < (r - 1) * VIEW_STRIDE + size) by {
                lemma_square_rows(base as int, size as int, r - 1, i);
            }
        }
    }
    proof {
        assert forall|i: int| 0 <= i < len && in_square(base as int, size as int, i) implies i - base
            < r * VIEW_STRIDE by {
            lemma_square_within(base as int, size as int, i);
            lemma_square_rows(base as int, size as int, r - 1, i);
        }
    }
    assert(view@ =~= Seq::new(
        len as nat,
        |i: int|
            if in_square(base as int, size as int, i) && v0[i] == square_tile(base as int, size as int, t0, i) {
                background@[i]
            } else {
                v0[i]
            },
    ));
}


/// Drawing an object where the view shows the background, and then
/// erasing it, gives the view back.
pub proof fn lemma_draw_then_erase(view: Seq<i32>, background: Seq<i32>, obj: objtype, priority: Seq<u8>)
    requires
        background.len() == view.len(),
        shape_tile(obj) + obj.size * obj.size <= i16::MAX,
        forall|i: int|
            0 <= i < view.len() && in_square(obj_base(obj.x as int, obj.y as int), obj.size as int, i)
                ==> #[trigger] view[i] == background[i],
    ensures
        ({
            let drawn = objtype {
                oldtile: shape_tile(obj) as i16,
                oldx: obj.x,
                oldy: obj.y,
                ..obj
            };
            erased_view(drawn_view(view, obj, priority), drawn, background) == view
        }),
{
    let drawn = objtype { oldtile: shape_tile(obj) as i16, oldx: obj.x, oldy: obj.y, ..obj };
    let v1 = drawn_view(view, obj, priority);
    let v2 = erased_view(v1, drawn, background);
    assert(0 <= shape_tile(obj)) by (nonlinear_arith)
        requires
            obj.size >= 0,
            obj.firstchar >= 0,
            obj.stages >= 0,
            obj.stage >= 0,
            (obj.dir & (obj.dirmask as u16)) >= 0,
            shape_tile(obj) == obj.firstchar + obj.size * obj.size * ((obj.dir & (obj.dirmask as u16))
                * obj.stages + obj.stage),
    ;
    assert(drawn.oldtile as int == shape_tile(obj));
    let base = obj_base(obj.x as int, obj.y as int);
    let size = obj.size as int;
    assert forall|i: int| 0 <= i < view.len() implies v2[i] == view[i] by {
        if in_square(base, size, i) {
            let d = i - base;
            let q = d / 86;
            let m = d % 86;
            assert(q * size + m < size * size) by (nonlinear_arith)
                requires
                    0 <= q < size,
                    0 <= m < size,
            ;
            assert(square_tile(base, size, shape_tile(obj), i) <= i16::MAX);
        }
    }
    assert(v2 =~= view);
}

} // verus!
