//! The play window's remembered tiles, the pictures of objects drawn as
//! tiles, and the prompt of the help pages.
use vstd::prelude::*;

use crate::catacomb_ii::catasm::{cgarefresh, egarefresh, refreshed, tile_ok, view_index, VIEW_STRIDE};
use crate::catacomb_ii::demo_enum::demoenum;
use crate::catacomb_ii::dir_type::dirtype;
use crate::catacomb_ii::screen::screenpitch;
use crate::catacomb_ii::gr_type::grtype;
use crate::catacomb_ii::obj_def_type::objdeftype;
use crate::catacomb_ii::pcrlib_c_state::PcrlibCState;
use crate::catacomb_ii::text_window::{
    chars_drawn, draw_one_tile, draws_ok, print, print_layout, tile_draw_ok, tile_draws_ok,
    tiles_drawn,
};
use vstd::string::{StrSliceExecFns, StringSliceAdditionalSpecFns};

verus! {

/// The number of tiles of the play window whose last drawn value is kept.
pub const OLDTILES_LEN: usize = 576;

/// Forces the next refresh to redraw every tile of the play window, by
/// setting every remembered tile to -1, a value no tile has.
pub fn clearold(oldtiles: &mut [i32; 576])
    ensures
        forall|i: int| 0 <= i < 576 ==> #[trigger] final(oldtiles)@[i] == -1,
{
    let mut i: usize = 0;
    while i < OLDTILES_LEN
        invariant
            0 <= i <= OLDTILES_LEN,
            oldtiles@.len() == 576,
            forall|j: int| 0 <= j < i ==> #[trigger] oldtiles@[j] == -1,
        decreases OLDTILES_LEN - i,
    {
        oldtiles[i] = -1;
        i += 1;
    }
}


/// The first tile of a picture of class definition `def` facing `dir` in
/// stage `stage`: each picture has `size * size` tiles, the stages of a
/// direction follow each other, and the direction is masked by the class's
/// direction mask; the number is taken modulo 2^32 as a signed 32-bit
/// number.
pub open spec fn picture_tile(def: objdeftype, dir: dirtype, stage: int) -> i32 {
    (def.firstchar + def.size * def.size * ((dir.value() & (def.dirmask as u32)) * def.stages + stage)) as i32
}

/// Row `r` of a `size` by `size` picture of tiles from `first` with its
/// top-left cell at (x, y): one tile per column, left to right.
pub open spec fn picture_row(x: int, y: int, size: int, first: int, r: int) -> Seq<(int, int, int)> {
    Seq::new(if size > 0 { size as nat } else { 0 }, |c: int| (x + c, y + r, first + r * size + c))
}

/// The first `n` rows of such a picture, top to bottom.
pub open spec fn picture_draws(x: int, y: int, size: int, first: int, n: int) -> Seq<(int, int, int)>
    decreases n,
{
    if n <= 0 {
        Seq::empty()
    } else {
        picture_draws(x, y, size, first, n - 1) + picture_row(x, y, size, first, n - 1)
    }
}

/// Draws the picture of class `c` facing `dir` in stage `stage` as tiles,
/// its top-left cell at (x, y) (see `picture_tile` and `picture_draws`).
pub fn charpic(
    x: i32,
    y: i32,
    c: usize,
    dir: dirtype,
    stage: i32,
    objdef: &[objdeftype],
    screen: &mut [u8],
    pics: &[u8],
    grmode: grtype,
)
    requires
        c < objdef@.len(),
        i32::MIN <= x + objdef@[c as int].size - 1 && x + objdef@[c as int].size <= i32::MAX,
        i32::MIN <= y + objdef@[c as int].size - 1 && y + objdef@[c as int].size <= i32::MAX,
        picture_tile(objdef@[c as int], dir, stage as int) + objdef@[c as int].size * objdef@[c as int].size
            <= i32::MAX,
        tile_draws_ok(
            old(screen)@.len() as int,
            pics@,
            picture_draws(
                x as int,
                y as int,
                objdef@[c as int].size as int,
                picture_tile(objdef@[c as int], dir, stage as int) as int,
                objdef@[c as int].size as int,
            ),
        ),
    ensures
        final(screen)@ == tiles_drawn(
            old(screen)@,
            pics@,
            grmode,
            picture_draws(
                x as int,
                y as int,
                objdef@[c as int].size as int,
                picture_tile(objdef@[c as int], dir, stage as int) as int,
                objdef@[c as int].size as int,
            ),
        ),
{
    let def = objdef[c];
    let size: i32 = def.size as i32;
    let masked: u32 = dir.to_u32() & (def.dirmask as u32);
    let dirv: u32 = dir.to_u32();
    let dm: u32 = def.dirmask as u32;
    assert(masked <= 255) by (bit_vector)
        requires
            masked == dirv & dm,
            dm <= 255,
    ;
    assert(def.size * def.size <= 65025) by (nonlinear_arith)
        requires
            def.size <= 255,
    ;
    assert(masked * def.stages <= 65025) by (nonlinear_arith)
        requires
            masked <= 255,
            def.stages <= 255,
    ;
    let inner: i64 = masked as i64 * def.stages as i64 + stage as i64;
    let sq: i64 = def.size as i64 * def.size as i64;
    assert(-65025 * 2147483648 <= sq * inner <= 65025 * (65025 + 2147483647)) by (nonlinear_arith)
        requires
            0 <= sq <= 65025,
            -2147483648 <= inner <= 65025 + 2147483647,
    ;
    let total: i64 = def.firstchar as i64 + sq * inner;
    let first: i32 = total as i32;
    assert(first == picture_tile(objdef@[c as int], dir, stage as int));
    let ghost s0 = screen@;
    let ghost len = s0.len() as int;
    let ghost all = picture_draws(x as int, y as int, size as int, first as int, size as int);
    let mut tilenum: i32 = first;
    let mut yy: i32 = y;
    let ghost mut k: int = 0;
    while yy <= y + size - 1
        invariant
            y <= yy <= y + size || (size <= 0 && yy == y),
            0 <= size <= 255,
            x + size - 1 >= i32::MIN && x + size <= i32::MAX,
            y + size - 1 >= i32::MIN && y + size <= i32::MAX,
            first + size * size <= i32::MAX,
            k == (yy - y) * size,
            tilenum == first + k,
            screen@.len() == len,
            all == picture_draws(x as int, y as int, size as int, first as int, size as int),
            tile_draws_ok(len, pics@, all),
            screen@ == tiles_drawn(s0, pics@, grmode, picture_draws(x as int, y as int, size as int, first as int, yy - y)),
        decreases y + size - yy,
    {
        let r: i32 = yy - y;
        let ghost row = picture_row(x as int, y as int, size as int, first as int, r as int);
        let ghost done = picture_draws(x as int, y as int, size as int, first as int, r as int);
        proof {
            let rest = lemma_picture_rest(x as int, y as int, size as int, first as int, r + 1, size as int);
            crate::catacomb_ii::text_window::lemma_tile_draws_ok_split(len, pics@, done + row, rest);
            crate::catacomb_ii::text_window::lemma_tile_draws_ok_split(len, pics@, done, row);
        }
        let mut xx: i32 = x;
        while xx <= x + size - 1
            invariant
                x <= xx <= x + size,
                0 <= r < size <= 255,
                yy == y + r,
                x + size - 1 >= i32::MIN && x + size <= i32::MAX,
                first + size * size <= i32::MAX,
                k == r * size + (xx - x),
                tilenum == first + k,
                screen@.len() == len,
                row == picture_row(x as int, y as int, size as int, first as int, r as int),
                tile_draws_ok(len, pics@, row),
                screen@ == tiles_drawn(s0, pics@, grmode, done + row.take(xx - x)),
            decreases x + size - xx,
        {
            proof {
                assert(k < size * size) by (nonlinear_arith)
                    requires
                        k == r * size + (xx - x),
                        0 <= r < size,
                        0 <= xx - x < size,
                ;
                assert(row[xx - x] == (xx as int, yy as int, tilenum as int));
            }
            let ghost before = screen@;
            draw_one_tile(xx, yy, tilenum, screen, pics, grmode);
            proof {
                assert((done + row.take(xx - x + 1)).drop_last() =~= done + row.take(xx - x));
                assert((done + row.take(xx - x + 1)).last() == (xx as int, yy as int, tilenum as int));
                k = k + 1;
            }
            tilenum = tilenum + 1;
            xx = xx + 1;
        }
        proof {
            assert(row.take(size as int) =~= row);
            assert(k == (yy + 1 - y) * size) by (nonlinear_arith)
                requires
                    k == r * size + size,
                    yy == y + r,
            ;
        }
        yy = yy + 1;
    }
    proof {
        if size <= 0 {
            assert(picture_draws(x as int, y as int, size as int, first as int, 0) == all);
        }
    }
}

/// The first rows of a picture are followed, in all its rows, by the
/// rows after them.
proof fn lemma_picture_rest(x: int, y: int, size: int, first: int, n: int, m: int) -> (rest: Seq<(int, int, int)>)
    requires
        0 <= n <= m,
    ensures
        picture_draws(x, y, size, first, m) == picture_draws(x, y, size, first, n) + rest,
    decreases m - n,
{
    if n == m {
        assert(picture_draws(x, y, size, first, m) =~= picture_draws(x, y, size, first, n) + Seq::empty());
        Seq::empty()
    } else {
        let r = lemma_picture_rest(x, y, size, first, n, m - 1);
        let rest = r + picture_row(x, y, size, first, m - 1);
        assert(picture_draws(x, y, size, first, m) =~= picture_draws(x, y, size, first, n) + rest);
        rest
    }
}


/// The prompt at the foot of a help page.
pub open spec fn more_prompt() -> Seq<u8> {
    "(space for more/esc)".spec_bytes()
}

/// Shows the prompt of a help page at column 2 of row 20 and leaves the
/// cursor at column 12 of row 21, where the answer is awaited.
pub fn wantmore_prompt(screen: &mut [u8], pcs: &mut PcrlibCState)
    requires
        ({
            let (draws, x, y, stopped) = print_layout(more_prompt(), 2, 20, old(pcs).leftedge as int);
            &&& draws_ok(old(screen)@.len() as int, *old(pcs), draws)
            &&& forall|k: int| 0 <= k < draws.len() ==> #[trigger] draws[k].0 < i32::MAX
            &&& y <= i32::MAX
        }),
    ensures
        final(screen)@ == chars_drawn(
            old(screen)@,
            *old(pcs),
            print_layout(more_prompt(), 2, 20, old(pcs).leftedge as int).0,
        ),
        *final(pcs) == (PcrlibCState { sx: 12, sy: 21, ..*old(pcs) }),
{
    pcs.sx = 2;
    pcs.sy = 20;
    let ghost p1 = *pcs;
    let text = "(space for more/esc)".as_bytes_vec();
    let ghost before = screen@;
    print(&text, screen, pcs);
    proof {
        crate::catacomb_ii::text_window::lemma_chars_drawn_font(
            before,
            p1,
            *old(pcs),
            print_layout(more_prompt(), 2, 20, p1.leftedge as int).0,
        );
    }
    pcs.sx = 12;
    pcs.sy = 21;
}

/// Whether the key answering the prompt asks for more: any key but
/// escape (27, as a signed byte).
pub fn wantmore_answer(key: i32) -> (more: bool)
    ensures
        more == ((key as i8) != 27),
{
    (key as i8) != 27
}


/// The notice drawn over the play window while a demo runs: a framed box
/// of 16 by 5 tiles.
pub const DEMOWIN: [[u8; 16]; 5] = [
    [14, 15, 15, 15, 15, 15, 15, 15, 15, 15, 15, 15, 15, 15, 15, 16],
    [17, 32, 45, 45, 45, 32, 68, 69, 77, 79, 32, 45, 45, 45, 32, 18],
    [17, 83, 80, 65, 67, 69, 32, 84, 79, 32, 83, 84, 65, 82, 84, 18],
    [17, 70, 49, 32, 84, 79, 32, 71, 69, 84, 32, 72, 69, 76, 80, 18],
    [19, 20, 20, 20, 20, 20, 20, 20, 20, 20, 20, 20, 20, 20, 20, 21],
];

/// The index in the view of cell `k` of the demo notice (row `k / 16`,
/// column `k % 16`) for the play window whose top-left cell is (ox, oy):
/// the notice's top-left cell is 4 columns right of and 17 rows below it.
pub open spec fn notice_at(ox: int, oy: int, k: int) -> int {
    (k / 16 + oy + 17) * VIEW_STRIDE + k % 16 + ox + 4
}

/// The cell of the demo notice that view index `i` holds, or -1.
pub open spec fn notice_cell(ox: int, oy: int, i: int) -> int {
    let r = i / (VIEW_STRIDE as int) - (oy + 17);
    let c = i % (VIEW_STRIDE as int) - (ox + 4);
    if 0 <= i && 0 <= r < 5 && 0 <= c < 16 {
        r * 16 + c
    } else {
        -1
    }
}

/// The view with the first `n` cells of the demo notice drawn over it.
pub open spec fn notice_over(view: Seq<i32>, ox: int, oy: int, n: int) -> Seq<i32> {
    Seq::new(
        view.len(),
        |i: int|
            {
                let k = notice_cell(ox, oy, i);
                if 0 <= k < n {
                    DEMOWIN[k / 16][k % 16] as i32
                } else {
                    view[i]
                }
            },
    )
}

/// The view after the cells under the notice are put back: each as the
/// 16-bit number it was kept as.
pub open spec fn notice_lifted(view: Seq<i32>, under: Seq<i32>, ox: int, oy: int, n: int) -> Seq<i32> {
    Seq::new(
        view.len(),
        |i: int|
            {
                let k = notice_cell(ox, oy, i);
                if 0 <= k < n {
                    (under[i] as u16) as i32
                } else {
                    view[i]
                }
            },
    )
}

/// What the play window shows: the view, with the demo notice over it
/// while a demo runs.
pub open spec fn shown_view(indemo: demoenum, view: Seq<i32>, ox: int, oy: int) -> Seq<i32> {
    if indemo == demoenum::notdemo {
        view
    } else {
        notice_over(view, ox, oy, 80)
    }
}

/// Where cell `k` of the notice lies in the view, and back.
proof fn lemma_notice_at(ox: int, oy: int, k: int)
    requires
        0 <= ox,
        ox + 20 <= VIEW_STRIDE,
        0 <= oy,
        0 <= k < 80,
    ensures
        notice_cell(ox, oy, notice_at(ox, oy, k)) == k,
        forall|i: int| notice_cell(ox, oy, i) == k ==> i == notice_at(ox, oy, k),
        notice_at(ox, oy, k) < (oy + 22) * VIEW_STRIDE,
{
    let r = k / 16;
    let c = k % 16;
    let i = notice_at(ox, oy, k);
    assert(i == (r + oy + 17) * 86 + (c + ox + 4));
    assert(i / 86 == r + oy + 17 && i % 86 == c + ox + 4) by (nonlinear_arith)
        requires
            i == (r + oy + 17) * 86 + (c + ox + 4),
            0 <= c + ox + 4 < 86,
            r + oy + 17 >= 0,
    ;
    assert(r * 16 + c == k);
    assert forall|i2: int| notice_cell(ox, oy, i2) == k implies i2 == notice_at(ox, oy, k) by {
        let r2 = i2 / 86 - (oy + 17);
        let c2 = i2 % 86 - (ox + 4);
        assert(i2 == (i2 / 86) * 86 + i2 % 86) by (nonlinear_arith);
        assert(r2 == r && c2 == c) by (nonlinear_arith)
            requires
                r2 * 16 + c2 == k,
                0 <= c2 < 16,
                0 <= r2,
                r == k / 16,
                c == k % 16,
        ;
    }
    assert(i < (oy + 22) * 86) by (nonlinear_arith)
        requires
            i == (r + oy + 17) * 86 + (c + ox + 4),
            0 <= r < 5,
            c + ox + 4 < 86,
    ;
}

/// Redraws the play window from the view whose top-left cell is
/// (origin_x, origin_y), in CGA for `grmode` CGA and EGA otherwise (see
/// `refreshed`); while a demo runs the demo notice is drawn over the view
/// for the redraw and the cells under it are put back after it, each as
/// the 16-bit number it was kept as.
pub fn refresh(
    indemo: demoenum,
    view: &mut [i32],
    origin_x: i32,
    origin_y: i32,
    oldtiles: &mut [i32; 576],
    screen: &mut [u8],
    pics: &[u8],
    grmode: grtype,
)
    requires
        0 <= origin_x,
        0 <= origin_y,
        view_index(origin_x as int, origin_y as int, 575) < old(view)@.len(),
        indemo != demoenum::notdemo ==> origin_x + 20 <= VIEW_STRIDE && (origin_y + 22)
            * VIEW_STRIDE <= old(view)@.len(),
        forall|i: int|
            0 <= i < 576 ==> #[trigger] tile_ok(
                pics@,
                shown_view(indemo, old(view)@, origin_x as int, origin_y as int)[view_index(
                    origin_x as int,
                    origin_y as int,
                    i,
                )] as int,
            ),
        old(screen)@.len() >= 192 * screenpitch,
    ensures
        refreshed(
            old(screen)@,
            final(screen)@,
            old(oldtiles)@,
            shown_view(indemo, old(view)@, origin_x as int, origin_y as int),
            origin_x as int,
            origin_y as int,
            refresh_mode(grmode),
            pics@,
            576,
        ),
        forall|i: int|
            0 <= i < 576 ==> #[trigger] final(oldtiles)@[i] == shown_view(
                indemo,
                old(view)@,
                origin_x as int,
                origin_y as int,
            )[view_index(origin_x as int, origin_y as int, i)],
        final(view)@ == if indemo == demoenum::notdemo {
            old(view)@
        } else {
            notice_lifted(old(view)@, old(view)@, origin_x as int, origin_y as int, 80)
        },
{
    let ghost v0 = view@;
    let ghost ox = origin_x as int;
    let ghost oy = origin_y as int;
    let demo: bool = match indemo {
        demoenum::notdemo => false,
        _ => true,
    };
    let vlen: usize = view.len();
    let mut under: [u16; 80] = [0; 80];
    if demo {
        let basex: usize = origin_x as usize + 4;
        let basey: usize = origin_y as usize + 17;
        let mut k: usize = 0;
        assert(view@ =~= notice_over(v0, ox, oy, 0));
        while k < 80
            invariant
                0 <= k <= 80,
                0 <= ox,
                ox + 20 <= VIEW_STRIDE,
                0 <= oy,
                (oy + 22) * VIEW_STRIDE <= v0.len(),
                v0.len() == vlen,
                basex == ox + 4,
                basey == oy + 17,
                view@ == notice_over(v0, ox, oy, k as int),
                forall|j: int| 0 <= j < k ==> #[trigger] under[j] == v0[notice_at(ox, oy, j)] as u16,
            decreases 80 - k,
        {
            proof {
                lemma_notice_at(ox, oy, k as int);
            }
            let at: usize = (k / 16 + basey) * VIEW_STRIDE + k % 16 + basex;
            assert(at == notice_at(ox, oy, k as int));
            assert(view@[at as int] == v0[at as int]);
            under[k] = #[verifier::truncate] (view[at] as u16);
            view[at] = DEMOWIN[k / 16][k % 16] as i32;
            proof {
                assert forall|i: int| 0 <= i < view@.len() implies #[trigger] view@[i] == notice_over(
                    v0,
                    ox,
                    oy,
                    k as int + 1,
                )[i] by {
                    if i != at {
                        assert(notice_cell(ox, oy, i) != k);
                    }
                }
                assert(view@ =~= notice_over(v0, ox, oy, k as int + 1));
            }
            k += 1;
        }
    }
    let ghost shown = view@;
    assert(shown == shown_view(indemo, v0, ox, oy));
    simplerefresh(view, origin_x, origin_y, oldtiles, screen, pics, grmode);
    if demo {
        let basex: usize = origin_x as usize + 4;
        let basey: usize = origin_y as usize + 17;
        let mut k: usize = 0;
        assert(view@ =~= notice_lifted(shown, v0, ox, oy, 0));
        while k < 80
            invariant
                0 <= k <= 80,
                0 <= ox,
                ox + 20 <= VIEW_STRIDE,
                0 <= oy,
                (oy + 22) * VIEW_STRIDE <= v0.len(),
                shown.len() == v0.len(),
                v0.len() == vlen,
                basex == ox + 4,
                basey == oy + 17,
                view@ == notice_lifted(shown, v0, ox, oy, k as int),
                forall|j: int| 0 <= j < 80 ==> #[trigger] under[j] == v0[notice_at(ox, oy, j)] as u16,
            decreases 80 - k,
        {
            proof {
                lemma_notice_at(ox, oy, k as int);
            }
            let at: usize = (k / 16 + basey) * VIEW_STRIDE + k % 16 + basex;
            assert(at == notice_at(ox, oy, k as int));
            view[at] = under[k] as i32;
            proof {
                assert forall|i: int| 0 <= i < view@.len() implies #[trigger] view@[i] == notice_lifted(
                    shown,
                    v0,
                    ox,
                    oy,
                    k as int + 1,
                )[i] by {
                    if i != at {
                        assert(notice_cell(ox, oy, i) != k);
                    }
                }
                assert(view@ =~= notice_lifted(shown, v0, ox, oy, k as int + 1));
            }
            k += 1;
        }
        proof {
            assert(view@ =~= notice_lifted(v0, v0, ox, oy, 80)) by {
                assert forall|i: int| 0 <= i < view@.len() implies view@[i] == notice_lifted(
                    v0,
                    v0,
                    ox,
                    oy,
                    80,
                )[i] by {
                    let kk = notice_cell(ox, oy, i);
                    if !(0 <= kk < 80) {
                        assert(shown[i] == v0[i]);
                    }
                }
            }
        }
    }
}


/// The graphics mode a refresh draws in for `grmode`: CGA, else EGA.
pub open spec fn refresh_mode(grmode: grtype) -> grtype {
    if grmode == grtype::CGAgr {
        grtype::CGAgr
    } else {
        grtype::EGAgr
    }
}

/// Redraws the changed tiles of the play window from the view whose
/// top-left cell is (origin_x, origin_y), in the mode of `grmode` (see
/// `refresh_mode` and `refreshed`).
pub fn simplerefresh(
    view: &[i32],
    origin_x: i32,
    origin_y: i32,
    oldtiles: &mut [i32; 576],
    screen: &mut [u8],
    pics: &[u8],
    grmode: grtype,
)
    requires
        0 <= origin_x,
        0 <= origin_y,
        view_index(origin_x as int, origin_y as int, 575) < view@.len(),
        forall|i: int|
            0 <= i < 576 ==> #[trigger] tile_ok(
                pics@,
                view@[view_index(origin_x as int, origin_y as int, i)] as int,
            ),
        old(screen)@.len() >= 192 * screenpitch,
    ensures
        refreshed(
            old(screen)@,
            final(screen)@,
            old(oldtiles)@,
            view@,
            origin_x as int,
            origin_y as int,
            refresh_mode(grmode),
            pics@,
            576,
        ),
        forall|i: int|
            0 <= i < 576 ==> #[trigger] final(oldtiles)@[i] == view@[view_index(
                origin_x as int,
                origin_y as int,
                i,
            )],
{
    if grmode == grtype::CGAgr {
        cgarefresh(view, origin_x, origin_y, oldtiles, screen, pics);
    } else {
        egarefresh(view, origin_x, origin_y, oldtiles, screen, pics);
    }
}

/// Redraws the whole play window, erasing any window drawn over it: every
/// remembered tile is forgotten (see `clearold`) before the refresh.
pub fn restore(
    view: &[i32],
    origin_x: i32,
    origin_y: i32,
    oldtiles: &mut [i32; 576],
    screen: &mut [u8],
    pics: &[u8],
    grmode: grtype,
)
    requires
        0 <= origin_x,
        0 <= origin_y,
        view_index(origin_x as int, origin_y as int, 575) < view@.len(),
        forall|i: int|
            0 <= i < 576 ==> #[trigger] tile_ok(
                pics@,
                view@[view_index(origin_x as int, origin_y as int, i)] as int,
            ),
        old(screen)@.len() >= 192 * screenpitch,
    ensures
        refreshed(
            old(screen)@,
            final(screen)@,
            Seq::new(576, |i: int| -1i32),
            view@,
            origin_x as int,
            origin_y as int,
            refresh_mode(grmode),
            pics@,
            576,
        ),
        forall|i: int|
            0 <= i < 576 ==> #[trigger] final(oldtiles)@[i] == view@[view_index(
                origin_x as int,
                origin_y as int,
                i,
            )],
{
    clearold(oldtiles);
    assert(oldtiles@ =~= Seq::new(576, |i: int| -1i32));
    simplerefresh(view, origin_x, origin_y, oldtiles, screen, pics, grmode);
}

} // verus!
