//! Character windows, bars and text printing on the 40 by 25 grid of
//! character cells of the screen.
use vstd::prelude::*;
use vstd::string::StringSliceAdditionalSpecFns;

use crate::catacomb_ii::pcrlib_a::{cell_ofs, char_source, drawchar};
use crate::catacomb_ii::pcrlib_c_state::PcrlibCState;
use crate::catacomb_ii::screen::{
    box_col, box_ok, box_row, in_box, screenpitch, source_ok, src_pixel, Source,
};
use crate::catacomb_ii::gr_type::grtype;
use crate::int_math::div_trunc;
use crate::catacomb_ii::catasm::{drawchartile, tile_mode, tile_ok, tile_source};

verus! {

/// The screen after a `w` by `h` graphic from `src` is drawn with its
/// top-left pixel at `ofs`.
pub open spec fn blit_result(
    before: Seq<u8>,
    ofs: int,
    w: int,
    h: int,
    mode: grtype,
    data: Seq<u8>,
    src: Source,
) -> Seq<u8> {
    Seq::new(
        before.len(),
        |i: int|
            if in_box(ofs, w, h, i) {
                src_pixel(mode, data, src, box_row(ofs, i), box_col(ofs, i))
            } else {
                before[i]
            },
    )
}

/// The screen after character `d.2` of the font is drawn into the cell of
/// column `d.0`, row `d.1`.
pub open spec fn char_drawn(screen: Seq<u8>, pcs: PcrlibCState, d: (int, int, int)) -> Seq<u8> {
    blit_result(
        screen,
        cell_ofs(d.0, d.1),
        8,
        8,
        pcs.grmode,
        pcs.picfile_data@,
        char_source(pcs, d.2),
    )
}

/// The screen after the characters of `draws` are drawn one after the
/// other, each as (column, row, character).
pub open spec fn chars_drawn(screen: Seq<u8>, pcs: PcrlibCState, draws: Seq<(int, int, int)>) -> Seq<
    u8,
>
    decreases draws.len(),
{
    if draws.len() == 0 {
        screen
    } else {
        char_drawn(chars_drawn(screen, pcs, draws.drop_last()), pcs, draws.last())
    }
}

/// Character `d.2` can be drawn into cell (`d.0`, `d.1`): the cell lies on
/// a screen of `len` pixels and the character lies in the font data.
pub open spec fn draw_ok(len: int, pcs: PcrlibCState, d: (int, int, int)) -> bool {
    &&& 0 <= d.0 <= i32::MAX
    &&& 0 <= d.1 <= i32::MAX
    &&& 0 <= d.2 <= i32::MAX
    &&& box_ok(len, cell_ofs(d.0, d.1), 8, 8)
    &&& source_ok(pcs.grmode, pcs.picfile_data@, char_source(pcs, d.2), 8, 8)
    &&& pcs.charptr + d.2 * 64 <= usize::MAX
}

/// Every character of `draws` can be drawn (see `draw_ok`).
pub open spec fn draws_ok(len: int, pcs: PcrlibCState, draws: Seq<(int, int, int)>) -> bool {
    forall|k: int| 0 <= k < draws.len() ==> draw_ok(len, pcs, #[trigger] draws[k])
}

/// Drawing two lists one after the other draws their concatenation.
pub proof fn lemma_chars_drawn_concat(
    screen: Seq<u8>,
    pcs: PcrlibCState,
    a: Seq<(int, int, int)>,
    b: Seq<(int, int, int)>,
)
    ensures
        chars_drawn(screen, pcs, a + b) == chars_drawn(chars_drawn(screen, pcs, a), pcs, b),
    decreases b.len(),
{
    if b.len() == 0 {
        assert(a + b =~= a);
    } else {
        lemma_chars_drawn_concat(screen, pcs, a, b.drop_last());
        assert((a + b).drop_last() =~= a + b.drop_last());
        assert((a + b).last() == b.last());
    }
}

/// What is drawn depends only on the font: the graphics mode, the picture
/// data, where the characters start and the EGA plane offsets.
pub proof fn lemma_chars_drawn_font(
    screen: Seq<u8>,
    p1: PcrlibCState,
    p2: PcrlibCState,
    draws: Seq<(int, int, int)>,
)
    requires
        p1.grmode == p2.grmode,
        p1.picfile_data@ == p2.picfile_data@,
        p1.charptr == p2.charptr,
        p1.egaplaneofs == p2.egaplaneofs,
    ensures
        chars_drawn(screen, p1, draws) == chars_drawn(screen, p2, draws),
    decreases draws.len(),
{
    if draws.len() > 0 {
        lemma_chars_drawn_font(screen, p1, p2, draws.drop_last());
    }
}

/// Drawing a list of one character draws that character.
pub proof fn lemma_chars_drawn_one(screen: Seq<u8>, pcs: PcrlibCState, d: (int, int, int))
    ensures
        chars_drawn(screen, pcs, seq![d]) == char_drawn(screen, pcs, d),
{
    assert(seq![d].drop_last() =~= Seq::<(int, int, int)>::empty());
    reveal_with_fuel(chars_drawn, 2);
}

/// The characters of both parts of a list can be drawn when those of the
/// list can.
pub proof fn lemma_draws_ok_split(
    len: int,
    pcs: PcrlibCState,
    a: Seq<(int, int, int)>,
    b: Seq<(int, int, int)>,
)
    requires
        draws_ok(len, pcs, a + b),
    ensures
        draws_ok(len, pcs, a),
        draws_ok(len, pcs, b),
{
    assert forall|k: int| 0 <= k < a.len() implies draw_ok(len, pcs, #[trigger] a[k]) by {
        assert((a + b)[k] == a[k]);
    }
    assert forall|k: int| 0 <= k < b.len() implies draw_ok(len, pcs, #[trigger] b[k]) by {
        assert((a + b)[a.len() + k] == b[k]);
    }
}

/// The run of character `ch` in row `y`, from column `x0` up to but
/// excluding column `x_end`.
pub open spec fn run(x0: int, x_end: int, y: int, ch: int) -> Seq<(int, int, int)> {
    Seq::new(if x_end > x0 { (x_end - x0) as nat } else { 0 }, |i: int| (x0 + i, y, ch))
}

/// A run one column longer ends with that column.
proof fn lemma_run_push(x0: int, x: int, y: int, ch: int)
    requires
        x0 <= x,
    ensures
        run(x0, x + 1, y, ch) == run(x0, x, y, ch).push((x, y, ch)),
{
    assert(run(x0, x + 1, y, ch) =~= run(x0, x, y, ch).push((x, y, ch)));
}

/// Draws character `ch` into the cells of row `y` from column `x0` up to
/// but excluding column `x_end`, left to right.
pub fn draw_run(x0: i32, x_end: i64, y: i32, ch: i32, screen: &mut [u8], pcs: &PcrlibCState)
    requires
        draws_ok(old(screen)@.len() as int, *pcs, run(x0 as int, x_end as int, y as int, ch as int)),
    ensures
        final(screen)@.len() == old(screen)@.len(),
        final(screen)@ == chars_drawn(
            old(screen)@,
            *pcs,
            run(x0 as int, x_end as int, y as int, ch as int),
        ),
{
    let ghost s0 = screen@;
    let ghost all = run(x0 as int, x_end as int, y as int, ch as int);
    let mut x: i64 = x0 as i64;
    assert(run(x0 as int, x0 as int, y as int, ch as int) =~= Seq::<(int, int, int)>::empty());
    while x < x_end
        invariant
            x0 <= x,
            x <= x_end || x == x0,
            screen@.len() == s0.len(),
            all == run(x0 as int, x_end as int, y as int, ch as int),
            draws_ok(s0.len() as int, *pcs, all),
            screen@ == chars_drawn(s0, *pcs, run(x0 as int, x as int, y as int, ch as int)),
        decreases x_end - x,
    {
        assert(all[x - x0] == (x as int, y as int, ch as int));
        assert(draw_ok(s0.len() as int, *pcs, all[x - x0]));
        let ghost before = screen@;
        drawchar(x as i32, y, ch, screen, pcs);
        proof {
            lemma_run_push(x0 as int, x as int, y as int, ch as int);
            let r = run(x0 as int, x as int + 1, y as int, ch as int);
            assert(r.drop_last() =~= run(x0 as int, x as int, y as int, ch as int));
            assert(screen@ =~= char_drawn(before, *pcs, (x as int, y as int, ch as int)));
        }
        x = x + 1;
    }
    proof {
        if x_end <= x0 {
            assert(run(x0 as int, x as int, y as int, ch as int) =~= all);
        }
    }
}

/// The run of character `ch` in column `x`, from row `y0` down to but
/// excluding row `y_end`.
pub open spec fn column_run(x: int, y0: int, y_end: int, ch: int) -> Seq<(int, int, int)> {
    Seq::new(if y_end > y0 { (y_end - y0) as nat } else { 0 }, |i: int| (x, y0 + i, ch))
}

/// Draws character `ch` into the cells of column `x` from row `y0` down to
/// but excluding row `y_end`, top to bottom.
pub fn draw_column_run(x: i32, y0: i32, y_end: i64, ch: i32, screen: &mut [u8], pcs: &PcrlibCState)
    requires
        draws_ok(old(screen)@.len() as int, *pcs, column_run(x as int, y0 as int, y_end as int, ch as int)),
    ensures
        final(screen)@.len() == old(screen)@.len(),
        final(screen)@ == chars_drawn(
            old(screen)@,
            *pcs,
            column_run(x as int, y0 as int, y_end as int, ch as int),
        ),
{
    let ghost s0 = screen@;
    let ghost all = column_run(x as int, y0 as int, y_end as int, ch as int);
    let mut y: i64 = y0 as i64;
    assert(column_run(x as int, y0 as int, y0 as int, ch as int) =~= Seq::<(int, int, int)>::empty());
    while y < y_end
        invariant
            y0 <= y,
            y <= y_end || y == y0,
            screen@.len() == s0.len(),
            all == column_run(x as int, y0 as int, y_end as int, ch as int),
            draws_ok(s0.len() as int, *pcs, all),
            screen@ == chars_drawn(s0, *pcs, column_run(x as int, y0 as int, y as int, ch as int)),
        decreases y_end - y,
    {
        assert(all[y - y0] == (x as int, y as int, ch as int));
        assert(draw_ok(s0.len() as int, *pcs, all[y - y0]));
        let ghost before = screen@;
        drawchar(x, y as i32, ch, screen, pcs);
        proof {
            let r = column_run(x as int, y0 as int, y as int + 1, ch as int);
            assert(r =~= column_run(x as int, y0 as int, y as int, ch as int).push((x as int, y as int, ch as int)));
            assert(r.drop_last() =~= column_run(x as int, y0 as int, y as int, ch as int));
            assert(screen@ =~= char_drawn(before, *pcs, (x as int, y as int, ch as int)));
        }
        y = y + 1;
    }
    proof {
        if y_end <= y0 {
            assert(column_run(x as int, y0 as int, y as int, ch as int) =~= all);
        }
    }
}

/// Draws one character, with its effect stated as `char_drawn`.
fn draw_one(x: i32, y: i32, ch: i32, screen: &mut [u8], pcs: &PcrlibCState)
    requires
        draw_ok(old(screen)@.len() as int, *pcs, (x as int, y as int, ch as int)),
    ensures
        final(screen)@.len() == old(screen)@.len(),
        final(screen)@ == char_drawn(old(screen)@, *pcs, (x as int, y as int, ch as int)),
{
    let ghost before = screen@;
    drawchar(x, y, ch, screen, pcs);
    assert(screen@ =~= char_drawn(before, *pcs, (x as int, y as int, ch as int)));
}

/// The characters of a bar: rows `yl` to `yh`, each from column `xl` to
/// column `xh`, all character `ch`, row by row.
pub open spec fn bar_draws(xl: int, yl: int, xh: int, yh: int, ch: int) -> Seq<(int, int, int)>
    decreases yh - yl + 1,
{
    if yh < yl {
        Seq::empty()
    } else {
        bar_draws(xl, yl, xh, yh - 1, ch) + run(xl, xh + 1, yh, ch)
    }
}

/// Fills the cells from (xl, yl) to (xh, yh), both corners included, with
/// character `ch`, row by row.
pub fn bar(xl: i32, yl: i32, xh: i32, yh: i32, ch_0: i32, screen: &mut [u8], pcs: &PcrlibCState)
    requires
        draws_ok(old(screen)@.len() as int, *pcs, bar_draws(xl as int, yl as int, xh as int, yh as int, ch_0 as int)),
    ensures
        final(screen)@ == chars_drawn(
            old(screen)@,
            *pcs,
            bar_draws(xl as int, yl as int, xh as int, yh as int, ch_0 as int),
        ),
{
    let ghost s0 = screen@;
    let ghost all = bar_draws(xl as int, yl as int, xh as int, yh as int, ch_0 as int);
    let mut y: i64 = yl as i64;
    while y <= yh as i64
        invariant
            yl <= y,
            y <= yh as int + 1 || y == yl,
            screen@.len() == s0.len(),
            all == bar_draws(xl as int, yl as int, xh as int, yh as int, ch_0 as int),
            draws_ok(s0.len() as int, *pcs, all),
            screen@ == chars_drawn(s0, *pcs, bar_draws(xl as int, yl as int, xh as int, y - 1, ch_0 as int)),
        decreases yh - y + 1,
    {
        proof {
            lemma_bar_prefix(xl as int, yl as int, xh as int, y as int, yh as int, ch_0 as int);
            let rest = lemma_bar_rest(xl as int, yl as int, xh as int, y as int, yh as int, ch_0 as int);
            lemma_draws_ok_split(
                s0.len() as int,
                *pcs,
                bar_draws(xl as int, yl as int, xh as int, y as int, ch_0 as int),
                rest,
            );
            lemma_draws_ok_split(
                s0.len() as int,
                *pcs,
                bar_draws(xl as int, yl as int, xh as int, y - 1, ch_0 as int),
                run(xl as int, xh + 1, y as int, ch_0 as int),
            );
        }
        let ghost before = screen@;
        draw_run(xl, xh as i64 + 1, y as i32, ch_0, screen, pcs);
        proof {
            lemma_chars_drawn_concat(
                s0,
                *pcs,
                bar_draws(xl as int, yl as int, xh as int, y - 1, ch_0 as int),
                run(xl as int, xh + 1, y as int, ch_0 as int),
            );
        }
        y = y + 1;
    }
    proof {
        if yh < yl {
            assert(bar_draws(xl as int, yl as int, xh as int, y - 1, ch_0 as int) == all);
        }
    }
}

/// The bar up to row `y` is followed, in the bar up to row `yh`, by the
/// rows after `y`.
proof fn lemma_bar_rest(xl: int, yl: int, xh: int, y: int, yh: int, ch: int) -> (rest: Seq<(int, int, int)>)
    requires
        yl <= y <= yh,
    ensures
        bar_draws(xl, yl, xh, yh, ch) == bar_draws(xl, yl, xh, y, ch) + rest,
    decreases yh - y,
{
    if y == yh {
        assert(bar_draws(xl, yl, xh, yh, ch) =~= bar_draws(xl, yl, xh, y, ch) + Seq::empty());
        Seq::empty()
    } else {
        let r = lemma_bar_rest(xl, yl, xh, y, yh - 1, ch);
        let rest = r + run(xl, xh + 1, yh, ch);
        assert(bar_draws(xl, yl, xh, yh, ch) =~= bar_draws(xl, yl, xh, y, ch) + rest);
        rest
    }
}

/// The bar up to row `y` is the bar up to the row before it and then row
/// `y`.
proof fn lemma_bar_prefix(xl: int, yl: int, xh: int, y: int, yh: int, ch: int)
    requires
        yl <= y <= yh,
    ensures
        bar_draws(xl, yl, xh, y, ch) == bar_draws(xl, yl, xh, y - 1, ch) + run(xl, xh + 1, y, ch),
{
}

/// One row of a window's frame in row `y`: `l` at column `xl`, `m` in the
/// columns between, `r` at column `xh`, drawn left to right.
pub open spec fn frame_row(xl: int, xh: int, y: int, l: int, m: int, r: int) -> Seq<(int, int, int)> {
    seq![(xl, y, l)] + run(xl + 1, xh, y, m) + seq![(xh, y, r)]
}

/// The inner rows of a window, from row `y0` up to but excluding row `y1`:
/// the side characters 4 and 5 with blanks between.
pub open spec fn middle_rows(xl: int, xh: int, y0: int, y1: int) -> Seq<(int, int, int)>
    decreases y1 - y0,
{
    if y1 <= y0 {
        Seq::empty()
    } else {
        middle_rows(xl, xh, y0, y1 - 1) + frame_row(xl, xh, y1 - 1, 4, 32, 5)
    }
}

/// The characters of a window with corners (xl, yl) and (xh, yh): the top
/// row (corners 1 and 3, edge 2), the inner rows (sides 4 and 5, blanks
/// between) and the bottom row (corners 6 and 8, edge 7), in that order.
pub open spec fn window_draws(xl: int, yl: int, xh: int, yh: int) -> Seq<(int, int, int)> {
    frame_row(xl, xh, yl, 1, 2, 3) + middle_rows(xl, xh, yl + 1, yh) + frame_row(xl, xh, yh, 6, 7, 8)
}

/// Draws one row of a window's frame (see `frame_row`).
fn draw_frame_row(xl: i32, xh: i32, y: i32, l: i32, m: i32, r: i32, screen: &mut [u8], pcs: &PcrlibCState)
    requires
        xl < i32::MAX,
        draws_ok(
            old(screen)@.len() as int,
            *pcs,
            frame_row(xl as int, xh as int, y as int, l as int, m as int, r as int),
        ),
    ensures
        final(screen)@.len() == old(screen)@.len(),
        final(screen)@ == chars_drawn(
            old(screen)@,
            *pcs,
            frame_row(xl as int, xh as int, y as int, l as int, m as int, r as int),
        ),
{
    let ghost s0 = screen@;
    let ghost first = seq![(xl as int, y as int, l as int)];
    let ghost mid = run(xl + 1, xh as int, y as int, m as int);
    let ghost last = seq![(xh as int, y as int, r as int)];
    proof {
        lemma_draws_ok_split(s0.len() as int, *pcs, first + mid, last);
        lemma_draws_ok_split(s0.len() as int, *pcs, first, mid);
        assert(first[0] == (xl as int, y as int, l as int));
        assert(last[0] == (xh as int, y as int, r as int));
    }
    draw_one(xl, y, l, screen, pcs);
    let ghost s1 = screen@;
    draw_run(xl + 1, xh as i64, y, m, screen, pcs);
    let ghost s2 = screen@;
    draw_one(xh, y, r, screen, pcs);
    proof {
        lemma_chars_drawn_one(s0, *pcs, (xl as int, y as int, l as int));
        lemma_chars_drawn_concat(s0, *pcs, first, mid);
        lemma_chars_drawn_one(s2, *pcs, (xh as int, y as int, r as int));
        lemma_chars_drawn_concat(s0, *pcs, first + mid, last);
    }
}

/// The inner rows up to row `y1` are followed, in those up to row `y2`, by
/// the rows between.
proof fn lemma_middle_rest(xl: int, xh: int, y0: int, y1: int, y2: int) -> (rest: Seq<(int, int, int)>)
    requires
        y0 <= y1 <= y2,
    ensures
        middle_rows(xl, xh, y0, y2) == middle_rows(xl, xh, y0, y1) + rest,
    decreases y2 - y1,
{
    if y1 == y2 {
        assert(middle_rows(xl, xh, y0, y2) =~= middle_rows(xl, xh, y0, y1) + Seq::empty());
        Seq::empty()
    } else {
        let r = lemma_middle_rest(xl, xh, y0, y1, y2 - 1);
        let rest = r + frame_row(xl, xh, y2 - 1, 4, 32, 5);
        assert(middle_rows(xl, xh, y0, y2) =~= middle_rows(xl, xh, y0, y1) + rest);
        rest
    }
}

/// Draws a window with corners (xl, yl) and (xh, yh) (see
/// `window_draws`), makes it the current window, and puts the text cursor
/// and left margin just inside its top-left corner.
pub fn drawwindow(xl: i32, yl: i32, xh: i32, yh: i32, screen: &mut [u8], pcs: &mut PcrlibCState)
    requires
        xl < i32::MAX,
        yl < i32::MAX,
        draws_ok(
            old(screen)@.len() as int,
            *old(pcs),
            window_draws(xl as int, yl as int, xh as int, yh as int),
        ),
    ensures
        final(screen)@.len() == old(screen)@.len(),
        final(screen)@ == chars_drawn(
            old(screen)@,
            *old(pcs),
            window_draws(xl as int, yl as int, xh as int, yh as int),
        ),
        *final(pcs) == (PcrlibCState {
            win_xl: xl,
            win_yl: yl,
            win_xh: xh,
            win_yh: yh,
            leftedge: (xl + 1) as i32,
            sx: (xl + 1) as i32,
            sy: (yl + 1) as i32,
            ..*old(pcs)
        }),
{
    let ghost s0 = screen@;
    let ghost len = s0.len() as int;
    let ghost top = frame_row(xl as int, xh as int, yl as int, 1, 2, 3);
    let ghost bottom = frame_row(xl as int, xh as int, yh as int, 6, 7, 8);
    let ghost inner = middle_rows(xl as int, xh as int, yl + 1, yh as int);
    proof {
        lemma_draws_ok_split(len, *pcs, top + inner, bottom);
        lemma_draws_ok_split(len, *pcs, top, inner);
    }
    draw_frame_row(xl, xh, yl, 1, 2, 3, screen, pcs);
    let mut y: i32 = yl + 1;
    assert(middle_rows(xl as int, xh as int, yl + 1, y as int) =~= Seq::<(int, int, int)>::empty());
    assert(top + Seq::<(int, int, int)>::empty() =~= top);
    while y < yh
        invariant
            yl < y,
            y <= yh || y == yl + 1,
            xl < i32::MAX,
            screen@.len() == len,
            len == s0.len(),
            inner == middle_rows(xl as int, xh as int, yl + 1, yh as int),
            draws_ok(len, *pcs, inner),
            screen@ == chars_drawn(
                s0,
                *pcs,
                top + middle_rows(xl as int, xh as int, yl + 1, y as int),
            ),
        decreases yh - y,
    {
        proof {
            let rest = lemma_middle_rest(xl as int, xh as int, yl + 1, y + 1, yh as int);
            lemma_draws_ok_split(len, *pcs, middle_rows(xl as int, xh as int, yl + 1, y + 1), rest);
            lemma_draws_ok_split(
                len,
                *pcs,
                middle_rows(xl as int, xh as int, yl + 1, y as int),
                frame_row(xl as int, xh as int, y as int, 4, 32, 5),
            );
        }
        draw_frame_row(xl, xh, y, 4, 32, 5, screen, pcs);
        proof {
            let done = middle_rows(xl as int, xh as int, yl + 1, y as int);
            let row = frame_row(xl as int, xh as int, y as int, 4, 32, 5);
            lemma_chars_drawn_concat(s0, *pcs, top + done, row);
            assert(top + done + row =~= top + middle_rows(xl as int, xh as int, yl + 1, y + 1));
        }
        y = y + 1;
    }
    proof {
        if yh <= yl + 1 {
            assert(inner =~= Seq::<(int, int, int)>::empty());
        }
        assert(middle_rows(xl as int, xh as int, yl + 1, y as int) == inner);
    }
    draw_frame_row(xl, xh, yh, 6, 7, 8, screen, pcs);
    proof {
        lemma_chars_drawn_concat(s0, *pcs, top + inner, bottom);
    }
    pcs.win_xl = xl;
    pcs.win_yl = yl;
    pcs.win_xh = xh;
    pcs.win_yh = yh;
    pcs.leftedge = xl + 1;
    pcs.sx = pcs.leftedge;
    pcs.sy = yl + 1;
}

/// Blanks the current window, its frame included.
pub fn erasewindow(screen: &mut [u8], pcs: &PcrlibCState)
    requires
        draws_ok(
            old(screen)@.len() as int,
            *pcs,
            bar_draws(pcs.win_xl as int, pcs.win_yl as int, pcs.win_xh as int, pcs.win_yh as int, 32),
        ),
    ensures
        final(screen)@ == chars_drawn(
            old(screen)@,
            *pcs,
            bar_draws(pcs.win_xl as int, pcs.win_yl as int, pcs.win_xh as int, pcs.win_yh as int, 32),
        ),
{
    bar(pcs.win_xl, pcs.win_yl, pcs.win_xh, pcs.win_yh, 32, screen, pcs);
}

/// The top-left corner of a window whose inside is `width` by `height`
/// cells, centred on (cx, cy): half the size (rounded toward zero) up and
/// left of the centre.
pub open spec fn centered_corner(cx: int, cy: int, width: int, height: int) -> (int, int) {
    (cx - div_trunc(width, 2), cy - div_trunc(height, 2))
}

/// Draws a window whose inside is `width` by `height` cells around the
/// screen centre (cx, cy) (see `centered_corner` and `drawwindow`).
pub fn centerwindow(width: i32, height: i32, cx: i32, cy: i32, screen: &mut [u8], pcs: &mut PcrlibCState)
    requires
        ({
            let (xl, yl) = centered_corner(cx as int, cy as int, width as int, height as int);
            &&& i32::MIN <= xl && i32::MIN <= xl + width && xl + width + 1 <= i32::MAX
            &&& i32::MIN <= yl && i32::MIN <= yl + height && yl + height + 1 <= i32::MAX
            &&& xl < i32::MAX
            &&& yl < i32::MAX
            &&& draws_ok(
                old(screen)@.len() as int,
                *old(pcs),
                window_draws(xl, yl, xl + width + 1, yl + height + 1),
            )
        }),
    ensures
        final(screen)@.len() == old(screen)@.len(),
        ({
            let (xl, yl) = centered_corner(cx as int, cy as int, width as int, height as int);
            &&& final(screen)@ == chars_drawn(
                old(screen)@,
                *old(pcs),
                window_draws(xl, yl, xl + width + 1, yl + height + 1),
            )
            &&& *final(pcs) == (PcrlibCState {
                win_xl: xl as i32,
                win_yl: yl as i32,
                win_xh: (xl + width + 1) as i32,
                win_yh: (yl + height + 1) as i32,
                leftedge: (xl + 1) as i32,
                sx: (xl + 1) as i32,
                sy: (yl + 1) as i32,
                ..*old(pcs)
            })
        }),
{
    let hw: i32 = width / 2;
    let hh: i32 = height / 2;
    assert(hw == div_trunc(width as int, 2));
    assert(hh == div_trunc(height as int, 2));
    let xl: i32 = cx - hw;
    let yl: i32 = cy - hh;
    drawwindow(xl, yl, xl + width + 1, yl + height + 1, screen, pcs);
}

/// Printing the bytes of `s` with the cursor at (sx, sy) and the left margin
/// at `left`: the characters drawn, as (column, row, character), the cursor
/// after, and whether a 0 byte ended the text. A 0 byte stops printing, a
/// newline moves to the left margin of the next row, a carriage return to
/// the left margin of the same row, and any other byte is drawn at the
/// cursor, which then moves one column right. Nothing is clipped.
pub open spec fn print_layout(s: Seq<u8>, sx: int, sy: int, left: int) -> (
    Seq<(int, int, int)>,
    int,
    int,
    bool,
)
    decreases s.len(),
{
    if s.len() == 0 {
        (Seq::empty(), sx, sy, false)
    } else {
        let (d, x, y, stopped) = print_layout(s.drop_last(), sx, sy, left);
        let c = s.last();
        if stopped || c == 0 {
            (d, x, y, true)
        } else if c == 10 {
            (d, left, y + 1, false)
        } else if c == 13 {
            (d, left, y, false)
        } else {
            (d.push((x, y, c as int)), x + 1, y, false)
        }
    }
}

/// What is printed of a prefix of a text is printed first of the whole
/// text: its characters come first, its row is no lower, and once a 0 byte
/// stopped it nothing more happens.
pub proof fn lemma_print_prefix(s: Seq<u8>, sx: int, sy: int, left: int, i: int, j: int)
    requires
        0 <= i <= j <= s.len(),
    ensures
        ({
            let a = print_layout(s.take(i), sx, sy, left);
            let b = print_layout(s.take(j), sx, sy, left);
            &&& a.0.len() <= b.0.len()
            &&& b.0.take(a.0.len() as int) == a.0
            &&& a.2 <= b.2
            &&& a.3 ==> b == a
        }),
    decreases j - i,
{
    if i < j {
        lemma_print_prefix(s, sx, sy, left, i, j - 1);
        assert(s.take(j).drop_last() =~= s.take(j - 1));
        let b0 = print_layout(s.take(j - 1), sx, sy, left);
        let b = print_layout(s.take(j), sx, sy, left);
        let a = print_layout(s.take(i), sx, sy, left);
        if b.0.len() > b0.0.len() {
            assert(b.0 == b0.0.push(b.0.last()));
            assert(b.0.take(a.0.len() as int) =~= b0.0.take(a.0.len() as int));
        }
    } else {
        let a = print_layout(s.take(i), sx, sy, left);
        assert(a.0.take(a.0.len() as int) =~= a.0);
    }
}

/// Prints the bytes of `str_0` at the text cursor (see `print_layout`),
/// leaving the cursor after the text.
pub fn print(str_0: &[u8], screen: &mut [u8], pcs: &mut PcrlibCState)
    requires
        ({
            let (draws, x, y, stopped) = print_layout(
                str_0@,
                old(pcs).sx as int,
                old(pcs).sy as int,
                old(pcs).leftedge as int,
            );
            &&& draws_ok(old(screen)@.len() as int, *old(pcs), draws)
            &&& forall|k: int| 0 <= k < draws.len() ==> #[trigger] draws[k].0 < i32::MAX
            &&& y <= i32::MAX
        }),
    ensures
        ({
            let (draws, x, y, stopped) = print_layout(
                str_0@,
                old(pcs).sx as int,
                old(pcs).sy as int,
                old(pcs).leftedge as int,
            );
            &&& final(screen)@ == chars_drawn(old(screen)@, *old(pcs), draws)
            &&& *final(pcs) == (PcrlibCState { sx: x as i32, sy: y as i32, ..*old(pcs) })
            &&& final(pcs).sx as int == x && final(pcs).sy as int == y
        }),
        final(screen)@.len() == old(screen)@.len(),
{
    let ghost s = str_0@;
    let ghost s0 = screen@;
    let ghost p0 = *pcs;
    let ghost full = print_layout(s, p0.sx as int, p0.sy as int, p0.leftedge as int);
    let n = str_0.len();
    let mut i: usize = 0;
    assert(s.take(0) =~= Seq::<u8>::empty());
    assert(s.take(n as int) =~= s);
    while i < n
        invariant_except_break
            i <= n,
            n == s.len(),
            s.take(n as int) == s,
            s == str_0@,
            screen@.len() == s0.len(),
            full == print_layout(s, p0.sx as int, p0.sy as int, p0.leftedge as int),
            draws_ok(s0.len() as int, p0, full.0),
            forall|k: int| 0 <= k < full.0.len() ==> #[trigger] full.0[k].0 < i32::MAX,
            full.2 <= i32::MAX,
            ({
                let q = print_layout(s.take(i as int), p0.sx as int, p0.sy as int, p0.leftedge as int);
                &&& !q.3
                &&& screen@ == chars_drawn(s0, p0, q.0)
                &&& pcs.sx as int == q.1
                &&& pcs.sy as int == q.2
                &&& *pcs == (PcrlibCState { sx: pcs.sx, sy: pcs.sy, ..p0 })
            }),
        ensures
            screen@.len() == s0.len(),
            ({
                let q = print_layout(s, p0.sx as int, p0.sy as int, p0.leftedge as int);
                &&& screen@ == chars_drawn(s0, p0, q.0)
                &&& pcs.sx as int == q.1
                &&& pcs.sy as int == q.2
                &&& *pcs == (PcrlibCState { sx: pcs.sx, sy: pcs.sy, ..p0 })
            }),
        decreases n - i,
    {
        let ghost q = print_layout(s.take(i as int), p0.sx as int, p0.sy as int, p0.leftedge as int);
        let ch_0 = str_0[i];
        proof {
            assert(s.take(i + 1).drop_last() =~= s.take(i as int));
            assert(s.take(i + 1).last() == ch_0);
            lemma_print_prefix(s, p0.sx as int, p0.sy as int, p0.leftedge as int, i + 1, n as int);
            let q1 = print_layout(s.take(i + 1), p0.sx as int, p0.sy as int, p0.leftedge as int);
            assert(q1.2 <= full.2);
        }
        if ch_0 == 0 {
            break;
        } else if ch_0 == 10 {
            pcs.sy = pcs.sy + 1;
            pcs.sx = pcs.leftedge;
        } else if ch_0 == 13 {
            pcs.sx = pcs.leftedge;
        } else {
            let ghost q1 = print_layout(s.take(i + 1), p0.sx as int, p0.sy as int, p0.leftedge as int);
            proof {
                let k = q.0.len() as int;
                assert(q1.0[k] == full.0[k]);
                assert(draw_ok(s0.len() as int, p0, full.0[k]));
                assert(full.0[k].0 < i32::MAX);
                assert(q1.0.drop_last() =~= q.0);
            }
            draw_one(pcs.sx, pcs.sy, ch_0 as i32, screen, pcs);
            pcs.sx = pcs.sx + 1;
        }
        i = i + 1;
    }
    proof {
        assert(s.take(n as int) =~= s);
    }
}

/// The screen after tile `d.2` of the tile data is drawn into the cell of
/// column `d.0`, row `d.1`, in the tile encoding of graphics mode `mode`.
pub open spec fn tile_drawn(screen: Seq<u8>, pics: Seq<u8>, mode: grtype, d: (int, int, int)) -> Seq<u8> {
    blit_result(screen, cell_ofs(d.0, d.1), 8, 8, tile_mode(mode), pics, tile_source(mode, d.2))
}

/// The screen after the tiles of `draws` are drawn one after the other,
/// each as (column, row, tile).
pub open spec fn tiles_drawn(screen: Seq<u8>, pics: Seq<u8>, mode: grtype, draws: Seq<(int, int, int)>) -> Seq<
    u8,
>
    decreases draws.len(),
{
    if draws.len() == 0 {
        screen
    } else {
        tile_drawn(tiles_drawn(screen, pics, mode, draws.drop_last()), pics, mode, draws.last())
    }
}

/// Tile `d.2` can be drawn into cell (`d.0`, `d.1`): the cell lies on a
/// screen of `len` pixels and the tile lies in the tile data.
pub open spec fn tile_draw_ok(len: int, pics: Seq<u8>, d: (int, int, int)) -> bool {
    &&& 0 <= d.0 <= i32::MAX
    &&& 0 <= d.1 <= i32::MAX
    &&& 0 <= d.2 <= i32::MAX
    &&& tile_ok(pics, d.2)
    &&& cell_ofs(d.0, d.1) <= i32::MAX
    &&& box_ok(len, cell_ofs(d.0, d.1), 8, 8)
}

/// Every tile of `draws` can be drawn (see `tile_draw_ok`).
pub open spec fn tile_draws_ok(len: int, pics: Seq<u8>, draws: Seq<(int, int, int)>) -> bool {
    forall|k: int| 0 <= k < draws.len() ==> tile_draw_ok(len, pics, #[trigger] draws[k])
}

/// The tiles of both parts of a list can be drawn when those of the list
/// can.
pub proof fn lemma_tile_draws_ok_split(
    len: int,
    pics: Seq<u8>,
    a: Seq<(int, int, int)>,
    b: Seq<(int, int, int)>,
)
    requires
        tile_draws_ok(len, pics, a + b),
    ensures
        tile_draws_ok(len, pics, a),
        tile_draws_ok(len, pics, b),
{
    assert forall|k: int| 0 <= k < a.len() implies tile_draw_ok(len, pics, #[trigger] a[k]) by {
        assert((a + b)[k] == a[k]);
    }
    assert forall|k: int| 0 <= k < b.len() implies tile_draw_ok(len, pics, #[trigger] b[k]) by {
        assert((a + b)[a.len() + k] == b[k]);
    }
}

/// Draws one tile, with its effect stated as `tile_drawn`.
pub fn draw_one_tile(x: i32, y: i32, tile: i32, screen: &mut [u8], pics: &[u8], grmode: grtype)
    requires
        tile_draw_ok(old(screen)@.len() as int, pics@, (x as int, y as int, tile as int)),
    ensures
        final(screen)@.len() == old(screen)@.len(),
        final(screen)@ == tile_drawn(old(screen)@, pics@, grmode, (x as int, y as int, tile as int)),
{
    let ghost before = screen@;
    drawchartile(x, y, tile, screen, pics, grmode);
    assert(screen@ =~= tile_drawn(before, pics@, grmode, (x as int, y as int, tile as int)));
}

/// Prints the bytes of `str_0` at the text cursor as tiles of the tile
/// data `pics` (see `print_layout`), leaving the cursor after the text.
pub fn printchartile(str_0: &[u8], screen: &mut [u8], pics: &[u8], pcs: &mut PcrlibCState)
    requires
        ({
            let (draws, x, y, stopped) = print_layout(
                str_0@,
                old(pcs).sx as int,
                old(pcs).sy as int,
                old(pcs).leftedge as int,
            );
            &&& tile_draws_ok(old(screen)@.len() as int, pics@, draws)
            &&& forall|k: int| 0 <= k < draws.len() ==> #[trigger] draws[k].0 < i32::MAX
            &&& y <= i32::MAX
        }),
    ensures
        ({
            let (draws, x, y, stopped) = print_layout(
                str_0@,
                old(pcs).sx as int,
                old(pcs).sy as int,
                old(pcs).leftedge as int,
            );
            &&& final(screen)@ == tiles_drawn(old(screen)@, pics@, old(pcs).grmode, draws)
            &&& *final(pcs) == (PcrlibCState { sx: x as i32, sy: y as i32, ..*old(pcs) })
        }),
{
    let ghost s = str_0@;
    let ghost s0 = screen@;
    let ghost p0 = *pcs;
    let ghost full = print_layout(s, p0.sx as int, p0.sy as int, p0.leftedge as int);
    let n = str_0.len();
    let mut i: usize = 0;
    assert(s.take(0) =~= Seq::<u8>::empty());
    assert(s.take(n as int) =~= s);
    while i < n
        invariant_except_break
            i <= n,
            n == s.len(),
            s.take(n as int) == s,
            s == str_0@,
            screen@.len() == s0.len(),
            full == print_layout(s, p0.sx as int, p0.sy as int, p0.leftedge as int),
            tile_draws_ok(s0.len() as int, pics@, full.0),
            forall|k: int| 0 <= k < full.0.len() ==> #[trigger] full.0[k].0 < i32::MAX,
            full.2 <= i32::MAX,
            ({
                let q = print_layout(s.take(i as int), p0.sx as int, p0.sy as int, p0.leftedge as int);
                &&& !q.3
                &&& screen@ == tiles_drawn(s0, pics@, p0.grmode, q.0)
                &&& pcs.sx as int == q.1
                &&& pcs.sy as int == q.2
                &&& *pcs == (PcrlibCState { sx: pcs.sx, sy: pcs.sy, ..p0 })
            }),
        ensures
            ({
                let q = print_layout(s, p0.sx as int, p0.sy as int, p0.leftedge as int);
                &&& screen@ == tiles_drawn(s0, pics@, p0.grmode, q.0)
                &&& pcs.sx as int == q.1
                &&& pcs.sy as int == q.2
                &&& *pcs == (PcrlibCState { sx: pcs.sx, sy: pcs.sy, ..p0 })
            }),
        decreases n - i,
    {
        let ghost q = print_layout(s.take(i as int), p0.sx as int, p0.sy as int, p0.leftedge as int);
        let ch_0 = str_0[i];
        proof {
            assert(s.take(i + 1).drop_last() =~= s.take(i as int));
            assert(s.take(i + 1).last() == ch_0);
            lemma_print_prefix(s, p0.sx as int, p0.sy as int, p0.leftedge as int, i + 1, n as int);
            let q1 = print_layout(s.take(i + 1), p0.sx as int, p0.sy as int, p0.leftedge as int);
            assert(q1.2 <= full.2);
        }
        if ch_0 == 0 {
            break;
        } else if ch_0 == 10 {
            pcs.sy = pcs.sy + 1;
            pcs.sx = pcs.leftedge;
        } else if ch_0 == 13 {
            pcs.sx = pcs.leftedge;
        } else {
            let ghost q1 = print_layout(s.take(i + 1), p0.sx as int, p0.sy as int, p0.leftedge as int);
            proof {
                let k = q.0.len() as int;
                assert(q1.0[k] == full.0[k]);
                assert(tile_draw_ok(s0.len() as int, pics@, full.0[k]));
                assert(full.0[k].0 < i32::MAX);
                assert(q1.0.drop_last() =~= q.0);
            }
            draw_one_tile(pcs.sx, pcs.sy, ch_0 as i32, screen, pics, pcs.grmode);
            pcs.sx = pcs.sx + 1;
        }
        i = i + 1;
    }
    proof {
        assert(s.take(n as int) =~= s);
    }
}

/// Prints the bytes of a string at the text cursor (see `print`).
pub fn print_str(str_0: &str, screen: &mut [u8], pcs: &mut PcrlibCState)
    requires
        ({
            let (draws, x, y, stopped) = print_layout(
                str_0.spec_bytes(),
                old(pcs).sx as int,
                old(pcs).sy as int,
                old(pcs).leftedge as int,
            );
            &&& draws_ok(old(screen)@.len() as int, *old(pcs), draws)
            &&& forall|k: int| 0 <= k < draws.len() ==> #[trigger] draws[k].0 < i32::MAX
            &&& y <= i32::MAX
        }),
    ensures
        ({
            let (draws, x, y, stopped) = print_layout(
                str_0.spec_bytes(),
                old(pcs).sx as int,
                old(pcs).sy as int,
                old(pcs).leftedge as int,
            );
            &&& final(screen)@ == chars_drawn(old(screen)@, *old(pcs), draws)
            &&& *final(pcs) == (PcrlibCState { sx: x as i32, sy: y as i32, ..*old(pcs) })
        }),
{
    print(str_0.as_bytes(), screen, pcs);
}

/// Prints `string` so that it ends one column right of the screen centre
/// column `cx`: the cursor first moves to column `1 + cx - len`.
pub fn _printc(string: &[u8], cx: i32, screen: &mut [u8], pcs: &mut PcrlibCState)
    requires
        i32::MIN <= 1 + cx - string@.len() <= i32::MAX,
        ({
            let (draws, x, y, stopped) = print_layout(
                string@,
                1 + cx - string@.len(),
                old(pcs).sy as int,
                old(pcs).leftedge as int,
            );
            &&& draws_ok(old(screen)@.len() as int, *old(pcs), draws)
            &&& forall|k: int| 0 <= k < draws.len() ==> #[trigger] draws[k].0 < i32::MAX
            &&& y <= i32::MAX
        }),
    ensures
        ({
            let (draws, x, y, stopped) = print_layout(
                string@,
                1 + cx - string@.len(),
                old(pcs).sy as int,
                old(pcs).leftedge as int,
            );
            &&& final(screen)@ == chars_drawn(old(screen)@, *old(pcs), draws)
            &&& *final(pcs) == (PcrlibCState { sx: x as i32, sy: y as i32, ..*old(pcs) })
        }),
{
    let len = string.len();
    pcs.sx = (1 + cx as i64 - len as i64) as i32;
    let ghost p1 = *pcs;
    assert(p1.sx as int == 1 + cx - string@.len());
    print(string, screen, pcs);
    proof {
        let l = print_layout(string@, 1 + cx - string@.len(), p1.sy as int, p1.leftedge as int);
        assert(*pcs == (PcrlibCState { sx: l.1 as i32, sy: l.2 as i32, ..p1 }));
        assert(*pcs =~= (PcrlibCState { sx: l.1 as i32, sy: l.2 as i32, ..*old(pcs) }));
        lemma_chars_drawn_font(old(screen)@, p1, *old(pcs), l.0);
    }
}


/// A step of writing a text screen: print bytes at the cursor (see
/// `print_layout`), move the cursor right, draw a character at the cursor
/// without moving it, move the cursor to a column, or move it to a cell.
pub enum TextOp {
    Print(Seq<u8>),
    Skip(int),
    Put(int),
    Column(int),
    Goto(int, int),
}

/// The characters one step draws from cursor (x, y) with left margin
/// `left`, and the cursor after it.
pub open spec fn run_op(op: TextOp, x: int, y: int, left: int) -> (Seq<(int, int, int)>, int, int) {
    match op {
        TextOp::Print(s) => {
            let (d, x2, y2, stopped) = print_layout(s, x, y, left);
            (d, x2, y2)
        },
        TextOp::Skip(n) => (Seq::empty(), x + n, y),
        TextOp::Put(c) => (seq![(x, y, c)], x, y),
        TextOp::Column(c) => (Seq::empty(), c, y),
        TextOp::Goto(cx, cy) => (Seq::empty(), cx, cy),
    }
}

/// The characters the steps draw one after the other, and the cursor
/// after the last.
pub open spec fn run_ops(ops: Seq<TextOp>, x: int, y: int, left: int) -> (Seq<(int, int, int)>, int, int)
    decreases ops.len(),
{
    if ops.len() == 0 {
        (Seq::empty(), x, y)
    } else {
        let (d1, x1, y1) = run_op(ops[0], x, y, left);
        let (d2, x2, y2) = run_ops(ops.drop_first(), x1, y1, left);
        (d1 + d2, x2, y2)
    }
}

/// A step can be taken on a screen of `len` pixels with font `pcs`: what
/// it draws fits, and the cursor stays within machine integers.
pub open spec fn op_ok(len: int, pcs: PcrlibCState, op: TextOp, x: int, y: int, left: int) -> bool {
    match op {
        TextOp::Print(s) => {
            let (d, x2, y2, stopped) = print_layout(s, x, y, left);
            &&& draws_ok(len, pcs, d)
            &&& forall|k: int| 0 <= k < d.len() ==> #[trigger] d[k].0 < i32::MAX
            &&& y2 <= i32::MAX
        },
        TextOp::Skip(n) => 0 <= n <= i32::MAX && x + n <= i32::MAX,
        TextOp::Put(c) => draw_ok(len, pcs, (x, y, c)),
        TextOp::Column(c) => i32::MIN <= c <= i32::MAX,
        TextOp::Goto(cx, cy) => i32::MIN <= cx <= i32::MAX && i32::MIN <= cy <= i32::MAX,
    }
}

/// Every step can be taken in turn (see `op_ok`).
pub open spec fn ops_ok(len: int, pcs: PcrlibCState, ops: Seq<TextOp>, x: int, y: int, left: int) -> bool
    decreases ops.len(),
{
    if ops.len() == 0 {
        true
    } else {
        let (d1, x1, y1) = run_op(ops[0], x, y, left);
        op_ok(len, pcs, ops[0], x, y, left) && ops_ok(len, pcs, ops.drop_first(), x1, y1, left)
    }
}

/// Taking the steps of `a` and then those of `b` is taking the steps of
/// `a + b`.
pub proof fn lemma_run_ops_concat(a: Seq<TextOp>, b: Seq<TextOp>, x: int, y: int, left: int)
    ensures
        ({
            let ra = run_ops(a, x, y, left);
            let rb = run_ops(b, ra.1, ra.2, left);
            run_ops(a + b, x, y, left) == (ra.0 + rb.0, rb.1, rb.2)
        }),
        ops_ok_parts(a, b, x, y, left),
    decreases a.len(),
{
    if a.len() == 0 {
        assert(a + b =~= b);
        let rb = run_ops(b, x, y, left);
        assert(Seq::<(int, int, int)>::empty() + rb.0 =~= rb.0);
        assert forall|len: int, pcs: PcrlibCState| #[trigger]
            ops_ok(len, pcs, a + b, x, y, left) <==> (ops_ok(len, pcs, a, x, y, left) && {
                let ra = run_ops(a, x, y, left);
                ops_ok(len, pcs, b, ra.1, ra.2, left)
            }) by {}
    } else {
        let (d1, x1, y1) = run_op(a[0], x, y, left);
        lemma_run_ops_concat(a.drop_first(), b, x1, y1, left);
        assert((a + b).drop_first() =~= a.drop_first() + b);
        assert((a + b)[0] == a[0]);
        let ra = run_ops(a.drop_first(), x1, y1, left);
        let rb = run_ops(b, ra.1, ra.2, left);
        assert(d1 + (ra.0 + rb.0) =~= (d1 + ra.0) + rb.0);
        assert forall|len: int, pcs: PcrlibCState| #[trigger]
            ops_ok(len, pcs, a + b, x, y, left) <==> (ops_ok(len, pcs, a, x, y, left) && {
                let ra = run_ops(a, x, y, left);
                ops_ok(len, pcs, b, ra.1, ra.2, left)
            }) by {
            assert(ops_ok(len, pcs, a.drop_first() + b, x1, y1, left) <==> (ops_ok(
                len,
                pcs,
                a.drop_first(),
                x1,
                y1,
                left,
            ) && ops_ok(len, pcs, b, ra.1, ra.2, left)));
        }
    }
}

/// The steps of `a + b` can be taken exactly when those of `a` can, and
/// then those of `b` from where `a` leaves the cursor, for every screen
/// and font.
pub open spec fn ops_ok_parts(a: Seq<TextOp>, b: Seq<TextOp>, x: int, y: int, left: int) -> bool {
    forall|len: int, pcs: PcrlibCState|
        #[trigger] ops_ok(len, pcs, a + b, x, y, left) <==> (ops_ok(len, pcs, a, x, y, left) && {
            let ra = run_ops(a, x, y, left);
            ops_ok(len, pcs, b, ra.1, ra.2, left)
        })
}


/// A step of writing a text screen, as the program holds it (see `TextOp`).
pub enum TextCommand {
    Print(Vec<u8>),
    Skip(i32),
    Put(i32),
    Column(i32),
    Goto(i32, i32),
}

impl TextCommand {
    /// The step this command takes.
    pub open spec fn op(&self) -> TextOp {
        match self {
            TextCommand::Print(v) => TextOp::Print(v@),
            TextCommand::Skip(n) => TextOp::Skip(*n as int),
            TextCommand::Put(c) => TextOp::Put(*c as int),
            TextCommand::Column(c) => TextOp::Column(*c as int),
            TextCommand::Goto(cx, cy) => TextOp::Goto(*cx as int, *cy as int),
        }
    }
}

/// The steps a list of commands takes.
pub open spec fn ops_of(cmds: Seq<TextCommand>) -> Seq<TextOp> {
    Seq::new(cmds.len(), |i: int| cmds[i].op())
}

/// A single step is taken as `run_op` says.
proof fn lemma_run_ops_one(op: TextOp, x: int, y: int, left: int)
    ensures
        run_ops(seq![op], x, y, left) == run_op(op, x, y, left),
{
    let r = run_op(op, x, y, left);
    assert(seq![op].drop_first() =~= Seq::<TextOp>::empty());
    assert(run_ops(Seq::<TextOp>::empty(), r.1, r.2, left) == (Seq::<(int, int, int)>::empty(), r.1, r.2));
    assert(r.0 + Seq::<(int, int, int)>::empty() =~= r.0);
}

/// Takes the steps of `cmds` in turn from the text cursor (see `run_ops`),
/// leaving the cursor after the last.
pub fn run_text(cmds: &[TextCommand], screen: &mut [u8], pcs: &mut PcrlibCState)
    requires
        ops_ok(
            old(screen)@.len() as int,
            *old(pcs),
            ops_of(cmds@),
            old(pcs).sx as int,
            old(pcs).sy as int,
            old(pcs).leftedge as int,
        ),
    ensures
        final(screen)@.len() == old(screen)@.len(),
        ({
            let r = run_ops(ops_of(cmds@), old(pcs).sx as int, old(pcs).sy as int, old(pcs).leftedge as int);
            &&& final(screen)@ == chars_drawn(old(screen)@, *old(pcs), r.0)
            &&& *final(pcs) == (PcrlibCState { sx: r.1 as i32, sy: r.2 as i32, ..*old(pcs) })
        }),
{
    let ghost s0 = screen@;
    let ghost p0 = *pcs;
    let ghost len = s0.len() as int;
    let ghost ops = ops_of(cmds@);
    let ghost left = p0.leftedge as int;
    let n = cmds.len();
    let mut i: usize = 0;
    assert(ops.take(0) =~= Seq::<TextOp>::empty());
    assert(ops.skip(0) =~= ops);
    while i < n
        invariant
            i <= n,
            n == cmds@.len(),
            ops == ops_of(cmds@),
            len == s0.len(),
            screen@.len() == len,
            left == p0.leftedge,
            ({
                let r = run_ops(ops.take(i as int), p0.sx as int, p0.sy as int, left);
                &&& screen@ == chars_drawn(s0, p0, r.0)
                &&& pcs.sx as int == r.1
                &&& pcs.sy as int == r.2
                &&& *pcs == (PcrlibCState { sx: pcs.sx, sy: pcs.sy, ..p0 })
                &&& ops_ok(len, p0, ops.skip(i as int), r.1, r.2, left)
            }),
        decreases n - i,
    {
        let ghost r = run_ops(ops.take(i as int), p0.sx as int, p0.sy as int, left);
        let ghost op = ops[i as int];
        let ghost step = run_op(op, r.1, r.2, left);
        proof {
            assert(ops.skip(i as int)[0] == op);
            assert(ops.skip(i as int).drop_first() =~= ops.skip(i + 1));
            assert(ops.take(i + 1) =~= ops.take(i as int) + seq![op]);
            lemma_run_ops_concat(ops.take(i as int), seq![op], p0.sx as int, p0.sy as int, left);
            lemma_run_ops_one(op, r.1, r.2, left);
            lemma_chars_drawn_concat(s0, p0, r.0, step.0);
        }
        let ghost before = screen@;
        match &cmds[i] {
            TextCommand::Print(v) => {
                let ghost p1 = *pcs;
                print(v, screen, pcs);
                proof {
                    lemma_chars_drawn_font(before, p1, p0, step.0);
                }
            },
            TextCommand::Skip(k) => {
                pcs.sx = pcs.sx + *k;
            },
            TextCommand::Put(c) => {
                draw_one(pcs.sx, pcs.sy, *c, screen, pcs);
                proof {
                    lemma_chars_drawn_one(before, p0, (r.1, r.2, *c as int));
                }
            },
            TextCommand::Column(c) => {
                pcs.sx = *c;
            },
            TextCommand::Goto(cx, cy) => {
                pcs.sx = *cx;
                pcs.sy = *cy;
            },
        }
        i = i + 1;
    }
    assert(ops.take(n as int) =~= ops);
}


/// The characters of `t` in one row from column `x` of row `y`, one per
/// column.
pub open spec fn plain_run(x: int, y: int, t: Seq<u8>) -> Seq<(int, int, int)> {
    Seq::new(t.len(), |i: int| (x + i, y, t[i] as int))
}

/// A text without 0, line feed or carriage return bytes.
pub open spec fn plain_text(t: Seq<u8>) -> bool {
    forall|i: int| 0 <= i < t.len() ==> #[trigger] t[i] != 0 && t[i] != 10 && t[i] != 13
}

/// A plain text is printed in one row, one character per column from the
/// cursor, which ends just after it.
pub proof fn lemma_print_plain(t: Seq<u8>, x: int, y: int, left: int)
    requires
        plain_text(t),
    ensures
        print_layout(t, x, y, left) == (plain_run(x, y, t), x + t.len(), y, false),
    decreases t.len(),
{
    if t.len() > 0 {
        assert(plain_text(t.drop_last()));
        lemma_print_plain(t.drop_last(), x, y, left);
        assert(t.last() == t[t.len() - 1]);
        assert(plain_run(x, y, t.drop_last()).push((x + t.len() - 1, y, t.last() as int)) =~= plain_run(
            x,
            y,
            t,
        ));
    } else {
        assert(plain_run(x, y, t) =~= Seq::<(int, int, int)>::empty());
    }
}

/// Prints a plain text at (x, y) (see `plain_run`), leaving the cursor just
/// after it.
pub fn print_at(x: i32, y: i32, text: &[u8], screen: &mut [u8], pcs: &mut PcrlibCState)
    requires
        plain_text(text@),
        0 <= x,
        x + text@.len() < i32::MAX,
        draws_ok(old(screen)@.len() as int, *old(pcs), plain_run(x as int, y as int, text@)),
    ensures
        final(screen)@.len() == old(screen)@.len(),
        final(screen)@ == chars_drawn(old(screen)@, *old(pcs), plain_run(x as int, y as int, text@)),
        *final(pcs) == (PcrlibCState { sx: (x + text@.len()) as i32, sy: y, ..*old(pcs) }),
{
    pcs.sx = x;
    pcs.sy = y;
    let ghost p1 = *pcs;
    proof {
        lemma_print_plain(text@, x as int, y as int, p1.leftedge as int);
    }
    let ghost before = screen@;
    print(text, screen, pcs);
    proof {
        lemma_chars_drawn_font(before, p1, *old(pcs), plain_run(x as int, y as int, text@));
    }
}


/// The column of character cell that screen pixel `p` lies in.
pub open spec fn pixel_col(p: int) -> int {
    (p % (screenpitch as int)) / 8
}

/// The row of character cell that screen pixel `p` lies in.
pub open spec fn pixel_row(p: int) -> int {
    p / (screenpitch as int) / 8
}

/// The box of cell (x, y) holds the pixels whose cell is (x, y), at the
/// same row and column within it.
pub proof fn lemma_cell_box(x: int, y: int, p: int)
    requires
        0 <= x < 40,
        0 <= y,
        0 <= p,
    ensures
        in_box(cell_ofs(x, y), 8, 8, p) <==> (pixel_col(p) == x && pixel_row(p) == y),
        in_box(cell_ofs(x, y), 8, 8, p) ==> box_row(cell_ofs(x, y), p) == (p / 320) % 8 && box_col(
            cell_ofs(x, y),
            p,
        ) == (p % 320) % 8,
{
    let q = p / 320;
    let m = p % 320;
    let t = cell_ofs(x, y);
    assert(p == 320 * q + m && 0 <= m < 320 && q >= 0) by (nonlinear_arith)
        requires
            q == p / 320,
            m == p % 320,
            p >= 0,
    ;
    assert(t == 2560 * y + 8 * x);
    let d = p - t;
    assert(d == 320 * (q - 8 * y) + (m - 8 * x));
    if m >= 8 * x {
        if q >= 8 * y {
            assert(d / 320 == q - 8 * y && d % 320 == m - 8 * x) by (nonlinear_arith)
                requires
                    d == 320 * (q - 8 * y) + (m - 8 * x),
                    q - 8 * y >= 0,
                    0 <= m - 8 * x < 320,
            ;
            assert((q / 8 == y) <==> (q - 8 * y < 8)) by (nonlinear_arith)
                requires
                    q >= 8 * y,
            ;
            assert((m / 8 == x) <==> (m - 8 * x < 8)) by (nonlinear_arith)
                requires
                    m >= 8 * x,
            ;
            if q / 8 == y && m / 8 == x {
                assert((q - 8 * y) == q % 8 && (m - 8 * x) == m % 8) by (nonlinear_arith)
                    requires
                        q / 8 == y,
                        m / 8 == x,
                        q >= 0,
                        m >= 0,
                ;
            }
        } else {
            assert(q / 8 < y) by (nonlinear_arith)
                requires
                    q < 8 * y,
                    q >= 0,
            ;
            assert(p < t);
        }
    } else {
        assert(m / 8 < x) by (nonlinear_arith)
            requires
                m < 8 * x,
                m >= 0,
        ;
        if d >= 0 {
            assert(d == 320 * (q - 8 * y - 1) + (320 + m - 8 * x));
            assert(d % 320 == 320 + m - 8 * x) by (nonlinear_arith)
                requires
                    d == 320 * (q - 8 * y - 1) + (320 + m - 8 * x),
                    0 <= 320 + m - 8 * x < 320,
                    d >= 0,
            ;
        }
    }
}

/// The character drawn last into cell (x, y) by a list of draws, if any.
pub open spec fn last_at(draws: Seq<(int, int, int)>, x: int, y: int) -> Option<int>
    decreases draws.len(),
{
    if draws.len() == 0 {
        None
    } else if draws.last().0 == x && draws.last().1 == y {
        Some(draws.last().2)
    } else {
        last_at(draws.drop_last(), x, y)
    }
}

/// The colour of pixel (r, c) of character `ch` of the font.
pub open spec fn glyph_pixel(pcs: PcrlibCState, ch: int, r: int, c: int) -> u8 {
    src_pixel(pcs.grmode, pcs.picfile_data@, char_source(pcs, ch), r, c)
}

/// Every draw of a list is into one of the 40 columns.
pub open spec fn in_columns(draws: Seq<(int, int, int)>) -> bool {
    forall|k: int| 0 <= k < draws.len() ==> 0 <= #[trigger] draws[k].0 < 40 && 0 <= draws[k].1
}

/// After a list of draws into the 40 columns, a pixel shows the character
/// drawn last into its cell, or what was there before when none was.
pub proof fn lemma_chars_drawn_pixel(screen: Seq<u8>, pcs: PcrlibCState, draws: Seq<(int, int, int)>, p: int)
    requires
        in_columns(draws),
        0 <= p < screen.len(),
    ensures
        chars_drawn(screen, pcs, draws).len() == screen.len(),
        chars_drawn(screen, pcs, draws)[p] == match last_at(draws, pixel_col(p), pixel_row(p)) {
            Some(ch) => glyph_pixel(pcs, ch, (p / 320) % 8, (p % 320) % 8),
            None => screen[p],
        },
    decreases draws.len(),
{
    if draws.len() > 0 {
        let d = draws.last();
        assert(draws[draws.len() - 1] == d);
        assert(in_columns(draws.drop_last())) by {
            assert forall|k: int| 0 <= k < draws.drop_last().len() implies 0 <= #[trigger] draws.drop_last()[k].0
                < 40 && 0 <= draws.drop_last()[k].1 by {
                assert(draws.drop_last()[k] == draws[k]);
            }
        }
        lemma_chars_drawn_pixel(screen, pcs, draws.drop_last(), p);
        lemma_cell_box(d.0, d.1, p);
    }
}

/// The cells a run draws into.
pub proof fn lemma_last_at_run(x0: int, x_end: int, y: int, ch: int, x: int, yy: int)
    ensures
        last_at(run(x0, x_end, y, ch), x, yy) == if yy == y && x0 <= x < x_end {
            Some(ch)
        } else {
            None
        },
    decreases x_end - x0,
{
    let r = run(x0, x_end, y, ch);
    if x_end > x0 {
        assert(r.drop_last() =~= run(x0, x_end - 1, y, ch));
        assert(r.last() == (x_end - 1, y, ch));
        lemma_last_at_run(x0, x_end - 1, y, ch, x, yy);
    } else {
        assert(r.len() == 0);
    }
}

/// The last draw into a cell by `a` and then `b` is the last by `b`, or
/// else the last by `a`.
pub proof fn lemma_last_at_concat(a: Seq<(int, int, int)>, b: Seq<(int, int, int)>, x: int, y: int)
    ensures
        last_at(a + b, x, y) == match last_at(b, x, y) {
            Some(ch) => Some(ch),
            None => last_at(a, x, y),
        },
    decreases b.len(),
{
    if b.len() == 0 {
        assert(a + b =~= a);
    } else {
        assert((a + b).drop_last() =~= a + b.drop_last());
        assert((a + b).last() == b.last());
        lemma_last_at_concat(a, b.drop_last(), x, y);
    }
}

/// The cells a bar draws into: those of its rectangle.
pub proof fn lemma_last_at_bar(xl: int, yl: int, xh: int, yh: int, ch: int, x: int, y: int)
    ensures
        last_at(bar_draws(xl, yl, xh, yh, ch), x, y) == if xl <= x <= xh && yl <= y <= yh {
            Some(ch)
        } else {
            None
        },
    decreases yh - yl + 1,
{
    if yh >= yl {
        lemma_last_at_concat(bar_draws(xl, yl, xh, yh - 1, ch), run(xl, xh + 1, yh, ch), x, y);
        lemma_last_at_run(xl, xh + 1, yh, ch, x, y);
        lemma_last_at_bar(xl, yl, xh, yh - 1, ch, x, y);
    }
}

/// A bar within the 40 columns fills its rectangle of cells with the
/// character and leaves every other pixel as it was.
pub proof fn lemma_bar_fills(
    screen: Seq<u8>,
    pcs: PcrlibCState,
    xl: int,
    yl: int,
    xh: int,
    yh: int,
    ch: int,
    p: int,
)
    requires
        0 <= xl,
        xh < 40,
        0 <= yl,
        0 <= p < screen.len(),
    ensures
        chars_drawn(screen, pcs, bar_draws(xl, yl, xh, yh, ch))[p] == if xl <= pixel_col(p) <= xh && yl
            <= pixel_row(p) <= yh {
            glyph_pixel(pcs, ch, (p / 320) % 8, (p % 320) % 8)
        } else {
            screen[p]
        },
{
    lemma_bar_in_columns(xl, yl, xh, yh, ch);
    lemma_chars_drawn_pixel(screen, pcs, bar_draws(xl, yl, xh, yh, ch), p);
    lemma_last_at_bar(xl, yl, xh, yh, ch, pixel_col(p), pixel_row(p));
}

/// A bar within the 40 columns draws only into them.
proof fn lemma_bar_in_columns(xl: int, yl: int, xh: int, yh: int, ch: int)
    requires
        0 <= xl,
        xh < 40,
        0 <= yl,
    ensures
        in_columns(bar_draws(xl, yl, xh, yh, ch)),
    decreases yh - yl + 1,
{
    if yh >= yl {
        lemma_bar_in_columns(xl, yl, xh, yh - 1, ch);
        let a = bar_draws(xl, yl, xh, yh - 1, ch);
        let b = run(xl, xh + 1, yh, ch);
        assert forall|k: int| 0 <= k < (a + b).len() implies 0 <= #[trigger] (a + b)[k].0 < 40 && 0 <= (a
            + b)[k].1 by {
            if k < a.len() {
                assert((a + b)[k] == a[k]);
            } else {
                assert((a + b)[k] == b[k - a.len()]);
            }
        }
    } else {
        assert(bar_draws(xl, yl, xh, yh, ch).len() == 0);
    }
}


/// The character of cell (x, y) in a window with corners (xl, yl) and
/// (xh, yh), at least two cells wide and high: corners 1, 3, 6 and 8, top
/// edge 2, bottom edge 7, left side 4, right side 5, blank (32) inside;
/// none outside the window.
pub open spec fn window_char(xl: int, yl: int, xh: int, yh: int, x: int, y: int) -> Option<int> {
    if !(xl <= x <= xh && yl <= y <= yh) {
        None
    } else {
        let (l, m, r) = if y == yl {
            (1int, 2int, 3int)
        } else if y == yh {
            (6int, 7int, 8int)
        } else {
            (4int, 32int, 5int)
        };
        Some(
            if x == xl {
                l
            } else if x == xh {
                r
            } else {
                m
            },
        )
    }
}

/// The cells a row of a frame draws into.
proof fn lemma_last_at_frame_row(xl: int, xh: int, y: int, l: int, m: int, r: int, x: int, yy: int)
    requires
        xl < xh,
    ensures
        last_at(frame_row(xl, xh, y, l, m, r), x, yy) == if yy == y && xl <= x <= xh {
            Some(
                if x == xl {
                    l
                } else if x == xh {
                    r
                } else {
                    m
                },
            )
        } else {
            None
        },
{
    let first = seq![(xl, y, l)];
    let mid = run(xl + 1, xh, y, m);
    let last = seq![(xh, y, r)];
    lemma_last_at_concat(first + mid, last, x, yy);
    lemma_last_at_concat(first, mid, x, yy);
    lemma_last_at_run(xl + 1, xh, y, m, x, yy);
    assert(last.drop_last() =~= Seq::<(int, int, int)>::empty());
    assert(first.drop_last() =~= Seq::<(int, int, int)>::empty());
    assert(last_at(Seq::<(int, int, int)>::empty(), x, yy) == None::<int>);
}

/// The cells the inner rows of a window draw into.
proof fn lemma_last_at_middle(xl: int, xh: int, y0: int, y1: int, x: int, y: int)
    requires
        xl < xh,
    ensures
        last_at(middle_rows(xl, xh, y0, y1), x, y) == if y0 <= y < y1 && xl <= x <= xh {
            Some(
                if x == xl {
                    4int
                } else if x == xh {
                    5int
                } else {
                    32int
                },
            )
        } else {
            None
        },
    decreases y1 - y0,
{
    if y1 > y0 {
        lemma_last_at_concat(middle_rows(xl, xh, y0, y1 - 1), frame_row(xl, xh, y1 - 1, 4, 32, 5), x, y);
        lemma_last_at_frame_row(xl, xh, y1 - 1, 4, 32, 5, x, y);
        lemma_last_at_middle(xl, xh, y0, y1 - 1, x, y);
    }
}

/// The cells a window draws into, and what each shows last.
pub proof fn lemma_last_at_window(xl: int, yl: int, xh: int, yh: int, x: int, y: int)
    requires
        xl < xh,
        yl < yh,
    ensures
        last_at(window_draws(xl, yl, xh, yh), x, y) == window_char(xl, yl, xh, yh, x, y),
{
    let top = frame_row(xl, xh, yl, 1, 2, 3);
    let inner = middle_rows(xl, xh, yl + 1, yh);
    let bottom = frame_row(xl, xh, yh, 6, 7, 8);
    lemma_last_at_concat(top + inner, bottom, x, y);
    lemma_last_at_concat(top, inner, x, y);
    lemma_last_at_frame_row(xl, xh, yl, 1, 2, 3, x, y);
    lemma_last_at_frame_row(xl, xh, yh, 6, 7, 8, x, y);
    lemma_last_at_middle(xl, xh, yl + 1, yh, x, y);
}

/// A list of draws into the 40 columns followed by another is one too.
proof fn lemma_in_columns_concat(a: Seq<(int, int, int)>, b: Seq<(int, int, int)>)
    requires
        in_columns(a),
        in_columns(b),
    ensures
        in_columns(a + b),
{
    assert forall|k: int| 0 <= k < (a + b).len() implies 0 <= #[trigger] (a + b)[k].0 < 40 && 0 <= (a
        + b)[k].1 by {
        if k < a.len() {
            assert((a + b)[k] == a[k]);
        } else {
            assert((a + b)[k] == b[k - a.len()]);
        }
    }
}

/// A window within the 40 columns draws only into them.
proof fn lemma_window_in_columns(xl: int, yl: int, xh: int, yh: int)
    requires
        0 <= xl < xh < 40,
        0 <= yl < yh,
    ensures
        in_columns(window_draws(xl, yl, xh, yh)),
{
    lemma_frame_row_in_columns(xl, xh, yl, 1, 2, 3);
    lemma_frame_row_in_columns(xl, xh, yh, 6, 7, 8);
    lemma_middle_in_columns(xl, xh, yl + 1, yh);
    lemma_in_columns_concat(frame_row(xl, xh, yl, 1, 2, 3), middle_rows(xl, xh, yl + 1, yh));
    lemma_in_columns_concat(
        frame_row(xl, xh, yl, 1, 2, 3) + middle_rows(xl, xh, yl + 1, yh),
        frame_row(xl, xh, yh, 6, 7, 8),
    );
}

/// A frame row within the 40 columns draws only into them.
proof fn lemma_frame_row_in_columns(xl: int, xh: int, y: int, l: int, m: int, r: int)
    requires
        0 <= xl < xh < 40,
        0 <= y,
    ensures
        in_columns(frame_row(xl, xh, y, l, m, r)),
{
    let first = seq![(xl, y, l)];
    let mid = run(xl + 1, xh, y, m);
    let last = seq![(xh, y, r)];
    assert(in_columns(first));
    assert(in_columns(mid));
    assert(in_columns(last));
    lemma_in_columns_concat(first, mid);
    lemma_in_columns_concat(first + mid, last);
}

/// The inner rows of a window within the 40 columns draw only into them.
proof fn lemma_middle_in_columns(xl: int, xh: int, y0: int, y1: int)
    requires
        0 <= xl < xh < 40,
        0 <= y0,
    ensures
        in_columns(middle_rows(xl, xh, y0, y1)),
    decreases y1 - y0,
{
    if y1 > y0 {
        lemma_middle_in_columns(xl, xh, y0, y1 - 1);
        lemma_frame_row_in_columns(xl, xh, y1 - 1, 4, 32, 5);
        lemma_in_columns_concat(middle_rows(xl, xh, y0, y1 - 1), frame_row(xl, xh, y1 - 1, 4, 32, 5));
    } else {
        assert(middle_rows(xl, xh, y0, y1).len() == 0);
    }
}

/// A window within the 40 columns shows its frame and blank inside (see
/// `window_char`) and leaves every other pixel as it was.
pub proof fn lemma_window_shows_frame(
    screen: Seq<u8>,
    pcs: PcrlibCState,
    xl: int,
    yl: int,
    xh: int,
    yh: int,
    p: int,
)
    requires
        0 <= xl < xh < 40,
        0 <= yl < yh,
        0 <= p < screen.len(),
    ensures
        chars_drawn(screen, pcs, window_draws(xl, yl, xh, yh))[p] == match window_char(
            xl,
            yl,
            xh,
            yh,
            pixel_col(p),
            pixel_row(p),
        ) {
            Some(ch) => glyph_pixel(pcs, ch, (p / 320) % 8, (p % 320) % 8),
            None => screen[p],
        },
{
    lemma_window_in_columns(xl, yl, xh, yh);
    lemma_chars_drawn_pixel(screen, pcs, window_draws(xl, yl, xh, yh), p);
    lemma_last_at_window(xl, yl, xh, yh, pixel_col(p), pixel_row(p));
}


/// A letter made upper case; other bytes as they are.
pub open spec fn upper(b: u8) -> u8 {
    if 97 <= b <= 122 {
        (b - 32) as u8
    } else {
        b
    }
}

/// Whether a key erases: delete or backspace while the line holds
/// characters.
pub open spec fn input_erase(key: u8, count: int) -> bool {
    (key == 127 || key == 8) && count > 0
}

/// Whether a key adds a character: a printable one up to `z` while the
/// line has room.
pub open spec fn input_types(key: u8, count: int, max: int) -> bool {
    32 <= key <= 122 && count < max
}

/// One key of a line being typed (see `input_key`): from the line `line`
/// with `count` characters, the screen `screen` and the cursor column `sx`
/// (row `sy`), the line, count, screen and column after it.
pub open spec fn input_step(
    key: i32,
    line: Seq<u8>,
    count: int,
    max: int,
    screen: Seq<u8>,
    pcs: PcrlibCState,
    sx: int,
    sy: int,
) -> (Seq<u8>, int, Seq<u8>, int) {
    let k = upper(key as u8);
    let erase = input_erase(k, count);
    let count1 = if erase { count - 1 } else { count };
    let screen1 = if erase { char_drawn(screen, pcs, (sx, sy, 32)) } else { screen };
    let sx1 = if erase { sx - 1 } else { sx };
    let typed = input_types(k, count1, max);
    let line2 = if typed { line.update(count1, k) } else { line };
    let count2 = if typed { count1 + 1 } else { count1 };
    let screen2 = if typed { char_drawn(screen1, pcs, (sx1, sy, k as int)) } else { screen1 };
    let sx2 = if typed { sx1 + 1 } else { sx1 };
    let done = k == 27 || k == 13;
    let line3 = if done {
        Seq::new(line2.len(), |i: int| if count2 <= i < max { 0u8 } else { line2[i] })
    } else {
        line2
    };
    (line3, count2, screen2, sx2)
}

/// One key typed into a line of at most `max` characters, as the key
/// reader gives it (its low byte, made upper case, counts): delete (127)
/// or backspace (8) blanks the cursor's cell and moves the cursor left,
/// taking the last character back; a printable character up to `z` is
/// added and drawn at the cursor, which moves right. Escape (27) or Enter
/// (13) ends the line: the rest of it up to `max` is cleared, and the
/// result is 1 for Enter, 0 for Escape. Returns `None` while the line goes
/// on.
pub fn input_key(
    key: i32,
    line: &mut [u8],
    count: &mut usize,
    max: usize,
    screen: &mut [u8],
    pcs: &mut PcrlibCState,
) -> (r: Option<i32>)
    requires
        *old(count) <= max <= old(line)@.len(),
        i32::MIN < old(pcs).sx < i32::MAX,
        ({
            let k = upper(key as u8);
            let erase = input_erase(k, *old(count) as int);
            let count1 = if erase { *old(count) - 1 } else { *old(count) as int };
            let sx1 = if erase { old(pcs).sx - 1 } else { old(pcs).sx as int };
            &&& erase ==> draw_ok(old(screen)@.len() as int, *old(pcs), (old(pcs).sx as int, old(pcs).sy as int, 32))
            &&& input_types(k, count1, max as int) ==> draw_ok(
                old(screen)@.len() as int,
                *old(pcs),
                (sx1, old(pcs).sy as int, k as int),
            )
        }),
    ensures
        ({
            let (line1, count1, screen1, sx1) = input_step(
                key,
                old(line)@,
                *old(count) as int,
                max as int,
                old(screen)@,
                *old(pcs),
                old(pcs).sx as int,
                old(pcs).sy as int,
            );
            let k = upper(key as u8);
            &&& final(line)@ == line1
            &&& *final(count) == count1
            &&& final(screen)@ == screen1
            &&& *final(pcs) == (PcrlibCState { sx: sx1 as i32, ..*old(pcs) })
            &&& r == if k == 13 {
                Some(1i32)
            } else if k == 27 {
                Some(0i32)
            } else {
                None
            }
        }),
{
    let raw = key as u8;
    let k: u8 = if 97 <= raw && raw <= 122 { raw - 32 } else { raw };
    let ghost p0 = *pcs;
    let ghost s0 = screen@;
    if (k == 127 || k == 8) && *count > 0 {
        *count = *count - 1;
        draw_one(pcs.sx, pcs.sy, 32, screen, pcs);
        pcs.sx = pcs.sx - 1;
    }
    if k >= 32 && k <= 122 && *count < max {
        line[*count] = k;
        *count = *count + 1;
        let ghost before = screen@;
        draw_one(pcs.sx, pcs.sy, k as i32, screen, pcs);
        pcs.sx = pcs.sx + 1;
    }
    if k == 27 || k == 13 {
        let ghost l2 = line@;
        let mut i: usize = *count;
        while i < max
            invariant
                *count <= i <= max,
                max <= line@.len(),
                line@.len() == l2.len(),
                forall|t: int| 0 <= t < l2.len() ==> #[trigger] line@[t] == if *count <= t < i {
                    0u8
                } else {
                    l2[t]
                },
            decreases max - i,
        {
            line[i] = 0;
            i = i + 1;
        }
        assert(line@ =~= Seq::new(l2.len(), |t: int| if *count <= t < max { 0u8 } else { l2[t] }));
        if k == 13 {
            Some(1)
        } else {
            Some(0)
        }
    } else {
        None
    }
}


/// One step down in size of an expanding window's side: two cells less
/// while it is more than 2.
pub open spec fn shrink(v: int) -> int {
    if v > 2 {
        v - 2
    } else {
        v
    }
}

/// The sizes of an expanding window that ends `width` by `height`, from
/// the full size down: each next one two cells smaller on each side that is
/// still more than 2, until neither is.
pub open spec fn expwin_chain(width: int, height: int) -> Seq<(int, int)>
    decreases (if width > 2 { width } else { 0 }) + (if height > 2 { height } else { 0 }),
{
    if width > 2 || height > 2 {
        seq![(width, height)] + expwin_chain(shrink(width), shrink(height))
    } else {
        seq![(width, height)]
    }
}

/// The windows an expanding window of `width` by `height` draws, in order:
/// the sizes of `expwin_chain` from the smallest up, each drawn around the
/// screen centre and shown before the next (one frame apart).
pub fn expwin_sizes(width: i32, height: i32) -> (r: Vec<(i32, i32)>)
    ensures
        r@.len() == expwin_chain(width as int, height as int).len(),
        forall|i: int|
            0 <= i < r@.len() ==> (r@[i].0 as int, r@[i].1 as int) == #[trigger] expwin_chain(
                width as int,
                height as int,
            ).reverse()[i],
{
    let mut down: Vec<(i32, i32)> = Vec::new();
    let mut w: i32 = width;
    let mut h: i32 = height;
    let ghost full = expwin_chain(width as int, height as int);
    while w > 2 || h > 2
        invariant
            full == expwin_chain(width as int, height as int),
            down@.len() + expwin_chain(w as int, h as int).len() == full.len(),
            forall|i: int|
                0 <= i < down@.len() ==> (down@[i].0 as int, down@[i].1 as int) == #[trigger] full[i],
            forall|i: int|
                0 <= i < expwin_chain(w as int, h as int).len() ==> #[trigger] expwin_chain(
                    w as int,
                    h as int,
                )[i] == full[down@.len() + i],
        decreases (if w > 2 { w as int } else { 0 }) + (if h > 2 { h as int } else { 0 }),
    {
        let ghost c = expwin_chain(w as int, h as int);
        assert(c[0] == (w as int, h as int));
        down.push((w, h));
        let nw: i32 = if w > 2 { w - 2 } else { w };
        let nh: i32 = if h > 2 { h - 2 } else { h };
        proof {
            let c2 = expwin_chain(nw as int, nh as int);
            assert(c =~= seq![(w as int, h as int)] + c2);
            assert forall|i: int| 0 <= i < c2.len() implies #[trigger] c2[i] == full[down@.len() + i] by {
                assert(c2[i] == c[i + 1]);
            }
        }
        w = nw;
        h = nh;
    }
    proof {
        let c = expwin_chain(w as int, h as int);
        assert(c[0] == (w as int, h as int));
        assert(c[0] == full[down@.len() as int]);
    }
    down.push((w, h));
    assert(down@.len() == full.len());
    let mut r: Vec<(i32, i32)> = Vec::new();
    let mut k: usize = down.len();
    while k > 0
        invariant
            0 <= k <= down@.len(),
            down@.len() == full.len(),
            r@.len() == down@.len() - k,
            forall|i: int|
                0 <= i < down@.len() ==> (down@[i].0 as int, down@[i].1 as int) == #[trigger] full[i],
            forall|i: int|
                0 <= i < r@.len() ==> (r@[i].0 as int, r@[i].1 as int) == #[trigger] full.reverse()[i],
        decreases k,
    {
        k -= 1;
        r.push(down[k]);
        assert(full.reverse()[r@.len() - 1] == full[k as int]);
    }
    r
}

} // verus!
