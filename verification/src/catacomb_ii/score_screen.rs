//! The high score screen (a window listing the five best scores, their
//! levels and initials, and the current score below) and the side panel
//! beside the play window (level, scores, item pictures and meters).
use vstd::prelude::*;
use vstd::string::{StrSliceExecFns, StringSliceAdditionalSpecFns};

use crate::catacomb_ii::pcrlib_c_state::PcrlibCState;
use crate::catacomb_ii::scores::scores;
use crate::catacomb_ii::cpanel_state::CpanelState;
use crate::catacomb_ii::pcrlib_a::{drawpic, pic_pixels, pic_source};
use crate::catacomb_ii::screen::{box_ok, screenpitch, source_ok};
use crate::catacomb_ii::text_window::{
    blit_result, centered_corner, centerwindow, chars_drawn, column_run, draw_column_run, draw_ok,
    draw_run, draws_ok, drawwindow, lemma_chars_drawn_font, lemma_run_ops_concat, op_ok, ops_of,
    ops_ok, plain_run, plain_text, print_at, run, run_op, run_ops, run_text, window_draws,
    TextCommand, TextOp,
};
use crate::int_math::{decimal, decimal_text, digits_of};
use crate::catacomb_ii::inventory::{asked_sound, can_ask_sound};
use crate::catacomb_ii::pcrlib_a::PlaySound;
use crate::catacomb_ii::pcrlib_a_state::PcrlibAState;
use crate::catacomb_ii::pcrlib_c::{
    clear_keydown, highscore_slot, initials_key, initials_step, insert_highscore, key_char,
};
use crate::catacomb_ii::text_window::char_drawn;

verus! {

/// The blank columns before a score in the list: one for each of 100000,
/// 10000, 1000, 100 and 10 that it is below, so that scores of up to six
/// digits end in the same column.
pub open spec fn score_pad(h: int) -> int {
    (if h < 100000 { 1int } else { 0 }) + (if h < 10000 { 1int } else { 0 }) + (if h < 1000 {
        1int
    } else {
        0
    }) + (if h < 100 { 1int } else { 0 }) + (if h < 10 { 1int } else { 0 })
}

/// The steps that list entry `h`, number `i` counting from 0: a blank, the
/// entry's number, two blanks, the score (see `score_pad`), a blank, the
/// level (one blank more below 10), a blank, the initials, and two line
/// feeds.
pub open spec fn entry_ops(h: scores, i: int) -> Seq<TextOp> {
    seq![
        TextOp::Skip(1),
        TextOp::Put(49 + i),
        TextOp::Skip(2),
        TextOp::Skip(score_pad(h.score as int)),
        TextOp::Print(decimal_text(h.score as int)),
        TextOp::Skip(1),
        TextOp::Skip(if h.level < 10 { 1 } else { 0 }),
        TextOp::Print(decimal_text(h.level as int)),
        TextOp::Skip(1),
        TextOp::Print(h.initials@),
        TextOp::Print(seq![10u8, 10u8]),
    ]
}

/// The steps that list the first `n` entries of the table.
pub open spec fn entries_ops(table: Seq<scores>, n: int) -> Seq<TextOp>
    decreases n,
{
    if n <= 0 {
        Seq::empty()
    } else {
        entries_ops(table, n - 1) + entry_ops(table[n - 1], n - 1)
    }
}

/// The title and column headings.
pub open spec fn header_ops() -> Seq<TextOp> {
    seq![
        TextOp::Print("\n   HIGH SCORES\n\n".spec_bytes()),
        TextOp::Print(" #  SCORE LV  BY\n".spec_bytes()),
        TextOp::Print(" - ------ -- ---\n".spec_bytes()),
    ]
}

/// The line that shows the current score.
pub open spec fn score_text(score: int) -> Seq<u8> {
    "SCORE:".spec_bytes() + decimal_text(score)
}

/// The steps of the high score screen inside its window: the headings,
/// the five entries, and the current score printed so that it ends one
/// column right of the centre column `cx`.
pub open spec fn show_ops(table: Seq<scores>, score: int, cx: int) -> Seq<TextOp> {
    header_ops() + entries_ops(table, 5) + seq![
        TextOp::Column(1 + cx - score_text(score).len()),
        TextOp::Print(score_text(score)),
    ]
}

/// Whether steps can be taken depends only on the font.
pub proof fn lemma_ops_ok_font(
    len: int,
    p1: PcrlibCState,
    p2: PcrlibCState,
    ops: Seq<TextOp>,
    x: int,
    y: int,
    left: int,
)
    requires
        p1.grmode == p2.grmode,
        p1.picfile_data@ == p2.picfile_data@,
        p1.charptr == p2.charptr,
        p1.egaplaneofs == p2.egaplaneofs,
    ensures
        ops_ok(len, p1, ops, x, y, left) == ops_ok(len, p2, ops, x, y, left),
    decreases ops.len(),
{
    if ops.len() > 0 {
        let r = run_op(ops[0], x, y, left);
        lemma_ops_ok_font(len, p1, p2, ops.drop_first(), r.1, r.2, left);
        match ops[0] {
            TextOp::Print(s) => {
                let d = run_op(ops[0], x, y, left).0;
                assert(draws_ok(len, p1, d) == draws_ok(len, p2, d)) by {
                    assert forall|k: int| 0 <= k < d.len() implies draw_ok(len, p1, #[trigger] d[k])
                        == draw_ok(len, p2, d[k]) by {}
                }
            },
            _ => {},
        }
        assert(op_ok(len, p1, ops[0], x, y, left) == op_ok(len, p2, ops[0], x, y, left));
    }
}

/// The commands that list entry `h`, number `i` (see `entry_ops`).
fn push_entry(cmds: &mut Vec<TextCommand>, h: &scores, i: i32)
    requires
        0 <= i < 5,
    ensures
        ops_of(final(cmds)@) == ops_of(old(cmds)@) + entry_ops(*h, i as int),
{
    let ghost before = ops_of(cmds@);
    let score = h.score;
    let mut pad: i32 = 0;
    if score < 100000 {
        pad = pad + 1;
    }
    if score < 10000 {
        pad = pad + 1;
    }
    if score < 1000 {
        pad = pad + 1;
    }
    if score < 100 {
        pad = pad + 1;
    }
    if score < 10 {
        pad = pad + 1;
    }
    cmds.push(TextCommand::Skip(1));
    cmds.push(TextCommand::Put(49 + i));
    cmds.push(TextCommand::Skip(2));
    cmds.push(TextCommand::Skip(pad));
    cmds.push(TextCommand::Print(decimal(score)));
    cmds.push(TextCommand::Skip(1));
    cmds.push(TextCommand::Skip(if h.level < 10 { 1 } else { 0 }));
    cmds.push(TextCommand::Print(decimal(h.level as i32)));
    cmds.push(TextCommand::Skip(1));
    let mut initials: Vec<u8> = Vec::new();
    initials.push(h.initials[0]);
    initials.push(h.initials[1]);
    initials.push(h.initials[2]);
    assert(initials@ =~= h.initials@);
    cmds.push(TextCommand::Print(initials));
    let mut feeds: Vec<u8> = Vec::new();
    feeds.push(10);
    feeds.push(10);
    assert(feeds@ =~= seq![10u8, 10u8]);
    cmds.push(TextCommand::Print(feeds));
    let ghost e = entry_ops(*h, i as int);
    assert(pad == score_pad(score as int));
    assert(ops_of(cmds@).len() == before.len() + 11);
    assert forall|k: int| 0 <= k < before.len() implies ops_of(cmds@)[k] == before[k] by {}
    assert forall|k: int| 0 <= k < 11 implies ops_of(cmds@)[before.len() + k] == e[k] by {}
    assert(ops_of(cmds@) =~= before + e);
}

/// Shows the high score table in a window of 17 by 17 cells around the
/// screen centre (cx, cy), with the current score below it (see
/// `show_ops`).
pub fn _showhighscores(cx: i32, cy: i32, screen: &mut [u8], pcs: &mut PcrlibCState)
    requires
        ({
            let (xl, yl) = centered_corner(cx as int, cy as int, 17, 17);
            &&& i32::MIN <= xl && xl + 18 <= i32::MAX
            &&& i32::MIN <= yl && yl + 18 <= i32::MAX
            &&& draws_ok(old(screen)@.len() as int, *old(pcs), window_draws(xl, yl, xl + 18, yl + 18))
            &&& ops_ok(
                old(screen)@.len() as int,
                *old(pcs),
                show_ops(old(pcs).highscores@, old(pcs).score as int, cx as int),
                xl + 1,
                yl + 1,
                xl + 1,
            )
        }),
    ensures
        ({
            let (xl, yl) = centered_corner(cx as int, cy as int, 17, 17);
            let r = run_ops(
                show_ops(old(pcs).highscores@, old(pcs).score as int, cx as int),
                xl + 1,
                yl + 1,
                xl + 1,
            );
            &&& final(screen)@ == chars_drawn(
                chars_drawn(old(screen)@, *old(pcs), window_draws(xl, yl, xl + 18, yl + 18)),
                *old(pcs),
                r.0,
            )
            &&& *final(pcs) == (PcrlibCState {
                win_xl: xl as i32,
                win_yl: yl as i32,
                win_xh: (xl + 18) as i32,
                win_yh: (yl + 18) as i32,
                leftedge: (xl + 1) as i32,
                sx: r.1 as i32,
                sy: r.2 as i32,
                ..*old(pcs)
            })
        }),
{
    let ghost p0 = *pcs;
    let ghost s0 = screen@;
    let ghost table = pcs.highscores@;
    let ghost ops = show_ops(p0.highscores@, p0.score as int, cx as int);
    assert(crate::int_math::div_trunc(17, 2) == 8);
    centerwindow(17, 17, cx, cy, screen, pcs);
    let ghost p1 = *pcs;
    let ghost xl = cx - 8;
    let ghost yl = cy - 8;
    let mut cmds: Vec<TextCommand> = Vec::new();
    cmds.push(TextCommand::Print("\n   HIGH SCORES\n\n".as_bytes_vec()));
    cmds.push(TextCommand::Print(" #  SCORE LV  BY\n".as_bytes_vec()));
    cmds.push(TextCommand::Print(" - ------ -- ---\n".as_bytes_vec()));
    assert(ops_of(cmds@) =~= header_ops());
    let mut i: i32 = 0;
    while i < 5
        invariant
            0 <= i <= 5,
            table == pcs.highscores@,
            ops_of(cmds@) == header_ops() + entries_ops(table, i as int),
        decreases 5 - i,
    {
        push_entry(&mut cmds, &pcs.highscores[i as usize], i);
        assert(header_ops() + entries_ops(table, i as int) + entry_ops(table[i as int], i as int)
            =~= header_ops() + entries_ops(table, i + 1));
        i = i + 1;
    }
    let mut text = "SCORE:".as_bytes_vec();
    let digits = decimal(pcs.score);
    let mut k: usize = 0;
    let ghost prefix = text@;
    while k < digits.len()
        invariant
            k <= digits@.len(),
            text@ == prefix + digits@.take(k as int),
        decreases digits@.len() - k,
    {
        text.push(digits[k]);
        assert(digits@.take(k + 1) =~= digits@.take(k as int).push(digits@[k as int]));
        k = k + 1;
    }
    assert(digits@.take(digits@.len() as int) =~= digits@);
    assert(text@ == score_text(p0.score as int));
    let ghost front = header_ops() + entries_ops(table, 5);
    let ghost back = seq![
        TextOp::Column(1 + cx - score_text(p0.score as int).len()),
        TextOp::Print(score_text(p0.score as int)),
    ];
    proof {
        lemma_run_ops_concat(front, back, xl + 1, yl + 1, xl + 1);
        let rf = run_ops(front, xl + 1, yl + 1, xl + 1);
        assert(ops_ok(s0.len() as int, p0, back, rf.1, rf.2, xl + 1));
        assert(op_ok(s0.len() as int, p0, back[0], rf.1, rf.2, xl + 1));
    }
    let col = (1 + cx as i64 - text.len() as i64) as i32;
    cmds.push(TextCommand::Column(col));
    cmds.push(TextCommand::Print(text));
    assert(ops_of(cmds@) =~= ops);
    proof {
        lemma_ops_ok_font(s0.len() as int, p0, p1, ops, xl + 1, yl + 1, xl + 1);
    }
    assert(pcs.sx as int == xl + 1 && pcs.sy as int == yl + 1 && pcs.leftedge as int == xl + 1);
    assert(screen@.len() == s0.len());
    run_text(&cmds, screen, pcs);
    proof {
        let r = run_ops(ops, xl + 1, yl + 1, xl + 1);
        lemma_chars_drawn_font(chars_drawn(s0, p0, window_draws(xl, yl, xl + 18, yl + 18)), p1, p0, r.0);
    }
}


/// The digits of a number are the ASCII digits.
pub proof fn lemma_digits_ascii(n: nat)
    ensures
        forall|i: int| 0 <= i < digits_of(n).len() ==> 48 <= #[trigger] digits_of(n)[i] <= 57,
        digits_of(n).len() >= 1,
    decreases n,
{
    if n >= 10 {
        lemma_digits_ascii(n / 10);
    }
}

/// A decimal text is plain text of at most 11 characters.
pub proof fn lemma_decimal_plain(n: int)
    requires
        i32::MIN <= n <= i32::MAX,
    ensures
        plain_text(decimal_text(n)),
        decimal_text(n).len() <= 11,
{
    let m: nat = if n < 0 { (-n) as nat } else { n as nat };
    lemma_digits_ascii(m);
    lemma_digits_short(m);
    if n < 0 {
        let t = decimal_text(n);
        assert forall|i: int| 0 <= i < t.len() implies #[trigger] t[i] != 0 && t[i] != 10 && t[i] != 13 by {
            if i > 0 {
                assert(t[i] == digits_of(m)[i - 1]);
            }
        }
    }
}

/// The magnitude of a 32-bit number has at most 10 digits.
proof fn lemma_digits_short(n: nat)
    requires
        n <= 2147483648,
    ensures
        digits_of(n).len() <= 10,
{
    assert(digits_of(n).len() <= 10) by {
        reveal_with_fuel(digits_of, 11);
    }
}

/// Prints the score at column 31 of row 3.
pub fn printscore(screen: &mut [u8], pcs: &mut PcrlibCState)
    requires
        draws_ok(old(screen)@.len() as int, *old(pcs), plain_run(31, 3, decimal_text(old(pcs).score as int))),
    ensures
        final(screen)@ == chars_drawn(
            old(screen)@,
            *old(pcs),
            plain_run(31, 3, decimal_text(old(pcs).score as int)),
        ),
        *final(pcs) == (PcrlibCState {
            sx: (31 + decimal_text(old(pcs).score as int).len()) as i32,
            sy: 3,
            ..*old(pcs)
        }),
{
    let text = decimal(pcs.score);
    proof {
        lemma_decimal_plain(pcs.score as int);
    }
    print_at(31, 3, &text, screen, pcs);
}

/// Prints the second best high score at column 31 of row 5.
pub fn printhighscore(screen: &mut [u8], pcs: &mut PcrlibCState)
    requires
        draws_ok(
            old(screen)@.len() as int,
            *old(pcs),
            plain_run(31, 5, decimal_text(old(pcs).highscores[1].score as int)),
        ),
    ensures
        final(screen)@ == chars_drawn(
            old(screen)@,
            *old(pcs),
            plain_run(31, 5, decimal_text(old(pcs).highscores[1].score as int)),
        ),
        *final(pcs) == (PcrlibCState {
            sx: (31 + decimal_text(old(pcs).highscores[1].score as int).len()) as i32,
            sy: 5,
            ..*old(pcs)
        }),
{
    let text = decimal(pcs.highscores[1].score);
    proof {
        lemma_decimal_plain(pcs.highscores[1].score as int);
    }
    print_at(31, 5, &text, screen, pcs);
}

/// The meter characters for the shot power and for a body of more than
/// 6 hit points: row `n` is a meter `n` cells long (start 26, middle 27,
/// end 28), blank (127) after it.
pub const METERS: [[u8; 13]; 14] = [
    [127, 127, 127, 127, 127, 127, 127, 127, 127, 127, 127, 127, 127],
    [26, 127, 127, 127, 127, 127, 127, 127, 127, 127, 127, 127, 127],
    [26, 28, 127, 127, 127, 127, 127, 127, 127, 127, 127, 127, 127],
    [26, 27, 28, 127, 127, 127, 127, 127, 127, 127, 127, 127, 127],
    [26, 27, 27, 28, 127, 127, 127, 127, 127, 127, 127, 127, 127],
    [26, 27, 27, 27, 28, 127, 127, 127, 127, 127, 127, 127, 127],
    [26, 27, 27, 27, 27, 28, 127, 127, 127, 127, 127, 127, 127],
    [26, 27, 27, 27, 27, 27, 28, 127, 127, 127, 127, 127, 127],
    [26, 27, 27, 27, 27, 27, 27, 28, 127, 127, 127, 127, 127],
    [26, 27, 27, 27, 27, 27, 27, 27, 28, 127, 127, 127, 127],
    [26, 27, 27, 27, 27, 27, 27, 27, 27, 28, 127, 127, 127],
    [26, 27, 27, 27, 27, 27, 27, 27, 27, 27, 28, 127, 127],
    [26, 27, 27, 27, 27, 27, 27, 27, 27, 27, 27, 28, 127],
    [26, 27, 27, 27, 27, 27, 27, 27, 27, 27, 27, 27, 28],
];

/// The warning meter characters (start 23, middle 24, end 25), for a full
/// shot power and for a body of at most 6 hit points. Rows 11 and 12 hold
/// meters 12 and 11 cells long.
pub const ALTMETERS: [[u8; 13]; 14] = [
    [127, 127, 127, 127, 127, 127, 127, 127, 127, 127, 127, 127, 127],
    [23, 127, 127, 127, 127, 127, 127, 127, 127, 127, 127, 127, 127],
    [23, 25, 127, 127, 127, 127, 127, 127, 127, 127, 127, 127, 127],
    [23, 24, 25, 127, 127, 127, 127, 127, 127, 127, 127, 127, 127],
    [23, 24, 24, 25, 127, 127, 127, 127, 127, 127, 127, 127, 127],
    [23, 24, 24, 24, 25, 127, 127, 127, 127, 127, 127, 127, 127],
    [23, 24, 24, 24, 24, 25, 127, 127, 127, 127, 127, 127, 127],
    [23, 24, 24, 24, 24, 24, 25, 127, 127, 127, 127, 127, 127],
    [23, 24, 24, 24, 24, 24, 24, 25, 127, 127, 127, 127, 127],
    [23, 24, 24, 24, 24, 24, 24, 24, 25, 127, 127, 127, 127],
    [23, 24, 24, 24, 24, 24, 24, 24, 24, 25, 127, 127, 127],
    [23, 24, 24, 24, 24, 24, 24, 24, 24, 24, 24, 25, 127],
    [23, 24, 24, 24, 24, 24, 24, 24, 24, 24, 25, 127, 127],
    [23, 24, 24, 24, 24, 24, 24, 24, 24, 24, 24, 24, 25],
];

/// A meter row is plain text.
proof fn lemma_meter_plain(row: [u8; 13])
    requires
        forall|i: int| 0 <= i < 13 ==> 23 <= #[trigger] row[i] <= 127,
    ensures
        plain_text(row@),
{
}

/// The meter drawn for shot power `p`: the warning meter when full (13),
/// else the normal one.
pub open spec fn shotpower_meter(p: int) -> [u8; 13] {
    if p == 13 {
        ALTMETERS[13]
    } else {
        METERS[p]
    }
}

/// The meter drawn for `hp` hit points: the normal meter above 6, else the
/// warning one.
pub open spec fn body_meter(hp: int) -> [u8; 13] {
    if hp > 6 {
        METERS[hp]
    } else {
        ALTMETERS[hp]
    }
}

/// Draws the shot power meter at column 25 of row 13.
pub fn printshotpower(shotpower: i32, screen: &mut [u8], pcs: &mut PcrlibCState)
    requires
        0 <= shotpower <= 13,
        draws_ok(old(screen)@.len() as int, *old(pcs), plain_run(25, 13, shotpower_meter(shotpower as int)@)),
    ensures
        final(screen)@ == chars_drawn(
            old(screen)@,
            *old(pcs),
            plain_run(25, 13, shotpower_meter(shotpower as int)@),
        ),
        *final(pcs) == (PcrlibCState { sx: 38, sy: 13, ..*old(pcs) }),
{
    let row: [u8; 13] = if shotpower == 13 {
        ALTMETERS[13]
    } else {
        METERS[shotpower as usize]
    };
    proof {
        lemma_meter_plain(row);
    }
    print_at(25, 13, &row, screen, pcs);
}

/// Draws the body meter for `hp` hit points at column 25 of row 16.
pub fn printbody(hp: i8, screen: &mut [u8], pcs: &mut PcrlibCState)
    requires
        0 <= hp <= 13,
        draws_ok(old(screen)@.len() as int, *old(pcs), plain_run(25, 16, body_meter(hp as int)@)),
    ensures
        final(screen)@ == chars_drawn(old(screen)@, *old(pcs), plain_run(25, 16, body_meter(hp as int)@)),
        *final(pcs) == (PcrlibCState { sx: 38, sy: 16, ..*old(pcs) }),
{
    let row: [u8; 13] = if hp > 6 {
        METERS[hp as usize]
    } else {
        ALTMETERS[hp as usize]
    };
    proof {
        lemma_meter_plain(row);
    }
    print_at(25, 16, &row, screen, pcs);
}


/// The labels and numbers of the side panel, from the cursor inside its
/// window: the labels, then the second best score, the body meter for `hp`
/// hit points, the shot power meter, the score and the level number, each
/// at its place.
pub open spec fn side_ops(p: PcrlibCState, hp: int, shotpower: int) -> Seq<TextOp> {
    seq![
        TextOp::Print("  level\n\nscore:\n\ntop  :\n\nk:\np:\nb:\nn:\n\n".spec_bytes()),
        TextOp::Print(" shot power\n\n\n    body\n\n\n".spec_bytes()),
        TextOp::Goto(31, 5),
        TextOp::Print(decimal_text(p.highscores[1].score as int)),
        TextOp::Goto(25, 16),
        TextOp::Print(body_meter(hp)@),
        TextOp::Goto(25, 13),
        TextOp::Print(shotpower_meter(shotpower)@),
        TextOp::Goto(31, 3),
        TextOp::Print(decimal_text(p.score as int)),
        TextOp::Goto(33, 1),
        TextOp::Print(decimal_text(p.level as int)),
    ]
}

/// How many pictures of an item are shown for `count` items: none for no
/// item, at most ten.
pub open spec fn shown(count: int) -> int {
    if count < 0 {
        0
    } else if count > 10 {
        10
    } else {
        count
    }
}

/// The item pictures from column 27: keys (31) in row 7, potions (29) in
/// row 8, bolt scrolls (30) in row 9 and nuke scrolls (30) in row 10.
pub open spec fn item_draws(items: Seq<i16>) -> Seq<(int, int, int)> {
    run(27, 27 + shown(items[1] as int), 7, 31) + run(27, 27 + shown(items[2] as int), 8, 29) + run(
        27,
        27 + shown(items[3] as int),
        9,
        30,
    ) + run(27, 27 + shown(items[5] as int), 10, 30)
}

/// The screen after picture `picnum` is drawn with its top-left pixel at
/// (x, y) (see `drawpic`).
pub open spec fn pic_drawn(screen: Seq<u8>, cps: CpanelState, pcs: PcrlibCState, x: int, y: int, picnum: int) -> Seq<u8> {
    let pic = cps.pictable[picnum];
    let w = pic_pixels(pcs.grmode, pic.width as int);
    let h = pic.height as int;
    if w > 0 && h > 0 {
        blit_result(
            screen,
            y * screenpitch + x,
            w,
            h,
            pcs.grmode,
            pcs.picfile_data@,
            pic_source(pcs, cps, picnum),
        )
    } else {
        screen
    }
}

/// Picture `picnum` can be drawn at (x, y) on a screen of `len` pixels
/// (see `drawpic`).
pub open spec fn pic_ok(len: int, cps: CpanelState, pcs: PcrlibCState, x: int, y: int, picnum: int) -> bool {
    let pic = cps.pictable[picnum];
    let w = pic_pixels(pcs.grmode, pic.width as int);
    let h = pic.height as int;
    &&& 0 <= x <= i32::MAX && 0 <= y <= i32::MAX
    &&& 0 <= picnum < 64
    &&& pic.width >= 0
    &&& w > 0 && h > 0 ==> {
        &&& box_ok(len, y * screenpitch + x, w, h)
        &&& source_ok(pcs.grmode, pcs.picfile_data@, pic_source(pcs, cps, picnum), w, h)
        &&& pcs.picptr + pic.shapeptr <= usize::MAX
    }
}

/// The frame of the play area: character 0 along row 24 and down column 39.
pub open spec fn border_draws() -> Seq<(int, int, int)> {
    run(0, 40, 24, 0) + column_run(39, 0, 24, 0)
}

/// The screen after the side panel is drawn: the frame, the panel's window
/// (cells 24 to 38 across, 0 to 23 down), its labels and numbers (see
/// `side_ops`), picture 13 at pixel (200, 136), and the item pictures.
pub open spec fn side_screen(
    screen: Seq<u8>,
    p: PcrlibCState,
    cps: CpanelState,
    items: Seq<i16>,
    hp: int,
    shotpower: int,
) -> Seq<u8> {
    let s1 = chars_drawn(screen, p, border_draws());
    let s2 = chars_drawn(s1, p, window_draws(24, 0, 38, 23));
    let s3 = chars_drawn(s2, p, run_ops(side_ops(p, hp, shotpower), 25, 1, 25).0);
    let s4 = pic_drawn(s3, cps, p, 200, 136, 13);
    chars_drawn(s4, p, item_draws(items))
}

/// Draws the side panel (see `side_screen`) for the given items, the
/// player's hit points `hp` and the shot power; the panel's window becomes
/// the current window.
pub fn drawside(
    items: &[i16],
    hp: i8,
    shotpower: i32,
    screen: &mut [u8],
    cps: &CpanelState,
    pcs: &mut PcrlibCState,
)
    requires
        items@.len() > 5,
        0 <= hp <= 13,
        0 <= shotpower <= 13,
        draws_ok(old(screen)@.len() as int, *old(pcs), border_draws()),
        draws_ok(old(screen)@.len() as int, *old(pcs), window_draws(24, 0, 38, 23)),
        ops_ok(old(screen)@.len() as int, *old(pcs), side_ops(*old(pcs), hp as int, shotpower as int), 25, 1, 25),
        pic_ok(old(screen)@.len() as int, *cps, *old(pcs), 200, 136, 13),
        draws_ok(old(screen)@.len() as int, *old(pcs), item_draws(items@)),
    ensures
        final(screen)@ == side_screen(old(screen)@, *old(pcs), *cps, items@, hp as int, shotpower as int),
        ({
            let r = run_ops(side_ops(*old(pcs), hp as int, shotpower as int), 25, 1, 25);
            *final(pcs) == (PcrlibCState {
                win_xl: 24,
                win_yl: 0,
                win_xh: 38,
                win_yh: 23,
                leftedge: 25,
                sx: r.1 as i32,
                sy: r.2 as i32,
                ..*old(pcs)
            })
        }),
{
    let ghost p0 = *pcs;
    let ghost s0 = screen@;
    let ghost len = s0.len() as int;
    proof {
        crate::catacomb_ii::text_window::lemma_draws_ok_split(
            len,
            p0,
            run(0, 40, 24, 0),
            column_run(39, 0, 24, 0),
        );
    }
    draw_run(0, 40, 24, 0, screen, pcs);
    draw_column_run(39, 0, 24, 0, screen, pcs);
    proof {
        crate::catacomb_ii::text_window::lemma_chars_drawn_concat(
            s0,
            p0,
            run(0, 40, 24, 0),
            column_run(39, 0, 24, 0),
        );
    }
    let ghost s1 = screen@;
    drawwindow(24, 0, 38, 23, screen, pcs);
    let ghost s2 = screen@;
    let ghost p1 = *pcs;
    let mut cmds: Vec<TextCommand> = Vec::new();
    cmds.push(TextCommand::Print("  level\n\nscore:\n\ntop  :\n\nk:\np:\nb:\nn:\n\n".as_bytes_vec()));
    cmds.push(TextCommand::Print(" shot power\n\n\n    body\n\n\n".as_bytes_vec()));
    cmds.push(TextCommand::Goto(31, 5));
    cmds.push(TextCommand::Print(decimal(pcs.highscores[1].score)));
    cmds.push(TextCommand::Goto(25, 16));
    let body: [u8; 13] = if hp > 6 {
        METERS[hp as usize]
    } else {
        ALTMETERS[hp as usize]
    };
    let mut body_v: Vec<u8> = Vec::new();
    let mut shot_v: Vec<u8> = Vec::new();
    let shot: [u8; 13] = if shotpower == 13 {
        ALTMETERS[13]
    } else {
        METERS[shotpower as usize]
    };
    let mut k: usize = 0;
    while k < 13
        invariant
            k <= 13,
            body_v@ == body@.take(k as int),
            shot_v@ == shot@.take(k as int),
        decreases 13 - k,
    {
        body_v.push(body[k]);
        shot_v.push(shot[k]);
        assert(body@.take(k + 1) =~= body@.take(k as int).push(body@[k as int]));
        assert(shot@.take(k + 1) =~= shot@.take(k as int).push(shot@[k as int]));
        k = k + 1;
    }
    assert(body@.take(13) =~= body@);
    assert(shot@.take(13) =~= shot@);
    cmds.push(TextCommand::Print(body_v));
    cmds.push(TextCommand::Goto(25, 13));
    cmds.push(TextCommand::Print(shot_v));
    cmds.push(TextCommand::Goto(31, 3));
    cmds.push(TextCommand::Print(decimal(pcs.score)));
    cmds.push(TextCommand::Goto(33, 1));
    cmds.push(TextCommand::Print(decimal(pcs.level as i32)));
    let ghost ops = side_ops(p0, hp as int, shotpower as int);
    assert(ops_of(cmds@) =~= ops);
    proof {
        lemma_ops_ok_font(len, p0, p1, ops, 25, 1, 25);
    }
    run_text(&cmds, screen, pcs);
    let ghost s3 = screen@;
    let ghost r = run_ops(ops, 25, 1, 25);
    proof {
        lemma_chars_drawn_font(s2, p1, p0, r.0);
    }
    drawpic(200, 136, 13, screen, cps, pcs);
    let ghost s4 = screen@;
    proof {
        assert(s4 =~= pic_drawn(s3, *cps, p0, 200, 136, 13));
    }
    let ghost r1 = run(27, 27 + shown(items@[1] as int), 7, 31);
    let ghost r2 = run(27, 27 + shown(items@[2] as int), 8, 29);
    let ghost r3 = run(27, 27 + shown(items@[3] as int), 9, 30);
    let ghost r5 = run(27, 27 + shown(items@[5] as int), 10, 30);
    proof {
        crate::catacomb_ii::text_window::lemma_draws_ok_split(len, p0, r1 + r2 + r3, r5);
        crate::catacomb_ii::text_window::lemma_draws_ok_split(len, p0, r1 + r2, r3);
        crate::catacomb_ii::text_window::lemma_draws_ok_split(len, p0, r1, r2);
        lemma_shown_draws_ok(len, *pcs, p0, r1);
        lemma_shown_draws_ok(len, *pcs, p0, r2);
        lemma_shown_draws_ok(len, *pcs, p0, r3);
        lemma_shown_draws_ok(len, *pcs, p0, r5);
    }
    item_run(items[1], 7, 31, screen, pcs);
    item_run(items[2], 8, 29, screen, pcs);
    item_run(items[3], 9, 30, screen, pcs);
    item_run(items[5], 10, 30, screen, pcs);
    proof {
        let p2 = *pcs;
        lemma_chars_drawn_font(s4, p2, p0, r1);
        lemma_chars_drawn_font(chars_drawn(s4, p0, r1), p2, p0, r2);
        lemma_chars_drawn_font(chars_drawn(chars_drawn(s4, p0, r1), p0, r2), p2, p0, r3);
        lemma_chars_drawn_font(
            chars_drawn(chars_drawn(chars_drawn(s4, p0, r1), p0, r2), p0, r3),
            p2,
            p0,
            r5,
        );
        crate::catacomb_ii::text_window::lemma_chars_drawn_concat(s4, p0, r1, r2);
        crate::catacomb_ii::text_window::lemma_chars_drawn_concat(s4, p0, r1 + r2, r3);
        crate::catacomb_ii::text_window::lemma_chars_drawn_concat(s4, p0, r1 + r2 + r3, r5);
    }
}

/// Whether characters can be drawn depends only on the font.
proof fn lemma_shown_draws_ok(len: int, p1: PcrlibCState, p2: PcrlibCState, d: Seq<(int, int, int)>)
    requires
        p1.grmode == p2.grmode,
        p1.picfile_data@ == p2.picfile_data@,
        p1.charptr == p2.charptr,
        p1.egaplaneofs == p2.egaplaneofs,
    ensures
        draws_ok(len, p1, d) == draws_ok(len, p2, d),
{
    assert forall|k: int| 0 <= k < d.len() implies draw_ok(len, p1, #[trigger] d[k]) == draw_ok(len, p2, d[k]) by {}
}

/// Draws the pictures of `count` items in row `row` from column 27 (see
/// `shown`).
fn item_run(count: i16, row: i32, ch: i32, screen: &mut [u8], pcs: &PcrlibCState)
    requires
        draws_ok(old(screen)@.len() as int, *pcs, run(27, 27 + shown(count as int), row as int, ch as int)),
    ensures
        final(screen)@.len() == old(screen)@.len(),
        final(screen)@ == chars_drawn(old(screen)@, *pcs, run(27, 27 + shown(count as int), row as int, ch as int)),
{
    let n: i64 = if count < 0 {
        0
    } else if count > 10 {
        10
    } else {
        count as i64
    };
    draw_run(27, 27 + n, row, ch, screen, pcs);
}


/// The table after `score`, reached on `level`, is entered: it goes into
/// the first slot whose score it beats (see `highscore_slot`), with blank
/// initials, and the entries below move down one; the last falls out.
pub open spec fn with_entry(table: Seq<scores>, score: i32, level: i16) -> Seq<scores> {
    let slot = highscore_slot([table[0], table[1], table[2], table[3], table[4]], score);
    Seq::new(
        5,
        |k: int|
            if k < slot {
                table[k]
            } else if k == slot {
                scores { score, level, initials: [32u8, 32u8, 32u8] }
            } else {
                table[k - 1]
            },
    )
}

/// The key table after the first 128 keys are marked up.
pub open spec fn keys_cleared(keydown: Seq<bool>) -> Seq<bool> {
    Seq::new(keydown.len(), |i: int| i >= 128 && keydown[i])
}

/// Starts entering the current score into the high score table: the score
/// goes into the table (see `with_entry`), the table is shown around the
/// screen centre (cx, cy) (see `_showhighscores`), and, when the score
/// made the table, sound 16 plays, the first 128 keys are marked up and
/// the cursor goes to the entry's initials (column cx + 6, row
/// cy - 2 + 2 * slot). Returns the entry's slot, 5 when the score did not
/// make the table.
pub fn checkhighscore_start(cx: i32, cy: i32, screen: &mut [u8], pas: &mut PcrlibAState, pcs: &mut PcrlibCState) -> (slot: i32)
    requires
        ({
            let (xl, yl) = centered_corner(cx as int, cy as int, 17, 17);
            let table = with_entry(old(pcs).highscores@, old(pcs).score, old(pcs).level);
            &&& i32::MIN <= xl && xl + 18 <= i32::MAX
            &&& i32::MIN <= yl && yl + 18 <= i32::MAX
            &&& draws_ok(old(screen)@.len() as int, *old(pcs), window_draws(xl, yl, xl + 18, yl + 18))
            &&& ops_ok(
                old(screen)@.len() as int,
                *old(pcs),
                show_ops(table, old(pcs).score as int, cx as int),
                xl + 1,
                yl + 1,
                xl + 1,
            )
        }),
        highscore_slot(old(pcs).highscores, old(pcs).score) < 5 ==> can_ask_sound(*old(pas), 16),
        highscore_slot(old(pcs).highscores, old(pcs).score) < 5 ==> old(pcs).keydown@.len() >= 128,
    ensures
        slot == highscore_slot(old(pcs).highscores, old(pcs).score),
        ({
            let (xl, yl) = centered_corner(cx as int, cy as int, 17, 17);
            let table = with_entry(old(pcs).highscores@, old(pcs).score, old(pcs).level);
            let r = run_ops(show_ops(table, old(pcs).score as int, cx as int), xl + 1, yl + 1, xl + 1);
            &&& final(screen)@ == chars_drawn(
                chars_drawn(old(screen)@, *old(pcs), window_draws(xl, yl, xl + 18, yl + 18)),
                *old(pcs),
                r.0,
            )
            &&& final(pcs).highscores@ == table
            &&& final(pcs).keydown@ == if slot < 5 {
                keys_cleared(old(pcs).keydown@)
            } else {
                old(pcs).keydown@
            }
            &&& final(pcs).sx == if slot < 5 {
                (cx + 6) as i32
            } else {
                r.1 as i32
            }
            &&& final(pcs).sy == if slot < 5 {
                (cy - 2 + 2 * slot) as i32
            } else {
                r.2 as i32
            }
            &&& *final(pcs) == (PcrlibCState {
                win_xl: xl as i32,
                win_yl: yl as i32,
                win_xh: (xl + 18) as i32,
                win_yh: (yl + 18) as i32,
                leftedge: (xl + 1) as i32,
                sx: final(pcs).sx,
                sy: final(pcs).sy,
                highscores: final(pcs).highscores,
                keydown: final(pcs).keydown,
                ..*old(pcs)
            })
        }),
        *final(pas) == if slot < 5 {
            asked_sound(*old(pas), 16)
        } else {
            *old(pas)
        },
{
    let ghost p0 = *pcs;
    let ghost h0 = pcs.highscores;
    let slot = insert_highscore(pcs);
    let ghost table = with_entry(p0.highscores@, p0.score, p0.level);
    proof {
        assert([h0@[0], h0@[1], h0@[2], h0@[3], h0@[4]] == h0) by {
            assert([h0@[0], h0@[1], h0@[2], h0@[3], h0@[4]]@ =~= h0@);
        }
        assert(pcs.highscores@ =~= table);
    }
    let ghost p1 = *pcs;
    proof {
        lemma_ops_ok_font(
            screen@.len() as int,
            p0,
            p1,
            show_ops(table, p0.score as int, cx as int),
            cx - 8 + 1,
            cy - 8 + 1,
            cx - 8 + 1,
        );
        assert(crate::int_math::div_trunc(17, 2) == 8);
    }
    _showhighscores(cx, cy, screen, pcs);
    proof {
        let r = run_ops(show_ops(table, p0.score as int, cx as int), cx - 8 + 1, cy - 8 + 1, cx - 8 + 1);
        lemma_chars_drawn_font(screen@, p1, p0, r.0);
        crate::catacomb_ii::text_window::lemma_chars_drawn_font(
            crate::catacomb_ii::text_window::chars_drawn(
                old(screen)@,
                p1,
                window_draws(cx - 8, cy - 8, cx - 8 + 18, cy - 8 + 18),
            ),
            p1,
            p0,
            r.0,
        );
        crate::catacomb_ii::text_window::lemma_chars_drawn_font(
            old(screen)@,
            p1,
            p0,
            window_draws(cx - 8, cy - 8, cx - 8 + 18, cy - 8 + 18),
        );
    }
    if slot < 5 {
        PlaySound(16, pas);
        clear_keydown(pcs);
        pcs.sx = cx - 17 / 2 + 14;
        pcs.sy = cy - 17 / 2 + 6 + slot * 2;
        proof {
            assert(pcs.keydown@ =~= keys_cleared(p0.keydown@));
        }
    }
    slot
}

/// One key typed while entering the initials of high score entry `slot`
/// (see `initials_step`): a typed character is also drawn where the cursor
/// was.
pub fn checkhighscore_key(k: i32, slot: usize, j: &mut i32, screen: &mut [u8], pcs: &mut PcrlibCState) -> (r: (
    Option<(i32, i32, u8)>,
    bool,
))
    requires
        slot < 5,
        0 <= *old(j) <= 3,
        i32::MIN < old(pcs).sx < i32::MAX,
        key_char(k) >= 32 && *old(j) < 3 ==> draw_ok(
            old(screen)@.len() as int,
            *old(pcs),
            (old(pcs).sx as int, old(pcs).sy as int, key_char(k) as u8 as int),
        ),
    ensures
        initials_step(k, slot as int, *old(j), *old(pcs), *final(j), *final(pcs), r),
        final(screen)@ == match r.0 {
            Some(d) => char_drawn(old(screen)@, *old(pcs), (d.0 as int, d.1 as int, d.2 as int)),
            None => old(screen)@,
        },
{
    let ghost p0 = *pcs;
    let r = initials_key(k, slot, j, pcs);
    if let Some((x, y, ch)) = r.0 {
        let ghost before = screen@;
        crate::catacomb_ii::pcrlib_a::drawchar(x, y, ch as i32, screen, pcs);
        assert(screen@ =~= char_drawn(before, p0, (x as int, y as int, ch as int)));
    }
    r
}

} // verus!
