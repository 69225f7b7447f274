use classic_games::catacomb_ii::catacomb::{wantmore_answer, wantmore_prompt};
use classic_games::catacomb_ii::gr_type::grtype;
use classic_games::catacomb_ii::active_obj::activeobj;
use classic_games::catacomb_ii::combat::{tagobject, TagClasses, Tagged};
use classic_games::catacomb_ii::obj_type::objtype;
use classic_games::catacomb_ii::pcrlib_c_state::PcrlibCState;
use classic_games::catacomb_ii::inventory::{
    castbolt, givebolt, givekey, givenuke, givepotion, givescroll, takekey, takepotion,
};
use classic_games::catacomb_ii::pcrlib_a_state::PcrlibAState;
use classic_games::catacomb_ii::cpanel_state::CpanelState;
use classic_games::catacomb_ii::input_type::inputtype;
use classic_games::catacomb_ii::pic_type::pictype;
use classic_games::catacomb_ii::score_screen::{
    _showhighscores, checkhighscore_key, checkhighscore_start, drawside, printbody,
    printhighscore, printscore, printshotpower,
};
use classic_games::catacomb_ii::sound_type::soundtype;
use classic_games::catacomb_ii::sprite_type::spritetype;
use classic_games::catacomb_ii::scores::scores;
use classic_games::catacomb_ii::text_window::{
    expwin_sizes,
    _printc, bar, centerwindow, drawwindow, erasewindow, print, print_str, printchartile,
    input_key, run_text, TextCommand,
};

const PIXELS: usize = 64000;

/// A VGA font in which every pixel of character `c` has colour `c`, so
/// that the colour of a cell tells which character was drawn there.
fn font_state() -> PcrlibCState {
    let mut pcs = PcrlibCState::new();
    pcs.grmode = grtype::VGAgr;
    pcs.charptr = 0;
    let mut data = Vec::new();
    for c in 0..128u32 {
        for _ in 0..64 {
            data.push(c as u8);
        }
    }
    pcs.picfile_data = data;
    pcs
}

/// The character drawn in cell (x, y), if all its pixels agree.
fn cell(screen: &[u8], x: usize, y: usize) -> u8 {
    let first = screen[y * 8 * 320 + x * 8];
    for r in 0..8 {
        for c in 0..8 {
            assert_eq!(screen[(y * 8 + r) * 320 + x * 8 + c], first);
        }
    }
    first
}

#[test]
fn window_frame_and_cursor() {
    let mut pcs = font_state();
    let mut screen = vec![99u8; PIXELS];
    drawwindow(1, 1, 4, 3, &mut screen, &mut pcs);
    let rows = [[1u8, 2, 2, 3], [4, 32, 32, 5], [6, 7, 7, 8]];
    for (dy, row) in rows.iter().enumerate() {
        for (dx, ch) in row.iter().enumerate() {
            assert_eq!(cell(&screen, 1 + dx, 1 + dy), *ch);
        }
    }
    assert_eq!(cell(&screen, 0, 1), 99);
    assert_eq!(cell(&screen, 5, 2), 99);
    assert_eq!(cell(&screen, 2, 4), 99);
    assert_eq!((pcs.win_xl, pcs.win_yl, pcs.win_xh, pcs.win_yh), (1, 1, 4, 3));
    assert_eq!((pcs.leftedge, pcs.sx, pcs.sy), (2, 2, 2));
}

#[test]
fn one_row_window_keeps_its_bottom_row() {
    let mut pcs = font_state();
    let mut screen = vec![99u8; PIXELS];
    drawwindow(0, 0, 2, 0, &mut screen, &mut pcs);
    assert_eq!(cell(&screen, 0, 0), 6);
    assert_eq!(cell(&screen, 1, 0), 7);
    assert_eq!(cell(&screen, 2, 0), 8);
}

#[test]
fn bar_fills_its_cells() {
    let pcs = font_state();
    let mut screen = vec![99u8; PIXELS];
    bar(3, 4, 5, 5, 9, &mut screen, &pcs);
    for y in 4..=5 {
        for x in 3..=5 {
            assert_eq!(cell(&screen, x, y), 9);
        }
    }
    assert_eq!(cell(&screen, 2, 4), 99);
    assert_eq!(cell(&screen, 6, 5), 99);
    assert_eq!(cell(&screen, 3, 6), 99);
    // A bar whose corners are the wrong way round draws nothing.
    let mut screen2 = vec![99u8; PIXELS];
    bar(5, 5, 3, 3, 9, &mut screen2, &pcs);
    assert!(screen2.iter().all(|p| *p == 99));
}

#[test]
fn erasing_blanks_the_whole_window() {
    let mut pcs = font_state();
    let mut screen = vec![99u8; PIXELS];
    drawwindow(2, 2, 5, 4, &mut screen, &mut pcs);
    erasewindow(&mut screen, &pcs);
    for y in 2..=4 {
        for x in 2..=5 {
            assert_eq!(cell(&screen, x, y), 32);
        }
    }
    assert_eq!(cell(&screen, 6, 3), 99);
}

#[test]
fn centred_window_corners() {
    let mut pcs = font_state();
    let mut screen = vec![99u8; PIXELS];
    centerwindow(2, 2, 20, 12, &mut screen, &mut pcs);
    assert_eq!((pcs.win_xl, pcs.win_yl, pcs.win_xh, pcs.win_yh), (19, 11, 22, 14));
    assert_eq!(cell(&screen, 19, 11), 1);
    assert_eq!(cell(&screen, 22, 14), 8);
    // An odd size rounds the half toward zero.
    let mut pcs = font_state();
    let mut screen = vec![99u8; PIXELS];
    centerwindow(3, 1, 20, 12, &mut screen, &mut pcs);
    assert_eq!((pcs.win_xl, pcs.win_yl, pcs.win_xh, pcs.win_yh), (19, 12, 23, 14));
}

#[test]
fn printing_follows_newlines_returns_and_stops_at_zero() {
    let mut pcs = font_state();
    pcs.sx = 2;
    pcs.sy = 5;
    pcs.leftedge = 2;
    let mut screen = vec![99u8; PIXELS];
    print(b"AB\nC\rD\0E", &mut screen, &mut pcs);
    assert_eq!(cell(&screen, 2, 5), b'A');
    assert_eq!(cell(&screen, 3, 5), b'B');
    assert_eq!(cell(&screen, 2, 6), b'D');
    assert_eq!(cell(&screen, 3, 6), 99);
    assert_eq!((pcs.sx, pcs.sy), (3, 6));
}

#[test]
fn printing_a_str_and_centred_text() {
    let mut pcs = font_state();
    pcs.sx = 0;
    pcs.sy = 0;
    pcs.leftedge = 0;
    let mut screen = vec![99u8; PIXELS];
    print_str("hi\n", &mut screen, &mut pcs);
    assert_eq!(cell(&screen, 0, 0), b'h');
    assert_eq!(cell(&screen, 1, 0), b'i');
    assert_eq!((pcs.sx, pcs.sy), (0, 1));
    _printc(b"ABC", 20, &mut screen, &mut pcs);
    assert_eq!(cell(&screen, 18, 1), b'A');
    assert_eq!(cell(&screen, 20, 1), b'C');
    assert_eq!((pcs.sx, pcs.sy), (21, 1));
}

#[test]
fn printing_tiles() {
    let mut pcs = font_state();
    pcs.grmode = grtype::EGAgr;
    pcs.sx = 1;
    pcs.sy = 1;
    pcs.leftedge = 1;
    // Tile 1: plane 0 set on its top row.
    let mut pics = vec![0u8; 64];
    pics[32] = 0xff;
    let mut screen = vec![99u8; PIXELS];
    printchartile(&[1, 0, 1], &mut screen, &pics, &mut pcs);
    let top = 8 * 320 + 8;
    assert_eq!(&screen[top..top + 8], &[1u8; 8]);
    assert_eq!(&screen[top + 320..top + 328], &[0u8; 8]);
    assert_eq!(screen[top + 8], 99);
    assert_eq!((pcs.sx, pcs.sy), (2, 1));
}

#[test]
fn text_commands_move_and_draw() {
    let mut pcs = font_state();
    pcs.sx = 1;
    pcs.sy = 1;
    pcs.leftedge = 1;
    let mut screen = vec![99u8; PIXELS];
    let cmds = vec![
        TextCommand::Print(b"AB".to_vec()),
        TextCommand::Skip(2),
        TextCommand::Put(b'C' as i32),
        TextCommand::Column(0),
        TextCommand::Print(b"D".to_vec()),
    ];
    run_text(&cmds, &mut screen, &mut pcs);
    assert_eq!(cell(&screen, 1, 1), b'A');
    assert_eq!(cell(&screen, 2, 1), b'B');
    assert_eq!(cell(&screen, 3, 1), 99);
    assert_eq!(cell(&screen, 5, 1), b'C');
    assert_eq!(cell(&screen, 0, 1), b'D');
    assert_eq!((pcs.sx, pcs.sy), (1, 1));
}

#[test]
fn high_score_table_layout() {
    let mut pcs = font_state();
    for i in 0..5 {
        pcs.highscores[i] = scores { score: 100, level: 1, initials: *b"PCR" };
    }
    pcs.highscores[0] = scores { score: 54321, level: 12, initials: *b"JDC" };
    pcs.score = 1234;
    let mut screen = vec![99u8; PIXELS];
    _showhighscores(20, 12, &mut screen, &mut pcs);
    assert_eq!((pcs.win_xl, pcs.win_yl, pcs.win_xh, pcs.win_yh), (12, 4, 30, 22));
    assert_eq!(cell(&screen, 12, 4), 1);
    assert_eq!(cell(&screen, 16, 6), b'H');
    assert_eq!(cell(&screen, 14, 8), b'#');
    // First entry: five digits, so one blank before them; a two-digit level.
    assert_eq!(cell(&screen, 14, 10), b'1');
    assert_eq!(cell(&screen, 16, 10), 32);
    assert_eq!(cell(&screen, 17, 10), b'5');
    assert_eq!(cell(&screen, 21, 10), b'1');
    assert_eq!(cell(&screen, 23, 10), b'1');
    assert_eq!(cell(&screen, 24, 10), b'2');
    assert_eq!(cell(&screen, 26, 10), b'J');
    // Second entry: three digits end in the same column; one-digit level.
    assert_eq!(cell(&screen, 14, 12), b'2');
    assert_eq!(cell(&screen, 19, 12), b'1');
    assert_eq!(cell(&screen, 21, 12), b'0');
    assert_eq!(cell(&screen, 23, 12), 32);
    assert_eq!(cell(&screen, 24, 12), b'1');
    assert_eq!(cell(&screen, 26, 12), b'P');
    assert_eq!(cell(&screen, 28, 18), b'R');
    // The current score ends one column right of the centre.
    assert_eq!(cell(&screen, 11, 20), b'S');
    assert_eq!(cell(&screen, 20, 20), b'4');
    assert_eq!((pcs.sx, pcs.sy), (21, 20));
}

#[test]
fn status_numbers_and_meters() {
    let mut pcs = font_state();
    pcs.score = 907;
    pcs.highscores[1] = scores { score: 42, level: 1, initials: *b"ABC" };
    let mut screen = vec![99u8; PIXELS];
    printscore(&mut screen, &mut pcs);
    assert_eq!(cell(&screen, 31, 3), b'9');
    assert_eq!(cell(&screen, 33, 3), b'7');
    assert_eq!((pcs.sx, pcs.sy), (34, 3));
    printhighscore(&mut screen, &mut pcs);
    assert_eq!(cell(&screen, 31, 5), b'4');
    assert_eq!(cell(&screen, 32, 5), b'2');
    assert_eq!((pcs.sx, pcs.sy), (33, 5));
    // A shot power of 3: start, middle, end, then blanks.
    printshotpower(3, &mut screen, &mut pcs);
    assert_eq!(cell(&screen, 25, 13), 26);
    assert_eq!(cell(&screen, 26, 13), 27);
    assert_eq!(cell(&screen, 27, 13), 28);
    assert_eq!(cell(&screen, 28, 13), 127);
    assert_eq!(cell(&screen, 37, 13), 127);
    assert_eq!((pcs.sx, pcs.sy), (38, 13));
    // Full shot power uses the warning meter.
    printshotpower(13, &mut screen, &mut pcs);
    assert_eq!(cell(&screen, 25, 13), 23);
    assert_eq!(cell(&screen, 37, 13), 25);
    // A weak body uses the warning meter, a strong one the normal meter.
    printbody(2, &mut screen, &mut pcs);
    assert_eq!(cell(&screen, 25, 16), 23);
    assert_eq!(cell(&screen, 26, 16), 25);
    assert_eq!(cell(&screen, 27, 16), 127);
    printbody(7, &mut screen, &mut pcs);
    assert_eq!(cell(&screen, 25, 16), 26);
    assert_eq!(cell(&screen, 31, 16), 28);
    assert_eq!((pcs.sx, pcs.sy), (38, 16));
}

#[test]
fn items_given_and_used() {
    let mut pcs = font_state();
    let mut pas = PcrlibAState::new();
    pas._dontplay = true;
    let mut screen = vec![99u8; PIXELS];
    let mut items = [0i16; 6];
    givepotion(&mut items, &mut screen, &pcs);
    givepotion(&mut items, &mut screen, &pcs);
    assert_eq!(items[2], 2);
    assert_eq!(cell(&screen, 27, 8), 29);
    assert_eq!(cell(&screen, 28, 8), 29);
    givekey(&mut items, &mut screen, &pcs);
    assert_eq!((items[1], cell(&screen, 27, 7)), (1, 31));
    givebolt(&mut items, &mut screen, &pcs);
    givenuke(&mut items, &mut screen, &pcs);
    assert_eq!((items[3], items[5]), (1, 1));
    assert_eq!((cell(&screen, 27, 9), cell(&screen, 27, 10)), (30, 30));
    // A scroll is a bolt or a nuke, by the next table number.
    givescroll(&mut items, &mut pas, &mut screen, &pcs);
    assert_eq!(items[3] + items[5], 3);
    assert_eq!(pas.rndindex, 1);
    // Using items blanks the last picture.
    assert!(takekey(&mut items, &mut pas, &mut screen, &pcs));
    assert_eq!((items[1], cell(&screen, 27, 7)), (0, 32));
    assert!(!takekey(&mut items, &mut pas, &mut screen, &pcs));
    assert_eq!(items[1], 0);
    let mut hp = 3i8;
    let mut obj_hp = 3i8;
    takepotion(&mut items, &mut hp, &mut obj_hp, &mut pas, &mut screen, &mut pcs);
    assert_eq!((items[2], hp, obj_hp), (1, 13, 13));
    assert_eq!(cell(&screen, 28, 8), 32);
    assert_eq!(cell(&screen, 27, 8), 29);
    assert_eq!(cell(&screen, 37, 16), 28);
    let mut boltsleft = 0;
    let before = items[3];
    castbolt(&mut items, &mut boltsleft, &mut pas, &mut screen, &pcs);
    if before > 0 {
        assert_eq!((items[3], boltsleft), (before - 1, 8));
    } else {
        assert_eq!((items[3], boltsleft), (0, 0));
    }
}

#[test]
fn item_counts_wrap_at_sixteen_bits() {
    let pcs = font_state();
    let mut screen = vec![99u8; PIXELS];
    let mut items = [0i16; 6];
    items[2] = i16::MAX;
    givepotion(&mut items, &mut screen, &pcs);
    assert_eq!(items[2], i16::MIN);
    assert!(screen.iter().all(|p| *p == 99));
}

#[test]
fn side_panel_layout() {
    let mut pcs = font_state();
    pcs.score = 907;
    pcs.level = 2;
    pcs.highscores[1] = scores { score: 42, level: 1, initials: *b"ABC" };
    // Picture 13: 2 by 2 pixels of colour 65, taken from the font data.
    let mut table = [pictype::zeroed(); 64];
    table[13] = pictype { width: 2, height: 2, shapeptr: 65 * 64, name: [0; 8] };
    let cps = CpanelState::new(
        [[false; 5]; 4],
        0,
        0,
        grtype::VGAgr,
        grtype::VGAgr,
        soundtype::off,
        soundtype::off,
        [inputtype::keyboard; 3],
        [inputtype::keyboard; 3],
        false,
        false,
        false,
        [0; 4],
        spritetype::zeroed(),
        [spritetype::zeroed(); 10],
        0,
        0,
        1,
        0,
        table,
    );
    let items = [0i16, 2, 12, 0, 0, 1];
    let mut screen = vec![99u8; PIXELS];
    drawside(&items, 7, 0, &mut screen, &cps, &mut pcs);
    // The frame of the play area.
    assert_eq!(cell(&screen, 0, 24), 0);
    assert_eq!(cell(&screen, 39, 0), 0);
    assert_eq!(cell(&screen, 39, 24), 0);
    // The panel's window and labels.
    assert_eq!(cell(&screen, 24, 0), 1);
    assert_eq!(cell(&screen, 38, 23), 8);
    assert_eq!(cell(&screen, 27, 1), b'l');
    assert_eq!(cell(&screen, 25, 3), b's');
    assert_eq!(cell(&screen, 25, 7), b'k');
    assert_eq!(cell(&screen, 26, 12), b's');
    assert_eq!(cell(&screen, 29, 15), b'b');
    // Numbers and meters.
    assert_eq!(cell(&screen, 33, 1), b'2');
    assert_eq!(cell(&screen, 31, 3), b'9');
    assert_eq!(cell(&screen, 33, 3), b'7');
    assert_eq!(cell(&screen, 31, 5), b'4');
    assert_eq!(cell(&screen, 25, 13), 127);
    assert_eq!(cell(&screen, 25, 16), 26);
    assert_eq!(cell(&screen, 31, 16), 28);
    // Item pictures: two keys, ten of twelve potions, no bolt, one nuke.
    assert_eq!(cell(&screen, 28, 7), 31);
    assert_eq!(cell(&screen, 29, 7), 32);
    assert_eq!(cell(&screen, 36, 8), 29);
    assert_eq!(cell(&screen, 37, 8), 32);
    assert_eq!(cell(&screen, 27, 9), 32);
    assert_eq!(cell(&screen, 27, 10), 30);
    // The picture.
    assert_eq!(screen[136 * 320 + 200], 65);
    assert_eq!(screen[137 * 320 + 201], 65);
    assert_eq!(screen[136 * 320 + 202], 32);
    assert_eq!((pcs.win_xl, pcs.win_yl, pcs.win_xh, pcs.win_yh), (24, 0, 38, 23));
    assert_eq!((pcs.sx, pcs.sy), (34, 1));
}

#[test]
fn help_page_prompt() {
    let mut pcs = font_state();
    pcs.leftedge = 2;
    let mut screen = vec![99u8; PIXELS];
    wantmore_prompt(&mut screen, &mut pcs);
    assert_eq!(cell(&screen, 2, 20), b'(');
    assert_eq!(cell(&screen, 3, 20), b's');
    assert_eq!(cell(&screen, 21, 20), b')');
    assert_eq!((pcs.sx, pcs.sy), (12, 21));
    assert!(wantmore_answer(32));
    assert!(!wantmore_answer(27));
    // Only the low byte of the key counts.
    assert!(!wantmore_answer(256 + 27));
}

#[test]
fn entering_a_high_score() {
    let mut pcs = font_state();
    let mut pas = PcrlibAState::new();
    pas._dontplay = true;
    for (i, v) in [500, 400, 300, 200, 100].iter().enumerate() {
        pcs.highscores[i] = scores { score: *v, level: 1, initials: *b"XYZ" };
    }
    pcs.score = 350;
    pcs.level = 3;
    pcs.keydown[5] = true;
    pcs.keydown[300] = true;
    let mut screen = vec![99u8; PIXELS];
    let slot = checkhighscore_start(20, 12, &mut screen, &mut pas, &mut pcs);
    assert_eq!(slot, 2);
    let table: Vec<i32> = pcs.highscores.iter().map(|h| h.score).collect();
    assert_eq!(table, vec![500, 400, 350, 300, 200]);
    assert_eq!(pcs.highscores[2].initials, *b"   ");
    assert_eq!(cell(&screen, 14, 14), b'3');
    assert_eq!(cell(&screen, 19, 14), b'3');
    assert_eq!(cell(&screen, 24, 14), b'3');
    assert_eq!((pcs.sx, pcs.sy), (26, 14));
    assert!(!pcs.keydown[5]);
    assert!(pcs.keydown[300]);
    let mut j = 0;
    assert_eq!(
        checkhighscore_key(b'A' as i32, 2, &mut j, &mut screen, &mut pcs),
        (Some((26, 14, b'A')), false)
    );
    assert_eq!(cell(&screen, 26, 14), b'A');
    checkhighscore_key(b'B' as i32, 2, &mut j, &mut screen, &mut pcs);
    assert_eq!(checkhighscore_key(13, 2, &mut j, &mut screen, &mut pcs), (None, true));
    assert_eq!(pcs.highscores[2].initials, *b"AB ");
    assert_eq!(cell(&screen, 27, 14), b'B');
}

#[test]
fn a_low_score_stays_out_of_the_table() {
    let mut pcs = font_state();
    let mut pas = PcrlibAState::new();
    for i in 0..5 {
        pcs.highscores[i] = scores { score: 100, level: 1, initials: *b"PCR" };
    }
    pcs.score = 40;
    let mut screen = vec![99u8; PIXELS];
    let slot = checkhighscore_start(20, 12, &mut screen, &mut pas, &mut pcs);
    assert_eq!(slot, 5);
    assert!(pcs.highscores.iter().all(|h| h.score == 100));
    // The cursor stays after the score line.
    assert_eq!((pcs.sx, pcs.sy), (21, 20));
}

#[test]
fn typing_a_line() {
    let mut pcs = font_state();
    pcs.sx = 5;
    pcs.sy = 3;
    let mut screen = vec![99u8; PIXELS];
    let mut line = [9u8; 6];
    let mut count = 0usize;
    assert_eq!(input_key(b'a' as i32, &mut line, &mut count, 4, &mut screen, &mut pcs), None);
    assert_eq!(input_key(b'1' as i32, &mut line, &mut count, 4, &mut screen, &mut pcs), None);
    assert_eq!(&line[..2], b"A1");
    assert_eq!(cell(&screen, 5, 3), b'A');
    assert_eq!(cell(&screen, 6, 3), b'1');
    assert_eq!((count, pcs.sx), (2, 7));
    // Backspace blanks the cursor's cell and moves back.
    assert_eq!(input_key(8, &mut line, &mut count, 4, &mut screen, &mut pcs), None);
    assert_eq!((count, pcs.sx), (1, 6));
    assert_eq!(cell(&screen, 7, 3), 32);
    assert_eq!(cell(&screen, 6, 3), b'1');
    // Characters past `z` are not taken.
    assert_eq!(input_key(b'{' as i32, &mut line, &mut count, 4, &mut screen, &mut pcs), None);
    assert_eq!(count, 1);
    // Enter ends the line and clears the rest of it.
    assert_eq!(input_key(13, &mut line, &mut count, 4, &mut screen, &mut pcs), Some(1));
    assert_eq!(line, [b'A', 0, 0, 0, 9, 9]);
    let mut count2 = 0usize;
    assert_eq!(input_key(27, &mut line, &mut count2, 4, &mut screen, &mut pcs), Some(0));
    assert_eq!(line, [0, 0, 0, 0, 9, 9]);
}

#[test]
fn expanding_window_grows_two_cells_a_frame() {
    assert_eq!(expwin_sizes(7, 1), vec![(1, 1), (3, 1), (5, 1), (7, 1)]);
    assert_eq!(expwin_sizes(1, 1), vec![(1, 1)]);
    assert_eq!(expwin_sizes(2, 6), vec![(2, 2), (2, 4), (2, 6)]);
    let sizes = expwin_sizes(22, 4);
    assert_eq!(sizes.len(), 11);
    assert_eq!(sizes[0], (2, 2));
    assert_eq!(sizes[9], (20, 2));
    assert_eq!(sizes[10], (22, 4));
    let sizes = expwin_sizes(18, 1);
    assert_eq!(sizes.len(), 9);
    assert_eq!(sizes[0], (2, 1));
    assert_eq!(sizes[8], (18, 1));
}

fn record(class: u16, hp: i8) -> activeobj {
    activeobj {
        active: true,
        class,
        x: 20,
        y: 20,
        stage: 0,
        delay: 0,
        dir: 0,
        hp,
        oldx: 20,
        oldy: 20,
        oldtile: -1,
        filler: [0],
    }
}

fn working(class: u16, hp: i8, size: u8, points: u16) -> objtype {
    objtype {
        active: true,
        class,
        x: 20,
        y: 20,
        stage: 0,
        delay: 0,
        dir: 0,
        hp,
        oldx: 20,
        oldy: 20,
        oldtile: -1,
        filler: [0],
        think: 0,
        contact: 1,
        solid: 1,
        firstchar: 0,
        size,
        stages: 2,
        dirmask: 0,
        speed: 0,
        hitpoints: 5,
        damage: 1,
        points,
    }
}

const CLASSES: TagClasses = TagClasses { player: 1, dead1: 9, guns: 18, gune: 19 };

#[test]
fn tagging_wounds_and_kills() {
    let mut pcs = font_state();
    let mut pas = PcrlibAState::new();
    pas._dontplay = true;
    let mut screen = vec![99u8; PIXELS];
    let mut o = vec![record(1, 13), record(3, 5), record(18, 5)];

    // A monster wounded keeps 3 hit points and shows its hurt stage.
    let mut alt = working(3, 5, 2, 100);
    let r = tagobject(2, &mut alt, 1, &mut o, false, CLASSES, &mut pas, &mut screen, &mut pcs);
    assert_eq!(r, Tagged::Wounded);
    assert_eq!((alt.hp, o[1].hp, o[1].stage, o[1].delay), (3, 3, 3, 4));

    // A gun turret takes no damage in its slot.
    let mut alt = working(18, 5, 1, 0);
    let r = tagobject(2, &mut alt, 2, &mut o, false, CLASSES, &mut pas, &mut screen, &mut pcs);
    assert_eq!(r, Tagged::TurretHit);
    assert_eq!((alt.hp, o[2].hp, o[2].stage), (3, 5, 0));

    // Killing the monster scores its points and leaves a dying object.
    pcs.score = 50;
    let mut alt = working(3, 3, 2, 100);
    let r = tagobject(3, &mut alt, 1, &mut o, false, CLASSES, &mut pas, &mut screen, &mut pcs);
    assert_eq!(r, Tagged::Killed);
    assert_eq!(pcs.score, 150);
    assert_eq!((o[1].class, o[1].delay, o[1].stage), (10, 2, 0));
    assert_eq!((cell(&screen, 31, 3), cell(&screen, 32, 3), cell(&screen, 33, 3)), (b'1', b'5', b'0'));

    // The player in god mode is immune; otherwise it is wounded, then killed.
    let mut alt = working(1, 13, 2, 0);
    let r = tagobject(5, &mut alt, 0, &mut o, true, CLASSES, &mut pas, &mut screen, &mut pcs);
    assert_eq!((r, alt.hp, o[0].hp), (Tagged::Immune, 13, 13));
    let r = tagobject(5, &mut alt, 0, &mut o, false, CLASSES, &mut pas, &mut screen, &mut pcs);
    assert_eq!((r, alt.hp, o[0].hp, o[0].stage, o[0].delay), (Tagged::Wounded, 8, 8, 3, 2));
    let r = tagobject(8, &mut alt, 0, &mut o, false, CLASSES, &mut pas, &mut screen, &mut pcs);
    assert_eq!((r, alt.hp, o[0].hp, o[0].class), (Tagged::PlayerKilled, 0, 0, 10));
    assert_eq!((pcs.sx, pcs.sy), (38, 16));
}
