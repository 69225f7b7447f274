use classic_games::catacomb_ii::catacomb::{charpic, refresh, restore, simplerefresh};
use classic_games::catacomb_ii::demo_enum::demoenum;
use classic_games::catacomb_ii::dir_type::dirtype;
use classic_games::catacomb_ii::obj_def_type::objdeftype;
use classic_games::catacomb_ii::catasm::{cgarefresh, drawchartile, egarefresh};
use classic_games::catacomb_ii::cpanel_state::CpanelState;
use classic_games::catacomb_ii::gr_type::grtype;
use classic_games::catacomb_ii::pcrlib_a::{drawchar, drawpic};
use classic_games::catacomb_ii::pcrlib_c::{UpdateScreen, CGAPalette, EGAPalette};
use classic_games::catacomb_ii::pcrlib_c_state::PcrlibCState;
use classic_games::catacomb_ii::pic_type::pictype;

const PIXELS: usize = 64000;

/// Tile 0 is blank; tile 1 has, in EGA, plane 0 set on its top row and
/// plane 3 on its second row; in CGA, its top row is 0b11_10_01_00 twice.
fn tiles() -> Vec<u8> {
    let mut pics = vec![0u8; 64];
    pics[32] = 0xff;
    pics[32 + 24 + 1] = 0xff;
    pics[16] = 0b11_10_01_00;
    pics[17] = 0b11_10_01_00;
    pics
}

#[test]
fn ega_tile_drawn_in_a_cell() {
    let mut screen = vec![9u8; PIXELS];
    drawchartile(1, 2, 1, &mut screen, &tiles(), grtype::EGAgr);
    let top = 2 * 8 * 320 + 8;
    assert_eq!(&screen[top..top + 8], &[1u8; 8]);
    assert_eq!(&screen[top + 320..top + 328], &[8u8; 8]);
    assert_eq!(&screen[top + 640..top + 648], &[0u8; 8]);
    assert_eq!(screen[top - 1], 9);
    assert_eq!(screen[top + 8], 9);
    assert_eq!(screen[top + 8 * 320], 9);
}

#[test]
fn cga_tile_drawn_in_a_cell() {
    let mut screen = vec![9u8; PIXELS];
    drawchartile(0, 0, 1, &mut screen, &tiles(), grtype::CGAgr);
    assert_eq!(&screen[0..8], &[3, 2, 1, 0, 3, 2, 1, 0]);
    assert_eq!(&screen[320..328], &[0u8; 8]);
    assert_eq!(screen[8], 9);
}

#[test]
fn characters_in_each_mode() {
    let mut pcs = PcrlibCState::new();
    pcs.picfile_data = vec![0u8; 256];
    pcs.charptr = 64;
    pcs.egaplaneofs = [0, 16, 32, 48];
    // Character 1 in EGA: plane 1 of its first row has the left pixel.
    pcs.picfile_data[64 + 8 + 16] = 0x80;
    pcs.grmode = grtype::EGAgr;
    let mut screen = vec![0u8; PIXELS];
    drawchar(2, 1, 1, &mut screen, &pcs);
    let at = 8 * 320 + 16;
    assert_eq!(&screen[at..at + 8], &[2, 0, 0, 0, 0, 0, 0, 0]);
    // VGA: one byte per pixel, 64 bytes per character.
    pcs.grmode = grtype::VGAgr;
    pcs.picfile_data[64 + 64 + 8] = 5;
    let mut screen = vec![0u8; PIXELS];
    drawchar(0, 0, 1, &mut screen, &pcs);
    assert_eq!(screen[320], 5);
}

#[test]
fn pictures_in_cga() {
    let mut pcs = PcrlibCState::new();
    pcs.picfile_data = vec![0b01_01_01_01, 0b10_10_10_10, 0xff, 0];
    pcs.picptr = 0;
    pcs.grmode = grtype::CGAgr;
    let mut table = [pictype::zeroed(); 64];
    table[3] = pictype { width: 2, height: 2, shapeptr: 0, name: [0; 8] };
    let cps = CpanelState::new(
        [[false; 5]; 4],
        0,
        0,
        grtype::CGAgr,
        grtype::CGAgr,
        classic_games::catacomb_ii::sound_type::soundtype::off,
        classic_games::catacomb_ii::sound_type::soundtype::off,
        [classic_games::catacomb_ii::input_type::inputtype::keyboard; 3],
        [classic_games::catacomb_ii::input_type::inputtype::keyboard; 3],
        false,
        false,
        false,
        [0; 4],
        classic_games::catacomb_ii::sprite_type::spritetype::zeroed(),
        [classic_games::catacomb_ii::sprite_type::spritetype::zeroed(); 10],
        0,
        0,
        1,
        0,
        table,
    );
    let mut screen = vec![0u8; PIXELS];
    drawpic(10, 1, 3, &mut screen, &cps, &pcs);
    let at = 320 + 10;
    assert_eq!(&screen[at..at + 8], &[1, 1, 1, 1, 2, 2, 2, 2]);
    assert_eq!(&screen[at + 320..at + 328], &[3, 3, 3, 3, 0, 0, 0, 0]);
    assert_eq!(screen[at + 8], 0);
    // An empty picture draws nothing.
    let before = screen.clone();
    drawpic(10, 1, 0, &mut screen, &cps, &pcs);
    assert_eq!(screen, before);
}

#[test]
fn refresh_redraws_changed_tiles_only() {
    let mut view = vec![0i32; 86 * 30];
    view[86 * 2 + 2] = 1;
    let mut oldtiles = [0i32; 576];
    let mut screen = vec![9u8; PIXELS];
    egarefresh(&view, 1, 2, &mut oldtiles, &mut screen, &tiles());
    // Window tile 0 is view (1, 2): unchanged, so not drawn.
    assert_eq!(screen[0], 9);
    // Window tile 1 is view (2, 2) = tile 1.
    assert_eq!(&screen[8..16], &[1u8; 8]);
    assert_eq!(oldtiles[1], 1);
    assert_eq!(oldtiles[0], 0);
    let mut again = screen.clone();
    egarefresh(&view, 1, 2, &mut oldtiles, &mut again, &tiles());
    assert_eq!(again, screen);
    let mut cga = vec![9u8; PIXELS];
    let mut fresh = [0xffi32; 576];
    cgarefresh(&view, 1, 2, &mut fresh, &mut cga, &tiles());
    assert_eq!(&cga[0..8], &[0u8; 8]);
    assert_eq!(&cga[8..16], &[3, 2, 1, 0, 3, 2, 1, 0]);
    assert_eq!(cga[192], 9);
}

#[test]
fn screen_colours() {
    let mut pcs = PcrlibCState::new();
    let mut screen = vec![0u8; PIXELS];
    screen[0] = 15;
    screen[1] = 1;
    pcs.grmode = grtype::EGAgr;
    let bytes = UpdateScreen(&screen, &mut pcs);
    assert_eq!(pcs.conv[0], EGAPalette[15]);
    assert_eq!(pcs.conv[1], 0xaa);
    assert_eq!(bytes.len(), 4 * PIXELS);
    assert_eq!(&bytes[0..8], &[0xff, 0xff, 0xff, 0, 0xaa, 0, 0, 0]);
    pcs.grmode = grtype::CGAgr;
    screen[0] = 3;
    UpdateScreen(&screen, &mut pcs);
    assert_eq!(pcs.conv[0], CGAPalette[3]);
    assert_eq!(pcs.conv[1], 0x55ffff);
}

#[test]
fn class_pictures_drawn_as_tile_squares() {
    let def = objdeftype {
        think: 0,
        contact: 0,
        solid: 0,
        firstchar: 1,
        size: 2,
        stages: 2,
        dirmask: 3,
        speed: 0,
        hitpoints: 1,
        damage: 1,
        points: 0,
        filler: [0; 2],
    };
    let objdef = [def; 4];
    // Facing east (1) in stage 1: first tile 1 + 4 * (1 * 2 + 1) = 13.
    let mut pics = vec![0u8; 17 * 32];
    pics[13 * 32] = 0xff;
    pics[16 * 32 + 24 + 7] = 0xff;
    let mut screen = vec![9u8; PIXELS];
    charpic(3, 4, 2, dirtype::east, 1, &objdef, &mut screen, &pics, grtype::EGAgr);
    let top = 4 * 8 * 320 + 3 * 8;
    assert_eq!(&screen[top..top + 8], &[1u8; 8]);
    assert_eq!(&screen[top + 8..top + 16], &[0u8; 8]);
    // The last tile (16) is in the cell below and to the right; its
    // plane 3 byte of row 7 is set.
    let last = top + 8 * 320 + 8 + 7 * 320;
    assert_eq!(&screen[last..last + 8], &[8u8; 8]);
    assert_eq!(screen[top + 16], 9);
}

/// Tiles 0 to 89: tile t has, in EGA, plane 0 set on its top row when t is
/// odd; tile 0 is blank.
fn many_tiles() -> Vec<u8> {
    let mut pics = vec![0u8; 90 * 32];
    for t in (1..90).step_by(2) {
        pics[t * 32] = 0xff;
    }
    pics
}

#[test]
fn demo_notice_shown_during_a_demo() {
    let mut view = vec![0i32; 86 * 87];
    view[17 * 86 + 4] = -5;
    view[30 * 86 + 30] = 3;
    let before = view.clone();
    let mut oldtiles = [0i32; 576];
    let mut screen = vec![9u8; PIXELS];
    refresh(demoenum::demoplay, &mut view, 0, 0, &mut oldtiles, &mut screen, &many_tiles(), grtype::EGAgr);
    assert_eq!(oldtiles[17 * 24 + 4], 14);
    assert_eq!(oldtiles[17 * 24 + 5], 15);
    assert_eq!(oldtiles[17 * 24 + 19], 16);
    assert_eq!(oldtiles[18 * 24 + 10], b'D' as i32);
    assert_eq!(oldtiles[21 * 24 + 4], 19);
    assert_eq!(oldtiles[21 * 24 + 3], 0);
    assert_eq!(oldtiles[16 * 24 + 4], 0);
    // Tile 15 (odd) was drawn at window row 17, column 5.
    assert_eq!(&screen[17 * 8 * 320 + 5 * 8..17 * 8 * 320 + 6 * 8], &[1u8; 8]);
    // The view is put back, each cell as a 16-bit number.
    assert_eq!(view[17 * 86 + 4], 65531);
    view[17 * 86 + 4] = -5;
    assert_eq!(view, before);
}

#[test]
fn no_notice_outside_a_demo() {
    let mut view = vec![0i32; 86 * 87];
    view[17 * 86 + 4] = -5;
    let before = view.clone();
    let mut oldtiles = [0i32; 576];
    let mut screen = vec![9u8; PIXELS];
    view[17 * 86 + 4] = 3;
    let shown = view.clone();
    refresh(demoenum::notdemo, &mut view, 0, 0, &mut oldtiles, &mut screen, &many_tiles(), grtype::CGAgr);
    assert_eq!(view, shown);
    assert_eq!(oldtiles[17 * 24 + 4], 3);
    assert_eq!(oldtiles[17 * 24 + 5], 0);
    assert_ne!(before, shown);
}

#[test]
fn restore_redraws_every_tile() {
    let mut view = vec![0i32; 86 * 30];
    view[86 * 2 + 2] = 1;
    let mut oldtiles = [0i32; 576];
    let mut screen = vec![9u8; PIXELS];
    restore(&view, 1, 2, &mut oldtiles, &mut screen, &tiles(), grtype::EGAgr);
    // Even the unchanged tile 0 is drawn now (in EGA its third plane holds
    // the bytes of tile 1's CGA picture).
    assert_eq!(&screen[0..8], &[4, 4, 4, 0, 0, 4, 0, 0]);
    assert_eq!(&screen[8..16], &[1u8; 8]);
    assert_eq!(oldtiles[0], 0);
    assert_eq!(oldtiles[1], 1);
    let mut again = screen.clone();
    simplerefresh(&view, 1, 2, &mut oldtiles, &mut again, &tiles(), grtype::EGAgr);
    assert_eq!(again, screen);
}
