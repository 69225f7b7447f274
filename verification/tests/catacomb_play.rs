use classic_games::catacomb_ii::active_obj::activeobj;
use classic_games::catacomb_ii::cat_play::{
    doinactive, fadethink, idlethink, levelcleared, newobject, opendoor,
};
use classic_games::catacomb_ii::catasm::{drawobj, eraseobj};
use classic_games::catacomb_ii::obj_type::objtype;
use classic_games::catacomb_ii::pcrlib_c_state::PcrlibCState;
use classic_games::catacomb_ii::pcrlib_a_state::PcrlibAState;

const W: usize = 86;
const CELLS: usize = 86 * 87;

fn quiet() -> PcrlibAState {
    let mut pas = PcrlibAState::new();
    pas._dontplay = true;
    pas
}

#[test]
fn vertical_door_opens_up_and_down() {
    let mut view = vec![1i32; CELLS];
    for y in 5..=8 {
        view[y * W + 10] = 165;
    }
    // A door tile beyond a gap is not part of the door.
    view[10 * W + 10] = 165;
    let mut background = vec![7i32; CELLS];
    let mut pas = quiet();
    opendoor(10, 6, 165, &mut view, &mut background, &mut pas);
    for y in 5..=8 {
        assert_eq!(view[y * W + 10], 128);
        assert_eq!(background[y * W + 10], 128);
    }
    assert_eq!(view[4 * W + 10], 1);
    assert_eq!(view[9 * W + 10], 1);
    assert_eq!(view[10 * W + 10], 165);
    assert_eq!(background[9 * W + 10], 7);
    assert_eq!(background[6 * W + 11], 7);
}

#[test]
fn horizontal_door_opens_left_and_right() {
    let mut view = vec![1i32; CELLS];
    for x in 20..=23 {
        view[3 * W + x] = 166;
    }
    let mut background = vec![7i32; CELLS];
    let mut pas = quiet();
    opendoor(21, 3, 166, &mut view, &mut background, &mut pas);
    for x in 20..=23 {
        assert_eq!(view[3 * W + x], 128);
        assert_eq!(background[3 * W + x], 128);
    }
    assert_eq!(view[3 * W + 19], 1);
    assert_eq!(view[3 * W + 24], 1);
    assert_eq!(background[2 * W + 21], 7);
}

#[test]
fn the_found_cell_opens_even_alone() {
    let mut view = vec![1i32; CELLS];
    let mut background = vec![7i32; CELLS];
    let mut pas = quiet();
    opendoor(40, 40, 166, &mut view, &mut background, &mut pas);
    assert_eq!(view[40 * W + 40], 128);
    assert_eq!(background[40 * W + 40], 128);
    assert_eq!(view.iter().filter(|t| **t == 128).count(), 1);
}

fn object(class: u16) -> activeobj {
    activeobj {
        active: class != 0,
        class,
        x: 3,
        y: 4,
        stage: 0,
        delay: 0,
        dir: 0,
        hp: 1,
        oldx: 9,
        oldy: 9,
        oldtile: 5,
        filler: [0],
    }
}

#[test]
fn new_objects_reuse_free_slots_first() {
    let mut o = [object(2); 10];
    o[3] = object(0);
    let mut numobj = 5;
    let slot = newobject(&mut o, &mut numobj, 8);
    assert_eq!((slot, numobj), (3, 5));
    assert_eq!((o[3].oldtile, o[3].oldx, o[3].oldy), (-1, 0, 0));
    assert_eq!((o[3].x, o[3].y), (3, 4));
    // No free slot: a new one after the last, while below the maximum.
    o[3] = object(2);
    let slot = newobject(&mut o, &mut numobj, 8);
    assert_eq!((slot, numobj), (6, 6));
    // At the maximum, the last slot is taken again.
    let mut numobj = 8;
    let slot = newobject(&mut o, &mut numobj, 8);
    assert_eq!((slot, numobj), (8, 8));
    assert_eq!(o[8].oldtile, -1);
}

fn shape(x: u8, y: u8, size: u8) -> objtype {
    objtype {
        active: false,
        class: 3,
        x,
        y,
        stage: 1,
        delay: 0,
        dir: 1,
        hp: 1,
        oldx: 0,
        oldy: 0,
        oldtile: 0,
        filler: [0],
        think: 0,
        contact: 0,
        solid: 0,
        firstchar: 100,
        size,
        stages: 2,
        dirmask: 3,
        speed: 0,
        hitpoints: 1,
        damage: 1,
        points: 0,
    }
}

#[test]
fn objects_drawn_by_priority_and_erased() {
    let mut view = vec![0i32; CELLS];
    let mut priority = vec![0u8; 200];
    priority[112] = 5;
    priority[150] = 9;
    let base = 3 * W + 2;
    view[base + W + 1] = 150;
    let mut obj = shape(2, 3, 2);
    drawobj(&mut obj, &mut view, &priority);
    // First tile: 100 + 2 * 2 * ((1 & 3) * 2 + 1) = 112.
    assert_eq!((obj.oldtile, obj.oldx, obj.oldy), (112, 2, 3));
    assert_eq!(view[base], 112);
    assert_eq!(view[base + 1], 113);
    assert_eq!(view[base + W], 114);
    // A tile of higher priority stays.
    assert_eq!(view[base + W + 1], 150);
    assert_eq!(view[base + 2], 0);
    let background = vec![7i32; CELLS];
    eraseobj(&obj, &mut view, &background);
    assert_eq!(view[base], 7);
    assert_eq!(view[base + 1], 7);
    assert_eq!(view[base + W], 7);
    assert_eq!(view[base + W + 1], 150);
    assert_eq!(view[base + 2], 0);
}

#[test]
fn drawing_then_erasing_over_background_restores_the_view() {
    let mut view = vec![0i32; CELLS];
    for (i, t) in view.iter_mut().enumerate() {
        *t = (i % 50) as i32;
    }
    let background = view.clone();
    let before = view.clone();
    let priority = vec![1u8; 200];
    let mut obj = shape(10, 20, 3);
    drawobj(&mut obj, &mut view, &priority);
    assert_ne!(view, before);
    eraseobj(&obj, &mut view, &background);
    assert_eq!(view, before);
}

#[test]
fn objects_wake_near_the_window() {
    let mut o = [object(3); 4];
    let mut far = shape(5, 5, 2);
    doinactive(&mut far, 10, 10, &mut o, 2);
    assert!(!far.active);
    assert_eq!(o[2].x, 3);
    let mut near = shape(9, 12, 2);
    near.dir = 5;
    doinactive(&mut near, 10, 10, &mut o, 2);
    assert!(near.active);
    assert_eq!(near.dir, 0);
    assert_eq!((o[2].x, o[2].y, o[2].active, o[2].dir), (9, 12, true, 0));
}

#[test]
fn cleared_levels_warp_or_advance() {
    let mut background = vec![0i32; CELLS];
    let mut pcs = PcrlibCState::new();
    pcs.level = 4;
    // The tiles two rows below the exit read "12".
    background[7 * W + 3] = 161 + b'1' as i32;
    background[7 * W + 4] = 161 + b'2' as i32;
    assert!(!levelcleared(3, 5, &background, &mut pcs));
    assert_eq!(pcs.level, 12);
    // A single digit.
    background[7 * W + 4] = 0;
    assert!(!levelcleared(3, 5, &background, &mut pcs));
    assert_eq!(pcs.level, 1);
    // No digit: the next level; past 30 the game is won.
    background[7 * W + 3] = 0;
    pcs.level = 30;
    assert!(levelcleared(3, 5, &background, &mut pcs));
    assert_eq!(pcs.level, 31);
}

#[test]
fn object_stages_advance() {
    let mut a = shape(0, 0, 1);
    a.stages = 3;
    a.stage = 1;
    idlethink(&mut a);
    assert_eq!((a.stage, a.delay), (2, 2));
    idlethink(&mut a);
    assert_eq!(a.stage, 0);
    let mut f = shape(0, 0, 1);
    f.stages = 2;
    f.stage = 0;
    fadethink(&mut f);
    assert_eq!((f.stage, f.class), (1, 3));
    fadethink(&mut f);
    assert_eq!((f.stage, f.class), (2, 0));
    // Stages wrap at 8 bits.
    let mut w = shape(0, 0, 1);
    w.stage = 255;
    w.stages = 4;
    idlethink(&mut w);
    assert_eq!(w.stage, 0);
}
