use classic_games::catacomb_ii::active_obj::activeobj;
use classic_games::catacomb_ii::level_map::{lay_out_level, loadlevel, LEVEL_CELLS};
use classic_games::catacomb_ii::obj_def_type::objdeftype;
use classic_games::catacomb_ii::pcrlib_a_state::PcrlibAState;

const W: usize = 86;
const CELLS: usize = 86 * 87;

fn blank(class: u16) -> activeobj {
    activeobj {
        active: true,
        class,
        x: 1,
        y: 1,
        stage: 3,
        delay: 4,
        dir: 2,
        hp: 9,
        oldx: 1,
        oldy: 1,
        oldtile: 5,
        filler: [7],
    }
}

fn defs() -> Vec<objdeftype> {
    (0..130u16)
        .map(|c| objdeftype {
            think: 0,
            contact: 0,
            solid: 0,
            firstchar: 0,
            size: 1,
            stages: 1,
            dirmask: 0,
            speed: 0,
            hitpoints: (c % 50) as u8,
            damage: 0,
            points: 0,
            filler: [0, 0],
        })
        .collect()
}

fn tokens() -> [u16; 26] {
    let mut t = [0u16; 26];
    for (i, v) in t.iter_mut().enumerate() {
        *v = 100 + i as u16;
    }
    t
}

#[test]
fn level_tokens_place_the_player_and_monsters() {
    let mut sm = vec![5u8; LEVEL_CELLS];
    sm[3 * 64 + 2] = 230;
    sm[10] = 232;
    sm[5 * 64] = 231;
    sm[4095] = 255;
    let mut o = vec![blank(0); 10];
    let mut background = vec![7i32; CELLS];
    let mut view = vec![-1i32; CELLS];
    let mut pas = PcrlibAState::new();
    let n = lay_out_level(&sm, &tokens(), &defs(), &mut o, &mut background, &mut view, &mut pas);
    assert_eq!(n, 3);
    assert_eq!(pas.rndindex, 3);

    let p = o[0];
    assert_eq!((p.x, p.y, p.stage, p.delay, p.dir), (13, 14, 0, 0, 1));
    assert_eq!((p.oldx, p.oldy, p.oldtile), (0, 0, -1));
    assert_eq!((p.active, p.class, p.hp, p.filler), (true, 0, 9, [7]));

    // First in scan order: token 2 at level cell (10, 0); the table's
    // second number, 8, faces it north.
    let a = o[1];
    assert_eq!((a.active, a.class, a.x, a.y, a.dir, a.hp), (false, 102, 21, 11, 0, 2));
    assert_eq!((a.stage, a.delay, a.oldx, a.oldy, a.oldtile, a.filler), (0, 0, 21, 11, -1, [7]));
    // Then token 1 at (0, 5), facing 109 / 64 = east.
    let b = o[2];
    assert_eq!((b.class, b.x, b.y, b.dir, b.hp), (101, 11, 16, 1, 1));
    // Then token 25 in the last cell, facing 220 / 64 = west.
    let c = o[3];
    assert_eq!((c.class, c.x, c.y, c.dir, c.hp), (125, 74, 74, 3, 25));
    // Slots past the last object are untouched.
    assert_eq!(o[4].class, 0);
    assert_eq!(o[4].x, 1);

    assert_eq!(background[14 * W + 13], 128);
    assert_eq!(background[11 * W + 21], 128);
    assert_eq!(background[11 * W + 11], 5);
    assert_eq!(background[74 * W + 74], 128);
    assert_eq!(background[74 * W + 73], 5);
    assert_eq!(background[10 * W + 11], 7);
    assert_eq!(background[11 * W + 75], 7);

    assert_eq!(view[10 * W + 10], 7);
    assert_eq!(view[20 * W + 30], 5);
    assert_eq!(view[75 * W + 74], 7);
    assert_eq!(view[9 * W + 10], -1);
    assert_eq!(view[10 * W + 75], -1);
    assert_eq!(view[76 * W + 20], -1);
}

#[test]
fn level_without_tokens_keeps_the_default_start() {
    let sm = vec![129u8; LEVEL_CELLS];
    let mut o = vec![blank(1); 1];
    let mut background = vec![0i32; CELLS];
    let mut view = vec![0i32; CELLS];
    let mut pas = PcrlibAState::new();
    pas.rndindex = 17;
    let n = lay_out_level(&sm, &tokens(), &defs(), &mut o, &mut background, &mut view, &mut pas);
    assert_eq!(n, 0);
    assert_eq!(pas.rndindex, 17);
    assert_eq!((o[0].x, o[0].y, o[0].dir), (13, 13, 1));
    assert_eq!(background[40 * W + 40], 129);
    assert_eq!(view[40 * W + 40], 129);
}

#[test]
fn level_start_centres_the_window_and_keeps_a_restart_point() {
    let mut sm = vec![5u8; LEVEL_CELLS];
    sm[3 * 64 + 2] = 230;
    sm[10] = 232;
    let mut o = vec![blank(0); 5];
    let mut background = vec![7i32; CELLS];
    let mut view = vec![-1i32; CELLS];
    let mut pas = PcrlibAState::new();
    let items = [0i16, 1, 2, 3, 4, 5];
    let mut shotpower: i32 = 9;
    let r = loadlevel(
        &sm, &tokens(), &defs(), &mut o, &mut background, &mut view, &mut pas, &items, 1234, 7,
        &mut shotpower,
    );
    assert_eq!(r.numobj, 1);
    assert_eq!((o[0].x, o[0].y), (13, 14));
    assert_eq!((r.origin_x, r.origin_y), (2, 3));
    assert_eq!(shotpower, 0);
    assert_eq!(r.saved.items, items);
    assert_eq!((r.saved.score, r.saved.level), (1234, 7));
    assert_eq!((r.saved.player.x, r.saved.player.y, r.saved.player.dir), (13, 14, 1));
    assert_eq!(view[14 * W + 13], 128);
}
