use classic_games::catacomb_ii::active_obj::activeobj;
use classic_games::catacomb_ii::obj_type::objtype;
use classic_games::catacomb_ii::pcrlib_a_state::PcrlibAState;
use classic_games::catacomb_ii::pcrlib_c_state::PcrlibCState;
use classic_games::catacomb_ii::shots::{castnuke, explodethink, gargthink, killnear, playshoot};

const W: usize = 86;

fn quiet() -> PcrlibAState {
    let mut pas = PcrlibAState::new();
    pas._dontplay = true;
    pas
}

fn slot(class: u16) -> activeobj {
    activeobj {
        active: false,
        class,
        x: 1,
        y: 1,
        stage: 5,
        delay: 5,
        dir: 0,
        hp: 3,
        oldx: 9,
        oldy: 9,
        oldtile: 7,
        filler: [4],
    }
}

fn thing(x: u8, y: u8, dir: u16) -> objtype {
    objtype {
        active: true,
        class: 1,
        x,
        y,
        stage: 0,
        delay: 0,
        dir,
        hp: 13,
        oldx: x,
        oldy: y,
        oldtile: -1,
        filler: [0],
        think: 0,
        contact: 0,
        solid: 0,
        firstchar: 0,
        size: 2,
        stages: 3,
        dirmask: 3,
        speed: 256,
        hitpoints: 13,
        damage: 1,
        points: 0,
    }
}

#[test]
fn player_shots_alternate_sides() {
    let mut o = vec![slot(5); 10];
    let mut numobj: i32 = 3;
    let mut obj = thing(10, 20, 1);
    let mut side: i32 = 0;
    let mut pas = quiet();
    playshoot(&mut obj, &mut side, &mut o, &mut numobj, 8, &mut pas, 17);
    assert_eq!((obj.stage, obj.delay), (2, 4));
    assert_eq!((side, numobj), (1, 4));
    let s = o[4];
    assert_eq!((s.active, s.class, s.x, s.y, s.dir), (true, 17, 11, 21, 1));
    assert_eq!((s.stage, s.delay, s.oldx, s.oldy, s.oldtile, s.hp), (0, 0, 0, 0, -1, 3));
    // A freed slot is taken first; the next shot comes from the other side.
    o[2].class = 0;
    let mut obj = thing(10, 20, 0);
    playshoot(&mut obj, &mut side, &mut o, &mut numobj, 8, &mut pas, 17);
    assert_eq!((side, numobj), (0, 4));
    assert_eq!((o[2].class, o[2].x, o[2].y, o[2].dir), (17, 10, 20, 0));
}

#[test]
fn gargoyle_throws_on_high_numbers() {
    let mut o = vec![slot(0); 4];
    let mut numobj: i32 = 0;
    let mut pas = quiet();
    // The table's fourth number is 220: no throw.
    pas.rndindex = 2;
    let mut obj = thing(10, 20, 2);
    assert!(!gargthink(&mut obj, 1, &mut o, &mut numobj, 3, &mut pas, 15));
    assert_eq!((numobj, obj.stage, pas.rndindex), (0, 0, 3));
    // The fifth is 222: a rock two cells across and three below.
    assert!(gargthink(&mut obj, 1, &mut o, &mut numobj, 3, &mut pas, 15));
    assert_eq!((obj.stage, obj.delay, numobj), (2, 6, 1));
    assert_eq!((o[1].class, o[1].x, o[1].y, o[1].dir, o[1].active), (15, 12, 23, 2, true));
}

#[test]
fn nuke_sends_twelve_shots() {
    let mut items = [0i16, 0, 0, 0, 0, 12];
    let mut o = vec![slot(0); 20];
    let mut numobj: i32 = 0;
    let mut obj = thing(30, 40, 1);
    let mut pas = quiet();
    let mut screen = vec![0u8; 64000];
    let pcs = PcrlibCState::new();
    castnuke(&mut items, &mut obj, &mut o, &mut numobj, 18, &mut pas, &mut screen, &pcs, 16);
    assert_eq!(items[5], 11);
    assert_eq!(numobj, 12);
    assert_eq!((obj.stage, obj.delay), (2, 4));
    let expect = [
        (28, 40, 0), (28, 40, 2), (30, 38, 1), (30, 38, 3),
        (30, 40, 0), (30, 40, 2), (30, 40, 1), (30, 40, 3),
        (32, 40, 0), (32, 40, 2), (30, 42, 1), (30, 42, 3),
    ];
    for (k, &(x, y, dir)) in expect.iter().enumerate() {
        let s = o[k + 1];
        assert_eq!((s.x, s.y, s.dir), (x, y, dir));
        assert_eq!((s.active, s.class, s.oldx, s.oldy, s.oldtile, s.filler), (true, 16, 30, 40, -1, [0]));
    }
    assert_eq!(o[13].class, 0);
    // Without a nuke nothing flies.
    let mut items = [0i16; 6];
    castnuke(&mut items, &mut obj, &mut o, &mut numobj, 18, &mut pas, &mut screen, &pcs, 16);
    assert_eq!(numobj, 12);
}

#[test]
fn walls_crumble_next_to_explosions() {
    let mut bg = vec![100i32; W * 20];
    bg[5 * W + 4] = 140;
    bg[4 * W + 5] = 144;
    let mut o = vec![slot(0); 8];
    let mut numobj: i32 = 0;
    let mut pas = quiet();
    killnear(3, 3, &mut bg, &mut o, &mut numobj, 6, &mut pas, 9);
    assert_eq!(numobj, 0);
    let mut obj = thing(5, 5, 0);
    obj.stage = 0;
    explodethink(&mut obj, &mut bg, &mut o, &mut numobj, 6, &mut pas, 9);
    assert_eq!((obj.stage, obj.delay, obj.class), (1, 2, 1));
    assert_eq!(bg[5 * W + 4], 128);
    assert_eq!(bg[4 * W + 5], 163);
    assert_eq!(bg[5 * W + 6], 100);
    assert_eq!(numobj, 2);
    assert_eq!((o[1].class, o[1].x, o[1].y, o[1].delay), (9, 4, 5, 2));
    assert_eq!((o[2].class, o[2].x, o[2].y), (9, 5, 4));
    // Later stages blast nothing; the last one ends the explosion.
    obj.stage = 1;
    explodethink(&mut obj, &mut bg, &mut o, &mut numobj, 6, &mut pas, 9);
    assert_eq!((obj.stage, obj.class, numobj), (2, 1, 2));
    explodethink(&mut obj, &mut bg, &mut o, &mut numobj, 6, &mut pas, 9);
    assert_eq!((obj.stage, obj.class), (3, 0));
}
