use classic_games::catacomb_ii::active_obj::activeobj;
use classic_games::catacomb_ii::combat::TagClasses;
use classic_games::catacomb_ii::contact::{ContactClasses, PlayFlags};
use classic_games::catacomb_ii::dir_type::dirtype;
use classic_games::catacomb_ii::gr_type::grtype;
use classic_games::catacomb_ii::level_map::show_level;
use classic_games::catacomb_ii::obj_def_type::objdeftype;
use classic_games::catacomb_ii::obj_type::objtype;
use classic_games::catacomb_ii::pcrlib_a_state::PcrlibAState;
use classic_games::catacomb_ii::pcrlib_c_state::PcrlibCState;
use classic_games::catacomb_ii::control_struct::ControlStruct;
use classic_games::catacomb_ii::demo_enum::demoenum;
use classic_games::catacomb_ii::player::{
    begin_level_play, demo_exit, frame_end, player_frame, player_items, playercmdthink, warp_target, FrameEnd,
};
use classic_games::catacomb_ii::think_type::thinktype;
use classic_games::catacomb_ii::walking::{
    chasethink, doactive, doall_sweep, monster_think, player_walk, shooterthink, walk, walkthrough, ActiveTurn, MissileClasses,
    Sweep, WalkClasses,
};

const W: usize = 86;
const PIXELS: usize = 64000;

const CL: WalkClasses = WalkClasses {
    contact: ContactClasses {
        tag: TagClasses { player: 1, dead1: 9, guns: 18, gune: 19 },
        teleporter: 20,
        secretgate: 21,
        shot: 3,
    },
    wallhit: 5,
};

/// A VGA font in which every pixel of character `c` has colour `c`.
fn font_state() -> PcrlibCState {
    let mut pcs = PcrlibCState::new();
    pcs.grmode = grtype::VGAgr;
    pcs.charptr = 0;
    let mut data = Vec::new();
    for c in 0..128u32 {
        for _ in 0..64 {
            data.push(c as u8);
        }
    }
    pcs.picfile_data = data;
    pcs
}

/// The character drawn in text cell (x, y).
fn char_at(screen: &[u8], x: usize, y: usize) -> u8 {
    screen[y * 8 * 320 + x * 8]
}

fn def(contact: u8, solid: u8, size: u8, damage: u8) -> objdeftype {
    objdeftype {
        think: 0,
        contact,
        solid,
        firstchar: 0,
        size,
        stages: 2,
        dirmask: 0,
        speed: 0,
        hitpoints: 5,
        damage,
        points: 10,
        filler: [0, 0],
    }
}

fn slot(class: u16, x: u8, y: u8, hp: i8) -> activeobj {
    activeobj {
        active: true,
        class,
        x,
        y,
        stage: 0,
        delay: 0,
        dir: 0,
        hp,
        oldx: x,
        oldy: y,
        oldtile: -1,
        filler: [0],
    }
}

fn mover(class: u16, x: u8, y: u8, dir: u16, d: &objdeftype) -> objtype {
    objtype {
        active: true,
        class,
        x,
        y,
        stage: 0,
        delay: 0,
        dir,
        hp: 13,
        oldx: x,
        oldy: y,
        oldtile: -1,
        filler: [0],
        think: d.think,
        contact: d.contact,
        solid: d.solid,
        firstchar: d.firstchar,
        size: d.size,
        stages: d.stages,
        dirmask: d.dirmask,
        speed: d.speed,
        hitpoints: d.hitpoints,
        damage: d.damage,
        points: d.points,
    }
}

struct World {
    o: Vec<activeobj>,
    numobj: i32,
    objdef: Vec<objdeftype>,
    view: Vec<i32>,
    bg: Vec<i32>,
    items: Vec<i16>,
    alt: objtype,
    altnum: usize,
    flags: PlayFlags,
    pas: PcrlibAState,
    screen: Vec<u8>,
    pcs: PcrlibCState,
}

impl World {
    /// An open level with the player (class 1, size 2) at (10, 10).
    fn new() -> World {
        let mut objdef = vec![def(0, 0, 1, 0); 22];
        objdef[1] = def(0, 1, 2, 1);
        objdef[2] = def(1, 1, 2, 3);
        objdef[3] = def(2, 0, 1, 1);
        objdef[4] = def(4, 0, 1, 1);
        let mut o = vec![slot(0, 0, 0, 0); 20];
        o[0] = slot(1, 10, 10, 13);
        let mut pas = PcrlibAState::new();
        pas._dontplay = true;
        let alt = mover(0, 0, 0, 0, &objdef[0]);
        World {
            o,
            numobj: 1,
            objdef,
            view: vec![128; W * 90],
            bg: vec![128; W * 90],
            items: vec![0; 6],
            alt,
            altnum: 0,
            flags: PlayFlags { leveldone: false, playdone: false, won: false, killed: false },
            pas,
            screen: vec![0; PIXELS],
            pcs: font_state(),
        }
    }

    fn set(&mut self, x: usize, y: usize, tile: i32) {
        self.view[y * W + x] = tile;
        self.bg[y * W + x] = tile;
    }

    fn player(&self) -> objtype {
        mover(1, self.o[0].x, self.o[0].y, 1, &self.objdef[1])
    }

    fn walk(&mut self, obj: &mut objtype, objecton: usize) -> bool {
        walk(
            obj,
            objecton,
            &mut self.o,
            &mut self.numobj,
            18,
            &self.objdef,
            &mut self.view,
            &mut self.bg,
            &mut self.items,
            &mut self.alt,
            &mut self.altnum,
            &mut self.flags,
            false,
            CL,
            &mut self.pas,
            &mut self.screen,
            &mut self.pcs,
        )
    }

    fn chase(&mut self, obj: &mut objtype, objecton: usize, diagonal: bool) {
        chasethink(
            diagonal,
            obj,
            objecton,
            &mut self.o,
            &mut self.numobj,
            18,
            &self.objdef,
            &mut self.view,
            &mut self.bg,
            &mut self.items,
            &mut self.alt,
            &mut self.altnum,
            &mut self.flags,
            false,
            CL,
            &mut self.pas,
            &mut self.screen,
            &mut self.pcs,
        )
    }
}

#[test]
fn walking_on_floor_moves_one_cell() {
    let mut w = World::new();
    let mut p = w.player();
    assert!(w.walk(&mut p, 0));
    assert_eq!((p.x, p.y, p.stage), (11, 10, 1));
    p.dir = 2;
    assert!(w.walk(&mut p, 0));
    assert_eq!((p.x, p.y, p.stage), (11, 11, 0));
    // Facing no walking direction, nothing moves.
    p.dir = 5;
    assert!(!w.walk(&mut p, 0));
    assert_eq!((p.x, p.y, p.stage), (11, 11, 0));
}

#[test]
fn walls_stop_walkers() {
    let mut w = World::new();
    w.set(12, 11, 130);
    let mut p = w.player();
    assert!(!w.walk(&mut p, 0));
    assert_eq!((p.x, p.y, p.stage), (10, 10, 0));
    // Tiles 29 to 31 let the player through.
    w.set(12, 11, 30);
    assert!(w.walk(&mut p, 0));
    assert_eq!((p.x, p.y), (11, 10));
}

#[test]
fn shots_flash_on_walls() {
    let mut w = World::new();
    w.set(11, 10, 130);
    w.o[1] = slot(3, 10, 10, 1);
    let d = w.objdef[3];
    let mut shot = mover(3, 10, 10, 1, &d);
    assert!(!w.walk(&mut shot, 1));
    assert_eq!(w.numobj, 2);
    let f = w.o[2];
    assert_eq!((f.active, f.class, f.x, f.y, f.stage, f.delay, f.oldtile), (true, 5, 11, 10, 0, 2, -1));
    assert_eq!((shot.x, shot.y), (10, 10));
}

#[test]
fn shots_break_crumbling_walls() {
    let mut w = World::new();
    w.set(11, 10, 140);
    w.set(11, 20, 144);
    w.o[1] = slot(3, 10, 10, 1);
    let d = w.objdef[3];
    let mut shot = mover(3, 10, 10, 1, &d);
    // The player's shot breaks the wall and stops.
    assert!(!w.walk(&mut shot, 1));
    assert_eq!(w.bg[10 * W + 11], 128);
    assert_eq!((w.o[2].class, w.o[2].x, w.o[2].y), (9, 11, 10));
    // A nuke's shot breaks it and goes on; tile 144 leaves tile 163.
    let d = w.objdef[4];
    let mut nuke = mover(4, 10, 20, 1, &d);
    assert!(w.walk(&mut nuke, 1));
    assert_eq!(w.bg[20 * W + 11], 163);
    assert_eq!((nuke.x, nuke.y), (11, 20));
    // Other walkers just stop there.
    w.set(11, 30, 140);
    let d = w.objdef[2];
    let mut monster = mover(2, 10, 30, 1, &d);
    monster.size = 1;
    assert!(!w.walk(&mut monster, 1));
    assert_eq!(w.bg[30 * W + 11], 140);
}

#[test]
fn the_player_picks_up_items_and_treasure() {
    let mut w = World::new();
    w.set(12, 10, 164);
    w.set(12, 11, 167);
    let mut p = w.player();
    assert!(w.walk(&mut p, 0));
    assert_eq!((p.x, p.y), (11, 10));
    assert_eq!(w.items[1], 1);
    assert_eq!((w.view[10 * W + 12], w.bg[10 * W + 12]), (128, 128));
    assert_eq!(char_at(&w.screen, 27, 7), 31);
    assert_eq!(w.pcs.score, 500);
    assert_eq!((w.view[11 * W + 12], w.bg[11 * W + 12]), (128, 128));
    // A potion.
    w.set(13, 10, 162);
    assert!(w.walk(&mut p, 0));
    assert_eq!(w.items[2], 1);
    assert_eq!(char_at(&w.screen, 27, 8), 29);
}

#[test]
fn monsters_leave_items_where_they_lie() {
    let mut w = World::new();
    w.set(21, 10, 164);
    let d = w.objdef[2];
    let mut m = mover(2, 20, 10, 1, &d);
    m.size = 1;
    assert!(w.walk(&mut m, 1));
    assert_eq!(w.items[1], 0);
    assert_eq!(w.view[10 * W + 21], 164);
}

#[test]
fn doors_open_with_a_key() {
    let mut w = World::new();
    for y in 8..13 {
        w.set(12, y, 165);
    }
    w.set(12, 7, 129);
    w.set(12, 13, 129);
    let mut p = w.player();
    // Without a key the door stops the player.
    assert!(!w.walk(&mut p, 0));
    assert_eq!((p.x, p.y), (10, 10));
    assert_eq!(w.view[10 * W + 12], 165);
    // With one it opens from wall to wall, and the player goes through.
    w.items[1] = 1;
    assert!(w.walk(&mut p, 0));
    assert_eq!((p.x, p.y), (11, 10));
    assert_eq!(w.items[1], 0);
    for y in 8..13 {
        assert_eq!((w.view[y * W + 12], w.bg[y * W + 12]), (128, 128));
    }
    assert_eq!(w.view[7 * W + 12], 129);
    assert_eq!(w.view[13 * W + 12], 129);
}

#[test]
fn a_monster_bumping_into_the_player_attacks() {
    let mut w = World::new();
    w.o[1] = slot(2, 12, 10, 5);
    w.numobj = 1;
    // The player's tiles in the view.
    w.view[10 * W + 11] = 300;
    w.view[11 * W + 11] = 300;
    let d = w.objdef[2];
    let mut m = mover(2, 12, 10, 3, &d);
    assert!(w.walk(&mut m, 1));
    assert_eq!((m.x, m.y, m.stage, m.delay), (12, 10, 2, 20));
    assert_eq!(w.altnum, 0);
    assert_eq!(w.o[0].hp, 10);
}

#[test]
fn chasing_monsters_head_for_the_player() {
    let mut w = World::new();
    let d = w.objdef[2];
    let mut m = mover(2, 20, 10, 3, &d);
    m.stage = 3;
    w.chase(&mut m, 1, false);
    assert_eq!((m.x, m.y, m.dir, m.stage), (19, 10, 3, 0));
    // Blocked to the west and the north, it goes south, not back east.
    let mut w = World::new();
    for y in 9..12 {
        w.set(18, y, 130);
    }
    for x in 18..23 {
        w.set(x, 9, 130);
    }
    let mut m = mover(2, 19, 10, 3, &d);
    w.chase(&mut m, 1, false);
    assert_eq!((m.x, m.y, m.dir), (19, 11, 2));
}

#[test]
fn the_player_steps_diagonally_and_strafes() {
    let mut w = World::new();
    let mut p = w.player();
    p.dir = 2;
    player_walk(
        dirtype::northeast,
        false,
        1,
        &mut p,
        0,
        &mut w.o,
        &mut w.numobj,
        18,
        &w.objdef,
        &mut w.view,
        &mut w.bg,
        &mut w.items,
        &mut w.alt,
        &mut w.altnum,
        &mut w.flags,
        false,
        CL,
        &mut w.pas,
        &mut w.screen,
        &mut w.pcs,
    );
    assert_eq!((p.x, p.y, p.dir), (11, 9, 1));
    // Strafing west keeps the player facing east.
    player_walk(
        dirtype::west,
        true,
        3,
        &mut p,
        0,
        &mut w.o,
        &mut w.numobj,
        18,
        &w.objdef,
        &mut w.view,
        &mut w.bg,
        &mut w.items,
        &mut w.alt,
        &mut w.altnum,
        &mut w.flags,
        false,
        CL,
        &mut w.pas,
        &mut w.screen,
        &mut w.pcs,
    );
    assert_eq!((p.x, p.y, p.dir), (10, 9, 1));
    // On an even frame the player only turns.
    player_walk(
        dirtype::south,
        false,
        4,
        &mut p,
        0,
        &mut w.o,
        &mut w.numobj,
        18,
        &w.objdef,
        &mut w.view,
        &mut w.bg,
        &mut w.items,
        &mut w.alt,
        &mut w.altnum,
        &mut w.flags,
        false,
        CL,
        &mut w.pas,
        &mut w.screen,
        &mut w.pcs,
    );
    assert_eq!((p.x, p.y, p.dir), (10, 9, 2));
}

#[test]
fn walkthrough_reports_what_lets_through() {
    let mut w = World::new();
    let mut p = w.player();
    let go = |tile: i32, w: &mut World, p: &mut objtype| {
        walkthrough(
            p,
            0,
            12,
            10,
            tile,
            &mut w.o,
            &mut w.numobj,
            18,
            &w.objdef,
            &mut w.view,
            &mut w.bg,
            &mut w.items,
            &mut w.alt,
            &mut w.altnum,
            &mut w.flags,
            false,
            CL,
            &mut w.pas,
            &mut w.screen,
            &mut w.pcs,
        )
    };
    assert!(go(128, &mut w, &mut p));
    assert!(go(29, &mut w, &mut p));
    assert!(go(31, &mut w, &mut p));
    assert!(!go(32, &mut w, &mut p));
    assert!(!go(150, &mut w, &mut p));
    assert!(!go(5, &mut w, &mut p));
}

#[test]
fn the_level_number_shows_in_the_side_panel() {
    let mut screen = vec![0u8; PIXELS];
    let mut pcs = font_state();
    show_level(17, &mut screen, &mut pcs);
    assert_eq!((char_at(&screen, 33, 1), char_at(&screen, 34, 1), char_at(&screen, 35, 1)), (b'1', b'7', b' '));
    assert_eq!((pcs.sx, pcs.sy), (36, 1));
}

impl World {
    fn frame(&mut self, p: &mut objtype, c: ControlStruct, frameon: u16, side: &mut i32, bolts: &mut i32, power: &mut i32) -> (i32, i32) {
        player_frame(
            c,
            frameon,
            p,
            0,
            &mut self.o,
            &mut self.numobj,
            18,
            &self.objdef,
            &mut self.view,
            &mut self.bg,
            &mut self.items,
            &mut self.alt,
            &mut self.altnum,
            &mut self.flags,
            false,
            CL,
            &mut self.pas,
            &mut self.screen,
            &mut self.pcs,
            side,
            bolts,
            power,
            3,
            4,
        )
    }
}

#[test]
fn a_player_frame_walks_then_charges_and_fires() {
    let mut w = World::new();
    let mut p = w.player();
    p.stage = 3;
    let (mut side, mut bolts, mut power) = (0, 0, 0);
    let c = ControlStruct { dir: dirtype::east, button1: true, button2: false };
    let origin = w.frame(&mut p, c, 1, &mut side, &mut bolts, &mut power);
    assert_eq!((p.x, p.y, p.stage), (11, 10, 0));
    assert_eq!(origin, (0, -1));
    assert_eq!(power, 1);
    assert_eq!(char_at(&w.screen, 25, 13), 26);
    // Releasing fire shoots a small shot from the other side.
    let c = ControlStruct { dir: dirtype::nodir, button1: false, button2: false };
    w.frame(&mut p, c, 2, &mut side, &mut bolts, &mut power);
    assert_eq!((power, side), (0, 1));
    assert_eq!((p.stage, p.delay), (2, 4));
    assert_eq!((w.o[1].class, w.o[1].dir, w.numobj), (3, 1, 1));
    // While bolts are left, one big shot goes every third frame.
    bolts = 2;
    w.frame(&mut p, c, 3, &mut side, &mut bolts, &mut power);
    assert_eq!((bolts, w.o[2].class, w.numobj), (1, 4, 2));
}

#[test]
fn the_gift_cheat_gives_three_items() {
    let mut w = World::new();
    w.pcs.keydown[20] = true;
    let mut p = w.player();
    let (mut side, mut bolts, mut power) = (0, 0, 0);
    let c = ControlStruct { dir: dirtype::nodir, button1: true, button2: true };
    w.frame(&mut p, c, 2, &mut side, &mut bolts, &mut power);
    assert_eq!((w.items[1], w.items[2], w.items[3] + w.items[5]), (1, 1, 1));
}

#[test]
fn the_frame_ends_with_cheats_resets_or_a_demo_check() {
    let mut keys = vec![false; 512];
    assert_eq!(frame_end(demoenum::notdemo, false, &keys), FrameEnd::Cheats { warp: false, godmode: false });
    keys[6] = true;
    keys[23] = true;
    keys[44] = true;
    assert_eq!(frame_end(demoenum::notdemo, false, &keys), FrameEnd::Cheats { warp: true, godmode: false });
    keys[43] = true;
    assert_eq!(frame_end(demoenum::notdemo, false, &keys), FrameEnd::Cheats { warp: true, godmode: true });
    assert_eq!(frame_end(demoenum::notdemo, true, &keys), FrameEnd::Reset);
    assert_eq!(frame_end(demoenum::demoplay, false, &keys), FrameEnd::DemoCheck);
    assert_eq!(frame_end(demoenum::recording, false, &keys), FrameEnd::Done);
    let none = ControlStruct { dir: dirtype::nodir, button1: false, button2: false };
    assert!(!demo_exit(none, false));
    assert!(demo_exit(none, true));
    assert!(demo_exit(ControlStruct { button2: true, ..none }, false));
    assert_eq!((warp_target(0), warp_target(45), warp_target(7), warp_target(65536 + 5)), (1, 30, 7, 5));
}

#[test]
fn item_keys_use_items_in_earnest_play() {
    let mut w = World::new();
    let mut p = w.player();
    p.hp = 5;
    w.o[0].hp = 5;
    w.items[2] = 1;
    w.items[3] = 1;
    w.pcs.keydown[19] = true;
    w.pcs.keydown[5] = true;
    let mut bolts = 0;
    // In a demo the keys do nothing.
    player_items(demoenum::demoplay, &mut p, &mut w.o, &mut w.numobj, 18, &mut w.items, &mut w.pas, &mut w.screen, &mut w.pcs, &mut bolts, 4);
    assert_eq!((p.hp, w.items[2]), (5, 1));
    // P drinks the potion first.
    player_items(demoenum::notdemo, &mut p, &mut w.o, &mut w.numobj, 18, &mut w.items, &mut w.pas, &mut w.screen, &mut w.pcs, &mut bolts, 4);
    assert_eq!((p.hp, w.o[0].hp, w.items[2]), (13, 13, 0));
    // While P is held at full health nothing is used, not even the bolt.
    player_items(demoenum::notdemo, &mut p, &mut w.o, &mut w.numobj, 18, &mut w.items, &mut w.pas, &mut w.screen, &mut w.pcs, &mut bolts, 4);
    assert_eq!((p.hp, w.items[2], bolts, w.items[3]), (13, 0, 0, 1));
    w.pcs.keydown[19] = false;
    player_items(demoenum::notdemo, &mut p, &mut w.o, &mut w.numobj, 18, &mut w.items, &mut w.pas, &mut w.screen, &mut w.pcs, &mut bolts, 4);
    assert_eq!((bolts, w.items[3], w.pcs.keydown[5]), (8, 0, false));
}

#[test]
fn missiles_fly_until_they_hit_or_leave_the_window() {
    let mut w = World::new();
    w.o[1] = slot(3, 10, 10, 1);
    let d = w.objdef[3];
    let fly = |w: &mut World, s: &mut objtype| {
        shooterthink(
            0,
            0,
            s,
            1,
            &mut w.o,
            &mut w.numobj,
            18,
            &w.objdef,
            &mut w.view,
            &mut w.bg,
            &mut w.items,
            &mut w.alt,
            &mut w.altnum,
            &mut w.flags,
            false,
            CL,
            &mut w.pas,
            &mut w.screen,
            &mut w.pcs,
        )
    };
    let mut s = mover(3, 15, 15, 1, &d);
    fly(&mut w, &mut s);
    assert_eq!((s.x, s.class), (16, 3));
    w.set(17, 15, 130);
    fly(&mut w, &mut s);
    assert_eq!((s.x, s.class), (16, 0));
    let mut far = mover(3, 30, 15, 1, &d);
    fly(&mut w, &mut far);
    assert_eq!((far.x, far.class), (30, 0));
}

const MC: MissileClasses = MissileClasses { rock: 11, bigshot: 4 };

impl World {
    fn think(&mut self, t: thinktype, obj: &mut objtype, objecton: usize) {
        monster_think(
            t,
            0,
            0,
            0,
            MC,
            obj,
            objecton,
            &mut self.o,
            &mut self.numobj,
            18,
            &self.objdef,
            &mut self.view,
            &mut self.bg,
            &mut self.items,
            &mut self.alt,
            &mut self.altnum,
            &mut self.flags,
            false,
            CL,
            &mut self.pas,
            &mut self.screen,
            &mut self.pcs,
        )
    }
}

#[test]
fn each_kind_of_object_takes_its_turn() {
    let mut w = World::new();
    w.o[1] = slot(2, 20, 10, 5);
    let d = w.objdef[2];
    // A chaser heads for the player.
    let mut m = mover(2, 20, 10, 3, &d);
    w.think(thinktype::ramstraight, &mut m, 1);
    assert_eq!((m.x, m.y), (19, 10));
    // Idle objects cycle through their stages; fading ones vanish after the last.
    let mut idle = mover(2, 5, 5, 0, &d);
    idle.stage = 1;
    w.think(thinktype::idle, &mut idle, 1);
    assert_eq!((idle.stage, idle.delay, idle.class), (0, 2, 2));
    let mut fading = mover(2, 5, 5, 0, &d);
    fading.stage = 1;
    w.think(thinktype::fade, &mut fading, 1);
    assert_eq!((fading.stage, fading.class), (2, 0));
    // A gun turret fires a big shot north.
    let mut gun = mover(18, 30, 30, 0, &d);
    gun.stage = 1;
    w.think(thinktype::gunthinks, &mut gun, 1);
    assert_eq!(gun.stage, 0);
    assert_eq!((w.o[2].class, w.o[2].dir, w.o[2].x, w.o[2].y, w.numobj), (4, 0, 30, 30, 2));
    // The player's turn is its frame, not this.
    let mut p = w.player();
    let before = (p.x, p.y, p.stage);
    w.think(thinktype::playercmd, &mut p, 0);
    assert_eq!((p.x, p.y, p.stage), before);
}

#[test]
fn gargoyles_throw_or_chase() {
    // Whatever the table says, a gargoyle either throws a rock (and waits
    // 6 frames in its throwing stage) or steps toward the player.
    for start in 0..256u16 {
        let mut w = World::new();
        w.pas.rndindex = start;
        w.o[1] = slot(2, 20, 10, 5);
        let d = w.objdef[2];
        let mut g = mover(2, 20, 10, 3, &d);
        w.think(thinktype::gargcmd, &mut g, 1);
        if g.stage == 2 {
            assert_eq!((g.delay, g.x, w.o[2].class, w.numobj), (6, 20, 11, 2));
        } else {
            assert_eq!((g.x, g.y, w.numobj), (19, 10, 1));
        }
        assert_eq!(w.pas.rndindex, (start + 1) % 256);
    }
}

impl World {
    fn active(&mut self, obj: &mut objtype, objecton: usize, priority: &[u8]) -> ActiveTurn {
        doactive(
            0,
            0,
            0,
            MC,
            priority,
            obj,
            objecton,
            &mut self.o,
            &mut self.numobj,
            18,
            &self.objdef,
            &mut self.view,
            &mut self.bg,
            &mut self.items,
            &mut self.alt,
            &mut self.altnum,
            &mut self.flags,
            false,
            CL,
            &mut self.pas,
            &mut self.screen,
            &mut self.pcs,
        )
    }
}

#[test]
fn active_objects_sleep_far_away_and_are_drawn_after_their_turn() {
    let priority = vec![0u8; 2000];
    let mut w = World::new();
    w.o[1] = slot(2, 60, 60, 5);
    w.numobj = 1;
    let d = w.objdef[2];
    // Far from the play window it goes to sleep.
    let mut m = mover(2, 60, 60, 0, &d);
    assert_eq!(w.active(&mut m, 1, &priority), ActiveTurn::Deactivated);
    assert!(!w.o[1].active);
    // A waiting object counts down and is drawn where it stands.
    let mut m = mover(2, 5, 5, 0, &d);
    m.delay = 3;
    m.firstchar = 500;
    assert_eq!(w.active(&mut m, 1, &priority), ActiveTurn::Done);
    assert_eq!((m.delay, m.oldx, m.oldy, m.oldtile), (2, 5, 5, 500));
    assert_eq!(w.view[5 * W + 5], 500);
    assert_eq!((w.o[1].x, w.o[1].delay, w.o[1].oldtile), (5, 2, 500));
    // The player's turn goes to the caller.
    let mut p = w.player();
    p.speed = 256;
    assert_eq!(w.active(&mut p, 0, &priority), ActiveTurn::PlayerTurn);
}

impl World {
    fn sweep(&mut self, from: usize, priority: &[u8]) -> Sweep {
        let mut obj = self.alt;
        doall_sweep(
            from,
            0,
            0,
            0,
            MC,
            priority,
            &mut obj,
            &mut self.o,
            &mut self.numobj,
            18,
            &self.objdef,
            &mut self.view,
            &mut self.bg,
            &mut self.items,
            &mut self.alt,
            &mut self.altnum,
            &mut self.flags,
            false,
            CL,
            &mut self.pas,
            &mut self.screen,
            &mut self.pcs,
        )
    }
}

#[test]
fn a_sweep_runs_down_the_table_to_the_players_turn() {
    let priority = vec![0u8; 2000];
    let mut w = World::new();
    w.objdef[1].speed = 256;
    let mut sleeper = slot(2, 12, 12, 5);
    sleeper.active = false;
    sleeper.dir = 3;
    w.o[1] = sleeper;
    w.numobj = 2;
    assert_eq!(w.sweep(2, &priority), Sweep::PlayerTurn { slot: 0 });
    // The sleeper near the play window woke facing north.
    assert!(w.o[1].active);
    assert_eq!(w.o[1].dir, 0);
    // Once the level is over the sweep stops after the first object.
    w.flags.leveldone = true;
    assert_eq!(w.sweep(2, &priority), Sweep::Stopped);
}

#[test]
fn the_players_command_turn_moves_then_uses_items() {
    let mut w = World::new();
    w.items[3] = 1;
    w.pcs.keydown[5] = true;
    let mut p = w.player();
    let (mut side, mut bolts, mut power) = (0, 0, 0);
    let c = ControlStruct { dir: dirtype::east, button1: false, button2: false };
    let origin = playercmdthink(
        c,
        1,
        demoenum::notdemo,
        &mut p,
        &mut w.o,
        &mut w.numobj,
        18,
        &w.objdef,
        &mut w.view,
        &mut w.bg,
        &mut w.items,
        &mut w.alt,
        &mut w.altnum,
        &mut w.flags,
        false,
        CL,
        &mut w.pas,
        &mut w.screen,
        &mut w.pcs,
        &mut side,
        &mut bolts,
        &mut power,
        3,
        4,
    );
    assert_eq!((p.x, origin), (11, (0, -1)));
    assert_eq!((bolts, w.items[3], w.pcs.keydown[5]), (8, 0, false));
}

#[test]
fn level_play_begins_afresh() {
    let mut w = World::new();
    w.flags.leveldone = true;
    w.flags.won = true;
    w.pas.rndindex = 77;
    let (mut frameon, mut bolts, mut power) = (9u16, 3, 5);
    begin_level_play(&mut w.flags, &mut frameon, &mut bolts, &mut power, &mut w.pas, &mut w.screen, &mut w.pcs);
    assert_eq!((w.flags.leveldone, w.flags.playdone, w.flags.won), (false, false, true));
    assert_eq!((frameon, bolts, power, w.pas.rndindex), (0, 0, 0, 0));
    assert_eq!(char_at(&w.screen, 25, 13), 127);
    assert_eq!((w.pcs.sx, w.pcs.sy), (38, 13));
}
