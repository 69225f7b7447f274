//! The player's frame: its shooting, and the whole of what it does with its
//! controls in a frame (see `player_frame`).
use vstd::prelude::*;

use crate::catacomb_ii::active_obj::activeobj;
use crate::catacomb_ii::cat_play::new_slot;
use crate::catacomb_ii::contact::PlayFlags;
use crate::catacomb_ii::control_struct::ControlStruct;
use crate::catacomb_ii::inventory::{
    asked_sound, can_ask_sound, castbolt, gave_picture, givekey, givepotion, givescroll, one_more, takepotion,
    took_picture, BOLTS, KEYS, NUKES, POTIONS,
};
use crate::catacomb_ii::movement::{item_key, item_key_spec, ItemKey};
use crate::catacomb_ii::score_screen::body_meter;
use crate::catacomb_ii::shots::{castnuke, nuke_base, nuke_table};
use crate::catacomb_ii::obj_def_type::objdeftype;
use crate::catacomb_ii::pcrlib_a::{initrndt, rndtable};
use crate::catacomb_ii::demo_enum::demoenum;
use crate::catacomb_ii::scan_codes::{SDL_SCANCODE_C, SDL_SCANCODE_Q, SDL_SCANCODE_SPACE, SDL_SCANCODE_T, SDL_SCANCODE_TAB};
use crate::catacomb_ii::text_window::draw_ok;
use crate::catacomb_ii::walking::{
    player_walk, player_walk_ok, player_walk_result, walker, with_walker, WalkClasses, WalkState,
};
use crate::catacomb_ii::movement::{charge_shot, charge_shot_spec, ShotFired};
use crate::catacomb_ii::obj_type::objtype;
use crate::catacomb_ii::pcrlib_a_state::PcrlibAState;
use crate::catacomb_ii::pcrlib_c_state::PcrlibCState;
use crate::catacomb_ii::score_screen::{printshotpower, shotpower_meter};
use crate::catacomb_ii::shots::{count_after, launched, playbigshoot, playshoot, table_ok};
use crate::catacomb_ii::text_window::{chars_drawn, draws_ok, plain_run};

verus! {

/// The state the player's shooting reads and changes: its record, the side
/// its next small shot comes from, the object table and count, the sound
/// state, the screen, the text state, the bolts still to fly and the power
/// charged.
pub type ShootState = (objtype, i32, Seq<activeobj>, int, PcrlibAState, Seq<u8>, PcrlibCState, i32, i32);

/// The table after the player (record `obj`) fires a big shot of class
/// `bigshot` from its own cell, in the slot `newobject` takes.
pub open spec fn big_shot_table(o: Seq<activeobj>, numobj: int, maxobj: int, obj: objtype, bigshot: u16) -> Seq<
    activeobj,
> {
    let n = new_slot(o, numobj, maxobj);
    o.update(
        n,
        activeobj {
            active: true,
            class: bigshot,
            x: obj.x,
            y: obj.y,
            stage: 0,
            delay: 0,
            dir: obj.dir,
            oldtile: -1i16,
            oldx: 0,
            oldy: 0,
            ..o[n]
        },
    )
}

/// The table after the player (record `obj`) fires a small shot of class
/// `shot` from side `side` (see `launched`).
pub open spec fn small_shot_table(o: Seq<activeobj>, numobj: int, maxobj: int, obj: objtype, side: i32, shot: u16) -> Seq<
    activeobj,
> {
    let n = new_slot(o, numobj, maxobj);
    o.update(
        n,
        launched(activeobj { oldtile: -1i16, oldx: 0u8, oldy: 0u8, ..o[n] }, shot, obj.dir, obj.x, obj.y, side as int, 1),
    )
}

/// The state after a frame of the player's shooting with the fire button
/// `button1` on frame `frameon` (see `charge_shot_spec`): a big shot (see
/// `playbigshoot`, sound 4) or a small one (see `playshoot`, sound 5, from
/// the other side) goes off as it says, and the power meter is drawn at
/// column 25 of row 13 when it says so.
pub open spec fn shoot_result(
    s: ShootState,
    button1: bool,
    frameon: u16,
    maxobj: int,
    shot: u16,
    bigshot: u16,
) -> ShootState {
    let (obj, side, o, numobj, pas, screen, pcs, boltsleft, shotpower) = s;
    let ch = charge_shot_spec(boltsleft, shotpower, button1, frameon);
    let (obj2, side2, o2, n2, pas2) = match ch.fired {
        ShotFired::NoShot => (obj, side, o, numobj, pas),
        ShotFired::BigShot => (
            objtype { stage: 2, delay: if boltsleft == 0 { 4 } else { obj.delay }, ..obj },
            side,
            big_shot_table(o, numobj, maxobj, obj, bigshot),
            count_after(o, numobj, maxobj),
            asked_sound(pas, 4),
        ),
        ShotFired::Shot => (
            objtype { stage: 2, delay: 4, ..obj },
            (1 - side) as i32,
            small_shot_table(o, numobj, maxobj, obj, (1 - side) as i32, shot),
            count_after(o, numobj, maxobj),
            asked_sound(pas, 5),
        ),
    };
    let (screen2, pcs2) = if ch.meter {
        (
            chars_drawn(screen, pcs, plain_run(25, 13, shotpower_meter(ch.shotpower as int)@)),
            PcrlibCState { sx: 38, sy: 13, ..pcs },
        )
    } else {
        (screen, pcs)
    };
    (obj2, side2, o2, n2, pas2, screen2, pcs2, ch.boltsleft, ch.shotpower)
}

/// What a frame of shooting needs: a power of 0 to 13, a side of 0 or 1;
/// for a shot, room in the object table and its sound; for the meter, its
/// place on the screen.
pub open spec fn shoot_ok(s: ShootState, button1: bool, frameon: u16, maxobj: int) -> bool {
    let (obj, side, o, numobj, pas, screen, pcs, boltsleft, shotpower) = s;
    let ch = charge_shot_spec(boltsleft, shotpower, button1, frameon);
    &&& 0 <= shotpower <= 13
    &&& 0 <= side <= 1
    &&& ch.fired != ShotFired::NoShot ==> table_ok(o, numobj, maxobj)
    &&& ch.fired == ShotFired::BigShot ==> can_ask_sound(pas, 4)
    &&& ch.fired == ShotFired::Shot ==> can_ask_sound(pas, 5)
    &&& ch.meter ==> draws_ok(screen.len() as int, pcs, plain_run(25, 13, shotpower_meter(ch.shotpower as int)@))
}

/// A frame of the player's shooting (see `shoot_result`).
pub fn player_shoot(
    button1: bool,
    frameon: u16,
    obj: &mut objtype,
    side: &mut i32,
    o: &mut [activeobj],
    numobj: &mut i32,
    maxobj: i32,
    pas: &mut PcrlibAState,
    screen: &mut [u8],
    pcs: &mut PcrlibCState,
    boltsleft: &mut i32,
    shotpower: &mut i32,
    shot: u16,
    bigshot: u16,
)
    requires
        shoot_ok(
            (*old(obj), *old(side), old(o)@, *old(numobj) as int, *old(pas), old(screen)@, *old(pcs), *old(boltsleft), *old(shotpower)),
            button1,
            frameon,
            maxobj as int,
        ),
    ensures
        (*final(obj), *final(side), final(o)@, *final(numobj) as int, *final(pas), final(screen)@, *final(pcs), *final(boltsleft), *final(shotpower))
            == shoot_result(
            (*old(obj), *old(side), old(o)@, *old(numobj) as int, *old(pas), old(screen)@, *old(pcs), *old(boltsleft), *old(shotpower)),
            button1,
            frameon,
            maxobj as int,
            shot,
            bigshot,
        ),
{
    let ch = charge_shot(*boltsleft, *shotpower, button1, frameon);
    match ch.fired {
        ShotFired::BigShot => {
            playbigshoot(obj, *boltsleft, o, numobj, maxobj, pas, bigshot);
        },
        ShotFired::Shot => {
            playshoot(obj, side, o, numobj, maxobj, pas, shot);
        },
        ShotFired::NoShot => {},
    }
    *boltsleft = ch.boltsleft;
    *shotpower = ch.shotpower;
    if ch.meter {
        printshotpower(ch.shotpower, screen, pcs);
    }
}

/// The items, screen and sound state after the cheat that gives a potion,
/// a scroll (a bolt or a nuke, as the next number of the table sequence
/// says: see `givescroll`) and a key, in that order.
pub open spec fn gifts(items: Seq<i16>, screen: Seq<u8>, pas: PcrlibAState, pcs: PcrlibCState) -> (
    Seq<i16>,
    Seq<u8>,
    PcrlibAState,
) {
    let items1 = items.update(POTIONS as int, one_more(items[POTIONS as int]));
    let screen1 = gave_picture(screen, pcs, items[POTIONS as int] + 1, 8, 29);
    let pas1 = PcrlibAState { rndindex: ((pas.rndindex + 1) % 256) as u16, ..pas };
    let (items2, screen2) = if rndtable@[pas1.rndindex as int] < 128 {
        (
            items1.update(BOLTS as int, one_more(items1[BOLTS as int])),
            gave_picture(screen1, pcs, items1[BOLTS as int] + 1, 9, 30),
        )
    } else {
        (
            items1.update(NUKES as int, one_more(items1[NUKES as int])),
            gave_picture(screen1, pcs, items1[NUKES as int] + 1, 10, 30),
        )
    };
    (
        items2.update(KEYS as int, one_more(items2[KEYS as int])),
        gave_picture(screen2, pcs, items2[KEYS as int] + 1, 7, 31),
        pas1,
    )
}

/// The state a player's frame reads and changes: that of walking, the side
/// of its next small shot, the bolts still to fly and the power charged.
pub type FrameState = (WalkState, i32, i32, i32);

/// Whether the cheat that gives items is held: both buttons and Q.
pub open spec fn gift_cheat(c: ControlStruct, pcs: PcrlibCState) -> bool {
    c.button1 && c.button2 && pcs.keydown@[SDL_SCANCODE_Q as int]
}

/// The walking state once the gift cheat is applied, if held, to the
/// player back in its walking picture.
pub open spec fn frame_start(st: WalkState, c: ControlStruct) -> WalkState {
    let obj = walker(st);
    let st0 = with_walker(st, objtype { stage: obj.stage & 1u8, ..obj });
    let (is, view, bg, numobj, items) = st0;
    let (o0, alt, altnum, flags, tab, pas, screen, pcs) = is;
    if gift_cheat(c, pcs) {
        let (items1, screen1, pas1) = gifts(items, screen, pas, pcs);
        ((o0, alt, altnum, flags, tab, pas1, screen1, pcs), view, bg, numobj, items1)
    } else {
        st0
    }
}

/// The shooting state of a walking state and the shot values.
pub open spec fn shoot_part(st: WalkState, side: i32, boltsleft: i32, shotpower: i32) -> ShootState {
    (walker(st), side, st.0.4, st.3, st.0.5, st.0.6, st.0.7, boltsleft, shotpower)
}

/// The player's frame with controls `c` on frame `frameon`: back in its
/// walking picture; the gift cheat (see `gifts`) when held; its steps (see
/// `player_walk_result`); the play window's top-left cell 11 cells up and
/// left of where it then stands; and its shooting (see `shoot_result`).
/// Returns the state and the play window's top-left cell.
pub open spec fn frame_result(
    fs: FrameState,
    c: ControlStruct,
    frameon: u16,
    objecton: int,
    maxobj: int,
    objdef: Seq<objdeftype>,
    godmode: bool,
    cl: WalkClasses,
    shot: u16,
    bigshot: u16,
) -> (FrameState, (int, int)) {
    let (st, side, boltsleft, shotpower) = fs;
    let st1 = frame_start(st, c);
    let st2 = player_walk_result(st1, c.dir, c.button2, frameon, objecton, maxobj, objdef, godmode, cl);
    let origin = (walker(st2).x - 11, walker(st2).y - 11);
    let sh = shoot_result(shoot_part(st2, side, boltsleft, shotpower), c.button1, frameon, maxobj, shot, bigshot);
    let (is, view, bg, numobj, items) = st2;
    let (o0, alt, altnum, flags, tab, pas, screen, pcs) = is;
    ((((sh.0, alt, altnum, flags, sh.2, sh.4, sh.5, sh.6), view, bg, sh.3, items), sh.1, sh.7, sh.8), origin)
}

/// What a player's frame needs: the key table holds Q; for the gift cheat,
/// the item slots and their pictures' places; then what its steps and its
/// shooting need (see `player_walk_ok` and `shoot_ok`).
pub open spec fn frame_ok(
    fs: FrameState,
    c: ControlStruct,
    frameon: u16,
    objecton: int,
    maxobj: int,
    objdef: Seq<objdeftype>,
    godmode: bool,
    cl: WalkClasses,
) -> bool {
    let (st, side, boltsleft, shotpower) = fs;
    let items = st.4;
    let pcs = st.0.7;
    let slen = st.0.6.len() as int;
    let st1 = frame_start(st, c);
    let st2 = player_walk_result(st1, c.dir, c.button2, frameon, objecton, maxobj, objdef, godmode, cl);
    &&& pcs.keydown@.len() > SDL_SCANCODE_Q
    &&& gift_cheat(c, pcs) ==> {
        &&& NUKES < items.len()
        &&& items[POTIONS as int] + 1 < 11 ==> draw_ok(slen, pcs, (26 + items[POTIONS as int] + 1, 8, 29))
        &&& items[BOLTS as int] + 1 < 11 ==> draw_ok(slen, pcs, (26 + items[BOLTS as int] + 1, 9, 30))
        &&& items[NUKES as int] + 1 < 11 ==> draw_ok(slen, pcs, (26 + items[NUKES as int] + 1, 10, 30))
        &&& items[KEYS as int] + 1 < 11 ==> draw_ok(slen, pcs, (26 + items[KEYS as int] + 1, 7, 31))
    }
    &&& player_walk_ok(st1, c.dir, frameon, objecton, maxobj, objdef, godmode, cl)
    &&& shoot_ok(shoot_part(st2, side, boltsleft, shotpower), c.button1, frameon, maxobj)
}

/// The player's frame (see `frame_result`): returns the play window's new
/// top-left cell. What follows in the frame, the item keys, the function
/// keys and the cheats, is the caller's next step.
pub fn player_frame(
    c: ControlStruct,
    frameon: u16,
    obj: &mut objtype,
    objecton: usize,
    o: &mut [activeobj],
    numobj: &mut i32,
    maxobj: i32,
    objdef: &[objdeftype],
    view: &mut [i32],
    background: &mut [i32],
    items: &mut [i16],
    alt: &mut objtype,
    altnum: &mut usize,
    flags: &mut PlayFlags,
    godmode: bool,
    cl: WalkClasses,
    pas: &mut PcrlibAState,
    screen: &mut [u8],
    pcs: &mut PcrlibCState,
    side: &mut i32,
    boltsleft: &mut i32,
    shotpower: &mut i32,
    shot: u16,
    bigshot: u16,
) -> (origin: (i32, i32))
    requires
        frame_ok(
            (((*old(obj), *old(alt), *old(altnum) as int, *old(flags), old(o)@, *old(pas), old(screen)@, *old(pcs)), old(view)@, old(background)@, *old(numobj) as int, old(items)@), *old(side), *old(boltsleft), *old(shotpower)),
            c,
            frameon,
            objecton as int,
            maxobj as int,
            objdef@,
            godmode,
            cl,
        ),
    ensures
        (
            (((*final(obj), *final(alt), *final(altnum) as int, *final(flags), final(o)@, *final(pas), final(screen)@, *final(pcs)), final(view)@, final(background)@, *final(numobj) as int, final(items)@), *final(side), *final(boltsleft), *final(shotpower)),
            (origin.0 as int, origin.1 as int),
        ) == frame_result(
            (((*old(obj), *old(alt), *old(altnum) as int, *old(flags), old(o)@, *old(pas), old(screen)@, *old(pcs)), old(view)@, old(background)@, *old(numobj) as int, old(items)@), *old(side), *old(boltsleft), *old(shotpower)),
            c,
            frameon,
            objecton as int,
            maxobj as int,
            objdef@,
            godmode,
            cl,
            shot,
            bigshot,
        ),
{
    obj.stage = obj.stage & 1;
    if c.button1 && c.button2 && pcs.keydown[SDL_SCANCODE_Q as usize] {
        let ghost i0 = items@;
        let ghost s0 = screen@;
        givepotion(items, screen, pcs);
        givescroll(items, pas, screen, pcs);
        givekey(items, screen, pcs);
        proof {
            let (gi, gs, gp) = gifts(i0, s0, *old(pas), *pcs);
            assert(items@ =~= gi);
            assert(screen@ =~= gs);
        }
    }
    player_walk(
        c.dir,
        c.button2,
        frameon,
        obj,
        objecton,
        o,
        numobj,
        maxobj,
        objdef,
        view,
        background,
        items,
        alt,
        altnum,
        flags,
        godmode,
        cl,
        pas,
        screen,
        pcs,
    );
    let origin: (i32, i32) = (obj.x as i32 - 11, obj.y as i32 - 11);
    player_shoot(c.button1, frameon, obj, side, o, numobj, maxobj, pas, screen, pcs, boltsleft, shotpower, shot, bigshot);
    origin
}

/// What the end of the player's frame asks of the caller once the function
/// keys are handled.
#[derive(Clone, Copy, Debug, PartialEq, Eq, Structural)]
pub enum FrameEnd {
    /// The game was reset: play is over.
    Reset,
    /// In earnest play: the cheats held, to ask for a level to warp to, and
    /// to turn god mode over.
    Cheats { warp: bool, godmode: bool },
    /// In a demo: the controls are read again to see whether the player
    /// takes over (see `demo_exit`).
    DemoCheck,
    /// Nothing more (recording a demo).
    Done,
}

/// The end of the player's frame (see `FrameEnd`): a reset first; in
/// earnest play C and T with space ask for a warp, with tab turn god mode
/// over.
pub open spec fn frame_end_spec(indemo: demoenum, resetgame: bool, keys: Seq<bool>) -> FrameEnd {
    let ct = keys[SDL_SCANCODE_C as int] && keys[SDL_SCANCODE_T as int];
    if resetgame {
        FrameEnd::Reset
    } else {
        match indemo {
            demoenum::notdemo => FrameEnd::Cheats {
                warp: ct && keys[SDL_SCANCODE_SPACE as int],
                godmode: ct && keys[SDL_SCANCODE_TAB as int],
            },
            demoenum::demoplay => FrameEnd::DemoCheck,
            demoenum::recording => FrameEnd::Done,
        }
    }
}

/// The end of the player's frame (see `frame_end_spec`).
pub fn frame_end(indemo: demoenum, resetgame: bool, keydown: &Vec<bool>) -> (r: FrameEnd)
    requires
        keydown@.len() > SDL_SCANCODE_SPACE,
    ensures
        r == frame_end_spec(indemo, resetgame, keydown@),
{
    if resetgame {
        return FrameEnd::Reset;
    }
    match indemo {
        demoenum::notdemo => {
            let ct = keydown[SDL_SCANCODE_C as usize] && keydown[SDL_SCANCODE_T as usize];
            FrameEnd::Cheats {
                warp: ct && keydown[SDL_SCANCODE_SPACE as usize],
                godmode: ct && keydown[SDL_SCANCODE_TAB as usize],
            }
        },
        demoenum::demoplay => FrameEnd::DemoCheck,
        demoenum::recording => FrameEnd::Done,
    }
}

/// Whether the player takes over from a demo: fire, the second button or
/// space.
pub fn demo_exit(c: ControlStruct, space: bool) -> (r: bool)
    ensures
        r == (c.button1 || c.button2 || space),
{
    c.button1 || c.button2 || space
}

/// The level a warp goes to for the number typed: its low 16 bits, kept
/// between 1 and 30.
pub fn warp_target(value: u32) -> (r: i16)
    ensures
        r == if (value as i16) < 1 {
            1
        } else if (value as i16) > 30 {
            30
        } else {
            value as i16
        },
        1 <= r <= 30,
{
    let level: i16 = #[verifier::truncate] (value as i16);
    if level < 1 {
        1
    } else if level > 30 {
        30
    } else {
        level
    }
}

/// The state the player's items read and change: its record, the object
/// table and count, the item counts, the sound state, the screen, the text
/// state and the bolts still to fly.
pub type ItemState = (objtype, Seq<activeobj>, int, Seq<i16>, PcrlibAState, Seq<u8>, PcrlibCState, i32);

/// The state after the player uses item `k`, if any (see `takepotion`,
/// `castbolt` and `castnuke`): with one left, a potion brings it (and its
/// slot 0 in the table) back to 13 hit points, a bolt scroll sets eight
/// bolts flying, a nuke scroll sends out twelve big shots of class
/// `bigshot`; without one, sound 14.
pub open spec fn use_result(s: ItemState, k: Option<ItemKey>, maxobj: int, bigshot: u16) -> ItemState {
    let (obj, o, numobj, items, pas, screen, pcs, boltsleft) = s;
    match k {
        None => s,
        Some(ItemKey::Potion) => if items[POTIONS as int] > 0 {
            (
                objtype { hp: 13, ..obj },
                o.update(0, activeobj { hp: 13, ..o[0] }),
                numobj,
                items.update(POTIONS as int, (items[POTIONS as int] - 1) as i16),
                asked_sound(pas, 12),
                chars_drawn(
                    took_picture(screen, pcs, items[POTIONS as int] - 1, 8, 11),
                    pcs,
                    plain_run(25, 16, body_meter(13)@),
                ),
                PcrlibCState { sx: 38, sy: 16, ..pcs },
                boltsleft,
            )
        } else {
            (obj, o, numobj, items, asked_sound(pas, 14), screen, pcs, boltsleft)
        },
        Some(ItemKey::Bolt) => if items[BOLTS as int] > 0 {
            (
                obj,
                o,
                numobj,
                items.update(BOLTS as int, (items[BOLTS as int] - 1) as i16),
                asked_sound(pas, 13),
                took_picture(screen, pcs, items[BOLTS as int] - 1, 9, 11),
                pcs,
                8,
            )
        } else {
            (obj, o, numobj, items, asked_sound(pas, 14), screen, pcs, boltsleft)
        },
        Some(ItemKey::Nuke) => if items[NUKES as int] > 0 {
            let t = nuke_table(o, numobj, maxobj, nuke_base(obj, bigshot), 12);
            (
                objtype { stage: 2, delay: 4, ..obj },
                t.0,
                t.1,
                items.update(NUKES as int, (items[NUKES as int] - 1) as i16),
                asked_sound(pas, 13),
                took_picture(screen, pcs, items[NUKES as int] - 1, 10, 11),
                pcs,
                boltsleft,
            )
        } else {
            (obj, o, numobj, items, asked_sound(pas, 14), screen, pcs, boltsleft)
        },
    }
}

/// What using item `k` needs: the item slots, a table with a player slot,
/// and for the item used, its sound and picture's place (and the body
/// meter's for a potion, room for twelve shots for a nuke).
pub open spec fn use_ok(s: ItemState, k: Option<ItemKey>, maxobj: int) -> bool {
    let (obj, o, numobj, items, pas, screen, pcs, boltsleft) = s;
    let slen = screen.len() as int;
    &&& NUKES < items.len()
    &&& o.len() > 0
    &&& match k {
        None => true,
        Some(ItemKey::Potion) => {
            &&& items[POTIONS as int] > 0 ==> {
                &&& can_ask_sound(pas, 12)
                &&& items[POTIONS as int] - 1 < 11 ==> draw_ok(slen, pcs, (27 + items[POTIONS as int] - 1, 8, 32))
                &&& draws_ok(slen, pcs, plain_run(25, 16, body_meter(13)@))
            }
            &&& items[POTIONS as int] <= 0 ==> can_ask_sound(pas, 14)
        },
        Some(ItemKey::Bolt) => {
            &&& items[BOLTS as int] > 0 ==> can_ask_sound(pas, 13)
            &&& items[BOLTS as int] <= 0 ==> can_ask_sound(pas, 14)
            &&& 0 < items[BOLTS as int] && items[BOLTS as int] - 1 < 11 ==> draw_ok(slen, pcs, (27 + items[BOLTS as int] - 1, 9, 32))
        },
        Some(ItemKey::Nuke) => {
            &&& items[NUKES as int] >= 0
            &&& items[NUKES as int] > 0 ==> can_ask_sound(pas, 13)
            &&& items[NUKES as int] == 0 ==> can_ask_sound(pas, 14)
            &&& 0 < items[NUKES as int] && items[NUKES as int] - 1 < 11 ==> draw_ok(slen, pcs, (27 + items[NUKES as int] - 1, 10, 32))
            &&& items[NUKES as int] > 0 ==> 0 <= numobj < o.len() && maxobj < o.len()
        },
    }
}

/// The item the player uses this frame: in earnest play, the one the keys
/// held name (see `item_key_spec`), with its keys released; in a demo,
/// none. Returns it and the keys after.
pub open spec fn frame_item(indemo: demoenum, keys: Seq<bool>, hp: i8) -> (Option<ItemKey>, Seq<bool>) {
    if indemo == demoenum::notdemo {
        item_key_spec(keys, hp)
    } else {
        (None, keys)
    }
}

/// The player (`obj`, slot 0 of the table) uses the item its keys name, in
/// earnest play (see `frame_item` and `use_result`).
pub fn player_items(
    indemo: demoenum,
    obj: &mut objtype,
    o: &mut [activeobj],
    numobj: &mut i32,
    maxobj: i32,
    items: &mut [i16],
    pas: &mut PcrlibAState,
    screen: &mut [u8],
    pcs: &mut PcrlibCState,
    boltsleft: &mut i32,
    bigshot: u16,
)
    requires
        old(pcs).keydown@.len() > SDL_SCANCODE_SPACE,
        ({
            let (k, keys) = frame_item(indemo, old(pcs).keydown@, old(obj).hp);
            use_ok((*old(obj), old(o)@, *old(numobj) as int, old(items)@, *old(pas), old(screen)@, *old(pcs), *old(boltsleft)), k, maxobj as int)
        }),
    ensures
        ({
            let (k, keys) = frame_item(indemo, old(pcs).keydown@, old(obj).hp);
            &&& final(pcs).keydown@ == keys
            &&& (*final(obj), final(o)@, *final(numobj) as int, final(items)@, *final(pas), final(screen)@, *final(pcs), *final(boltsleft))
                == use_result(
                (*old(obj), old(o)@, *old(numobj) as int, old(items)@, *old(pas), old(screen)@, PcrlibCState { keydown: final(pcs).keydown, ..*old(pcs) }, *old(boltsleft)),
                k,
                maxobj as int,
                bigshot,
            )
        }),
{
    if indemo != demoenum::notdemo {
        return;
    }
    let k = item_key(&mut pcs.keydown, obj.hp);
    match k {
        None => {},
        Some(ItemKey::Potion) => {
            let mut h0: i8 = o[0].hp;
            let mut h1: i8 = obj.hp;
            takepotion(items, &mut h0, &mut h1, pas, screen, pcs);
            o[0].hp = h0;
            obj.hp = h1;
        },
        Some(ItemKey::Bolt) => {
            castbolt(items, boltsleft, pas, screen, pcs);
        },
        Some(ItemKey::Nuke) => {
            castnuke(items, obj, o, numobj, maxobj, pas, screen, pcs, bigshot);
        },
    }
}

/// The item state of a player's frame state.
pub open spec fn item_part(fs: FrameState) -> ItemState {
    let (st, side, boltsleft, shotpower) = fs;
    (walker(st), st.0.4, st.3, st.4, st.0.5, st.0.6, st.0.7, boltsleft)
}

/// The player's command turn up to the function keys: its frame (see
/// `frame_result`), then the item its keys name (see `frame_item` and
/// `use_result`). The function keys (see `dofkeys_step`) and the end of
/// the frame (see `frame_end`) follow.
pub fn playercmdthink(
    c: ControlStruct,
    frameon: u16,
    indemo: demoenum,
    obj: &mut objtype,
    o: &mut [activeobj],
    numobj: &mut i32,
    maxobj: i32,
    objdef: &[objdeftype],
    view: &mut [i32],
    background: &mut [i32],
    items: &mut [i16],
    alt: &mut objtype,
    altnum: &mut usize,
    flags: &mut PlayFlags,
    godmode: bool,
    cl: WalkClasses,
    pas: &mut PcrlibAState,
    screen: &mut [u8],
    pcs: &mut PcrlibCState,
    side: &mut i32,
    boltsleft: &mut i32,
    shotpower: &mut i32,
    shot: u16,
    bigshot: u16,
) -> (origin: (i32, i32))
    requires
        frame_ok(
            (((*old(obj), *old(alt), *old(altnum) as int, *old(flags), old(o)@, *old(pas), old(screen)@, *old(pcs)), old(view)@, old(background)@, *old(numobj) as int, old(items)@), *old(side), *old(boltsleft), *old(shotpower)),
            c,
            frameon,
            0,
            maxobj as int,
            objdef@,
            godmode,
            cl,
        ),
        ({
            let (fs, org) = frame_result(
                (((*old(obj), *old(alt), *old(altnum) as int, *old(flags), old(o)@, *old(pas), old(screen)@, *old(pcs)), old(view)@, old(background)@, *old(numobj) as int, old(items)@), *old(side), *old(boltsleft), *old(shotpower)),
                c,
                frameon,
                0,
                maxobj as int,
                objdef@,
                godmode,
                cl,
                shot,
                bigshot,
            );
            let is = item_part(fs);
            let (k, keys) = frame_item(indemo, is.6.keydown@, is.0.hp);
            &&& is.6.keydown@.len() > SDL_SCANCODE_SPACE
            &&& use_ok(is, k, maxobj as int)
        }),
    ensures
        ({
            let (fs, org) = frame_result(
                (((*old(obj), *old(alt), *old(altnum) as int, *old(flags), old(o)@, *old(pas), old(screen)@, *old(pcs)), old(view)@, old(background)@, *old(numobj) as int, old(items)@), *old(side), *old(boltsleft), *old(shotpower)),
                c,
                frameon,
                0,
                maxobj as int,
                objdef@,
                godmode,
                cl,
                shot,
                bigshot,
            );
            let is = item_part(fs);
            let (k, keys) = frame_item(indemo, is.6.keydown@, is.0.hp);
            &&& (origin.0 as int, origin.1 as int) == org
            &&& final(pcs).keydown@ == keys
            &&& (*final(obj), final(o)@, *final(numobj) as int, final(items)@, *final(pas), final(screen)@, *final(pcs), *final(boltsleft))
                == use_result((is.0, is.1, is.2, is.3, is.4, is.5, PcrlibCState { keydown: final(pcs).keydown, ..is.6 }, is.7), k, maxobj as int, bigshot)
            &&& (*final(alt), *final(altnum) as int, *final(flags), final(view)@, final(background)@, *final(side), *final(shotpower))
                == (fs.0.0.1, fs.0.0.2, fs.0.0.3, fs.0.1, fs.0.2, fs.1, fs.3)
        }),
{
    let origin = player_frame(
        c,
        frameon,
        obj,
        0,
        o,
        numobj,
        maxobj,
        objdef,
        view,
        background,
        items,
        alt,
        altnum,
        flags,
        godmode,
        cl,
        pas,
        screen,
        pcs,
        side,
        boltsleft,
        shotpower,
        shot,
        bigshot,
    );
    player_items(indemo, obj, o, numobj, maxobj, items, pas, screen, pcs, boltsleft, bigshot);
    origin
}

/// Play of a level begins: the level and the game are not over, the frame
/// count, bolts and shot power go back to 0, the table sequence back to its
/// start, and the empty power meter is drawn.
pub fn begin_level_play(
    flags: &mut PlayFlags,
    frameon: &mut u16,
    boltsleft: &mut i32,
    shotpower: &mut i32,
    pas: &mut PcrlibAState,
    screen: &mut [u8],
    pcs: &mut PcrlibCState,
)
    requires
        draws_ok(old(screen)@.len() as int, *old(pcs), plain_run(25, 13, shotpower_meter(0)@)),
    ensures
        *final(flags) == (PlayFlags { leveldone: false, playdone: false, ..*old(flags) }),
        *final(frameon) == 0,
        *final(boltsleft) == 0,
        *final(shotpower) == 0,
        *final(pas) == (PcrlibAState { rndindex: 0, ..*old(pas) }),
        final(screen)@ == chars_drawn(old(screen)@, *old(pcs), plain_run(25, 13, shotpower_meter(0)@)),
        *final(pcs) == (PcrlibCState { sx: 38, sy: 13, ..*old(pcs) }),
{
    flags.leveldone = false;
    flags.playdone = false;
    *frameon = 0;
    *boltsleft = 0;
    *shotpower = 0;
    initrndt(false, pas);
    printshotpower(0, screen, pcs);
}

} // verus!
