//! Moving objects through the level: what an object meets in a cell it
//! steps into (`walkthrough`), the one-cell step itself (`walk`), and the
//! monsters that chase the player (`chasethink`) and the player's own
//! steps (`player_walk`), and the straight flight of missiles
//! (`shooterthink`), and the monsters that throw or chase (`throwerthink`).
use vstd::prelude::*;

use crate::catacomb_ii::active_obj::activeobj;
use crate::catacomb_ii::cat_play::{cell, door_ok, in_map, newobject, new_slot, opendoor, opened, VDOOR_TILE};
use crate::catacomb_ii::catasm::VIEW_STRIDE;
use crate::catacomb_ii::dir_type::dirtype;
use crate::catacomb_ii::movement::{
    chase_first, chase_first_spec, chase_sweep, chase_sweep_spec, facing, player_move, player_steps_spec, walk_cell,
    walk_plan, walk_plan_of, WalkPlan,
};
use crate::catacomb_ii::contact::{
    intomonster, into_ok, into_result, with_class, with_instance, ContactClasses, IntoState, PlayFlags, MSHOT, NUKESHOT,
    PSHOT,
};
use crate::catacomb_ii::inventory::{
    ask_sound, asked_sound, can_ask_sound, gave_picture, givekey, givepotion, givescroll, one_more,
    takekey, took_picture, BOLTS, KEYS, NUKES, POTIONS,
};
use crate::catacomb_ii::obj_def_type::objdeftype;
use crate::catacomb_ii::obj_type::objtype;
use crate::catacomb_ii::pcrlib_a::rndtable;
use crate::catacomb_ii::pcrlib_a_state::PcrlibAState;
use crate::catacomb_ii::pcrlib_c_state::PcrlibCState;
use crate::catacomb_ii::score_screen::printscore;
use crate::catacomb_ii::shots::{
    blast, blast_ok, count_after, crumbled, dragonthink, explodethink, gargthink, gunthink, launched, table_ok,
};
use crate::catacomb_ii::cat_play::{doinactive, fadethink, idlethink, near_window, next_stage};
use crate::catacomb_ii::think_type::thinktype;
use crate::catacomb_ii::catasm::{drawn_view, drawobj, erased_view, eraseobj, obj_base, shape_tile, square_fits, in_square};
use crate::catacomb_ii::movement::{think_gate, think_of};
use crate::catacomb_ii::text_window::{chars_drawn, draw_ok, draws_ok, plain_run};
use crate::int_math::decimal_text;

verus! {

/// The classes walking depends on: those of contact, and the flash left
/// where a shot hits a wall.
#[derive(Clone, Copy, Debug)]
pub struct WalkClasses {
    pub contact: ContactClasses,
    pub wallhit: u16,
}

/// The highest tile of a monster in the view.
pub const LAST_MONSTER_TILE: i32 = 1618;

/// The state walking reads and changes: that of contact (see `IntoState`),
/// the view, the background, the object count and the item counts.
pub type WalkState = (IntoState, Seq<i32>, Seq<i32>, int, Seq<i16>);

/// The table after a short-lived object of class `class` is put at (x, y)
/// in the slot `newobject` takes: active, stage 0, 2 frames a stage, not
/// yet drawn.
pub open spec fn spawned(o: Seq<activeobj>, numobj: int, maxobj: int, class: u16, x: int, y: int) -> Seq<
    activeobj,
> {
    let n = new_slot(o, numobj, maxobj);
    o.update(
        n,
        activeobj {
            active: true,
            x: x as u8,
            y: y as u8,
            stage: 0,
            delay: 2,
            class,
            oldtile: -1i16,
            oldx: 0,
            oldy: 0,
            ..o[n]
        },
    )
}

/// Puts a short-lived object of class `class` at (x, y) (see `spawned`).
fn spawn(o: &mut [activeobj], numobj: &mut i32, maxobj: i32, class: u16, x: i32, y: i32)
    requires
        table_ok(old(o)@, *old(numobj) as int, maxobj as int),
    ensures
        final(o)@ == spawned(old(o)@, *old(numobj) as int, maxobj as int, class, x as int, y as int),
        *final(numobj) == count_after(old(o)@, *old(numobj) as int, maxobj as int),
{
    let n = newobject(o, numobj, maxobj) as usize;
    o[n].active = true;
    o[n].x = x as u8;
    o[n].y = y as u8;
    o[n].stage = 0;
    o[n].delay = 2;
    o[n].class = class;
    assert(o@ =~= spawned(old(o)@, *old(numobj) as int, maxobj as int, class, x as int, y as int));
}

/// Whether an object with contact `contact` is a shot that flashes on a
/// wall.
pub open spec fn hits_wall(contact: u8) -> bool {
    contact == PSHOT || contact == NUKESHOT || contact == MSHOT
}

/// Whether an object with contact `contact` breaks crumbling walls.
pub open spec fn breaks_wall(contact: u8) -> bool {
    contact == PSHOT || contact == NUKESHOT
}

/// The items, screen and sound state after the player picks up the item
/// of tile `spot` (162 a potion, 163 a scroll, 164 a key): one more of it,
/// its picture drawn, and sound 2. A scroll takes the next number of the
/// table sequence: a bolt scroll below 128, else a nuke scroll.
pub open spec fn picked_up(items: Seq<i16>, screen: Seq<u8>, pas: PcrlibAState, pcs: PcrlibCState, spot: i32) -> (
    Seq<i16>,
    Seq<u8>,
    PcrlibAState,
) {
    if spot == 162 {
        (
            items.update(POTIONS as int, one_more(items[POTIONS as int])),
            gave_picture(screen, pcs, items[POTIONS as int] + 1, 8, 29),
            asked_sound(pas, 2),
        )
    } else if spot == 164 {
        (
            items.update(KEYS as int, one_more(items[KEYS as int])),
            gave_picture(screen, pcs, items[KEYS as int] + 1, 7, 31),
            asked_sound(pas, 2),
        )
    } else {
        let pas1 = PcrlibAState { rndindex: ((pas.rndindex + 1) % 256) as u16, ..pas };
        if rndtable@[pas1.rndindex as int] < 128 {
            (
                items.update(BOLTS as int, one_more(items[BOLTS as int])),
                gave_picture(screen, pcs, items[BOLTS as int] + 1, 9, 30),
                asked_sound(pas1, 2),
            )
        } else {
            (
                items.update(NUKES as int, one_more(items[NUKES as int])),
                gave_picture(screen, pcs, items[NUKES as int] + 1, 10, 30),
                asked_sound(pas1, 2),
            )
        }
    }
}

/// The text state once the score has grown by 500 and been printed.
pub open spec fn scored(pcs: PcrlibCState) -> PcrlibCState {
    let s = (pcs.score + 500) as i32;
    PcrlibCState { score: s, sx: (31 + decimal_text(s as int).len()) as i32, sy: 3, ..pcs }
}

/// The screen once the score has grown by 500 and been printed.
pub open spec fn score_drawn(screen: Seq<u8>, pcs: PcrlibCState) -> Seq<u8> {
    let s = (pcs.score + 500) as i32;
    chars_drawn(screen, PcrlibCState { score: s, ..pcs }, plain_run(31, 3, decimal_text(s as int)))
}

/// What object `obj` (in slot `objecton`) meets in cell (x, y), whose view
/// tile is `spot`, and whether it may go on:
/// - open floor (128) and tiles 29 to 31 let it through;
/// - a monster tile (256 to 1618) is contact with an object (see
///   `into_result`);
/// - a wall (129 to 135) stops it; a shot leaves a flash there (class
///   `wallhit`) with sound 6;
/// - a crumbling wall (136 to 145) stops it; the player's shot or a nuke's
///   breaks it (sound 6; the background becomes what `crumbled` says, with
///   a dying object there), and a nuke's shot goes on;
/// - an item (162 to 164) lets it through; the player picks it up (see
///   `picked_up`), clearing the cell;
/// - a door (165, 166) stops all but the player with a key, who uses it
///   (see `takekey`) and opens the door (see `opendoor`);
/// - a treasure (167) lets it through; the player scores 500 for it (sound
///   3), clearing the cell;
/// - anything else stops it.
#[verifier::opaque]
pub open spec fn walkthrough_result(
    st: WalkState,
    objecton: int,
    x: int,
    y: int,
    spot: i32,
    maxobj: int,
    objdef: Seq<objdeftype>,
    godmode: bool,
    cl: WalkClasses,
) -> (WalkState, bool) {
    let (is, view, bg, numobj, items) = st;
    let (obj, alt, altnum, flags, o, pas, screen, pcs) = is;
    let c = cell(x, y);
    let player = obj.class == cl.contact.tag.player;
    if spot == 128 {
        (st, true)
    } else if 256 <= spot <= LAST_MONSTER_TILE {
        let (is2, r) = into_result(is, objecton, x, y, numobj, objdef, bg, godmode, cl.contact);
        ((is2, view, bg, numobj, items), r)
    } else if 129 <= spot <= 135 {
        if hits_wall(obj.contact) {
            (
                (
                    (obj, alt, altnum, flags, spawned(o, numobj, maxobj, cl.wallhit, x, y), asked_sound(pas, 6), screen, pcs),
                    view,
                    bg,
                    count_after(o, numobj, maxobj),
                    items,
                ),
                false,
            )
        } else {
            (st, false)
        }
    } else if 136 <= spot <= 145 {
        if breaks_wall(obj.contact) {
            (
                (
                    (obj, alt, altnum, flags, spawned(o, numobj, maxobj, cl.contact.tag.dead1, x, y), asked_sound(pas, 6), screen, pcs),
                    view,
                    bg.update(c, crumbled(spot)),
                    count_after(o, numobj, maxobj),
                    items,
                ),
                obj.contact != PSHOT,
            )
        } else {
            (st, false)
        }
    } else if 162 <= spot <= 164 {
        if player {
            let (items2, screen2, pas2) = picked_up(items, screen, pas, pcs, spot);
            (((obj, alt, altnum, flags, o, pas2, screen2, pcs), view.update(c, 128), bg.update(c, 128), numobj, items2), true)
        } else {
            (st, true)
        }
    } else if spot == 165 || spot == 166 {
        if player {
            if items[KEYS as int] > 0 {
                (
                    (
                        (obj, alt, altnum, flags, o, asked_sound(asked_sound(pas, 11), 11), took_picture(screen, pcs, items[KEYS as int] - 1, 7, 10), pcs),
                        opened(view, view, x, y, spot == VDOOR_TILE),
                        opened(bg, view, x, y, spot == VDOOR_TILE),
                        numobj,
                        items.update(KEYS as int, (items[KEYS as int] - 1) as i16),
                    ),
                    true,
                )
            } else {
                (((obj, alt, altnum, flags, o, asked_sound(pas, 14), screen, pcs), view, bg, numobj, items), false)
            }
        } else {
            (st, false)
        }
    } else if spot == 167 {
        if player {
            (
                (
                    (obj, alt, altnum, flags, o, asked_sound(pas, 3), score_drawn(screen, pcs), scored(pcs)),
                    view.update(c, 128),
                    bg.update(c, 128),
                    numobj,
                    items,
                ),
                true,
            )
        } else {
            (st, true)
        }
    } else if 29 <= spot <= 31 {
        (st, true)
    } else {
        (st, false)
    }
}

/// What `walkthrough` needs on the cell it handles: the cell lies in the
/// view, with a background of the same size; and for the branch taken (see
/// `walkthrough_result`), what the calls there need: contact as
/// `into_ok` says, room in the object table and a playable sound 6 for a
/// flash or a broken wall, the item slots and their pictures' places for a
/// pick-up, the key's picture, the door's runs and sounds 11 and 14 for a
/// door, and a score that does not overflow for a treasure.
#[verifier::opaque]
pub open spec fn walkthrough_ok(
    st: WalkState,
    objecton: int,
    x: int,
    y: int,
    spot: i32,
    maxobj: int,
    objdef: Seq<objdeftype>,
    godmode: bool,
    cl: WalkClasses,
) -> bool {
    let (is, view, bg, numobj, items) = st;
    let (obj, alt, altnum, flags, o, pas, screen, pcs) = is;
    let player = obj.class == cl.contact.tag.player;
    let slen = screen.len() as int;
    &&& in_map(view.len() as int, x, y)
    &&& bg.len() == view.len()
    &&& view.len() <= i32::MAX
    &&& 256 <= spot <= LAST_MONSTER_TILE ==> into_ok(is, objecton, x, y, numobj, objdef, bg, godmode, cl.contact)
    &&& (129 <= spot <= 135 && hits_wall(obj.contact)) || (136 <= spot <= 145 && breaks_wall(obj.contact))
        ==> {
        &&& table_ok(o, numobj, maxobj)
        &&& can_ask_sound(pas, 6)
    }
    &&& 162 <= spot <= 167 && player ==> NUKES < items.len()
    &&& 162 <= spot <= 164 && player ==> {
        &&& can_ask_sound(pas, 2)
        &&& spot == 162 && items[POTIONS as int] + 1 < 11 ==> draw_ok(slen, pcs, (26 + items[POTIONS as int] + 1, 8, 29))
        &&& spot == 164 && items[KEYS as int] + 1 < 11 ==> draw_ok(slen, pcs, (26 + items[KEYS as int] + 1, 7, 31))
        &&& spot == 163 && items[BOLTS as int] + 1 < 11 ==> draw_ok(slen, pcs, (26 + items[BOLTS as int] + 1, 9, 30))
        &&& spot == 163 && items[NUKES as int] + 1 < 11 ==> draw_ok(slen, pcs, (26 + items[NUKES as int] + 1, 10, 30))
    }
    &&& (spot == 165 || spot == 166) && player ==> {
        &&& items[KEYS as int] > 0 ==> {
            &&& can_ask_sound(pas, 11)
            &&& can_ask_sound(asked_sound(pas, 11), 11)
            &&& door_ok(view, x, y, spot == VDOOR_TILE)
            &&& items[KEYS as int] - 1 < 10 ==> draw_ok(slen, pcs, (27 + items[KEYS as int] - 1, 7, 32))
        }
        &&& items[KEYS as int] <= 0 ==> can_ask_sound(pas, 14)
    }
    &&& spot == 167 && player ==> {
        &&& pcs.score + 500 <= i32::MAX
        &&& can_ask_sound(pas, 3)
        &&& draws_ok(
            slen,
            PcrlibCState { score: (pcs.score + 500) as i32, ..pcs },
            plain_run(31, 3, decimal_text(pcs.score + 500)),
        )
    }
}

/// Object `obj` (in slot `objecton`) steps into cell (chkx, chky), whose
/// view tile is `chkspot`: handles what it meets there (see
/// `walkthrough_result`) and returns whether it may go on.
pub fn walkthrough(
    obj: &mut objtype,
    objecton: usize,
    chkx: i32,
    chky: i32,
    chkspot: i32,
    o: &mut [activeobj],
    numobj: &mut i32,
    maxobj: i32,
    objdef: &[objdeftype],
    view: &mut [i32],
    background: &mut [i32],
    items: &mut [i16],
    alt: &mut objtype,
    altnum: &mut usize,
    flags: &mut PlayFlags,
    godmode: bool,
    cl: WalkClasses,
    pas: &mut PcrlibAState,
    screen: &mut [u8],
    pcs: &mut PcrlibCState,
) -> (through: bool)
    requires
        walkthrough_ok(
            ((*old(obj), *old(alt), *old(altnum) as int, *old(flags), old(o)@, *old(pas), old(screen)@, *old(pcs)), old(view)@, old(background)@, *old(numobj) as int, old(items)@),
            objecton as int,
            chkx as int,
            chky as int,
            chkspot,
            maxobj as int,
            objdef@,
            godmode,
            cl,
        ),
    ensures
        (
            ((*final(obj), *final(alt), *final(altnum) as int, *final(flags), final(o)@, *final(pas), final(screen)@, *final(pcs)), final(view)@, final(background)@, *final(numobj) as int, final(items)@),
            through,
        ) == walkthrough_result(
            ((*old(obj), *old(alt), *old(altnum) as int, *old(flags), old(o)@, *old(pas), old(screen)@, *old(pcs)), old(view)@, old(background)@, *old(numobj) as int, old(items)@),
            objecton as int,
            chkx as int,
            chky as int,
            chkspot,
            maxobj as int,
            objdef@,
            godmode,
            cl,
        ),
{
    proof {
        reveal(walkthrough_result);
        reveal(walkthrough_ok);
    }
    let c: usize = chky as usize * VIEW_STRIDE + chkx as usize;
    let player = obj.class == cl.contact.tag.player;
    if chkspot == 128 {
        return true;
    }
    if chkspot >= 256 && chkspot <= LAST_MONSTER_TILE {
        return intomonster(
            obj,
            objecton,
            chkx,
            chky,
            o,
            *numobj,
            objdef,
            background,
            alt,
            altnum,
            flags,
            godmode,
            cl.contact,
            pas,
            screen,
            pcs,
        );
    }
    if chkspot >= 129 && chkspot <= 135 {
        if obj.contact == PSHOT || obj.contact == NUKESHOT || obj.contact == MSHOT {
            spawn(o, numobj, maxobj, cl.wallhit, chkx, chky);
            ask_sound(6, pas);
        }
        return false;
    }
    if chkspot >= 136 && chkspot <= 145 {
        if obj.contact == PSHOT || obj.contact == NUKESHOT {
            ask_sound(6, pas);
            if chkspot < 143 {
                background[c] = 128;
            } else {
                background[c] = chkspot + 19;
            }
            spawn(o, numobj, maxobj, cl.contact.tag.dead1, chkx, chky);
            return obj.contact != PSHOT;
        } else {
            return false;
        }
    }
    if chkspot >= 162 && chkspot <= 164 {
        if player {
            if chkspot == 162 {
                givepotion(items, screen, pcs);
            } else if chkspot == 163 {
                givescroll(items, pas, screen, pcs);
            } else {
                givekey(items, screen, pcs);
            }
            view[c] = 128;
            background[c] = 128;
            ask_sound(2, pas);
        }
        return true;
    }
    if chkspot == 165 || chkspot == 166 {
        if player {
            if takekey(items, pas, screen, pcs) {
                opendoor(chkx, chky, chkspot, view, background, pas);
                return true;
            }
        }
        return false;
    }
    if chkspot == 167 {
        if player {
            pcs.score = pcs.score + 500;
            printscore(screen, pcs);
            background[c] = 128;
            view[c] = 128;
            ask_sound(3, pas);
        }
        return true;
    }
    if chkspot >= 29 && chkspot <= 31 {
        return true;
    }
    false
}

/// The direction numbered `d` of the four an object can walk in.
pub open spec fn dir_of(d: u16) -> dirtype {
    if d == 0 {
        dirtype::north
    } else if d == 1 {
        dirtype::east
    } else if d == 2 {
        dirtype::south
    } else {
        dirtype::west
    }
}

/// The step object `obj` takes in its direction (see `walk_plan_of`).
pub open spec fn plan_of(obj: objtype) -> WalkPlan {
    walk_plan_of(obj.x, obj.y, obj.size, dir_of(obj.dir))
}

/// The object of a walking state.
pub open spec fn walker(st: WalkState) -> objtype {
    st.0.0
}

/// The cells of a step from cell `k` on (see `walk_cell`), each not open
/// floor handled by `walkthrough_result` in turn: the state after them and,
/// where the step ended early, whether the object may still count it as
/// done: it stops at a cell that does not let it through, and ends the step
/// as done when the level is over or it has turned to attack (stage 2).
pub open spec fn walk_from(
    st: WalkState,
    objecton: int,
    p: WalkPlan,
    k: int,
    size: int,
    maxobj: int,
    objdef: Seq<objdeftype>,
    godmode: bool,
    cl: WalkClasses,
) -> (WalkState, Option<bool>)
    decreases size - k,
{
    if k >= size {
        (st, None)
    } else {
        let (x, y) = walk_cell(p, k);
        let spot = st.1[cell(x, y)];
        if spot == 128 {
            walk_from(st, objecton, p, k + 1, size, maxobj, objdef, godmode, cl)
        } else {
            let (st2, r) = walkthrough_result(st, objecton, x, y, spot, maxobj, objdef, godmode, cl);
            if st2.0.3.leveldone || walker(st2).stage == 2 {
                (st2, Some(true))
            } else if !r {
                (st2, Some(false))
            } else {
                walk_from(st2, objecton, p, k + 1, size, maxobj, objdef, godmode, cl)
            }
        }
    }
}

/// What the cells of a step from cell `k` on need: each lies in the view,
/// and each not open floor meets what `walkthrough_ok` asks in the state
/// the cells before it left.
pub open spec fn walk_ok_from(
    st: WalkState,
    objecton: int,
    p: WalkPlan,
    k: int,
    size: int,
    maxobj: int,
    objdef: Seq<objdeftype>,
    godmode: bool,
    cl: WalkClasses,
) -> bool
    decreases size - k,
{
    if k >= size {
        true
    } else {
        let (x, y) = walk_cell(p, k);
        &&& in_map(st.1.len() as int, x, y)
        &&& {
            let spot = st.1[cell(x, y)];
            if spot == 128 {
                walk_ok_from(st, objecton, p, k + 1, size, maxobj, objdef, godmode, cl)
            } else {
                &&& walkthrough_ok(st, objecton, x, y, spot, maxobj, objdef, godmode, cl)
                &&& {
                    let (st2, r) = walkthrough_result(st, objecton, x, y, spot, maxobj, objdef, godmode, cl);
                    !(st2.0.3.leveldone || walker(st2).stage == 2) && r ==> walk_ok_from(
                        st2,
                        objecton,
                        p,
                        k + 1,
                        size,
                        maxobj,
                        objdef,
                        godmode,
                        cl,
                    )
                }
            }
        }
    }
}

/// The state after `walk` and whether the object moved or counts the step
/// as done: an object facing none of north, east, south and west does not
/// move; otherwise the cells its step newly covers are handled in turn
/// (see `walk_from`), and where all let it through, it moves one cell and
/// its stage flips between 0 and 1 (its walking picture).
pub open spec fn walk_result(
    st: WalkState,
    objecton: int,
    maxobj: int,
    objdef: Seq<objdeftype>,
    godmode: bool,
    cl: WalkClasses,
) -> (WalkState, bool) {
    let obj = walker(st);
    if obj.dir >= 4 {
        (st, false)
    } else {
        let p = plan_of(obj);
        let (st2, r) = walk_from(st, objecton, p, 0, obj.size as int, maxobj, objdef, godmode, cl);
        match r {
            Some(b) => (st2, b),
            None => {
                let (is, view, bg, numobj, items) = st2;
                let (o2, alt, altnum, flags, tab, pas, screen, pcs) = is;
                (
                    (
                        (
                            objtype { x: p.newx as u8, y: p.newy as u8, stage: o2.stage ^ 1u8, ..o2 },
                            alt,
                            altnum,
                            flags,
                            tab,
                            pas,
                            screen,
                            pcs,
                        ),
                        view,
                        bg,
                        numobj,
                        items,
                    ),
                    true,
                )
            },
        }
    }
}

/// What `walk` needs: for a walking direction, what the cells of its step
/// need (see `walk_ok_from`).
pub open spec fn walk_ok(
    st: WalkState,
    objecton: int,
    maxobj: int,
    objdef: Seq<objdeftype>,
    godmode: bool,
    cl: WalkClasses,
) -> bool {
    let obj = walker(st);
    obj.dir < 4 ==> walk_ok_from(st, objecton, plan_of(obj), 0, obj.size as int, maxobj, objdef, godmode, cl)
}

/// Object `obj` (in slot `objecton`) tries to step one cell in its
/// direction (see `walk_result`). Returns whether it moved, or counts the
/// step as done.
pub fn walk(
    obj: &mut objtype,
    objecton: usize,
    o: &mut [activeobj],
    numobj: &mut i32,
    maxobj: i32,
    objdef: &[objdeftype],
    view: &mut [i32],
    background: &mut [i32],
    items: &mut [i16],
    alt: &mut objtype,
    altnum: &mut usize,
    flags: &mut PlayFlags,
    godmode: bool,
    cl: WalkClasses,
    pas: &mut PcrlibAState,
    screen: &mut [u8],
    pcs: &mut PcrlibCState,
) -> (moved: bool)
    requires
        walk_ok(
            ((*old(obj), *old(alt), *old(altnum) as int, *old(flags), old(o)@, *old(pas), old(screen)@, *old(pcs)), old(view)@, old(background)@, *old(numobj) as int, old(items)@),
            objecton as int,
            maxobj as int,
            objdef@,
            godmode,
            cl,
        ),
    ensures
        (
            ((*final(obj), *final(alt), *final(altnum) as int, *final(flags), final(o)@, *final(pas), final(screen)@, *final(pcs)), final(view)@, final(background)@, *final(numobj) as int, final(items)@),
            moved,
        ) == walk_result(
            ((*old(obj), *old(alt), *old(altnum) as int, *old(flags), old(o)@, *old(pas), old(screen)@, *old(pcs)), old(view)@, old(background)@, *old(numobj) as int, old(items)@),
            objecton as int,
            maxobj as int,
            objdef@,
            godmode,
            cl,
        ),
{
    let ghost st0: WalkState = ((*obj, *alt, *altnum as int, *flags, o@, *pas, screen@, *pcs), view@, background@, *numobj as int, items@);
    if obj.dir >= 4 {
        return false;
    }
    let d = dirtype::from_u32(obj.dir as u32);
    assert(d == dir_of(obj.dir));
    let p = match walk_plan(obj.x, obj.y, obj.size, d) {
        Some(p) => p,
        None => {
            return false;
        },
    };
    let size: u8 = obj.size;
    let ghost full = walk_from(st0, objecton as int, p, 0, size as int, maxobj as int, objdef@, godmode, cl);
    let ghost res = walk_result(st0, objecton as int, maxobj as int, objdef@, godmode, cl);
    assert(full.1 matches Some(b) ==> res == (full.0, b));
    let mut chkx: i32 = p.chkx;
    let mut chky: i32 = p.chky;
    let mut k: u8 = 0;
    while k < size
        invariant
            0 <= k <= size,
            size == old(obj).size,
            p == plan_of(*old(obj)),
            -1 <= p.chkx <= 510,
            -1 <= p.chky <= 510,
            p.deltax == 0 || p.deltax == 1,
            p.deltay == 0 || p.deltay == 1,
            (chkx as int, chky as int) == walk_cell(p, k as int),
            full == walk_from(st0, objecton as int, p, 0, size as int, maxobj as int, objdef@, godmode, cl),
            res == walk_result(st0, objecton as int, maxobj as int, objdef@, godmode, cl),
            full.1 matches Some(b) ==> res == (full.0, b),
            st0 == ((*old(obj), *old(alt), *old(altnum) as int, *old(flags), old(o)@, *old(pas), old(screen)@, *old(pcs)), old(view)@, old(background)@, *old(numobj) as int, old(items)@),
            full == walk_from(
                ((*obj, *alt, *altnum as int, *flags, o@, *pas, screen@, *pcs), view@, background@, *numobj as int, items@),
                objecton as int,
                p,
                k as int,
                size as int,
                maxobj as int,
                objdef@,
                godmode,
                cl,
            ),
            walk_ok_from(
                ((*obj, *alt, *altnum as int, *flags, o@, *pas, screen@, *pcs), view@, background@, *numobj as int, items@),
                objecton as int,
                p,
                k as int,
                size as int,
                maxobj as int,
                objdef@,
                godmode,
                cl,
            ),
        decreases size - k,
    {
        let c: usize = chky as usize * VIEW_STRIDE + chkx as usize;
        let spot: i32 = view[c];
        if spot != 128 {
            let ghost before: WalkState = ((*obj, *alt, *altnum as int, *flags, o@, *pas, screen@, *pcs), view@, background@, *numobj as int, items@);
            let ghost step = walkthrough_result(before, objecton as int, chkx as int, chky as int, spot, maxobj as int, objdef@, godmode, cl);
            let through = walkthrough(
                obj,
                objecton,
                chkx,
                chky,
                spot,
                o,
                numobj,
                maxobj,
                objdef,
                view,
                background,
                items,
                alt,
                altnum,
                flags,
                godmode,
                cl,
                pas,
                screen,
                pcs,
            );
            let ghost after: WalkState = ((*obj, *alt, *altnum as int, *flags, o@, *pas, screen@, *pcs), view@, background@, *numobj as int, items@);
            assert(step == (after, through));
            if flags.leveldone {
                return true;
            }
            if obj.stage == 2 {
                return true;
            }
            if !through {
                return false;
            }
        }
        chkx = chkx + p.deltax;
        chky = chky + p.deltay;
        k = k + 1;
    }
    obj.x = p.newx as u8;
    obj.y = p.newy as u8;
    obj.stage = obj.stage ^ 1;
    true
}

/// The direction numbered `n` (0 to 8).
pub open spec fn dir_named(n: u16) -> dirtype {
    if n == 0 {
        dirtype::north
    } else if n == 1 {
        dirtype::east
    } else if n == 2 {
        dirtype::south
    } else if n == 3 {
        dirtype::west
    } else if n == 4 {
        dirtype::northeast
    } else if n == 5 {
        dirtype::southeast
    } else if n == 6 {
        dirtype::southwest
    } else if n == 7 {
        dirtype::northwest
    } else {
        dirtype::nodir
    }
}

/// A walking state whose object has the record `obj`.
pub open spec fn with_walker(st: WalkState, obj: objtype) -> WalkState {
    let (is, view, bg, numobj, items) = st;
    let (o0, alt, altnum, flags, tab, pas, screen, pcs) = is;
    ((obj, alt, altnum, flags, tab, pas, screen, pcs), view, bg, numobj, items)
}

/// A walking state with the sound and random state `pas`.
pub open spec fn with_pas(st: WalkState, pas: PcrlibAState) -> WalkState {
    let (is, view, bg, numobj, items) = st;
    let (obj, alt, altnum, flags, tab, p0, screen, pcs) = is;
    ((obj, alt, altnum, flags, tab, pas, screen, pcs), view, bg, numobj, items)
}

/// The object turns to each direction of `ds` from the `i`-th on and tries
/// to walk (see `walk_result`), until it moves, counts the step as done or
/// is in stage 3: the state after and whether it stopped so.
pub open spec fn try_dirs(
    st: WalkState,
    ds: Seq<dirtype>,
    i: int,
    objecton: int,
    maxobj: int,
    objdef: Seq<objdeftype>,
    godmode: bool,
    cl: WalkClasses,
) -> (WalkState, bool)
    decreases ds.len() - i,
{
    if i >= ds.len() || i < 0 {
        (st, false)
    } else {
        let st1 = with_walker(st, objtype { dir: ds[i].value() as u16, ..walker(st) });
        let (st2, m) = walk_result(st1, objecton, maxobj, objdef, godmode, cl);
        if m || walker(st2).stage == 3 {
            (st2, true)
        } else {
            try_dirs(st2, ds, i + 1, objecton, maxobj, objdef, godmode, cl)
        }
    }
}

/// What the tries of `try_dirs` need: each walk meets `walk_ok` in the
/// state the tries before it left.
pub open spec fn try_dirs_ok(
    st: WalkState,
    ds: Seq<dirtype>,
    i: int,
    objecton: int,
    maxobj: int,
    objdef: Seq<objdeftype>,
    godmode: bool,
    cl: WalkClasses,
) -> bool
    decreases ds.len() - i,
{
    if i >= ds.len() || i < 0 {
        true
    } else {
        let st1 = with_walker(st, objtype { dir: ds[i].value() as u16, ..walker(st) });
        let (st2, m) = walk_result(st1, objecton, maxobj, objdef, godmode, cl);
        &&& walk_ok(st1, objecton, maxobj, objdef, godmode, cl)
        &&& !(m || walker(st2).stage == 3) ==> try_dirs_ok(st2, ds, i + 1, objecton, maxobj, objdef, godmode, cl)
    }
}

/// A chasing monster's first tries: its stage back to its walking picture
/// (0 or 1), then the directions of `chase_first_spec` toward the player
/// (slot 0 of the table), diagonally or not.
pub open spec fn chase_start(st: WalkState, diagonal: bool) -> (WalkState, Seq<dirtype>) {
    let obj = walker(st);
    let player = st.0.4[0];
    (
        with_walker(st, objtype { stage: obj.stage & 1u8, ..obj }),
        chase_first_spec(diagonal, dir_named(obj.dir), player.x - obj.x, player.y - obj.y),
    )
}

/// The state a failed first try leaves, with the next number of the table
/// sequence drawn for the sweep, and the sweep's directions (see
/// `chase_sweep_spec`).
pub open spec fn chase_rest(st: WalkState, olddir: dirtype) -> (WalkState, Seq<dirtype>) {
    let pas = st.0.5;
    let pas1 = PcrlibAState { rndindex: ((pas.rndindex + 1) % 256) as u16, ..pas };
    (with_pas(st, pas1), chase_sweep_spec(olddir, rndtable@[pas1.rndindex as int] as int))
}

/// The state after a chasing monster's move: it tries the directions of
/// `chase_start` in turn (see `try_dirs`); where none works, it draws a
/// coin and tries the others, turning back last (see `chase_rest`).
pub open spec fn chase_result(
    st: WalkState,
    diagonal: bool,
    objecton: int,
    maxobj: int,
    objdef: Seq<objdeftype>,
    godmode: bool,
    cl: WalkClasses,
) -> WalkState {
    let olddir = dir_named(walker(st).dir);
    let (st1, first) = chase_start(st, diagonal);
    let (st2, done) = try_dirs(st1, first, 0, objecton, maxobj, objdef, godmode, cl);
    if done {
        st2
    } else {
        let (st3, sweep) = chase_rest(st2, olddir);
        try_dirs(st3, sweep, 0, objecton, maxobj, objdef, godmode, cl).0
    }
}

/// What a chasing monster's move needs: a direction numbered 0 to 8, a
/// player slot, and what each walk it may take needs (see `try_dirs_ok`).
pub open spec fn chase_ok(
    st: WalkState,
    diagonal: bool,
    objecton: int,
    maxobj: int,
    objdef: Seq<objdeftype>,
    godmode: bool,
    cl: WalkClasses,
) -> bool {
    let olddir = dir_named(walker(st).dir);
    let (st1, first) = chase_start(st, diagonal);
    let (st2, done) = try_dirs(st1, first, 0, objecton, maxobj, objdef, godmode, cl);
    &&& walker(st).dir <= 8
    &&& st.0.4.len() > 0
    &&& try_dirs_ok(st1, first, 0, objecton, maxobj, objdef, godmode, cl)
    &&& !done ==> {
        let (st3, sweep) = chase_rest(st2, olddir);
        try_dirs_ok(st3, sweep, 0, objecton, maxobj, objdef, godmode, cl)
    }
}

/// Turns the object to each direction of `ds` in turn and walks (see
/// `try_dirs`). Returns whether it stopped on a move or a step counted as
/// done, or in stage 3.
fn walk_dirs(
    ds: &Vec<dirtype>,
    obj: &mut objtype,
    objecton: usize,
    o: &mut [activeobj],
    numobj: &mut i32,
    maxobj: i32,
    objdef: &[objdeftype],
    view: &mut [i32],
    background: &mut [i32],
    items: &mut [i16],
    alt: &mut objtype,
    altnum: &mut usize,
    flags: &mut PlayFlags,
    godmode: bool,
    cl: WalkClasses,
    pas: &mut PcrlibAState,
    screen: &mut [u8],
    pcs: &mut PcrlibCState,
) -> (stopped: bool)
    requires
        try_dirs_ok(
            ((*old(obj), *old(alt), *old(altnum) as int, *old(flags), old(o)@, *old(pas), old(screen)@, *old(pcs)), old(view)@, old(background)@, *old(numobj) as int, old(items)@),
            ds@,
            0,
            objecton as int,
            maxobj as int,
            objdef@,
            godmode,
            cl,
        ),
    ensures
        (
            ((*final(obj), *final(alt), *final(altnum) as int, *final(flags), final(o)@, *final(pas), final(screen)@, *final(pcs)), final(view)@, final(background)@, *final(numobj) as int, final(items)@),
            stopped,
        ) == try_dirs(
            ((*old(obj), *old(alt), *old(altnum) as int, *old(flags), old(o)@, *old(pas), old(screen)@, *old(pcs)), old(view)@, old(background)@, *old(numobj) as int, old(items)@),
            ds@,
            0,
            objecton as int,
            maxobj as int,
            objdef@,
            godmode,
            cl,
        ),
{
    let ghost st0: WalkState = ((*obj, *alt, *altnum as int, *flags, o@, *pas, screen@, *pcs), view@, background@, *numobj as int, items@);
    let ghost full = try_dirs(st0, ds@, 0, objecton as int, maxobj as int, objdef@, godmode, cl);
    let mut i: usize = 0;
    while i < ds.len()
        invariant
            0 <= i <= ds@.len(),
            full == try_dirs(st0, ds@, 0, objecton as int, maxobj as int, objdef@, godmode, cl),
            st0 == ((*old(obj), *old(alt), *old(altnum) as int, *old(flags), old(o)@, *old(pas), old(screen)@, *old(pcs)), old(view)@, old(background)@, *old(numobj) as int, old(items)@),
            full == try_dirs(
                ((*obj, *alt, *altnum as int, *flags, o@, *pas, screen@, *pcs), view@, background@, *numobj as int, items@),
                ds@,
                i as int,
                objecton as int,
                maxobj as int,
                objdef@,
                godmode,
                cl,
            ),
            try_dirs_ok(
                ((*obj, *alt, *altnum as int, *flags, o@, *pas, screen@, *pcs), view@, background@, *numobj as int, items@),
                ds@,
                i as int,
                objecton as int,
                maxobj as int,
                objdef@,
                godmode,
                cl,
            ),
        decreases ds@.len() - i,
    {
        let d: u32 = ds[i].to_u32();
        obj.dir = d as u16;
        let moved = walk(
            obj,
            objecton,
            o,
            numobj,
            maxobj,
            objdef,
            view,
            background,
            items,
            alt,
            altnum,
            flags,
            godmode,
            cl,
            pas,
            screen,
            pcs,
        );
        if moved || obj.stage == 3 {
            return true;
        }
        i = i + 1;
    }
    false
}

/// A monster chases the player (see `chase_result`): diagonal movers try
/// the longer way toward the player first, others the shorter.
pub fn chasethink(
    diagonal: bool,
    obj: &mut objtype,
    objecton: usize,
    o: &mut [activeobj],
    numobj: &mut i32,
    maxobj: i32,
    objdef: &[objdeftype],
    view: &mut [i32],
    background: &mut [i32],
    items: &mut [i16],
    alt: &mut objtype,
    altnum: &mut usize,
    flags: &mut PlayFlags,
    godmode: bool,
    cl: WalkClasses,
    pas: &mut PcrlibAState,
    screen: &mut [u8],
    pcs: &mut PcrlibCState,
)
    requires
        chase_ok(
            ((*old(obj), *old(alt), *old(altnum) as int, *old(flags), old(o)@, *old(pas), old(screen)@, *old(pcs)), old(view)@, old(background)@, *old(numobj) as int, old(items)@),
            diagonal,
            objecton as int,
            maxobj as int,
            objdef@,
            godmode,
            cl,
        ),
    ensures
        ((*final(obj), *final(alt), *final(altnum) as int, *final(flags), final(o)@, *final(pas), final(screen)@, *final(pcs)), final(view)@, final(background)@, *final(numobj) as int, final(items)@)
            == chase_result(
            ((*old(obj), *old(alt), *old(altnum) as int, *old(flags), old(o)@, *old(pas), old(screen)@, *old(pcs)), old(view)@, old(background)@, *old(numobj) as int, old(items)@),
            diagonal,
            objecton as int,
            maxobj as int,
            objdef@,
            godmode,
            cl,
        ),
{
    let olddir = dirtype::from_u32(obj.dir as u32);
    assert(olddir == dir_named(obj.dir));
    obj.stage = obj.stage & 1;
    let first = chase_first(diagonal, olddir, o[0].x, o[0].y, obj.x, obj.y);
    if walk_dirs(
        &first,
        obj,
        objecton,
        o,
        numobj,
        maxobj,
        objdef,
        view,
        background,
        items,
        alt,
        altnum,
        flags,
        godmode,
        cl,
        pas,
        screen,
        pcs,
    ) {
        return;
    }
    let sweep = chase_sweep(olddir, pas);
    walk_dirs(
        &sweep,
        obj,
        objecton,
        o,
        numobj,
        maxobj,
        objdef,
        view,
        background,
        items,
        alt,
        altnum,
        flags,
        godmode,
        cl,
        pas,
        screen,
        pcs,
    );
}

/// A walking state whose object faces `d`.
pub open spec fn turned(st: WalkState, d: dirtype) -> WalkState {
    with_walker(st, objtype { dir: d.value() as u16, ..walker(st) })
}

/// The state after the player's steps for controls pointing `c` on frame
/// `frameon` (see `player_steps_spec`): where it does not walk, it turns
/// (see `facing`) unless the second button is held; otherwise it walks each
/// step (see `walk_result`), a bump (sound 1) when the last one does not
/// get through, and with the second button held (strafing) it keeps facing
/// the way it faced.
pub open spec fn player_walk_result(
    st: WalkState,
    c: dirtype,
    button2: bool,
    frameon: u16,
    objecton: int,
    maxobj: int,
    objdef: Seq<objdeftype>,
    godmode: bool,
    cl: WalkClasses,
) -> WalkState {
    let steps = player_steps_spec(c, frameon);
    let obj0 = walker(st);
    if steps.len() == 0 {
        if !button2 {
            with_walker(st, objtype { dir: facing(c, obj0.dir), ..obj0 })
        } else {
            st
        }
    } else {
        let st1 = if steps.len() == 2 {
            walk_result(turned(st, steps[0]), objecton, maxobj, objdef, godmode, cl).0
        } else {
            st
        };
        let (st2, m) = walk_result(turned(st1, steps.last()), objecton, maxobj, objdef, godmode, cl);
        let st3 = if m {
            st2
        } else {
            with_pas(st2, asked_sound(st2.0.5, 1))
        };
        if button2 {
            with_walker(st3, objtype { dir: obj0.dir, ..walker(st3) })
        } else {
            st3
        }
    }
}

/// What the player's steps need: each walk meets `walk_ok` in the state
/// the one before left, and sound 1 can be asked for after the last.
pub open spec fn player_walk_ok(
    st: WalkState,
    c: dirtype,
    frameon: u16,
    objecton: int,
    maxobj: int,
    objdef: Seq<objdeftype>,
    godmode: bool,
    cl: WalkClasses,
) -> bool {
    let steps = player_steps_spec(c, frameon);
    steps.len() > 0 ==> {
        let st1 = if steps.len() == 2 {
            walk_result(turned(st, steps[0]), objecton, maxobj, objdef, godmode, cl).0
        } else {
            st
        };
        let (st2, m) = walk_result(turned(st1, steps.last()), objecton, maxobj, objdef, godmode, cl);
        &&& steps.len() == 2 ==> walk_ok(turned(st, steps[0]), objecton, maxobj, objdef, godmode, cl)
        &&& walk_ok(turned(st1, steps.last()), objecton, maxobj, objdef, godmode, cl)
        &&& !m ==> can_ask_sound(st2.0.5, 1)
    }
}

/// The player (`obj`, in slot `objecton`) walks or turns with its controls
/// pointing `c` and its second button `button2` on frame `frameon` (see
/// `player_walk_result`).
pub fn player_walk(
    c: dirtype,
    button2: bool,
    frameon: u16,
    obj: &mut objtype,
    objecton: usize,
    o: &mut [activeobj],
    numobj: &mut i32,
    maxobj: i32,
    objdef: &[objdeftype],
    view: &mut [i32],
    background: &mut [i32],
    items: &mut [i16],
    alt: &mut objtype,
    altnum: &mut usize,
    flags: &mut PlayFlags,
    godmode: bool,
    cl: WalkClasses,
    pas: &mut PcrlibAState,
    screen: &mut [u8],
    pcs: &mut PcrlibCState,
)
    requires
        player_walk_ok(
            ((*old(obj), *old(alt), *old(altnum) as int, *old(flags), old(o)@, *old(pas), old(screen)@, *old(pcs)), old(view)@, old(background)@, *old(numobj) as int, old(items)@),
            c,
            frameon,
            objecton as int,
            maxobj as int,
            objdef@,
            godmode,
            cl,
        ),
    ensures
        ((*final(obj), *final(alt), *final(altnum) as int, *final(flags), final(o)@, *final(pas), final(screen)@, *final(pcs)), final(view)@, final(background)@, *final(numobj) as int, final(items)@)
            == player_walk_result(
            ((*old(obj), *old(alt), *old(altnum) as int, *old(flags), old(o)@, *old(pas), old(screen)@, *old(pcs)), old(view)@, old(background)@, *old(numobj) as int, old(items)@),
            c,
            button2,
            frameon,
            objecton as int,
            maxobj as int,
            objdef@,
            godmode,
            cl,
        ),
{
    let olddir: u16 = obj.dir;
    let mv = player_move(c, button2, frameon, olddir);
    let n = mv.steps.len();
    if n == 0 {
        obj.dir = mv.dir;
        return;
    }
    if n == 2 {
        obj.dir = mv.steps[0].to_u32() as u16;
        walk(obj, objecton, o, numobj, maxobj, objdef, view, background, items, alt, altnum, flags, godmode, cl, pas, screen, pcs);
    }
    obj.dir = mv.steps[n - 1].to_u32() as u16;
    let moved = walk(
        obj,
        objecton,
        o,
        numobj,
        maxobj,
        objdef,
        view,
        background,
        items,
        alt,
        altnum,
        flags,
        godmode,
        cl,
        pas,
        screen,
        pcs,
    );
    if !moved {
        ask_sound(1, pas);
    }
    if button2 {
        obj.dir = olddir;
    }
}

/// Nothing happens on open floor: an object steps onto it unhindered.
pub proof fn lemma_floor_passes(
    st: WalkState,
    objecton: int,
    x: int,
    y: int,
    maxobj: int,
    objdef: Seq<objdeftype>,
    godmode: bool,
    cl: WalkClasses,
)
    ensures
        walkthrough_result(st, objecton, x, y, 128, maxobj, objdef, godmode, cl) == (st, true),
{
    reveal(walkthrough_result);
}

/// Walls stop every walker and are never changed; only the object table,
/// its count and the sound state can change there (a shot's flash).
pub proof fn lemma_wall_stops(
    st: WalkState,
    objecton: int,
    x: int,
    y: int,
    spot: i32,
    maxobj: int,
    objdef: Seq<objdeftype>,
    godmode: bool,
    cl: WalkClasses,
)
    requires
        129 <= spot <= 135,
    ensures
        ({
            let (st2, r) = walkthrough_result(st, objecton, x, y, spot, maxobj, objdef, godmode, cl);
            &&& !r
            &&& st2.1 == st.1
            &&& st2.2 == st.2
            &&& st2.4 == st.4
            &&& walker(st2) == walker(st)
            &&& st2.0.6 == st.0.6
            &&& st2.0.7 == st.0.7
        }),
{
    reveal(walkthrough_result);
}

/// Only the player picks up items, opens doors and takes treasure: for
/// any other object, a cell without other objects (below tile 256) leaves
/// the item counts, the view, the screen and the text state as they were.
pub proof fn lemma_only_the_player_takes(
    st: WalkState,
    objecton: int,
    x: int,
    y: int,
    spot: i32,
    maxobj: int,
    objdef: Seq<objdeftype>,
    godmode: bool,
    cl: WalkClasses,
)
    requires
        walker(st).class != cl.contact.tag.player,
        spot < 256,
    ensures
        ({
            let (st2, r) = walkthrough_result(st, objecton, x, y, spot, maxobj, objdef, godmode, cl);
            &&& st2.4 == st.4
            &&& st2.1 == st.1
            &&& st2.0.6 == st.0.6
            &&& st2.0.7 == st.0.7
        }),
{
    reveal(walkthrough_result);
}

/// Cells of open floor from `k` on leave the state as it is and stop
/// nothing.
proof fn lemma_floor_cells(
    st: WalkState,
    objecton: int,
    p: WalkPlan,
    k: int,
    size: int,
    maxobj: int,
    objdef: Seq<objdeftype>,
    godmode: bool,
    cl: WalkClasses,
)
    requires
        forall|j: int| k <= j < size ==> #[trigger] st.1[cell(walk_cell(p, j).0, walk_cell(p, j).1)] == 128,
    ensures
        walk_from(st, objecton, p, k, size, maxobj, objdef, godmode, cl) == (st, None::<bool>),
    decreases size - k,
{
    if k < size {
        let c = walk_cell(p, k);
        assert(st.1[cell(c.0, c.1)] == 128);
        lemma_floor_cells(st, objecton, p, k + 1, size, maxobj, objdef, godmode, cl);
    }
}

/// An object facing north, east, south or west whose step newly covers
/// only open floor moves one cell that way, its walking picture flipping,
/// and nothing else changes.
pub proof fn lemma_walk_on_floor(
    st: WalkState,
    objecton: int,
    maxobj: int,
    objdef: Seq<objdeftype>,
    godmode: bool,
    cl: WalkClasses,
)
    requires
        walker(st).dir < 4,
        forall|j: int|
            0 <= j < walker(st).size ==> #[trigger] st.1[cell(
                walk_cell(plan_of(walker(st)), j).0,
                walk_cell(plan_of(walker(st)), j).1,
            )] == 128,
    ensures
        ({
            let obj = walker(st);
            let p = plan_of(obj);
            walk_result(st, objecton, maxobj, objdef, godmode, cl) == (
                with_walker(st, objtype { x: p.newx as u8, y: p.newy as u8, stage: obj.stage ^ 1u8, ..obj }),
                true,
            )
        }),
{
    let obj = walker(st);
    lemma_floor_cells(st, objecton, plan_of(obj), 0, obj.size as int, maxobj, objdef, godmode, cl);
}

/// Whether an object at (x, y) has left the play window whose top-left
/// cell is (ox, oy), by more than a cell up or left or past column or row
/// 22 of it.
pub open spec fn out_of_window(x: int, y: int, ox: int, oy: int) -> bool {
    x < ox - 1 || y < oy - 1 || x > ox + 22 || y > oy + 22
}

/// The state after a missile's move: one that has left the play window
/// (see `out_of_window`) is removed (class 0); otherwise it walks (see
/// `walk_result`), and is removed where it does not get through or has
/// struck (stage 2).
pub open spec fn shooter_result(
    st: WalkState,
    ox: int,
    oy: int,
    objecton: int,
    maxobj: int,
    objdef: Seq<objdeftype>,
    godmode: bool,
    cl: WalkClasses,
) -> WalkState {
    let obj = walker(st);
    if out_of_window(obj.x as int, obj.y as int, ox, oy) {
        with_walker(st, objtype { class: 0, ..obj })
    } else {
        let (st2, m) = walk_result(st, objecton, maxobj, objdef, godmode, cl);
        if !m || walker(st2).stage == 2 {
            with_walker(st2, objtype { class: 0, ..walker(st2) })
        } else {
            st2
        }
    }
}

/// A missile flies on (see `shooter_result`).
pub fn shooterthink(
    origin_x: i32,
    origin_y: i32,
    obj: &mut objtype,
    objecton: usize,
    o: &mut [activeobj],
    numobj: &mut i32,
    maxobj: i32,
    objdef: &[objdeftype],
    view: &mut [i32],
    background: &mut [i32],
    items: &mut [i16],
    alt: &mut objtype,
    altnum: &mut usize,
    flags: &mut PlayFlags,
    godmode: bool,
    cl: WalkClasses,
    pas: &mut PcrlibAState,
    screen: &mut [u8],
    pcs: &mut PcrlibCState,
)
    requires
        i32::MIN < origin_x <= i32::MAX - 22,
        i32::MIN < origin_y <= i32::MAX - 22,
        !out_of_window(old(obj).x as int, old(obj).y as int, origin_x as int, origin_y as int) ==> walk_ok(
            ((*old(obj), *old(alt), *old(altnum) as int, *old(flags), old(o)@, *old(pas), old(screen)@, *old(pcs)), old(view)@, old(background)@, *old(numobj) as int, old(items)@),
            objecton as int,
            maxobj as int,
            objdef@,
            godmode,
            cl,
        ),
    ensures
        ((*final(obj), *final(alt), *final(altnum) as int, *final(flags), final(o)@, *final(pas), final(screen)@, *final(pcs)), final(view)@, final(background)@, *final(numobj) as int, final(items)@)
            == shooter_result(
            ((*old(obj), *old(alt), *old(altnum) as int, *old(flags), old(o)@, *old(pas), old(screen)@, *old(pcs)), old(view)@, old(background)@, *old(numobj) as int, old(items)@),
            origin_x as int,
            origin_y as int,
            objecton as int,
            maxobj as int,
            objdef@,
            godmode,
            cl,
        ),
{
    let x: i32 = obj.x as i32;
    let y: i32 = obj.y as i32;
    if x < origin_x - 1 || y < origin_y - 1 || x > origin_x + 22 || y > origin_y + 22 {
        obj.class = 0;
        return;
    }
    let moved = walk(obj, objecton, o, numobj, maxobj, objdef, view, background, items, alt, altnum, flags, godmode, cl, pas, screen, pcs);
    if !moved || obj.stage == 2 {
        obj.class = 0;
    }
}

/// The walking state with the next number of the table sequence drawn.
pub open spec fn drawn(st: WalkState) -> WalkState {
    with_pas(st, PcrlibAState { rndindex: ((st.0.5.rndindex + 1) % 256) as u16, ..st.0.5 })
}

/// The state after the turn of a monster that throws (a gargoyle its
/// rocks, a dragon its fire, of class `missile`): it draws the next number
/// of the table sequence; above 220 it shows its throwing stage for 6
/// frames, asks for sound 5 and launches the missile from `1 + side` cells
/// across and, going east or south, 3 cells ahead; otherwise it chases the
/// player (see `chase_result`).
pub open spec fn thrower_result(
    st: WalkState,
    side: i32,
    missile: u16,
    objecton: int,
    maxobj: int,
    objdef: Seq<objdeftype>,
    godmode: bool,
    cl: WalkClasses,
) -> WalkState {
    let st1 = drawn(st);
    let (is, view, bg, numobj, items) = st1;
    let (obj, alt, altnum, flags, o, pas, screen, pcs) = is;
    if rndtable@[pas.rndindex as int] > 220 {
        let n = new_slot(o, numobj, maxobj);
        (
            (
                objtype { stage: 2, delay: 6, ..obj },
                alt,
                altnum,
                flags,
                o.update(
                    n,
                    launched(activeobj { oldtile: -1i16, oldx: 0u8, oldy: 0u8, ..o[n] }, missile, obj.dir, obj.x, obj.y, 1 + side, 3),
                ),
                asked_sound(pas, 5),
                screen,
                pcs,
            ),
            view,
            bg,
            count_after(o, numobj, maxobj),
            items,
        )
    } else {
        chase_result(st1, false, objecton, maxobj, objdef, godmode, cl)
    }
}

/// What a thrower's turn needs: room for the missile and sound 5 when it
/// throws, and what the chase needs when it does not.
pub open spec fn thrower_ok(
    st: WalkState,
    side: i32,
    objecton: int,
    maxobj: int,
    objdef: Seq<objdeftype>,
    godmode: bool,
    cl: WalkClasses,
) -> bool {
    let st1 = drawn(st);
    &&& table_ok(st.0.4, st.3, maxobj)
    &&& 0 <= side <= 1
    &&& can_ask_sound(st1.0.5, 5)
    &&& rndtable@[st1.0.5.rndindex as int] <= 220 ==> chase_ok(st1, false, objecton, maxobj, objdef, godmode, cl)
}

/// The turn of a gargoyle (`dragon` false, missile class `missile` its
/// rock) or a dragon (its big shot): see `thrower_result`.
pub fn throwerthink(
    dragon: bool,
    missile: u16,
    side: i32,
    obj: &mut objtype,
    objecton: usize,
    o: &mut [activeobj],
    numobj: &mut i32,
    maxobj: i32,
    objdef: &[objdeftype],
    view: &mut [i32],
    background: &mut [i32],
    items: &mut [i16],
    alt: &mut objtype,
    altnum: &mut usize,
    flags: &mut PlayFlags,
    godmode: bool,
    cl: WalkClasses,
    pas: &mut PcrlibAState,
    screen: &mut [u8],
    pcs: &mut PcrlibCState,
)
    requires
        thrower_ok(
            ((*old(obj), *old(alt), *old(altnum) as int, *old(flags), old(o)@, *old(pas), old(screen)@, *old(pcs)), old(view)@, old(background)@, *old(numobj) as int, old(items)@),
            side,
            objecton as int,
            maxobj as int,
            objdef@,
            godmode,
            cl,
        ),
    ensures
        ((*final(obj), *final(alt), *final(altnum) as int, *final(flags), final(o)@, *final(pas), final(screen)@, *final(pcs)), final(view)@, final(background)@, *final(numobj) as int, final(items)@)
            == thrower_result(
            ((*old(obj), *old(alt), *old(altnum) as int, *old(flags), old(o)@, *old(pas), old(screen)@, *old(pcs)), old(view)@, old(background)@, *old(numobj) as int, old(items)@),
            side,
            missile,
            objecton as int,
            maxobj as int,
            objdef@,
            godmode,
            cl,
        ),
{
    let threw = if dragon {
        dragonthink(obj, side, o, numobj, maxobj, pas, missile)
    } else {
        gargthink(obj, side, o, numobj, maxobj, pas, missile)
    };
    if !threw {
        chasethink(false, obj, objecton, o, numobj, maxobj, objdef, view, background, items, alt, altnum, flags, godmode, cl, pas, screen, pcs);
    }
}

/// The classes of the missiles objects launch on their turns: gargoyles'
/// rocks, and the big shots of dragons and gun turrets.
#[derive(Clone, Copy, Debug)]
pub struct MissileClasses {
    pub rock: u16,
    pub bigshot: u16,
}

/// A walking state with the background, object table, count and sound
/// state of `b` (see `blast`).
pub open spec fn with_blast(st: WalkState, b: (Seq<i32>, Seq<activeobj>, int, PcrlibAState)) -> WalkState {
    let (is, view, bg, numobj, items) = st;
    let (obj, alt, altnum, flags, o, pas, screen, pcs) = is;
    ((obj, alt, altnum, flags, b.1, b.3, screen, pcs), view, b.0, b.2, items)
}

/// The state after a gun turret's turn: it fires a big shot in direction
/// `dir` from its own cell (sound 5) and goes back to stage 0.
pub open spec fn gun_result(st: WalkState, dir: u16, maxobj: int, bigshot: u16) -> WalkState {
    let (is, view, bg, numobj, items) = st;
    let (obj, alt, altnum, flags, o, pas, screen, pcs) = is;
    let n = new_slot(o, numobj, maxobj);
    (
        (
            objtype { stage: 0, ..obj },
            alt,
            altnum,
            flags,
            o.update(
                n,
                activeobj {
                    active: true,
                    class: bigshot,
                    x: obj.x,
                    y: obj.y,
                    stage: 0,
                    delay: 0,
                    dir,
                    oldtile: -1i16,
                    oldx: 0,
                    oldy: 0,
                    ..o[n]
                },
            ),
            asked_sound(pas, 5),
            screen,
            pcs,
        ),
        view,
        bg,
        count_after(o, numobj, maxobj),
        items,
    )
}

/// The state after the turn of an object that behaves as `t`, other than
/// the player: gargoyles and dragons throw or chase (see
/// `thrower_result`), monsters chase straight or diagonally (see
/// `chase_result`), missiles fly (see `shooter_result`), idle and fading
/// objects animate (see `idlethink`, `fadethink`), explosions animate and
/// blast the cells next to them on entering stage 1 (see `blast`), and gun
/// turrets fire west (`gunthinke`) or north (`gunthinks`). The player's
/// turn is its frame (see `player_frame`): nothing happens here.
pub open spec fn think_result(
    st: WalkState,
    t: thinktype,
    side: i32,
    ox: int,
    oy: int,
    mc: MissileClasses,
    objecton: int,
    maxobj: int,
    objdef: Seq<objdeftype>,
    godmode: bool,
    cl: WalkClasses,
) -> WalkState {
    let obj = walker(st);
    match t {
        thinktype::playercmd => st,
        thinktype::gargcmd => thrower_result(st, side, mc.rock, objecton, maxobj, objdef, godmode, cl),
        thinktype::dragoncmd => thrower_result(st, side, mc.bigshot, objecton, maxobj, objdef, godmode, cl),
        thinktype::ramstraight => chase_result(st, false, objecton, maxobj, objdef, godmode, cl),
        thinktype::ramdiag => chase_result(st, true, objecton, maxobj, objdef, godmode, cl),
        thinktype::straight => shooter_result(st, ox, oy, objecton, maxobj, objdef, godmode, cl),
        thinktype::idle => with_walker(
            st,
            objtype {
                stage: if next_stage(obj.stage) == obj.stages { 0 } else { next_stage(obj.stage) },
                delay: 2,
                ..obj
            },
        ),
        thinktype::fade => with_walker(
            st,
            objtype {
                stage: next_stage(obj.stage),
                delay: 2,
                class: if next_stage(obj.stage) == obj.stages { 0 } else { obj.class },
                ..obj
            },
        ),
        thinktype::explode => {
            let st1 = if next_stage(obj.stage) == 1 {
                with_blast(st, blast(st.2, st.0.4, st.3, st.0.5, maxobj, cl.contact.tag.dead1, obj.x as int, obj.y as int))
            } else {
                st
            };
            with_walker(
                st1,
                objtype {
                    stage: next_stage(obj.stage),
                    delay: 2,
                    class: if next_stage(obj.stage) == obj.stages { 0 } else { obj.class },
                    ..obj
                },
            )
        },
        thinktype::gunthinke => gun_result(st, 3, maxobj, mc.bigshot),
        thinktype::gunthinks => gun_result(st, 0, maxobj, mc.bigshot),
    }
}

/// What an object's turn as `t` needs (see `think_result`): that of the
/// behaviour it runs.
pub open spec fn think_ok(
    st: WalkState,
    t: thinktype,
    side: i32,
    ox: int,
    oy: int,
    objecton: int,
    maxobj: int,
    objdef: Seq<objdeftype>,
    godmode: bool,
    cl: WalkClasses,
) -> bool {
    let obj = walker(st);
    match t {
        thinktype::gargcmd | thinktype::dragoncmd => thrower_ok(st, side, objecton, maxobj, objdef, godmode, cl),
        thinktype::ramstraight => chase_ok(st, false, objecton, maxobj, objdef, godmode, cl),
        thinktype::ramdiag => chase_ok(st, true, objecton, maxobj, objdef, godmode, cl),
        thinktype::straight => {
            &&& i32::MIN < ox <= i32::MAX - 22
            &&& i32::MIN < oy <= i32::MAX - 22
            &&& !out_of_window(obj.x as int, obj.y as int, ox, oy) ==> walk_ok(st, objecton, maxobj, objdef, godmode, cl)
        },
        thinktype::explode => next_stage(obj.stage) == 1 ==> blast_ok(
            st.2,
            st.0.4,
            st.3,
            st.0.5,
            maxobj,
            cl.contact.tag.dead1,
            obj.x as int,
            obj.y as int,
        ),
        thinktype::gunthinke | thinktype::gunthinks => {
            &&& table_ok(st.0.4, st.3, maxobj)
            &&& can_ask_sound(st.0.5, 5)
        },
        _ => true,
    }
}

/// The turn of object `obj` (in slot `objecton`) as `t` (see
/// `think_result`), with `side` the side the player's last small shot left
/// from and (origin_x, origin_y) the play window's top-left cell.
pub fn monster_think(
    t: thinktype,
    side: i32,
    origin_x: i32,
    origin_y: i32,
    mc: MissileClasses,
    obj: &mut objtype,
    objecton: usize,
    o: &mut [activeobj],
    numobj: &mut i32,
    maxobj: i32,
    objdef: &[objdeftype],
    view: &mut [i32],
    background: &mut [i32],
    items: &mut [i16],
    alt: &mut objtype,
    altnum: &mut usize,
    flags: &mut PlayFlags,
    godmode: bool,
    cl: WalkClasses,
    pas: &mut PcrlibAState,
    screen: &mut [u8],
    pcs: &mut PcrlibCState,
)
    requires
        think_ok(
            ((*old(obj), *old(alt), *old(altnum) as int, *old(flags), old(o)@, *old(pas), old(screen)@, *old(pcs)), old(view)@, old(background)@, *old(numobj) as int, old(items)@),
            t,
            side,
            origin_x as int,
            origin_y as int,
            objecton as int,
            maxobj as int,
            objdef@,
            godmode,
            cl,
        ),
    ensures
        ((*final(obj), *final(alt), *final(altnum) as int, *final(flags), final(o)@, *final(pas), final(screen)@, *final(pcs)), final(view)@, final(background)@, *final(numobj) as int, final(items)@)
            == think_result(
            ((*old(obj), *old(alt), *old(altnum) as int, *old(flags), old(o)@, *old(pas), old(screen)@, *old(pcs)), old(view)@, old(background)@, *old(numobj) as int, old(items)@),
            t,
            side,
            origin_x as int,
            origin_y as int,
            mc,
            objecton as int,
            maxobj as int,
            objdef@,
            godmode,
            cl,
        ),
{
    match t {
        thinktype::playercmd => {},
        thinktype::gargcmd => {
            throwerthink(false, mc.rock, side, obj, objecton, o, numobj, maxobj, objdef, view, background, items, alt, altnum, flags, godmode, cl, pas, screen, pcs);
        },
        thinktype::dragoncmd => {
            throwerthink(true, mc.bigshot, side, obj, objecton, o, numobj, maxobj, objdef, view, background, items, alt, altnum, flags, godmode, cl, pas, screen, pcs);
        },
        thinktype::ramstraight => {
            chasethink(false, obj, objecton, o, numobj, maxobj, objdef, view, background, items, alt, altnum, flags, godmode, cl, pas, screen, pcs);
        },
        thinktype::ramdiag => {
            chasethink(true, obj, objecton, o, numobj, maxobj, objdef, view, background, items, alt, altnum, flags, godmode, cl, pas, screen, pcs);
        },
        thinktype::straight => {
            shooterthink(origin_x, origin_y, obj, objecton, o, numobj, maxobj, objdef, view, background, items, alt, altnum, flags, godmode, cl, pas, screen, pcs);
        },
        thinktype::idle => {
            idlethink(obj);
        },
        thinktype::fade => {
            fadethink(obj);
        },
        thinktype::explode => {
            explodethink(obj, background, o, numobj, maxobj, pas, cl.contact.tag.dead1);
        },
        thinktype::gunthinke => {
            gunthink(3, obj, o, numobj, maxobj, pas, mc.bigshot);
        },
        thinktype::gunthinks => {
            gunthink(0, obj, o, numobj, maxobj, pas, mc.bigshot);
        },
    }
}

/// What became of an active object's turn.
#[derive(Clone, Copy, Debug, PartialEq, Eq, Structural)]
pub enum ActiveTurn {
    /// It was too far from the play window and went to sleep.
    Deactivated,
    /// It is the player's turn: the caller runs the player's frame (see
    /// `player_frame`), then `finish_turn`.
    PlayerTurn,
    /// The turn is over.
    Done,
}

/// Whether an object at (x, y) is too far from the play window whose
/// top-left cell is (ox, oy) to stay awake: more than 10 cells up or left,
/// or past column or row 34 of it.
pub open spec fn far_from_window(x: int, y: int, ox: int, oy: int) -> bool {
    x < ox - 10 || x > ox + 34 || y < oy - 10 || y > oy + 34
}

/// The record, table and view after an object's turn is drawn: its shape
/// is taken out of the view where it was (see `erased_view`); unless play is
/// over, an object still there (class not 0) is drawn where it is now (see
/// `drawn_view`, remembering the tile and place) and its record goes back
/// into slot `objecton` of the table.
pub open spec fn finish_result(
    obj: objtype,
    o: Seq<activeobj>,
    view: Seq<i32>,
    bg: Seq<i32>,
    playdone: bool,
    objecton: int,
    priority: Seq<u8>,
) -> (objtype, Seq<activeobj>, Seq<i32>) {
    let view1 = erased_view(view, obj, bg);
    if playdone {
        (obj, o, view1)
    } else {
        let (obj2, view2) = if obj.class > 0 {
            (objtype { oldtile: shape_tile(obj) as i16, oldx: obj.x, oldy: obj.y, ..obj }, drawn_view(view1, obj, priority))
        } else {
            (obj, view1)
        };
        (obj2, o.update(objecton, activeobj::of_objtype(obj2)), view2)
    }
}

/// What drawing an object's turn needs: its square where it was and where
/// it is lies in the view, the background as large as the view, its tiles
/// in the priority table, and its slot in the table.
pub open spec fn finish_ok(
    obj: objtype,
    o: Seq<activeobj>,
    view: Seq<i32>,
    bg: Seq<i32>,
    playdone: bool,
    objecton: int,
    priority: Seq<u8>,
) -> bool {
    let view1 = erased_view(view, obj, bg);
    &&& 0 <= objecton < o.len()
    &&& obj.size <= 8
    &&& bg.len() == view.len()
    &&& square_fits(obj_base(obj.oldx as int, obj.oldy as int), obj.size as int, view.len() as int)
    &&& obj.oldtile + obj.size * obj.size <= i16::MAX
    &&& !playdone && obj.class > 0 ==> {
        &&& shape_tile(obj) < priority.len()
        &&& square_fits(obj_base(obj.x as int, obj.y as int), obj.size as int, view.len() as int)
        &&& forall|i: int|
            0 <= i < view1.len() && in_square(obj_base(obj.x as int, obj.y as int), obj.size as int, i) ==> 0
                <= #[trigger] view1[i] < priority.len()
    }
}

/// Draws the end of an object's turn (see `finish_result`), play being
/// over when `playdone`.
pub fn finish_turn(
    obj: &mut objtype,
    objecton: usize,
    o: &mut [activeobj],
    view: &mut [i32],
    background: &[i32],
    playdone: bool,
    priority: &[u8],
)
    requires
        finish_ok(*old(obj), old(o)@, old(view)@, background@, playdone, objecton as int, priority@),
    ensures
        (*final(obj), final(o)@, final(view)@) == finish_result(
            *old(obj),
            old(o)@,
            old(view)@,
            background@,
            playdone,
            objecton as int,
            priority@,
        ),
{
    eraseobj(obj, view, background);
    if playdone {
        return;
    }
    if obj.class > 0 {
        drawobj(obj, view, priority);
    }
    o[objecton] = activeobj::from(*obj);
}

/// An object's turn gate (see `think_gate`): an object still waiting
/// counts its delay down; otherwise the next number of the table sequence
/// is drawn, and below the object's speed it runs its behaviour.
pub open spec fn turn_gate(st: WalkState) -> (WalkState, Option<thinktype>) {
    let obj = walker(st);
    if obj.delay > 0 {
        (with_walker(st, objtype { delay: (obj.delay - 1) as u8, ..obj }), None)
    } else {
        let st1 = drawn(st);
        (
            st1,
            if (rndtable@[st1.0.5.rndindex as int] as int) < obj.speed {
                think_of(obj.think)
            } else {
                None
            },
        )
    }
}

/// A walking state once its object's turn is drawn (see `finish_result`).
pub open spec fn finished(st: WalkState, objecton: int, priority: Seq<u8>) -> WalkState {
    let (is, view, bg, numobj, items) = st;
    let (obj, alt, altnum, flags, o, pas, screen, pcs) = is;
    let f = finish_result(obj, o, view, bg, flags.playdone, objecton, priority);
    ((f.0, alt, altnum, flags, f.1, pas, screen, pcs), f.2, bg, numobj, items)
}

/// The state after an active object's turn and what became of it: one
/// too far from the play window (see `far_from_window`), unless dying
/// (class `dead1`), goes to sleep in its slot; otherwise it passes its
/// turn gate (see `turn_gate`), and the player's turn goes to the caller,
/// while any other object behaves as its definition says (see
/// `think_result`) and is drawn (see `finished`).
pub open spec fn doactive_result(
    st: WalkState,
    ox: int,
    oy: int,
    side: i32,
    mc: MissileClasses,
    priority: Seq<u8>,
    objecton: int,
    maxobj: int,
    objdef: Seq<objdeftype>,
    godmode: bool,
    cl: WalkClasses,
) -> (WalkState, ActiveTurn) {
    let obj = walker(st);
    if obj.class != cl.contact.tag.dead1 && far_from_window(obj.x as int, obj.y as int, ox, oy) {
        let (is, view, bg, numobj, items) = st;
        let (o0, alt, altnum, flags, o, pas, screen, pcs) = is;
        (
            ((o0, alt, altnum, flags, o.update(objecton, activeobj { active: false, ..o[objecton] }), pas, screen, pcs), view, bg, numobj, items),
            ActiveTurn::Deactivated,
        )
    } else {
        let (st1, t) = turn_gate(st);
        match t {
            Some(thinktype::playercmd) => (st1, ActiveTurn::PlayerTurn),
            Some(tt) => (
                finished(think_result(st1, tt, side, ox, oy, mc, objecton, maxobj, objdef, godmode, cl), objecton, priority),
                ActiveTurn::Done,
            ),
            None => (finished(st1, objecton, priority), ActiveTurn::Done),
        }
    }
}

/// What an active object's turn needs: its slot, a play window far from
/// the limits of `i32`, and what its behaviour and its drawing need.
pub open spec fn doactive_ok(
    st: WalkState,
    ox: int,
    oy: int,
    side: i32,
    mc: MissileClasses,
    priority: Seq<u8>,
    objecton: int,
    maxobj: int,
    objdef: Seq<objdeftype>,
    godmode: bool,
    cl: WalkClasses,
) -> bool {
    let obj = walker(st);
    let (st1, t) = turn_gate(st);
    let st2 = match t {
        Some(tt) => think_result(st1, tt, side, ox, oy, mc, objecton, maxobj, objdef, godmode, cl),
        None => st1,
    };
    &&& 0 <= objecton < st.0.4.len()
    &&& i32::MIN + 10 <= ox <= i32::MAX - 34
    &&& i32::MIN + 10 <= oy <= i32::MAX - 34
    &&& !(obj.class != cl.contact.tag.dead1 && far_from_window(obj.x as int, obj.y as int, ox, oy)) && t != Some(
        thinktype::playercmd,
    ) ==> {
        &&& t matches Some(tt) ==> think_ok(st1, tt, side, ox, oy, objecton, maxobj, objdef, godmode, cl)
        &&& finish_ok(walker(st2), st2.0.4, st2.1, st2.2, st2.0.3.playdone, objecton, priority)
    }
}

/// The turn of the active object `obj` in slot `objecton` (see
/// `doactive_result`), with (origin_x, origin_y) the play window's top-left
/// cell, `side` the side of the player's last small shot and `priority`
/// the tiles' drawing priorities.
pub fn doactive(
    origin_x: i32,
    origin_y: i32,
    side: i32,
    mc: MissileClasses,
    priority: &[u8],
    obj: &mut objtype,
    objecton: usize,
    o: &mut [activeobj],
    numobj: &mut i32,
    maxobj: i32,
    objdef: &[objdeftype],
    view: &mut [i32],
    background: &mut [i32],
    items: &mut [i16],
    alt: &mut objtype,
    altnum: &mut usize,
    flags: &mut PlayFlags,
    godmode: bool,
    cl: WalkClasses,
    pas: &mut PcrlibAState,
    screen: &mut [u8],
    pcs: &mut PcrlibCState,
) -> (r: ActiveTurn)
    requires
        doactive_ok(
            ((*old(obj), *old(alt), *old(altnum) as int, *old(flags), old(o)@, *old(pas), old(screen)@, *old(pcs)), old(view)@, old(background)@, *old(numobj) as int, old(items)@),
            origin_x as int,
            origin_y as int,
            side,
            mc,
            priority@,
            objecton as int,
            maxobj as int,
            objdef@,
            godmode,
            cl,
        ),
    ensures
        (
            ((*final(obj), *final(alt), *final(altnum) as int, *final(flags), final(o)@, *final(pas), final(screen)@, *final(pcs)), final(view)@, final(background)@, *final(numobj) as int, final(items)@),
            r,
        ) == doactive_result(
            ((*old(obj), *old(alt), *old(altnum) as int, *old(flags), old(o)@, *old(pas), old(screen)@, *old(pcs)), old(view)@, old(background)@, *old(numobj) as int, old(items)@),
            origin_x as int,
            origin_y as int,
            side,
            mc,
            priority@,
            objecton as int,
            maxobj as int,
            objdef@,
            godmode,
            cl,
        ),
{
    let x: i32 = obj.x as i32;
    let y: i32 = obj.y as i32;
    if obj.class != cl.contact.tag.dead1 && (x < origin_x - 10 || x > origin_x + 34 || y < origin_y - 10 || y
        > origin_y + 34) {
        o[objecton].active = false;
        return ActiveTurn::Deactivated;
    }
    let t = think_gate(obj, pas);
    match t {
        Some(thinktype::playercmd) => {
            return ActiveTurn::PlayerTurn;
        },
        Some(tt) => {
            monster_think(tt, side, origin_x, origin_y, mc, obj, objecton, o, numobj, maxobj, objdef, view, background, items, alt, altnum, flags, godmode, cl, pas, screen, pcs);
        },
        None => {},
    }
    finish_turn(obj, objecton, o, view, background, flags.playdone, priority);
    ActiveTurn::Done
}

/// Where a sweep through the object table stopped.
#[derive(Clone, Copy, Debug, PartialEq, Eq, Structural)]
pub enum Sweep {
    /// At the player's turn, in slot `slot`: the caller runs the player's
    /// frame, draws it (see `finish_turn`) and sweeps on from the slot
    /// below.
    PlayerTurn { slot: usize },
    /// The level or the game is over.
    Stopped,
    /// Every object had its turn.
    Finished,
}

/// The working record loaded for table entry `a`: its instance fields, and
/// for a live object (class not 0) its class's fields.
pub open spec fn loaded_obj(obj: objtype, a: activeobj, objdef: Seq<objdeftype>) -> objtype {
    let o1 = with_instance(obj, a);
    if o1.class != 0 {
        with_class(o1, objdef[o1.class as int])
    } else {
        o1
    }
}

/// The state after a sleeping object's turn: near the play window (see
/// `near_window`) it wakes facing north, saved back to slot `k`.
pub open spec fn inactive_result(st: WalkState, ox: int, oy: int, k: int) -> WalkState {
    let obj = walker(st);
    if near_window(obj.x as int, obj.y as int, obj.size as int, ox, oy) {
        let obj2 = objtype { active: true, dir: 0, ..obj };
        let (is, view, bg, numobj, items) = st;
        let (o0, alt, altnum, flags, o, pas, screen, pcs) = is;
        ((obj2, alt, altnum, flags, o.update(k, activeobj::of_objtype(obj2)), pas, screen, pcs), view, bg, numobj, items)
    } else {
        st
    }
}

/// One object's turn in a sweep, at slot `k`: its record is loaded (see
/// `loaded_obj`); a live one takes its turn, awake (see `doactive_result`)
/// or asleep (see `inactive_result`). Returns the state and whether it is
/// the player's turn.
pub open spec fn sweep_one(
    st: WalkState,
    k: int,
    ox: int,
    oy: int,
    side: i32,
    mc: MissileClasses,
    priority: Seq<u8>,
    maxobj: int,
    objdef: Seq<objdeftype>,
    godmode: bool,
    cl: WalkClasses,
) -> (WalkState, bool) {
    let obj = loaded_obj(walker(st), st.0.4[k], objdef);
    let st0 = with_walker(st, obj);
    if obj.class != 0 {
        if obj.active {
            let (s, r) = doactive_result(st0, ox, oy, side, mc, priority, k, maxobj, objdef, godmode, cl);
            (s, r == ActiveTurn::PlayerTurn)
        } else {
            (inactive_result(st0, ox, oy, k), false)
        }
    } else {
        (st0, false)
    }
}

/// The objects from slot `k` down to slot 0 take their turns in turn (see
/// `sweep_one`), until the player's turn or the end of the level or game.
pub open spec fn sweep_from(
    st: WalkState,
    k: int,
    ox: int,
    oy: int,
    side: i32,
    mc: MissileClasses,
    priority: Seq<u8>,
    maxobj: int,
    objdef: Seq<objdeftype>,
    godmode: bool,
    cl: WalkClasses,
) -> (WalkState, Sweep)
    decreases k + 1,
{
    if k < 0 {
        (st, Sweep::Finished)
    } else {
        let (st1, player) = sweep_one(st, k, ox, oy, side, mc, priority, maxobj, objdef, godmode, cl);
        if player {
            (st1, Sweep::PlayerTurn { slot: k as usize })
        } else if st1.0.3.leveldone || st1.0.3.playdone {
            (st1, Sweep::Stopped)
        } else {
            sweep_from(st1, k - 1, ox, oy, side, mc, priority, maxobj, objdef, godmode, cl)
        }
    }
}

/// What a sweep from slot `k` needs: each object's slot and class lie in
/// their tables, and each turn meets what it needs in the state the turns
/// before it left.
pub open spec fn sweep_ok(
    st: WalkState,
    k: int,
    ox: int,
    oy: int,
    side: i32,
    mc: MissileClasses,
    priority: Seq<u8>,
    maxobj: int,
    objdef: Seq<objdeftype>,
    godmode: bool,
    cl: WalkClasses,
) -> bool
    decreases k + 1,
{
    if k < 0 {
        true
    } else {
        let a = st.0.4[k];
        let obj = loaded_obj(walker(st), a, objdef);
        let st0 = with_walker(st, obj);
        let (st1, player) = sweep_one(st, k, ox, oy, side, mc, priority, maxobj, objdef, godmode, cl);
        &&& k < st.0.4.len()
        &&& a.class != 0 ==> a.class < objdef.len()
        &&& ox <= i32::MAX - 24 && oy <= i32::MAX - 24
        &&& obj.class != 0 && obj.active ==> doactive_ok(st0, ox, oy, side, mc, priority, k, maxobj, objdef, godmode, cl)
        &&& !player && !(st1.0.3.leveldone || st1.0.3.playdone) ==> sweep_ok(
            st1,
            k - 1,
            ox,
            oy,
            side,
            mc,
            priority,
            maxobj,
            objdef,
            godmode,
            cl,
        )
    }
}

/// The objects from slot `from` down to slot 0 take their turns (see
/// `sweep_from`); returns where the sweep stopped.
pub fn doall_sweep(
    from: usize,
    origin_x: i32,
    origin_y: i32,
    side: i32,
    mc: MissileClasses,
    priority: &[u8],
    obj: &mut objtype,
    o: &mut [activeobj],
    numobj: &mut i32,
    maxobj: i32,
    objdef: &[objdeftype],
    view: &mut [i32],
    background: &mut [i32],
    items: &mut [i16],
    alt: &mut objtype,
    altnum: &mut usize,
    flags: &mut PlayFlags,
    godmode: bool,
    cl: WalkClasses,
    pas: &mut PcrlibAState,
    screen: &mut [u8],
    pcs: &mut PcrlibCState,
) -> (r: Sweep)
    requires
        from < usize::MAX,
        sweep_ok(
            ((*old(obj), *old(alt), *old(altnum) as int, *old(flags), old(o)@, *old(pas), old(screen)@, *old(pcs)), old(view)@, old(background)@, *old(numobj) as int, old(items)@),
            from as int,
            origin_x as int,
            origin_y as int,
            side,
            mc,
            priority@,
            maxobj as int,
            objdef@,
            godmode,
            cl,
        ),
    ensures
        (
            ((*final(obj), *final(alt), *final(altnum) as int, *final(flags), final(o)@, *final(pas), final(screen)@, *final(pcs)), final(view)@, final(background)@, *final(numobj) as int, final(items)@),
            r,
        ) == sweep_from(
            ((*old(obj), *old(alt), *old(altnum) as int, *old(flags), old(o)@, *old(pas), old(screen)@, *old(pcs)), old(view)@, old(background)@, *old(numobj) as int, old(items)@),
            from as int,
            origin_x as int,
            origin_y as int,
            side,
            mc,
            priority@,
            maxobj as int,
            objdef@,
            godmode,
            cl,
        ),
{
    let ghost st0: WalkState = ((*obj, *alt, *altnum as int, *flags, o@, *pas, screen@, *pcs), view@, background@, *numobj as int, items@);
    let ghost full = sweep_from(st0, from as int, origin_x as int, origin_y as int, side, mc, priority@, maxobj as int, objdef@, godmode, cl);
    let mut k: usize = from + 1;
    while k > 0
        invariant
            k <= from + 1,
            st0 == ((*old(obj), *old(alt), *old(altnum) as int, *old(flags), old(o)@, *old(pas), old(screen)@, *old(pcs)), old(view)@, old(background)@, *old(numobj) as int, old(items)@),
            full == sweep_from(st0, from as int, origin_x as int, origin_y as int, side, mc, priority@, maxobj as int, objdef@, godmode, cl),
            full == sweep_from(
                ((*obj, *alt, *altnum as int, *flags, o@, *pas, screen@, *pcs), view@, background@, *numobj as int, items@),
                k - 1,
                origin_x as int,
                origin_y as int,
                side,
                mc,
                priority@,
                maxobj as int,
                objdef@,
                godmode,
                cl,
            ),
            sweep_ok(
                ((*obj, *alt, *altnum as int, *flags, o@, *pas, screen@, *pcs), view@, background@, *numobj as int, items@),
                k - 1,
                origin_x as int,
                origin_y as int,
                side,
                mc,
                priority@,
                maxobj as int,
                objdef@,
                godmode,
                cl,
            ),
        decreases k,
    {
        let i: usize = k - 1;
        let ghost before: WalkState = ((*obj, *alt, *altnum as int, *flags, o@, *pas, screen@, *pcs), view@, background@, *numobj as int, items@);
        obj.update_from_activeobj(&o[i]);
        if obj.class != 0 {
            obj.update_from_objdeftype(&objdef[obj.class as usize]);
            assert(*obj == loaded_obj(walker(before), before.0.4[i as int], objdef@));
            if obj.active {
                let r = doactive(origin_x, origin_y, side, mc, priority, obj, i, o, numobj, maxobj, objdef, view, background, items, alt, altnum, flags, godmode, cl, pas, screen, pcs);
                if r == ActiveTurn::PlayerTurn {
                    return Sweep::PlayerTurn { slot: i };
                }
            } else {
                doinactive(obj, origin_x, origin_y, o, i);
            }
        } else {
            assert(*obj == loaded_obj(walker(before), before.0.4[i as int], objdef@));
        }
        if flags.leveldone || flags.playdone {
            return Sweep::Stopped;
        }
        k = k - 1;
    }
    Sweep::Finished
}

} // verus!
