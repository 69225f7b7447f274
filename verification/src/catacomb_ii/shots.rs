//! Missiles and blasts: the player's shots, monsters' missiles, gun
//! turrets, the nuke spell, and walls that crumble near an explosion. New
//! objects take a slot of the object table (see `newobject`); the numbers
//! of the classes they get are the caller's.
use vstd::prelude::*;

use crate::catacomb_ii::active_obj::activeobj;
use crate::catacomb_ii::cat_play::{cell, first_free, new_slot, newobject, next_stage};
use crate::catacomb_ii::catasm::VIEW_STRIDE;
use crate::catacomb_ii::inventory::{ask_sound, asked_sound, can_ask_sound, take_item, took_picture, NUKES};
use crate::catacomb_ii::obj_type::objtype;
use crate::catacomb_ii::pcrlib_a::{rndt, rndtable};
use crate::catacomb_ii::pcrlib_a_state::PcrlibAState;
use crate::catacomb_ii::pcrlib_c_state::PcrlibCState;
use crate::catacomb_ii::text_window::draw_ok;

verus! {

/// The number of objects `newobject` counts after taking a slot.
pub open spec fn count_after(o: Seq<activeobj>, numobj: int, maxobj: int) -> int {
    if first_free(o, 1, numobj) is None && numobj < maxobj {
        numobj + 1
    } else {
        numobj
    }
}

/// A missile launched from an object at (x, y) facing `dir`: `offset`
/// cells across the direction of flight and, going east or south, `reach`
/// cells ahead (the launcher's width); other directions keep the slot's
/// position. It starts active, in stage 0 with no delay, not yet drawn.
pub open spec fn launched(prev: activeobj, class: u16, dir: u16, x: u8, y: u8, offset: int, reach: int) -> activeobj {
    let base = activeobj {
        active: true,
        class,
        stage: 0,
        delay: 0,
        dir,
        oldtile: -1i16,
        oldx: 0,
        oldy: 0,
        ..prev
    };
    if dir == 0 {
        activeobj { x: (x + offset) as u8, y, ..base }
    } else if dir == 1 {
        activeobj { x: (x + reach) as u8, y: (y + offset) as u8, ..base }
    } else if dir == 2 {
        activeobj { x: (x + offset) as u8, y: (y + reach) as u8, ..base }
    } else if dir == 3 {
        activeobj { x, y: (y + offset) as u8, ..base }
    } else {
        base
    }
}

/// Puts a missile of `class` in slot `n` (see `launched`).
fn launch(
    o: &mut [activeobj],
    n: usize,
    class: u16,
    dir: u16,
    x: u8,
    y: u8,
    offset: i32,
    reach: i32,
)
    requires
        n < old(o)@.len(),
        old(o)@[n as int].oldtile == -1 && old(o)@[n as int].oldx == 0 && old(o)@[n as int].oldy == 0,
        0 <= offset <= 2,
        0 <= reach <= 3,
    ensures
        final(o)@ == old(o)@.update(
            n as int,
            launched(old(o)@[n as int], class, dir, x, y, offset as int, reach as int),
        ),
{
    o[n].class = class;
    o[n].delay = 0;
    o[n].stage = 0;
    o[n].active = true;
    o[n].dir = dir;
    if dir == 0 {
        o[n].x = (x as i32 + offset) as u8;
        o[n].y = y;
    } else if dir == 1 {
        o[n].x = (x as i32 + reach) as u8;
        o[n].y = (y as i32 + offset) as u8;
    } else if dir == 2 {
        o[n].x = (x as i32 + offset) as u8;
        o[n].y = (y as i32 + reach) as u8;
    } else if dir == 3 {
        o[n].x = x;
        o[n].y = (y as i32 + offset) as u8;
    }
    assert(o@ =~= old(o)@.update(
        n as int,
        launched(old(o)@[n as int], class, dir, x, y, offset as int, reach as int),
    ));
}

/// What `newobject` needs of the object table: a count below its length,
/// and room for one more slot when the count may grow.
pub open spec fn table_ok(o: Seq<activeobj>, numobj: int, maxobj: int) -> bool {
    &&& 0 <= numobj < o.len()
    &&& numobj < maxobj ==> numobj + 1 < o.len()
}

/// The player shoots: it shows its shooting stage for 4 frames, asks for
/// sound 5, and a shot of class `shot` is launched from alternate sides of
/// it (`side` flips first), one cell ahead going east or south.
pub fn playshoot(
    obj: &mut objtype,
    side: &mut i32,
    o: &mut [activeobj],
    numobj: &mut i32,
    maxobj: i32,
    pas: &mut PcrlibAState,
    shot: u16,
)
    requires
        table_ok(old(o)@, *old(numobj) as int, maxobj as int),
        can_ask_sound(*old(pas), 5),
        0 <= *old(side) <= 1,
    ensures
        *final(obj) == (objtype { stage: 2, delay: 4, ..*old(obj) }),
        *final(pas) == asked_sound(*old(pas), 5),
        *final(side) == 1 - *old(side),
        *final(numobj) == count_after(old(o)@, *old(numobj) as int, maxobj as int),
        ({
            let n = new_slot(old(o)@, *old(numobj) as int, maxobj as int);
            final(o)@ == old(o)@.update(
                n,
                launched(
                    activeobj { oldtile: -1i16, oldx: 0u8, oldy: 0u8, ..old(o)@[n] },
                    shot,
                    old(obj).dir,
                    old(obj).x,
                    old(obj).y,
                    *final(side) as int,
                    1,
                ),
            )
        }),
{
    obj.stage = 2;
    obj.delay = 4;
    ask_sound(5, pas);
    let n = newobject(o, numobj, maxobj);
    let s0: i32 = *side;
    let s1: i32 = s0 ^ 1;
    assert(s1 == 1 - s0) by (bit_vector)
        requires
            s1 == s0 ^ 1,
            0 <= s0 <= 1,
    ;
    *side = s1;
    launch(o, n as usize, shot, obj.dir, obj.x, obj.y, *side, 1);
}

/// The player fires a big shot (class `bigshot`) from its own cell: it
/// shows its shooting stage (for 4 frames unless bolts are being cast,
/// `boltsleft` above 0) and asks for sound 4.
pub fn playbigshoot(
    obj: &mut objtype,
    boltsleft: i32,
    o: &mut [activeobj],
    numobj: &mut i32,
    maxobj: i32,
    pas: &mut PcrlibAState,
    bigshot: u16,
)
    requires
        table_ok(old(o)@, *old(numobj) as int, maxobj as int),
        can_ask_sound(*old(pas), 4),
    ensures
        *final(obj) == (objtype {
            stage: 2,
            delay: if boltsleft == 0 { 4 } else { old(obj).delay },
            ..*old(obj)
        }),
        *final(pas) == asked_sound(*old(pas), 4),
        *final(numobj) == count_after(old(o)@, *old(numobj) as int, maxobj as int),
        ({
            let n = new_slot(old(o)@, *old(numobj) as int, maxobj as int);
            final(o)@ == old(o)@.update(
                n,
                activeobj {
                    active: true,
                    class: bigshot,
                    x: old(obj).x,
                    y: old(obj).y,
                    stage: 0,
                    delay: 0,
                    dir: old(obj).dir,
                    oldtile: -1i16,
                    oldx: 0,
                    oldy: 0,
                    ..old(o)@[n]
                },
            )
        }),
{
    obj.stage = 2;
    if boltsleft == 0 {
        obj.delay = 4;
    }
    ask_sound(4, pas);
    let n = newobject(o, numobj, maxobj) as usize;
    o[n].delay = 0;
    o[n].stage = 0;
    o[n].active = true;
    o[n].dir = obj.dir;
    o[n].x = obj.x;
    o[n].y = obj.y;
    o[n].class = bigshot;
}

/// A gun turret fires a big shot (class `bigshot`) from its own cell in
/// direction `dir`, asking for sound 5; the turret goes back to stage 0.
pub fn gunthink(
    dir: i32,
    obj: &mut objtype,
    o: &mut [activeobj],
    numobj: &mut i32,
    maxobj: i32,
    pas: &mut PcrlibAState,
    bigshot: u16,
)
    requires
        table_ok(old(o)@, *old(numobj) as int, maxobj as int),
        can_ask_sound(*old(pas), 5),
    ensures
        *final(obj) == (objtype { stage: 0, ..*old(obj) }),
        *final(pas) == asked_sound(*old(pas), 5),
        *final(numobj) == count_after(old(o)@, *old(numobj) as int, maxobj as int),
        ({
            let n = new_slot(old(o)@, *old(numobj) as int, maxobj as int);
            final(o)@ == old(o)@.update(
                n,
                activeobj {
                    active: true,
                    class: bigshot,
                    x: old(obj).x,
                    y: old(obj).y,
                    stage: 0,
                    delay: 0,
                    dir: dir as u16,
                    oldtile: -1i16,
                    oldx: 0,
                    oldy: 0,
                    ..old(o)@[n]
                },
            )
        }),
{
    ask_sound(5, pas);
    obj.stage = 0;
    let n = newobject(o, numobj, maxobj) as usize;
    o[n].class = bigshot;
    o[n].delay = 0;
    o[n].stage = 0;
    o[n].active = true;
    o[n].dir = dir as u16;
    o[n].x = obj.x;
    o[n].y = obj.y;
}

/// A monster that throws missiles, after drawing the next random number:
/// above 220, it shows its throwing stage for 6 frames, asks for sound 5
/// and launches a missile of `missile` from `1 + side` cells across and,
/// going east or south, 3 cells ahead (it is 3 cells wide); returns
/// whether it threw, for otherwise it chases the player (see `chase_first`).
fn throw_or_chase(
    obj: &mut objtype,
    side: i32,
    o: &mut [activeobj],
    numobj: &mut i32,
    maxobj: i32,
    pas: &mut PcrlibAState,
    missile: u16,
) -> (threw: bool)
    requires
        table_ok(old(o)@, *old(numobj) as int, maxobj as int),
        0 <= side <= 1,
        can_ask_sound(PcrlibAState { rndindex: ((old(pas).rndindex + 1) % 256) as u16, ..*old(pas) }, 5),
    ensures
        ({
            let drawn = PcrlibAState { rndindex: ((old(pas).rndindex + 1) % 256) as u16, ..*old(pas) };
            let n = new_slot(old(o)@, *old(numobj) as int, maxobj as int);
            &&& threw == (rndtable@[drawn.rndindex as int] > 220)
            &&& threw ==> {
                &&& *final(obj) == (objtype { stage: 2, delay: 6, ..*old(obj) })
                &&& *final(pas) == asked_sound(drawn, 5)
                &&& *final(numobj) == count_after(old(o)@, *old(numobj) as int, maxobj as int)
                &&& final(o)@ == old(o)@.update(
                    n,
                    launched(
                        activeobj { oldtile: -1i16, oldx: 0u8, oldy: 0u8, ..old(o)@[n] },
                        missile,
                        old(obj).dir,
                        old(obj).x,
                        old(obj).y,
                        1 + side,
                        3,
                    ),
                )
            }
            &&& !threw ==> {
                &&& *final(obj) == *old(obj)
                &&& *final(pas) == drawn
                &&& *final(numobj) == *old(numobj)
                &&& final(o)@ == old(o)@
            }
        }),
{
    let coin: i32 = rndt(pas);
    if coin > 220 {
        obj.stage = 2;
        obj.delay = 6;
        ask_sound(5, pas);
        let n = newobject(o, numobj, maxobj);
        launch(o, n as usize, missile, obj.dir, obj.x, obj.y, 1 + side, 3);
        true
    } else {
        false
    }
}

/// A gargoyle's turn (see `throw_or_chase`): it may throw a rock (class
/// `rock`); returns whether it did, for otherwise it chases the player.
pub fn gargthink(
    obj: &mut objtype,
    side: i32,
    o: &mut [activeobj],
    numobj: &mut i32,
    maxobj: i32,
    pas: &mut PcrlibAState,
    rock: u16,
) -> (threw: bool)
    requires
        table_ok(old(o)@, *old(numobj) as int, maxobj as int),
        0 <= side <= 1,
        can_ask_sound(PcrlibAState { rndindex: ((old(pas).rndindex + 1) % 256) as u16, ..*old(pas) }, 5),
    ensures
        ({
            let drawn = PcrlibAState { rndindex: ((old(pas).rndindex + 1) % 256) as u16, ..*old(pas) };
            let n = new_slot(old(o)@, *old(numobj) as int, maxobj as int);
            &&& threw == (rndtable@[drawn.rndindex as int] > 220)
            &&& threw ==> {
                &&& *final(obj) == (objtype { stage: 2, delay: 6, ..*old(obj) })
                &&& *final(pas) == asked_sound(drawn, 5)
                &&& *final(numobj) == count_after(old(o)@, *old(numobj) as int, maxobj as int)
                &&& final(o)@ == old(o)@.update(
                    n,
                    launched(
                        activeobj { oldtile: -1i16, oldx: 0u8, oldy: 0u8, ..old(o)@[n] },
                        rock,
                        old(obj).dir,
                        old(obj).x,
                        old(obj).y,
                        1 + side,
                        3,
                    ),
                )
            }
            &&& !threw ==> {
                &&& *final(obj) == *old(obj)
                &&& *final(pas) == drawn
                &&& *final(numobj) == *old(numobj)
                &&& final(o)@ == old(o)@
            }
        }),
{
    throw_or_chase(obj, side, o, numobj, maxobj, pas, rock)
}

/// A dragon's turn (see `throw_or_chase`): it may breathe a big shot
/// (class `bigshot`); returns whether it did, for otherwise it chases the
/// player.
pub fn dragonthink(
    obj: &mut objtype,
    side: i32,
    o: &mut [activeobj],
    numobj: &mut i32,
    maxobj: i32,
    pas: &mut PcrlibAState,
    bigshot: u16,
) -> (threw: bool)
    requires
        table_ok(old(o)@, *old(numobj) as int, maxobj as int),
        0 <= side <= 1,
        can_ask_sound(PcrlibAState { rndindex: ((old(pas).rndindex + 1) % 256) as u16, ..*old(pas) }, 5),
    ensures
        ({
            let drawn = PcrlibAState { rndindex: ((old(pas).rndindex + 1) % 256) as u16, ..*old(pas) };
            let n = new_slot(old(o)@, *old(numobj) as int, maxobj as int);
            &&& threw == (rndtable@[drawn.rndindex as int] > 220)
            &&& threw ==> {
                &&& *final(obj) == (objtype { stage: 2, delay: 6, ..*old(obj) })
                &&& *final(pas) == asked_sound(drawn, 5)
                &&& *final(numobj) == count_after(old(o)@, *old(numobj) as int, maxobj as int)
                &&& final(o)@ == old(o)@.update(
                    n,
                    launched(
                        activeobj { oldtile: -1i16, oldx: 0u8, oldy: 0u8, ..old(o)@[n] },
                        bigshot,
                        old(obj).dir,
                        old(obj).x,
                        old(obj).y,
                        1 + side,
                        3,
                    ),
                )
            }
            &&& !threw ==> {
                &&& *final(obj) == *old(obj)
                &&& *final(pas) == drawn
                &&& *final(numobj) == *old(numobj)
                &&& final(o)@ == old(o)@
            }
        }),
{
    throw_or_chase(obj, side, o, numobj, maxobj, pas, bigshot)
}

/// Whether a background tile crumbles in an explosion: tiles 136 to 145.
pub open spec fn crumbles(spot: i32) -> bool {
    136 <= spot <= 145
}

/// What a crumbling tile leaves: open floor (128) for tiles up to 142, the
/// tile 19 further on for the others.
pub open spec fn crumbled(spot: i32) -> i32 {
    if spot < 143 {
        128
    } else {
        (spot + 19) as i32
    }
}

/// Whether `killnear` can work on cell (x, y): the cell lies in the
/// background, and where its tile crumbles, the object table has room and
/// sound 6 can be asked for.
pub open spec fn kill_ok(
    bg: Seq<i32>,
    o: Seq<activeobj>,
    numobj: int,
    pas: PcrlibAState,
    maxobj: int,
    x: int,
    y: int,
) -> bool {
    &&& 0 <= x < VIEW_STRIDE
    &&& 0 <= y
    &&& cell(x, y) < bg.len()
    &&& crumbles(bg[cell(x, y)]) ==> {
        &&& table_ok(o, numobj, maxobj)
        &&& can_ask_sound(pas, 6)
    }
}

/// The background, object table, count and sound state after `killnear`
/// on cell (x, y): a crumbling tile asks for sound 6, becomes what
/// `crumbled` says, and leaves a dying object of class `dead1` there (2
/// frames a stage) in the slot `newobject` takes; any other tile changes
/// nothing.
pub open spec fn kill_at(
    bg: Seq<i32>,
    o: Seq<activeobj>,
    numobj: int,
    pas: PcrlibAState,
    maxobj: int,
    dead1: u16,
    x: int,
    y: int,
) -> (Seq<i32>, Seq<activeobj>, int, PcrlibAState) {
    let i = cell(x, y);
    let spot = bg[i];
    let n = new_slot(o, numobj, maxobj);
    if crumbles(spot) {
        (
            bg.update(i, crumbled(spot)),
            o.update(
                n,
                activeobj {
                    active: true,
                    x: x as u8,
                    y: y as u8,
                    stage: 0,
                    delay: 2,
                    class: dead1,
                    oldtile: -1i16,
                    oldx: 0,
                    oldy: 0,
                    ..o[n]
                },
            ),
            count_after(o, numobj, maxobj),
            asked_sound(pas, 6),
        )
    } else {
        (bg, o, numobj, pas)
    }
}

/// The cell (x, y) of the background next to an explosion (see `kill_at`).
pub fn killnear(
    chkx: i32,
    chky: i32,
    background: &mut [i32],
    o: &mut [activeobj],
    numobj: &mut i32,
    maxobj: i32,
    pas: &mut PcrlibAState,
    dead1: u16,
)
    requires
        kill_ok(old(background)@, old(o)@, *old(numobj) as int, *old(pas), maxobj as int, chkx as int, chky as int),
    ensures
        (final(background)@, final(o)@, *final(numobj) as int, *final(pas)) == kill_at(
            old(background)@,
            old(o)@,
            *old(numobj) as int,
            *old(pas),
            maxobj as int,
            dead1,
            chkx as int,
            chky as int,
        ),
{
    let blen: usize = background.len();
    assert(cell(chkx as int, chky as int) < blen);
    let at: usize = chky as usize * VIEW_STRIDE + chkx as usize;
    let spot: i32 = background[at];
    if spot < 136 || spot > 145 {
        return;
    }
    ask_sound(6, pas);
    if spot < 143 {
        background[at] = 128;
    } else {
        background[at] = spot + 19;
    }
    let n = newobject(o, numobj, maxobj) as usize;
    o[n].active = true;
    o[n].x = chkx as u8;
    o[n].y = chky as u8;
    o[n].stage = 0;
    o[n].delay = 2;
    o[n].class = dead1;
    assert(o@ =~= old(o)@.update(
        n as int,
        activeobj {
            active: true,
            x: chkx as u8,
            y: chky as u8,
            stage: 0,
            delay: 2,
            class: dead1,
            oldtile: -1i16,
            oldx: 0,
            oldy: 0,
            ..old(o)@[n as int]
        },
    ));
}


/// The nuke's shots start from a big shot (class `bigshot`) on the
/// player's cell, active, in stage 0 with no delay, already drawn there.
pub open spec fn nuke_base(obj: objtype, bigshot: u16) -> activeobj {
    activeobj {
        active: true,
        class: bigshot,
        x: obj.x,
        y: obj.y,
        stage: 0,
        delay: 0,
        dir: 0,
        hp: 0,
        oldx: obj.x,
        oldy: obj.y,
        oldtile: -1i16,
        filler: [0],
    }
}

/// Shot `k` (0 to 11) of the nuke: for the offsets -2, 0 and 2 in turn
/// (`k / 4`), one going north and one south from the column that far
/// across, then one going east and one west from the row that far down.
pub open spec fn nuke_shot(base: activeobj, k: int) -> activeobj {
    let d = (k / 4 - 1) * 2;
    if k % 4 == 0 {
        activeobj { x: (base.x + d) as u8, dir: 0, ..base }
    } else if k % 4 == 1 {
        activeobj { x: (base.x + d) as u8, dir: 2, ..base }
    } else if k % 4 == 2 {
        activeobj { y: (base.y + d) as u8, dir: 1, ..base }
    } else {
        activeobj { y: (base.y + d) as u8, dir: 3, ..base }
    }
}

/// The object table and count after the first `k` shots of the nuke, each
/// put in the slot `newobject` takes (see `new_slot`).
pub open spec fn nuke_table(o: Seq<activeobj>, numobj: int, maxobj: int, base: activeobj, k: nat) -> (Seq<activeobj>, int)
    decreases k,
{
    if k == 0 {
        (o, numobj)
    } else {
        let (o1, n1) = nuke_table(o, numobj, maxobj, base, (k - 1) as nat);
        (o1.update(new_slot(o1, n1, maxobj), nuke_shot(base, k - 1)), count_after(o1, n1, maxobj))
    }
}

/// Shot `k` of the nuke (see `nuke_shot`).
fn nuke_shot_of(base: activeobj, k: usize) -> (r: activeobj)
    requires
        k < 12,
    ensures
        r == nuke_shot(base, k as int),
{
    let d: i32 = (k as i32 / 4 - 1) * 2;
    let mut r = base;
    if k % 4 == 0 {
        r.x = (base.x as i32 + d) as u8;
        r.dir = 0;
    } else if k % 4 == 1 {
        r.x = (base.x as i32 + d) as u8;
        r.dir = 2;
    } else if k % 4 == 2 {
        r.y = (base.y as i32 + d) as u8;
        r.dir = 1;
    } else {
        r.y = (base.y as i32 + d) as u8;
        r.dir = 3;
    }
    r
}

/// Casts a nuke if there is one: the count drops by one (blanking its
/// picture in row 10 below count 11), twelve big shots (class `bigshot`)
/// fly out from the player's cell in the four directions (see `nuke_shot`
/// and `nuke_table`), sound 13 is asked for, and the player shows its
/// casting stage for 4 frames. Without one, sound 14 is asked for and
/// nothing else happens.
pub fn castnuke(
    items: &mut [i16],
    obj: &mut objtype,
    o: &mut [activeobj],
    numobj: &mut i32,
    maxobj: i32,
    pas: &mut PcrlibAState,
    screen: &mut [u8],
    pcs: &PcrlibCState,
    bigshot: u16,
)
    requires
        NUKES < old(items)@.len(),
        old(items)@[NUKES as int] >= 0,
        old(items)@[NUKES as int] > 0 ==> can_ask_sound(*old(pas), 13),
        old(items)@[NUKES as int] == 0 ==> can_ask_sound(*old(pas), 14),
        0 < old(items)@[NUKES as int] && old(items)@[NUKES as int] - 1 < 11 ==> draw_ok(
            old(screen)@.len() as int,
            *pcs,
            (27 + old(items)@[NUKES as int] - 1, 10, 32),
        ),
        old(items)@[NUKES as int] > 0 ==> 0 <= *old(numobj) < old(o)@.len() && maxobj < old(o)@.len(),
    ensures
        old(items)@[NUKES as int] > 0 ==> {
            &&& final(items)@ == old(items)@.update(NUKES as int, (old(items)@[NUKES as int] - 1) as i16)
            &&& final(screen)@ == took_picture(old(screen)@, *pcs, old(items)@[NUKES as int] - 1, 10, 11)
            &&& *final(pas) == asked_sound(*old(pas), 13)
            &&& (final(o)@, *final(numobj) as int) == nuke_table(
                old(o)@,
                *old(numobj) as int,
                maxobj as int,
                nuke_base(*old(obj), bigshot),
                12,
            )
            &&& *final(obj) == (objtype { stage: 2, delay: 4, ..*old(obj) })
        },
        old(items)@[NUKES as int] == 0 ==> {
            &&& final(items)@ == old(items)@
            &&& final(screen)@ == old(screen)@
            &&& *final(pas) == asked_sound(*old(pas), 14)
            &&& final(o)@ == old(o)@
            &&& *final(numobj) == *old(numobj)
            &&& *final(obj) == *old(obj)
        },
{
    if !take_item(NUKES, 10, 11, 13, items, pas, screen, pcs) {
        return;
    }
    let base = activeobj {
        active: true,
        class: bigshot,
        x: obj.x,
        y: obj.y,
        stage: 0,
        delay: 0,
        dir: 0,
        hp: 0,
        oldx: obj.x,
        oldy: obj.y,
        oldtile: -1,
        filler: [0],
    };
    assert(base == nuke_base(*obj, bigshot)) by {
        assert(base.filler =~= nuke_base(*obj, bigshot).filler);
    }
    let ghost o0 = o@;
    let ghost n0 = *numobj as int;
    let olen: usize = o.len();
    let mut k: usize = 0;
    while k < 12
        invariant
            0 <= k <= 12,
            o@.len() == o0.len(),
            o0.len() == olen,
            0 <= *numobj < olen,
            maxobj < olen,
            (o@, *numobj as int) == nuke_table(o0, n0, maxobj as int, base, k as nat),
        decreases 12 - k,
    {
        let shot = nuke_shot_of(base, k);
        let ghost before = o@;
        let ghost nb = *numobj as int;
        let n = newobject(o, numobj, maxobj) as usize;
        o[n] = shot;
        proof {
            assert(o@ =~= before.update(new_slot(before, nb, maxobj as int), nuke_shot(base, k as int)));
        }
        k = k + 1;
    }
    obj.stage = 2;
    obj.delay = 4;
}


/// The state after the four cells next to (x, y) go through `kill_at`, in
/// the order left, above, right, below.
pub open spec fn blast(
    bg: Seq<i32>,
    o: Seq<activeobj>,
    numobj: int,
    pas: PcrlibAState,
    maxobj: int,
    dead1: u16,
    x: int,
    y: int,
) -> (Seq<i32>, Seq<activeobj>, int, PcrlibAState) {
    let s1 = kill_at(bg, o, numobj, pas, maxobj, dead1, x - 1, y);
    let s2 = kill_at(s1.0, s1.1, s1.2, s1.3, maxobj, dead1, x, y - 1);
    let s3 = kill_at(s2.0, s2.1, s2.2, s2.3, maxobj, dead1, x + 1, y);
    kill_at(s3.0, s3.1, s3.2, s3.3, maxobj, dead1, x, y + 1)
}

/// Whether each of the four steps of `blast` can be taken (see `kill_ok`).
pub open spec fn blast_ok(
    bg: Seq<i32>,
    o: Seq<activeobj>,
    numobj: int,
    pas: PcrlibAState,
    maxobj: int,
    dead1: u16,
    x: int,
    y: int,
) -> bool {
    let s1 = kill_at(bg, o, numobj, pas, maxobj, dead1, x - 1, y);
    let s2 = kill_at(s1.0, s1.1, s1.2, s1.3, maxobj, dead1, x, y - 1);
    let s3 = kill_at(s2.0, s2.1, s2.2, s2.3, maxobj, dead1, x + 1, y);
    &&& kill_ok(bg, o, numobj, pas, maxobj, x - 1, y)
    &&& kill_ok(s1.0, s1.1, s1.2, s1.3, maxobj, x, y - 1)
    &&& kill_ok(s2.0, s2.1, s2.2, s2.3, maxobj, x + 1, y)
    &&& kill_ok(s3.0, s3.1, s3.2, s3.3, maxobj, x, y + 1)
}

/// An explosion's animation: the next stage, two frames of delay, and
/// gone (class 0) after the last stage; on entering stage 1 it blasts the
/// four cells next to it (see `blast`).
pub fn explodethink(
    obj: &mut objtype,
    background: &mut [i32],
    o: &mut [activeobj],
    numobj: &mut i32,
    maxobj: i32,
    pas: &mut PcrlibAState,
    dead1: u16,
)
    requires
        next_stage(old(obj).stage) == 1 ==> blast_ok(
            old(background)@,
            old(o)@,
            *old(numobj) as int,
            *old(pas),
            maxobj as int,
            dead1,
            old(obj).x as int,
            old(obj).y as int,
        ),
    ensures
        *final(obj) == (objtype {
            stage: next_stage(old(obj).stage),
            delay: 2,
            class: if next_stage(old(obj).stage) == old(obj).stages { 0 } else { old(obj).class },
            ..*old(obj)
        }),
        (final(background)@, final(o)@, *final(numobj) as int, *final(pas)) == if next_stage(
            old(obj).stage,
        ) == 1 {
            blast(
                old(background)@,
                old(o)@,
                *old(numobj) as int,
                *old(pas),
                maxobj as int,
                dead1,
                old(obj).x as int,
                old(obj).y as int,
            )
        } else {
            (old(background)@, old(o)@, *old(numobj) as int, *old(pas))
        },
{
    obj.stage = obj.stage.wrapping_add(1);
    if obj.stage == 1 {
        let x: i32 = obj.x as i32;
        let y: i32 = obj.y as i32;
        killnear(x - 1, y, background, o, numobj, maxobj, pas, dead1);
        killnear(x, y - 1, background, o, numobj, maxobj, pas, dead1);
        killnear(x + 1, y, background, o, numobj, maxobj, pas, dead1);
        killnear(x, y + 1, background, o, numobj, maxobj, pas, dead1);
    }
    obj.delay = 2;
    if obj.stage == obj.stages {
        obj.class = 0;
    }
}

} // verus!
