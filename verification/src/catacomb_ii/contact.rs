//! What happens when a moving object runs into another: finding the object
//! in the cell it moves into, reaching the teleporter, and the contact
//! between attacker and target (see `intomonster`).
use vstd::prelude::*;

use crate::catacomb_ii::active_obj::activeobj;
use crate::catacomb_ii::cat_play::{cell, levelcleared, next_level, warp_level};
use crate::catacomb_ii::catasm::VIEW_STRIDE;
use crate::catacomb_ii::combat::{tag_ok, tag_result, tagobject, TagClasses, Tagged};
use crate::catacomb_ii::obj_def_type::objdeftype;
use crate::catacomb_ii::obj_type::objtype;
use crate::catacomb_ii::pcrlib_a_state::PcrlibAState;
use crate::catacomb_ii::pcrlib_c_state::PcrlibCState;

verus! {

/// How an object acts on contact: harmless, a monster, the player's shot, a
/// monster's shot, a nuke's shot.
pub const BENIGN: u8 = 0;
pub const MONSTER: u8 = 1;
pub const PSHOT: u8 = 2;
pub const MSHOT: u8 = 3;
pub const NUKESHOT: u8 = 4;

/// The classes contact depends on, besides those of `TagClasses`.
#[derive(Clone, Copy, Debug)]
pub struct ContactClasses {
    pub tag: TagClasses,
    pub teleporter: u16,
    pub secretgate: u16,
    pub shot: u16,
}

/// The end of a game or level that play has reached.
#[derive(Clone, Copy, Debug, PartialEq, Eq, Structural)]
pub struct PlayFlags {
    /// The level is over.
    pub leveldone: bool,
    /// The game (or demo) is over.
    pub playdone: bool,
    /// The player finished the last level.
    pub won: bool,
    /// The player was killed.
    pub killed: bool,
}

/// The working record `alt` with the instance fields of `a`.
pub open spec fn with_instance(alt: objtype, a: activeobj) -> objtype {
    objtype {
        active: a.active,
        class: a.class,
        x: a.x,
        y: a.y,
        stage: a.stage,
        delay: a.delay,
        dir: a.dir,
        hp: a.hp,
        oldx: a.oldx,
        oldy: a.oldy,
        oldtile: a.oldtile,
        filler: a.filler,
        ..alt
    }
}

/// The working record `alt` with the class fields of `d`.
pub open spec fn with_class(alt: objtype, d: objdeftype) -> objtype {
    objtype {
        think: d.think,
        contact: d.contact,
        solid: d.solid,
        firstchar: d.firstchar,
        size: d.size,
        stages: d.stages,
        dirmask: d.dirmask,
        speed: d.speed,
        hitpoints: d.hitpoints,
        damage: d.damage,
        points: d.points,
        ..alt
    }
}

/// Whether cell (x, y) lies under object `a` (of its size).
pub open spec fn covers_cell(a: objtype, x: int, y: int) -> bool {
    x >= a.x && x - a.x < a.size && y >= a.y && y - a.y < a.size
}

/// The state of the search for the object in a cell: the working record
/// of the last object looked at, the level, and the flags.
pub type SearchState = (objtype, i16, PlayFlags);

/// Looking at object `k` in the search for an object in cell (x, y) for
/// object `objecton`: its record is loaded (with its class's fields, when
/// it is another live object); a solid one covering the cell is found; a
/// teleporter or secret gate covering the cell, reached by the player,
/// clears the level (see `levelcleared`), reading the warp digits under it.
pub open spec fn look_at(
    s: SearchState,
    o: Seq<activeobj>,
    objdef: Seq<objdeftype>,
    bg: Seq<i32>,
    objecton: int,
    cl: ContactClasses,
    x: int,
    y: int,
    k: int,
) -> (SearchState, bool) {
    let a0 = with_instance(s.0, o[k]);
    if a0.class > 0 && k != objecton {
        let a = with_class(a0, objdef[a0.class as int]);
        if covers_cell(a, x, y) {
            if a.solid != 0 {
                ((a, s.1, s.2), true)
            } else if objecton == 0 && (a.class == cl.teleporter || a.class == cl.secretgate) {
                let lvl = next_level(
                    s.1,
                    warp_level(bg[cell(a.x as int, a.y + 2)], bg[cell(a.x + 1, a.y + 2)]),
                );
                ((a, lvl as i16, PlayFlags { leveldone: true, playdone: s.2.playdone || lvl > 30, won: s.2.won || lvl > 30, ..s.2 }), false)
            } else {
                ((a, s.1, s.2), false)
            }
        } else {
            ((a, s.1, s.2), false)
        }
    } else {
        ((a0, s.1, s.2), false)
    }
}

/// The search from object `k` to object `last`: the state after it and the
/// object found, if any.
pub open spec fn search_from(
    s: SearchState,
    o: Seq<activeobj>,
    objdef: Seq<objdeftype>,
    bg: Seq<i32>,
    objecton: int,
    cl: ContactClasses,
    x: int,
    y: int,
    k: int,
    last: int,
) -> (SearchState, Option<int>)
    decreases last - k + 1,
{
    if k > last {
        (s, None)
    } else {
        let (s1, hit) = look_at(s, o, objdef, bg, objecton, cl, x, y, k);
        if hit {
            (s1, Some(k))
        } else {
            search_from(s1, o, objdef, bg, objecton, cl, x, y, k + 1, last)
        }
    }
}

/// What the search may read: every object's class lies in the class
/// table, every object lies well inside the map with the tiles under it
/// not negative, and the level is small enough not to overflow.
pub open spec fn search_ok(
    o: Seq<activeobj>,
    numobj: int,
    objdef: Seq<objdeftype>,
    bg: Seq<i32>,
    level: i16,
) -> bool {
    &&& 0 <= numobj < o.len()
    &&& numobj <= 10000
    &&& -10000 <= level <= 10000
    &&& bg.len() >= 87 * VIEW_STRIDE
    &&& forall|i: int| 0 <= i < bg.len() ==> #[trigger] bg[i] >= 0
    &&& forall|k: int|
        0 <= k <= numobj ==> {
            &&& (#[trigger] o[k]).class < objdef.len()
            &&& o[k].x < 84
            &&& o[k].y < 84
        }
}

/// The level after looking at `k` objects stays within bounds.
proof fn lemma_look_level(
    s: SearchState,
    o: Seq<activeobj>,
    objdef: Seq<objdeftype>,
    bg: Seq<i32>,
    objecton: int,
    cl: ContactClasses,
    x: int,
    y: int,
    k: int,
)
    requires
        -10000 <= s.1 <= 10000 + k,
        0 <= k <= 10000,
    ensures
        -10000 <= look_at(s, o, objdef, bg, objecton, cl, x, y, k).0.1 <= 10000 + k + 1,
{
    let d0 = crate::catacomb_ii::cat_play::warp_digit(0, 48);
    assert forall|a: i32, b: i32| 0 <= #[trigger] warp_level(a, b) <= 99 by {
        let d0 = crate::catacomb_ii::cat_play::warp_digit(a, 48);
        let d1 = crate::catacomb_ii::cat_play::warp_digit(b, 32);
        assert(48 <= d0 <= 57);
        assert(d1 == 32 || 48 <= d1 <= 57);
    }
}

/// Finds the object in cell (x, y) for object `objecton`, looking at each
/// object from 0 to `numobj` in turn (see `look_at`): leaves in `alt` the
/// record of the last one looked at and returns the one found, if any,
/// with the level and flags changed as the search goes.
pub fn find_target(
    objecton: usize,
    x: i32,
    y: i32,
    o: &[activeobj],
    numobj: i32,
    objdef: &[objdeftype],
    background: &[i32],
    alt: &mut objtype,
    flags: &mut PlayFlags,
    cl: ContactClasses,
    pcs: &mut PcrlibCState,
) -> (found: Option<usize>)
    requires
        search_ok(o@, numobj as int, objdef@, background@, old(pcs).level),
    ensures
        ({
            let (s, f) = search_from(
                (*old(alt), old(pcs).level, *old(flags)),
                o@,
                objdef@,
                background@,
                objecton as int,
                cl,
                x as int,
                y as int,
                0,
                numobj as int,
            );
            &&& *final(alt) == s.0
            &&& *final(pcs) == (PcrlibCState { level: s.1, ..*old(pcs) })
            &&& *final(flags) == s.2
            &&& found == match f {
                Some(k) => Some(k as usize),
                None => None::<usize>,
            }
            &&& f matches Some(k) ==> 0 <= k <= numobj
        }),
{
    let ghost s0: SearchState = (*alt, pcs.level, *flags);
    let ghost full = search_from(s0, o@, objdef@, background@, objecton as int, cl, x as int, y as int, 0, numobj as int);
    let mut k: usize = 0;
    let mut found: Option<usize> = None;
    while k <= numobj as usize && found.is_none()
        invariant
            0 <= k <= numobj + 1,
            search_ok(o@, numobj as int, objdef@, background@, s0.1),
            -10000 <= pcs.level <= 10000 + k,
            found is None ==> full == search_from(
                (*alt, pcs.level, *flags),
                o@,
                objdef@,
                background@,
                objecton as int,
                cl,
                x as int,
                y as int,
                k as int,
                numobj as int,
            ),
            found matches Some(j) ==> j <= numobj && full == ((*alt, pcs.level, *flags), Some(
                j as int,
            )),
            *pcs == (PcrlibCState { level: pcs.level, ..*old(pcs) }),
        decreases numobj + 1 - k, (if found is None { 1int } else { 0int }),
    {
        let ghost before: SearchState = (*alt, pcs.level, *flags);
        proof {
            lemma_look_level(before, o@, objdef@, background@, objecton as int, cl, x as int, y as int, k as int);
        }
        let ghost step = look_at(before, o@, objdef@, background@, objecton as int, cl, x as int, y as int, k as int);
        alt.update_from_activeobj(&o[k]);
        let mut hit = false;
        if alt.class > 0 && k != objecton {
            alt.update_from_objdeftype(&objdef[alt.class as usize]);
            if x >= alt.x as i32 && x - (alt.x as i32) < alt.size as i32 && y >= alt.y as i32 && y
                - (alt.y as i32) < alt.size as i32 {
                if alt.solid != 0 {
                    hit = true;
                } else if objecton == 0 && (alt.class == cl.teleporter || alt.class == cl.secretgate) {
                    let won = levelcleared(alt.x, alt.y, background, pcs);
                    flags.leveldone = true;
                    if won {
                        flags.playdone = true;
                        flags.won = true;
                    }
                }
            }
        }
        assert(*alt == step.0.0);
        if hit {
            assert(step.1);
            found = Some(k);
        } else {
            k += 1;
        }
    }
    found
}


/// Whether an attacker with contact `contact` tags the object found in
/// slot `k`: a monster or a monster's shot tags only the player (slot 0),
/// the player's shot only others, a nuke's shot anything.
pub open spec fn tags(contact: u8, k: int) -> bool {
    ||| (contact == MONSTER || contact == MSHOT) && k == 0
    ||| contact == PSHOT && k > 0
    ||| contact == NUKESHOT
}

/// Whether the attacker moves on after the contact with the object in slot
/// `k` (its working record `a`): a nuke's shot keeps going, and monsters
/// and their shots pass through the player's small shots (class `shot`);
/// everything else stops.
pub open spec fn passes(contact: u8, k: int, a: objtype, cl: ContactClasses) -> bool {
    ||| contact == NUKESHOT
    ||| (contact == MONSTER || contact == MSHOT) && k != 0 && a.class == cl.shot
}

/// The state contact reads and changes: the moving object, the working
/// record and slot of the object found, the flags, the object table, the
/// sound state, the screen and the text state.
pub type IntoState = (objtype, objtype, int, PlayFlags, Seq<activeobj>, PcrlibAState, Seq<u8>, PcrlibCState);

/// The search of `intomonster` from state `st`.
pub open spec fn into_search(
    st: IntoState,
    objecton: int,
    x: int,
    y: int,
    numobj: int,
    objdef: Seq<objdeftype>,
    bg: Seq<i32>,
    cl: ContactClasses,
) -> (SearchState, Option<int>) {
    search_from((st.1, st.7.level, st.3), st.4, objdef, bg, objecton, cl, x, y, 0, numobj)
}

/// What `intomonster` needs: the search can read what it reads, and a
/// tag of the object found can be made (see `tag_ok`).
pub open spec fn into_ok(
    st: IntoState,
    objecton: int,
    x: int,
    y: int,
    numobj: int,
    objdef: Seq<objdeftype>,
    bg: Seq<i32>,
    godmode: bool,
    cl: ContactClasses,
) -> bool {
    let (s, f) = into_search(st, objecton, x, y, numobj, objdef, bg, cl);
    &&& search_ok(st.4, numobj, objdef, bg, st.7.level)
    &&& match f {
        Some(k) => tags(st.0.contact, k) ==> tag_ok(
            st.0.damage,
            s.0,
            k,
            st.4,
            godmode,
            cl.tag,
            st.5,
            st.6.len() as int,
            PcrlibCState { level: s.1, ..st.7 },
        ),
        None => true,
    }
}

/// The state after `intomonster` and whether the move goes on: where no
/// object is found the move goes on; otherwise the attacker's contact
/// decides (see `tags` and `passes`): a tag goes through `tag_result`, and
/// ends the game when it kills the player; a monster or monster's shot that
/// tags the player shows its attack stage for 20 frames. The slot ends as
/// the one found, or one past `numobj`.
pub open spec fn into_result(
    st: IntoState,
    objecton: int,
    x: int,
    y: int,
    numobj: int,
    objdef: Seq<objdeftype>,
    bg: Seq<i32>,
    godmode: bool,
    cl: ContactClasses,
) -> (IntoState, bool) {
    let (s, f) = into_search(st, objecton, x, y, numobj, objdef, bg, cl);
    let pcs1 = PcrlibCState { level: s.1, ..st.7 };
    match f {
        None => ((st.0, s.0, numobj + 1, s.2, st.4, st.5, st.6, pcs1), true),
        Some(k) => if tags(st.0.contact, k) {
            let t = tag_result(st.0.damage, s.0, k, st.4, godmode, cl.tag, st.5, st.6, pcs1);
            (
                (
                    if st.0.contact == MONSTER || st.0.contact == MSHOT {
                        objtype { stage: 2, delay: 20, ..st.0 }
                    } else {
                        st.0
                    },
                    t.1,
                    k,
                    if t.0 == Tagged::PlayerKilled {
                        PlayFlags { playdone: true, killed: true, ..s.2 }
                    } else {
                        s.2
                    },
                    t.2,
                    t.3,
                    t.4,
                    t.5,
                ),
                passes(st.0.contact, k, s.0, cl),
            )
        } else {
            ((st.0, s.0, k, s.2, st.4, st.5, st.6, pcs1), passes(st.0.contact, k, s.0, cl))
        },
    }
}

/// The object `obj` (in slot `objecton`) moves into cell (x, y), where a
/// monster tile lies (see `into_result`). Returns whether the move goes on.
pub fn intomonster(
    obj: &mut objtype,
    objecton: usize,
    x: i32,
    y: i32,
    o: &mut [activeobj],
    numobj: i32,
    objdef: &[objdeftype],
    background: &[i32],
    alt: &mut objtype,
    altnum: &mut usize,
    flags: &mut PlayFlags,
    godmode: bool,
    cl: ContactClasses,
    pas: &mut PcrlibAState,
    screen: &mut [u8],
    pcs: &mut PcrlibCState,
) -> (through: bool)
    requires
        into_ok(
            (*old(obj), *old(alt), *old(altnum) as int, *old(flags), old(o)@, *old(pas), old(screen)@, *old(pcs)),
            objecton as int,
            x as int,
            y as int,
            numobj as int,
            objdef@,
            background@,
            godmode,
            cl,
        ),
    ensures
        (
            (*final(obj), *final(alt), *final(altnum) as int, *final(flags), final(o)@, *final(pas), final(screen)@, *final(pcs)),
            through,
        ) == into_result(
            (*old(obj), *old(alt), *old(altnum) as int, *old(flags), old(o)@, *old(pas), old(screen)@, *old(pcs)),
            objecton as int,
            x as int,
            y as int,
            numobj as int,
            objdef@,
            background@,
            godmode,
            cl,
        ),
{
    let found = find_target(objecton, x, y, o, numobj, objdef, background, alt, flags, cl, pcs);
    match found {
        None => {
            *altnum = numobj as usize + 1;
            true
        },
        Some(k) => {
            *altnum = k;
            let contact = obj.contact;
            if (contact == MONSTER || contact == MSHOT) && k == 0 || contact == PSHOT && k > 0
                || contact == NUKESHOT {
                let t = tagobject(obj.damage, alt, k, o, godmode, cl.tag, pas, screen, pcs);
                if t == Tagged::PlayerKilled {
                    flags.playdone = true;
                    flags.killed = true;
                }
                if contact == MONSTER || contact == MSHOT {
                    obj.stage = 2;
                    obj.delay = 20;
                }
                contact == NUKESHOT
            } else {
                (contact == MONSTER || contact == MSHOT) && k != 0 && alt.class == cl.shot
            }
        },
    }
}

} // verus!
