//! Damage: an attacker tags an object, which is wounded or killed. The
//! numbers of the classes involved are the caller's.
use vstd::prelude::*;

use crate::catacomb_ii::active_obj::activeobj;
use crate::int_math::decimal_text;
use crate::catacomb_ii::inventory::{ask_sound, asked_sound, can_ask_sound};
use crate::catacomb_ii::obj_type::objtype;
use crate::catacomb_ii::pcrlib_a_state::PcrlibAState;
use crate::catacomb_ii::pcrlib_c_state::PcrlibCState;
use crate::catacomb_ii::score_screen::{body_meter, printbody, printscore};
use crate::catacomb_ii::text_window::{chars_drawn, draws_ok, plain_run};

verus! {

/// The classes that taking damage depends on: the player, the first dying
/// object (a killed object of size `s` becomes class `dead1 - 1 + s`), and
/// the two gun turrets, which cannot be wounded.
#[derive(Clone, Copy, Debug)]
pub struct TagClasses {
    pub player: u16,
    pub dead1: u16,
    pub guns: u16,
    pub gune: u16,
}

/// What tagging an object did.
#[derive(Clone, Copy, Debug, PartialEq, Eq, Structural)]
pub enum Tagged {
    /// Nothing: the player in god mode.
    Immune,
    /// The player was killed; the game is over.
    PlayerKilled,
    /// Another object was killed, for its points.
    Killed,
    /// A gun turret was hit; it takes no damage.
    TurretHit,
    /// The object was wounded.
    Wounded,
}

/// Whether `damage` kills an object with `hp` hit points.
pub open spec fn kills(hp: i8, damage: u8) -> bool {
    hp as int <= damage as int
}

/// The hit points left after `damage`, as a signed byte.
pub open spec fn wounded_hp(hp: i8, damage: u8) -> i8 {
    (hp - damage) as i8
}

/// What tagging the object `alt` in slot `altnum` does (see `Tagged`).
pub open spec fn tag_outcome(alt: objtype, altnum: int, o: Seq<activeobj>, damage: u8, godmode: bool, c: TagClasses) -> Tagged {
    if godmode && alt.class == c.player {
        Tagged::Immune
    } else if kills(alt.hp, damage) {
        if alt.class == c.player {
            Tagged::PlayerKilled
        } else {
            Tagged::Killed
        }
    } else if o[altnum].class == c.guns || o[altnum].class == c.gune {
        Tagged::TurretHit
    } else {
        Tagged::Wounded
    }
}

/// The dying object a killed object of size `size` turns into: class
/// `dead1 - 1 + size`, shown from stage 0, 2 frames a stage.
pub open spec fn dying(prev: activeobj, c: TagClasses, size: u8) -> activeobj {
    activeobj { class: (c.dead1 - 1 + size) as u16, delay: 2, stage: 0, ..prev }
}

/// What tagging needs (see `tagobject`): the slot exists, and for the
/// outcome the sound can be asked for, the meter or score can be drawn,
/// the score does not overflow and the dying class exists.
pub open spec fn tag_ok(
    damage: u8,
    alt: objtype,
    altnum: int,
    o: Seq<activeobj>,
    godmode: bool,
    c: TagClasses,
    pas: PcrlibAState,
    len: int,
    pcs: PcrlibCState,
) -> bool {
    let t = tag_outcome(alt, altnum, o, damage, godmode, c);
    let w = wounded_hp(alt.hp, damage);
    &&& 0 <= altnum < o.len()
    &&& t == Tagged::PlayerKilled ==> {
        &&& can_ask_sound(pas, 10)
        &&& draws_ok(len, pcs, plain_run(25, 16, body_meter(0)@))
    }
    &&& t == Tagged::Killed ==> {
        &&& can_ask_sound(pas, 9)
        &&& i32::MIN <= pcs.score + alt.points <= i32::MAX
        &&& draws_ok(len, pcs, plain_run(31, 3, decimal_text(pcs.score + alt.points)))
    }
    &&& (t == Tagged::PlayerKilled || t == Tagged::Killed) ==> 1 <= c.dead1 && c.dead1 - 1 + alt.size
        <= u16::MAX
    &&& t == Tagged::Wounded && altnum == 0 ==> {
        &&& can_ask_sound(pas, 8)
        &&& 0 <= w <= 13
        &&& draws_ok(len, pcs, plain_run(25, 16, body_meter(w as int)@))
    }
    &&& t == Tagged::Wounded && altnum != 0 ==> can_ask_sound(pas, 7)
}

/// The outcome of tagging and everything after it: the working record,
/// the object table, the sound state, the screen and the text state.
pub open spec fn tag_result(
    damage: u8,
    alt: objtype,
    altnum: int,
    o: Seq<activeobj>,
    godmode: bool,
    c: TagClasses,
    pas: PcrlibAState,
    screen: Seq<u8>,
    pcs: PcrlibCState,
) -> (Tagged, objtype, Seq<activeobj>, PcrlibAState, Seq<u8>, PcrlibCState) {
    let t = tag_outcome(alt, altnum, o, damage, godmode, c);
    let w = wounded_hp(alt.hp, damage);
    let a = altnum;
    match t {
        Tagged::Immune => (t, alt, o, pas, screen, pcs),
        Tagged::PlayerKilled => {
            let o1 = o.update(0, activeobj { hp: 0, ..o[0] });
            (
                t,
                objtype { hp: 0, ..alt },
                o1.update(a, dying(o1[a], c, alt.size)),
                asked_sound(pas, 10),
                chars_drawn(screen, pcs, plain_run(25, 16, body_meter(0)@)),
                PcrlibCState { sx: 38, sy: 16, ..pcs },
            )
        },
        Tagged::Killed => {
            let score = pcs.score + alt.points;
            (
                t,
                objtype { hp: w, ..alt },
                o.update(a, dying(o[a], c, alt.size)),
                asked_sound(pas, 9),
                chars_drawn(screen, PcrlibCState { score: score as i32, ..pcs }, plain_run(31, 3, decimal_text(score))),
                PcrlibCState { score: score as i32, sx: (31 + decimal_text(score).len()) as i32, sy: 3, ..pcs },
            )
        },
        Tagged::TurretHit => (t, objtype { hp: w, ..alt }, o, pas, screen, pcs),
        Tagged::Wounded => (
            t,
            objtype { hp: w, ..alt },
            o.update(a, activeobj { hp: w, stage: 3, delay: if a == 0 { 2u8 } else { 4u8 }, ..o[a] }),
            asked_sound(pas, if a == 0 { 8 } else { 7 }),
            if a == 0 { chars_drawn(screen, pcs, plain_run(25, 16, body_meter(w as int)@)) } else { screen },
            if a == 0 { PcrlibCState { sx: 38, sy: 16, ..pcs } } else { pcs },
        ),
    }
}

/// The object `alt` in slot `altnum` of `o` is tagged by an attacker doing
/// `damage` (see `tag_outcome` and `tag_result`):
/// - the player in god mode is untouched;
/// - a kill of the player sets its hit points to 0 (in slot 0 and in
///   `alt`), draws the empty body meter and asks for sound 10;
/// - a kill of another object adds its points to the score, prints the
///   score and asks for sound 9;
/// - either kill turns slot `altnum` into a dying object (see `dying`);
/// - otherwise `alt` loses `damage` hit points; a gun turret keeps its
///   slot as it is; any other object gets the hit points left and shows
///   its hurt stage (3), the player for 2 frames with its body meter
///   redrawn and sound 8, others for 4 frames with sound 7.
pub fn tagobject(
    damage: u8,
    alt: &mut objtype,
    altnum: usize,
    o: &mut [activeobj],
    godmode: bool,
    c: TagClasses,
    pas: &mut PcrlibAState,
    screen: &mut [u8],
    pcs: &mut PcrlibCState,
) -> (r: Tagged)
    requires
        0 < old(o)@.len(),
        tag_ok(damage, *old(alt), altnum as int, old(o)@, godmode, c, *old(pas), old(screen)@.len() as int, *old(pcs)),
    ensures
        (r, *final(alt), final(o)@, *final(pas), final(screen)@, *final(pcs)) == tag_result(
            damage,
            *old(alt),
            altnum as int,
            old(o)@,
            godmode,
            c,
            *old(pas),
            old(screen)@,
            *old(pcs),
        ),
{
    let hp0: i32 = alt.hp as i32;
    if godmode && alt.class == c.player {
        return Tagged::Immune;
    }
    alt.hp = #[verifier::truncate] ((alt.hp as i32 - damage as i32) as i8);
    if hp0 <= damage as i32 {
        let r: Tagged;
        if alt.class == c.player {
            o[0].hp = 0;
            alt.hp = 0;
            printbody(0, screen, pcs);
            ask_sound(10, pas);
            r = Tagged::PlayerKilled;
        } else {
            pcs.score = pcs.score + alt.points as i32;
            printscore(screen, pcs);
            ask_sound(9, pas);
            r = Tagged::Killed;
        }
        o[altnum].class = c.dead1 - 1 + alt.size as u16;
        o[altnum].delay = 2;
        o[altnum].stage = 0;
        r
    } else {
        if o[altnum].class == c.guns || o[altnum].class == c.gune {
            return Tagged::TurretHit;
        }
        o[altnum].hp = alt.hp;
        o[altnum].stage = 3;
        if altnum == 0 {
            o[0].delay = 2;
            printbody(o[0].hp, screen, pcs);
            ask_sound(8, pas);
        } else {
            o[altnum].delay = 4;
            ask_sound(7, pas);
        }
        Tagged::Wounded
    }
}

} // verus!
