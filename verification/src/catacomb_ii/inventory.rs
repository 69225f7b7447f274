//! The player's items (keys, potions, bolt and nuke scrolls): their counts
//! and the row of item pictures beside the play window.
use vstd::prelude::*;

use crate::catacomb_ii::pcrlib_a::{pc_play, rndt, sound_playable, PlaySound, rndtable};
use crate::catacomb_ii::pcrlib_a_state::PcrlibAState;
use crate::catacomb_ii::pcrlib_c_state::PcrlibCState;
use crate::catacomb_ii::score_screen::{body_meter, printbody};
use crate::catacomb_ii::text_window::{char_drawn, chars_drawn, draw_ok, draws_ok, plain_run};

verus! {

/// The item slots: keys, potions, bolt scrolls and nuke scrolls.
pub const KEYS: usize = 1;
/// The potion slot.
pub const POTIONS: usize = 2;
/// The bolt scroll slot.
pub const BOLTS: usize = 3;
/// The nuke scroll slot.
pub const NUKES: usize = 5;

/// The count after one more item: 16-bit, wrapping.
pub open spec fn one_more(n: i16) -> i16 {
    (n + 1) as i16
}

/// The screen after an item was given: the new count's picture `ch` is
/// drawn in column 26 + count of row `row` while the count is below 11.
pub open spec fn gave_picture(before: Seq<u8>, pcs: PcrlibCState, count: int, row: int, ch: int) -> Seq<u8> {
    if count < 11 {
        char_drawn(before, pcs, (26 + count, row, ch))
    } else {
        before
    }
}

/// Adds one item to slot `k` and draws its picture (see `gave_picture`).
fn give_item(k: usize, row: i32, ch: i32, items: &mut [i16], screen: &mut [u8], pcs: &PcrlibCState)
    requires
        k < old(items)@.len(),
        old(items)@[k as int] + 1 < 11 ==> draw_ok(
            old(screen)@.len() as int,
            *pcs,
            (26 + old(items)@[k as int] + 1, row as int, ch as int),
        ),
    ensures
        final(items)@ == old(items)@.update(k as int, one_more(old(items)@[k as int])),
        final(screen)@ == gave_picture(
            old(screen)@,
            *pcs,
            old(items)@[k as int] + 1,
            row as int,
            ch as int,
        ),
{
    let i: i32 = items[k] as i32 + 1;
    items[k] = i as i16;
    if i < 11 {
        let ghost before = screen@;
        crate::catacomb_ii::pcrlib_a::drawchar(26 + i, row, ch, screen, pcs);
        assert(screen@ =~= char_drawn(before, *pcs, (26 + i, row as int, ch as int)));
    }
}

/// Gives a key (picture 31 in row 7).
pub fn givekey(items: &mut [i16], screen: &mut [u8], pcs: &PcrlibCState)
    requires
        KEYS < old(items)@.len(),
        old(items)@[KEYS as int] + 1 < 11 ==> draw_ok(
            old(screen)@.len() as int,
            *pcs,
            (26 + old(items)@[KEYS as int] + 1, 7, 31),
        ),
    ensures
        final(items)@ == old(items)@.update(KEYS as int, one_more(old(items)@[KEYS as int])),
        final(screen)@ == gave_picture(old(screen)@, *pcs, old(items)@[KEYS as int] + 1, 7, 31),
{
    give_item(KEYS, 7, 31, items, screen, pcs);
}

/// Gives a potion (picture 29 in row 8).
pub fn givepotion(items: &mut [i16], screen: &mut [u8], pcs: &PcrlibCState)
    requires
        POTIONS < old(items)@.len(),
        old(items)@[POTIONS as int] + 1 < 11 ==> draw_ok(
            old(screen)@.len() as int,
            *pcs,
            (26 + old(items)@[POTIONS as int] + 1, 8, 29),
        ),
    ensures
        final(items)@ == old(items)@.update(POTIONS as int, one_more(old(items)@[POTIONS as int])),
        final(screen)@ == gave_picture(old(screen)@, *pcs, old(items)@[POTIONS as int] + 1, 8, 29),
{
    give_item(POTIONS, 8, 29, items, screen, pcs);
}

/// Gives a bolt scroll (picture 30 in row 9).
pub fn givebolt(items: &mut [i16], screen: &mut [u8], pcs: &PcrlibCState)
    requires
        BOLTS < old(items)@.len(),
        old(items)@[BOLTS as int] + 1 < 11 ==> draw_ok(
            old(screen)@.len() as int,
            *pcs,
            (26 + old(items)@[BOLTS as int] + 1, 9, 30),
        ),
    ensures
        final(items)@ == old(items)@.update(BOLTS as int, one_more(old(items)@[BOLTS as int])),
        final(screen)@ == gave_picture(old(screen)@, *pcs, old(items)@[BOLTS as int] + 1, 9, 30),
{
    give_item(BOLTS, 9, 30, items, screen, pcs);
}

/// Gives a nuke scroll (picture 30 in row 10).
pub fn givenuke(items: &mut [i16], screen: &mut [u8], pcs: &PcrlibCState)
    requires
        NUKES < old(items)@.len(),
        old(items)@[NUKES as int] + 1 < 11 ==> draw_ok(
            old(screen)@.len() as int,
            *pcs,
            (26 + old(items)@[NUKES as int] + 1, 10, 30),
        ),
    ensures
        final(items)@ == old(items)@.update(NUKES as int, one_more(old(items)@[NUKES as int])),
        final(screen)@ == gave_picture(old(screen)@, *pcs, old(items)@[NUKES as int] + 1, 10, 30),
{
    give_item(NUKES, 10, 30, items, screen, pcs);
}

/// Gives a scroll: a bolt scroll when the next number of the table
/// sequence is below 128, else a nuke scroll.
pub fn givescroll(items: &mut [i16], pas: &mut PcrlibAState, screen: &mut [u8], pcs: &PcrlibCState)
    requires
        NUKES < old(items)@.len(),
        old(items)@[BOLTS as int] + 1 < 11 ==> draw_ok(
            old(screen)@.len() as int,
            *pcs,
            (26 + old(items)@[BOLTS as int] + 1, 9, 30),
        ),
        old(items)@[NUKES as int] + 1 < 11 ==> draw_ok(
            old(screen)@.len() as int,
            *pcs,
            (26 + old(items)@[NUKES as int] + 1, 10, 30),
        ),
    ensures
        final(pas).rndindex == (old(pas).rndindex + 1) % 256,
        *final(pas) == (PcrlibAState { rndindex: final(pas).rndindex, ..*old(pas) }),
        if rndtable@[final(pas).rndindex as int] < 128 {
            &&& final(items)@ == old(items)@.update(BOLTS as int, one_more(old(items)@[BOLTS as int]))
            &&& final(screen)@ == gave_picture(old(screen)@, *pcs, old(items)@[BOLTS as int] + 1, 9, 30)
        } else {
            &&& final(items)@ == old(items)@.update(NUKES as int, one_more(old(items)@[NUKES as int]))
            &&& final(screen)@ == gave_picture(old(screen)@, *pcs, old(items)@[NUKES as int] + 1, 10, 30)
        },
{
    if rndt(pas) < 128 {
        givebolt(items, screen, pcs);
    } else {
        givenuke(items, screen, pcs);
    }
}

/// The screen after an item was used up: the picture in column 27 + count
/// of row `row` is blanked while the count is below `limit`.
pub open spec fn took_picture(before: Seq<u8>, pcs: PcrlibCState, count: int, row: int, limit: int) -> Seq<u8> {
    if count < limit {
        char_drawn(before, pcs, (27 + count, row, 32))
    } else {
        before
    }
}

/// The condition under which a sound can be asked for (see `PlaySound`).
pub open spec fn can_ask_sound(pas: PcrlibAState, sound: i32) -> bool {
    !pas._dontplay ==> {
        &&& 1 <= sound < pas.inner.SoundData.sounds@.len()
        &&& pas.inner.SoundData.sounds@[sound - 1].priority >= pas.inner.SndPriority
            ==> sound_playable(pas.inner.SoundData, sound)
    }
}

/// The sound state after asking for `sound` (see `PlaySound`).
pub open spec fn asked_sound(pas: PcrlibAState, sound: i32) -> PcrlibAState {
    PcrlibAState {
        inner: if !pas._dontplay && pas.inner.SoundData.sounds@[sound - 1].priority
            >= pas.inner.SndPriority {
            pc_play(pas.inner, sound)
        } else {
            pas.inner
        },
        ..pas
    }
}

/// Plays a sound, with its effect stated as `asked_sound`.
pub(crate) fn ask_sound(sound: i32, pas: &mut PcrlibAState)
    requires
        can_ask_sound(*old(pas), sound),
    ensures
        *final(pas) == asked_sound(*old(pas), sound),
{
    PlaySound(sound, pas);
}

/// Uses up one item of slot `k` when there is one, blanking its picture
/// (see `took_picture`) and playing sound `used`; otherwise plays sound 14.
/// Returns whether there was one.
pub(crate) fn take_item(
    k: usize,
    row: i32,
    limit: i32,
    used: i32,
    items: &mut [i16],
    pas: &mut PcrlibAState,
    screen: &mut [u8],
    pcs: &PcrlibCState,
) -> (r: bool)
    requires
        k < old(items)@.len(),
        old(items)@[k as int] > 0 ==> can_ask_sound(*old(pas), used),
        old(items)@[k as int] <= 0 ==> can_ask_sound(*old(pas), 14),
        0 < old(items)@[k as int] && old(items)@[k as int] - 1 < limit ==> draw_ok(
            old(screen)@.len() as int,
            *pcs,
            (27 + old(items)@[k as int] - 1, row as int, 32),
        ),
    ensures
        r == (old(items)@[k as int] > 0),
        r ==> {
            &&& final(items)@ == old(items)@.update(k as int, (old(items)@[k as int] - 1) as i16)
            &&& final(screen)@ == took_picture(
                old(screen)@,
                *pcs,
                old(items)@[k as int] - 1,
                row as int,
                limit as int,
            )
            &&& *final(pas) == asked_sound(*old(pas), used)
        },
        !r ==> {
            &&& final(items)@ == old(items)@
            &&& final(screen)@ == old(screen)@
            &&& *final(pas) == asked_sound(*old(pas), 14)
        },
{
    if items[k] > 0 {
        let i: i32 = items[k] as i32 - 1;
        items[k] = i as i16;
        if i < limit {
            let ghost before = screen@;
            crate::catacomb_ii::pcrlib_a::drawchar(27 + i, row, 32, screen, pcs);
            assert(screen@ =~= char_drawn(before, *pcs, (27 + i, row as int, 32)));
        }
        ask_sound(used, pas);
        true
    } else {
        ask_sound(14, pas);
        false
    }
}

/// Uses a key if there is one (blanking its picture in row 7 below count
/// 10, sound 11); without one, plays sound 14. Returns whether there was
/// one.
pub fn takekey(items: &mut [i16], pas: &mut PcrlibAState, screen: &mut [u8], pcs: &PcrlibCState) -> (r: bool)
    requires
        KEYS < old(items)@.len(),
        old(items)@[KEYS as int] > 0 ==> can_ask_sound(*old(pas), 11),
        old(items)@[KEYS as int] <= 0 ==> can_ask_sound(*old(pas), 14),
        0 < old(items)@[KEYS as int] && old(items)@[KEYS as int] - 1 < 10 ==> draw_ok(
            old(screen)@.len() as int,
            *pcs,
            (27 + old(items)@[KEYS as int] - 1, 7, 32),
        ),
    ensures
        r == (old(items)@[KEYS as int] > 0),
        r ==> {
            &&& final(items)@ == old(items)@.update(KEYS as int, (old(items)@[KEYS as int] - 1) as i16)
            &&& final(screen)@ == took_picture(old(screen)@, *pcs, old(items)@[KEYS as int] - 1, 7, 10)
            &&& *final(pas) == asked_sound(*old(pas), 11)
        },
        !r ==> {
            &&& final(items)@ == old(items)@
            &&& final(screen)@ == old(screen)@
            &&& *final(pas) == asked_sound(*old(pas), 14)
        },
{
    take_item(KEYS, 7, 10, 11, items, pas, screen, pcs)
}

/// Drinks a potion if there is one: its picture in row 8 is blanked, sound
/// 12 plays, and the player's hit points (`hp`, the player object's, and
/// `obj_hp`, the working copy's) become 13, shown on the body meter.
/// Without one, plays sound 14.
pub fn takepotion(
    items: &mut [i16],
    hp: &mut i8,
    obj_hp: &mut i8,
    pas: &mut PcrlibAState,
    screen: &mut [u8],
    pcs: &mut PcrlibCState,
)
    requires
        POTIONS < old(items)@.len(),
        old(items)@[POTIONS as int] > 0 ==> {
            &&& can_ask_sound(*old(pas), 12)
            &&& old(items)@[POTIONS as int] - 1 < 11 ==> draw_ok(
                old(screen)@.len() as int,
                *old(pcs),
                (27 + old(items)@[POTIONS as int] - 1, 8, 32),
            )
            &&& draws_ok(old(screen)@.len() as int, *old(pcs), plain_run(25, 16, body_meter(13)@))
        },
        old(items)@[POTIONS as int] <= 0 ==> can_ask_sound(*old(pas), 14),
    ensures
        old(items)@[POTIONS as int] > 0 ==> {
            &&& final(items)@ == old(items)@.update(POTIONS as int, (old(items)@[POTIONS as int] - 1) as i16)
            &&& *final(hp) == 13 && *final(obj_hp) == 13
            &&& final(screen)@ == chars_drawn(
                took_picture(old(screen)@, *old(pcs), old(items)@[POTIONS as int] - 1, 8, 11),
                *old(pcs),
                plain_run(25, 16, body_meter(13)@),
            )
            &&& *final(pcs) == (PcrlibCState { sx: 38, sy: 16, ..*old(pcs) })
            &&& *final(pas) == asked_sound(*old(pas), 12)
        },
        old(items)@[POTIONS as int] <= 0 ==> {
            &&& final(items)@ == old(items)@
            &&& *final(hp) == *old(hp) && *final(obj_hp) == *old(obj_hp)
            &&& final(screen)@ == old(screen)@
            &&& *final(pcs) == *old(pcs)
            &&& *final(pas) == asked_sound(*old(pas), 14)
        },
{
    if take_item(POTIONS, 8, 11, 12, items, pas, screen, pcs) {
        *hp = 13;
        *obj_hp = 13;
        printbody(*hp, screen, pcs);
    }
}

/// Casts a bolt if there is a bolt scroll: its picture in row 9 is blanked,
/// eight bolts are set to fly (`boltsleft`), and sound 13 plays. Without
/// one, plays sound 14.
pub fn castbolt(
    items: &mut [i16],
    boltsleft: &mut i32,
    pas: &mut PcrlibAState,
    screen: &mut [u8],
    pcs: &PcrlibCState,
)
    requires
        BOLTS < old(items)@.len(),
        old(items)@[BOLTS as int] > 0 ==> can_ask_sound(*old(pas), 13),
        old(items)@[BOLTS as int] <= 0 ==> can_ask_sound(*old(pas), 14),
        0 < old(items)@[BOLTS as int] && old(items)@[BOLTS as int] - 1 < 11 ==> draw_ok(
            old(screen)@.len() as int,
            *pcs,
            (27 + old(items)@[BOLTS as int] - 1, 9, 32),
        ),
    ensures
        old(items)@[BOLTS as int] > 0 ==> {
            &&& final(items)@ == old(items)@.update(BOLTS as int, (old(items)@[BOLTS as int] - 1) as i16)
            &&& final(screen)@ == took_picture(old(screen)@, *pcs, old(items)@[BOLTS as int] - 1, 9, 11)
            &&& *final(boltsleft) == 8
            &&& *final(pas) == asked_sound(*old(pas), 13)
        },
        old(items)@[BOLTS as int] <= 0 ==> {
            &&& final(items)@ == old(items)@
            &&& final(screen)@ == old(screen)@
            &&& *final(boltsleft) == *old(boltsleft)
            &&& *final(pas) == asked_sound(*old(pas), 14)
        },
{
    if take_item(BOLTS, 9, 11, 13, items, pas, screen, pcs) {
        *boltsleft = 8;
    }
}

/// Giving an item and then using it up gives back the count, and a
/// picture that the giving drew is the one that the using blanks.
pub proof fn lemma_give_then_take(n: i16, limit: int)
    requires
        0 <= n < i16::MAX,
    ensures
        one_more(n) > 0,
        (one_more(n) - 1) as i16 == n,
        26 + (n + 1) == 27 + (one_more(n) - 1),
        n + 1 < limit ==> one_more(n) - 1 < limit,
{
}

} // verus!
