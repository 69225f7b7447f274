use vstd::prelude::*;

use crate::catacomb_ii::control_struct::ControlStruct;
use crate::catacomb_ii::demo_enum::demoenum;
use crate::catacomb_ii::dir_type::dirtype;
use crate::catacomb_ii::gr_type::grtype;
use crate::catacomb_ii::input_type::inputtype;
use crate::catacomb_ii::pcrlib_a_state::PcrlibAState;
use crate::catacomb_ii::le_bytes::push_u32_le;
use crate::catacomb_ii::ctl_panel_type::ctlpaneltype;
use crate::catacomb_ii::pcrlib_c_state::{PcrlibCState, DEMO_BUFFER_SIZE, SCREEN_PIXELS};
use crate::catacomb_ii::scan_codes::{
    SDL_SCANCODE_DOWN, SDL_SCANCODE_END, SDL_SCANCODE_HOME, SDL_SCANCODE_LALT,
    SDL_SCANCODE_LCTRL, SDL_SCANCODE_LEFT, SDL_SCANCODE_PAGEDOWN, SDL_SCANCODE_PAGEUP,
    SDL_SCANCODE_RIGHT, SDL_SCANCODE_UNKNOWN, SDL_SCANCODE_UP,
};
use crate::catacomb_ii::scores::scores;
use crate::catacomb_ii::sound_type::soundtype;

verus! {

/// The direction of a move by `x` columns and `y` rows (each -1, 0 or 1).
pub open spec fn move_dir(x: int, y: int) -> dirtype {
    if y < 0 {
        if x < 0 {
            dirtype::northwest
        } else if x == 0 {
            dirtype::north
        } else {
            dirtype::northeast
        }
    } else if y == 0 {
        if x < 0 {
            dirtype::west
        } else if x == 0 {
            dirtype::nodir
        } else {
            dirtype::east
        }
    } else {
        if x < 0 {
            dirtype::southwest
        } else if x == 0 {
            dirtype::south
        } else {
            dirtype::southeast
        }
    }
}

/// The direction of a move by `xmove` columns and `ymove` rows.
pub fn dir_from_moves(xmove: i32, ymove: i32) -> (r: dirtype)
    requires
        -1 <= xmove <= 1,
        -1 <= ymove <= 1,
    ensures
        r == move_dir(xmove as int, ymove as int),
{
    match ymove * 3 + xmove {
        -4 => dirtype::northwest,
        -3 => dirtype::north,
        -2 => dirtype::northeast,
        -1 => dirtype::west,
        0 => dirtype::nodir,
        1 => dirtype::east,
        2 => dirtype::southwest,
        3 => dirtype::south,
        _ => dirtype::southeast,
    }
}

/// Every bound key is a valid index into the key state table.
pub open spec fn keys_ok(pcs: PcrlibCState) -> bool {
    &&& forall|i: int| 0 <= i < 8 ==> #[trigger] pcs.key[i] < pcs.keydown@.len()
    &&& pcs.keyB1 < pcs.keydown@.len()
    &&& pcs.keyB2 < pcs.keydown@.len()
}

/// Whether the key bound to direction `d` is down.
pub open spec fn dir_key_down(pcs: PcrlibCState, d: dirtype) -> bool {
    pcs.keydown@[pcs.key[d.value() as int] as int]
}

/// The vertical move from the direction keys: the diagonal keys win over
/// the straight ones (south-west, south-east, north-west, north-east, then
/// south, then north).
pub open spec fn kbd_ymove(pcs: PcrlibCState) -> int {
    if dir_key_down(pcs, dirtype::southwest) || dir_key_down(pcs, dirtype::southeast) {
        1
    } else if dir_key_down(pcs, dirtype::northwest) || dir_key_down(pcs, dirtype::northeast) {
        -1
    } else if dir_key_down(pcs, dirtype::south) {
        1
    } else if dir_key_down(pcs, dirtype::north) {
        -1
    } else {
        0
    }
}

/// The horizontal move from the direction keys, with the same precedence
/// (south-west, south-east, north-west, north-east, then west, then east).
pub open spec fn kbd_xmove(pcs: PcrlibCState) -> int {
    if dir_key_down(pcs, dirtype::southwest) {
        -1
    } else if dir_key_down(pcs, dirtype::southeast) {
        1
    } else if dir_key_down(pcs, dirtype::northwest) {
        -1
    } else if dir_key_down(pcs, dirtype::northeast) {
        1
    } else if dir_key_down(pcs, dirtype::west) {
        -1
    } else if dir_key_down(pcs, dirtype::east) {
        1
    } else {
        0
    }
}

fn key_down(pcs: &PcrlibCState, d: dirtype) -> (r: bool)
    requires
        keys_ok(*pcs),
        d != dirtype::nodir,
    ensures
        r == dir_key_down(*pcs, d),
{
    let k = pcs.key[d.to_u32() as usize];
    pcs.keydown[k as usize]
}

/// The controls from the keyboard: the direction of the pressed direction
/// keys and the two button keys.
pub fn ControlKBD(pcs: &PcrlibCState) -> (action: ControlStruct)
    requires
        keys_ok(*pcs),
    ensures
        action.dir == move_dir(kbd_xmove(*pcs), kbd_ymove(*pcs)),
        action.button1 == pcs.keydown@[pcs.keyB1 as int],
        action.button2 == pcs.keydown@[pcs.keyB2 as int],
{
    let mut xmove: i32 = 0;
    let mut ymove: i32 = 0;
    if key_down(pcs, dirtype::north) {
        ymove = -1;
    }
    if key_down(pcs, dirtype::east) {
        xmove = 1;
    }
    if key_down(pcs, dirtype::south) {
        ymove = 1;
    }
    if key_down(pcs, dirtype::west) {
        xmove = -1;
    }
    if key_down(pcs, dirtype::northeast) {
        ymove = -1;
        xmove = 1;
    }
    if key_down(pcs, dirtype::northwest) {
        ymove = -1;
        xmove = -1;
    }
    if key_down(pcs, dirtype::southeast) {
        ymove = 1;
        xmove = 1;
    }
    if key_down(pcs, dirtype::southwest) {
        ymove = 1;
        xmove = -1;
    }
    let dir = dir_from_moves(xmove, ymove);
    ControlStruct {
        dir,
        button1: pcs.keydown[pcs.keyB1 as usize],
        button2: pcs.keydown[pcs.keyB2 as usize],
    }
}

/// -1, 0 or 1 as `v` is below `-threshold`, within it, or above it.
pub open spec fn axis_move(v: int, threshold: int) -> int {
    if v > threshold {
        1
    } else if v < -threshold {
        -1
    } else {
        0
    }
}

/// The controls from the mouse, given its relative motion and buttons: no
/// direction when no mouse motion was seen this frame, otherwise the
/// direction of the axes whose motion exceeds the sensitivity.
pub fn ControlMouse(newx: i32, newy: i32, left: bool, right: bool, pcs: &PcrlibCState) -> (action:
    ControlStruct)
    requires
        pcs.MouseSensitivity > i32::MIN,
    ensures
        action.button1 == left,
        action.button2 == right,
        action.dir == if pcs.mouseEvent {
            move_dir(
                axis_move(newx as int, pcs.MouseSensitivity as int),
                axis_move(newy as int, pcs.MouseSensitivity as int),
            )
        } else {
            dirtype::nodir
        },
{
    if !pcs.mouseEvent {
        return ControlStruct { dir: dirtype::nodir, button1: left, button2: right };
    }
    let xmove: i32 = if newx > pcs.MouseSensitivity {
        1
    } else if newx < -pcs.MouseSensitivity {
        -1
    } else {
        0
    };
    let ymove: i32 = if newy > pcs.MouseSensitivity {
        1
    } else if newy < -pcs.MouseSensitivity {
        -1
    } else {
        0
    };
    ControlStruct { dir: dir_from_moves(xmove, ymove), button1: left, button2: right }
}

/// -1, 0 or 1 as `v` is below `low`, between the bounds, or above `high`.
pub open spec fn joy_move(v: int, low: int, high: int) -> int {
    if v > high {
        1
    } else if v < low {
        -1
    } else {
        0
    }
}

/// The controls from joystick `joynum`, given its axes and buttons: no
/// direction when both axes read zero, otherwise the direction of the axes
/// outside the calibrated range.
pub fn ControlJoystick(joynum: i32, joyx: i32, joyy: i32, button1: bool, button2: bool, pcs: &PcrlibCState) -> (action: ControlStruct)
    requires
        0 <= joynum < 3,
    ensures
        action.button1 == button1,
        action.button2 == button2,
        action.dir == if joyx == 0 && joyy == 0 {
            dirtype::nodir
        } else {
            move_dir(
                joy_move(joyx as int, pcs.JoyXlow[joynum as int] as int, pcs.JoyXhigh[joynum as int] as int),
                joy_move(joyy as int, pcs.JoyYlow[joynum as int] as int, pcs.JoyYhigh[joynum as int] as int),
            )
        },
{
    if joyx == 0 && joyy == 0 {
        return ControlStruct { dir: dirtype::nodir, button1, button2 };
    }
    let j = joynum as usize;
    let mut xmove: i32 = 0;
    let mut ymove: i32 = 0;
    if joyx > pcs.JoyXhigh[j] {
        xmove = 1;
    } else if joyx < pcs.JoyXlow[j] {
        xmove = -1;
    }
    if joyy > pcs.JoyYhigh[j] {
        ymove = 1;
    } else if joyy < pcs.JoyYlow[j] {
        ymove = -1;
    }
    ControlStruct { dir: dir_from_moves(xmove, ymove), button1, button2 }
}

/// Closes both joysticks.
pub fn ShutdownJoysticks(pcs: &mut PcrlibCState)
    ensures
        final(pcs).joystick[0] == old(pcs).joystick[0],
        final(pcs).joystick[1] is None,
        final(pcs).joystick[2] is None,
        *final(pcs) == (PcrlibCState { joystick: final(pcs).joystick, ..*old(pcs) }),
{
    pcs.joystick[1] = None;
    pcs.joystick[2] = None;
}

/// Whether the mouse should be captured: the window has focus and a player
/// uses the mouse.
pub fn mouse_capture_wanted(pcs: &PcrlibCState) -> (r: bool)
    ensures
        r == (pcs.hasFocus && (pcs.playermode[1] == inputtype::mouse || pcs.playermode[2]
            == inputtype::mouse)),
{
    pcs.hasFocus && (pcs.playermode[1] == inputtype::mouse || pcs.playermode[2] == inputtype::mouse)
}

/// The demo byte of a frame's controls: direction in bits 2-5, button 2 in
/// bit 1, button 1 in bit 0.
pub open spec fn demo_byte(c: ControlStruct) -> u8 {
    (c.dir.value() * 4 + (if c.button2 {
        2int
    } else {
        0
    }) + (if c.button1 {
        1int
    } else {
        0
    })) as u8
}

/// A demo byte can be played back: its direction field names a direction.
pub open spec fn demo_byte_ok(val: u8) -> bool {
    (val & 60) >> 2u8 <= 8
}

/// The controls stored in a demo byte.
pub open spec fn demo_control(val: u8) -> ControlStruct {
    ControlStruct {
        dir: choose|d: dirtype| d.value() == ((val & 60) >> 2u8) as u32,
        button1: (val & 1) != 0,
        button2: ((val & 2) >> 1u8) != 0,
    }
}

/// Encodes a frame's controls as a demo byte.
pub fn encode_demo_byte(ret: ControlStruct) -> (r: u8)
    ensures
        r == demo_byte(ret),
        demo_byte_ok(r),
{
    let d = ret.dir.to_u32();
    let val: u32 = (d << 2) | ((ret.button2 as u32) << 1) | (ret.button1 as u32);
    let b2: u32 = ret.button2 as u32;
    let b1: u32 = ret.button1 as u32;
    assert(val == d * 4 + b2 * 2 + b1 && ((val as u8) & 60) >> 2u8 == d) by (bit_vector)
        requires
            d <= 8,
            b1 <= 1,
            b2 <= 1,
            val == (d << 2) | (b2 << 1) | b1,
    ;
    val as u8
}

/// Decodes the controls stored in a demo byte.
pub fn decode_demo_byte(val: u8) -> (ret: ControlStruct)
    requires
        demo_byte_ok(val),
    ensures
        ret == demo_control(val),
{
    let d = (val & (4 + 8 + 16 + 32)) >> 2;
    let dir = dirtype::from_u8(d);
    ControlStruct { dir, button1: (val & 1) != 0, button2: ((val & 2) >> 1) != 0 }
}

/// Playing back the demo byte of a frame's controls gives those controls.
pub proof fn lemma_demo_roundtrip(c: ControlStruct)
    ensures
        demo_byte_ok(demo_byte(c)),
        demo_control(demo_byte(c)) == c,
{
    let d: u32 = c.dir.value();
    let b2: u32 = if c.button2 { 1 } else { 0 };
    let b1: u32 = if c.button1 { 1 } else { 0 };
    let v: u8 = demo_byte(c);
    assert(v == (d * 4 + b2 * 2 + b1) as u8);
    assert(((v & 60) >> 2u8) as u32 == d && ((v & 1) != 0) == (b1 == 1) && (((v & 2) >> 1u8)
        != 0) == (b2 == 1)) by (bit_vector)
        requires
            d <= 8,
            b1 <= 1,
            b2 <= 1,
            v == (d * 4 + b2 * 2 + b1) as u8,
    ;
    let chosen = choose|dd: dirtype| dd.value() == ((v & 60) >> 2u8) as u32;
    assert(c.dir.value() == ((v & 60) >> 2u8) as u32);
    assert(chosen.value() == c.dir.value());
}

/// Starts recording a demo: the level goes first in the buffer.
pub fn RecordDemo(indemo: &mut demoenum, pcs: &mut PcrlibCState)
    requires
        old(pcs).demobuffer@.len() > 0,
    ensures
        *final(indemo) == demoenum::recording,
        final(pcs).demobuffer@ == old(pcs).demobuffer@.update(0, old(pcs).level as u8),
        final(pcs).demoptr == 1,
        final(pcs).level == old(pcs).level,
        final(pcs).keydown == old(pcs).keydown,
{
    pcs.demobuffer.set(0, #[verifier::truncate] (pcs.level as u8));
    pcs.demoptr = 1;
    *indemo = demoenum::recording;
}

/// Appends a frame's controls to the demo being recorded.
pub fn record_demo_control(ret: ControlStruct, pcs: &mut PcrlibCState)
    requires
        old(pcs).demoptr < old(pcs).demobuffer@.len(),
    ensures
        final(pcs).demobuffer@ == old(pcs).demobuffer@.update(old(pcs).demoptr as int, demo_byte(ret)),
        final(pcs).demoptr == old(pcs).demoptr + 1,
        final(pcs).level == old(pcs).level,
        final(pcs).keydown == old(pcs).keydown,
{
    let val = encode_demo_byte(ret);
    let len = pcs.demobuffer.len();
    let p = pcs.demoptr;
    assert(p + 1 <= len);
    pcs.demobuffer.set(p, val);
    pcs.demoptr = p + 1;
}

/// Reads the next frame's controls from the demo being played back.
pub fn play_demo_control(pcs: &mut PcrlibCState) -> (ret: ControlStruct)
    requires
        old(pcs).demoptr < old(pcs).demobuffer@.len(),
        demo_byte_ok(old(pcs).demobuffer@[old(pcs).demoptr as int]),
    ensures
        ret == demo_control(old(pcs).demobuffer@[old(pcs).demoptr as int]),
        final(pcs).demoptr == old(pcs).demoptr + 1,
        final(pcs).demobuffer == old(pcs).demobuffer,
        final(pcs).level == old(pcs).level,
        final(pcs).keydown == old(pcs).keydown,
{
    let len = pcs.demobuffer.len();
    let val = pcs.demobuffer[pcs.demoptr];
    assert(pcs.demoptr + 1 <= len);
    pcs.demoptr += 1;
    decode_demo_byte(val)
}

/// Recording a frame's controls and reading them back at the same
/// position gives the same controls.
pub proof fn lemma_record_then_play(buffer: Seq<u8>, ptr: int, c: ControlStruct)
    requires
        0 <= ptr < buffer.len(),
    ensures
        demo_byte_ok(buffer.update(ptr, demo_byte(c))[ptr]),
        demo_control(buffer.update(ptr, demo_byte(c))[ptr]) == c,
{
    lemma_demo_roundtrip(c);
}

/// The first position from `i` on of `sc` in `map` (of 128 entries), or 0.
pub open spec fn dos_code_from(map: Seq<u32>, sc: u32, i: int) -> int
    decreases 128 - i,
{
    if i >= 128 || i < 0 {
        0
    } else if map[i] == sc {
        i
    } else {
        dos_code_from(map, sc, i + 1)
    }
}

/// The DOS scan code of an SDL scan code: its first position in `map`
/// (which lists, for each DOS scan code, its SDL scan code), or 0.
pub fn ScancodeToDOS(sc: u32, map: &[u32; 128]) -> (r: i32)
    ensures
        r == dos_code_from(map@, sc, 0),
        0 <= r < 128,
        r > 0 ==> map[r as int] == sc && forall|k: int| 0 <= k < r ==> map[k] != sc,
        r == 0 ==> map[0] == sc || forall|k: int| 0 <= k < 128 ==> map[k] != sc,
{
    let mut i: i32 = 0;
    while i < 128
        invariant
            0 <= i <= 128,
            forall|k: int| 0 <= k < i ==> map[k] != sc,
            dos_code_from(map@, sc, 0) == dos_code_from(map@, sc, i as int),
        decreases 128 - i,
    {
        if map[i as usize] == sc {
            return i;
        }
        i += 1;
    }
    0
}

/// The position of the first zero byte.
pub fn strlen(string: &[u8]) -> (r: usize)
    requires
        exists|k: int| 0 <= k < string@.len() && string@[k] == 0,
    ensures
        r < string@.len(),
        string@[r as int] == 0,
        forall|k: int| 0 <= k < r ==> string@[k] != 0,
{
    let mut i: usize = 0;
    while i < string.len()
        invariant
            i <= string@.len(),
            forall|k: int| 0 <= k < i ==> string@[k] != 0,
            exists|k: int| 0 <= k < string@.len() && string@[k] == 0,
        decreases string@.len() - i,
    {
        if string[i] == 0 {
            return i;
        }
        i += 1;
    }
    0
}

/// The key left by an earlier look-ahead, if any; a read (`cmd != 1`)
/// consumes it, a look-ahead (`cmd == 1`) keeps it.
pub fn bioskey_pending(cmd: i32, pcs: &mut PcrlibCState) -> (r: Option<u32>)
    ensures
        old(pcs).lastkey != 0 ==> r == Some(old(pcs).lastkey) && final(pcs).lastkey == if cmd
            != 1 {
            SDL_SCANCODE_UNKNOWN
        } else {
            old(pcs).lastkey
        },
        old(pcs).lastkey == 0 ==> r is None && final(pcs).lastkey == 0,
        final(pcs).keydown == old(pcs).keydown,
{
    if pcs.lastkey != 0 {
        let oldkey = pcs.lastkey;
        if cmd != 1 {
            pcs.lastkey = SDL_SCANCODE_UNKNOWN;
        }
        return Some(oldkey);
    }
    None
}

/// The result of a key read after polling: the first key pressed, which a
/// look-ahead (`cmd == 1`) keeps for the next read; otherwise the key left
/// for later.
pub fn bioskey_polled(cmd: i32, pressed: Option<u32>, pcs: &mut PcrlibCState) -> (r: u32)
    ensures
        pressed matches Some(k) ==> r == k && final(pcs).lastkey == if cmd == 1 {
            k
        } else {
            old(pcs).lastkey
        },
        pressed is None ==> r == old(pcs).lastkey && final(pcs).lastkey == old(pcs).lastkey,
        final(pcs).keydown == old(pcs).keydown,
{
    match pressed {
        Some(k) => {
            if cmd == 1 {
                pcs.lastkey = k;
            }
            k
        },
        None => pcs.lastkey,
    }
}

/// The high score table is ordered from the best score down.
pub open spec fn highscores_sorted(h: [scores; 5]) -> bool {
    forall|i: int, j: int| 0 <= i < j < 5 ==> h[i].score >= h[j].score
}

/// Where a new score enters the table: the first entry that it beats, or 5
/// when it beats none.
pub open spec fn highscore_slot(h: [scores; 5], score: i32) -> int {
    if score > h[0].score {
        0
    } else if score > h[1].score {
        1
    } else if score > h[2].score {
        2
    } else if score > h[3].score {
        3
    } else if score > h[4].score {
        4
    } else {
        5
    }
}

/// The place a new score takes is the first of the five whose score it
/// beats: every place before it holds a score at least as high, the place
/// itself a lower one, and a score that beats the last entry always gets a
/// place; only a score beating none of them stays out (5).
pub proof fn lemma_highscore_slot_first_beaten(h: [scores; 5], score: i32)
    ensures
        0 <= highscore_slot(h, score) <= 5,
        forall|k: int| 0 <= k < highscore_slot(h, score) ==> !(score > #[trigger] h[k].score),
        highscore_slot(h, score) < 5 ==> score > h[highscore_slot(h, score)].score,
        score > h[4].score ==> highscore_slot(h, score) < 5,
        highscore_slot(h, score) == 5 <==> forall|k: int| 0 <= k < 5 ==> !(score > #[trigger] h[k].score),
{
    if highscore_slot(h, score) == 5 {
        assert forall|k: int| 0 <= k < 5 implies !(score > #[trigger] h[k].score) by {
            assert(k == 0 || k == 1 || k == 2 || k == 3 || k == 4);
        }
    }
}

/// Enters the current score into the high score table: it takes the first
/// entry that it beats, with blank initials, and the entries from there on
/// move down one place (the last one drops out). Returns the entry's
/// position, or 5 when the score beats no entry.
pub fn insert_highscore(pcs: &mut PcrlibCState) -> (r: i32)
    ensures
        r == highscore_slot(old(pcs).highscores, old(pcs).score),
        0 <= r <= 5,
        forall|k: int| 0 <= k < r ==> !(old(pcs).score > #[trigger] old(pcs).highscores[k].score),
        r < 5 ==> old(pcs).score > old(pcs).highscores[r as int].score,
        old(pcs).score > old(pcs).highscores[4].score ==> r < 5,
        r < 5 ==> final(pcs).highscores[r as int] == (scores {
            score: old(pcs).score,
            level: old(pcs).level,
            initials: [32u8, 32u8, 32u8],
        }),
        r < 5 ==> final(pcs).highscores[r as int].initials@ == seq![32u8, 32u8, 32u8],
        *final(pcs) == (PcrlibCState { highscores: final(pcs).highscores, ..*old(pcs) }),
        forall|k: int| 0 <= k < r && k < 5 ==> #[trigger] final(pcs).highscores[k] == old(pcs).highscores[k],
        forall|k: int| r < k < 5 ==> #[trigger] final(pcs).highscores[k] == old(pcs).highscores[k - 1],
        final(pcs).score == old(pcs).score,
        final(pcs).level == old(pcs).level,
        highscores_sorted(old(pcs).highscores) ==> highscores_sorted(final(pcs).highscores),
{
    let mut i: i32 = 0;
    while i < 5 && !(pcs.score > pcs.highscores[i as usize].score)
        invariant
            0 <= i <= 5,
            forall|k: int| 0 <= k < i ==> !(pcs.score > #[trigger] pcs.highscores[k].score),
            pcs.highscores == old(pcs).highscores,
            *pcs == *old(pcs),
            pcs.score == old(pcs).score,
            pcs.level == old(pcs).level,
        decreases 5 - i,
    {
        i += 1;
    }
    assert(i == highscore_slot(old(pcs).highscores, old(pcs).score));
    if i < 5 {
        let mut j: i32 = 4;
        while i < j
            invariant
                0 <= i <= j <= 4,
                i < 5,
                pcs.score == old(pcs).score,
                pcs.level == old(pcs).level,
                *pcs == (PcrlibCState { highscores: pcs.highscores, ..*old(pcs) }),
                forall|k: int| 0 <= k <= j ==> #[trigger] pcs.highscores[k] == old(pcs).highscores[k],
                forall|k: int| j < k < 5 ==> #[trigger] pcs.highscores[k] == old(pcs).highscores[k - 1],
            decreases j - i,
        {
            let k = j - 1;
            pcs.highscores[j as usize] = pcs.highscores[k as usize];
            j -= 1;
        }
        pcs.highscores[i as usize].score = pcs.score;
        pcs.highscores[i as usize].level = pcs.level;
        pcs.highscores[i as usize].initials = [32u8, 32u8, 32u8];
        assert(pcs.highscores[i as int].initials@ =~= seq![32u8, 32u8, 32u8]);
    }
    i
}

/// The high score table when there is no score file: five entries of 100
/// points on level 1 by "PCR".
pub fn default_highscores() -> (r: [scores; 5])
    ensures
        forall|i: int|
            0 <= i < 5 ==> #[trigger] r[i].score == 100 && r[i].level == 1 && r[i].initials@
                == seq![80u8, 67u8, 82u8],
        highscores_sorted(r),
{
    let e = scores { score: 100, level: 1, initials: [80u8, 67u8, 82u8] };
    assert(e.initials@ =~= seq![80u8, 67u8, 82u8]);
    [e; 5]
}

/// Loads the high score table from the score file's bytes: the five
/// on-disk entries when the file was read (`bytes_loaded > 0`), the default
/// table otherwise.
#[verifier::spinoff_prover]
pub fn load_highscores(buffer: &[u8], bytes_loaded: usize, pcs: &mut PcrlibCState)
    requires
        buffer@.len() >= 50,
    ensures
        bytes_loaded > 0 ==> forall|i: int|
            0 <= i < 5 ==> {
                &&& #[trigger] final(pcs).highscores[i].score as u32 == crate::catacomb_ii::le_bytes::le32(
                    buffer@[10 * i],
                    buffer@[10 * i + 1],
                    buffer@[10 * i + 2],
                    buffer@[10 * i + 3],
                )
                &&& final(pcs).highscores[i].level as u16 == crate::catacomb_ii::le_bytes::le16(
                    buffer@[10 * i + 4],
                    buffer@[10 * i + 5],
                )
                &&& final(pcs).highscores[i].initials@ == buffer@.subrange(10 * i + 6, 10 * i + 9)
            },
        bytes_loaded == 0 ==> forall|i: int|
            0 <= i < 5 ==> #[trigger] final(pcs).highscores[i].score == 100
                && final(pcs).highscores[i].level == 1
                && final(pcs).highscores[i].initials@ == seq![80u8, 67u8, 82u8],
        final(pcs).score == old(pcs).score,
        final(pcs).level == old(pcs).level,
{
    if bytes_loaded > 0 {
        let mut i: usize = 0;
        while i < 5
            invariant
                i <= 5,
                buffer@.len() >= 50,
                pcs.score == old(pcs).score,
                pcs.level == old(pcs).level,
                forall|k: int|
                    0 <= k < i ==> {
                        &&& #[trigger] pcs.highscores[k].score as u32 == crate::catacomb_ii::le_bytes::le32(
                            buffer@[10 * k],
                            buffer@[10 * k + 1],
                            buffer@[10 * k + 2],
                            buffer@[10 * k + 3],
                        )
                        &&& pcs.highscores[k].level as u16 == crate::catacomb_ii::le_bytes::le16(
                            buffer@[10 * k + 4],
                            buffer@[10 * k + 5],
                        )
                        &&& pcs.highscores[k].initials@ == buffer@.subrange(10 * k + 6, 10 * k + 9)
                    },
            decreases 5 - i,
        {
            let chunk = &buffer[10 * i..10 * i + 10];
            let ghost b = i as int * 10;
            assert(chunk@[0] == buffer@[b] && chunk@[1] == buffer@[b + 1] && chunk@[2] == buffer@[b
                + 2] && chunk@[3] == buffer@[b + 3] && chunk@[4] == buffer@[b + 4] && chunk@[5]
                == buffer@[b + 5]);
            let s = scores::deserialize(chunk);
            assert(s.initials@ =~= buffer@.subrange(b + 6, b + 9));
            let ghost before = pcs.highscores;
            pcs.highscores[i] = s;
            assert(forall|k: int| 0 <= k < i ==> pcs.highscores[k] == before[k]);
            i += 1;
        }
    } else {
        let h = default_highscores();
        pcs.highscores = h;
        assert forall|i: int| 0 <= i < 5 implies #[trigger] pcs.highscores[i].score == 100
            && pcs.highscores[i].level == 1 && pcs.highscores[i].initials@ == seq![
            80u8,
            67u8,
            82u8,
        ] by {
            assert(h[i].score == 100);
        }
    }
}

/// The score file's bytes: the five entries in their on-disk form.
pub fn serialize_highscores(h: &[scores; 5]) -> (r: Vec<u8>)
    ensures
        r@ == h[0].encoded() + h[1].encoded() + h[2].encoded() + h[3].encoded() + h[4].encoded(),
{
    let mut out: Vec<u8> = Vec::new();
    h[0].serialize(&mut out);
    h[1].serialize(&mut out);
    h[2].serialize(&mut out);
    h[3].serialize(&mut out);
    h[4].serialize(&mut out);
    assert(out@ =~= Seq::<u8>::empty() + h[0].encoded() + h[1].encoded() + h[2].encoded() + h[3].encoded()
        + h[4].encoded());
    out
}

/// Applies the default control settings (used when there is no control
/// panel file): EGA/VGA graphics, speaker sound, keyboard for player 1 and
/// joystick 1 for player 2, joystick ranges 20..60, mouse sensitivity 5,
/// the arrow/navigation keys for the directions, and Ctrl/Alt as buttons.
pub fn default_ctrls(pas: &mut PcrlibAState, pcs: &mut PcrlibCState)
    ensures
        final(pcs).grmode == grtype::VGAgr,
        final(pas).inner.soundmode == soundtype::spkr,
        final(pcs).playermode[1] == inputtype::keyboard,
        final(pcs).playermode[2] == inputtype::joystick1,
        final(pcs).playermode[0] == old(pcs).playermode[0],
        final(pcs).JoyXlow[1] == 20 && final(pcs).JoyXlow[2] == 20,
        final(pcs).JoyXhigh[1] == 60 && final(pcs).JoyXhigh[2] == 60,
        final(pcs).JoyYlow[1] == 20 && final(pcs).JoyYlow[2] == 20,
        final(pcs).JoyYhigh[1] == 60 && final(pcs).JoyYhigh[2] == 60,
        final(pcs).MouseSensitivity == 5,
        final(pcs).key[dirtype::north.value() as int] == SDL_SCANCODE_UP,
        final(pcs).key[dirtype::northeast.value() as int] == SDL_SCANCODE_PAGEUP,
        final(pcs).key[dirtype::east.value() as int] == SDL_SCANCODE_RIGHT,
        final(pcs).key[dirtype::southeast.value() as int] == SDL_SCANCODE_PAGEDOWN,
        final(pcs).key[dirtype::south.value() as int] == SDL_SCANCODE_DOWN,
        final(pcs).key[dirtype::southwest.value() as int] == SDL_SCANCODE_END,
        final(pcs).key[dirtype::west.value() as int] == SDL_SCANCODE_LEFT,
        final(pcs).key[dirtype::northwest.value() as int] == SDL_SCANCODE_HOME,
        final(pcs).keyB1 == SDL_SCANCODE_LCTRL,
        final(pcs).keyB2 == SDL_SCANCODE_LALT,
        final(pcs).keydown == old(pcs).keydown,
        final(pas).RndArray == old(pas).RndArray,
{
    pcs.grmode = grtype::VGAgr;
    pas.inner.soundmode = soundtype::spkr;
    pcs.playermode[1] = inputtype::keyboard;
    pcs.playermode[2] = inputtype::joystick1;
    pcs.JoyXlow[2] = 20;
    pcs.JoyXlow[1] = pcs.JoyXlow[2];
    pcs.JoyXhigh[2] = 60;
    pcs.JoyXhigh[1] = pcs.JoyXhigh[2];
    pcs.JoyYlow[2] = 20;
    pcs.JoyYlow[1] = pcs.JoyYlow[2];
    pcs.JoyYhigh[2] = 60;
    pcs.JoyYhigh[1] = pcs.JoyYhigh[2];
    pcs.MouseSensitivity = 5;
    pcs.key[0] = SDL_SCANCODE_UP;
    pcs.key[4] = SDL_SCANCODE_PAGEUP;
    pcs.key[1] = SDL_SCANCODE_RIGHT;
    pcs.key[5] = SDL_SCANCODE_PAGEDOWN;
    pcs.key[2] = SDL_SCANCODE_DOWN;
    pcs.key[6] = SDL_SCANCODE_END;
    pcs.key[3] = SDL_SCANCODE_LEFT;
    pcs.key[7] = SDL_SCANCODE_HOME;
    pcs.keyB1 = SDL_SCANCODE_LCTRL;
    pcs.keyB2 = SDL_SCANCODE_LALT;
}

/// The 16 colours of the EGA palette, as 0xRRGGBB.
pub const EGAPalette: [u32; 16] = [
    0, 0xaa, 0xaa00, 0xaaaa, 0xaa0000, 0xaa00aa, 0xaa5500, 0xaaaaaa, 0x555555, 0x5555ff, 0x55ff55,
    0x55ffff, 0xff5555, 0xff55ff, 0xffff55, 0xffffff,
];

/// The 4 colours of the CGA palette, as 0xRRGGBB.
pub const CGAPalette: [u32; 4] = [0, 0x55ffff, 0xff55ff, 0xffffff];

/// The colour of palette entry `v` in graphics mode `mode`.
pub open spec fn palette_colour(mode: grtype, v: u8) -> u32 {
    if mode == grtype::CGAgr {
        CGAPalette@[v as int]
    } else {
        EGAPalette@[v as int]
    }
}

/// The screen can be shown in its graphics mode: EGA or CGA, and every
/// pixel an entry of that mode's palette.
pub open spec fn screen_showable(mode: grtype, screen: Seq<u8>) -> bool {
    &&& mode == grtype::EGAgr || mode == grtype::CGAgr
    &&& screen.len() >= SCREEN_PIXELS
    &&& forall|i: int|
        0 <= i < SCREEN_PIXELS ==> #[trigger] screen[i] < if mode == grtype::CGAgr {
            4u8
        } else {
            16u8
        }
}

/// The little-endian bytes of a sequence of colours.
pub open spec fn colour_bytes(conv: Seq<u32>) -> Seq<u8>
    decreases conv.len(),
{
    if conv.len() == 0 {
        Seq::empty()
    } else {
        let v = conv.last();
        colour_bytes(conv.drop_last()) + seq![
            (v % 256) as u8,
            (v / 256 % 256) as u8,
            (v / 65536 % 256) as u8,
            (v / 16777216) as u8,
        ]
    }
}

/// The little-endian bytes of the colours.
fn colour_bytes_of(conv: &Vec<u32>) -> (pixels: Vec<u8>)
    requires
        conv@.len() <= SCREEN_PIXELS,
    ensures
        pixels@ == colour_bytes(conv@),
{
    let mut pixels: Vec<u8> = Vec::new();
    let mut j: usize = 0;
    while j < conv.len()
        invariant
            j <= conv@.len(),
            pixels@ == colour_bytes(conv@.take(j as int)),
        decreases conv@.len() - j,
    {
        let ghost before = pixels@;
        let v = conv[j];
        push_u32_le(&mut pixels, v);
        proof {
            let b = pixels@;
            let n = before.len() as int;
            assert(conv@.take(j as int + 1).drop_last() =~= conv@.take(j as int));
            assert(crate::catacomb_ii::le_bytes::le32(b[n], b[n + 1], b[n + 2], b[n + 3]) == v);
            assert(b[n] == (v % 256) as u8 && b[n + 1] == (v / 256 % 256) as u8 && b[n + 2] == (v
                / 65536 % 256) as u8 && b[n + 3] == (v / 16777216) as u8) by (nonlinear_arith)
                requires
                    b[n] + 256 * b[n + 1] + 65536 * b[n + 2] + 16777216 * b[n + 3] == v,
                    b[n] < 256,
                    b[n + 1] < 256,
                    b[n + 2] < 256,
                    b[n + 3] < 256,
            ;
            assert(pixels@ =~= colour_bytes(conv@.take(j as int + 1)));
        }
        j += 1;
    }
    assert(conv@.take(conv@.len() as int) =~= conv@);
    pixels
}

/// Converts the screen's palette entries to colours in `pcs.conv` and
/// returns the colours' bytes, ready to be shown.
pub fn UpdateScreen(screen: &[u8], pcs: &mut PcrlibCState) -> (pixels: Vec<u8>)
    requires
        screen_showable(old(pcs).grmode, screen@),
        old(pcs).conv@.len() == SCREEN_PIXELS,
    ensures
        final(pcs).conv@.len() == SCREEN_PIXELS,
        forall|i: int|
            0 <= i < SCREEN_PIXELS ==> #[trigger] final(pcs).conv@[i] == palette_colour(
                old(pcs).grmode,
                screen@[i],
            ),
        pixels@ == colour_bytes(final(pcs).conv@),
        final(pcs).grmode == old(pcs).grmode,
        final(pcs).keydown == old(pcs).keydown,
        final(pcs).demobuffer == old(pcs).demobuffer,
{
    let cga = match pcs.grmode {
        grtype::CGAgr => true,
        _ => false,
    };
    let mut i: usize = 0;
    while i < SCREEN_PIXELS
        invariant
            i <= SCREEN_PIXELS,
            screen_showable(pcs.grmode, screen@),
            cga == (pcs.grmode == grtype::CGAgr),
            pcs.grmode == old(pcs).grmode,
            pcs.keydown == old(pcs).keydown,
            pcs.demobuffer == old(pcs).demobuffer,
            pcs.conv@.len() == SCREEN_PIXELS,
            forall|k: int|
                0 <= k < i ==> #[trigger] pcs.conv@[k] == palette_colour(pcs.grmode, screen@[k]),
        decreases SCREEN_PIXELS - i,
    {
        let v = screen[i];
        let colour = if cga {
            CGAPalette[v as usize]
        } else {
            EGAPalette[v as usize]
        };
        pcs.conv.set(i, colour);
        i += 1;
    }
    colour_bytes_of(&pcs.conv)
}

/// An input event, as the windowing layer reports it.
#[derive(Clone, Copy, Debug, PartialEq, Eq, Structural)]
pub enum InputEvent {
    KeyDown(u32),
    KeyUp(u32),
    MouseMotion,
    Quit,
    FocusLost,
    FocusGained,
    Other,
}

/// What the windowing layer must do after an event.
#[derive(Clone, Copy, Debug, PartialEq, Eq, Structural)]
pub enum UiAction {
    Nothing,
    Quit,
    SetMouseCapture(bool),
}

/// The input state that events change: the key table, the last key
/// pressed, whether the mouse moved, and whether the window has focus.
pub open spec fn event_state(pcs: PcrlibCState) -> (Seq<bool>, u32, bool, bool) {
    (pcs.keydown@, pcs.lastkey, pcs.mouseEvent, pcs.hasFocus)
}

/// Whether a player uses the mouse.
pub open spec fn mouse_player(pcs: PcrlibCState) -> bool {
    pcs.playermode[1] == inputtype::mouse || pcs.playermode[2] == inputtype::mouse
}

/// The effect of one event: a key press marks the key down and remembers
/// it, a release marks it up, mouse motion is noted; quitting is passed
/// on, and a change of focus is noted and sets the mouse capture (see
/// `mouse_capture_wanted`).
pub open spec fn event_step(s: (Seq<bool>, u32, bool, bool), mouse: bool, ev: InputEvent) -> (
    (Seq<bool>, u32, bool, bool),
    UiAction,
) {
    match ev {
        InputEvent::KeyDown(sc) => ((s.0.update(sc as int, true), sc, s.2, s.3), UiAction::Nothing),
        InputEvent::KeyUp(sc) => ((s.0.update(sc as int, false), s.1, s.2, s.3), UiAction::Nothing),
        InputEvent::MouseMotion => ((s.0, s.1, true, s.3), UiAction::Nothing),
        InputEvent::Quit => (s, UiAction::Quit),
        InputEvent::FocusLost => ((s.0, s.1, s.2, false), UiAction::SetMouseCapture(false)),
        InputEvent::FocusGained => ((s.0, s.1, s.2, true), UiAction::SetMouseCapture(mouse)),
        InputEvent::Other => (s, UiAction::Nothing),
    }
}

/// The effect of a run of events, in order, up to and including the
/// first request to quit: the final state and the action of each event.
pub open spec fn events_effect(s: (Seq<bool>, u32, bool, bool), mouse: bool, events: Seq<InputEvent>) -> (
    (Seq<bool>, u32, bool, bool),
    Seq<UiAction>,
)
    decreases events.len(),
{
    if events.len() == 0 {
        (s, Seq::empty())
    } else {
        let (s1, a) = event_step(s, mouse, events[0]);
        if a == UiAction::Quit {
            (s1, seq![a])
        } else {
            let (s2, rest) = events_effect(s1, mouse, events.drop_first());
            (s2, seq![a] + rest)
        }
    }
}

/// Every key event names a key of the key table.
pub open spec fn events_ok(events: Seq<InputEvent>, keys: nat) -> bool {
    forall|i: int|
        0 <= i < events.len() ==> match #[trigger] events[i] {
            InputEvent::KeyDown(sc) => sc < keys,
            InputEvent::KeyUp(sc) => sc < keys,
            _ => true,
        }
}

/// Handles a windowing event other than keys and mouse motion: quitting is
/// passed on, and a change of focus is noted and sets the mouse capture.
pub fn WatchUIEvents(event: InputEvent, pcs: &mut PcrlibCState) -> (action: UiAction)
    ensures
        !(event is KeyDown || event is KeyUp || event is MouseMotion) ==> (event_state(*final(pcs)), action)
            == event_step(event_state(*old(pcs)), mouse_player(*old(pcs)), event),
        (event is KeyDown || event is KeyUp || event is MouseMotion) ==> action
            == UiAction::Nothing,
        *final(pcs) == (PcrlibCState { hasFocus: final(pcs).hasFocus, ..*old(pcs) }),
{
    match event {
        InputEvent::Quit => UiAction::Quit,
        InputEvent::FocusLost => {
            pcs.hasFocus = false;
            UiAction::SetMouseCapture(mouse_capture_wanted(pcs))
        },
        InputEvent::FocusGained => {
            pcs.hasFocus = true;
            UiAction::SetMouseCapture(mouse_capture_wanted(pcs))
        },
        _ => UiAction::Nothing,
    }
}

/// Handles a run of input events (see `events_effect`), after clearing the
/// mouse-motion flag; returns the action of each event handled. Handling
/// stops at a request to quit.
pub fn ProcessEvents(events: &[InputEvent], pcs: &mut PcrlibCState) -> (actions: Vec<UiAction>)
    requires
        events_ok(events@, old(pcs).keydown@.len()),
    ensures
        ({
            let s0 = (old(pcs).keydown@, old(pcs).lastkey, false, old(pcs).hasFocus);
            let r = events_effect(s0, mouse_player(*old(pcs)), events@);
            &&& event_state(*final(pcs)) == r.0
            &&& actions@ == r.1
        }),
        final(pcs).playermode == old(pcs).playermode,
        final(pcs).demobuffer == old(pcs).demobuffer,
        final(pcs).key == old(pcs).key,
{
    pcs.mouseEvent = false;
    let ghost s0 = event_state(*pcs);
    let ghost mouse = mouse_player(*pcs);
    let mut actions: Vec<UiAction> = Vec::new();
    let mut i: usize = 0;
    proof {
        assert(events@.skip(0) =~= events@);
        let r = events_effect(s0, mouse, events@);
        assert(actions@ + r.1 =~= r.1);
    }
    while i < events.len()
        invariant
            i <= events@.len(),
            events_ok(events@, old(pcs).keydown@.len()),
            pcs.keydown@.len() == old(pcs).keydown@.len(),
            pcs.playermode == old(pcs).playermode,
            pcs.demobuffer == old(pcs).demobuffer,
            pcs.key == old(pcs).key,
            mouse == mouse_player(*pcs),
            s0 == (old(pcs).keydown@, old(pcs).lastkey, false, old(pcs).hasFocus),
            !actions@.contains(UiAction::Quit),
            events_effect(s0, mouse, events@) == ({
                let r = events_effect(event_state(*pcs), mouse, events@.skip(i as int));
                (r.0, actions@ + r.1)
            }),
        decreases events@.len() - i,
    {
        let ev = events[i];
        let ghost st = event_state(*pcs);
        let ghost prev = actions@;
        proof {
            assert(events@.skip(i as int)[0] == ev);
            assert(events@.skip(i as int).drop_first() =~= events@.skip(i as int + 1));
        }
        let action = match ev {
            InputEvent::KeyDown(sc) => {
                assert(sc < pcs.keydown@.len());
                pcs.keydown.set(sc as usize, true);
                pcs.lastkey = sc;
                UiAction::Nothing
            },
            InputEvent::KeyUp(sc) => {
                assert(sc < pcs.keydown@.len());
                pcs.keydown.set(sc as usize, false);
                UiAction::Nothing
            },
            InputEvent::MouseMotion => {
                pcs.mouseEvent = true;
                UiAction::Nothing
            },
            _ => WatchUIEvents(ev, pcs),
        };
        assert((event_state(*pcs), action) == event_step(st, mouse, ev));
        actions.push(action);
        if action == UiAction::Quit {
            proof {
                assert(actions@ == events_effect(s0, mouse, events@).1);
            }
            return actions;
        }
        assert(!actions@.contains(UiAction::Quit)) by {
            assert(actions@ == prev.push(action));
            if actions@.contains(UiAction::Quit) {
                let k = choose|k: int| 0 <= k < actions@.len() && actions@[k] == UiAction::Quit;
                assert(k < prev.len() ==> actions@[k] == prev[k]);
            }
        }
        i += 1;
    }
    proof {
        assert(events@.skip(i as int) =~= Seq::<InputEvent>::empty());
        assert(actions@ + Seq::<UiAction>::empty() =~= actions@);
    }
    actions
}

/// What a player's device reads this frame: the mouse's relative motion
/// or a joystick's axes, and its two buttons.
#[derive(Clone, Copy, Debug, PartialEq, Eq, Structural)]
pub struct DeviceReading {
    pub x: i32,
    pub y: i32,
    pub button1: bool,
    pub button2: bool,
}

/// Where a player's controls come from this frame.
#[derive(Clone, Copy, Debug, PartialEq, Eq, Structural)]
pub enum ControlSource {
    Keyboard,
    Mouse,
    Joystick(i32),
    Demo,
}

/// Where player `player`'s controls come from: the demo being played
/// back, else the player's device (the keyboard for any other mode).
pub open spec fn source_of(player: int, indemo: demoenum, pcs: PcrlibCState) -> ControlSource {
    if indemo == demoenum::demoplay {
        ControlSource::Demo
    } else {
        match pcs.playermode[player] {
            inputtype::mouse => ControlSource::Mouse,
            inputtype::joystick1 => ControlSource::Joystick(1),
            inputtype::joystick2 => ControlSource::Joystick(2),
            _ => ControlSource::Keyboard,
        }
    }
}

/// The controls from the keyboard (see `ControlKBD`).
pub open spec fn kbd_control(pcs: PcrlibCState) -> ControlStruct {
    ControlStruct {
        dir: move_dir(kbd_xmove(pcs), kbd_ymove(pcs)),
        button1: pcs.keydown@[pcs.keyB1 as int],
        button2: pcs.keydown@[pcs.keyB2 as int],
    }
}

/// The controls from the mouse (see `ControlMouse`).
pub open spec fn mouse_control(r: DeviceReading, pcs: PcrlibCState) -> ControlStruct {
    ControlStruct {
        dir: if pcs.mouseEvent {
            move_dir(
                axis_move(r.x as int, pcs.MouseSensitivity as int),
                axis_move(r.y as int, pcs.MouseSensitivity as int),
            )
        } else {
            dirtype::nodir
        },
        button1: r.button1,
        button2: r.button2,
    }
}

/// The controls from joystick `j` (see `ControlJoystick`).
pub open spec fn joy_control(j: int, r: DeviceReading, pcs: PcrlibCState) -> ControlStruct {
    ControlStruct {
        dir: if r.x == 0 && r.y == 0 {
            dirtype::nodir
        } else {
            move_dir(
                joy_move(r.x as int, pcs.JoyXlow[j] as int, pcs.JoyXhigh[j] as int),
                joy_move(r.y as int, pcs.JoyYlow[j] as int, pcs.JoyYhigh[j] as int),
            )
        },
        button1: r.button1,
        button2: r.button2,
    }
}

/// Where player `player`'s controls come from this frame (see
/// `source_of`), so that the caller reads that device.
pub fn control_source(player: i32, indemo: demoenum, pcs: &PcrlibCState) -> (r: ControlSource)
    requires
        0 <= player < 3,
    ensures
        r == source_of(player as int, indemo, *pcs),
{
    match indemo {
        demoenum::demoplay => ControlSource::Demo,
        _ => match pcs.playermode[player as usize] {
            inputtype::mouse => ControlSource::Mouse,
            inputtype::joystick1 => ControlSource::Joystick(1),
            inputtype::joystick2 => ControlSource::Joystick(2),
            _ => ControlSource::Keyboard,
        },
    }
}

/// The controls of player `player` this frame: from its device (given
/// the device's `reading`), or from the demo being played back. While
/// recording, the controls are appended to the demo.
pub fn ControlPlayer(
    player: i32,
    indemo: demoenum,
    reading: DeviceReading,
    pcs: &mut PcrlibCState,
) -> (ret: ControlStruct)
    requires
        0 <= player < 3,
        keys_ok(*old(pcs)),
        old(pcs).MouseSensitivity > i32::MIN,
        indemo != demoenum::notdemo ==> old(pcs).demoptr < old(pcs).demobuffer@.len(),
        indemo == demoenum::demoplay ==> demo_byte_ok(
            old(pcs).demobuffer@[old(pcs).demoptr as int],
        ),
    ensures
        ret == match source_of(player as int, indemo, *old(pcs)) {
            ControlSource::Keyboard => kbd_control(*old(pcs)),
            ControlSource::Mouse => mouse_control(reading, *old(pcs)),
            ControlSource::Joystick(j) => joy_control(j as int, reading, *old(pcs)),
            ControlSource::Demo => demo_control(old(pcs).demobuffer@[old(pcs).demoptr as int]),
        },
        indemo == demoenum::recording ==> final(pcs).demobuffer@ == old(pcs).demobuffer@.update(
            old(pcs).demoptr as int,
            demo_byte(ret),
        ) && final(pcs).demoptr == old(pcs).demoptr + 1,
        indemo == demoenum::demoplay ==> final(pcs).demobuffer == old(pcs).demobuffer
            && final(pcs).demoptr == old(pcs).demoptr + 1,
        indemo == demoenum::notdemo ==> final(pcs).demobuffer == old(pcs).demobuffer
            && final(pcs).demoptr == old(pcs).demoptr,
        final(pcs).keydown == old(pcs).keydown,
        final(pcs).level == old(pcs).level,
{
    match indemo {
        demoenum::demoplay => play_demo_control(pcs),
        _ => {
            let ret = match pcs.playermode[player as usize] {
                inputtype::mouse => ControlMouse(
                    reading.x,
                    reading.y,
                    reading.button1,
                    reading.button2,
                    pcs,
                ),
                inputtype::joystick1 => ControlJoystick(
                    1,
                    reading.x,
                    reading.y,
                    reading.button1,
                    reading.button2,
                    pcs,
                ),
                inputtype::joystick2 => ControlJoystick(
                    2,
                    reading.x,
                    reading.y,
                    reading.button1,
                    reading.button2,
                    pcs,
                ),
                _ => ControlKBD(pcs),
            };
            match indemo {
                demoenum::recording => record_demo_control(ret, pcs),
                _ => {},
            }
            ret
        },
    }
}

/// Marks the first 128 keys of the key table as up (the keys of the PC
/// keyboard's scan-code range), leaving the others as they are.
pub fn clear_keydown(pcs: &mut PcrlibCState)
    requires
        old(pcs).keydown@.len() >= 128,
    ensures
        final(pcs).keydown@.len() == old(pcs).keydown@.len(),
        forall|i: int|
            0 <= i < old(pcs).keydown@.len() ==> #[trigger] final(pcs).keydown@[i] == (i >= 128
                && old(pcs).keydown@[i]),
        *final(pcs) == (PcrlibCState { keydown: final(pcs).keydown, ..*old(pcs) }),
{
    let mut i: usize = 0;
    while i < 128
        invariant
            i <= 128,
            pcs.keydown@.len() == old(pcs).keydown@.len(),
            old(pcs).keydown@.len() >= 128,
            forall|k: int|
                0 <= k < old(pcs).keydown@.len() ==> #[trigger] pcs.keydown@[k] == (if k < i {
                    false
                } else {
                    old(pcs).keydown@[k]
                }),
            *pcs == (PcrlibCState { keydown: pcs.keydown, ..*old(pcs) }),
        decreases 128 - i,
    {
        pcs.keydown.set(i, false);
        i += 1;
    }
}

/// Loads a demo from its file's contents (at most a full buffer): the
/// buffer holds the contents followed by zeros, the level is the first
/// byte, play starts after it.
pub fn LoadDemo(contents: &[u8], indemo: &mut demoenum, pcs: &mut PcrlibCState)
    requires
        contents@.len() <= DEMO_BUFFER_SIZE,
        old(pcs).demobuffer@.len() == DEMO_BUFFER_SIZE,
    ensures
        final(pcs).demobuffer@ == contents@ + Seq::new(
            (DEMO_BUFFER_SIZE - contents@.len()) as nat,
            |i: int| 0u8,
        ),
        final(pcs).level == final(pcs).demobuffer@[0] as i16,
        final(pcs).demoptr == 1,
        *final(indemo) == demoenum::demoplay,
        final(pcs).keydown == old(pcs).keydown,
{
    let mut i: usize = 0;
    while i < DEMO_BUFFER_SIZE
        invariant
            i <= DEMO_BUFFER_SIZE,
            contents@.len() <= DEMO_BUFFER_SIZE,
            pcs.demobuffer@.len() == DEMO_BUFFER_SIZE,
            pcs.keydown == old(pcs).keydown,
            forall|k: int|
                0 <= k < i ==> #[trigger] pcs.demobuffer@[k] == if k < contents@.len() {
                    contents@[k]
                } else {
                    0u8
                },
        decreases DEMO_BUFFER_SIZE - i,
    {
        let b = if i < contents.len() {
            contents[i]
        } else {
            0u8
        };
        pcs.demobuffer.set(i, b);
        i += 1;
    }
    assert(pcs.demobuffer@ =~= contents@ + Seq::new(
        (DEMO_BUFFER_SIZE - contents@.len()) as nat,
        |i: int| 0u8,
    ));
    pcs.level = pcs.demobuffer[0] as i16;
    pcs.demoptr = 1;
    *indemo = demoenum::demoplay;
}

/// Ends the recording of a demo and returns the bytes to save: the buffer
/// up to the recording position.
pub fn SaveDemo(indemo: &mut demoenum, pcs: &PcrlibCState) -> (bytes: Vec<u8>)
    requires
        pcs.demoptr <= pcs.demobuffer@.len(),
    ensures
        bytes@ == pcs.demobuffer@.subrange(0, pcs.demoptr as int),
        *final(indemo) == demoenum::notdemo,
{
    let mut bytes: Vec<u8> = Vec::new();
    let mut i: usize = 0;
    while i < pcs.demoptr
        invariant
            i <= pcs.demoptr <= pcs.demobuffer@.len(),
            bytes@ == pcs.demobuffer@.subrange(0, i as int),
        decreases pcs.demoptr - i,
    {
        bytes.push(pcs.demobuffer[i]);
        assert(bytes@ =~= pcs.demobuffer@.subrange(0, i as int + 1));
        i += 1;
    }
    *indemo = demoenum::notdemo;
    bytes
}

/// Notes which joysticks can be used, given how many the system reports:
/// joystick 1 and 2 are the system's first and second.
pub fn ProbeJoysticks(num_joysticks: u32, pcs: &mut PcrlibCState)
    ensures
        final(pcs).joystick[0] == old(pcs).joystick[0],
        final(pcs).joystick[1] == if num_joysticks > 0 {
            Some(0u32)
        } else {
            None
        },
        final(pcs).joystick[2] == if num_joysticks > 1 {
            Some(1u32)
        } else {
            None
        },
        *final(pcs) == (PcrlibCState { joystick: final(pcs).joystick, ..*old(pcs) }),
{
    ShutdownJoysticks(pcs);
    pcs.joystick[1] = if num_joysticks > 0 {
        Some(0)
    } else {
        None
    };
    pcs.joystick[2] = if num_joysticks > 1 {
        Some(1)
    } else {
        None
    };
}

/// Control panel settings that can be applied: known input modes and keys
/// within the scan code map.
pub open spec fn ctlpanel_applicable(ctl: ctlpaneltype) -> bool {
    &&& forall|i: int| 0 <= i < 3 ==> #[trigger] ctl.playermode[i] <= 4
    &&& forall|i: int| 0 <= i < 8 ==> #[trigger] ctl.key[i] < 128
    &&& ctl.keyB1 < 128
    &&& ctl.keyB2 < 128
}

/// The input mode of a player after loading mode number `m`: a joystick
/// mode whose joystick is missing falls back to the keyboard.
pub open spec fn loaded_mode(m: u16, num_joysticks: u32) -> inputtype {
    if m == 2 && num_joysticks == 0 || m == 3 && num_joysticks <= 1 {
        inputtype::keyboard
    } else {
        choose|t: inputtype| t.value() == m
    }
}

/// Applies control panel settings read from disk (with `map` giving the
/// SDL scan code of each DOS scan code, and `num_joysticks` the joysticks
/// present): graphics and sound modes, each player's input mode (see
/// `loaded_mode`), joystick ranges, mouse sensitivity and keys. Returns the
/// mouse capture to set, when a player uses the mouse: the one wanted when
/// the last such player was set up.
pub fn apply_ctlpanel(
    ctl: &ctlpaneltype,
    num_joysticks: u32,
    map: &[u32; 128],
    pas: &mut PcrlibAState,
    pcs: &mut PcrlibCState,
) -> (capture: Option<bool>)
    requires
        ctlpanel_applicable(*ctl),
    ensures
        final(pcs).grmode == ctl.grmode,
        final(pas).inner.soundmode == ctl.soundmode,
        forall|i: int|
            0 <= i < 3 ==> {
                &&& #[trigger] final(pcs).playermode[i] == loaded_mode(ctl.playermode[i], num_joysticks)
                &&& final(pcs).JoyXlow[i] == ctl.JoyXlow[i] as i32
                &&& final(pcs).JoyYlow[i] == ctl.JoyYlow[i] as i32
                &&& final(pcs).JoyXhigh[i] == ctl.JoyXhigh[i] as i32
                &&& final(pcs).JoyYhigh[i] == ctl.JoyYhigh[i] as i32
            },
        final(pcs).MouseSensitivity == ctl.MouseSensitivity as i32,
        forall|i: int| 0 <= i < 8 ==> #[trigger] final(pcs).key[i] == map[ctl.key[i] as int],
        final(pcs).keyB1 == map[ctl.keyB1 as int],
        final(pcs).keyB2 == map[ctl.keyB2 as int],
        (exists|i: int| 0 <= i < 3 && ctl.playermode[i] == 1) <==> capture is Some,
        final(pcs).keydown == old(pcs).keydown,
        final(pcs).hasFocus == old(pcs).hasFocus,
        final(pas).RndArray == old(pas).RndArray,
{
    pcs.grmode = ctl.grmode;
    pas.inner.soundmode = ctl.soundmode;
    let mut capture: Option<bool> = None;
    let mut i: usize = 0;
    while i < 3
        invariant
            i <= 3,
            ctlpanel_applicable(*ctl),
            pcs.grmode == ctl.grmode,
            pas.inner.soundmode == ctl.soundmode,
            pcs.keydown == old(pcs).keydown,
            pcs.hasFocus == old(pcs).hasFocus,
            pas.RndArray == old(pas).RndArray,
            forall|k: int|
                0 <= k < i ==> {
                    &&& #[trigger] pcs.playermode[k] == loaded_mode(ctl.playermode[k], num_joysticks)
                    &&& pcs.JoyXlow[k] == ctl.JoyXlow[k] as i32
                    &&& pcs.JoyYlow[k] == ctl.JoyYlow[k] as i32
                    &&& pcs.JoyXhigh[k] == ctl.JoyXhigh[k] as i32
                    &&& pcs.JoyYhigh[k] == ctl.JoyYhigh[k] as i32
                },
            (exists|k: int| 0 <= k < i && ctl.playermode[k] == 1) <==> capture is Some,
        decreases 3 - i,
    {
        let mode = inputtype::from_u16(ctl.playermode[i]);
        pcs.playermode[i] = mode;
        pcs.JoyXlow[i] = ctl.JoyXlow[i] as i32;
        pcs.JoyYlow[i] = ctl.JoyYlow[i] as i32;
        pcs.JoyXhigh[i] = ctl.JoyXhigh[i] as i32;
        pcs.JoyYhigh[i] = ctl.JoyYhigh[i] as i32;
        if mode == inputtype::mouse {
            capture = Some(mouse_capture_wanted(pcs));
        }
        if mode == inputtype::joystick1 || mode == inputtype::joystick2 {
            ProbeJoysticks(num_joysticks, pcs);
            if (mode == inputtype::joystick1 && pcs.joystick[1].is_none()) || (mode
                == inputtype::joystick2 && pcs.joystick[2].is_none()) {
                pcs.playermode[i] = inputtype::keyboard;
            }
        }
        proof {
            let chosen = choose|t: inputtype| t.value() == ctl.playermode[i as int];
            assert(mode.value() == ctl.playermode[i as int]);
            assert(chosen.value() == mode.value());
            assert(chosen == mode);
            assert(pcs.playermode[i as int] == loaded_mode(ctl.playermode[i as int], num_joysticks));
        }
        i += 1;
    }
    pcs.MouseSensitivity = ctl.MouseSensitivity as i32;
    let mut k: usize = 0;
    while k < 8
        invariant
            k <= 8,
            ctlpanel_applicable(*ctl),
            forall|j: int| 0 <= j < k ==> #[trigger] pcs.key[j] == map[ctl.key[j] as int],
            pcs.grmode == ctl.grmode,
            pcs.MouseSensitivity == ctl.MouseSensitivity as i32,
            pcs.keydown == old(pcs).keydown,
            pcs.hasFocus == old(pcs).hasFocus,
            forall|j: int|
                0 <= j < 3 ==> {
                    &&& #[trigger] pcs.playermode[j] == loaded_mode(ctl.playermode[j], num_joysticks)
                    &&& pcs.JoyXlow[j] == ctl.JoyXlow[j] as i32
                    &&& pcs.JoyYlow[j] == ctl.JoyYlow[j] as i32
                    &&& pcs.JoyXhigh[j] == ctl.JoyXhigh[j] as i32
                    &&& pcs.JoyYhigh[j] == ctl.JoyYhigh[j] as i32
                },
        decreases 8 - k,
    {
        pcs.key[k] = map[ctl.key[k] as usize];
        k += 1;
    }
    pcs.keyB1 = map[ctl.keyB1 as usize];
    pcs.keyB2 = map[ctl.keyB2 as usize];
    capture
}

/// The control panel settings to save for the current settings: the input
/// modes by number, the joystick ranges and mouse sensitivity cut to 16
/// bits, and the keys as DOS scan codes (see `dos_code_from`).
pub open spec fn settings_ctlpanel(soundmode: soundtype, pcs: PcrlibCState, map: Seq<u32>) -> ctlpaneltype {
    ctlpaneltype {
        grmode: pcs.grmode,
        soundmode,
        playermode: [
            pcs.playermode[0].value(),
            pcs.playermode[1].value(),
            pcs.playermode[2].value(),
        ],
        JoyXlow: [pcs.JoyXlow[0] as i16, pcs.JoyXlow[1] as i16, pcs.JoyXlow[2] as i16],
        JoyYlow: [pcs.JoyYlow[0] as i16, pcs.JoyYlow[1] as i16, pcs.JoyYlow[2] as i16],
        JoyXhigh: [pcs.JoyXhigh[0] as i16, pcs.JoyXhigh[1] as i16, pcs.JoyXhigh[2] as i16],
        JoyYhigh: [pcs.JoyYhigh[0] as i16, pcs.JoyYhigh[1] as i16, pcs.JoyYhigh[2] as i16],
        MouseSensitivity: pcs.MouseSensitivity as i16,
        key: [
            dos_code_from(map, pcs.key[0], 0) as u8,
            dos_code_from(map, pcs.key[1], 0) as u8,
            dos_code_from(map, pcs.key[2], 0) as u8,
            dos_code_from(map, pcs.key[3], 0) as u8,
            dos_code_from(map, pcs.key[4], 0) as u8,
            dos_code_from(map, pcs.key[5], 0) as u8,
            dos_code_from(map, pcs.key[6], 0) as u8,
            dos_code_from(map, pcs.key[7], 0) as u8,
        ],
        keyB1: dos_code_from(map, pcs.keyB1, 0) as u8,
        keyB2: dos_code_from(map, pcs.keyB2, 0) as u8,
    }
}

/// The control panel settings to save (see `settings_ctlpanel`).
pub fn ctlpanel_from_settings(pas: &PcrlibAState, pcs: &PcrlibCState, map: &[u32; 128]) -> (r:
    ctlpaneltype)
    ensures
        r == settings_ctlpanel(pas.inner.soundmode, *pcs, map@),
{
    let cut = |v: i32| -> (r: i16)
        ensures
            r == v as i16,
        { #[verifier::truncate] (v as i16) };
    let code = |sc: u32| -> (r: u8)
        ensures
            r == dos_code_from(map@, sc, 0) as u8,
        { ScancodeToDOS(sc, map) as u8 };
    let ctl = ctlpaneltype {
        grmode: pcs.grmode,
        soundmode: pas.inner.soundmode,
        playermode: [
            pcs.playermode[0].to_u16(),
            pcs.playermode[1].to_u16(),
            pcs.playermode[2].to_u16(),
        ],
        JoyXlow: [cut(pcs.JoyXlow[0]), cut(pcs.JoyXlow[1]), cut(pcs.JoyXlow[2])],
        JoyYlow: [cut(pcs.JoyYlow[0]), cut(pcs.JoyYlow[1]), cut(pcs.JoyYlow[2])],
        JoyXhigh: [cut(pcs.JoyXhigh[0]), cut(pcs.JoyXhigh[1]), cut(pcs.JoyXhigh[2])],
        JoyYhigh: [cut(pcs.JoyYhigh[0]), cut(pcs.JoyYhigh[1]), cut(pcs.JoyYhigh[2])],
        MouseSensitivity: cut(pcs.MouseSensitivity),
        key: [
            code(pcs.key[0]),
            code(pcs.key[1]),
            code(pcs.key[2]),
            code(pcs.key[3]),
            code(pcs.key[4]),
            code(pcs.key[5]),
            code(pcs.key[6]),
            code(pcs.key[7]),
        ],
        keyB1: code(pcs.keyB1),
        keyB2: code(pcs.keyB2),
    };
    proof {
        let e = settings_ctlpanel(pas.inner.soundmode, *pcs, map@);
        assert(ctl.playermode =~= e.playermode);
        assert(ctl.JoyXlow =~= e.JoyXlow);
        assert(ctl.JoyYlow =~= e.JoyYlow);
        assert(ctl.JoyXhigh =~= e.JoyXhigh);
        assert(ctl.JoyYhigh =~= e.JoyYhigh);
        assert(ctl.key =~= e.key);
    }
    ctl
}

/// The position found for a scan code that `map` holds from `i` on is one
/// that holds it; any position found is below 128.
pub proof fn lemma_dos_code(map: Seq<u32>, sc: u32, i: int)
    requires
        map.len() == 128,
        0 <= i,
    ensures
        0 <= dos_code_from(map, sc, i) < 128,
        (exists|k: int| i <= k < 128 && map[k] == sc) ==> map[dos_code_from(map, sc, i)] == sc,
    decreases 128 - i,
{
    if i < 128 && map[i] != sc {
        lemma_dos_code(map, sc, i + 1);
        if exists|k: int| i <= k < 128 && map[k] == sc {
            let k = choose|k: int| i <= k < 128 && map[k] == sc;
            assert(i + 1 <= k);
        }
    }
}

/// Settings that survive being saved: joystick ranges and mouse
/// sensitivity that fit in 16 bits, keys that the scan code map holds, and
/// joystick modes whose joysticks are present.
pub open spec fn settings_savable(pcs: PcrlibCState, map: Seq<u32>, num_joysticks: u32) -> bool {
    &&& forall|i: int|
        0 <= i < 3 ==> {
            &&& i16::MIN <= #[trigger] pcs.JoyXlow[i] <= i16::MAX
            &&& i16::MIN <= pcs.JoyYlow[i] <= i16::MAX
            &&& i16::MIN <= pcs.JoyXhigh[i] <= i16::MAX
            &&& i16::MIN <= pcs.JoyYhigh[i] <= i16::MAX
            &&& pcs.playermode[i] == inputtype::joystick1 ==> num_joysticks >= 1
            &&& pcs.playermode[i] == inputtype::joystick2 ==> num_joysticks >= 2
        }
    &&& i16::MIN <= pcs.MouseSensitivity <= i16::MAX
    &&& forall|i: int| 0 <= i < 8 ==> exists|k: int| 0 <= k < 128 && map[k] == #[trigger] pcs.key[i]
    &&& exists|k: int| 0 <= k < 128 && map[k] == pcs.keyB1
    &&& exists|k: int| 0 <= k < 128 && map[k] == pcs.keyB2
}

/// Saving the control settings and loading them back restores them: the
/// saved panel can be applied, and applying it (see `apply_ctlpanel`) gives
/// the same modes, joystick ranges, mouse sensitivity and keys.
pub proof fn lemma_ctlpanel_save_load(
    soundmode: soundtype,
    pcs: PcrlibCState,
    map: [u32; 128],
    num_joysticks: u32,
)
    requires
        settings_savable(pcs, map@, num_joysticks),
    ensures
        ({
            let c = settings_ctlpanel(soundmode, pcs, map@);
            &&& ctlpanel_applicable(c)
            &&& c.grmode == pcs.grmode
            &&& c.soundmode == soundmode
            &&& forall|i: int|
                0 <= i < 3 ==> {
                    &&& #[trigger] loaded_mode(c.playermode[i], num_joysticks) == pcs.playermode[i]
                    &&& c.JoyXlow[i] as i32 == pcs.JoyXlow[i]
                    &&& c.JoyYlow[i] as i32 == pcs.JoyYlow[i]
                    &&& c.JoyXhigh[i] as i32 == pcs.JoyXhigh[i]
                    &&& c.JoyYhigh[i] as i32 == pcs.JoyYhigh[i]
                }
            &&& c.MouseSensitivity as i32 == pcs.MouseSensitivity
            &&& forall|i: int| 0 <= i < 8 ==> #[trigger] map@[c.key[i] as int] == pcs.key[i]
            &&& map@[c.keyB1 as int] == pcs.keyB1
            &&& map@[c.keyB2 as int] == pcs.keyB2
        }),
{
    let c = settings_ctlpanel(soundmode, pcs, map@);
    assert forall|i: int| 0 <= i < 8 implies #[trigger] map@[c.key[i] as int] == pcs.key[i]
        && c.key[i] < 128 by {
        lemma_dos_code(map@, pcs.key[i], 0);
    }
    assert forall|i: int| 0 <= i < 8 implies #[trigger] c.key[i] < 128 by {
        lemma_dos_code(map@, pcs.key[i], 0);
    }
    lemma_dos_code(map@, pcs.keyB1, 0);
    lemma_dos_code(map@, pcs.keyB2, 0);
    assert forall|i: int| 0 <= i < 3 implies #[trigger] loaded_mode(c.playermode[i], num_joysticks)
        == pcs.playermode[i] && c.playermode[i] <= 4 by {
        let t = pcs.playermode[i];
        let chosen = choose|u: inputtype| u.value() == t.value();
        assert(chosen.value() == t.value());
        assert(chosen == t);
    }
}

/// The character of a key code: its low byte, as a signed byte.
pub open spec fn key_char(k: i32) -> i8 {
    k as i8
}

/// What one key typed while entering initials does (see `initials_key`):
/// from initials count `j0` and state `p0` to count `j1`, state `p1` and
/// result `r`.
pub open spec fn initials_step(
    k: i32,
    slot: int,
    j0: i32,
    p0: PcrlibCState,
    j1: i32,
    p1: PcrlibCState,
    r: (Option<(i32, i32, u8)>, bool),
) -> bool {
    let ch = key_char(k);
    let typed = ch >= 32 && j0 < 3;
    let jt = if typed {
        j0 + 1
    } else {
        j0 as int
    };
    let sxt = if typed {
        p0.sx + 1
    } else {
        p0.sx as int
    };
    let back = (ch == 8 || k == 19200) && jt > 0;
    &&& r.0 == if typed {
        Some((p0.sx, p0.sy, ch as u8))
    } else {
        None
    }
    &&& r.1 == (ch == 13)
    &&& j1 == if back {
        jt - 1
    } else {
        jt
    }
    &&& p1.sx == if back {
        sxt - 1
    } else {
        sxt
    }
    &&& p1.highscores[slot].initials@ == if typed {
        p0.highscores[slot].initials@.update(j0 as int, ch as u8)
    } else {
        p0.highscores[slot].initials@
    }
    &&& forall|i: int| 0 <= i < 5 && i != slot ==> #[trigger] p1.highscores[i] == p0.highscores[i]
    &&& p1.highscores[slot].score == p0.highscores[slot].score
    &&& p1.highscores[slot].level == p0.highscores[slot].level
    &&& 0 <= j1 <= 3
    &&& p1 == (PcrlibCState { sx: p1.sx, highscores: p1.highscores, ..p0 })
}

/// One key typed while entering initials into high score entry `slot`,
/// with `j` initials entered so far: a printable character (when fewer
/// than 3 are entered) is stored, and returned to be drawn at the cursor,
/// which moves right; backspace (8, or the left arrow's code 19200) takes
/// the last initial back and moves the cursor left. Returns also whether
/// the key was Enter, which ends the entry (see `initials_step`).
pub fn initials_key(k: i32, slot: usize, j: &mut i32, pcs: &mut PcrlibCState) -> (r: (
    Option<(i32, i32, u8)>,
    bool,
))
    requires
        slot < 5,
        0 <= *old(j) <= 3,
        i32::MIN < old(pcs).sx < i32::MAX,
    ensures
        initials_step(k, slot as int, *old(j), *old(pcs), *final(j), *final(pcs), r),
{
    let ch = #[verifier::truncate] (k as i8);
    let mut drawn: Option<(i32, i32, u8)> = None;
    if ch >= 32 && *j < 3 {
        drawn = Some((pcs.sx, pcs.sy, ch as u8));
        pcs.sx = pcs.sx + 1;
        pcs.highscores[slot].initials[*j as usize] = ch as u8;
        *j = *j + 1;
    }
    if ch == 8 || k == 19200 {
        if *j > 0 {
            pcs.sx = pcs.sx - 1;
            *j = *j - 1;
        }
    }
    (drawn, ch == 13)
}

/// The value of a string of decimal digits.
pub open spec fn digits_value(s: Seq<u8>) -> int
    decreases s.len(),
{
    if s.len() == 0 {
        0
    } else {
        digits_value(s.drop_last()) * 10 + (s.last() - 48)
    }
}

/// Whether every byte is a decimal digit.
pub open spec fn all_digits(s: Seq<u8>) -> bool {
    forall|i: int| 0 <= i < s.len() ==> 48 <= #[trigger] s[i] <= 57
}

/// The number a string writes in decimal with an optional sign (`+` or
/// `-`) and at least one digit, if it is one and fits in an `i32`.
pub open spec fn decimal_i32(s: Seq<u8>) -> Option<i32> {
    let neg = s.len() > 0 && s[0] == 45u8;
    let signed = s.len() > 0 && (s[0] == 45u8 || s[0] == 43u8);
    let digits = if signed {
        s.drop_first()
    } else {
        s
    };
    let v = if neg {
        -digits_value(digits)
    } else {
        digits_value(digits)
    };
    if digits.len() > 0 && all_digits(digits) && i32::MIN <= v <= i32::MAX {
        Some(v as i32)
    } else {
        None
    }
}

/// A prefix of digits is worth at most the whole.
proof fn lemma_digits_value_prefix(s: Seq<u8>, n: int)
    requires
        all_digits(s),
        0 <= n <= s.len(),
    ensures
        0 <= digits_value(s.take(n)) <= digits_value(s),
    decreases s.len() - n,
{
    if n < s.len() {
        lemma_digits_value_prefix(s, n + 1);
        assert(s.take(n + 1).drop_last() =~= s.take(n));
        assert(0 <= digits_value(s.take(n)) <= digits_value(s.take(n + 1))) by {
            lemma_digits_value_nonneg(s.take(n));
        }
    } else {
        assert(s.take(n) =~= s);
        lemma_digits_value_nonneg(s);
    }
}

/// Digits are worth at least zero.
proof fn lemma_digits_value_nonneg(s: Seq<u8>)
    requires
        all_digits(s),
    ensures
        digits_value(s) >= 0,
    decreases s.len(),
{
    if s.len() > 0 {
        assert(all_digits(s.drop_last()));
        lemma_digits_value_nonneg(s.drop_last());
    }
}

/// Reads a number written in decimal with an optional sign (see
/// `decimal_i32`).
pub fn parse_i32(s: &[u8]) -> (r: Option<i32>)
    ensures
        r == decimal_i32(s@),
{
    let n = s.len();
    if n == 0 {
        return None;
    }
    let neg = s[0] == 45u8;
    let start: usize = if s[0] == 45u8 || s[0] == 43u8 {
        1
    } else {
        0
    };
    let ghost digits = s@.skip(start as int);
    assert(digits =~= if start == 1 {
        s@.drop_first()
    } else {
        s@
    });
    if start >= n {
        return None;
    }
    let mut i: usize = start;
    let mut v: i64 = 0;
    while i < n
        invariant
            start <= i <= n,
            n == s@.len(),
            n > 0,
            digits == s@.skip(start as int),
            digits == (if start == 1 {
                s@.drop_first()
            } else {
                s@
            }),
            (start == 1) == (s@[0] == 45u8 || s@[0] == 43u8),
            neg == (s@[0] == 45u8),
            all_digits(s@.subrange(start as int, i as int)),
            v == digits_value(s@.subrange(start as int, i as int)),
            0 <= v <= 2147483648,
        decreases n - i,
    {
        let c = s[i];
        if c < 48 || c > 57 {
            proof {
                assert(!all_digits(digits)) by {
                    assert(digits[i - start] == c);
                }
                assert(decimal_i32(s@) is None);
            }
            return None;
        }
        let next = v * 10 + (c - 48) as i64;
        proof {
            assert(s@.subrange(start as int, i as int + 1).drop_last() =~= s@.subrange(
                start as int,
                i as int,
            ));
            assert(all_digits(s@.subrange(start as int, i as int + 1)));
            assert(digits_value(s@.subrange(start as int, i as int + 1)) == v * 10 + (c - 48));
        }
        if next > 2147483648 {
            proof {
                if all_digits(digits) {
                    assert(s@.subrange(start as int, i as int + 1) =~= digits.take(i - start + 1));
                    lemma_digits_value_prefix(digits, i - start + 1);
                }
                assert(decimal_i32(s@) is None);
            }
            return None;
        }
        v = next;
        i += 1;
    }
    proof {
        assert(s@.subrange(start as int, n as int) =~= digits);
        assert(v == digits_value(digits));
    }
    if neg {
        Some((-v) as i32)
    } else if v <= 2147483647 {
        Some(v as i32)
    } else {
        None
    }
}

/// The screen mode asked for on the command line: a window of the given
/// size, or full screen on the given display.
#[derive(Clone, Copy, Debug, PartialEq, Eq, Structural)]
pub struct VideoArgs {
    pub windowed: bool,
    pub width: i32,
    pub height: i32,
    pub display: i32,
}

/// The ways the screen mode arguments can be wrong.
#[derive(Clone, Copy, Debug, PartialEq, Eq, Structural)]
pub enum VideoArgsError {
    InvalidWidth,
    InvalidHeight,
    InvalidScreen,
    WindowedArgCount,
    ScreenArgCount,
    UnexpectedMode,
}

/// The screen mode arguments, as the command line gives them (the program
/// name first): none for a full screen on display 0; `windowed` with a
/// width and a height; `screen` with a display number.
pub open spec fn video_args(args: Seq<Seq<u8>>) -> Result<VideoArgs, VideoArgsError> {
    if args.len() < 2 {
        Ok(VideoArgs { windowed: false, width: 640, height: 480, display: 0 })
    } else if args[1] == seq![119u8, 105, 110, 100, 111, 119, 101, 100] {
        if args.len() != 4 {
            Err(VideoArgsError::WindowedArgCount)
        } else if decimal_i32(args[2]) is None {
            Err(VideoArgsError::InvalidWidth)
        } else if decimal_i32(args[3]) is None {
            Err(VideoArgsError::InvalidHeight)
        } else {
            Ok(
                VideoArgs {
                    windowed: true,
                    width: decimal_i32(args[2])->0,
                    height: decimal_i32(args[3])->0,
                    display: 0,
                },
            )
        }
    } else if args[1] == seq![115u8, 99, 114, 101, 101, 110] {
        if args.len() != 3 {
            Err(VideoArgsError::ScreenArgCount)
        } else if decimal_i32(args[2]) is None {
            Err(VideoArgsError::InvalidScreen)
        } else {
            Ok(
                VideoArgs {
                    windowed: false,
                    width: 640,
                    height: 480,
                    display: decimal_i32(args[2])->0,
                },
            )
        }
    } else {
        Err(VideoArgsError::UnexpectedMode)
    }
}

/// Whether two byte strings are equal.
fn bytes_eq(a: &[u8], b: &[u8]) -> (r: bool)
    ensures
        r == (a@ == b@),
{
    if a.len() != b.len() {
        return false;
    }
    let mut i: usize = 0;
    while i < a.len()
        invariant
            i <= a@.len(),
            a@.len() == b@.len(),
            forall|k: int| 0 <= k < i ==> a@[k] == b@[k],
        decreases a@.len() - i,
    {
        if a[i] != b[i] {
            return false;
        }
        i += 1;
    }
    assert(a@ =~= b@);
    true
}

/// Reads the screen mode arguments (see `video_args`).
pub fn parse_video_args(args: &Vec<Vec<u8>>) -> (r: Result<VideoArgs, VideoArgsError>)
    ensures
        r == video_args(Seq::new(args@.len(), |i: int| args@[i]@)),
{
    let ghost a = Seq::new(args@.len(), |i: int| args@[i]@);
    if args.len() < 2 {
        return Ok(VideoArgs { windowed: false, width: 640, height: 480, display: 0 });
    }
    let windowed: [u8; 8] = [119, 105, 110, 100, 111, 119, 101, 100];
    let screen: [u8; 6] = [115, 99, 114, 101, 101, 110];
    assert(windowed@ =~= seq![119u8, 105, 110, 100, 111, 119, 101, 100]);
    assert(screen@ =~= seq![115u8, 99, 114, 101, 101, 110]);
    assert(a[1] == args@[1]@);
    if bytes_eq(args[1].as_slice(), windowed.as_slice()) {
        if args.len() != 4 {
            return Err(VideoArgsError::WindowedArgCount);
        }
        assert(a[2] == args@[2]@ && a[3] == args@[3]@);
        let width = match parse_i32(args[2].as_slice()) {
            Some(v) => v,
            None => {
                return Err(VideoArgsError::InvalidWidth);
            },
        };
        let height = match parse_i32(args[3].as_slice()) {
            Some(v) => v,
            None => {
                return Err(VideoArgsError::InvalidHeight);
            },
        };
        Ok(VideoArgs { windowed: true, width, height, display: 0 })
    } else if bytes_eq(args[1].as_slice(), screen.as_slice()) {
        if args.len() != 3 {
            return Err(VideoArgsError::ScreenArgCount);
        }
        assert(a[2] == args@[2]@);
        let display = match parse_i32(args[2].as_slice()) {
            Some(v) => v,
            None => {
                return Err(VideoArgsError::InvalidScreen);
            },
        };
        Ok(VideoArgs { windowed: false, width: 640, height: 480, display })
    } else {
        Err(VideoArgsError::UnexpectedMode)
    }
}

/// Where the 320x200 game image is shown in a `w` by `h` display: unscaled
/// in a 320x200 or 640x400 display, else at the display's height with a
/// 4:3 width, centred horizontally. Gives x, y, width and height.
pub open spec fn update_area(w: int, h: int) -> (int, int, int, int) {
    if w == 320 && h == 200 || w == 640 && h == 400 {
        (0, 0, w, h)
    } else {
        let rw = h * 4 / 3;
        (div_floor2(w - rw), 0, rw, h)
    }
}

/// Half of `v`, rounded down (an arithmetic shift right by one).
pub open spec fn div_floor2(v: int) -> int {
    v / 2
}

/// Where the game image is shown in a `w` by `h` display (see
/// `update_area`).
pub fn update_rect(w: i32, h: i32) -> (r: (i32, i32, i32, i32))
    requires
        0 <= h <= 0x1000_0000,
        0 <= w <= 0x1000_0000,
    ensures
        (r.0 as int, r.1 as int, r.2 as int, r.3 as int) == update_area(w as int, h as int),
{
    if w == 320 && h == 200 || w == 640 && h == 400 {
        (0, 0, w, h)
    } else {
        let rw = h * 4 / 3;
        let d = w - rw;
        let x = d >> 1;
        assert(x == d / 2) by (bit_vector)
            requires
                x == d >> 1,
        ;
        (x, 0, rw, h)
    }
}

/// The graphics mode to play in for the loaded one: EGA for EGA or VGA
/// (VGA graphics are not available), CGA otherwise.
pub open spec fn playable_grmode(g: grtype) -> grtype {
    if g == grtype::EGAgr || g == grtype::VGAgr {
        grtype::EGAgr
    } else {
        grtype::CGAgr
    }
}

/// Whether VGA graphics can be used.
pub const _vgaok: bool = false;

/// Whether EGA graphics can be used.
pub const _egaok: bool = true;

/// The graphics mode to play in (see `playable_grmode`).
pub fn select_grmode(g: grtype) -> (r: grtype)
    ensures
        r == playable_grmode(g),
{
    if g == grtype::VGAgr && _vgaok {
        grtype::VGAgr
    } else if (g == grtype::EGAgr || g == grtype::VGAgr) && _egaok {
        grtype::EGAgr
    } else {
        grtype::CGAgr
    }
}

} // verus!
