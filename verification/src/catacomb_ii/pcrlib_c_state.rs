use vstd::prelude::*;

use crate::catacomb_ii::gr_type::grtype;
use crate::catacomb_ii::input_type::inputtype;
use crate::catacomb_ii::scan_codes::SDL_NUM_SCANCODES;
use crate::catacomb_ii::scores::scores;

verus! {

/// The size of the demo command buffer.
pub const DEMO_BUFFER_SIZE: usize = 5000;

/// The number of pixels of the 320x200 screen.
pub const SCREEN_PIXELS: usize = 64000;

/// The state of the pcrlib C routines that the game logic reads: keyboard
/// state and key bindings, input devices and their calibration, demo
/// buffer, score and level, text cursor and window, graphics mode, the
/// loaded character/picture data and the converted screen. Joystick slots
/// hold the number of the opened device (slot 0 is unused).
pub struct PcrlibCState {
    pub keydown: Vec<bool>,
    pub lastkey: u32,
    pub key: [u32; 8],
    pub keyB1: u32,
    pub keyB2: u32,
    pub mouseEvent: bool,
    pub hasFocus: bool,
    pub playermode: [inputtype; 3],
    pub JoyXlow: [i32; 3],
    pub JoyYlow: [i32; 3],
    pub JoyXhigh: [i32; 3],
    pub JoyYhigh: [i32; 3],
    pub MouseSensitivity: i32,
    pub joystick: [Option<u32>; 3],
    pub demobuffer: Vec<u8>,
    pub demoptr: usize,
    pub level: i16,
    pub score: i32,
    pub highscores: [scores; 5],
    pub grmode: grtype,
    pub sx: i32,
    pub sy: i32,
    pub leftedge: i32,
    pub win_xl: i32,
    pub win_yl: i32,
    pub win_xh: i32,
    pub win_yh: i32,
    pub picfile_data: Vec<u8>,
    pub charptr: usize,
    pub picptr: usize,
    pub egaplaneofs: [u32; 4],
    pub conv: Vec<u32>,
}

impl PcrlibCState {
    /// A fresh state: no key down, keyboard control, empty demo buffer,
    /// zeroed scores, EGA mode, cursor and window at the origin, no picture
    /// data and a black converted screen.
    pub fn new() -> (r: Self)
        ensures
            r.keydown@.len() == SDL_NUM_SCANCODES,
            forall|i: int| 0 <= i < SDL_NUM_SCANCODES ==> !r.keydown@[i],
            r.lastkey == 0,
            r.demobuffer@.len() == DEMO_BUFFER_SIZE,
            r.demoptr == 0,
            r.conv@.len() == SCREEN_PIXELS,
            r.picfile_data@.len() == 0,
            r.grmode == grtype::EGAgr,
            forall|i: int| 0 <= i < 3 ==> r.playermode[i] == inputtype::keyboard && r.joystick[i] is None,
            r.level == 0,
            r.score == 0,
    {
        let mut keydown: Vec<bool> = Vec::new();
        let mut i: usize = 0;
        while i < SDL_NUM_SCANCODES
            invariant
                i <= SDL_NUM_SCANCODES,
                keydown@.len() == i,
                forall|k: int| 0 <= k < i ==> !keydown@[k],
            decreases SDL_NUM_SCANCODES - i,
        {
            keydown.push(false);
            i += 1;
        }
        let mut demobuffer: Vec<u8> = Vec::new();
        let mut i: usize = 0;
        while i < DEMO_BUFFER_SIZE
            invariant
                i <= DEMO_BUFFER_SIZE,
                demobuffer@.len() == i,
            decreases DEMO_BUFFER_SIZE - i,
        {
            demobuffer.push(0);
            i += 1;
        }
        let mut conv: Vec<u32> = Vec::new();
        let mut i: usize = 0;
        while i < SCREEN_PIXELS
            invariant
                i <= SCREEN_PIXELS,
                conv@.len() == i,
            decreases SCREEN_PIXELS - i,
        {
            conv.push(0);
            i += 1;
        }
        let zero = scores { score: 0, level: 0, initials: [0; 3] };
        PcrlibCState {
            keydown,
            lastkey: 0,
            key: [0; 8],
            keyB1: 0,
            keyB2: 0,
            mouseEvent: false,
            hasFocus: false,
            playermode: [inputtype::keyboard; 3],
            JoyXlow: [0; 3],
            JoyYlow: [0; 3],
            JoyXhigh: [0; 3],
            JoyYhigh: [0; 3],
            MouseSensitivity: 0,
            joystick: [None, None, None],
            demobuffer,
            demoptr: 0,
            level: 0,
            score: 0,
            highscores: [zero; 5],
            grmode: grtype::EGAgr,
            sx: 0,
            sy: 0,
            leftedge: 0,
            win_xl: 0,
            win_yl: 0,
            win_xh: 0,
            win_yh: 0,
            picfile_data: Vec::new(),
            charptr: 0,
            picptr: 0,
            egaplaneofs: [0; 4],
            conv,
        }
    }
}

} // verus!
