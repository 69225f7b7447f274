use vstd::prelude::*;

verus! {

/// SDL scan codes used by the game.
pub const SDL_SCANCODE_UNKNOWN: u32 = 0;
pub const SDL_SCANCODE_B: u32 = 5;
pub const SDL_SCANCODE_C: u32 = 6;
pub const SDL_SCANCODE_D: u32 = 7;
pub const SDL_SCANCODE_N: u32 = 17;
pub const SDL_SCANCODE_P: u32 = 19;
pub const SDL_SCANCODE_Q: u32 = 20;
pub const SDL_SCANCODE_T: u32 = 23;
pub const SDL_SCANCODE_RETURN: u32 = 40;
pub const SDL_SCANCODE_ESCAPE: u32 = 41;
pub const SDL_SCANCODE_TAB: u32 = 43;
pub const SDL_SCANCODE_SPACE: u32 = 44;
pub const SDL_SCANCODE_F1: u32 = 58;
pub const SDL_SCANCODE_F10: u32 = 67;
pub const SDL_SCANCODE_HOME: u32 = 74;
pub const SDL_SCANCODE_PAGEUP: u32 = 75;
pub const SDL_SCANCODE_END: u32 = 77;
pub const SDL_SCANCODE_PAGEDOWN: u32 = 78;
pub const SDL_SCANCODE_RIGHT: u32 = 79;
pub const SDL_SCANCODE_LEFT: u32 = 80;
pub const SDL_SCANCODE_DOWN: u32 = 81;
pub const SDL_SCANCODE_UP: u32 = 82;
pub const SDL_SCANCODE_LCTRL: u32 = 224;
pub const SDL_SCANCODE_LALT: u32 = 226;

/// The number of SDL scan codes (the size of the key state table).
pub const SDL_NUM_SCANCODES: usize = 512;

} // verus!
