//! The help pages (the text of each page and the paging through them)
//! and the function keys that open them and the other game menus.
use vstd::prelude::*;

use vstd::string::{StrSliceExecFns, StringSliceAdditionalSpecFns};

use crate::catacomb_ii::scan_codes::{SDL_SCANCODE_ESCAPE, SDL_SCANCODE_F1, SDL_SCANCODE_F10};

verus! {

/// The number of help pages.
pub const HELP_PAGES: usize = 6;

/// The text printed on help page `page` in its window (the controls, the
/// shot and strafe buttons, and the items); nothing past the last page.
pub open spec fn help_text_spec(page: usize) -> Seq<u8> {
    match page {
        0 => "  C A T A C O M B   \n   - - - - - - -    \n by John Carmack    \n                    \n\nf1 = help           \nf2 = control panel  \nf3 = game reset     \nf4 = save game      \nf5 = load saved game\nf9 = pause          \nf10 / ESC = quit    \n\nhit fire at the demo\nto begin playing.   \n".spec_bytes(),
        1 => "\nKeyboard controls:  \n\nmove    : arrows    \nbutton1 : ctrl      \nbutton2 : alt       \n\nTo switch to mouse \nor joystick control,\nhit f2             \n".spec_bytes(),
        2 => "Button 1 / ctrl key:\nBuilds shot power.  \nIf the shot power   \nmeter is full when  \nthe button is       \nreleased, a super   \nshot will be        \nlaunched.           \n\n".spec_bytes(),
        3 => "Button 2 / alt key:\nAllows you to move  \nwithout changing the\ndirection you are   \nfacing.  Good for   \nsearching walls and \nfighting retreats.  \n".spec_bytes(),
        4 => "\"P\" or \"space\" will \ntake a healing      \npotion if you have  \none.  This restores \nthe body meter to   \nfull strength.  Keep\na sharp eye on the  \nmeter, because when \nit runs out, you are\ndead!               \n\n\"B\" will cast a bolt\nspell if you have   \nany.  You can mow   \ndown a lot of       \nmonsters with a bit \nof skill.           \n".spec_bytes(),
        5 => "\"N\" or \"enter\" will \ncast a nuke spell.  \nThis usually wipes  \nout all the monsters\nnear you.  Consider \nit a panic button   \nwhen you are being  \nmobbed by monsters! \n\n".spec_bytes(),
        _ => Seq::empty(),
    }
}

/// The text of help page `page` (see `help_text_spec`); none past the last
/// page.
pub fn help_text(page: usize) -> (r: Option<Vec<u8>>)
    ensures
        page < HELP_PAGES <==> r is Some,
        r matches Some(v) ==> v@ == help_text_spec(page),
{
    match page {
        0 => Some("  C A T A C O M B   \n   - - - - - - -    \n by John Carmack    \n                    \n\nf1 = help           \nf2 = control panel  \nf3 = game reset     \nf4 = save game      \nf5 = load saved game\nf9 = pause          \nf10 / ESC = quit    \n\nhit fire at the demo\nto begin playing.   \n".as_bytes_vec()),
        1 => Some("\nKeyboard controls:  \n\nmove    : arrows    \nbutton1 : ctrl      \nbutton2 : alt       \n\nTo switch to mouse \nor joystick control,\nhit f2             \n".as_bytes_vec()),
        2 => Some("Button 1 / ctrl key:\nBuilds shot power.  \nIf the shot power   \nmeter is full when  \nthe button is       \nreleased, a super   \nshot will be        \nlaunched.           \n\n".as_bytes_vec()),
        3 => Some("Button 2 / alt key:\nAllows you to move  \nwithout changing the\ndirection you are   \nfacing.  Good for   \nsearching walls and \nfighting retreats.  \n".as_bytes_vec()),
        4 => Some("\"P\" or \"space\" will \ntake a healing      \npotion if you have  \none.  This restores \nthe body meter to   \nfull strength.  Keep\na sharp eye on the  \nmeter, because when \nit runs out, you are\ndead!               \n\n\"B\" will cast a bolt\nspell if you have   \nany.  You can mow   \ndown a lot of       \nmonsters with a bit \nof skill.           \n".as_bytes_vec()),
        5 => Some("\"N\" or \"enter\" will \ncast a nuke spell.  \nThis usually wipes  \nout all the monsters\nnear you.  Consider \nit a panic button   \nwhen you are being  \nmobbed by monsters! \n\n".as_bytes_vec()),
        _ => None,
    }
}

/// The page shown after help page `page` when the prompt is answered with
/// `key`: the next page, unless the key is escape (see `wantmore_answer`)
/// or this was the last page, which ends the help.
pub fn help_next(page: usize, key: i32) -> (next: Option<usize>)
    ensures
        next == if (key as i8) != 27 && page + 1 < HELP_PAGES {
            Some((page + 1) as usize)
        } else {
            None::<usize>
        },
{
    if crate::catacomb_ii::catacomb::wantmore_answer(key) && page < HELP_PAGES - 1 {
        Some(page + 1)
    } else {
        None
    }
}


/// What a function key opens during play.
#[derive(Clone, Copy, Debug, PartialEq, Eq, Structural)]
pub enum FKey {
    Help,
    ControlPanel,
    ResetGame,
    SaveGame,
    LoadGame,
    Pause,
    Quit,
}

/// What the key with scan code `key` opens: F1 help, F2 the control panel,
/// F3 the reset question, F4 saving, F5 loading, F9 the pause, F10 or
/// escape the quit question; F6 to F8 and every other key nothing.
pub open spec fn fkey_spec(key: u32) -> Option<FKey> {
    let k = if key == SDL_SCANCODE_ESCAPE { SDL_SCANCODE_F10 } else { key };
    if k == SDL_SCANCODE_F1 {
        Some(FKey::Help)
    } else if k == SDL_SCANCODE_F1 + 1 {
        Some(FKey::ControlPanel)
    } else if k == SDL_SCANCODE_F1 + 2 {
        Some(FKey::ResetGame)
    } else if k == SDL_SCANCODE_F1 + 3 {
        Some(FKey::SaveGame)
    } else if k == SDL_SCANCODE_F1 + 4 {
        Some(FKey::LoadGame)
    } else if k == SDL_SCANCODE_F1 + 8 {
        Some(FKey::Pause)
    } else if k == SDL_SCANCODE_F10 {
        Some(FKey::Quit)
    } else {
        None
    }
}

/// What the key with scan code `key` opens (see `fkey_spec`). After any of
/// these the remembered tiles are cleared, the keys released and the
/// screen repainted.
pub fn fkey_action(key: u32) -> (r: Option<FKey>)
    ensures
        r == fkey_spec(key),
{
    let k: u32 = if key == SDL_SCANCODE_ESCAPE { SDL_SCANCODE_F10 } else { key };
    if k < SDL_SCANCODE_F1 || k > SDL_SCANCODE_F10 {
        return None;
    }
    match k - SDL_SCANCODE_F1 {
        0 => Some(FKey::Help),
        1 => Some(FKey::ControlPanel),
        2 => Some(FKey::ResetGame),
        3 => Some(FKey::SaveGame),
        4 => Some(FKey::LoadGame),
        8 => Some(FKey::Pause),
        9 => Some(FKey::Quit),
        _ => None,
    }
}

/// Whether the key typed in answer to a yes/no question is yes: `Y` or
/// `y` (the low byte of the key).
pub fn answer_is_yes(key: i32) -> (yes: bool)
    ensures
        yes == ((key as u8) == 89 || (key as u8) == 121),
{
    let c: u8 = #[verifier::truncate] (key as u8);
    c == 89 || c == 121
}

} // verus!
