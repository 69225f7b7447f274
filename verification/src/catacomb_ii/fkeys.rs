//! The function-key dialogues during play as a state machine: help, the
//! control panel, resetting, saving and loading games, pausing and
//! quitting. The caller shows each window, reads each key and does the file
//! work, and hands back what happened.
use vstd::prelude::*;

use vstd::string::{StrSliceExecFns, StringSliceAdditionalSpecFns};

use crate::catacomb_ii::active_obj::activeobj;
use crate::catacomb_ii::demo_enum::demoenum;
use crate::catacomb_ii::help::{fkey_action, fkey_spec, FKey};
use crate::catacomb_ii::saved_game::{lemma_saved_game_roundtrip, SavedGame, SAVED_GAME_SIZE};

verus! {

/// What of the game the function keys read and change.
#[derive(Clone, Copy, Debug)]
pub struct FkeyGame {
    pub indemo: demoenum,
    pub resetgame: bool,
    pub exitdemo: bool,
    pub playdone: bool,
    pub leveldone: bool,
    pub items: [i16; 6],
    pub score: i32,
    pub level: i16,
    pub player: activeobj,
}

/// Which dialogue is open.
#[derive(Clone, Copy, Debug, PartialEq, Eq, Structural)]
pub enum Dialog {
    Closed,
    ResetAsked,
    SaveRefused,
    SaveSlotAsked,
    ExistsChecked { slot: u8 },
    OverwriteAsked { slot: u8 },
    Writing { slot: u8 },
    SavedShown,
    LoadSlotAsked,
    Reading { slot: u8 },
    NotFoundShown,
    Paused,
    QuitAsked,
}

/// What the caller reports back.
pub enum FkeyEvent {
    /// The scan code of the key pressed during play (dialogues closed).
    Key(u32),
    /// The key typed in answer in an open dialogue.
    Typed(i32),
    /// Whether the save slot's file exists.
    Exists(bool),
    /// Whether the save slot's file could be written.
    Written(bool),
    /// The bytes of the slot's file, or none when it could not be opened.
    Loaded(Option<Vec<u8>>),
}

/// What the caller does.
pub enum FkeyDo {
    Nothing,
    /// Show the help pages, then repaint.
    Help,
    /// Run the control panel, then repaint.
    ControlPanel,
    /// Open an expanding window of this size, print the text and read a key.
    Ask { width: i32, height: i32, text: Vec<u8> },
    /// Print the text in the open window and read a key.
    Say { text: Vec<u8> },
    /// Find out whether the slot's file exists.
    CheckExists { slot: u8 },
    /// Write the bytes to the slot's file, first blanking the two lines of
    /// the overwrite question when `clear`.
    Write { slot: u8, bytes: Vec<u8>, clear: bool },
    /// Read the slot's file.
    Read { slot: u8 },
    /// Redraw the side panel, then repaint.
    RedrawSide,
    /// Clear the remembered tiles, release the keys and repaint the screen.
    Repaint,
    /// Quit the game.
    Quit,
}

/// The caller's task: a typed character to show at the cursor first, if
/// any, then what to do.
pub struct FkeyAction {
    pub echo: Option<u8>,
    pub todo: FkeyDo,
}

/// `FkeyDo` with its bytes as sequences.
pub enum DoView {
    Nothing,
    Help,
    ControlPanel,
    Ask { width: i32, height: i32, text: Seq<u8> },
    Say { text: Seq<u8> },
    CheckExists { slot: u8 },
    Write { slot: u8, bytes: Seq<u8>, clear: bool },
    Read { slot: u8 },
    RedrawSide,
    Repaint,
    Quit,
}

impl FkeyAction {
    /// The task with its bytes as sequences.
    pub open spec fn view(self) -> (Option<u8>, DoView) {
        (
            self.echo,
            match self.todo {
                FkeyDo::Nothing => DoView::Nothing,
                FkeyDo::Help => DoView::Help,
                FkeyDo::ControlPanel => DoView::ControlPanel,
                FkeyDo::Ask { width, height, text } => DoView::Ask { width, height, text: text@ },
                FkeyDo::Say { text } => DoView::Say { text: text@ },
                FkeyDo::CheckExists { slot } => DoView::CheckExists { slot },
                FkeyDo::Write { slot, bytes, clear } => DoView::Write { slot, bytes: bytes@, clear },
                FkeyDo::Read { slot } => DoView::Read { slot },
                FkeyDo::RedrawSide => DoView::RedrawSide,
                FkeyDo::Repaint => DoView::Repaint,
                FkeyDo::Quit => DoView::Quit,
            },
        )
    }
}

/// The event with its bytes as sequences.
pub open spec fn event_view(e: FkeyEvent) -> (int, Option<Option<Seq<u8>>>) {
    match e {
        FkeyEvent::Key(k) => (k as int, None),
        FkeyEvent::Typed(c) => (c as int, None),
        FkeyEvent::Exists(b) => (if b { 1int } else { 0int }, None),
        FkeyEvent::Written(b) => (if b { 1int } else { 0int }, None),
        FkeyEvent::Loaded(f) => (0, Some(
            match f {
                Some(v) => Some(v@),
                None => None,
            },
        )),
    }
}

/// The upper-case form of an ASCII byte: a to z become A to Z.
pub open spec fn upper(c: u8) -> u8 {
    if 97 <= c <= 122 {
        (c - 32) as u8
    } else {
        c
    }
}

/// The upper-case form of an ASCII byte (see `upper`).
pub fn to_upper(c: u8) -> (r: u8)
    ensures
        r == upper(c),
{
    if c >= 97 && c <= 122 {
        c - 32
    } else {
        c
    }
}

/// The save slot a typed key names: its low byte, upper-cased, from 1 to 9.
pub open spec fn slot_of(c: u8) -> Option<u8> {
    let u = upper(c);
    if 49 <= u <= 57 {
        Some((u - 48) as u8)
    } else {
        None
    }
}

/// The texts of the dialogues.
pub open spec fn reset_text() -> Seq<u8> {
    "RESET GAME (Y/N)?".spec_bytes()
}

pub open spec fn refused_text() -> Seq<u8> {
    "Can't save game here!".spec_bytes()
}

pub open spec fn save_text() -> Seq<u8> {
    "Save as game #(1-9):".spec_bytes()
}

pub open spec fn exists_text() -> Seq<u8> {
    "\nGame exists,\noverwrite (Y/N)?".spec_bytes()
}

pub open spec fn saved_text() -> Seq<u8> {
    "\nGame saved.  Hit F5\nwhen you wish to\nrestart the game.".spec_bytes()
}

pub open spec fn load_text() -> Seq<u8> {
    "Load game #(1-9):".spec_bytes()
}

pub open spec fn not_found_text() -> Seq<u8> {
    "\nGame not found.".spec_bytes()
}

pub open spec fn paused_text() -> Seq<u8> {
    "PAUSED".spec_bytes()
}

pub open spec fn quit_text() -> Seq<u8> {
    "QUIT (Y/N)?".spec_bytes()
}

/// The game after a saved game is loaded: its items, score, level and
/// player's record; a game starts at once (the demo, if one runs, ends) and
/// the level is done, so that the loaded level starts.
pub open spec fn loaded(g: FkeyGame, s: SavedGame) -> FkeyGame {
    FkeyGame {
        items: s.items,
        score: s.score,
        level: s.level,
        player: s.player,
        exitdemo: true,
        playdone: if g.indemo != demoenum::notdemo { true } else { g.playdone },
        leveldone: true,
        ..g
    }
}

/// One step of the function-key dialogues from dialogue `d` on event `e`,
/// with `saved` the game as it was when the level began (what saving
/// writes). Returns the next dialogue, the game, and the caller's task:
/// - a key during play opens what `fkey_spec` names: help and the control
///   panel at once; the reset, save, load, pause and quit windows (saving
///   is refused during a demo);
/// - Y (either case) to the reset question asks for a reset, to the quit
///   question quits; any key closes the refusal, the pause, the saved
///   notice and the not-found notice;
/// - a save or load slot key is echoed upper-cased; a digit 1 to 9 goes on
///   (save: check whether the file exists, asking before overwriting; load:
///   read it), any other key closes;
/// - a loaded file of at least `SAVED_GAME_SIZE` bytes is taken in (see
///   `loaded`) and the side panel redrawn; a file that cannot be read, or
///   is too short to hold a game, is reported not found;
/// - a save that cannot be written closes without repainting.
/// Closing repaints the screen. Any other event leaves everything as it is.
pub open spec fn fkey_step_spec(d: Dialog, g: FkeyGame, saved: SavedGame, e: (int, Option<Option<Seq<u8>>>), kind: int) -> (Dialog, FkeyGame, (Option<u8>, DoView)) {
    let closed = (Dialog::Closed, g, (None::<u8>, DoView::Repaint));
    let other = (d, g, (None::<u8>, DoView::Nothing));
    match d {
        Dialog::Closed => if kind == 0 {
            match fkey_spec(e.0 as u32) {
                None => other,
                Some(FKey::Help) => (Dialog::Closed, g, (None, DoView::Help)),
                Some(FKey::ControlPanel) => (Dialog::Closed, g, (None, DoView::ControlPanel)),
                Some(FKey::ResetGame) => (Dialog::ResetAsked, g, (None, DoView::Ask { width: 18, height: 1, text: reset_text() })),
                Some(FKey::SaveGame) => if g.indemo != demoenum::notdemo {
                    (Dialog::SaveRefused, g, (None, DoView::Ask { width: 22, height: 4, text: refused_text() }))
                } else {
                    (Dialog::SaveSlotAsked, g, (None, DoView::Ask { width: 22, height: 4, text: save_text() }))
                },
                Some(FKey::LoadGame) => (Dialog::LoadSlotAsked, g, (None, DoView::Ask { width: 22, height: 4, text: load_text() })),
                Some(FKey::Pause) => (Dialog::Paused, g, (None, DoView::Ask { width: 7, height: 1, text: paused_text() })),
                Some(FKey::Quit) => (Dialog::QuitAsked, g, (None, DoView::Ask { width: 12, height: 1, text: quit_text() })),
            }
        } else {
            other
        },
        Dialog::ResetAsked => if kind == 1 {
            if upper(e.0 as u8) == 89 {
                (Dialog::Closed, FkeyGame { resetgame: true, ..g }, (None, DoView::Repaint))
            } else {
                closed
            }
        } else {
            other
        },
        Dialog::QuitAsked => if kind == 1 {
            if upper(e.0 as u8) == 89 {
                (Dialog::Closed, g, (None, DoView::Quit))
            } else {
                closed
            }
        } else {
            other
        },
        Dialog::SaveRefused | Dialog::Paused | Dialog::SavedShown | Dialog::NotFoundShown => if kind == 1 {
            closed
        } else {
            other
        },
        Dialog::SaveSlotAsked => if kind == 1 {
            let c = upper(e.0 as u8);
            match slot_of(e.0 as u8) {
                Some(s) => (Dialog::ExistsChecked { slot: s }, g, (Some(c), DoView::CheckExists { slot: s })),
                None => (Dialog::Closed, g, (Some(c), DoView::Repaint)),
            }
        } else {
            other
        },
        Dialog::ExistsChecked { slot } => if kind == 2 {
            if e.0 != 0 {
                (Dialog::OverwriteAsked { slot }, g, (None, DoView::Say { text: exists_text() }))
            } else {
                (Dialog::Writing { slot }, g, (None, DoView::Write { slot, bytes: saved.encoded(), clear: false }))
            }
        } else {
            other
        },
        Dialog::OverwriteAsked { slot } => if kind == 1 {
            if upper(e.0 as u8) == 89 {
                (Dialog::Writing { slot }, g, (None, DoView::Write { slot, bytes: saved.encoded(), clear: true }))
            } else {
                closed
            }
        } else {
            other
        },
        Dialog::Writing { slot: _ } => if kind == 3 {
            if e.0 != 0 {
                (Dialog::SavedShown, g, (None, DoView::Say { text: saved_text() }))
            } else {
                (Dialog::Closed, g, (None, DoView::Nothing))
            }
        } else {
            other
        },
        Dialog::LoadSlotAsked => if kind == 1 {
            let c = upper(e.0 as u8);
            match slot_of(e.0 as u8) {
                Some(s) => (Dialog::Reading { slot: s }, g, (Some(c), DoView::Read { slot: s })),
                None => (Dialog::Closed, g, (Some(c), DoView::Repaint)),
            }
        } else {
            other
        },
        Dialog::Reading { slot: _ } => if kind == 4 {
            match e.1 {
                Some(Some(bytes)) => if bytes.len() >= SAVED_GAME_SIZE {
                    (Dialog::Closed, loaded(g, SavedGame::decoded(bytes)), (None, DoView::RedrawSide))
                } else {
                    (Dialog::NotFoundShown, g, (None, DoView::Say { text: not_found_text() }))
                },
                _ => (Dialog::NotFoundShown, g, (None, DoView::Say { text: not_found_text() })),
            }
        } else {
            other
        },
    }
}

/// Which kind an event is: 0 a key during play, 1 a typed key, 2 whether a
/// file exists, 3 whether it was written, 4 its contents.
pub open spec fn event_kind(e: FkeyEvent) -> int {
    match e {
        FkeyEvent::Key(_) => 0,
        FkeyEvent::Typed(_) => 1,
        FkeyEvent::Exists(_) => 2,
        FkeyEvent::Written(_) => 3,
        FkeyEvent::Loaded(_) => 4,
    }
}

/// One step of the function-key dialogues (see `fkey_step_spec`).
pub fn dofkeys_step(d: Dialog, g: &mut FkeyGame, saved: &SavedGame, e: FkeyEvent) -> (r: (Dialog, FkeyAction))
    ensures
        (r.0, *final(g), r.1.view()) == fkey_step_spec(d, *old(g), *saved, event_view(e), event_kind(e)),
{
    let nothing = FkeyAction { echo: None, todo: FkeyDo::Nothing };
    let repaint = FkeyAction { echo: None, todo: FkeyDo::Repaint };
    match d {
        Dialog::Closed => match e {
            FkeyEvent::Key(k) => match fkey_action(k) {
                None => (d, nothing),
                Some(FKey::Help) => (Dialog::Closed, FkeyAction { echo: None, todo: FkeyDo::Help }),
                Some(FKey::ControlPanel) => (Dialog::Closed, FkeyAction { echo: None, todo: FkeyDo::ControlPanel }),
                Some(FKey::ResetGame) => (Dialog::ResetAsked, FkeyAction { echo: None, todo: FkeyDo::Ask { width: 18, height: 1, text: "RESET GAME (Y/N)?".as_bytes_vec() } }),
                Some(FKey::SaveGame) => if g.indemo != demoenum::notdemo {
                    (Dialog::SaveRefused, FkeyAction { echo: None, todo: FkeyDo::Ask { width: 22, height: 4, text: "Can't save game here!".as_bytes_vec() } })
                } else {
                    (Dialog::SaveSlotAsked, FkeyAction { echo: None, todo: FkeyDo::Ask { width: 22, height: 4, text: "Save as game #(1-9):".as_bytes_vec() } })
                },
                Some(FKey::LoadGame) => (Dialog::LoadSlotAsked, FkeyAction { echo: None, todo: FkeyDo::Ask { width: 22, height: 4, text: "Load game #(1-9):".as_bytes_vec() } }),
                Some(FKey::Pause) => (Dialog::Paused, FkeyAction { echo: None, todo: FkeyDo::Ask { width: 7, height: 1, text: "PAUSED".as_bytes_vec() } }),
                Some(FKey::Quit) => (Dialog::QuitAsked, FkeyAction { echo: None, todo: FkeyDo::Ask { width: 12, height: 1, text: "QUIT (Y/N)?".as_bytes_vec() } }),
            },
            _ => (d, nothing),
        },
        Dialog::ResetAsked => match e {
            FkeyEvent::Typed(c) => {
                if to_upper(#[verifier::truncate] (c as u8)) == 89 {
                    g.resetgame = true;
                }
                (Dialog::Closed, repaint)
            },
            _ => (d, nothing),
        },
        Dialog::QuitAsked => match e {
            FkeyEvent::Typed(c) => if to_upper(#[verifier::truncate] (c as u8)) == 89 {
                (Dialog::Closed, FkeyAction { echo: None, todo: FkeyDo::Quit })
            } else {
                (Dialog::Closed, repaint)
            },
            _ => (d, nothing),
        },
        Dialog::SaveRefused | Dialog::Paused | Dialog::SavedShown | Dialog::NotFoundShown => match e {
            FkeyEvent::Typed(_) => (Dialog::Closed, repaint),
            _ => (d, nothing),
        },
        Dialog::SaveSlotAsked => match e {
            FkeyEvent::Typed(c) => {
                let u = to_upper(#[verifier::truncate] (c as u8));
                if u >= 49 && u <= 57 {
                    let s: u8 = u - 48;
                    (Dialog::ExistsChecked { slot: s }, FkeyAction { echo: Some(u), todo: FkeyDo::CheckExists { slot: s } })
                } else {
                    (Dialog::Closed, FkeyAction { echo: Some(u), todo: FkeyDo::Repaint })
                }
            },
            _ => (d, nothing),
        },
        Dialog::ExistsChecked { slot } => match e {
            FkeyEvent::Exists(b) => if b {
                (Dialog::OverwriteAsked { slot }, FkeyAction { echo: None, todo: FkeyDo::Say { text: "\nGame exists,\noverwrite (Y/N)?".as_bytes_vec() } })
            } else {
                (Dialog::Writing { slot }, FkeyAction { echo: None, todo: FkeyDo::Write { slot, bytes: saved.serialize(), clear: false } })
            },
            _ => (d, nothing),
        },
        Dialog::OverwriteAsked { slot } => match e {
            FkeyEvent::Typed(c) => if to_upper(#[verifier::truncate] (c as u8)) == 89 {
                (Dialog::Writing { slot }, FkeyAction { echo: None, todo: FkeyDo::Write { slot, bytes: saved.serialize(), clear: true } })
            } else {
                (Dialog::Closed, repaint)
            },
            _ => (d, nothing),
        },
        Dialog::Writing { slot: _ } => match e {
            FkeyEvent::Written(ok) => if ok {
                (Dialog::SavedShown, FkeyAction { echo: None, todo: FkeyDo::Say { text: "\nGame saved.  Hit F5\nwhen you wish to\nrestart the game.".as_bytes_vec() } })
            } else {
                (Dialog::Closed, nothing)
            },
            _ => (d, nothing),
        },
        Dialog::LoadSlotAsked => match e {
            FkeyEvent::Typed(c) => {
                let u = to_upper(#[verifier::truncate] (c as u8));
                if u >= 49 && u <= 57 {
                    let s: u8 = u - 48;
                    (Dialog::Reading { slot: s }, FkeyAction { echo: Some(u), todo: FkeyDo::Read { slot: s } })
                } else {
                    (Dialog::Closed, FkeyAction { echo: Some(u), todo: FkeyDo::Repaint })
                }
            },
            _ => (d, nothing),
        },
        Dialog::Reading { slot: _ } => match e {
            FkeyEvent::Loaded(f) => {
                let not_found = FkeyAction { echo: None, todo: FkeyDo::Say { text: "\nGame not found.".as_bytes_vec() } };
                match f {
                    Some(bytes) => if bytes.len() >= SAVED_GAME_SIZE {
                        let s = SavedGame::deserialize(&bytes);
                        g.items = s.items;
                        g.score = s.score;
                        g.level = s.level;
                        g.player = s.player;
                        g.exitdemo = true;
                        if g.indemo != demoenum::notdemo {
                            g.playdone = true;
                        }
                        g.leveldone = true;
                        (Dialog::Closed, FkeyAction { echo: None, todo: FkeyDo::RedrawSide })
                    } else {
                        (Dialog::NotFoundShown, not_found)
                    },
                    None => (Dialog::NotFoundShown, not_found),
                }
            },
            _ => (d, nothing),
        },
    }
}

/// What saving writes, loading gives back: a save into a free slot writes
/// the game as the level began, and reading those bytes back takes in
/// exactly that game (see `loaded`), closing the dialogue and redrawing the
/// side panel.
pub proof fn lemma_save_then_load(g: FkeyGame, saved: SavedGame, slot: u8)
    ensures
        fkey_step_spec(Dialog::ExistsChecked { slot }, g, saved, (0, None), 2) == (
            Dialog::Writing { slot },
            g,
            (None::<u8>, DoView::Write { slot, bytes: saved.encoded(), clear: false }),
        ),
        fkey_step_spec(Dialog::Reading { slot }, g, saved, (0, Some(Some(saved.encoded()))), 4) == (
            Dialog::Closed,
            loaded(g, saved),
            (None::<u8>, DoView::RedrawSide),
        ),
{
    lemma_saved_game_roundtrip(saved);
}

} // verus!
