//! The game's main flow as a state machine: the opening screen, the
//! attract mode (title page, recorded demos, high scores), play, the end
//! page and game over. The caller shows each screen and runs each game, and
//! hands back what happened.
use vstd::prelude::*;

use crate::catacomb_ii::demo_enum::demoenum;
use crate::int_math::{decimal, decimal_text};

verus! {

/// The number of levels; finishing a level past it wins the game.
pub const NUM_LEVELS: i16 = 30;

/// The number of frames the high scores stay up after a demo.
pub const SCORE_FRAMES: u32 = 500;

/// Where the game is.
#[derive(Clone, Copy, Debug, PartialEq, Eq, Structural)]
pub enum GamePhase {
    /// The opening notice, waiting for a key.
    Intro,
    /// The title page of the attract mode.
    TitlePage,
    /// A recorded demo playing.
    DemoPlay,
    /// The high scores after a demo, shown for `frames` frames so far.
    DemoScores { frames: u32 },
    /// A game being played.
    Playing,
    /// The page for finishing every level.
    EndPage,
    /// The game over notice and the high score entry.
    GameOver,
}

/// What the caller reports back.
#[derive(Clone, Copy, Debug, PartialEq, Eq, Structural)]
pub enum PhaseEvent {
    /// A key was pressed at the opening notice.
    KeyPressed,
    /// The title page, a demo, the end page or game over is done; `exitdemo`
    /// tells whether the player asked to start a game (or loaded one).
    Done { exitdemo: bool },
    /// A frame of the high scores passed; `start` tells whether fire or
    /// space was pressed, `exitdemo` whether a function key started a game.
    Frame { start: bool, exitdemo: bool },
    /// A game ended: whether it ended in demo mode, whether a game is to
    /// start again at once, and the level reached.
    PlayDone { indemo: demoenum, exitdemo: bool, level: i16 },
}

/// What the caller does next.
#[derive(Clone, Copy, Debug, PartialEq, Eq, Structural)]
pub enum PhaseAction {
    ShowTitlePage,
    /// Play a recorded demo (one drawn at random).
    RunDemo,
    ShowHighScores,
    /// Wait one frame with the high scores up.
    WaitFrame,
    /// Set up the player and play a game.
    StartGame,
    ShowEndPage,
    ShowGameOver,
    /// The event does not fit the phase: nothing happens.
    Nothing,
}

/// The attract mode after the player starts or does not start a game.
pub open spec fn attract_or_play(exitdemo: bool) -> (GamePhase, PhaseAction) {
    if exitdemo {
        (GamePhase::Playing, PhaseAction::StartGame)
    } else {
        (GamePhase::TitlePage, PhaseAction::ShowTitlePage)
    }
}

/// The next phase and what to do on entering it:
/// - a key at the opening notice brings the title page;
/// - after the title page a demo plays, unless a game was started;
/// - after a demo the high scores stay up for up to `SCORE_FRAMES` frames,
///   unless a game was started; fire or space during them starts one, and
///   after them the title page comes back;
/// - a game over in earnest goes to the end page when every level was
///   finished (the level is past `NUM_LEVELS`), else to game over; the end
///   page goes to game over;
/// - after a demo run as a game, and after game over, a game starts again
///   at once if one was started, otherwise the title page comes back.
pub open spec fn phase_step(p: GamePhase, e: PhaseEvent) -> (GamePhase, PhaseAction) {
    match (p, e) {
        (GamePhase::Intro, PhaseEvent::KeyPressed) => (GamePhase::TitlePage, PhaseAction::ShowTitlePage),
        (GamePhase::TitlePage, PhaseEvent::Done { exitdemo }) => if exitdemo {
            (GamePhase::Playing, PhaseAction::StartGame)
        } else {
            (GamePhase::DemoPlay, PhaseAction::RunDemo)
        },
        (GamePhase::DemoPlay, PhaseEvent::Done { exitdemo }) => if exitdemo {
            (GamePhase::Playing, PhaseAction::StartGame)
        } else {
            (GamePhase::DemoScores { frames: 0 }, PhaseAction::ShowHighScores)
        },
        (GamePhase::DemoScores { frames }, PhaseEvent::Frame { start, exitdemo }) => if start
            || exitdemo {
            (GamePhase::Playing, PhaseAction::StartGame)
        } else if frames + 1 >= SCORE_FRAMES {
            (GamePhase::TitlePage, PhaseAction::ShowTitlePage)
        } else {
            (GamePhase::DemoScores { frames: (frames + 1) as u32 }, PhaseAction::WaitFrame)
        },
        (GamePhase::Playing, PhaseEvent::PlayDone { indemo, exitdemo, level }) => if indemo
            == demoenum::notdemo {
            if level > NUM_LEVELS {
                (GamePhase::EndPage, PhaseAction::ShowEndPage)
            } else {
                (GamePhase::GameOver, PhaseAction::ShowGameOver)
            }
        } else {
            attract_or_play(exitdemo)
        },
        (GamePhase::EndPage, PhaseEvent::Done { exitdemo: _ }) => (
            GamePhase::GameOver,
            PhaseAction::ShowGameOver,
        ),
        (GamePhase::GameOver, PhaseEvent::Done { exitdemo }) => attract_or_play(exitdemo),
        _ => (p, PhaseAction::Nothing),
    }
}

/// Whether event `e` says the player asked for a game: fire at the title
/// page, the demo or game over, or fire (or the start key) while the high
/// scores are up.
pub open spec fn starts_game(e: PhaseEvent) -> bool {
    match e {
        PhaseEvent::Done { exitdemo } => exitdemo,
        PhaseEvent::Frame { start, exitdemo } => start || exitdemo,
        PhaseEvent::PlayDone { indemo: _, exitdemo, level: _ } => exitdemo,
        PhaseEvent::KeyPressed => false,
    }
}

/// Whether phase `p` is one of the attract screens (title page, demo, high
/// scores) or game over, or a demo run as play, and `e` is the event that
/// ends it.
pub open spec fn answers_start(p: GamePhase, e: PhaseEvent) -> bool {
    match (p, e) {
        (GamePhase::TitlePage, PhaseEvent::Done { exitdemo: _ }) => true,
        (GamePhase::DemoPlay, PhaseEvent::Done { exitdemo: _ }) => true,
        (GamePhase::GameOver, PhaseEvent::Done { exitdemo: _ }) => true,
        (GamePhase::DemoScores { frames: _ }, PhaseEvent::Frame { start: _, exitdemo: _ }) => true,
        (GamePhase::Playing, PhaseEvent::PlayDone { indemo, exitdemo: _, level: _ }) => indemo != demoenum::notdemo,
        _ => false,
    }
}

/// Fire at any attract screen, at game over or during a demo starts a game
/// at once; without it no game starts there.
pub proof fn lemma_fire_starts_game(p: GamePhase, e: PhaseEvent)
    requires
        answers_start(p, e),
    ensures
        starts_game(e) ==> phase_step(p, e) == (GamePhase::Playing, PhaseAction::StartGame),
        !starts_game(e) ==> phase_step(p, e).0 != GamePhase::Playing,
{
}

/// The game's main flow (see `phase_step`).
pub fn next_phase(p: GamePhase, e: PhaseEvent) -> (r: (GamePhase, PhaseAction))
    ensures
        answers_start(p, e) ==> (starts_game(e) <==> r == (GamePhase::Playing, PhaseAction::StartGame)),
        answers_start(p, e) && !starts_game(e) ==> r.0 != GamePhase::Playing,
        p == GamePhase::TitlePage && e == (PhaseEvent::Done { exitdemo: false }) ==> r.0 == GamePhase::DemoPlay,
        p == GamePhase::DemoPlay && e == (PhaseEvent::Done { exitdemo: false }) ==> r.0 == (GamePhase::DemoScores {
            frames: 0,
        }),
        p is DemoScores && e == (PhaseEvent::Frame { start: false, exitdemo: false }) ==> (r.0 == GamePhase::TitlePage <==> p->frames + 1 >= SCORE_FRAMES) && (r.0 != GamePhase::TitlePage
            ==> r.0 == (GamePhase::DemoScores { frames: (p->frames + 1) as u32 })),
        p == GamePhase::Playing && e is PlayDone && e->indemo == demoenum::notdemo ==> (r.0 == GamePhase::EndPage
            <==> e->level > NUM_LEVELS) && (r.0 == GamePhase::EndPage || r.0 == GamePhase::GameOver),
        p == GamePhase::EndPage && e is Done ==> r.0 == GamePhase::GameOver,
        r == phase_step(p, e),
{
    match (p, e) {
        (GamePhase::Intro, PhaseEvent::KeyPressed) => (GamePhase::TitlePage, PhaseAction::ShowTitlePage),
        (GamePhase::TitlePage, PhaseEvent::Done { exitdemo }) => if exitdemo {
            (GamePhase::Playing, PhaseAction::StartGame)
        } else {
            (GamePhase::DemoPlay, PhaseAction::RunDemo)
        },
        (GamePhase::DemoPlay, PhaseEvent::Done { exitdemo }) => if exitdemo {
            (GamePhase::Playing, PhaseAction::StartGame)
        } else {
            (GamePhase::DemoScores { frames: 0 }, PhaseAction::ShowHighScores)
        },
        (GamePhase::DemoScores { frames }, PhaseEvent::Frame { start, exitdemo }) => if start
            || exitdemo {
            (GamePhase::Playing, PhaseAction::StartGame)
        } else if frames >= SCORE_FRAMES - 1 {
            (GamePhase::TitlePage, PhaseAction::ShowTitlePage)
        } else {
            (GamePhase::DemoScores { frames: frames + 1 }, PhaseAction::WaitFrame)
        },
        (GamePhase::Playing, PhaseEvent::PlayDone { indemo, exitdemo, level }) => if indemo
            == demoenum::notdemo {
            if level > NUM_LEVELS {
                (GamePhase::EndPage, PhaseAction::ShowEndPage)
            } else {
                (GamePhase::GameOver, PhaseAction::ShowGameOver)
            }
        } else if exitdemo {
            (GamePhase::Playing, PhaseAction::StartGame)
        } else {
            (GamePhase::TitlePage, PhaseAction::ShowTitlePage)
        },
        (GamePhase::EndPage, PhaseEvent::Done { exitdemo: _ }) => (
            GamePhase::GameOver,
            PhaseAction::ShowGameOver,
        ),
        (GamePhase::GameOver, PhaseEvent::Done { exitdemo }) => if exitdemo {
            (GamePhase::Playing, PhaseAction::StartGame)
        } else {
            (GamePhase::TitlePage, PhaseAction::ShowTitlePage)
        },
        _ => (p, PhaseAction::Nothing),
    }
}

/// Whichever way the attract mode goes, the high scores never stay up for
/// more than `SCORE_FRAMES` frames: their count stays below it.
pub proof fn lemma_scores_bounded(p: GamePhase, e: PhaseEvent)
    requires
        p matches GamePhase::DemoScores { frames } ==> frames < SCORE_FRAMES,
    ensures
        phase_step(p, e).0 matches GamePhase::DemoScores { frames } ==> frames < SCORE_FRAMES,
{
}

/// What follows a level of play: whether a recorded demo is to be saved
/// first, and whether play goes on to the next level.
#[derive(Clone, Copy, Debug, PartialEq, Eq, Structural)]
pub struct AfterLevel {
    pub save_demo: bool,
    pub next_level: bool,
}

/// What follows a level (see `AfterLevel`): a recording is saved; a demo
/// of any kind ends play after one level, as does a game that is over.
pub fn after_level(indemo: demoenum, playdone: bool) -> (r: AfterLevel)
    ensures
        r.save_demo == (indemo == demoenum::recording),
        r.next_level == (indemo == demoenum::notdemo && !playdone),
{
    AfterLevel {
        save_demo: indemo == demoenum::recording,
        next_level: indemo == demoenum::notdemo && !playdone,
    }
}

/// The demo number a key names when saving a recording: a digit 0 to 9;
/// any other key is passed over.
pub fn demo_slot(ch: u8) -> (r: Option<u8>)
    ensures
        r == if 48 <= ch <= 57 {
            Some((ch - 48) as u8)
        } else {
            None::<u8>
        },
{
    if ch >= 48 && ch <= 57 {
        Some(ch - 48)
    } else {
        None
    }
}

/// The notice shown as level `level` begins in earnest play: " Entering",
/// then on a new line "level " and the level's number, and "...".
pub open spec fn entering_text(level: i16) -> Seq<u8> {
    seq![32u8, 69, 110, 116, 101, 114, 105, 110, 103, 10, 108, 101, 118, 101, 108, 32] + decimal_text(level as int)
        + seq![46u8, 46, 46]
}

/// The notice shown as level `level` begins (see `entering_text`).
pub fn entering_notice(level: i16) -> (r: Vec<u8>)
    ensures
        r@ == entering_text(level),
{
    let mut t: Vec<u8> = vec![32u8, 69, 110, 116, 101, 114, 105, 110, 103, 10, 108, 101, 118, 101, 108, 32];
    let d = decimal(level as i32);
    let mut i: usize = 0;
    let ghost t0 = t@;
    while i < d.len()
        invariant
            0 <= i <= d@.len(),
            t@ == t0 + d@.subrange(0, i as int),
        decreases d@.len() - i,
    {
        t.push(d[i]);
        i = i + 1;
        assert(d@.subrange(0, i as int) =~= d@.subrange(0, (i - 1) as int).push(d@[(i - 1) as int]));
    }
    t.push(46u8);
    t.push(46u8);
    t.push(46u8);
    proof {
        assert(d@.subrange(0, d@.len() as int) =~= d@);
        assert(t@ =~= entering_text(level));
    }
    t
}

} // verus!
