use classic_games::catacomb_ii::active_obj::activeobj;
use classic_games::catacomb_ii::demo_enum::demoenum;
use classic_games::catacomb_ii::fkeys::{dofkeys_step, Dialog, FkeyDo, FkeyEvent, FkeyGame};
use classic_games::catacomb_ii::game_flow::{
    after_level, demo_slot, entering_notice, next_phase, AfterLevel, GamePhase, PhaseAction, PhaseEvent,
};
use classic_games::catacomb_ii::saved_game::{SavedGame, SAVED_GAME_SIZE};

fn player(x: u8) -> activeobj {
    activeobj {
        active: true,
        class: 1,
        x,
        y: 40,
        stage: 0,
        delay: 0,
        dir: 1,
        hp: 13,
        oldx: x,
        oldy: 40,
        oldtile: -1,
        filler: [0],
    }
}

fn game(indemo: demoenum) -> FkeyGame {
    FkeyGame {
        indemo,
        resetgame: false,
        exitdemo: false,
        playdone: false,
        leveldone: false,
        items: [0; 6],
        score: 10,
        level: 3,
        player: player(5),
    }
}

fn saved() -> SavedGame {
    SavedGame { items: [1, 2, 3, 4, 5, 6], score: 900, level: 4, player: player(7) }
}

#[test]
fn the_title_and_demo_alternate_until_a_game_starts() {
    assert_eq!(next_phase(GamePhase::Intro, PhaseEvent::KeyPressed), (GamePhase::TitlePage, PhaseAction::ShowTitlePage));
    assert_eq!(
        next_phase(GamePhase::TitlePage, PhaseEvent::Done { exitdemo: false }),
        (GamePhase::DemoPlay, PhaseAction::RunDemo)
    );
    assert_eq!(
        next_phase(GamePhase::DemoPlay, PhaseEvent::Done { exitdemo: false }),
        (GamePhase::DemoScores { frames: 0 }, PhaseAction::ShowHighScores)
    );
    assert_eq!(
        next_phase(GamePhase::DemoScores { frames: 0 }, PhaseEvent::Frame { start: false, exitdemo: false }),
        (GamePhase::DemoScores { frames: 1 }, PhaseAction::WaitFrame)
    );
    assert_eq!(
        next_phase(GamePhase::DemoScores { frames: 499 }, PhaseEvent::Frame { start: false, exitdemo: false }),
        (GamePhase::TitlePage, PhaseAction::ShowTitlePage)
    );
    // Fire at the demo begins a game.
    assert_eq!(
        next_phase(GamePhase::DemoPlay, PhaseEvent::Done { exitdemo: true }),
        (GamePhase::Playing, PhaseAction::StartGame)
    );
    assert_eq!(
        next_phase(GamePhase::DemoScores { frames: 7 }, PhaseEvent::Frame { start: true, exitdemo: false }),
        (GamePhase::Playing, PhaseAction::StartGame)
    );
    // An event that does not belong to the phase changes nothing.
    assert_eq!(next_phase(GamePhase::Intro, PhaseEvent::Done { exitdemo: true }), (GamePhase::Intro, PhaseAction::Nothing));
}

#[test]
fn games_end_on_the_end_page_or_game_over() {
    let done = |level: i16| PhaseEvent::PlayDone { indemo: demoenum::notdemo, exitdemo: false, level };
    assert_eq!(next_phase(GamePhase::Playing, done(31)), (GamePhase::EndPage, PhaseAction::ShowEndPage));
    assert_eq!(next_phase(GamePhase::Playing, done(30)), (GamePhase::GameOver, PhaseAction::ShowGameOver));
    assert_eq!(
        next_phase(GamePhase::EndPage, PhaseEvent::Done { exitdemo: false }),
        (GamePhase::GameOver, PhaseAction::ShowGameOver)
    );
    assert_eq!(
        next_phase(GamePhase::GameOver, PhaseEvent::Done { exitdemo: false }),
        (GamePhase::TitlePage, PhaseAction::ShowTitlePage)
    );
    assert_eq!(
        next_phase(
            GamePhase::Playing,
            PhaseEvent::PlayDone { indemo: demoenum::demoplay, exitdemo: true, level: 0 }
        ),
        (GamePhase::Playing, PhaseAction::StartGame)
    );
}

#[test]
fn f3_resets_on_yes() {
    let s = saved();
    let mut g = game(demoenum::notdemo);
    let (d, a) = dofkeys_step(Dialog::Closed, &mut g, &s, FkeyEvent::Key(60));
    assert_eq!(d, Dialog::ResetAsked);
    assert!(matches!(a.todo, FkeyDo::Ask { width: 18, height: 1, .. }));
    let (d, a) = dofkeys_step(d, &mut g, &s, FkeyEvent::Typed(b'y' as i32));
    assert_eq!(d, Dialog::Closed);
    assert!(g.resetgame);
    assert!(matches!(a.todo, FkeyDo::Repaint));
    // Anything but Y closes without a reset.
    let mut g = game(demoenum::notdemo);
    let (d, _) = dofkeys_step(Dialog::ResetAsked, &mut g, &s, FkeyEvent::Typed(b'n' as i32));
    assert_eq!(d, Dialog::Closed);
    assert!(!g.resetgame);
}

#[test]
fn f4_saves_the_level_start_and_is_refused_in_a_demo() {
    let s = saved();
    let mut g = game(demoenum::demoplay);
    let (d, _) = dofkeys_step(Dialog::Closed, &mut g, &s, FkeyEvent::Key(61));
    assert_eq!(d, Dialog::SaveRefused);
    let mut g = game(demoenum::notdemo);
    let (d, _) = dofkeys_step(Dialog::Closed, &mut g, &s, FkeyEvent::Key(61));
    assert_eq!(d, Dialog::SaveSlotAsked);
    let (d, a) = dofkeys_step(d, &mut g, &s, FkeyEvent::Typed(b'3' as i32));
    assert_eq!(d, Dialog::ExistsChecked { slot: 3 });
    assert_eq!(a.echo, Some(b'3'));
    assert!(matches!(a.todo, FkeyDo::CheckExists { slot: 3 }));
    let (d, a) = dofkeys_step(d, &mut g, &s, FkeyEvent::Exists(false));
    assert_eq!(d, Dialog::Writing { slot: 3 });
    match a.todo {
        FkeyDo::Write { slot, bytes, clear } => {
            assert_eq!((slot, clear), (3, false));
            assert_eq!(bytes, s.serialize());
        }
        _ => panic!("expected a write"),
    }
    let (d, _) = dofkeys_step(d, &mut g, &s, FkeyEvent::Written(true));
    assert_eq!(d, Dialog::SavedShown);
    let (d, _) = dofkeys_step(d, &mut g, &s, FkeyEvent::Typed(32));
    assert_eq!(d, Dialog::Closed);
    // A slot that is not a digit 1 to 9 closes.
    let (d, a) = dofkeys_step(Dialog::SaveSlotAsked, &mut g, &s, FkeyEvent::Typed(b'x' as i32));
    assert_eq!((d, a.echo), (Dialog::Closed, Some(b'X')));
}

#[test]
fn f5_loads_a_saved_game() {
    let s = saved();
    let mut g = game(demoenum::notdemo);
    let (d, _) = dofkeys_step(Dialog::Closed, &mut g, &s, FkeyEvent::Key(62));
    assert_eq!(d, Dialog::LoadSlotAsked);
    let (d, _) = dofkeys_step(d, &mut g, &s, FkeyEvent::Typed(b'2' as i32));
    assert_eq!(d, Dialog::Reading { slot: 2 });
    let bytes = s.serialize();
    assert_eq!(bytes.len(), SAVED_GAME_SIZE);
    let (d, a) = dofkeys_step(d, &mut g, &s, FkeyEvent::Loaded(Some(bytes)));
    assert_eq!(d, Dialog::Closed);
    assert!(matches!(a.todo, FkeyDo::RedrawSide));
    assert_eq!((g.items, g.score, g.level, g.player.x), ([1, 2, 3, 4, 5, 6], 900, 4, 7));
    assert!(g.leveldone && g.exitdemo);
    // A missing or short file is reported not found.
    let mut g = game(demoenum::notdemo);
    let (d, _) = dofkeys_step(Dialog::Reading { slot: 2 }, &mut g, &s, FkeyEvent::Loaded(None));
    assert_eq!(d, Dialog::NotFoundShown);
    let (d, _) = dofkeys_step(Dialog::Reading { slot: 2 }, &mut g, &s, FkeyEvent::Loaded(Some(vec![1, 2, 3])));
    assert_eq!(d, Dialog::NotFoundShown);
    assert_eq!(g.score, 10);
}

#[test]
fn f9_pauses_and_escape_asks_to_quit() {
    let s = saved();
    let mut g = game(demoenum::notdemo);
    let (d, _) = dofkeys_step(Dialog::Closed, &mut g, &s, FkeyEvent::Key(66));
    assert_eq!(d, Dialog::Paused);
    let (d, _) = dofkeys_step(d, &mut g, &s, FkeyEvent::Typed(13));
    assert_eq!(d, Dialog::Closed);
    let (d, _) = dofkeys_step(Dialog::Closed, &mut g, &s, FkeyEvent::Key(41));
    assert_eq!(d, Dialog::QuitAsked);
    let (d, a) = dofkeys_step(d, &mut g, &s, FkeyEvent::Typed(b'Y' as i32));
    assert_eq!(d, Dialog::Closed);
    assert!(matches!(a.todo, FkeyDo::Quit));
}

#[test]
fn levels_follow_one_another_until_play_is_over() {
    assert_eq!(after_level(demoenum::notdemo, false), AfterLevel { save_demo: false, next_level: true });
    assert_eq!(after_level(demoenum::notdemo, true), AfterLevel { save_demo: false, next_level: false });
    assert_eq!(after_level(demoenum::demoplay, false), AfterLevel { save_demo: false, next_level: false });
    assert_eq!(after_level(demoenum::recording, false), AfterLevel { save_demo: true, next_level: false });
    assert_eq!((demo_slot(b'0'), demo_slot(b'7'), demo_slot(b'a'), demo_slot(13)), (Some(0), Some(7), None, None));
    assert_eq!(entering_notice(12), b" Entering\nlevel 12...".to_vec());
}
