use classic_games::cavern::actor::Image;
use classic_games::cavern::drawing::{
    char_width, icon_positions, image_width, text_positions, text_width, StatusIcon,
};
use classic_games::cavern::game::{sound_audible, Game};
use classic_games::int_math::decimal;
use classic_games::cavern::global_state::{
    level_text, score_x, space_anim_frame, status_icons, GameSound, GlobalState, State,
};
use classic_games::cavern::player::Player;
use classic_games::cavern::robot::RobotType;

fn level(first_row: &[u8]) -> Vec<Vec<u8>> {
    let mut rows = vec![first_row.to_vec()];
    for _ in 1..17 {
        rows.push(vec![b' '; 28]);
    }
    rows.push(vec![b'X'; 28]);
    rows
}

fn levels() -> Vec<Vec<Vec<u8>>> {
    let mut top = vec![b'X'; 28];
    top[5] = b' ';
    top[20] = b' ';
    vec![level(&top), level(&[b' '; 28])]
}

fn blank() -> Image {
    Image { texture: 0, width: 20, height: 30 }
}

#[test]
fn new_game_sets_up_the_first_level() {
    let levels = levels();
    let game = Game::new(None, &levels);
    assert_eq!((game.level, game.level_colour, game.timer), (0, 0, -1));
    assert_eq!(game.grid.len(), 19);
    assert_eq!(game.grid[18], game.grid[0]);
    assert_eq!(game.grid[0], levels[0][0]);
    assert_eq!(game.pending_enemies.len(), 10);
    let strong = game
        .pending_enemies
        .iter()
        .filter(|r| **r == RobotType::Aggressive)
        .count();
    assert_eq!(strong, 1);
    assert!(game.player.is_none());
}

#[test]
fn next_level_advances_and_resets() {
    let levels = levels();
    let mut player = Player::new(blank());
    player.score = 50;
    let mut game = Game::new(Some(player), &levels);
    assert_eq!(game.player.as_ref().unwrap().x, 400);
    assert!(game.next_level(&levels));
    assert_eq!((game.level, game.level_colour), (1, 1));
    assert_eq!(game.grid[0], levels[1][0]);
    assert_eq!(game.player.as_ref().unwrap().score, 50);
    // Level 1: 11 enemies, of which 1 + 2 / 3 = 1 aggressive.
    assert_eq!(game.pending_enemies.len(), 11);
    assert!(game.next_level(&levels));
    assert!(game.next_level(&levels));
    // Level 3: 13 enemies, of which 1 + 6 / 3 = 3 aggressive; levels cycle.
    assert_eq!(game.grid[0], levels[1][0]);
    let strong = game
        .pending_enemies
        .iter()
        .filter(|r| **r == RobotType::Aggressive)
        .count();
    assert_eq!((game.pending_enemies.len(), strong), (13, 3));
    assert_eq!(game.level_colour, 3);
    game.next_level(&levels);
    assert_eq!(game.level_colour, 0);
}

#[test]
fn level_sound_only_with_a_player() {
    let levels = levels();
    let mut game = Game::new(None, &levels);
    assert!(!game.next_level(&levels));
    assert!(!sound_audible(&game.player));
}

#[test]
fn pending_enemies_are_shuffled() {
    let levels = levels();
    let mut positions = Vec::new();
    for _ in 0..40 {
        let game = Game::new(None, &levels);
        let p = game
            .pending_enemies
            .iter()
            .position(|r| *r == RobotType::Aggressive)
            .unwrap();
        if !positions.contains(&p) {
            positions.push(p);
        }
    }
    assert!(positions.len() > 1);
}

#[test]
fn max_enemies_grows_to_eight() {
    let levels = levels();
    let mut game = Game::new(None, &levels);
    assert_eq!(game.max_enemies(), 3);
    game.level = 5;
    assert_eq!(game.max_enemies(), 5);
    game.level = 40;
    assert_eq!(game.max_enemies(), 8);
}

#[test]
fn robot_spawn_column_search_wraps() {
    let levels = levels();
    let game = Game::new(None, &levels);
    assert_eq!(game.robot_spawn_x_from(3), 25 * 5 + 50 + 12);
    assert_eq!(game.robot_spawn_x_from(6), 25 * 20 + 50 + 12);
    assert_eq!(game.robot_spawn_x_from(21), 25 * 5 + 50 + 12);
    let mut blocked = Game::new(None, &levels);
    blocked.grid[0] = vec![b'X'; 28];
    assert_eq!(blocked.robot_spawn_x_from(0), 400);
}

#[test]
fn random_robot_spawn_is_a_free_column() {
    let levels = levels();
    let game = Game::new(None, &levels);
    for _ in 0..50 {
        let x = game.get_robot_spawn_x();
        assert!(x == 25 * 5 + 62 || x == 25 * 20 + 62);
    }
}

#[test]
fn game_clock_ticks() {
    let levels = levels();
    let mut game = Game::new(None, &levels);
    game.update();
    game.update();
    assert_eq!(game.timer, 1);
}

#[test]
fn screens_follow_space_and_lives() {
    let levels = levels();
    let mut state = GlobalState::new(&levels);
    assert_eq!(state.state, State::Menu);
    assert_eq!(state.update(false, &levels, blank()), None);
    assert_eq!((state.state, state.game.timer), (State::Menu, 0));
    assert_eq!(state.update(true, &levels, blank()), Some(GameSound::Level));
    assert_eq!(state.state, State::Play);
    assert_eq!(state.game.player.as_ref().unwrap().lives, 2);
    assert_eq!(state.update(false, &levels, blank()), None);
    assert_eq!(state.state, State::Play);
    state.game.player.as_mut().unwrap().lives = -1;
    assert_eq!(state.update(false, &levels, blank()), Some(GameSound::Over));
    assert_eq!(state.state, State::GameOver);
    assert_eq!(state.update(false, &levels, blank()), None);
    assert_eq!(state.state, State::GameOver);
    assert_eq!(state.update(true, &levels, blank()), None);
    assert_eq!(state.state, State::Menu);
    assert!(state.game.player.is_none());
}

#[test]
fn font_widths() {
    assert_eq!(char_width(&b'A'), 27);
    assert_eq!(char_width(&b'I'), 12);
    assert_eq!(char_width(&b'W'), 38);
    assert_eq!(char_width(&b' '), 27);
    assert_eq!(char_width(&b'7'), 27);
    assert_eq!(text_width(b"LEVEL 1"), 180);
    assert_eq!(text_width(b""), 0);
}

#[test]
fn text_is_centred_unless_placed() {
    assert_eq!(text_positions(b"AB", None), vec![373, 400]);
    assert_eq!(text_positions(b"AB", Some(10)), vec![10, 37]);
    assert_eq!(text_positions(b"", None), Vec::<i32>::new());
}

#[test]
fn decimal_texts() {
    assert_eq!(decimal(0), b"0".to_vec());
    assert_eq!(decimal(1234), b"1234".to_vec());
    assert_eq!(decimal(-45), b"-45".to_vec());
    assert_eq!(decimal(i32::MIN), b"-2147483648".to_vec());
    assert_eq!(decimal(i32::MAX), b"2147483647".to_vec());
}

#[test]
fn status_bar_icons() {
    let (life, plus, health) = (StatusIcon::Life, StatusIcon::Plus, StatusIcon::Health);
    assert_eq!(status_icons(3, 2), vec![life, life, plus, health, health]);
    assert_eq!(status_icons(1, 3), vec![life, health, health, health]);
    assert_eq!(status_icons(0, 0), Vec::<StatusIcon>::new());
    assert_eq!(status_icons(-1, 3), vec![life, life]);
    assert_eq!(image_width(life), 44);
    assert_eq!(icon_positions(&[life, plus, health, health]), vec![0, 44, 84, 124]);
}

#[test]
fn status_texts_and_frames() {
    assert_eq!(score_x(3), 800 - 2 - 27 * 3);
    assert_eq!(level_text(0), b"LEVEL 1".to_vec());
    assert_eq!(level_text(11), b"LEVEL 12".to_vec());
    assert_eq!(space_anim_frame(-1), 9);
    assert_eq!(space_anim_frame(125), 1);
    assert_eq!(space_anim_frame(119), 9);
    assert_eq!(space_anim_frame(120), 0);
}
