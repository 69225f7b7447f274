use classic_games::catacomb_ii::cpanel_state::CpanelState;
use classic_games::catacomb_ii::gr_type::grtype;
use classic_games::catacomb_ii::help::{answer_is_yes, fkey_action, help_next, help_text, FKey};
use classic_games::catacomb_ii::obj_def_type::objdeftype;
use classic_games::catacomb_ii::scan_codes::{SDL_SCANCODE_ESCAPE, SDL_SCANCODE_F1, SDL_SCANCODE_F10};
use classic_games::catacomb_ii::setup::{object_priorities, wall_border, PriorityLayout};

fn def(firstchar: u16, size: u8) -> objdeftype {
    objdeftype {
        think: 0,
        contact: 0,
        solid: 0,
        firstchar,
        size,
        stages: 1,
        dirmask: 0,
        speed: 0,
        hitpoints: 0,
        damage: 0,
        points: 0,
        filler: [0, 0],
    }
}

#[test]
fn control_panel_starts_zeroed() {
    let c = CpanelState::default();
    assert_eq!(c.oldgrmode, grtype::text);
    assert_eq!((c.image.shapeptr, c.image.maskptr, c.image.xh, c.image.name), (0, 0, 0, [0; 12]));
    assert!(c.spritetable.iter().all(|s| s.width == 0 && s.shapeptr == 0 && s.name == [0; 12]));
    assert!(c.pictable.iter().all(|p| p.shapeptr == 0 && p.name == [0; 8]));
}

#[test]
fn help_pages_in_order() {
    let first = help_text(0).unwrap();
    assert!(first.starts_with(b"  C A T A C O M B   \n"));
    assert!(help_text(3).unwrap().ends_with(b"fighting retreats.  \n"));
    assert!(help_text(5).unwrap().ends_with(b"mobbed by monsters! \n\n"));
    assert!(help_text(6).is_none());
    assert_eq!(help_next(0, b' ' as i32), Some(1));
    assert_eq!(help_next(4, 13), Some(5));
    assert_eq!(help_next(5, b' ' as i32), None);
    assert_eq!(help_next(2, 27), None);
}

#[test]
fn function_keys() {
    assert_eq!(fkey_action(SDL_SCANCODE_F1), Some(FKey::Help));
    assert_eq!(fkey_action(SDL_SCANCODE_F1 + 1), Some(FKey::ControlPanel));
    assert_eq!(fkey_action(SDL_SCANCODE_F1 + 2), Some(FKey::ResetGame));
    assert_eq!(fkey_action(SDL_SCANCODE_F1 + 3), Some(FKey::SaveGame));
    assert_eq!(fkey_action(SDL_SCANCODE_F1 + 4), Some(FKey::LoadGame));
    assert_eq!(fkey_action(SDL_SCANCODE_F1 + 5), None);
    assert_eq!(fkey_action(SDL_SCANCODE_F1 + 8), Some(FKey::Pause));
    assert_eq!(fkey_action(SDL_SCANCODE_F10), Some(FKey::Quit));
    assert_eq!(fkey_action(SDL_SCANCODE_ESCAPE), Some(FKey::Quit));
    assert_eq!(fkey_action(4), None);
    assert!(answer_is_yes(b'Y' as i32));
    assert!(answer_is_yes(b'y' as i32));
    assert!(!answer_is_yes(b'n' as i32));
}

#[test]
fn priorities_of_tiles() {
    let mut objdef = vec![def(0, 1); 8];
    objdef[1] = def(300, 2); // player
    objdef[2] = def(200, 1); // teleporter
    objdef[3] = def(220, 1); // dead2
    objdef[4] = def(230, 2); // dead5
    objdef[5] = def(400, 2); // big shot
    let l = PriorityLayout {
        blankfloor: 128,
        tile2s: 256,
        maxpics: 500,
        teleporter: 2,
        dead2: 3,
        dead5: 4,
        bigshot: 5,
        player: 1,
    };
    let p = object_priorities(&objdef, l, 520);
    assert_eq!(p.len(), 520);
    assert_eq!((p[0], p[127], p[128], p[129]), (3, 3, 0, 3));
    assert_eq!((p[152], p[161], p[162], p[167]), (2, 2, 3, 1));
    assert_eq!((p[200], p[220], p[221], p[222]), (0, 0, 0, 3));
    assert_eq!((p[230], p[234], p[235]), (0, 0, 3));
    assert_eq!((p[256], p[300], p[363], p[364]), (4, 5, 5, 4));
    assert_eq!((p[400], p[431], p[432], p[500], p[501]), (2, 2, 4, 4, 99));
}

#[test]
fn tile_map_walled_in() {
    let mut view = vec![0i32; 87 * 86];
    let mut background = vec![0i32; 86 * 86];
    wall_border(&mut view, &mut background, 129, 11, 11);
    assert_eq!(view[0], 129);
    assert_eq!(view[40 * 86 + 10], 129);
    assert_eq!(view[40 * 86 + 11], 0);
    assert_eq!(view[40 * 86 + 75], 129);
    assert_eq!(view[40 * 86 + 74], 0);
    assert_eq!(view[10 * 86 + 40], 129);
    assert_eq!(view[11 * 86 + 40], 0);
    assert_eq!(view[75 * 86 + 40], 129);
    assert_eq!(view[86 * 86 + 40], 129);
    assert_eq!(background[75 * 86 + 40], 129);
    assert_eq!(background[74 * 86 + 40], 0);
}
