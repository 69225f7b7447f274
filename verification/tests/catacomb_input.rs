use classic_games::catacomb_ii::control_struct::ControlStruct;
use classic_games::catacomb_ii::ctl_panel_type::ctlpaneltype;
use classic_games::catacomb_ii::demo_enum::demoenum;
use classic_games::catacomb_ii::dir_type::dirtype;
use classic_games::catacomb_ii::gr_type::grtype;
use classic_games::catacomb_ii::input_type::inputtype;
use classic_games::catacomb_ii::pcrlib_a_state::PcrlibAState;
use classic_games::catacomb_ii::pcrlib_c::{
    apply_ctlpanel, bioskey_pending, bioskey_polled, clear_keydown, control_source,
    ctlpanel_from_settings, decode_demo_byte, default_ctrls, dir_from_moves, encode_demo_byte,
    initials_key, mouse_capture_wanted, parse_i32, parse_video_args, play_demo_control,
    record_demo_control, select_grmode, update_rect, ControlJoystick, ControlKBD, ControlMouse,
    ControlPlayer, ControlSource, DeviceReading, InputEvent, LoadDemo, ProbeJoysticks,
    ProcessEvents, RecordDemo, SaveDemo, ScancodeToDOS, ShutdownJoysticks, UiAction, VideoArgs,
    VideoArgsError, WatchUIEvents,
};
use classic_games::catacomb_ii::pcrlib_c_state::PcrlibCState;
use classic_games::catacomb_ii::scan_codes::{
    SDL_SCANCODE_DOWN, SDL_SCANCODE_LALT, SDL_SCANCODE_LCTRL, SDL_SCANCODE_LEFT,
    SDL_SCANCODE_RIGHT, SDL_SCANCODE_UP,
};
use classic_games::catacomb_ii::sound_type::soundtype;

fn keyboard_state() -> (PcrlibAState, PcrlibCState) {
    let mut pas = PcrlibAState::new();
    let mut pcs = PcrlibCState::new();
    default_ctrls(&mut pas, &mut pcs);
    (pas, pcs)
}

/// A scan code map in which DOS code `i` is SDL code `i + 1000`, except
/// for the keys that the default controls use.
fn scan_map() -> [u32; 128] {
    let mut map = [0u32; 128];
    for (i, m) in map.iter_mut().enumerate() {
        *m = i as u32 + 1000;
    }
    map[72] = SDL_SCANCODE_UP;
    map[80] = SDL_SCANCODE_DOWN;
    map[75] = SDL_SCANCODE_LEFT;
    map[77] = SDL_SCANCODE_RIGHT;
    map[73] = 75;
    map[81] = 78;
    map[79] = 77;
    map[71] = 74;
    map[29] = SDL_SCANCODE_LCTRL;
    map[56] = SDL_SCANCODE_LALT;
    map
}

#[test]
fn directions_from_moves() {
    assert_eq!(dir_from_moves(0, -1), dirtype::north);
    assert_eq!(dir_from_moves(1, -1), dirtype::northeast);
    assert_eq!(dir_from_moves(-1, 1), dirtype::southwest);
    assert_eq!(dir_from_moves(0, 0), dirtype::nodir);
    assert_eq!(dir_from_moves(-1, 0), dirtype::west);
}

#[test]
fn keyboard_controls() {
    let (_pas, mut pcs) = keyboard_state();
    assert_eq!(ControlKBD(&pcs).dir, dirtype::nodir);
    pcs.keydown[SDL_SCANCODE_UP as usize] = true;
    pcs.keydown[SDL_SCANCODE_RIGHT as usize] = true;
    pcs.keydown[SDL_SCANCODE_LALT as usize] = true;
    let c = ControlKBD(&pcs);
    assert_eq!(c, ControlStruct { dir: dirtype::northeast, button1: false, button2: true });
    pcs.keydown[SDL_SCANCODE_DOWN as usize] = true;
    assert_eq!(ControlKBD(&pcs).dir, dirtype::southeast);
}

#[test]
fn mouse_controls() {
    let (_pas, mut pcs) = keyboard_state();
    pcs.mouseEvent = true;
    let c = ControlMouse(10, -2, true, false, &pcs);
    assert_eq!(c, ControlStruct { dir: dirtype::east, button1: true, button2: false });
    assert_eq!(ControlMouse(-6, 6, false, false, &pcs).dir, dirtype::southwest);
    pcs.mouseEvent = false;
    assert_eq!(ControlMouse(10, 10, false, true, &pcs).dir, dirtype::nodir);
}

#[test]
fn joystick_controls() {
    let (_pas, pcs) = keyboard_state();
    assert_eq!(ControlJoystick(1, 0, 0, false, false, &pcs).dir, dirtype::nodir);
    assert_eq!(ControlJoystick(1, 70, 40, true, false, &pcs).dir, dirtype::east);
    assert_eq!(ControlJoystick(2, 10, 10, false, true, &pcs).dir, dirtype::northwest);
    assert_eq!(ControlJoystick(2, 40, 40, false, false, &pcs).dir, dirtype::nodir);
}

#[test]
fn demo_bytes_round_trip() {
    let c = ControlStruct { dir: dirtype::southwest, button1: true, button2: false };
    let b = encode_demo_byte(c);
    assert_eq!(b, 6 * 4 + 1);
    assert_eq!(decode_demo_byte(b), c);
    let n = ControlStruct { dir: dirtype::nodir, button1: true, button2: true };
    assert_eq!(encode_demo_byte(n), 35);
    assert_eq!(decode_demo_byte(35), n);
}

#[test]
fn record_then_play_a_demo() {
    let (_pas, mut pcs) = keyboard_state();
    pcs.level = 3;
    let mut indemo = demoenum::notdemo;
    RecordDemo(&mut indemo, &mut pcs);
    assert_eq!((indemo, pcs.demoptr, pcs.demobuffer[0]), (demoenum::recording, 1, 3));
    let moves = [
        ControlStruct { dir: dirtype::north, button1: false, button2: false },
        ControlStruct { dir: dirtype::west, button1: true, button2: true },
    ];
    for m in moves {
        record_demo_control(m, &mut pcs);
    }
    let saved = SaveDemo(&mut indemo, &pcs);
    assert_eq!(indemo, demoenum::notdemo);
    assert_eq!(saved, vec![3, 0, 15]);
    let mut other = PcrlibCState::new();
    LoadDemo(&saved, &mut indemo, &mut other);
    assert_eq!((indemo, other.level, other.demoptr), (demoenum::demoplay, 3, 1));
    assert_eq!(other.demobuffer.len(), 5000);
    assert_eq!(other.demobuffer[3], 0);
    assert_eq!(play_demo_control(&mut other), moves[0]);
    assert_eq!(play_demo_control(&mut other), moves[1]);
}

#[test]
fn control_player_by_source() {
    let (_pas, mut pcs) = keyboard_state();
    pcs.playermode[1] = inputtype::joystick1;
    let reading = DeviceReading { x: 70, y: 10, button1: true, button2: false };
    assert_eq!(control_source(1, demoenum::notdemo, &pcs), ControlSource::Joystick(1));
    assert_eq!(control_source(2, demoenum::notdemo, &pcs), ControlSource::Joystick(1));
    assert_eq!(control_source(1, demoenum::demoplay, &pcs), ControlSource::Demo);
    let c = ControlPlayer(1, demoenum::notdemo, reading, &mut pcs);
    assert_eq!(c, ControlStruct { dir: dirtype::northeast, button1: true, button2: false });
    assert_eq!(pcs.demoptr, 0);
    pcs.playermode[1] = inputtype::keyboard;
    pcs.keydown[SDL_SCANCODE_LEFT as usize] = true;
    pcs.demoptr = 1;
    let c = ControlPlayer(1, demoenum::recording, reading, &mut pcs);
    assert_eq!(c.dir, dirtype::west);
    assert_eq!((pcs.demoptr, pcs.demobuffer[1]), (2, 12));
    pcs.demoptr = 1;
    let played = ControlPlayer(1, demoenum::demoplay, reading, &mut pcs);
    assert_eq!(played, c);
}

#[test]
fn events_update_the_key_table() {
    let (_pas, mut pcs) = keyboard_state();
    pcs.mouseEvent = true;
    let actions = ProcessEvents(
        &[InputEvent::KeyDown(30), InputEvent::KeyDown(31), InputEvent::KeyUp(30)],
        &mut pcs,
    );
    assert_eq!(actions, vec![UiAction::Nothing; 3]);
    assert!(!pcs.keydown[30] && pcs.keydown[31]);
    assert_eq!(pcs.lastkey, 31);
    assert!(!pcs.mouseEvent);
    ProcessEvents(&[InputEvent::MouseMotion], &mut pcs);
    assert!(pcs.mouseEvent);
}

#[test]
fn events_stop_at_quit() {
    let (_pas, mut pcs) = keyboard_state();
    let actions = ProcessEvents(
        &[InputEvent::Other, InputEvent::Quit, InputEvent::KeyDown(40)],
        &mut pcs,
    );
    assert_eq!(actions, vec![UiAction::Nothing, UiAction::Quit]);
    assert!(!pcs.keydown[40]);
}

#[test]
fn focus_changes_set_the_mouse_capture() {
    let (_pas, mut pcs) = keyboard_state();
    pcs.playermode[2] = inputtype::mouse;
    assert_eq!(WatchUIEvents(InputEvent::FocusGained, &mut pcs), UiAction::SetMouseCapture(true));
    assert!(pcs.hasFocus && mouse_capture_wanted(&pcs));
    assert_eq!(WatchUIEvents(InputEvent::FocusLost, &mut pcs), UiAction::SetMouseCapture(false));
    assert!(!pcs.hasFocus);
    assert_eq!(WatchUIEvents(InputEvent::KeyDown(3), &mut pcs), UiAction::Nothing);
}

#[test]
fn bios_key_reads() {
    let (_pas, mut pcs) = keyboard_state();
    assert_eq!(bioskey_pending(1, &mut pcs), None);
    assert_eq!(bioskey_polled(1, Some(44), &mut pcs), 44);
    assert_eq!(pcs.lastkey, 44);
    assert_eq!(bioskey_pending(1, &mut pcs), Some(44));
    assert_eq!(bioskey_pending(0, &mut pcs), Some(44));
    assert_eq!(pcs.lastkey, 0);
    assert_eq!(bioskey_polled(0, None, &mut pcs), 0);
}

#[test]
fn clearing_keys_spares_the_extended_ones() {
    let (_pas, mut pcs) = keyboard_state();
    pcs.keydown[5] = true;
    pcs.keydown[200] = true;
    clear_keydown(&mut pcs);
    assert!(!pcs.keydown[5]);
    assert!(pcs.keydown[200]);
}

#[test]
fn joysticks_probed() {
    let (_pas, mut pcs) = keyboard_state();
    ProbeJoysticks(1, &mut pcs);
    assert_eq!(pcs.joystick, [None, Some(0), None]);
    ProbeJoysticks(3, &mut pcs);
    assert_eq!(pcs.joystick, [None, Some(0), Some(1)]);
    ShutdownJoysticks(&mut pcs);
    assert_eq!(pcs.joystick, [None, None, None]);
}

#[test]
fn scan_codes_to_dos() {
    let map = scan_map();
    assert_eq!(ScancodeToDOS(SDL_SCANCODE_UP, &map), 72);
    assert_eq!(ScancodeToDOS(1005, &map), 5);
    assert_eq!(ScancodeToDOS(9999, &map), 0);
}

#[test]
fn control_panel_applied() {
    let (mut pas, mut pcs) = keyboard_state();
    let mut ctl = ctlpaneltype::default();
    ctl.grmode = grtype::CGAgr;
    ctl.soundmode = soundtype::off;
    ctl.playermode = [0, 1, 3];
    ctl.JoyXlow = [1, 2, -3];
    ctl.MouseSensitivity = 9;
    ctl.key = [72, 73, 77, 81, 80, 79, 75, 71];
    ctl.keyB1 = 29;
    ctl.keyB2 = 56;
    let capture = apply_ctlpanel(&ctl, 1, &scan_map(), &mut pas, &mut pcs);
    assert_eq!(pcs.grmode, grtype::CGAgr);
    assert_eq!(pas.inner.soundmode, soundtype::off);
    // Joystick 2 is missing: player 2 falls back to the keyboard.
    assert_eq!(pcs.playermode, [inputtype::keyboard, inputtype::mouse, inputtype::keyboard]);
    assert_eq!(pcs.JoyXlow, [1, 2, -3]);
    assert_eq!(pcs.MouseSensitivity, 9);
    assert_eq!(pcs.key[0], SDL_SCANCODE_UP);
    assert_eq!(pcs.keyB1, SDL_SCANCODE_LCTRL);
    assert_eq!(capture, Some(false));
}

#[test]
fn control_panel_saved_and_loaded_back() {
    let (pas, mut pcs) = keyboard_state();
    pcs.playermode[1] = inputtype::mouse;
    pcs.JoyYhigh[2] = -70;
    let map = scan_map();
    let ctl = ctlpanel_from_settings(&pas, &pcs, &map);
    assert_eq!(ctl.key, [72, 77, 80, 75, 73, 81, 79, 71]);
    assert_eq!((ctl.keyB1, ctl.keyB2), (29, 56));
    assert_eq!(ctl.playermode, [0, 1, 2]);
    let mut bytes = Vec::new();
    ctl.serialize(&mut bytes);
    assert_eq!(bytes.len(), 46);
    let back = ctlpaneltype::deserialize(&bytes).unwrap();
    let mut pas2 = PcrlibAState::new();
    let mut pcs2 = PcrlibCState::new();
    apply_ctlpanel(&back, 1, &map, &mut pas2, &mut pcs2);
    assert_eq!(pcs2.playermode, pcs.playermode);
    assert_eq!(pcs2.key, pcs.key);
    assert_eq!((pcs2.keyB1, pcs2.keyB2), (pcs.keyB1, pcs.keyB2));
    assert_eq!(pcs2.JoyYhigh, pcs.JoyYhigh);
    assert_eq!(pcs2.MouseSensitivity, pcs.MouseSensitivity);
    assert_eq!(pcs2.grmode, pcs.grmode);
    assert_eq!(pas2.inner.soundmode, pas.inner.soundmode);
}

#[test]
fn control_panel_bytes_rejected() {
    assert!(ctlpaneltype::deserialize(&[0u8; 45]).is_none());
    let mut bytes = vec![0u8; 46];
    bytes[0] = 4;
    assert!(ctlpaneltype::deserialize(&bytes).is_none());
    bytes[0] = 3;
    bytes[2] = 3;
    assert!(ctlpaneltype::deserialize(&bytes).is_none());
    bytes[2] = 2;
    bytes[4] = 1;
    bytes[10] = 0xff;
    bytes[11] = 0xff;
    let c = ctlpaneltype::deserialize(&bytes).unwrap();
    assert_eq!((c.grmode, c.soundmode), (grtype::VGAgr, soundtype::sdlib));
    assert_eq!(c.playermode[0], 1);
    assert_eq!(c.JoyXlow[0], -1);
}

#[test]
fn typing_initials() {
    let (_pas, mut pcs) = keyboard_state();
    pcs.sx = 10;
    pcs.sy = 4;
    let mut j = 0;
    assert_eq!(initials_key(b'A' as i32, 2, &mut j, &mut pcs), (Some((10, 4, b'A')), false));
    assert_eq!(initials_key(b'B' as i32, 2, &mut j, &mut pcs), (Some((11, 4, b'B')), false));
    assert_eq!(initials_key(8, 2, &mut j, &mut pcs), (None, false));
    assert_eq!((j, pcs.sx), (1, 11));
    assert_eq!(initials_key(b'C' as i32, 2, &mut j, &mut pcs), (Some((11, 4, b'C')), false));
    assert_eq!(initials_key(b'D' as i32, 2, &mut j, &mut pcs), (Some((12, 4, b'D')), false));
    assert_eq!(initials_key(b'E' as i32, 2, &mut j, &mut pcs), (None, false));
    assert_eq!(initials_key(13, 2, &mut j, &mut pcs), (None, true));
    assert_eq!(&pcs.highscores[2].initials, b"ACD");
    assert_eq!((j, pcs.sx), (3, 13));
}

#[test]
fn decimal_numbers() {
    assert_eq!(parse_i32(b"640"), Some(640));
    assert_eq!(parse_i32(b"-12"), Some(-12));
    assert_eq!(parse_i32(b"+7"), Some(7));
    assert_eq!(parse_i32(b"2147483647"), Some(i32::MAX));
    assert_eq!(parse_i32(b"-2147483648"), Some(i32::MIN));
    assert_eq!(parse_i32(b"2147483648"), None);
    assert_eq!(parse_i32(b"99999999999"), None);
    assert_eq!(parse_i32(b""), None);
    assert_eq!(parse_i32(b"-"), None);
    assert_eq!(parse_i32(b"12a"), None);
    assert_eq!(parse_i32(b" 1"), None);
}

fn args(list: &[&str]) -> Vec<Vec<u8>> {
    list.iter().map(|a| a.as_bytes().to_vec()).collect()
}

#[test]
fn video_arguments() {
    assert_eq!(
        parse_video_args(&args(&["cat"])),
        Ok(VideoArgs { windowed: false, width: 640, height: 480, display: 0 })
    );
    assert_eq!(
        parse_video_args(&args(&["cat", "windowed", "800", "600"])),
        Ok(VideoArgs { windowed: true, width: 800, height: 600, display: 0 })
    );
    assert_eq!(
        parse_video_args(&args(&["cat", "screen", "1"])),
        Ok(VideoArgs { windowed: false, width: 640, height: 480, display: 1 })
    );
    assert_eq!(
        parse_video_args(&args(&["cat", "windowed", "800"])),
        Err(VideoArgsError::WindowedArgCount)
    );
    assert_eq!(
        parse_video_args(&args(&["cat", "windowed", "x", "600"])),
        Err(VideoArgsError::InvalidWidth)
    );
    assert_eq!(
        parse_video_args(&args(&["cat", "windowed", "800", "y"])),
        Err(VideoArgsError::InvalidHeight)
    );
    assert_eq!(
        parse_video_args(&args(&["cat", "screen"])),
        Err(VideoArgsError::ScreenArgCount)
    );
    assert_eq!(
        parse_video_args(&args(&["cat", "screen", "one"])),
        Err(VideoArgsError::InvalidScreen)
    );
    assert_eq!(
        parse_video_args(&args(&["cat", "fullscreen"])),
        Err(VideoArgsError::UnexpectedMode)
    );
}

#[test]
fn game_image_placement() {
    assert_eq!(update_rect(320, 200), (0, 0, 320, 200));
    assert_eq!(update_rect(640, 400), (0, 0, 640, 400));
    assert_eq!(update_rect(1920, 1080), (240, 0, 1440, 1080));
    assert_eq!(update_rect(640, 480), (0, 0, 640, 480));
    assert_eq!(update_rect(800, 1080), (-320, 0, 1440, 1080));
}

#[test]
fn playable_graphics_modes() {
    assert_eq!(select_grmode(grtype::VGAgr), grtype::EGAgr);
    assert_eq!(select_grmode(grtype::EGAgr), grtype::EGAgr);
    assert_eq!(select_grmode(grtype::CGAgr), grtype::CGAgr);
    assert_eq!(select_grmode(grtype::text), grtype::CGAgr);
}
