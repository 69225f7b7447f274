use classic_games::catacomb_ii::pcrlib_a::{
    initrnd, initrndt, rnd, rndt, speaker_callback, ContinueSound, PauseSound, PlaySound,
    StartupSound, VBLCallback, WaitVBL, VblSemaphore, EGA, _SDL_PCService, _SDL_PCStopSound,
    _SDL_turnOffPCSpeaker, _SDL_turnOnPCSpeaker,
};
use classic_games::catacomb_ii::pcrlib_a_state::PcrlibAState;
use classic_games::catacomb_ii::sound_type::soundtype;
use classic_games::catacomb_ii::spkr_table::SPKRtable;

/// A sound file with two headers: sound 1 of three samples (100, 0, 200)
/// at priority 4 and sample rate 2, and the end marker.
fn sound_file() -> Vec<u8> {
    let mut bytes = vec![0u8; 1024];
    bytes[16] = 0x00;
    bytes[17] = 0x04;
    bytes[18] = 4;
    bytes[19] = 2;
    bytes[32] = 0x06;
    bytes[33] = 0x04;
    bytes.extend_from_slice(&[100, 0, 0, 0, 200, 0]);
    bytes
}

fn sound_state() -> PcrlibAState {
    let mut pas = PcrlibAState::new();
    pas.inner.SoundData = SPKRtable::deserialize(&sound_file()).unwrap();
    StartupSound(Some(48000), &mut pas);
    pas
}

#[test]
fn ega_combines_the_four_planes() {
    assert_eq!(EGA(&[0b1000_0000, 0, 0b1000_0000, 0], 7), 5);
    assert_eq!(EGA(&[0, 1, 1, 1], 0), 14);
    assert_eq!(EGA(&[0xff, 0xff, 0xff, 0xff], 3), 15);
    assert_eq!(EGA(&[0, 0, 0, 0], 3), 0);
}

#[test]
fn sound_file_is_read() {
    let table = SPKRtable::deserialize(&sound_file()).unwrap();
    assert_eq!(table.sounds.len(), 63);
    assert_eq!((table.sounds[0].start, table.sounds[0].priority), (1024, 4));
    assert_eq!(table.sounds[1].start, 1030);
    assert_eq!(table.freqdata, vec![100, 0, 200]);
    assert!(SPKRtable::deserialize(&[0u8; 1023]).is_none());
}

#[test]
fn startup_sets_the_tick_length() {
    let pas = sound_state();
    assert_eq!(pas.inner.AudioSpecFreq, 48000);
    assert_eq!(pas.inner.pcSamplesPerTick, 48000 / 145);
    assert_eq!(pas.inner.soundmode, soundtype::spkr);
    let mut silent = PcrlibAState::new();
    StartupSound(None, &mut silent);
    assert!(silent._dontplay);
    assert_eq!(silent.inner.soundmode, soundtype::off);
}

#[test]
fn playing_a_sound_steps_through_its_samples() {
    let mut pas = sound_state();
    PlaySound(1, &mut pas);
    assert_eq!(pas.inner.pcSound, Some(0));
    assert_eq!(pas.inner.pcLengthLeft, 3);
    assert_eq!(pas.inner.SndPriority, 4);
    // 48000 / ((1193181 * 2) >> 16) = 48000 / 36.
    assert_eq!(pas.inner.pcSamplesPerTick, 1333);
    _SDL_PCService(&mut pas.inner);
    assert!(pas.inner.pcActive);
    assert_eq!(pas.inner.pcPhaseLength, 100 * 48000 / (2 * 1193181));
    assert_eq!((pas.inner.pcSound, pas.inner.pcLengthLeft), (Some(1), 2));
    _SDL_PCService(&mut pas.inner);
    assert!(!pas.inner.pcActive);
    _SDL_PCService(&mut pas.inner);
    assert_eq!(pas.inner.pcSound, None);
    assert_eq!(pas.inner.SndPriority, 0);
    assert!(!pas.inner.pcActive);
    _SDL_PCService(&mut pas.inner);
    assert_eq!(pas.inner.pcSound, None);
}

#[test]
fn lower_priority_sound_is_not_played() {
    let mut pas = sound_state();
    pas.inner.SndPriority = 5;
    PlaySound(1, &mut pas);
    assert_eq!(pas.inner.pcSound, None);
    let mut off = sound_state();
    off._dontplay = true;
    PlaySound(1, &mut off);
    assert_eq!(off.inner.pcSound, None);
}

#[test]
fn pause_then_continue_resumes_the_sound() {
    let mut pas = sound_state();
    PlaySound(1, &mut pas);
    _SDL_PCService(&mut pas.inner);
    PauseSound(&mut pas);
    assert_eq!(pas.inner.pcSound, None);
    assert_eq!(pas.inner.SndPriority, 0);
    assert!(!pas.inner.pcActive);
    ContinueSound(&mut pas);
    assert_eq!(pas.inner.pcSound, Some(1));
    assert_eq!(pas.inner.pcLengthLeft, 2);
    assert_eq!(pas.inner.SndPriority, 4);
    assert_eq!(pas.inner.pcSamplesPerTick, 1333);
    assert_eq!(pas.inner.pcLastSample, 0);
}

#[test]
fn stopping_forgets_the_sound() {
    let mut pas = sound_state();
    PlaySound(1, &mut pas);
    _SDL_PCStopSound(&mut pas);
    assert_eq!(pas.inner.pcSound, None);
}

#[test]
fn speaker_switches() {
    let mut pas = sound_state();
    _SDL_turnOnPCSpeaker(1000, &mut pas.inner);
    assert!(pas.inner.pcActive);
    assert_eq!(pas.inner.pcPhaseLength, 1000 * 48000 / 2386362);
    pas.inner.pcPhaseTick = 7;
    _SDL_turnOffPCSpeaker(&mut pas.inner);
    assert!(!pas.inner.pcActive);
    assert_eq!(pas.inner.pcPhaseTick, 0);
}

#[test]
fn speaker_output_is_a_square_wave() {
    let mut pas = sound_state();
    pas.inner.pcActive = true;
    pas.inner.pcPhaseLength = 1;
    pas.inner.pcPhaseTick = 0;
    pas.inner.pcSamplesPerTick = 100;
    let mut out = [0i16; 4];
    speaker_callback(&mut pas.inner, &mut out);
    assert_eq!(out, [5000, 5000, -5000, -5000]);
    let mut quiet = sound_state();
    quiet.inner.soundmode = soundtype::off;
    let mut out = [7i16; 3];
    speaker_callback(&mut quiet.inner, &mut out);
    assert_eq!(out, [0, 0, 0]);
}

#[test]
fn random_numbers_from_the_fixed_seed() {
    let mut pas = PcrlibAState::new();
    initrnd(false, &mut pas);
    let values: Vec<i32> = (0..5).map(|_| rnd(100, &mut pas)).collect();
    assert_eq!(values, vec![30, 57, 4, 73, 79]);
    let bits: Vec<i32> = (0..5).map(|_| rnd(1, &mut pas)).collect();
    assert_eq!(bits, vec![0, 1, 1, 0, 0]);
    assert_eq!(rnd(0, &mut pas), 0);
}

#[test]
fn random_numbers_stay_in_range() {
    let mut pas = PcrlibAState::new();
    initrnd(true, &mut pas);
    for max in [1u16, 7, 100, 1000, 0xffff] {
        for _ in 0..50 {
            let v = rnd(max, &mut pas);
            assert!(0 <= v && v <= max as i32);
        }
    }
}

#[test]
fn table_random_numbers() {
    let mut pas = PcrlibAState::new();
    initrndt(false, &mut pas);
    assert_eq!(pas.rndindex, 0);
    let values: Vec<i32> = (0..3).map(|_| rndt(&mut pas)).collect();
    assert_eq!(values, vec![8, 109, 220]);
    pas.rndindex = 255;
    assert_eq!(rndt(&mut pas), 0);
}

#[test]
fn vertical_blank_signal_and_wait() {
    let mut sem = VblSemaphore::new();
    assert!(!WaitVBL(&mut sem));
    assert_eq!(VBLCallback(&mut sem), 14);
    assert_eq!(VBLCallback(&mut sem), 14);
    assert!(WaitVBL(&mut sem));
    assert!(WaitVBL(&mut sem));
    assert!(!WaitVBL(&mut sem));
    assert_eq!(sem.pending, 0);
}

#[test]
fn sound_names_are_read() {
    let mut bytes = sound_file();
    bytes[20..24].copy_from_slice(b"SHOT");
    bytes[31] = 0xff;
    let table = SPKRtable::deserialize(&bytes).unwrap();
    assert_eq!(&table.sounds[0].name[0..4], &[83, 72, 79, 84]);
    assert_eq!(table.sounds[0].name[4], 0);
    assert_eq!(table.sounds[0].name[11], -1);
    assert_eq!(table.sounds[1].name, [0i8; 12]);
}

#[test]
fn disabled_sound_ignores_any_number() {
    let mut off = PcrlibAState::new();
    off._dontplay = true;
    let before_priority = off.inner.SndPriority;
    PlaySound(0, &mut off);
    PlaySound(500, &mut off);
    assert_eq!(off.inner.pcSound, None);
    assert_eq!(off.inner.SndPriority, before_priority);
}
