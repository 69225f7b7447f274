use vstd::prelude::*;

use crate::catacomb_ii::cpanel_state::CpanelState;
use crate::catacomb_ii::gr_type::grtype;
use crate::catacomb_ii::pcrlib_a_state::{PcrlibAState, PcrlibAStateExclusive, SavedSoundStruct};
use crate::catacomb_ii::pcrlib_c_state::PcrlibCState;
use crate::catacomb_ii::screen::{blit, blitted, box_ok, screenpitch, source_ok, Source};
use crate::catacomb_ii::sound_type::soundtype;
use crate::catacomb_ii::spkr_table::SPKRtable;
use crate::int_math::div_trunc;

verus! {

/// The bit of `b` at position `ofs` (0 is the least significant bit).
pub open spec fn bit_at(b: u8, ofs: u8) -> u8 {
    (b >> ofs) & 1
}

/// Combines the bit at position `ofs` of the four EGA planes into a 4-bit
/// colour index: plane 3 gives bit 3, ..., plane 0 gives bit 0.
pub fn EGA(chan: &[u8], ofs: u8) -> (r: u8)
    requires
        chan.len() >= 4,
        ofs < 8,
    ensures
        r == 8 * bit_at(chan[3], ofs) + 4 * bit_at(chan[2], ofs) + 2 * bit_at(chan[1], ofs)
            + bit_at(chan[0], ofs),
        r < 16,
{
    let c0 = chan[0];
    let c1 = chan[1];
    let c2 = chan[2];
    let c3 = chan[3];
    let r = (c3 >> ofs & 1) << 3 | (c2 >> ofs & 1) << 2 | (c1 >> ofs & 1) << 1 | (c0 >> ofs & 1) << 0;
    assert(r == 8 * ((c3 >> ofs) & 1) + 4 * ((c2 >> ofs) & 1) + 2 * ((c1 >> ofs) & 1) + ((c0 >> ofs) & 1)
        && r < 16) by (bit_vector)
        requires
            ofs < 8,
            r == (c3 >> ofs & 1) << 3 | (c2 >> ofs & 1) << 2 | (c1 >> ofs & 1) << 1 | (c0 >> ofs & 1) << 0,
    ;
    r
}


/// The frequency of the PC's programmable interval timer, in Hz.
pub const PC_BASE_TIMER: u32 = 1193181;

/// The speaker state is consistent: a playing sound has samples left, all of
/// them inside the frequency data (and likewise for a paused sound), and the
/// output frequency is small enough for every phase length computation.
pub open spec fn sound_ok(s: PcrlibAStateExclusive) -> bool {
    &&& s.pcSound matches Some(i) ==> s.pcLengthLeft > 0 && i + s.pcLengthLeft
        <= s.SoundData.freqdata@.len()
    &&& s.SavedSound.pcSound matches Some(i) ==> s.SavedSound.pcLengthLeft > 0 && i
        + s.SavedSound.pcLengthLeft <= s.SoundData.freqdata@.len()
    &&& 0 <= s.AudioSpecFreq <= 65537
}

/// The speaker starts a square wave for the timer divisor `pcSample`.
pub open spec fn speaker_on(s: PcrlibAStateExclusive, pcSample: u16) -> PcrlibAStateExclusive {
    PcrlibAStateExclusive {
        pcPhaseLength: (pcSample as int * (s.AudioSpecFreq as u32) as int / (2
            * PC_BASE_TIMER) as int) as u32,
        pcActive: true,
        ..s
    }
}

/// The speaker is silenced.
pub open spec fn speaker_off(s: PcrlibAStateExclusive) -> PcrlibAStateExclusive {
    PcrlibAStateExclusive { pcActive: false, pcPhaseTick: 0, ..s }
}

/// One timer tick of the sound being played: the next sample is sent to the
/// speaker (when it differs from the last one), and the sound ends after
/// its last sample.
pub open spec fn pc_service(s: PcrlibAStateExclusive) -> PcrlibAStateExclusive {
    match s.pcSound {
        None => s,
        Some(i) => {
            let cur = s.SoundData.freqdata@[i as int];
            let s1 = if cur != s.pcLastSample {
                let s0 = PcrlibAStateExclusive { pcLastSample: cur, ..s };
                if cur != 0 {
                    speaker_on(s0, cur)
                } else {
                    speaker_off(s0)
                }
            } else {
                s
            };
            let s2 = PcrlibAStateExclusive {
                pcSound: Some((i + 1) as usize),
                pcLengthLeft: (s1.pcLengthLeft - 1) as u32,
                ..s1
            };
            if s2.pcLengthLeft == 0 {
                speaker_off(PcrlibAStateExclusive { pcSound: None, SndPriority: 0, ..s2 })
            } else {
                s2
            }
        },
    }
}

/// Sound `sound_i` can be started: it and the next header exist, its data
/// lies inside the frequency data and holds at least one sample, and its
/// sample rate gives a nonzero tick length.
pub open spec fn sound_playable(t: SPKRtable, sound_i: i32) -> bool {
    &&& 1 <= sound_i < t.sounds@.len()
    &&& t.sounds@[sound_i - 1].start >= 1024
    &&& t.sounds@[sound_i - 1].start + 2 <= t.sounds@[sound_i as int].start
    &&& t.sounds@[sound_i - 1].samplerate >= 1
    &&& (t.sounds@[sound_i - 1].start - 1024) / 2 + (t.sounds@[sound_i as int].start
        - t.sounds@[sound_i - 1].start) / 2 <= t.freqdata@.len()
}

/// The state after starting sound `sound_i`: its samples start at the
/// header's offset into the frequency data, it lasts half the distance to the
/// next sound's data (one sample is two bytes), and it takes the header's
/// priority and the tick length that its sample rate gives.
pub open spec fn pc_play(s: PcrlibAStateExclusive, sound_i: i32) -> PcrlibAStateExclusive {
    let prev = s.SoundData.sounds@[sound_i - 1];
    let next = s.SoundData.sounds@[sound_i as int];
    PcrlibAStateExclusive {
        pcPhaseTick: 0,
        pcLastSample: 0,
        pcLengthLeft: ((next.start - prev.start) / 2) as u32,
        pcSound: Some(((prev.start - 1024) / 2) as usize),
        SndPriority: prev.priority,
        pcSamplesPerTick: div_trunc(
            s.AudioSpecFreq as int,
            (PC_BASE_TIMER * prev.samplerate) as int / 65536,
        ) as u32,
        ..s
    }
}

/// Starts the speaker tone for a PIT divisor: the half-period in output
/// samples becomes `divisor * freq / (2 * PC_BASE_TIMER)`.
#[verifier::rlimit(20)]
pub fn _SDL_turnOnPCSpeaker(pcSample: u16, pas: &mut PcrlibAStateExclusive)
    requires
        0 <= old(pas).AudioSpecFreq <= 65537,
    ensures
        *final(pas) == speaker_on(*old(pas), pcSample),
{
    let freq = pas.AudioSpecFreq as u32;
    assert(pcSample as u32 * freq <= u32::MAX) by (nonlinear_arith)
        requires
            pcSample <= 65535,
            freq <= 65537,
    ;
    pas.pcPhaseLength = pcSample as u32 * freq / (2 * PC_BASE_TIMER);
    pas.pcActive = true;
}

/// Silences the speaker and restarts its phase.
pub fn _SDL_turnOffPCSpeaker(pas: &mut PcrlibAStateExclusive)
    ensures
        *final(pas) == speaker_off(*old(pas)),
{
    pas.pcActive = false;
    pas.pcPhaseTick = 0;
}

/// One timer tick of the speaker emulation (see `pc_service`).
pub fn _SDL_PCService(pas: &mut PcrlibAStateExclusive)
    requires
        sound_ok(*old(pas)),
    ensures
        *final(pas) == pc_service(*old(pas)),
        sound_ok(*final(pas)),
{
    if let Some(pcSound) = pas.pcSound {
        let len = pas.SoundData.freqdata.len();
        let pcCurrSample = pas.SoundData.freqdata[pcSound];
        assert(pcSound + 1 <= len);
        if pcCurrSample != pas.pcLastSample {
            pas.pcLastSample = pcCurrSample;
            if pas.pcLastSample != 0 {
                _SDL_turnOnPCSpeaker(pas.pcLastSample, pas);
            } else {
                _SDL_turnOffPCSpeaker(pas);
            }
        }
        pas.pcSound = Some(pcSound + 1);
        pas.pcLengthLeft -= 1;
        if pas.pcLengthLeft == 0 {
            pas.pcSound = None;
            pas.SndPriority = 0;
            _SDL_turnOffPCSpeaker(pas);
        }
    }
}

/// Starts sound `sound_i` (see `pc_play`).
pub fn _SDL_PCPlaySound(sound_i: i32, pas: &mut PcrlibAStateExclusive)
    requires
        sound_playable(old(pas).SoundData, sound_i),
    ensures
        *final(pas) == pc_play(*old(pas), sound_i),
        sound_ok(*old(pas)) ==> sound_ok(*final(pas)),
{
    let prev = pas.SoundData.sounds[(sound_i - 1) as usize];
    let next = pas.SoundData.sounds[sound_i as usize];
    pas.pcPhaseTick = 0;
    pas.pcLastSample = 0;
    let diff: i32 = next.start as i32 - prev.start as i32;
    assert(diff >> 1 == diff / 2) by (bit_vector)
        requires
            diff >= 0,
    ;
    pas.pcLengthLeft = (diff >> 1) as u32;
    let sound_data_i = prev.start as usize - SPKRtable::start_of_freqdata();
    pas.pcSound = Some(sound_data_i / 2);
    pas.SndPriority = prev.priority;
    let rate = prev.samplerate as i32;
    let prod: i32 = 1193181 * rate;
    let ticks: i32 = prod >> 16;
    assert(ticks == prod / 65536) by (bit_vector)
        requires
            0 <= prod,
            ticks == prod >> 16,
    ;
    assert(ticks >= 18);
    let q: i32 = pas.AudioSpecFreq / ticks;
    assert(q == div_trunc(pas.AudioSpecFreq as int, ticks as int));
    pas.pcSamplesPerTick = #[verifier::truncate] (q as u32);
}

/// Stops the sound being played (the speaker is left as it is).
pub fn _SDL_PCStopSound(pasx: &mut PcrlibAState)
    ensures
        final(pasx).inner == (PcrlibAStateExclusive { pcSound: None, ..old(pasx).inner }),
        final(pasx)._dontplay == old(pasx)._dontplay,
        final(pasx).rndindex == old(pasx).rndindex,
        final(pasx).indexi == old(pasx).indexi,
        final(pasx).indexj == old(pasx).indexj,
        final(pasx).LastRnd == old(pasx).LastRnd,
        final(pasx).RndArray == old(pasx).RndArray,
        sound_ok(old(pasx).inner) ==> sound_ok(final(pasx).inner),
{
    let pas = pasx.lock();
    pas.pcSound = None;
}

/// Plays sound `sound` unless sound is disabled or a sound of higher
/// priority is playing. With sound disabled nothing changes, whatever the
/// number.
pub fn PlaySound(sound: i32, pas: &mut PcrlibAState)
    requires
        !old(pas)._dontplay ==> 1 <= sound < old(pas).inner.SoundData.sounds@.len(),
        !old(pas)._dontplay && old(pas).inner.SoundData.sounds@[sound - 1].priority
            >= old(pas).inner.SndPriority ==> sound_playable(old(pas).inner.SoundData, sound),
    ensures
        final(pas).inner == if !old(pas)._dontplay && old(pas).inner.SoundData.sounds@[sound
            - 1].priority >= old(pas).inner.SndPriority {
            pc_play(old(pas).inner, sound)
        } else {
            old(pas).inner
        },
        final(pas)._dontplay == old(pas)._dontplay,
        final(pas).rndindex == old(pas).rndindex,
        final(pas).indexi == old(pas).indexi,
        final(pas).indexj == old(pas).indexj,
        final(pas).LastRnd == old(pas).LastRnd,
        final(pas).RndArray == old(pas).RndArray,
        sound_ok(old(pas).inner) ==> sound_ok(final(pas).inner),
{
    if pas._dontplay {
        return;
    }
    let pasx = pas.lock();
    if pasx.SoundData.sounds[(sound - 1) as usize].priority as i32 >= pasx.SndPriority as i32 {
        _SDL_PCPlaySound(sound, pasx);
    }
}

/// The state after pausing: the playing sound is put aside and the speaker
/// silenced.
pub open spec fn pause_spec(s: PcrlibAStateExclusive) -> PcrlibAStateExclusive {
    speaker_off(
        PcrlibAStateExclusive {
            SavedSound: SavedSoundStruct {
                SndPriority: s.SndPriority,
                pcSamplesPerTick: s.pcSamplesPerTick,
                pcLengthLeft: s.pcLengthLeft,
                pcSound: s.pcSound,
            },
            SndPriority: 0,
            pcLengthLeft: 0,
            pcSound: None,
            ..s
        },
    )
}

/// The state after continuing: the sound put aside is played again from
/// where it stopped.
pub open spec fn continue_spec(s: PcrlibAStateExclusive) -> PcrlibAStateExclusive {
    PcrlibAStateExclusive {
        pcPhaseTick: 0,
        pcLastSample: 0,
        SndPriority: s.SavedSound.SndPriority,
        pcSamplesPerTick: s.SavedSound.pcSamplesPerTick,
        pcLengthLeft: s.SavedSound.pcLengthLeft,
        pcSound: s.SavedSound.pcSound,
        ..s
    }
}

/// Puts the playing sound aside (unless sound is disabled).
pub fn PauseSound(pas: &mut PcrlibAState)
    ensures
        final(pas).inner == if old(pas)._dontplay {
            old(pas).inner
        } else {
            pause_spec(old(pas).inner)
        },
        final(pas)._dontplay == old(pas)._dontplay,
        final(pas).rndindex == old(pas).rndindex,
        final(pas).indexi == old(pas).indexi,
        final(pas).indexj == old(pas).indexj,
        final(pas).LastRnd == old(pas).LastRnd,
        final(pas).RndArray == old(pas).RndArray,
        sound_ok(old(pas).inner) ==> sound_ok(final(pas).inner),
{
    if pas._dontplay {
        return;
    }
    let pasx = pas.lock();
    pasx.SavedSound.SndPriority = pasx.SndPriority;
    pasx.SavedSound.pcSamplesPerTick = pasx.pcSamplesPerTick;
    pasx.SavedSound.pcLengthLeft = pasx.pcLengthLeft;
    pasx.SavedSound.pcSound = pasx.pcSound;
    pasx.SndPriority = 0;
    pasx.pcLengthLeft = 0;
    pasx.pcSound = None;
    _SDL_turnOffPCSpeaker(pasx);
}

/// Resumes the sound put aside by `PauseSound` (unless sound is disabled).
pub fn ContinueSound(pas: &mut PcrlibAState)
    ensures
        final(pas).inner == if old(pas)._dontplay {
            old(pas).inner
        } else {
            continue_spec(old(pas).inner)
        },
        final(pas)._dontplay == old(pas)._dontplay,
        final(pas).rndindex == old(pas).rndindex,
        final(pas).indexi == old(pas).indexi,
        final(pas).indexj == old(pas).indexj,
        final(pas).LastRnd == old(pas).LastRnd,
        final(pas).RndArray == old(pas).RndArray,
        sound_ok(old(pas).inner) ==> sound_ok(final(pas).inner),
{
    if pas._dontplay {
        return;
    }
    let pasx = pas.lock();
    pasx.pcPhaseTick = 0;
    pasx.pcLastSample = 0;
    pasx.SndPriority = pasx.SavedSound.SndPriority;
    pasx.pcSamplesPerTick = pasx.SavedSound.pcSamplesPerTick;
    pasx.pcLengthLeft = pasx.SavedSound.pcLengthLeft;
    pasx.pcSound = pasx.SavedSound.pcSound;
}

/// Pausing a sound and continuing it gives back the sound that was playing:
/// its priority, tick length, remaining length and position; the speaker is
/// silent and restarts its phase.
pub proof fn lemma_pause_continue(s: PcrlibAStateExclusive)
    ensures
        ({
            let r = continue_spec(pause_spec(s));
            &&& r.SndPriority == s.SndPriority
            &&& r.pcSamplesPerTick == s.pcSamplesPerTick
            &&& r.pcLengthLeft == s.pcLengthLeft
            &&& r.pcSound == s.pcSound
            &&& r.pcPhaseTick == 0
            &&& r.pcLastSample == 0
            &&& !r.pcActive
            &&& r.pcVolume == s.pcVolume
            &&& r.pcPhaseLength == s.pcPhaseLength
            &&& r.soundmode == s.soundmode
            &&& r.AudioSpecFreq == s.AudioSpecFreq
        }),
{
}


/// One output sample of the speaker emulation: while the speaker is on it
/// outputs the current volume and flips the volume's sign once the phase
/// length has elapsed; while it is off it outputs silence.
pub open spec fn speaker_sample(s: PcrlibAStateExclusive) -> (PcrlibAStateExclusive, i16) {
    if s.pcActive {
        if s.pcPhaseTick >= s.pcPhaseLength {
            (PcrlibAStateExclusive { pcVolume: (-s.pcVolume) as i16, pcPhaseTick: 0, ..s }, s.pcVolume)
        } else {
            (PcrlibAStateExclusive { pcPhaseTick: (s.pcPhaseTick + 1) as u32, ..s }, s.pcVolume)
        }
    } else {
        (s, 0)
    }
}

/// The state and the samples produced when `n` samples are generated with
/// `ready` samples left before the next timer tick. After a tick's last
/// sample the sound advances (`pc_service`) and a new tick starts, except
/// after the buffer's last sample.
pub open spec fn speaker_fill(s: PcrlibAStateExclusive, ready: u32, n: nat) -> (
    PcrlibAStateExclusive,
    Seq<i16>,
)
    decreases n,
{
    if n == 0 {
        (s, Seq::empty())
    } else {
        let (s1, w) = speaker_sample(s);
        let ready1 = (ready - 1) as u32;
        let tick = n > 1 && ready1 == 0;
        let s2 = if tick {
            pc_service(s1)
        } else {
            s1
        };
        let ready2 = if tick {
            s2.pcSamplesPerTick
        } else {
            ready1
        };
        let (s3, rest) = speaker_fill(s2, ready2, (n - 1) as nat);
        (s3, seq![w] + rest)
    }
}

/// The speaker emulation can run: its state is consistent, a tick lasts at
/// least one sample and the volume can change sign.
pub open spec fn speaker_ok(s: PcrlibAStateExclusive) -> bool {
    &&& sound_ok(s)
    &&& s.pcSamplesPerTick > 0
    &&& s.pcVolume != i16::MIN
}

proof fn lemma_sample_keeps_ok(s: PcrlibAStateExclusive)
    requires
        speaker_ok(s),
    ensures
        speaker_ok(speaker_sample(s).0),
        speaker_sample(s).0.pcSamplesPerTick == s.pcSamplesPerTick,
{
}

proof fn lemma_service_keeps_ok(s: PcrlibAStateExclusive)
    requires
        speaker_ok(s),
    ensures
        speaker_ok(pc_service(s)),
        pc_service(s).pcSamplesPerTick == s.pcSamplesPerTick,
{
}

/// The PC speaker emulation as an audio source.
pub struct Sound {
    pub pas: PcrlibAState,
}

/// Fills `out` with speaker samples: silence unless the sound mode is the
/// speaker, otherwise the samples of `speaker_fill`, starting a new tick.
pub fn speaker_callback(pasx: &mut PcrlibAStateExclusive, out: &mut [i16])
    requires
        old(pasx).soundmode == soundtype::spkr ==> speaker_ok(*old(pasx)),
    ensures
        old(pasx).soundmode != soundtype::spkr ==> *final(pasx) == *old(pasx) && final(out)@
            == Seq::new(old(out)@.len(), |i: int| 0i16),
        old(pasx).soundmode == soundtype::spkr ==> {
            let (s, samples) = speaker_fill(
                *old(pasx),
                old(pasx).pcSamplesPerTick,
                old(out)@.len(),
            );
            &&& *final(pasx) == s
            &&& final(out)@ == samples
            &&& speaker_ok(*final(pasx))
        },
{
    let out_len = out.len();
    if pasx.soundmode != soundtype::spkr {
        let mut i: usize = 0;
        while i < out_len
            invariant
                out_len == out@.len(),
                i <= out_len,
                forall|k: int| 0 <= k < i ==> out@[k] == 0i16,
            decreases out_len - i,
        {
            out[i] = 0;
            i += 1;
        }
        assert(out@ =~= Seq::new(out_len as nat, |i: int| 0i16));
        return;
    }
    let ghost s0 = *pasx;
    let ghost total = speaker_fill(s0, s0.pcSamplesPerTick, out_len as nat);
    let mut pcNumReadySamples: u32 = pasx.pcSamplesPerTick;
    let mut i: usize = 0;
    while i < out_len
        invariant
            out_len == out@.len(),
            i <= out_len,
            speaker_ok(*pasx),
            pasx.soundmode == soundtype::spkr,
            i < out_len ==> pcNumReadySamples > 0,
            total == speaker_fill(s0, s0.pcSamplesPerTick, out_len as nat),
            total.0 == speaker_fill(*pasx, pcNumReadySamples, (out_len - i) as nat).0,
            total.1 == out@.subrange(0, i as int) + speaker_fill(
                *pasx,
                pcNumReadySamples,
                (out_len - i) as nat,
            ).1,
        decreases out_len - i,
    {
        let ghost before = *pasx;
        let ghost ready_before = pcNumReadySamples;
        proof {
            lemma_sample_keeps_ok(before);
        }
        let w: i16;
        if pasx.pcActive {
            w = pasx.pcVolume;
            if pasx.pcPhaseTick >= pasx.pcPhaseLength {
                pasx.pcVolume = -pasx.pcVolume;
                pasx.pcPhaseTick = 0;
            } else {
                pasx.pcPhaseTick += 1;
            }
        } else {
            w = 0;
        }
        out[i] = w;
        assert(*pasx == speaker_sample(before).0);
        pcNumReadySamples -= 1;
        if i < out_len - 1 {
            if pcNumReadySamples == 0 {
                proof {
                    lemma_service_keeps_ok(*pasx);
                }
                _SDL_PCService(pasx);
                pcNumReadySamples = pasx.pcSamplesPerTick;
            }
        }
        assert(total.1 =~= out@.subrange(0, (i + 1) as int) + speaker_fill(
            *pasx,
            pcNumReadySamples,
            (out_len - (i + 1)) as nat,
        ).1);
        i += 1;
    }
    assert(out@.subrange(0, out_len as int) =~= out@);
}

impl Sound {
    /// The audio callback: fills `out` with the speaker's samples.
    pub fn callback(&mut self, out: &mut [i16])
        requires
            old(self).pas.inner.soundmode == soundtype::spkr ==> speaker_ok(old(self).pas.inner),
        ensures
            old(self).pas.inner.soundmode != soundtype::spkr ==> final(self).pas.inner == old(
                self,
            ).pas.inner && final(out)@ == Seq::new(old(out)@.len(), |i: int| 0i16),
            old(self).pas.inner.soundmode == soundtype::spkr ==> {
                let (s, samples) = speaker_fill(
                    old(self).pas.inner,
                    old(self).pas.inner.pcSamplesPerTick,
                    old(out)@.len(),
                );
                &&& final(self).pas.inner == s
                &&& final(out)@ == samples
            },
    {
        let pasx = self.pas.lock();
        speaker_callback(pasx, out);
    }
}


/// The table that `rndt` steps through.
pub const rndtable: [u8; 256] = [
    0, 8, 109, 220, 222, 241, 149, 107, 75, 248, 254, 140, 16, 66, 74, 21, 211, 47, 80, 242, 154,
    27, 205, 128, 161, 89, 77, 36, 95, 110, 85, 48, 212, 140, 211, 249, 22, 79, 200, 50, 28, 188,
    52, 140, 202, 120, 68, 145, 62, 70, 184, 190, 91, 197, 152, 224, 149, 104, 25, 178, 252, 182,
    202, 182, 141, 197, 4, 81, 181, 242, 145, 42, 39, 227, 156, 198, 225, 193, 219, 93, 122, 175,
    249, 0, 175, 143, 70, 239, 46, 246, 163, 53, 163, 109, 168, 135, 2, 235, 25, 92, 20, 145, 138,
    77, 69, 166, 78, 176, 173, 212, 166, 113, 94, 161, 41, 50, 239, 49, 111, 164, 70, 60, 2, 37,
    171, 75, 136, 156, 11, 56, 42, 146, 138, 229, 73, 146, 77, 61, 98, 196, 135, 106, 63, 197, 195,
    86, 96, 203, 113, 101, 170, 247, 181, 113, 80, 250, 108, 7, 255, 237, 129, 226, 79, 107, 112,
    166, 103, 241, 24, 223, 239, 120, 198, 58, 60, 82, 128, 3, 184, 66, 143, 224, 145, 224, 81,
    206, 163, 45, 63, 90, 168, 114, 59, 33, 159, 95, 28, 139, 123, 98, 125, 196, 15, 70, 194, 253,
    54, 14, 109, 226, 71, 17, 161, 93, 186, 87, 244, 138, 20, 52, 123, 251, 26, 36, 17, 46, 52,
    231, 232, 76, 31, 221, 84, 37, 216, 165, 212, 106, 197, 242, 98, 43, 39, 175, 254, 145, 190,
    84, 118, 222, 187, 136, 120, 163, 236, 249,
];

/// The initial lagged-Fibonacci table of `rnd`.
pub const baseRndArray: [u16; 17] = [
    1, 1, 2, 3, 5, 8, 13, 21, 54, 75, 129, 204, 323, 527, 850, 1377, 2227,
];

/// `m` is the smallest all-ones bit pattern (`2^k - 1`) that covers `maxval`.
pub open spec fn is_rnd_mask(m: u16, maxval: u16) -> bool {
    &&& (m as u32) & (((m as u32) + 1) as u32) == 0
    &&& maxval <= m
    &&& (m >> 1u16) < maxval
}

/// The mask that `rnd` applies for `maxval`.
pub open spec fn rnd_mask(maxval: u16) -> u16 {
    choose|m: u16| is_rnd_mask(m, maxval)
}

/// At most one mask fits a given `maxval`.
proof fn lemma_rnd_mask_unique(m1: u16, m2: u16, maxval: u16)
    requires
        is_rnd_mask(m1, maxval),
        is_rnd_mask(m2, maxval),
    ensures
        m1 == m2,
{
    assert(m1 == m2) by (bit_vector)
        requires
            (m1 as u32) & (((m1 as u32) + 1) as u32) == 0,
            maxval <= m1,
            (m1 >> 1u16) < maxval,
            (m2 as u32) & (((m2 as u32) + 1) as u32) == 0,
            maxval <= m2,
            (m2 >> 1u16) < maxval,
    ;
}

/// The index that follows `i` in the circular walk 17, 16, ..., 1, 17, ...
pub open spec fn rnd_next_index(i: u16) -> u16 {
    if i == 1 {
        17
    } else {
        (i - 1) as u16
    }
}

/// One step of the lagged-Fibonacci generator: the entries at `indexi` and
/// `indexj` (counted from 1) are added (plus one) into the entry at
/// `indexi`, the running sum `LastRnd` grows by that sum, both indices step
/// down circularly, and the running sum, masked to `maxval`'s bit length
/// and halved when still above `maxval`, is the result. `maxval == 0` gives
/// 0 and changes nothing.
pub open spec fn rnd_step(arr: Seq<u16>, last: u16, ii: u16, jj: u16, maxval: u16) -> (
    Seq<u16>,
    u16,
    u16,
    u16,
    i32,
) {
    if maxval == 0 {
        (arr, last, ii, jj, 0)
    } else {
        let sum = arr[ii - 1] + arr[jj - 1] + 1;
        let total = sum + last;
        let v: i32 = (total as i32) & (rnd_mask(maxval) as i32);
        (
            arr.update(ii - 1, sum as u16),
            total as u16,
            rnd_next_index(ii),
            rnd_next_index(jj),
            if v > maxval {
                v >> 1i32
            } else {
                v
            },
        )
    }
}

/// The generator's indices are valid.
pub open spec fn rnd_ok(p: PcrlibAState) -> bool {
    1 <= p.indexi <= 17 && 1 <= p.indexj <= 17
}

/// Computes the mask for `maxval` by shifting `maxval` left until its top
/// bit is set, shifting an all-ones mask right in step.
fn rnd_compute_mask(maxval: u16) -> (mask: u16)
    requires
        maxval != 0,
    ensures
        is_rnd_mask(mask, maxval),
        mask == rnd_mask(maxval),
{
    let mut mask: u16 = 0xffff;
    let mut shift: u16 = maxval;
    let ghost mut j: u16 = 0;
    assert((maxval << 0u16) == maxval && ((maxval << 0u16) >> 0u16) == maxval && (0xffffu16
        >> 0u16) == 0xffffu16) by (bit_vector);
    while shift & 0x8000 == 0
        invariant
            maxval != 0,
            j < 16,
            shift == maxval << j,
            (maxval << j) >> j == maxval,
            mask == 0xffffu16 >> j,
        decreases 16 - j,
    {
        assert(j + 1 < 16 && (shift << 1u16) == maxval << ((j + 1) as u16) && ((maxval << ((j
            + 1) as u16)) >> ((j + 1) as u16)) == maxval && ((0xffffu16 >> j) >> 1u16)
            == 0xffffu16 >> ((j + 1) as u16)) by (bit_vector)
            requires
                maxval != 0,
                j < 16,
                shift == maxval << j,
                (maxval << j) >> j == maxval,
                shift & 0x8000 == 0,
        ;
        shift = shift << 1;
        mask = mask >> 1;
        proof {
            j = (j + 1) as u16;
        }
    }
    assert(is_rnd_mask(mask, maxval)) by (bit_vector)
        requires
            maxval != 0,
            j < 16,
            shift == maxval << j,
            (maxval << j) >> j == maxval,
            mask == 0xffffu16 >> j,
            shift & 0x8000 != 0,
    ;
    proof {
        lemma_rnd_mask_unique(mask, rnd_mask(maxval), maxval);
    }
    mask
}

/// A pseudo-random number from 0 to `maxval` (see `rnd_step`).
pub fn rnd(maxval: u16, pas: &mut PcrlibAState) -> (r: i32)
    requires
        maxval != 0 ==> rnd_ok(*old(pas)),
    ensures
        (final(pas).RndArray@, final(pas).LastRnd, final(pas).indexi, final(pas).indexj, r)
            == rnd_step(
            old(pas).RndArray@,
            old(pas).LastRnd,
            old(pas).indexi,
            old(pas).indexj,
            maxval,
        ),
        final(pas).inner == old(pas).inner,
        final(pas)._dontplay == old(pas)._dontplay,
        final(pas).rndindex == old(pas).rndindex,
        rnd_ok(*old(pas)) ==> rnd_ok(*final(pas)),
        0 <= r <= maxval,
{
    if maxval == 0 {
        return 0;
    }
    let mask = rnd_compute_mask(maxval);
    let ii = (pas.indexi - 1) as usize;
    let jj = (pas.indexj - 1) as usize;
    let mut val: i32 = pas.RndArray[ii] as i32 + pas.RndArray[jj] as i32 + 1;
    pas.RndArray[ii] = #[verifier::truncate] (val as u16);
    val += pas.LastRnd as i32;
    pas.LastRnd = #[verifier::truncate] (val as u16);
    pas.indexi = pas.indexi.wrapping_sub(1);
    if pas.indexi == 0 {
        pas.indexi = 17;
    }
    pas.indexj = pas.indexj.wrapping_sub(1);
    if pas.indexj == 0 {
        pas.indexj = 17;
    }
    let total = val;
    val &= mask as i32;
    if val > maxval as i32 {
        val >>= 1;
    }
    assert(0 <= val <= maxval) by (bit_vector)
        requires
            0 <= total,
            is_rnd_mask(mask, maxval),
            val == (if (total & (mask as i32)) > maxval as i32 {
                (total & (mask as i32)) >> 1i32
            } else {
                total & (mask as i32)
            }),
    ;
    assert(pas.RndArray@ =~= old(pas).RndArray@.update(ii as int, (old(pas).RndArray@[ii as int]
        + old(pas).RndArray@[jj as int] + 1) as u16));
    val
}

/// A pseudo-random number from the fixed table: the index steps by one
/// (modulo 256) and the entry there is the result.
pub fn rndt(pas: &mut PcrlibAState) -> (r: i32)
    ensures
        final(pas).rndindex == (old(pas).rndindex + 1) % 256,
        r == rndtable@[final(pas).rndindex as int],
        0 <= r < 256,
        final(pas).inner == old(pas).inner,
        final(pas)._dontplay == old(pas)._dontplay,
        final(pas).indexi == old(pas).indexi,
        final(pas).indexj == old(pas).indexj,
        final(pas).LastRnd == old(pas).LastRnd,
        final(pas).RndArray == old(pas).RndArray,
{
    let x: i32 = pas.rndindex as i32 + 1;
    let y: i32 = x & 0xff;
    assert(y == x % 256) by (bit_vector)
        requires
            0 <= x,
            y == x & 0xff,
    ;
    pas.rndindex = y as u16;
    rndtable[pas.rndindex as usize] as i32
}

/// The table that seeds `rnd`: the base table, with entries 16 and 4 mixed
/// with the low and high 16 bits of `seed` when there is one.
pub open spec fn seeded_rnd_array(seed: Option<u64>) -> Seq<u16> {
    match seed {
        None => baseRndArray@,
        Some(now) => baseRndArray@.update(16, (now & 0xffff) as u16).update(
            4,
            ((now & 0xffff) ^ ((now >> 16u64) & 0xffff)) as u16,
        ),
    }
}

/// Seeds `rnd` from `seed` (no seed: the fixed sequence) and draws the first
/// number, which is discarded.
pub fn seed_rnd(seed: Option<u64>, pas: &mut PcrlibAState)
    ensures
        (final(pas).RndArray@, final(pas).LastRnd, final(pas).indexi, final(pas).indexj)
            == ({
            let st = rnd_step(seeded_rnd_array(seed), 0, 17, 5, 0xffff);
            (st.0, st.1, st.2, st.3)
        }),
        rnd_ok(*final(pas)),
        final(pas).inner == old(pas).inner,
        final(pas)._dontplay == old(pas)._dontplay,
        final(pas).rndindex == old(pas).rndindex,
{
    pas.RndArray = baseRndArray;
    pas.LastRnd = 0;
    pas.indexi = 17;
    pas.indexj = 5;
    if let Some(now) = seed {
        pas.RndArray[16] = (now & 0xffff) as u16;
        pas.RndArray[4] = (now & 0xffff ^ now >> 16 & 0xffff) as u16;
    }
    assert(pas.RndArray@ =~= seeded_rnd_array(seed));
    rnd(0xffff, pas);
}

/// A reading of the system clock.
#[verifier::external_type_specification]
#[verifier::external_body]
pub struct ExSystemTime(std::time::SystemTime);

/// Reads the system clock (`std::time::SystemTime::now`); nothing is stated
/// of the reading, which depends on the time.
#[verifier::external_body]
fn system_time_now() -> std::time::SystemTime {
    std::time::SystemTime::now()
}

/// The time from the Unix epoch to the reading `t`
/// (`std::time::SystemTime::duration_since` with `UNIX_EPOCH`); none when
/// the reading is earlier than the epoch. Nothing more is stated: the
/// result depends on the clock.
#[verifier::external_body]
fn since_unix_epoch(t: &std::time::SystemTime) -> Option<std::time::Duration> {
    match t.duration_since(std::time::UNIX_EPOCH) {
        Ok(d) => Some(d),
        Err(_) => None,
    }
}

/// The whole seconds of a duration (`std::time::Duration::as_secs`);
/// nothing is stated of the number.
#[verifier::external_body]
fn whole_secs(d: &std::time::Duration) -> u64 {
    d.as_secs()
}

/// The number of seconds since the Unix epoch by the system clock; none
/// when the clock reads earlier than the epoch.
fn unix_time_secs() -> Option<u64> {
    let now = system_time_now();
    match since_unix_epoch(&now) {
        Some(d) => Some(whole_secs(&d)),
        None => None,
    }
}

/// Seeds `rnd`: from the clock when `randomize`, otherwise (or when the
/// clock reads earlier than the Unix epoch) with the fixed sequence.
pub fn initrnd(randomize: bool, pas: &mut PcrlibAState)
    ensures
        !randomize ==> (final(pas).RndArray@, final(pas).LastRnd, final(pas).indexi,
            final(pas).indexj) == ({
            let st = rnd_step(seeded_rnd_array(None), 0, 17, 5, 0xffff);
            (st.0, st.1, st.2, st.3)
        }),
        randomize ==> exists|seed: Option<u64>|
            (final(pas).RndArray@, final(pas).LastRnd, final(pas).indexi, final(pas).indexj)
                == ({
                let st = rnd_step(#[trigger] seeded_rnd_array(seed), 0, 17, 5, 0xffff);
                (st.0, st.1, st.2, st.3)
            }),
        rnd_ok(*final(pas)),
        final(pas).inner == old(pas).inner,
        final(pas)._dontplay == old(pas)._dontplay,
        final(pas).rndindex == old(pas).rndindex,
{
    if randomize {
        seed_rnd(unix_time_secs(), pas);
    } else {
        seed_rnd(None, pas);
    }
}

/// Sets the position of `rndt` in its table: the low 16 bits of `seed`, or 0.
pub fn seed_rndt(seed: Option<u64>, pas: &mut PcrlibAState)
    ensures
        final(pas).rndindex == match seed {
            Some(now) => now as u16,
            None => 0u16,
        },
        final(pas).inner == old(pas).inner,
        final(pas)._dontplay == old(pas)._dontplay,
        final(pas).indexi == old(pas).indexi,
        final(pas).indexj == old(pas).indexj,
        final(pas).LastRnd == old(pas).LastRnd,
        final(pas).RndArray == old(pas).RndArray,
{
    pas.rndindex = match seed {
        Some(now) => #[verifier::truncate] (now as u16),
        None => 0,
    };
}

/// Sets the position of `rndt`: from the clock when `randomize`, otherwise
/// (or when the clock reads earlier than the Unix epoch) 0. With
/// `randomize` any position can result: the low 16 bits of the clock's
/// seconds (see `seed_rndt`), which the contract leaves open.
pub fn initrndt(randomize: bool, pas: &mut PcrlibAState)
    ensures
        !randomize ==> final(pas).rndindex == 0,
        final(pas).inner == old(pas).inner,
        final(pas)._dontplay == old(pas)._dontplay,
        final(pas).indexi == old(pas).indexi,
        final(pas).indexj == old(pas).indexj,
        final(pas).LastRnd == old(pas).LastRnd,
        final(pas).RndArray == old(pas).RndArray,
{
    if randomize {
        seed_rndt(unix_time_secs(), pas);
    } else {
        seed_rndt(None, pas);
    }
}

/// Every number that `rnd` returns lies between 0 and `maxval`.
pub proof fn lemma_rnd_in_range(arr: Seq<u16>, last: u16, ii: u16, jj: u16, maxval: u16)
    requires
        arr.len() == 17,
        1 <= ii <= 17,
        1 <= jj <= 17,
    ensures
        0 <= rnd_step(arr, last, ii, jj, maxval).4 <= maxval,
{
    if maxval != 0 {
        let m = rnd_mask(maxval);
        let total: i32 = (arr[ii - 1] + arr[jj - 1] + 1 + last) as i32;
        assert(exists|mm: u16| is_rnd_mask(mm, maxval)) by {
            assert((0xffffu16 >> 0u16) == 0xffffu16) by (bit_vector);
            let witness: u16 = mask_witness_from(maxval, 0);
        }
        assert(is_rnd_mask(m, maxval));
        assert(0 <= total);
        let v: i32 = total & (m as i32);
        assert(0 <= (if v > maxval as i32 { v >> 1i32 } else { v }) <= maxval) by (bit_vector)
            requires
                0 <= total,
                (m as u32) & (((m as u32) + 1) as u32) == 0,
                maxval <= m,
                (m >> 1u16) < maxval,
                v == total & (m as i32),
        ;
    }
}

/// A mask for `maxval` exists: the all-ones mask shifted right by `k` or
/// by more.
proof fn mask_witness_from(maxval: u16, k: u16) -> (m: u16)
    requires
        maxval != 0,
        k <= 16,
        maxval <= 0xffffu16 >> k,
    ensures
        is_rnd_mask(m, maxval),
    decreases 16 - k,
{
    let m: u16 = 0xffffu16 >> k;
    if (m >> 1u16) >= maxval {
        assert(k < 15 && (0xffffu16 >> k) >> 1u16 == 0xffffu16 >> ((k + 1) as u16)) by (
        bit_vector)
            requires
                maxval != 0,
                k <= 16,
                m == 0xffffu16 >> k,
                (m >> 1u16) >= maxval,
        ;
        mask_witness_from(maxval, (k + 1) as u16)
    } else {
        assert(is_rnd_mask(m, maxval)) by (bit_vector)
            requires
                k <= 16,
                m == 0xffffu16 >> k,
                maxval <= m,
                (m >> 1u16) < maxval,
        ;
        m
    }
}


/// The period of the emulated vertical blank, in milliseconds.
pub const VBL_TIME: u32 = 14;

/// The count of vertical blanks that the timer has signalled and no waiter
/// has consumed yet (the emulated VBL semaphore).
pub struct VblSemaphore {
    pub pending: u32,
}

impl VblSemaphore {
    /// A semaphore with no pending blank.
    pub fn new() -> (r: Self)
        ensures
            r.pending == 0,
    {
        VblSemaphore { pending: 0 }
    }
}

/// The timer callback: signals one more vertical blank and returns the
/// interval until the next one.
pub fn VBLCallback(sem: &mut VblSemaphore) -> (r: u32)
    requires
        old(sem).pending < u32::MAX,
    ensures
        final(sem).pending == old(sem).pending + 1,
        r == VBL_TIME,
{
    sem.pending = sem.pending + 1;
    VBL_TIME
}

/// What a wait does to the count of pending blanks: it consumes one when
/// there is one, else it must block.
pub open spec fn vbl_wait(pending: u32) -> (bool, u32) {
    if pending > 0 {
        (true, (pending - 1) as u32)
    } else {
        (false, pending)
    }
}

/// One attempt to wait for a vertical blank: consumes a pending blank and
/// returns `true`, or returns `false` with nothing changed when none is
/// pending (the caller then blocks until the timer signals and retries).
pub fn WaitVBL(sem: &mut VblSemaphore) -> (r: bool)
    ensures
        (r, final(sem).pending) == vbl_wait(old(sem).pending),
{
    if sem.pending > 0 {
        sem.pending = sem.pending - 1;
        true
    } else {
        false
    }
}

/// A blank signalled by the timer is consumed by the next wait, which then
/// leaves the count as it was before the signal.
pub proof fn lemma_vbl_signal_then_wait(pending: u32)
    requires
        pending < u32::MAX,
    ensures
        vbl_wait((pending + 1) as u32) == (true, pending),
{
}

/// The EGA plane offsets of the picture data.
pub open spec fn plane_offsets(pcs: PcrlibCState) -> [usize; 4] {
    [
        pcs.egaplaneofs[0] as usize,
        pcs.egaplaneofs[1] as usize,
        pcs.egaplaneofs[2] as usize,
        pcs.egaplaneofs[3] as usize,
    ]
}

/// Where character `charnum` of the font lies in the picture data: 16
/// bytes per character in CGA, 64 in VGA, 8 per plane in EGA.
pub open spec fn char_source(pcs: PcrlibCState, charnum: int) -> Source {
    match pcs.grmode {
        grtype::CGAgr => Source {
            base: (pcs.charptr + charnum * 16) as usize,
            rowstride: 2,
            planeofs: plane_offsets(pcs),
        },
        grtype::VGAgr => Source {
            base: (pcs.charptr + charnum * 64) as usize,
            rowstride: 8,
            planeofs: plane_offsets(pcs),
        },
        _ => Source {
            base: (pcs.charptr + charnum * 8) as usize,
            rowstride: 1,
            planeofs: plane_offsets(pcs),
        },
    }
}

/// The screen position of character cell (x, y): 8 by 8 pixels per cell.
pub open spec fn cell_ofs(x: int, y: int) -> int {
    y * 8 * screenpitch + x * 8
}

/// Draws character `charnum` of the font into character cell (x, y) of
/// the screen (see `char_source` and `blitted`).
pub fn drawchar(x: i32, y: i32, charnum: i32, screen: &mut [u8], pcs: &PcrlibCState)
    requires
        0 <= x,
        0 <= y,
        0 <= charnum,
        box_ok(old(screen)@.len() as int, cell_ofs(x as int, y as int), 8, 8),
        source_ok(pcs.grmode, pcs.picfile_data@, char_source(*pcs, charnum as int), 8, 8),
        pcs.charptr + charnum * 64 <= usize::MAX,
    ensures
        blitted(
            old(screen)@,
            final(screen)@,
            cell_ofs(x as int, y as int),
            8,
            8,
            pcs.grmode,
            pcs.picfile_data@,
            char_source(*pcs, charnum as int),
        ),
{
    let n = screen.len();
    let ofs = (y as usize) * 8 * screenpitch + (x as usize) * 8;
    let planeofs = [
        pcs.egaplaneofs[0] as usize,
        pcs.egaplaneofs[1] as usize,
        pcs.egaplaneofs[2] as usize,
        pcs.egaplaneofs[3] as usize,
    ];
    let n_char = charnum as usize;
    let src = match pcs.grmode {
        grtype::CGAgr => Source { base: pcs.charptr + n_char * 16, rowstride: 2, planeofs },
        grtype::VGAgr => Source { base: pcs.charptr + n_char * 64, rowstride: 8, planeofs },
        _ => Source { base: pcs.charptr + n_char * 8, rowstride: 1, planeofs },
    };
    blit(screen, ofs, 8, 8, pcs.grmode, &pcs.picfile_data, &src);
}

/// The width in pixels of a picture `width` bytes wide: 4 pixels per byte
/// in CGA, 1 in VGA, 8 in EGA.
pub open spec fn pic_pixels(mode: grtype, width: int) -> int {
    match mode {
        grtype::CGAgr => width * 4,
        grtype::VGAgr => width,
        _ => width * 8,
    }
}

/// Where picture `picnum` lies in the picture data.
pub open spec fn pic_source(pcs: PcrlibCState, cps: CpanelState, picnum: int) -> Source {
    let pic = cps.pictable[picnum];
    Source {
        base: (pcs.picptr + pic.shapeptr) as usize,
        rowstride: pic.width as usize,
        planeofs: plane_offsets(pcs),
    }
}

/// Draws picture `picnum` with its top-left pixel at (x, y) (see
/// `pic_source` and `blitted`); an empty picture draws nothing.
pub fn drawpic(x: i32, y: i32, picnum: i32, screen: &mut [u8], cps: &CpanelState, pcs: &PcrlibCState)
    requires
        0 <= x,
        0 <= y,
        0 <= picnum < 64,
        cps.pictable[picnum as int].width >= 0,
        ({
            let pic = cps.pictable[picnum as int];
            let w = pic_pixels(pcs.grmode, pic.width as int);
            let h = pic.height as int;
            w > 0 && h > 0 ==> {
                &&& box_ok(old(screen)@.len() as int, y * screenpitch + x, w, h)
                &&& source_ok(pcs.grmode, pcs.picfile_data@, pic_source(*pcs, *cps, picnum as int), w, h)
                &&& pcs.picptr + pic.shapeptr <= usize::MAX
            }
        }),
    ensures
        ({
            let pic = cps.pictable[picnum as int];
            let w = pic_pixels(pcs.grmode, pic.width as int);
            let h = pic.height as int;
            if w > 0 && h > 0 {
                blitted(
                    old(screen)@,
                    final(screen)@,
                    y * screenpitch + x,
                    w,
                    h,
                    pcs.grmode,
                    pcs.picfile_data@,
                    pic_source(*pcs, *cps, picnum as int),
                )
            } else {
                final(screen)@ == old(screen)@
            }
        }),
{
    let pic = cps.pictable[picnum as usize];
    if pic.width <= 0 || pic.height <= 0 {
        return;
    }
    let n = screen.len();
    let width = pic.width as usize;
    let w: usize = match pcs.grmode {
        grtype::CGAgr => width * 4,
        grtype::VGAgr => width,
        _ => width * 8,
    };
    let ofs = (y as usize) * screenpitch + (x as usize);
    let planeofs = [
        pcs.egaplaneofs[0] as usize,
        pcs.egaplaneofs[1] as usize,
        pcs.egaplaneofs[2] as usize,
        pcs.egaplaneofs[3] as usize,
    ];
    let src = Source { base: pcs.picptr + pic.shapeptr as usize, rowstride: width, planeofs };
    blit(screen, ofs, w, pic.height as usize, pcs.grmode, &pcs.picfile_data, &src);
}

/// Sets the sound up once the audio device was opened (at the sample rate
/// `opened_freq`) or failed to open (`None`): the PC speaker emulation
/// runs at the device's rate, 145 speaker ticks per second; without a
/// device, sound is off and nothing is played.
pub fn StartupSound(opened_freq: Option<i32>, pas: &mut PcrlibAState)
    ensures
        match opened_freq {
            Some(freq) => {
                &&& final(pas).inner == (PcrlibAStateExclusive {
                    AudioSpecFreq: freq,
                    pcSamplesPerTick: div_trunc(freq as int, 145) as u32,
                    soundmode: soundtype::spkr,
                    ..old(pas).inner
                })
                &&& final(pas)._dontplay == old(pas)._dontplay
            },
            None => {
                &&& final(pas).inner == (PcrlibAStateExclusive {
                    soundmode: soundtype::off,
                    ..old(pas).inner
                })
                &&& final(pas)._dontplay
            },
        },
        final(pas).RndArray == old(pas).RndArray,
        final(pas).rndindex == old(pas).rndindex,
        sound_ok(old(pas).inner) && (opened_freq matches Some(f) ==> 0 <= f <= 65537) ==> sound_ok(
            final(pas).inner,
        ),
{
    match opened_freq {
        Some(freq) => {
            pas.inner.AudioSpecFreq = freq;
            pas.inner.pcSamplesPerTick = #[verifier::truncate] ((freq / 145) as u32);
            pas.inner.soundmode = soundtype::spkr;
        },
        None => {
            pas.inner.soundmode = soundtype::off;
            pas._dontplay = true;
        },
    }
}

} // verus!
