use vstd::prelude::*;

use crate::catacomb_ii::sound_type::soundtype;
use crate::catacomb_ii::spkr_table::SPKRtable;

verus! {

/// A sound put aside by `PauseSound`, for `ContinueSound` to resume.
#[derive(Clone, Copy, Debug, PartialEq, Eq, Structural)]
pub struct SavedSoundStruct {
    pub SndPriority: u8,
    pub pcSamplesPerTick: u32,
    pub pcLengthLeft: u32,
    /// Position of the next sample in the frequency data.
    pub pcSound: Option<usize>,
}

/// The PC speaker emulation state, shared between the game and the audio
/// output (which holds it under a lock).
pub struct PcrlibAStateExclusive {
    pub SoundData: SPKRtable,
    pub soundmode: soundtype,
    pub SndPriority: u8,
    pub AudioSpecFreq: i32,
    pub pcVolume: i16,
    pub pcPhaseTick: u32,
    pub pcPhaseLength: u32,
    pub pcActive: bool,
    pub pcSamplesPerTick: u32,
    pub pcLastSample: u16,
    pub pcLengthLeft: u32,
    /// Position of the next sample in the frequency data; `None` when no
    /// sound is playing.
    pub pcSound: Option<usize>,
    pub SavedSound: SavedSoundStruct,
}

/// The sound state together with the random number generator state.
pub struct PcrlibAState {
    pub inner: PcrlibAStateExclusive,
    pub _dontplay: bool,
    pub rndindex: u16,
    pub indexi: u16,
    pub indexj: u16,
    pub LastRnd: u16,
    pub RndArray: [u16; 17],
}

impl PcrlibAState {
    /// The initial state: speaker mode, volume 5000, nothing playing,
    /// random generators zeroed (to be seeded by `initrnd`/`initrndt`).
    pub fn new() -> (r: Self)
        ensures
            r.inner.SndPriority == 0,
            r.inner.AudioSpecFreq == 0,
            r.inner.pcVolume == 5000,
            r.inner.pcPhaseTick == 0,
            r.inner.pcPhaseLength == 0,
            !r.inner.pcActive,
            r.inner.pcSamplesPerTick == 0,
            r.inner.pcLastSample == 0,
            r.inner.pcLengthLeft == 0,
            r.inner.pcSound is None,
            r.inner.SavedSound == (SavedSoundStruct {
                SndPriority: 0,
                pcSamplesPerTick: 0,
                pcLengthLeft: 0,
                pcSound: None,
            }),
            r.inner.SoundData.sounds@.len() == 63,
            r.inner.SoundData.freqdata@.len() == 0,
            r.inner.soundmode == soundtype::spkr,
            !r._dontplay,
            r.rndindex == 0,
            r.indexi == 0,
            r.indexj == 0,
            r.LastRnd == 0,
            forall|i: int| 0 <= i < 17 ==> r.RndArray[i] == 0,
    {
        let inner = PcrlibAStateExclusive {
            SndPriority: 0,
            AudioSpecFreq: 0,
            pcVolume: 5000,
            pcPhaseTick: 0,
            pcPhaseLength: 0,
            pcActive: false,
            pcSamplesPerTick: 0,
            pcLastSample: 0,
            pcLengthLeft: 0,
            pcSound: None,
            SavedSound: SavedSoundStruct {
                SndPriority: 0,
                pcSamplesPerTick: 0,
                pcLengthLeft: 0,
                pcSound: None,
            },
            SoundData: SPKRtable::default(),
            soundmode: soundtype::spkr,
        };
        Self {
            inner,
            _dontplay: false,
            rndindex: 0,
            indexi: 0,
            indexj: 0,
            LastRnd: 0,
            RndArray: [0; 17],
        }
    }

    /// Exclusive access to the sound state; the other fields stay as they are.
    pub fn lock(&mut self) -> (r: &mut PcrlibAStateExclusive)
        ensures
            *r == old(self).inner,
            final(self).inner == *final(r),
            final(self)._dontplay == old(self)._dontplay,
            final(self).rndindex == old(self).rndindex,
            final(self).indexi == old(self).indexi,
            final(self).indexj == old(self).indexj,
            final(self).LastRnd == old(self).LastRnd,
            final(self).RndArray == old(self).RndArray,
    {
        &mut self.inner
    }
}

} // verus!
