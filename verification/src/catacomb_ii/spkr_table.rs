use vstd::prelude::*;

use crate::catacomb_ii::le_bytes::{le16, read_u16_le};
use crate::catacomb_ii::spksndtype::spksndtype;

verus! {

/// The number of sound headers in a sound file.
pub const NUM_SOUND_HEADERS: usize = 63;

/// The contents of a PC speaker sound file: the sound headers and the
/// frequency data that they point into.
///
/// On disk the file holds a 16-byte header (id, length, filler), then
/// `NUM_SOUND_HEADERS` sound headers of 16 bytes each (start: 2 bytes
/// little-endian, priority, sample rate, 12 name bytes), then the frequency
/// data as little-endian 16-bit words. A header's `start` is a byte offset
/// into the file, so it points into the frequency data when it is at least
/// `start_of_freqdata()`.
pub struct SPKRtable {
    pub sounds: Vec<spksndtype>,
    pub freqdata: Vec<u16>,
}

/// The twelve name bytes at `at`, each read as a signed byte.
fn read_name(bytes: &[u8], at: usize) -> (r: [i8; 12])
    requires
        at + 12 <= bytes.len(),
    ensures
        forall|j: int| 0 <= j < 12 ==> #[trigger] r[j] == bytes@[at + j] as i8,
{
    let mut name: [i8; 12] = [0; 12];
    let mut j: usize = 0;
    while j < 12
        invariant
            j <= 12,
            at + 12 <= bytes.len(),
            forall|k: int| 0 <= k < j ==> #[trigger] name[k] == bytes@[at + k] as i8,
        decreases 12 - j,
    {
        name[j] = #[verifier::truncate] (bytes[at + j] as i8);
        j += 1;
    }
    name
}

impl SPKRtable {
    /// The byte offset of the frequency data in the file.
    pub fn start_of_freqdata() -> (r: usize)
        ensures
            r == 1024,
    {
        16 + NUM_SOUND_HEADERS * 16
    }

    /// A table of zeroed sound headers without frequency data.
    pub fn default() -> (r: SPKRtable)
        ensures
            r.sounds@.len() == NUM_SOUND_HEADERS,
            forall|i: int|
                0 <= i < NUM_SOUND_HEADERS ==> #[trigger] r.sounds@[i].start == 0
                    && r.sounds@[i].priority == 0 && r.sounds@[i].samplerate == 0,
            r.freqdata@.len() == 0,
    {
        let mut sounds: Vec<spksndtype> = Vec::new();
        let mut i: usize = 0;
        while i < NUM_SOUND_HEADERS
            invariant
                i <= NUM_SOUND_HEADERS,
                sounds@.len() == i,
                forall|k: int|
                    0 <= k < i ==> #[trigger] sounds@[k].start == 0 && sounds@[k].priority == 0
                        && sounds@[k].samplerate == 0,
            decreases NUM_SOUND_HEADERS - i,
        {
            sounds.push(spksndtype { start: 0, priority: 0, samplerate: 0, name: [0; 12] });
            i += 1;
        }
        SPKRtable { sounds, freqdata: Vec::new() }
    }

    /// Reads a sound file. `None` when the file is shorter than its fixed
    /// part (`start_of_freqdata()` bytes); otherwise every header and every
    /// complete frequency word is read.
    pub fn deserialize(bytes: &[u8]) -> (r: Option<SPKRtable>)
        ensures
            r is None <==> bytes@.len() < 1024,
            r matches Some(t) ==> {
                &&& t.sounds@.len() == NUM_SOUND_HEADERS
                &&& forall|i: int|
                    0 <= i < NUM_SOUND_HEADERS ==> {
                        &&& #[trigger] t.sounds@[i].start == le16(
                            bytes@[16 + 16 * i],
                            bytes@[17 + 16 * i],
                        )
                        &&& t.sounds@[i].priority == bytes@[18 + 16 * i]
                        &&& t.sounds@[i].samplerate == bytes@[19 + 16 * i]
                        &&& forall|j: int|
                            0 <= j < 12 ==> #[trigger] t.sounds@[i].name[j] == bytes@[20 + 16 * i + j] as i8
                    }
                &&& t.freqdata@.len() == (bytes@.len() - 1024) / 2
                &&& forall|k: int|
                    0 <= k < t.freqdata@.len() ==> #[trigger] t.freqdata@[k] == le16(
                        bytes@[1024 + 2 * k],
                        bytes@[1025 + 2 * k],
                    )
            },
    {
        if bytes.len() < 1024 {
            return None;
        }
        let mut sounds: Vec<spksndtype> = Vec::new();
        let mut i: usize = 0;
        while i < NUM_SOUND_HEADERS
            invariant
                i <= NUM_SOUND_HEADERS,
                bytes@.len() >= 1024,
                sounds@.len() == i,
                forall|k: int|
                    0 <= k < i ==> {
                        &&& #[trigger] sounds@[k].start == le16(
                            bytes@[16 + 16 * k],
                            bytes@[17 + 16 * k],
                        )
                        &&& sounds@[k].priority == bytes@[18 + 16 * k]
                        &&& sounds@[k].samplerate == bytes@[19 + 16 * k]
                        &&& forall|j: int|
                            0 <= j < 12 ==> #[trigger] sounds@[k].name[j] == bytes@[20 + 16 * k + j] as i8
                    },
            decreases NUM_SOUND_HEADERS - i,
        {
            let at = 16 + 16 * i;
            assert(at + 16 <= bytes.len());
            let start = read_u16_le(bytes, at);
            let name = read_name(bytes, at + 4);
            let snd = spksndtype { start, priority: bytes[at + 2], samplerate: bytes[at + 3], name };
            let ghost old_sounds = sounds@;
            sounds.push(snd);
            assert forall|k: int| 0 <= k < i + 1 implies {
                &&& #[trigger] sounds@[k].start == le16(bytes@[16 + 16 * k], bytes@[17 + 16 * k])
                &&& sounds@[k].priority == bytes@[18 + 16 * k]
                &&& sounds@[k].samplerate == bytes@[19 + 16 * k]
                &&& forall|j: int|
                    0 <= j < 12 ==> #[trigger] sounds@[k].name[j] == bytes@[20 + 16 * k + j] as i8
            } by {
                if k < i {
                    assert(sounds@[k] == old_sounds[k]);
                } else {
                    assert(k == i);
                    assert(sounds@[k] == snd);
                }
            }
            i += 1;
        }
        let n = (bytes.len() - 1024) / 2;
        let mut freqdata: Vec<u16> = Vec::new();
        let mut k: usize = 0;
        while k < n
            invariant
                k <= n,
                n == (bytes@.len() - 1024) / 2,
                bytes@.len() >= 1024,
                freqdata@.len() == k,
                forall|m: int|
                    0 <= m < k ==> #[trigger] freqdata@[m] == le16(
                        bytes@[1024 + 2 * m],
                        bytes@[1025 + 2 * m],
                    ),
            decreases n - k,
        {
            assert(1024 + 2 * k + 2 <= bytes.len());
            let w = read_u16_le(bytes, 1024 + 2 * k);
            freqdata.push(w);
            k += 1;
        }
        Some(SPKRtable { sounds, freqdata })
    }
}

} // verus!
