use vstd::prelude::*;

verus! {

/// The header of one PC speaker sound: where its frequency data starts (a
/// byte offset into the sound file), its priority and its sample rate.
#[derive(Clone, Copy, Debug)]
pub struct spksndtype {
    pub start: u16,
    pub priority: u8,
    pub samplerate: u8,
    pub name: [i8; 12],
}

} // verus!
