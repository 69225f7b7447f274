use vstd::prelude::*;

verus! {

/// The sound output mode.
#[derive(Clone, Copy, Debug, PartialEq, Eq, Structural)]
pub enum soundtype {
    off,
    spkr,
    sdlib,
}

impl soundtype {
    /// The number of the mode, as stored in the control panel file.
    pub open spec fn value(self) -> u16 {
        match self {
            soundtype::off => 0,
            soundtype::spkr => 1,
            soundtype::sdlib => 2,
        }
    }

    /// The number of the mode.
    pub fn to_u16(&self) -> (r: u16)
        ensures
            r == self.value(),
    {
        match self {
            soundtype::off => 0,
            soundtype::spkr => 1,
            soundtype::sdlib => 2,
        }
    }

    /// The mode with the given number.
    pub fn from_u16(value: u16) -> (r: soundtype)
        requires
            value <= 2,
        ensures
            r.value() == value,
    {
        match value {
            0 => soundtype::off,
            1 => soundtype::spkr,
            _ => soundtype::sdlib,
        }
    }

    /// The mode with the given number.
    pub fn from_i32(value: i32) -> (r: soundtype)
        requires
            0 <= value <= 2,
        ensures
            r.value() == value,
    {
        soundtype::from_u16(value as u16)
    }
}

impl Default for soundtype {
    /// Sound is off by default.
    fn default() -> (r: soundtype)
        ensures
            r == soundtype::off,
    {
        soundtype::off
    }
}

} // verus!
