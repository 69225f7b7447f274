use vstd::prelude::*;

verus! {

/// The graphics mode.
#[derive(Clone, Copy, Debug, PartialEq, Eq, Structural)]
pub enum grtype {
    text,
    CGAgr,
    EGAgr,
    VGAgr,
}

impl grtype {
    /// The number of the mode, as stored in the control panel file.
    pub open spec fn value(self) -> u16 {
        match self {
            grtype::text => 0,
            grtype::CGAgr => 1,
            grtype::EGAgr => 2,
            grtype::VGAgr => 3,
        }
    }

    /// The number of the mode.
    pub fn to_u16(&self) -> (r: u16)
        ensures
            r == self.value(),
    {
        match self {
            grtype::text => 0,
            grtype::CGAgr => 1,
            grtype::EGAgr => 2,
            grtype::VGAgr => 3,
        }
    }

    /// The mode with the given number.
    pub fn from_u16(value: u16) -> (r: grtype)
        requires
            value <= 3,
        ensures
            r.value() == value,
    {
        match value {
            0 => grtype::text,
            1 => grtype::CGAgr,
            2 => grtype::EGAgr,
            _ => grtype::VGAgr,
        }
    }
}

impl Default for grtype {
    /// Text mode is the default.
    fn default() -> (r: grtype)
        ensures
            r == grtype::text,
    {
        grtype::text
    }
}

} // verus!
