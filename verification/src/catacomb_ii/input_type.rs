use vstd::prelude::*;

verus! {

/// The input device that controls a player.
#[derive(Clone, Copy, Debug, PartialEq, Eq, Structural)]
pub enum inputtype {
    keyboard,
    mouse,
    joystick1,
    joystick2,
    demo,
}

impl inputtype {
    /// The number of the device, as stored in the control panel file.
    pub open spec fn value(self) -> u16 {
        match self {
            inputtype::keyboard => 0,
            inputtype::mouse => 1,
            inputtype::joystick1 => 2,
            inputtype::joystick2 => 3,
            inputtype::demo => 4,
        }
    }

    /// The number of the device.
    pub fn to_u16(&self) -> (r: u16)
        ensures
            r == self.value(),
    {
        match self {
            inputtype::keyboard => 0,
            inputtype::mouse => 1,
            inputtype::joystick1 => 2,
            inputtype::joystick2 => 3,
            inputtype::demo => 4,
        }
    }

    /// The device with the given number.
    pub fn from_u16(value: u16) -> (r: inputtype)
        requires
            value <= 4,
        ensures
            r.value() == value,
    {
        match value {
            0 => inputtype::keyboard,
            1 => inputtype::mouse,
            2 => inputtype::joystick1,
            3 => inputtype::joystick2,
            _ => inputtype::demo,
        }
    }

    /// The device with the given number.
    pub fn from_i32(value: i32) -> (r: inputtype)
        requires
            0 <= value <= 4,
        ensures
            r.value() == value,
    {
        inputtype::from_u16(value as u16)
    }
}

} // verus!
