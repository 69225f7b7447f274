use vstd::prelude::*;

verus! {

/// The eight compass directions plus "no direction"; the numbering
/// (`value`) is the one the game stores in object records and demo files.
#[derive(Clone, Copy, Debug, PartialEq, Eq, Structural)]
pub enum dirtype {
    north,
    east,
    south,
    west,
    northeast,
    southeast,
    southwest,
    northwest,
    nodir,
}

impl dirtype {
    /// The number of the direction.
    pub open spec fn value(self) -> u32 {
        match self {
            dirtype::north => 0,
            dirtype::east => 1,
            dirtype::south => 2,
            dirtype::west => 3,
            dirtype::northeast => 4,
            dirtype::southeast => 5,
            dirtype::southwest => 6,
            dirtype::northwest => 7,
            dirtype::nodir => 8,
        }
    }

    /// The number of the direction.
    pub fn to_u32(&self) -> (r: u32)
        ensures
            r == self.value(),
            r <= 8,
    {
        match self {
            dirtype::north => 0,
            dirtype::east => 1,
            dirtype::south => 2,
            dirtype::west => 3,
            dirtype::northeast => 4,
            dirtype::southeast => 5,
            dirtype::southwest => 6,
            dirtype::northwest => 7,
            dirtype::nodir => 8,
        }
    }

    /// The direction with the given number.
    pub fn from_u32(value: u32) -> (r: dirtype)
        requires
            value <= 8,
        ensures
            r.value() == value,
    {
        match value {
            0 => dirtype::north,
            1 => dirtype::east,
            2 => dirtype::south,
            3 => dirtype::west,
            4 => dirtype::northeast,
            5 => dirtype::southeast,
            6 => dirtype::southwest,
            7 => dirtype::northwest,
            _ => dirtype::nodir,
        }
    }

    /// The direction with the given number.
    pub fn from_i32(value: i32) -> (r: dirtype)
        requires
            0 <= value <= 8,
        ensures
            r.value() == value,
    {
        dirtype::from_u32(value as u32)
    }

    /// The direction with the given number.
    pub fn from_u16(value: u16) -> (r: dirtype)
        requires
            value <= 8,
        ensures
            r.value() == value,
    {
        dirtype::from_u32(value as u32)
    }

    /// The direction with the given number.
    pub fn from_u8(value: u8) -> (r: dirtype)
        requires
            value <= 8,
        ensures
            r.value() == value,
    {
        dirtype::from_u32(value as u32)
    }
}

/// Different directions have different numbers.
pub proof fn lemma_dir_value_injective(a: dirtype, b: dirtype)
    ensures
        a.value() == b.value() ==> a == b,
{
}

} // verus!
