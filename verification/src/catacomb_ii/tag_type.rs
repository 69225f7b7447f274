use vstd::prelude::*;

verus! {

/// What happens when an object runs into another one.
#[derive(Clone, Copy, Debug, PartialEq, Eq, Structural)]
pub enum tagtype {
    benign,
    monster,
    pshot,
    mshot,
    nukeshot,
}

impl tagtype {
    /// The number stored in object definitions.
    pub open spec fn value(self) -> u8 {
        match self {
            tagtype::benign => 0,
            tagtype::monster => 1,
            tagtype::pshot => 2,
            tagtype::mshot => 3,
            tagtype::nukeshot => 4,
        }
    }

    /// The number stored in object definitions.
    pub fn to_u8(&self) -> (r: u8)
        ensures
            r == self.value(),
    {
        match self {
            tagtype::benign => 0,
            tagtype::monster => 1,
            tagtype::pshot => 2,
            tagtype::mshot => 3,
            tagtype::nukeshot => 4,
        }
    }
}

} // verus!
