use vstd::prelude::*;

verus! {

/// The behaviour ("think" routine) of an object class.
#[derive(Clone, Copy, Debug, PartialEq, Eq, Structural)]
pub enum thinktype {
    playercmd,
    gargcmd,
    dragoncmd,
    ramstraight,
    ramdiag,
    straight,
    idle,
    fade,
    explode,
    gunthinke,
    gunthinks,
}

impl thinktype {
    /// The number stored in object definitions.
    pub open spec fn value(self) -> u8 {
        match self {
            thinktype::playercmd => 0,
            thinktype::gargcmd => 1,
            thinktype::dragoncmd => 2,
            thinktype::ramstraight => 3,
            thinktype::ramdiag => 4,
            thinktype::straight => 5,
            thinktype::idle => 6,
            thinktype::fade => 7,
            thinktype::explode => 8,
            thinktype::gunthinke => 9,
            thinktype::gunthinks => 10,
        }
    }

    /// The number stored in object definitions.
    pub fn to_u8(&self) -> (r: u8)
        ensures
            r == self.value(),
    {
        match self {
            thinktype::playercmd => 0,
            thinktype::gargcmd => 1,
            thinktype::dragoncmd => 2,
            thinktype::ramstraight => 3,
            thinktype::ramdiag => 4,
            thinktype::straight => 5,
            thinktype::idle => 6,
            thinktype::fade => 7,
            thinktype::explode => 8,
            thinktype::gunthinke => 9,
            thinktype::gunthinks => 10,
        }
    }
}

} // verus!
