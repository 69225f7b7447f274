use vstd::prelude::*;

use crate::catacomb_ii::dir_type::dirtype;

verus! {

/// The state of a player's controls in one frame.
#[derive(Clone, Copy, Debug, PartialEq, Eq, Structural)]
pub struct ControlStruct {
    pub dir: dirtype,
    pub button1: bool,
    pub button2: bool,
}

} // verus!
