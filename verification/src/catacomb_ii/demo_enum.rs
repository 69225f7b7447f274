use vstd::prelude::*;

verus! {

/// Whether a demo is being played back or recorded.
#[derive(Clone, Copy, Debug, PartialEq, Eq, Structural)]
pub enum demoenum {
    notdemo,
    demoplay,
    recording,
}

} // verus!
