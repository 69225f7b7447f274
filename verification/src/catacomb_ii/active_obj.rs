use vstd::prelude::*;

use crate::catacomb_ii::obj_type::objtype;

verus! {

/// The per-instance record of an object (the part that is saved with a
/// game). `class` is the number of the object's class.
#[derive(Clone, Copy, Debug)]
pub struct activeobj {
    pub active: bool,
    pub class: u16,
    pub x: u8,
    pub y: u8,
    pub stage: u8,
    pub delay: u8,
    pub dir: u16,
    pub hp: i8,
    pub oldx: u8,
    pub oldy: u8,
    pub oldtile: i16,
    pub filler: [u8; 1],
}

impl activeobj {
    /// The instance part of a working object record.
    pub open spec fn of_objtype(source: objtype) -> activeobj {
        activeobj {
            active: source.active,
            class: source.class,
            x: source.x,
            y: source.y,
            stage: source.stage,
            delay: source.delay,
            dir: source.dir,
            hp: source.hp,
            oldx: source.oldx,
            oldy: source.oldy,
            oldtile: source.oldtile,
            filler: source.filler,
        }
    }

    /// Keeps the instance fields of a working object record.
    pub fn from(source: objtype) -> (r: activeobj)
        ensures
            r == activeobj::of_objtype(source),
    {
        activeobj {
            active: source.active,
            class: source.class,
            x: source.x,
            y: source.y,
            stage: source.stage,
            delay: source.delay,
            dir: source.dir,
            hp: source.hp,
            oldx: source.oldx,
            oldy: source.oldy,
            oldtile: source.oldtile,
            filler: source.filler,
        }
    }
}

} // verus!
