use vstd::prelude::*;

use crate::catacomb_ii::active_obj::activeobj;
use crate::catacomb_ii::obj_def_type::objdeftype;

verus! {

/// The working record of the object being processed: its instance fields
/// followed by the definition fields of its class.
#[derive(Clone, Copy, Debug)]
pub struct objtype {
    pub active: bool,
    pub class: u16,
    pub x: u8,
    pub y: u8,
    pub stage: u8,
    pub delay: u8,
    pub dir: u16,
    pub hp: i8,
    pub oldx: u8,
    pub oldy: u8,
    pub oldtile: i16,
    pub filler: [u8; 1],
    pub think: u8,
    pub contact: u8,
    pub solid: u8,
    pub firstchar: u16,
    pub size: u8,
    pub stages: u8,
    pub dirmask: u8,
    pub speed: u16,
    pub hitpoints: u8,
    pub damage: u8,
    pub points: u16,
}

impl objtype {
    /// Copies the instance fields of `source`, keeping the definition fields.
    pub fn update_from_activeobj(&mut self, source: &activeobj)
        ensures
            activeobj::of_objtype(*final(self)) == *source,
            final(self).think == old(self).think,
            final(self).contact == old(self).contact,
            final(self).solid == old(self).solid,
            final(self).firstchar == old(self).firstchar,
            final(self).size == old(self).size,
            final(self).stages == old(self).stages,
            final(self).dirmask == old(self).dirmask,
            final(self).speed == old(self).speed,
            final(self).hitpoints == old(self).hitpoints,
            final(self).damage == old(self).damage,
            final(self).points == old(self).points,
    {
        self.active = source.active;
        self.class = source.class;
        self.x = source.x;
        self.y = source.y;
        self.stage = source.stage;
        self.delay = source.delay;
        self.dir = source.dir;
        self.hp = source.hp;
        self.oldx = source.oldx;
        self.oldy = source.oldy;
        self.oldtile = source.oldtile;
        self.filler = source.filler;
    }

    /// Copies the definition fields of `source`, keeping the instance fields.
    pub fn update_from_objdeftype(&mut self, source: &objdeftype)
        ensures
            activeobj::of_objtype(*final(self)) == activeobj::of_objtype(*old(self)),
            final(self).think == source.think,
            final(self).contact == source.contact,
            final(self).solid == source.solid,
            final(self).firstchar == source.firstchar,
            final(self).size == source.size,
            final(self).stages == source.stages,
            final(self).dirmask == source.dirmask,
            final(self).speed == source.speed,
            final(self).hitpoints == source.hitpoints,
            final(self).damage == source.damage,
            final(self).points == source.points,
    {
        self.think = source.think;
        self.contact = source.contact;
        self.solid = source.solid;
        self.firstchar = source.firstchar;
        self.size = source.size;
        self.stages = source.stages;
        self.dirmask = source.dirmask;
        self.speed = source.speed;
        self.hitpoints = source.hitpoints;
        self.damage = source.damage;
        self.points = source.points;
    }
}

/// Loading an instance record into the working record and taking it back
/// out gives the same instance record.
pub proof fn lemma_activeobj_roundtrip(w: objtype, a: activeobj)
    ensures
        activeobj::of_objtype(objtype {
            active: a.active,
            class: a.class,
            x: a.x,
            y: a.y,
            stage: a.stage,
            delay: a.delay,
            dir: a.dir,
            hp: a.hp,
            oldx: a.oldx,
            oldy: a.oldy,
            oldtile: a.oldtile,
            filler: a.filler,
            ..w
        }) == a,
{
}

} // verus!
