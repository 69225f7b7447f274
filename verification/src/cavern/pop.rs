use vstd::prelude::*;

use crate::cavern::actor::{Actor, Anchor, Image};
use crate::cavern::resources::{resources_ok, Resources};

verus! {

/// The short "pop" animation left by a burst orb or a collected fruit.
pub struct Pop {
    pub timer: i32,
    pub type_: i32,
    pub x: i32,
    pub y: i32,
    pub image: Image,
    pub anchor: Anchor,
}

/// The frame of a pop of type `type_` at time `timer`: 7 frames per type,
/// a new one every 2 ticks.
pub open spec fn pop_frame(type_: int, timer: int) -> int {
    type_ * 7 + timer / 2
}

impl Pop {
    /// A pop of type `type_` centred on (x, y), before its first frame.
    pub fn new(x: i32, y: i32, type_: i32, blank: Image) -> (r: Self)
        ensures
            r == (Pop { timer: -1i32, type_, x, y, image: blank, anchor: Anchor::Centre }),
    {
        Pop { type_: type_, timer: -1, x, y, image: blank, anchor: Anchor::Centre }
    }

    /// Advances the animation by one tick and shows its frame.
    pub fn update(&mut self, resources: &Resources)
        requires
            resources_ok(resources),
            old(self).timer >= -1,
            old(self).type_ >= 0,
            pop_frame(old(self).type_ as int, old(self).timer + 1) < 14,
        ensures
            *final(self) == (Pop {
                timer: (old(self).timer + 1) as i32,
                image: resources.pop_textures@[pop_frame(
                    old(self).type_ as int,
                    old(self).timer + 1,
                )],
                ..*old(self)
            }),
    {
        self.timer = self.timer + 1;
        let type_factor = self.type_ * 7;
        let timer_factor = self.timer / 2;
        let image_i = (type_factor + timer_factor) as usize;
        self.image = resources.pop_textures[image_i];
    }
}

impl Actor for Pop {
    open spec fn pos_x(&self) -> i32 {
        self.x
    }

    open spec fn pos_y(&self) -> i32 {
        self.y
    }

    open spec fn spec_image(&self) -> Image {
        self.image
    }

    open spec fn spec_anchor(&self) -> Anchor {
        self.anchor
    }

    open spec fn at_pos(&self, x: i32, y: i32) -> Self {
        Pop { x, y, ..*self }
    }

    proof fn lemma_at_pos(&self, x: i32, y: i32, x2: i32, y2: i32) {
    }

    fn x(&self) -> i32 {
        self.x
    }

    fn set_x(&mut self, v: i32) {
        self.x = v;
    }

    fn y(&self) -> i32 {
        self.y
    }

    fn set_y(&mut self, v: i32) {
        self.y = v;
    }

    fn image(&self) -> Image {
        self.image
    }

    fn anchor(&self) -> Anchor {
        self.anchor
    }
}

} // verus!
