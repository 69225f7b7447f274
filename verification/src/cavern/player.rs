use vstd::prelude::*;

use crate::cavern::actor::{Actor, Anchor, Image};
use crate::cavern::collide_actor::CollideActor;
use crate::cavern::gravity_actor::{GravityActor, GRAVITY_ACTOR_DEFAULT_ANCHOR};
use crate::cavern::orb::Orb;
use crate::cavern::WIDTH;

verus! {

/// The player character.
pub struct Player {
    pub lives: i32,
    pub score: i32,
    /// -1 when facing left, 1 when facing right.
    pub direction_x: i32,
    pub fire_timer: i32,
    pub hurt_timer: i32,
    pub health: i32,
    pub blowing_orb: Option<Orb>,
    pub x: i32,
    pub y: i32,
    pub image: Image,
    pub anchor: Anchor,
    pub vel_y: i32,
    pub landed: bool,
}

impl Player {
    /// A player with two spare lives and no score, not yet placed in a
    /// level.
    pub fn new(blank: Image) -> (r: Self)
        ensures
            r == (Player {
                lives: 2,
                score: 0,
                direction_x: 0,
                fire_timer: 0,
                hurt_timer: 0,
                health: 0,
                blowing_orb: None,
                x: 0,
                y: 0,
                image: blank,
                anchor: GRAVITY_ACTOR_DEFAULT_ANCHOR,
                vel_y: 0,
                landed: false,
            }),
    {
        Player {
            lives: 2,
            score: 0,
            direction_x: 0,
            fire_timer: 0,
            hurt_timer: 0,
            health: 0,
            blowing_orb: None,
            x: 0,
            y: 0,
            image: blank,
            anchor: GRAVITY_ACTOR_DEFAULT_ANCHOR,
            vel_y: 0,
            landed: false,
        }
    }

    /// Puts the player at the start of a level: centred near the top,
    /// facing right, at full health and briefly invulnerable. Lives, score,
    /// image and landed flag are kept.
    pub fn reset(&mut self)
        ensures
            *final(self) == (Player {
                x: (WIDTH / 2) as i32,
                y: 100,
                vel_y: 0,
                direction_x: 1,
                fire_timer: 0,
                hurt_timer: 100,
                health: 3,
                blowing_orb: None,
                ..*old(self)
            }),
    {
        self.x = WIDTH / 2;
        self.y = 100;
        self.vel_y = 0;
        self.direction_x = 1;
        self.fire_timer = 0;
        self.hurt_timer = 100;
        self.health = 3;
        self.blowing_orb = None;
    }
}

impl Actor for Player {
    open spec fn pos_x(&self) -> i32 {
        self.x
    }

    open spec fn pos_y(&self) -> i32 {
        self.y
    }

    open spec fn spec_image(&self) -> Image {
        self.image
    }

    open spec fn spec_anchor(&self) -> Anchor {
        self.anchor
    }

    open spec fn at_pos(&self, x: i32, y: i32) -> Self {
        Player { x, y, ..*self }
    }

    proof fn lemma_at_pos(&self, x: i32, y: i32, x2: i32, y2: i32) {
    }

    fn x(&self) -> i32 {
        self.x
    }

    fn set_x(&mut self, v: i32) {
        self.x = v;
    }

    fn y(&self) -> i32 {
        self.y
    }

    fn set_y(&mut self, v: i32) {
        self.y = v;
    }

    fn image(&self) -> Image {
        self.image
    }

    fn anchor(&self) -> Anchor {
        self.anchor
    }
}

impl CollideActor for Player {

}

impl GravityActor for Player {
    open spec fn spec_vel_y(&self) -> i32 {
        self.vel_y
    }

    open spec fn spec_landed(&self) -> bool {
        self.landed
    }

    open spec fn with_fall(&self, vel_y: i32, landed: bool) -> Self {
        Player { vel_y, landed, ..*self }
    }

    proof fn lemma_with_fall(&self, v: i32, l: bool, x: i32, y: i32, v2: i32, l2: bool) {
    }

    fn vel_y(&self) -> i32 {
        self.vel_y
    }

    fn set_vel_y(&mut self, v: i32) {
        self.vel_y = v;
    }

    fn landed(&self) -> bool {
        self.landed
    }

    fn set_landed(&mut self, v: bool) {
        self.landed = v;
    }
}

} // verus!
