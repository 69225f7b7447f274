use vstd::prelude::*;

use crate::cavern::actor::{Actor, Anchor, Image};
use crate::cavern::random::random_range;

verus! {

/// The two kinds of robot enemy.
#[derive(Clone, Copy, Debug, PartialEq, Eq, Structural)]
pub enum RobotType {
    Aggressive,
    Normal,
}

impl RobotType {
    /// The number of the robot type: 0 for the normal robot, 1 for the
    /// more dangerous aggressive one.
    pub open spec fn value(self) -> int {
        match self {
            RobotType::Normal => 0,
            RobotType::Aggressive => 1,
        }
    }

    /// The number of the robot type (see `value`).
    pub fn val(&self) -> (r: i32)
        ensures
            r == self.value(),
    {
        match self {
            RobotType::Normal => 0,
            RobotType::Aggressive => 1,
        }
    }
}

/// A robot enemy.
pub struct Robot {
    pub x: i32,
    pub y: i32,
    pub image: Image,
    pub anchor: Anchor,
    pub type_: RobotType,
    pub speed: i32,
    pub direction_x: i32,
    pub alive: bool,
    pub change_dir_timer: i32,
    pub fire_timer: i32,
}

impl Robot {
    /// A new robot of type `type_` standing at (x, y), facing right, with a
    /// random speed of 1 to 3 pixels per frame.
    pub fn new(x: i32, y: i32, type_: RobotType, blank: Image) -> (r: Self)
        ensures
            r == (Robot {
                x,
                y,
                image: blank,
                anchor: Anchor::CentreBottom,
                type_,
                speed: r.speed,
                direction_x: 1,
                alive: true,
                change_dir_timer: 0,
                fire_timer: 100,
            }),
            1 <= r.speed < 4,
    {
        Robot {
            x,
            y,
            image: blank,
            anchor: Anchor::CentreBottom,
            type_,
            speed: random_range(1, 4),
            direction_x: 1,
            alive: true,
            change_dir_timer: 0,
            fire_timer: 100,
        }
    }
}

impl Actor for Robot {
    open spec fn pos_x(&self) -> i32 {
        self.x
    }

    open spec fn pos_y(&self) -> i32 {
        self.y
    }

    open spec fn spec_image(&self) -> Image {
        self.image
    }

    open spec fn spec_anchor(&self) -> Anchor {
        self.anchor
    }

    open spec fn at_pos(&self, x: i32, y: i32) -> Self {
        Robot { x, y, ..*self }
    }

    proof fn lemma_at_pos(&self, x: i32, y: i32, x2: i32, y2: i32) {
    }

    fn x(&self) -> i32 {
        self.x
    }

    fn set_x(&mut self, v: i32) {
        self.x = v;
    }

    fn y(&self) -> i32 {
        self.y
    }

    fn set_y(&mut self, v: i32) {
        self.y = v;
    }

    fn image(&self) -> Image {
        self.image
    }

    fn anchor(&self) -> Anchor {
        self.anchor
    }
}

} // verus!
