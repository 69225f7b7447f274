use vstd::prelude::*;

use crate::cavern::actor::{covers, geometry_ok, Actor, Anchor, Image};
use crate::cavern::bolt::Bolt;
use crate::cavern::collide_actor::{along, grid_ok, lemma_move_steps_along, move_ok, move_steps, CollideActor};
use crate::cavern::fruit::{fruit_at, fruit_choices, Fruit};
use crate::cavern::pop::Pop;
use crate::cavern::random::random_range;
use crate::cavern::resources::{resources_ok, Resources};
use crate::cavern::robot::RobotType;

verus! {

/// The age at which an orb bursts.
pub const MAX_TIMER: i32 = 250;

/// A bubble blown by the player, possibly holding a trapped robot.
#[derive(Clone, Copy)]
pub struct Orb {
    pub direction_x: i32,
    pub timer: i32,
    pub floating: bool,
    /// The number of frames during which the orb is pushed horizontally.
    pub blown_frames: i32,
    /// The type of robot trapped in the orb, if any.
    pub trapped_enemy_type: Option<RobotType>,
    pub x: i32,
    pub y: i32,
    pub image: Image,
    pub anchor: Anchor,
}

/// The image of an orb at age `timer` (at least 0): it grows over its
/// first 9 ticks (a frame every 3), then shows its trapped robot (8 frames
/// per robot type, a frame every 4 ticks) or, when empty, cycles through
/// 4 frames (a frame every 8 ticks).
pub open spec fn orb_image(timer: int, trapped: Option<RobotType>, resources: &Resources) -> Image {
    if timer < 9 {
        resources.orb_textures@[timer / 3]
    } else {
        match trapped {
            Some(t) => resources.trap_textures@[t.value() * 8 + (timer / 4) % 8],
            None => resources.orb_textures@[3 + ((timer - 9) / 8) % 4],
        }
    }
}

/// The orb after one tick in which its move reached `m` (position and
/// whether it was stopped): one tick older; floating once stopped while
/// blown or once its blown frames are over; with the image of its age.
pub open spec fn orb_after(o: Orb, m: (int, int, bool), resources: &Resources) -> Orb {
    let t = o.timer + 1;
    Orb {
        timer: t as i32,
        floating: t == o.blown_frames || o.floating || m.2,
        x: m.0 as i32,
        y: m.1 as i32,
        image: orb_image(t, o.trapped_enemy_type, resources),
        ..o
    }
}

/// Whether the orb bursts at the end of the tick that made it `o`: its
/// blown frames are not just over, and it is too old or has gone off the
/// top of the screen.
pub open spec fn orb_bursts(o: Orb) -> bool {
    o.timer != o.blown_frames && (o.timer >= MAX_TIMER || o.y <= -40)
}

impl Orb {
    /// A new orb at (x, y), blown horizontally in `direction_x`.
    pub fn new(x: i32, y: i32, direction_x: i32, blank: Image) -> (r: Self)
        ensures
            r == (Orb {
                direction_x,
                timer: -1i32,
                floating: false,
                blown_frames: 6,
                trapped_enemy_type: None,
                x,
                y,
                image: blank,
                anchor: Anchor::Centre,
            }),
    {
        Orb {
            direction_x,
            timer: -1,
            floating: false,
            blown_frames: 6,
            trapped_enemy_type: None,
            x,
            y,
            image: blank,
            anchor: Anchor::Centre,
        }
    }

    /// Checks whether the bolt's position is on the orb; if so, the orb is
    /// set to burst on its next update.
    pub fn hit_test(&mut self, bolt: &Bolt) -> (r: bool)
        requires
            geometry_ok(old(self).x, old(self).y, old(self).image),
        ensures
            r == covers(old(self).anchor, old(self).x, old(self).y, old(self).image, bolt.x as int, bolt.y as int),
            *final(self) == if r {
                Orb { timer: (MAX_TIMER - 1) as i32, ..*old(self) }
            } else {
                *old(self)
            },
    {
        let collided = self.collidepoint((bolt.x, bolt.y));
        if collided {
            self.timer = MAX_TIMER - 1;
        }
        collided
    }
}

impl Orb {
    /// One tick of the orb: a floating orb rises 1 or 2 pixels (picked at
    /// random), a blown one moves 4 pixels along `direction_x` and starts
    /// floating when stopped (see `orb_after`). A bursting orb (see
    /// `orb_bursts`) leaves a pop and, if it held a robot, a fruit.
    pub fn update(
        &mut self,
        fruits: &mut Vec<Fruit>,
        pops: &mut Vec<Pop>,
        grid: &[Vec<u8>],
        resources: &Resources,
    )
        requires
            grid_ok(grid@),
            resources_ok(resources),
            -1 <= old(self).timer < i32::MAX,
            move_ok(old(self).x, old(self).y, 0, -1i32, 2),
            move_ok(old(self).x, old(self).y, old(self).direction_x, 0, 4),
        ensures
            old(self).floating ==> exists|s: int|
                1 <= s < 3 && *final(self) == orb_after(
                    *old(self),
                    #[trigger] move_steps(
                        old(self).x as int,
                        old(self).y as int,
                        0,
                        -1,
                        s as nat,
                        grid@,
                    ),
                    resources,
                ),
            !old(self).floating ==> *final(self) == orb_after(
                *old(self),
                move_steps(
                    old(self).x as int,
                    old(self).y as int,
                    old(self).direction_x as int,
                    0,
                    4,
                    grid@,
                ),
                resources,
            ),
            final(pops)@ == if orb_bursts(*final(self)) {
                old(pops)@.push(
                    Pop {
                        timer: -1i32,
                        type_: 1i32,
                        x: final(self).x,
                        y: final(self).y,
                        image: resources.blank_texture,
                        anchor: Anchor::Centre,
                    },
                )
            } else {
                old(pops)@
            },
            orb_bursts(*final(self)) && old(self).trapped_enemy_type is Some ==> {
                let f = final(fruits)@.last();
                &&& final(fruits)@.len() == old(fruits)@.len() + 1
                &&& final(fruits)@.drop_last() == old(fruits)@
                &&& f == fruit_at(
                    final(self).x,
                    final(self).y,
                    old(self).trapped_enemy_type,
                    f.type_,
                    resources.blank_texture,
                )
                &&& fruit_choices(old(self).trapped_enemy_type).contains(f.type_)
            },
            !(orb_bursts(*final(self)) && old(self).trapped_enemy_type is Some) ==> final(fruits)@
                == old(fruits)@,
            final(self).timer != final(self).blown_frames && (final(self).y <= -40 || final(self).timer
                >= MAX_TIMER) ==> {
                &&& final(pops)@.len() == old(pops)@.len() + 1
                &&& final(pops)@.last().type_ == 1
                &&& final(pops)@.last().x == final(self).x
                &&& final(pops)@.last().y == final(self).y
                &&& old(self).trapped_enemy_type is Some ==> final(fruits)@.len() == old(fruits)@.len() + 1
                    && final(fruits)@.last().x == final(self).x && final(fruits)@.last().y == final(self).y
            },
            final(self).timer == old(self).timer + 1,
            old(self).floating ==> final(self).x == old(self).x && old(self).y - 2 <= final(self).y <= old(self).y,
            !old(self).floating ==> final(self).y == old(self).y && exists|k: int|
                0 <= k <= 4 && final(self).x == #[trigger] along(old(self).x as int, old(self).direction_x as int, k),
            old(self).floating || final(self).timer == old(self).blown_frames ==> final(self).floating,
            final(self).trapped_enemy_type == old(self).trapped_enemy_type,
            final(self).blown_frames == old(self).blown_frames,
            final(self).timer == final(self).blown_frames || (final(self).y > -40 && final(self).timer
                < MAX_TIMER) ==> final(pops)@ == old(pops)@ && final(fruits)@ == old(fruits)@,
    {
        let ghost o = *self;
        self.timer = self.timer + 1;
        let ghost o1 = *self;
        let ghost m;
        if self.floating {
            let speed = random_range(1, 3);
            self.move_(0, -1, speed, grid);
            proof {
                m = move_steps(o.x as int, o.y as int, 0, -1, speed as nat, grid@);
                lemma_move_steps_along(o.x as int, o.y as int, 0, -1, speed as nat, grid@);
            }
        } else {
            let direction_x = self.direction_x;
            if self.move_(direction_x, 0, 4, grid) {
                self.floating = true;
            }
            proof {
                m = move_steps(o.x as int, o.y as int, o.direction_x as int, 0, 4, grid@);
                lemma_move_steps_along(o.x as int, o.y as int, o.direction_x as int, 0, 4, grid@);
            }
        }
        if self.timer == self.blown_frames {
            self.floating = true;
        } else if self.timer >= MAX_TIMER || self.y <= -40 {
            pops.push(Pop::new(self.x, self.y, 1, resources.blank_texture));
            if let Some(trapped_enemy_type) = self.trapped_enemy_type {
                let fruit = Fruit::new(self.x, self.y, Some(trapped_enemy_type), resources.blank_texture);
                fruits.push(fruit);
            }
        }
        if self.timer < 9 {
            let timer_factor = self.timer / 3;
            self.image = resources.orb_textures[timer_factor as usize];
        } else {
            if let Some(trapped_enemy_type) = self.trapped_enemy_type {
                let enemy_type_factor = trapped_enemy_type.val() * 8;
                let timer_factor = (self.timer / 4) % 8;
                let image_i = (enemy_type_factor + timer_factor) as usize;
                self.image = resources.trap_textures[image_i];
            } else {
                let timer_factor = 3 + ((self.timer - 9) / 8) % 4;
                self.image = resources.orb_textures[timer_factor as usize];
            }
        }
        proof {
            assert(*self == orb_after(o, m, resources));
        }
    }
}

impl Actor for Orb {
    open spec fn pos_x(&self) -> i32 {
        self.x
    }

    open spec fn pos_y(&self) -> i32 {
        self.y
    }

    open spec fn spec_image(&self) -> Image {
        self.image
    }

    open spec fn spec_anchor(&self) -> Anchor {
        self.anchor
    }

    open spec fn at_pos(&self, x: i32, y: i32) -> Self {
        Orb { x, y, ..*self }
    }

    proof fn lemma_at_pos(&self, x: i32, y: i32, x2: i32, y2: i32) {
    }

    fn x(&self) -> i32 {
        self.x
    }

    fn set_x(&mut self, v: i32) {
        self.x = v;
    }

    fn y(&self) -> i32 {
        self.y
    }

    fn set_y(&mut self, v: i32) {
        self.y = v;
    }

    fn image(&self) -> Image {
        self.image
    }

    fn anchor(&self) -> Anchor {
        self.anchor
    }
}

impl CollideActor for Orb {

}

/// An orb that floats keeps floating.
pub proof fn lemma_orb_keeps_floating(o: Orb, m: (int, int, bool), resources: &Resources)
    requires
        o.floating,
    ensures
        orb_after(o, m, resources).floating,
{
}

/// An orb bursts at the end of any tick other than the one its blown
/// frames end on, once it is too old or has risen to 40 pixels above the
/// top of the screen or beyond; otherwise it does not burst.
pub proof fn lemma_orb_bursts_when_old_or_off_top(o: Orb)
    ensures
        o.timer != o.blown_frames && (o.y <= -40 || o.timer >= MAX_TIMER) ==> orb_bursts(o),
        o.timer == o.blown_frames || (o.y > -40 && o.timer < MAX_TIMER) ==> !orb_bursts(o),
{
}

} // verus!
