use vstd::prelude::*;

use crate::cavern::actor::{covers, geometry_ok, Actor, Anchor, Image};
use crate::cavern::collide_actor::{
    grid_ok,
    move_ok,
    move_steps,
    CollideActor,
    COLLIDE_ACTOR_DEFAULT_ANCHOR,
};
use crate::cavern::orb::{Orb, MAX_TIMER};
use crate::cavern::resources::{resources_ok, Resources};
use crate::int_math::div_trunc;

verus! {

/// The horizontal speed of a bolt, in pixels per frame.
pub const BOLT_SPEED: i32 = 7;

/// A bolt fired by a robot.
pub struct Bolt {
    pub direction_x: i32,
    pub active: bool,
    pub x: i32,
    pub y: i32,
    pub image: Image,
    pub anchor: Anchor,
}

/// Whether the point (px, py) is on the orb's image.
pub open spec fn orb_hit(o: Orb, px: int, py: int) -> bool {
    covers(o.anchor, o.x, o.y, o.image, px, py)
}

/// Whether `j` is the first orb of the list that the point (px, py) hits.
pub open spec fn first_orb_hit(orbs: Seq<Orb>, px: int, py: int, j: int) -> bool {
    &&& 0 <= j < orbs.len()
    &&& orb_hit(orbs[j], px, py)
    &&& forall|k: int| 0 <= k < j ==> !#[trigger] orb_hit(orbs[k], px, py)
}

/// An orb hit by a bolt: it bursts on its next tick.
pub open spec fn burst_orb(o: Orb) -> Orb {
    Orb { timer: (MAX_TIMER - 1) as i32, ..o }
}

/// The animation frame of a bolt: 2 frames per direction (left first),
/// a new one every 4 ticks of the game time.
pub open spec fn bolt_frame(direction_x: int, game_timer: int) -> int {
    (if direction_x > 0 {
        2int
    } else {
        0int
    }) + div_trunc(game_timer, 4) % 2
}

/// Every orb of the list can be hit-tested.
pub open spec fn orbs_ok(orbs: Seq<Orb>) -> bool {
    forall|k: int| 0 <= k < orbs.len() ==> #[trigger] geometry_ok(orbs[k].x, orbs[k].y, orbs[k].image)
}

impl Bolt {
    /// A new active bolt at (x, y), flying in `direction_x`.
    pub fn new(x: i32, y: i32, direction_x: i32, blank: Image) -> (r: Self)
        ensures
            r == (Bolt {
                direction_x,
                active: true,
                x,
                y,
                image: blank,
                anchor: COLLIDE_ACTOR_DEFAULT_ANCHOR,
            }),
    {
        Bolt { direction_x, active: true, x, y, image: blank, anchor: COLLIDE_ACTOR_DEFAULT_ANCHOR }
    }
}

impl Bolt {
    /// One tick of the bolt: it moves `BOLT_SPEED` pixels along
    /// `direction_x` and is spent when a block or the level's edge stops it;
    /// otherwise the first orb of `orbs` on its new position is hit (set to
    /// burst, see `burst_orb`) and the bolt is spent. Its animation frame
    /// follows the game time.
    pub fn update(
        &mut self,
        orbs: &mut Vec<Orb>,
        game_timer: i32,
        grid: &[Vec<u8>],
        resources: &Resources,
    )
        requires
            grid_ok(grid@),
            resources_ok(resources),
            move_ok(old(self).x, old(self).y, old(self).direction_x, 0, BOLT_SPEED),
            orbs_ok(old(orbs)@),
            game_timer > -4,
        ensures
            ({
                let m = move_steps(
                    old(self).x as int,
                    old(self).y as int,
                    old(self).direction_x as int,
                    0,
                    BOLT_SPEED as nat,
                    grid@,
                );
                let hit = !m.2 && exists|j: int| first_orb_hit(old(orbs)@, m.0, m.1, j);
                &&& *final(self) == Bolt {
                    x: m.0 as i32,
                    y: m.1 as i32,
                    active: old(self).active && !m.2 && !hit,
                    image: resources.bolt_textures@[bolt_frame(
                        old(self).direction_x as int,
                        game_timer as int,
                    )],
                    ..*old(self)
                }
                &&& !hit ==> final(orbs)@ == old(orbs)@
                &&& hit ==> exists|j: int|
                    first_orb_hit(old(orbs)@, m.0, m.1, j) && final(orbs)@ == old(orbs)@.update(
                        j,
                        burst_orb(old(orbs)@[j]),
                    )
            }),
    {
        let ghost o0 = old(orbs)@;
        let direction_x = self.direction_x;
        if self.move_(direction_x, 0, BOLT_SPEED, grid) {
            self.active = false;
        } else {
            let ghost b1 = *self;
            let mut i: usize = 0;
            let mut found = false;
            while i < orbs.len() && !found
                invariant
                    i <= orbs.len(),
                    orbs@.len() == o0.len(),
                    orbs_ok(o0),
                    !found ==> *self == b1,
                    found ==> *self == (Bolt { active: false, ..b1 }),
                    !found ==> orbs@ == o0 && forall|k: int|
                        0 <= k < i ==> !#[trigger] orb_hit(o0[k], b1.x as int, b1.y as int),
                    found ==> i < o0.len() && first_orb_hit(o0, b1.x as int, b1.y as int, i as int)
                        && orbs@ == o0.update(i as int, burst_orb(o0[i as int])) && !self.active,
                decreases orbs.len() - i + if found {
                    0int
                } else {
                    1int
                },
            {
                let mut orb = orbs[i];
                assert(geometry_ok(o0[i as int].x, o0[i as int].y, o0[i as int].image));
                if orb.hit_test(self) {
                    orbs.set(i, orb);
                    self.active = false;
                    found = true;
                } else {
                    i += 1;
                }
            }
            proof {
                if !found {
                    assert forall|j: int| !first_orb_hit(o0, self.x as int, self.y as int, j) by {
                        if first_orb_hit(o0, self.x as int, self.y as int, j) {
                            assert(!orb_hit(o0[j], self.x as int, self.y as int));
                        }
                    }
                } else {
                    assert forall|j: int|
                        first_orb_hit(o0, self.x as int, self.y as int, j) implies j == i by {
                        if j < i {
                            assert(!orb_hit(o0[j], self.x as int, self.y as int));
                        }
                        if j > i {
                            assert(!orb_hit(o0[i as int], self.x as int, self.y as int));
                        }
                    }
                }
            }
        }
        let direction_factor = if self.direction_x > 0 {
            2
        } else {
            0
        };
        let timer_factor = (game_timer / 4) % 2;
        let image_i = (direction_factor + timer_factor) as usize;
        self.image = resources.bolt_textures[image_i];
    }
}

impl Actor for Bolt {
    open spec fn pos_x(&self) -> i32 {
        self.x
    }

    open spec fn pos_y(&self) -> i32 {
        self.y
    }

    open spec fn spec_image(&self) -> Image {
        self.image
    }

    open spec fn spec_anchor(&self) -> Anchor {
        self.anchor
    }

    open spec fn at_pos(&self, x: i32, y: i32) -> Self {
        Bolt { x, y, ..*self }
    }

    proof fn lemma_at_pos(&self, x: i32, y: i32, x2: i32, y2: i32) {
    }

    fn x(&self) -> i32 {
        self.x
    }

    fn set_x(&mut self, v: i32) {
        self.x = v;
    }

    fn y(&self) -> i32 {
        self.y
    }

    fn set_y(&mut self, v: i32) {
        self.y = v;
    }

    fn image(&self) -> Image {
        self.image
    }

    fn anchor(&self) -> Anchor {
        self.anchor
    }
}

impl CollideActor for Bolt {

}

} // verus!
