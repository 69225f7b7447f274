use vstd::prelude::*;

use crate::cavern::actor::{geometry_ok, top_left, Actor, Anchor, Image, COORD_LIMIT};
use crate::cavern::collide_actor::{grid_ok, move_steps, CollideActor};
use crate::cavern::HEIGHT;

verus! {

/// The anchor of actors that fall under gravity.
pub const GRAVITY_ACTOR_DEFAULT_ANCHOR: Anchor = Anchor::CentreBottom;

/// The largest downward speed, in pixels per frame.
pub const MAX_FALL_SPEED: i32 = 10;

/// The vertical speed after one frame of gravity: one more, at most
/// `MAX_FALL_SPEED`.
pub open spec fn fall_speed(vel_y: int) -> int {
    if vel_y + 1 < MAX_FALL_SPEED {
        vel_y + 1
    } else {
        MAX_FALL_SPEED as int
    }
}

/// The sign of `v`: -1, 0 or 1.
pub open spec fn sign(v: int) -> int {
    if v > 0 {
        1
    } else if v < 0 {
        -1
    } else {
        0
    }
}

/// The magnitude of `v`.
pub open spec fn magnitude(v: int) -> int {
    if v < 0 {
        -v
    } else {
        v
    }
}

/// One frame of gravity for an actor at (x, y) with vertical speed `vel_y`:
/// the new y, speed and landed flag. With `detect`, the actor moves through
/// the grid, stops on a block (speed 0, landed) and wraps to y = 1 when its
/// top has passed the bottom of the window; without it, it just moves.
pub open spec fn gravity_step(
    x: int,
    y: int,
    vel_y: int,
    landed: bool,
    detect: bool,
    image: Image,
    anchor: Anchor,
    grid: Seq<Vec<u8>>,
) -> (int, int, bool) {
    let v = fall_speed(vel_y);
    if detect {
        let m = move_steps(x, y, 0, sign(v), magnitude(v) as nat, grid);
        let vel2 = if m.2 {
            0
        } else {
            v
        };
        let landed2 = if m.2 {
            true
        } else {
            landed
        };
        let y2 = if top_left(anchor, x as i32, m.1 as i32, image).1 >= HEIGHT {
            1
        } else {
            m.1
        };
        (y2, vel2, landed2)
    } else {
        (y + v, v, landed)
    }
}

/// The point `k` steps of `d` from `a`.
pub open spec fn step_from(a: int, d: int, k: int) -> int {
    a + k * d
}

/// The position reached by `move_steps` lies on the path: `k` steps from
/// the start for some `k` between 0 and `n`.
pub proof fn lemma_move_steps_on_path(
    x: int,
    y: int,
    dx: int,
    dy: int,
    n: nat,
    grid: Seq<Vec<u8>>,
)
    ensures
        exists|k: int|
            0 <= k <= n && move_steps(x, y, dx, dy, n, grid).0 == #[trigger] step_from(x, dx, k)
                && move_steps(x, y, dx, dy, n, grid).1 == step_from(y, dy, k),
    decreases n,
{
    let m = move_steps(x, y, dx, dy, n, grid);
    if n == 0 {
        assert(m.0 == step_from(x, dx, 0) && m.1 == step_from(y, dy, 0));
    } else {
        let nx = x + dx;
        let ny = y + dy;
        if m == (x, y, true) {
            assert(m.0 == step_from(x, dx, 0) && m.1 == step_from(y, dy, 0));
        } else {
            assert(m == move_steps(nx, ny, dx, dy, (n - 1) as nat, grid));
            lemma_move_steps_on_path(nx, ny, dx, dy, (n - 1) as nat, grid);
            let k = choose|k: int|
                0 <= k <= n - 1 && move_steps(nx, ny, dx, dy, (n - 1) as nat, grid).0
                    == #[trigger] step_from(nx, dx, k) && move_steps(
                    nx,
                    ny,
                    dx,
                    dy,
                    (n - 1) as nat,
                    grid,
                ).1 == step_from(ny, dy, k);
            assert(m.0 == x + (k + 1) * dx && m.1 == y + (k + 1) * dy) by (nonlinear_arith)
                requires
                    m.0 == nx + k * dx,
                    m.1 == ny + k * dy,
                    nx == x + dx,
                    ny == y + dy,
            ;
            assert(m.0 == step_from(x, dx, k + 1) && m.1 == step_from(y, dy, k + 1));
        }
    }
}

/// An actor that falls under gravity and lands on the level's blocks.
pub trait GravityActor: CollideActor {
    spec fn spec_vel_y(&self) -> i32;

    spec fn spec_landed(&self) -> bool;

    /// The same actor with vertical speed `vel_y` and landed flag `landed`.
    spec fn with_fall(&self, vel_y: i32, landed: bool) -> Self;

    /// Setting the fall state changes the speed and the flag and nothing
    /// that the other spec functions see; of two settings only the last
    /// counts; setting and moving commute; moving keeps the fall state.
    proof fn lemma_with_fall(&self, v: i32, l: bool, x: i32, y: i32, v2: i32, l2: bool)
        ensures
            self.with_fall(v, l).spec_vel_y() == v,
            self.with_fall(v, l).spec_landed() == l,
            self.with_fall(v, l).pos_x() == self.pos_x(),
            self.with_fall(v, l).pos_y() == self.pos_y(),
            self.with_fall(v, l).spec_image() == self.spec_image(),
            self.with_fall(v, l).spec_anchor() == self.spec_anchor(),
            self.with_fall(v, l).with_fall(v2, l2) == self.with_fall(v2, l2),
            self.with_fall(v, l).at_pos(x, y) == self.at_pos(x, y).with_fall(v, l),
            self.at_pos(x, y).spec_vel_y() == self.spec_vel_y(),
            self.at_pos(x, y).spec_landed() == self.spec_landed(),
    ;

    fn vel_y(&self) -> (r: i32)
        ensures
            r == self.spec_vel_y(),
    ;

    fn set_vel_y(&mut self, v: i32)
        ensures
            *final(self) == old(self).with_fall(v, old(self).spec_landed()),
    ;

    fn landed(&self) -> (r: bool)
        ensures
            r == self.spec_landed(),
    ;

    fn set_landed(&mut self, v: bool)
        ensures
            *final(self) == old(self).with_fall(old(self).spec_vel_y(), v),
    ;

    /// One frame of gravity (see `gravity_step`): the actor keeps its x
    /// and takes the new y, speed and landed flag.
    fn update(&mut self, detect: bool, grid: &[Vec<u8>])
        requires
            grid_ok(grid@),
            geometry_ok(old(self).pos_x(), old(self).pos_y(), old(self).spec_image()),
            -COORD_LIMIT <= old(self).pos_y() + fall_speed(old(self).spec_vel_y() as int)
                <= COORD_LIMIT,
            old(self).spec_vel_y() < i32::MAX,
        ensures
            ({
                let g = gravity_step(
                    old(self).pos_x() as int,
                    old(self).pos_y() as int,
                    old(self).spec_vel_y() as int,
                    old(self).spec_landed(),
                    detect,
                    old(self).spec_image(),
                    old(self).spec_anchor(),
                    grid@,
                );
                &&& *final(self) == old(self).at_pos(old(self).pos_x(), g.0 as i32).with_fall(
                    g.1 as i32,
                    g.2,
                )
                &&& final(self).pos_y() == g.0
                &&& final(self).spec_vel_y() == g.1
                &&& final(self).spec_landed() == g.2
            }),
            final(self).pos_x() == old(self).pos_x(),
            final(self).spec_image() == old(self).spec_image(),
            final(self).spec_anchor() == old(self).spec_anchor(),
            geometry_ok(final(self).pos_x(), final(self).pos_y(), final(self).spec_image()),
    {
        let ghost s0 = *self;
        let ghost x0 = self.pos_x();
        let ghost y0 = self.pos_y();
        let ghost l0 = self.spec_landed();
        let vel = self.vel_y();
        let v = if vel + 1 < MAX_FALL_SPEED {
            vel + 1
        } else {
            MAX_FALL_SPEED
        };
        proof {
            s0.lemma_at_pos(x0, y0, x0, y0);
        }
        self.set_vel_y(v);
        if detect {
            let dir = if v > 0 {
                1
            } else if v < 0 {
                -1
            } else {
                0
            };
            let speed = if v < 0 {
                -v
            } else {
                v
            };
            assert(speed * dir == v) by (nonlinear_arith)
                requires
                    dir == sign(v as int),
                    speed == magnitude(v as int),
            ;
            proof {
                lemma_move_steps_on_path(x0 as int, y0 as int, 0, dir as int, speed as nat, grid@);
                s0.lemma_with_fall(v, l0, x0, y0, v, l0);
            }
            let ghost s1 = *self;
            let collided = self.move_(0, dir, speed, grid);
            let ghost m = move_steps(x0 as int, y0 as int, 0, dir as int, speed as nat, grid@);
            let ghost y1 = m.1 as i32;
            proof {
                let k = choose|k: int|
                    0 <= k <= speed && m.0 == #[trigger] step_from(x0 as int, 0, k) && m.1
                        == step_from(y0 as int, dir as int, k);
                assert(m.0 == x0 && m.1 == y0 + k * dir);
                assert(k * dir == 0 || (k * dir) * (v as int) > 0) by (nonlinear_arith)
                    requires
                        0 <= k <= speed,
                        dir == sign(v as int),
                ;
                assert(magnitude(k * dir) <= magnitude(v as int)) by (nonlinear_arith)
                    requires
                        0 <= k <= speed,
                        dir == sign(v as int),
                        speed == magnitude(v as int),
                ;
                s0.lemma_at_pos(x0, y0, x0, y1);
                s0.at_pos(x0, y0).lemma_with_fall(v, l0, x0, y1, v, l0);
                s0.lemma_at_pos(x0, y1, x0, y1);
                s0.at_pos(x0, y1).lemma_with_fall(v, l0, x0, y1, v, l0);
                s0.lemma_with_fall(v, l0, x0, y1, v, l0);
            }
            let ghost cur_v: i32 = v;
            let ghost cur_l: bool = l0;
            if collided {
                self.set_vel_y(0);
                self.set_landed(true);
                proof {
                    s0.at_pos(x0, y1).lemma_with_fall(v, l0, x0, y1, 0, l0);
                    s0.at_pos(x0, y1).lemma_with_fall(0, l0, x0, y1, 0, true);
                    s0.at_pos(x0, y1).lemma_with_fall(0, true, x0, y1, 0, true);
                    cur_v = 0;
                    cur_l = true;
                }
            }
            assert(*self == s0.at_pos(x0, y1).with_fall(cur_v, cur_l));
            let t = self.top();
            if t >= crate::cavern::HEIGHT {
                self.set_y(1);
                proof {
                    s0.at_pos(x0, y1).lemma_with_fall(cur_v, cur_l, x0, 1, cur_v, cur_l);
                    s0.lemma_at_pos(x0, y1, x0, 1);
                    s0.lemma_at_pos(x0, 1, x0, 1);
                    s0.at_pos(x0, 1).lemma_with_fall(cur_v, cur_l, x0, 1, cur_v, cur_l);
                }
            }
        } else {
            proof {
                s0.lemma_with_fall(v, l0, x0, y0, v, l0);
            }
            let y = self.y() + v;
            self.set_y(y);
            proof {
                s0.lemma_with_fall(v, l0, x0, y, v, l0);
                s0.lemma_at_pos(x0, y0, x0, y);
                s0.lemma_at_pos(x0, y, x0, y);
                s0.at_pos(x0, y).lemma_with_fall(v, l0, x0, y, v, l0);
            }
        }
    }
}

/// Gravity never makes an actor fall faster than `MAX_FALL_SPEED`.
pub proof fn lemma_fall_speed_capped(
    x: int,
    y: int,
    vel_y: int,
    landed: bool,
    detect: bool,
    image: Image,
    anchor: Anchor,
    grid: Seq<Vec<u8>>,
)
    ensures
        gravity_step(x, y, vel_y, landed, detect, image, anchor, grid).1 <= MAX_FALL_SPEED,
{
}

} // verus!
