use vstd::prelude::*;

use crate::cavern::actor::{Actor, Anchor};
use crate::cavern::{GRID_BLOCK_SIZE, LEVEL_X_OFFSET, NUM_COLUMNS, NUM_ROWS};
use crate::int_math::{div_trunc, rem_trunc};

verus! {

/// The anchor of actors that collide with the level.
pub const COLLIDE_ACTOR_DEFAULT_ANCHOR: Anchor = Anchor::Centre;

/// A level grid can be looked up: it has all its rows, and each row after
/// the first (which is never read) is empty or spans all the columns.
pub open spec fn grid_ok(grid: Seq<Vec<u8>>) -> bool {
    &&& grid.len() >= NUM_ROWS
    &&& forall|i: int|
        1 <= i < NUM_ROWS ==> #[trigger] grid[i]@.len() == 0 || grid[i]@.len() >= NUM_COLUMNS
}

/// Whether there is a level block at pixel (x, y): the grid cell under it
/// (rows after the first, within the grid) holds something other than a
/// space. Left of the grid (x below `LEVEL_X_OFFSET`) there is none.
pub open spec fn block_at(x: int, y: int, grid: Seq<Vec<u8>>) -> bool {
    let grid_x = div_trunc(x - LEVEL_X_OFFSET, GRID_BLOCK_SIZE as int);
    let grid_y = div_trunc(y, GRID_BLOCK_SIZE as int);
    if x >= LEVEL_X_OFFSET && grid_y > 0 && grid_y < NUM_ROWS {
        let row = grid[grid_y]@;
        grid_x >= 0 && grid_x < NUM_COLUMNS && row.len() > 0 && row[grid_x] != 32u8
    } else {
        false
    }
}

/// Is there a level grid block at these coordinates?
pub fn block(x: i32, y: i32, grid: &[Vec<u8>]) -> (r: bool)
    requires
        grid_ok(grid@),
    ensures
        r == block_at(x as int, y as int, grid@),
{
    if x < LEVEL_X_OFFSET {
        return false;
    }
    let grid_x = (x - LEVEL_X_OFFSET) / GRID_BLOCK_SIZE;
    let grid_y = y / GRID_BLOCK_SIZE;
    if grid_y > 0 && grid_y < NUM_ROWS {
        let row = &grid[grid_y as usize];
        assert(row@.len() == 0 || row@.len() >= NUM_COLUMNS);
        grid_x >= 0 && grid_x < NUM_COLUMNS && row.len() > 0 && row[grid_x as usize] != 32u8
    } else {
        false
    }
}

/// The outcome of moving up to `n` pixels by (dx, dy) one pixel at a time
/// from (x, y): the position reached and whether the move was stopped,
/// either by the level's left/right edge (x below 70 or above 730) or by a
/// block in the way (checked only when moving down onto a row boundary,
/// right onto a column boundary, or left onto the last pixel of a column).
pub open spec fn move_steps(x: int, y: int, dx: int, dy: int, n: nat, grid: Seq<Vec<u8>>) -> (
    int,
    int,
    bool,
)
    decreases n,
{
    if n == 0 {
        (x, y, false)
    } else {
        let nx = x + dx;
        let ny = y + dy;
        if nx < 70 || nx > 730 {
            (x, y, true)
        } else if (dy > 0 && rem_trunc(ny, GRID_BLOCK_SIZE as int) == 0 || dx > 0 && rem_trunc(
            nx,
            GRID_BLOCK_SIZE as int,
        ) == 0 || dx < 0 && rem_trunc(nx, GRID_BLOCK_SIZE as int) == GRID_BLOCK_SIZE - 1)
            && block_at(nx, ny, grid) {
            (x, y, true)
        } else {
            move_steps(nx, ny, dx, dy, (n - 1) as nat, grid)
        }
    }
}

/// A move of `speed` steps by (dx, dy) from (x, y) stays within machine
/// integers.
pub open spec fn move_ok(x: i32, y: i32, dx: i32, dy: i32, speed: i32) -> bool {
    &&& speed >= 0
    &&& i32::MIN <= x + speed * dx <= i32::MAX
    &&& i32::MIN <= y + speed * dy <= i32::MAX
}

proof fn lemma_move_range(a: int, d: int, k: int, speed: int)
    requires
        0 <= k <= speed,
        i32::MIN <= a <= i32::MAX,
        i32::MIN <= a + speed * d <= i32::MAX,
    ensures
        i32::MIN <= a + k * d <= i32::MAX,
{
    if d >= 0 {
        assert(k * d <= speed * d) by (nonlinear_arith)
            requires
                0 <= k <= speed,
                d >= 0,
        ;
        assert(k * d >= 0) by (nonlinear_arith)
            requires
                0 <= k,
                d >= 0,
        ;
    } else {
        assert(k * d >= speed * d) by (nonlinear_arith)
            requires
                0 <= k <= speed,
                d < 0,
        ;
        assert(k * d <= 0) by (nonlinear_arith)
            requires
                0 <= k,
                d < 0,
        ;
    }
}

/// An actor that moves through the level and collides with its blocks.
pub trait CollideActor: Actor {
    /// Moves up to `speed` pixels by (dx, dy), stopping before a collision
    /// (see `move_steps`); returns whether a collision stopped the move.
    fn move_(&mut self, dx: i32, dy: i32, speed: i32, grid: &[Vec<u8>]) -> (r: bool)
        requires
            grid_ok(grid@),
            move_ok(old(self).pos_x(), old(self).pos_y(), dx, dy, speed),
        ensures
            ({
                let m = move_steps(
                    old(self).pos_x() as int,
                    old(self).pos_y() as int,
                    dx as int,
                    dy as int,
                    speed as nat,
                    grid@,
                );
                &&& i32::MIN <= m.0 <= i32::MAX
                &&& i32::MIN <= m.1 <= i32::MAX
                &&& *final(self) == old(self).at_pos(m.0 as i32, m.1 as i32)
                &&& r == m.2
            }),
    {
        let (mut new_x, mut new_y) = (self.x(), self.y());
        let ghost x0 = new_x as int;
        let ghost y0 = new_y as int;
        proof {
            old(self).lemma_at_pos(new_x, new_y, new_x, new_y);
        }
        let mut i: i32 = 0;
        while i < speed
            invariant
                0 <= i <= speed,
                grid_ok(grid@),
                move_ok(x0 as i32, y0 as i32, dx, dy, speed),
                x0 == old(self).pos_x(),
                y0 == old(self).pos_y(),
                new_x == x0 + i * dx,
                new_y == y0 + i * dy,
                *self == old(self).at_pos(new_x, new_y),
                move_steps(x0, y0, dx as int, dy as int, speed as nat, grid@) == move_steps(
                    new_x as int,
                    new_y as int,
                    dx as int,
                    dy as int,
                    (speed - i) as nat,
                    grid@,
                ),
            decreases speed - i,
        {
            proof {
                lemma_move_range(x0, dx as int, i + 1, speed as int);
                lemma_move_range(y0, dy as int, i + 1, speed as int);
                assert((i + 1) * dx == i * dx + dx) by (nonlinear_arith);
                assert((i + 1) * dy == i * dy + dy) by (nonlinear_arith);
            }
            let ghost px = new_x as int;
            let ghost py = new_y as int;
            new_x += dx;
            new_y += dy;
            proof {
                assert(move_steps(px, py, dx as int, dy as int, (speed - i) as nat, grid@) == (
                    if new_x < 70 || new_x > 730 {
                        (px, py, true)
                    } else if (dy > 0 && rem_trunc(new_y as int, GRID_BLOCK_SIZE as int) == 0
                        || dx > 0 && rem_trunc(new_x as int, GRID_BLOCK_SIZE as int) == 0 || dx < 0
                        && rem_trunc(new_x as int, GRID_BLOCK_SIZE as int) == GRID_BLOCK_SIZE - 1)
                        && block_at(new_x as int, new_y as int, grid@) {
                        (px, py, true)
                    } else {
                        move_steps(
                            new_x as int,
                            new_y as int,
                            dx as int,
                            dy as int,
                            (speed - i - 1) as nat,
                            grid@,
                        )
                    }
                ));
            }
            if new_x < 70 || new_x > 730 {
                return true;
            }
            let rem_x = new_x % GRID_BLOCK_SIZE;
            let rem_y = new_y % GRID_BLOCK_SIZE;
            assert(rem_x == rem_trunc(new_x as int, GRID_BLOCK_SIZE as int));
            assert(rem_y == rem_trunc(new_y as int, GRID_BLOCK_SIZE as int));
            if (dy > 0 && rem_y == 0 || dx > 0 && rem_x == 0 || dx < 0 && rem_x == GRID_BLOCK_SIZE
                - 1) && block(
                new_x,
                new_y,
                grid,
            ) {
                return true;
            }
            proof {
                old(self).lemma_at_pos(px as i32, py as i32, new_x, py as i32);
                old(self).at_pos(px as i32, py as i32).lemma_at_pos(px as i32, py as i32, new_x, py as i32);
                old(self).lemma_at_pos(new_x, py as i32, new_x, new_y);
                old(self).at_pos(new_x, py as i32).lemma_at_pos(new_x, py as i32, new_x, new_y);
            }
            self.set_x(new_x);
            self.set_y(new_y);
            i += 1;
        }
        false
    }
}

/// A move never leaves the level: starting between the level's edges
/// (x from 70 to 730), the actor ends between them.
/// The point `k` steps of `d` on from `a`.
pub open spec fn along(a: int, d: int, k: int) -> int {
    a + k * d
}

/// A move of up to `n` steps of (dx, dy) goes some number `k` of whole
/// steps, from 0 to `n`, along its line.
pub proof fn lemma_move_steps_along(x: int, y: int, dx: int, dy: int, n: nat, grid: Seq<Vec<u8>>)
    ensures
        exists|k: int|
            0 <= k <= n && move_steps(x, y, dx, dy, n, grid).0 == #[trigger] along(x, dx, k) && move_steps(
                x,
                y,
                dx,
                dy,
                n,
                grid,
            ).1 == along(y, dy, k),
    decreases n,
{
    let r = move_steps(x, y, dx, dy, n, grid);
    if n == 0 || r == (x, y, true) {
        assert(r.0 == along(x, dx, 0) && r.1 == along(y, dy, 0));
    } else {
        let nx = x + dx;
        let ny = y + dy;
        lemma_move_steps_along(nx, ny, dx, dy, (n - 1) as nat, grid);
        let r1 = move_steps(nx, ny, dx, dy, (n - 1) as nat, grid);
        let k = choose|k: int| 0 <= k <= n - 1 && r1.0 == #[trigger] along(nx, dx, k) && r1.1 == along(ny, dy, k);
        assert(r == r1);
        assert(along(nx, dx, k) == along(x, dx, k + 1)) by (nonlinear_arith)
            requires
                nx == x + dx,
        ;
        assert(along(ny, dy, k) == along(y, dy, k + 1)) by (nonlinear_arith)
            requires
                ny == y + dy,
        ;
    }
}

pub proof fn lemma_move_stays_in_level(
    x: int,
    y: int,
    dx: int,
    dy: int,
    n: nat,
    grid: Seq<Vec<u8>>,
)
    requires
        70 <= x <= 730,
    ensures
        70 <= move_steps(x, y, dx, dy, n, grid).0 <= 730,
    decreases n,
{
    if n > 0 {
        let nx = x + dx;
        if !(nx < 70 || nx > 730) {
            lemma_move_stays_in_level(nx, y + dy, dx, dy, (n - 1) as nat, grid);
        }
    }
}

} // verus!
