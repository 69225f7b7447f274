//! Level play: opening doors in the tile map, finding a free slot in the
//! object table, waking objects that come into view, and the warp to the
//! next level.
use vstd::prelude::*;

use crate::catacomb_ii::active_obj::activeobj;
use crate::catacomb_ii::catasm::VIEW_STRIDE;
use crate::catacomb_ii::inventory::{asked_sound, can_ask_sound};
use crate::catacomb_ii::pcrlib_a::PlaySound;
use crate::catacomb_ii::pcrlib_a_state::PcrlibAState;
use crate::catacomb_ii::pcrlib_c_state::PcrlibCState;
use crate::catacomb_ii::obj_type::objtype;

verus! {

/// The tile of an open floor.
pub const FLOOR_TILE: i32 = 128;
/// The tile of a vertical door (its parts are stacked).
pub const VDOOR_TILE: i32 = 165;
/// The tile of a horizontal door (its parts are side by side).
pub const HDOOR_TILE: i32 = 166;

/// The index of cell (x, y) of a tile map 86 cells wide, row by row.
pub open spec fn cell(x: int, y: int) -> int {
    y * VIEW_STRIDE + x
}

/// The column of cell index `i`.
pub open spec fn col_of(i: int) -> int {
    i % (VIEW_STRIDE as int)
}

/// The row of cell index `i`.
pub open spec fn row_of(i: int) -> int {
    i / (VIEW_STRIDE as int)
}

/// Whether cell (x, y) lies in a map of `len` cells.
pub open spec fn in_map(len: int, x: int, y: int) -> bool {
    0 <= x < VIEW_STRIDE && 0 <= y && cell(x, y) < len
}

/// A step to a neighbouring cell: one of (0, -1), (0, 1), (-1, 0), (1, 0).
pub open spec fn unit_step(dx: int, dy: int) -> bool {
    (dx == 0 && (dy == 1 || dy == -1)) || (dy == 0 && (dx == 1 || dx == -1))
}

/// How many cells of `tile` there are in a row from cell (x, y) on, going
/// (dx, dy) at a time, before a cell of another tile or the map's edge.
pub open spec fn run_from(map: Seq<i32>, x: int, y: int, dx: int, dy: int, tile: i32) -> nat
    decreases (if dy * VIEW_STRIDE + dx > 0 {
        map.len() + VIEW_STRIDE - cell(x, y)
    } else {
        cell(x, y) + VIEW_STRIDE + 1
    }),
{
    if unit_step(dx, dy) && in_map(map.len() as int, x, y) && map[cell(x, y)] == tile {
        1 + run_from(map, x + dx, y + dy, dx, dy, tile)
    } else {
        0
    }
}

/// `n` steps of `d`, where `d` is -1, 0 or 1.
pub open spec fn steps(n: int, d: int) -> int {
    if d == 0 {
        0
    } else if d > 0 {
        n
    } else {
        -n
    }
}

/// One step of a run: a cell of `tile` in the map, then the run after it.
pub proof fn lemma_run_step(map: Seq<i32>, x: int, y: int, dx: int, dy: int, tile: i32)
    ensures
        run_from(map, x, y, dx, dy, tile) == if unit_step(dx, dy) && in_map(map.len() as int, x, y)
            && map[cell(x, y)] == tile {
            1 + run_from(map, x + dx, y + dy, dx, dy, tile)
        } else {
            0
        },
{
}

/// Whether the cell that ends the run from (x, y) lies in the map, so that
/// the end of the run can be seen there.
pub open spec fn run_ends_in_map(map: Seq<i32>, x: int, y: int, dx: int, dy: int, tile: i32) -> bool {
    let n = run_from(map, x, y, dx, dy, tile) as int;
    in_map(map.len() as int, x + steps(n, dx), y + steps(n, dy))
}

/// Whether cell `i` is one of the first `n` cells from (x, y) going
/// (dx, dy) at a time.
pub open spec fn in_run(x: int, y: int, dx: int, dy: int, n: int, i: int) -> bool {
    let (cx, cy) = (col_of(i), row_of(i));
    &&& i >= 0
    &&& if dx == 0 {
        cx == x && if dy > 0 {
            y <= cy < y + n
        } else {
            y - n < cy <= y
        }
    } else {
        cy == y && if dx > 0 {
            x <= cx < x + n
        } else {
            x - n < cx <= x
        }
    }
}

/// Whether cell `i` lies on the ray from (x, y) going (dx, dy) at a time.
pub open spec fn on_ray(x: int, y: int, dx: int, dy: int, i: int) -> bool {
    let (cx, cy) = (col_of(i), row_of(i));
    &&& i >= 0
    &&& if dx == 0 {
        cx == x && if dy > 0 {
            cy >= y
        } else {
            cy <= y
        }
    } else {
        cy == y && if dx > 0 {
            cx >= x
        } else {
            cx <= x
        }
    }
}

/// The column and row of a cell index.
pub proof fn lemma_cell(x: int, y: int)
    requires
        0 <= x < VIEW_STRIDE,
        0 <= y,
    ensures
        col_of(cell(x, y)) == x,
        row_of(cell(x, y)) == y,
        cell(x, y) >= 0,
{
    let c = cell(x, y);
    assert(c == y * 86 + x);
    assert(c % 86 == x && c / 86 == y) by (nonlinear_arith)
        requires
            c == y * 86 + x,
            0 <= x < 86,
            0 <= y,
    ;
}

/// A cell index is the cell of its column and row.
pub proof fn lemma_cell_of(i: int)
    requires
        i >= 0,
    ensures
        i == cell(col_of(i), row_of(i)),
        0 <= col_of(i) < VIEW_STRIDE,
        row_of(i) >= 0,
{
    assert(i == (i / 86) * 86 + i % 86 && 0 <= i % 86 < 86 && i / 86 >= 0) by (nonlinear_arith)
        requires
            i >= 0,
    ;
}

/// A run depends only on the cells of its ray.
pub proof fn lemma_run_frame(m1: Seq<i32>, m2: Seq<i32>, x: int, y: int, dx: int, dy: int, tile: i32)
    requires
        m1.len() == m2.len(),
        forall|i: int| 0 <= i < m1.len() && on_ray(x, y, dx, dy, i) ==> m1[i] == m2[i],
    ensures
        run_from(m1, x, y, dx, dy, tile) == run_from(m2, x, y, dx, dy, tile),
    decreases (if dy * VIEW_STRIDE + dx > 0 {
        m1.len() + VIEW_STRIDE - cell(x, y)
    } else {
        cell(x, y) + VIEW_STRIDE + 1
    }),
{
    if unit_step(dx, dy) && in_map(m1.len() as int, x, y) {
        lemma_cell(x, y);
        assert(on_ray(x, y, dx, dy, cell(x, y)));
        assert forall|i: int| 0 <= i < m1.len() && on_ray(x + dx, y + dy, dx, dy, i) implies m1[i]
            == m2[i] by {
            assert(on_ray(x, y, dx, dy, i));
        }
        lemma_run_frame(m1, m2, x + dx, y + dy, dx, dy, tile);
    }
}

/// Turns to floor, in the view and the background, the run of `tile` cells
/// of the view from (x0, y0) going (dx, dy) at a time (see `run_from`).
fn clear_run(x0: i32, y0: i32, dx: i32, dy: i32, tile: i32, view: &mut [i32], background: &mut [i32])
    requires
        unit_step(dx as int, dy as int),
        old(background)@.len() == old(view)@.len(),
        old(view)@.len() <= i32::MAX,
        run_ends_in_map(old(view)@, x0 as int, y0 as int, dx as int, dy as int, tile),
    ensures
        ({
            let n = run_from(old(view)@, x0 as int, y0 as int, dx as int, dy as int, tile) as int;
            &&& final(view)@ == Seq::new(
                old(view)@.len(),
                |i: int|
                    if in_run(x0 as int, y0 as int, dx as int, dy as int, n, i) {
                        FLOOR_TILE
                    } else {
                        old(view)@[i]
                    },
            )
            &&& final(background)@ == Seq::new(
                old(background)@.len(),
                |i: int|
                    if in_run(x0 as int, y0 as int, dx as int, dy as int, n, i) {
                        FLOOR_TILE
                    } else {
                        old(background)@[i]
                    },
            )
        }),
{
    let ghost v0 = view@;
    let ghost b0 = background@;
    let ghost len = v0.len() as int;
    let ghost total = run_from(v0, x0 as int, y0 as int, dx as int, dy as int, tile) as int;
    let mut x: i32 = x0;
    let mut y: i32 = y0;
    let ghost mut k: int = 0;
    loop
        invariant
            unit_step(dx as int, dy as int),
            view@.len() == len,
            background@.len() == len,
            b0.len() == len,
            v0.len() == len,
            len <= i32::MAX,
            0 <= k <= total,
            x == x0 + steps(k, dx as int),
            y == y0 + steps(k, dy as int),
            total == k + run_from(v0, x as int, y as int, dx as int, dy as int, tile),
            in_map(len, x0 + steps(total, dx as int), y0 + steps(total, dy as int)),
            forall|i: int|
                0 <= i < len ==> #[trigger] view@[i] == if in_run(
                    x0 as int,
                    y0 as int,
                    dx as int,
                    dy as int,
                    k,
                    i,
                ) {
                    FLOOR_TILE
                } else {
                    v0[i]
                },
            forall|i: int|
                0 <= i < len ==> #[trigger] background@[i] == if in_run(
                    x0 as int,
                    y0 as int,
                    dx as int,
                    dy as int,
                    k,
                    i,
                ) {
                    FLOOR_TILE
                } else {
                    b0[i]
                },
        ensures
            k == total,
            forall|i: int|
                0 <= i < len ==> #[trigger] view@[i] == if in_run(
                    x0 as int,
                    y0 as int,
                    dx as int,
                    dy as int,
                    total,
                    i,
                ) {
                    FLOOR_TILE
                } else {
                    v0[i]
                },
            forall|i: int|
                0 <= i < len ==> #[trigger] background@[i] == if in_run(
                    x0 as int,
                    y0 as int,
                    dx as int,
                    dy as int,
                    total,
                    i,
                ) {
                    FLOOR_TILE
                } else {
                    b0[i]
                },
        decreases total - k,
    {
        proof {
            lemma_run_step(v0, x as int, y as int, dx as int, dy as int, tile);
            assert(in_map(len, x as int, y as int)) by {
                if k < total {
                    assert(run_from(v0, x as int, y as int, dx as int, dy as int, tile) > 0);
                } else {
                    assert(x == x0 + steps(total, dx as int) && y == y0 + steps(total, dy as int));
                }
            }
            lemma_cell(x as int, y as int);
        }
        let c: usize = (y as usize) * VIEW_STRIDE + (x as usize);
        assert(c == cell(x as int, y as int));
        assert(in_run(x0 as int, y0 as int, dx as int, dy as int, k, c as int) == false) by {
            if dx == 0 {
                assert(row_of(c as int) == y);
            } else {
                assert(col_of(c as int) == x);
            }
        }
        if view[c] != tile {
            proof {
                assert(run_from(v0, x as int, y as int, dx as int, dy as int, tile) == 0);
            }
            break;
        }
        view[c] = FLOOR_TILE;
        background[c] = FLOOR_TILE;
        proof {
            assert(run_from(v0, x as int, y as int, dx as int, dy as int, tile) == 1 + run_from(
                v0,
                x + dx,
                y + dy,
                dx as int,
                dy as int,
                tile,
            ));
            assert forall|i: int| 0 <= i < len implies in_run(
                x0 as int,
                y0 as int,
                dx as int,
                dy as int,
                k + 1,
                i,
            ) == (in_run(x0 as int, y0 as int, dx as int, dy as int, k, i) || i == c) by {
                if i == c {
                } else {
                    lemma_cell_of(i);
                }
            }
            k = k + 1;
        }
        x = x + dx;
        y = y + dy;
    }
    assert(view@ =~= Seq::new(
        len as nat,
        |i: int|
            if in_run(x0 as int, y0 as int, dx as int, dy as int, total, i) {
                FLOOR_TILE
            } else {
                v0[i]
            },
    ));
    assert(background@ =~= Seq::new(
        len as nat,
        |i: int|
            if in_run(x0 as int, y0 as int, dx as int, dy as int, total, i) {
                FLOOR_TILE
            } else {
                b0[i]
            },
    ));
}


/// Whether cell `i` is part of the door opened at (x, y): that cell, and
/// the door tiles of the view next to it in a row, up and down the column
/// for a vertical door, left and right along the row for a horizontal one.
pub open spec fn in_door(view: Seq<i32>, x: int, y: int, vertical: bool, i: int) -> bool {
    if vertical {
        let up = run_from(view, x, y - 1, 0, -1, VDOOR_TILE) as int;
        let down = run_from(view, x, y + 1, 0, 1, VDOOR_TILE) as int;
        i >= 0 && col_of(i) == x && y - up <= row_of(i) <= y + down
    } else {
        let left = run_from(view, x - 1, y, -1, 0, HDOOR_TILE) as int;
        let right = run_from(view, x + 1, y, 1, 0, HDOOR_TILE) as int;
        i >= 0 && row_of(i) == y && x - left <= col_of(i) <= x + right
    }
}

/// A map with the cells of the door at (x, y) (as `view` shows it) turned
/// to floor.
pub open spec fn opened(map: Seq<i32>, view: Seq<i32>, x: int, y: int, vertical: bool) -> Seq<i32> {
    Seq::new(map.len(), |i: int| if in_door(view, x, y, vertical, i) { FLOOR_TILE } else { map[i] })
}

/// The door at (x, y) can be opened without looking past the map: the
/// cells that end its runs lie in it.
pub open spec fn door_ok(view: Seq<i32>, x: int, y: int, vertical: bool) -> bool {
    if vertical {
        &&& run_ends_in_map(view, x, y - 1, 0, -1, VDOOR_TILE)
        &&& run_ends_in_map(view, x, y + 1, 0, 1, VDOOR_TILE)
    } else {
        &&& run_ends_in_map(view, x - 1, y, -1, 0, HDOOR_TILE)
        &&& run_ends_in_map(view, x + 1, y, 1, 0, HDOOR_TILE)
    }
}

/// Opens the door at (chkx, chky), where the tile `chkspot` was found: a
/// vertical door when it is the vertical door tile, else a horizontal one.
/// Plays sound 11 and turns the door's cells (see `in_door`) to floor, in
/// the view and in the background.
pub fn opendoor(
    chkx: i32,
    chky: i32,
    chkspot: i32,
    view: &mut [i32],
    background: &mut [i32],
    pas: &mut PcrlibAState,
)
    requires
        in_map(old(view)@.len() as int, chkx as int, chky as int),
        old(background)@.len() == old(view)@.len(),
        old(view)@.len() <= i32::MAX,
        can_ask_sound(*old(pas), 11),
        door_ok(old(view)@, chkx as int, chky as int, chkspot == VDOOR_TILE),
    ensures
        *final(pas) == asked_sound(*old(pas), 11),
        final(view)@ == opened(old(view)@, old(view)@, chkx as int, chky as int, chkspot == VDOOR_TILE),
        final(background)@ == opened(
            old(background)@,
            old(view)@,
            chkx as int,
            chky as int,
            chkspot == VDOOR_TILE,
        ),
{
    PlaySound(11, pas);
    let ghost v0 = view@;
    let ghost b0 = background@;
    let ghost len = v0.len() as int;
    let ghost vertical = chkspot == VDOOR_TILE;
    let ghost (x, y) = (chkx as int, chky as int);
    proof {
        lemma_cell(x, y);
    }
    let c: usize = (chky as usize) * VIEW_STRIDE + (chkx as usize);
    view[c] = FLOOR_TILE;
    background[c] = FLOOR_TILE;
    let ghost v1 = view@;
    let ghost b1 = background@;
    let (dx, dy, tile): (i32, i32, i32) = if chkspot == VDOOR_TILE {
        (0, -1, VDOOR_TILE)
    } else {
        (-1, 0, HDOOR_TILE)
    };
    let ghost (sx1, sy1) = (x + dx, y + dy);
    let ghost (sx2, sy2) = (x - dx, y - dy);
    let ghost n1 = run_from(v0, sx1, sy1, dx as int, dy as int, tile) as int;
    let ghost n2 = run_from(v0, sx2, sy2, -dx as int, -dy as int, tile) as int;
    proof {
        assert forall|i: int| 0 <= i < len && on_ray(sx1, sy1, dx as int, dy as int, i) implies v1[i]
            == v0[i] by {
            if i == c {
                assert(on_ray(sx1, sy1, dx as int, dy as int, c as int) == false);
            }
        }
        lemma_run_frame(v1, v0, sx1, sy1, dx as int, dy as int, tile);
    }
    clear_run(chkx + dx, chky + dy, dx, dy, tile, view, background);
    let ghost v2 = view@;
    let ghost b2 = background@;
    proof {
        assert forall|i: int| 0 <= i < len && on_ray(sx2, sy2, -dx as int, -dy as int, i) implies v2[i]
            == v0[i] by {
            assert(!in_run(sx1, sy1, dx as int, dy as int, n1, i));
            if i == c {
                assert(on_ray(sx2, sy2, -dx as int, -dy as int, c as int) == false);
            }
        }
        lemma_run_frame(v2, v0, sx2, sy2, -dx as int, -dy as int, tile);
    }
    clear_run(chkx - dx, chky - dy, -dx, -dy, tile, view, background);
    proof {
        assert forall|i: int| 0 <= i < len implies in_door(v0, x, y, vertical, i) == (i == c || in_run(
            sx1,
            sy1,
            dx as int,
            dy as int,
            n1,
            i,
        ) || in_run(sx2, sy2, -dx as int, -dy as int, n2, i)) by {
            lemma_cell_of(i);
        }
        assert(view@ =~= opened(v0, v0, x, y, vertical));
        assert(background@ =~= opened(b0, v0, x, y, vertical));
    }
}


/// The first slot from `i` to `last` whose object has class 0 (no
/// object), if there is one.
pub open spec fn first_free(o: Seq<activeobj>, i: int, last: int) -> Option<int>
    decreases last - i + 1,
{
    if i > last {
        None
    } else if o[i].class == 0 {
        Some(i)
    } else {
        first_free(o, i + 1, last)
    }
}

/// The slot that `newobject` takes: the first free one of slots 1 to
/// `numobj`, else a new slot after them while there are fewer than
/// `maxobj`, else slot `numobj` itself.
pub open spec fn new_slot(o: Seq<activeobj>, numobj: int, maxobj: int) -> int {
    match first_free(o, 1, numobj) {
        Some(i) => i,
        None => if numobj < maxobj {
            numobj + 1
        } else {
            numobj
        },
    }
}

/// Where `first_free` finds a slot, it is free and lies in the range.
proof fn lemma_first_free(o: Seq<activeobj>, i: int, last: int)
    ensures
        first_free(o, i, last) matches Some(j) ==> i <= j <= last && o[j].class == 0,
    decreases last - i + 1,
{
    if i <= last && o[i].class != 0 {
        lemma_first_free(o, i + 1, last);
    }
}

/// Finds a slot for a new object (see `new_slot`), counting a new slot in
/// `numobj`, and marks the slot's object as not yet drawn (its old tile
/// -1, its old position 0, 0). Returns the slot.
pub fn newobject(o: &mut [activeobj], numobj: &mut i32, maxobj: i32) -> (r: i32)
    requires
        0 <= *old(numobj) < old(o)@.len(),
        *old(numobj) < maxobj ==> *old(numobj) + 1 < old(o)@.len(),
    ensures
        r == new_slot(old(o)@, *old(numobj) as int, maxobj as int),
        0 <= r < old(o)@.len(),
        *final(numobj) == if first_free(old(o)@, 1, *old(numobj) as int) is None && *old(numobj) < maxobj {
            *old(numobj) + 1
        } else {
            *old(numobj) as int
        },
        final(o)@ == old(o)@.update(
            r as int,
            activeobj { oldtile: -1i16, oldx: 0u8, oldy: 0u8, ..old(o)@[r as int] },
        ),
{
    let ghost o0 = o@;
    let n = *numobj;
    let mut found: Option<i32> = None;
    let mut i: i64 = 1;
    while i <= n as i64
        invariant_except_break
            found is None,
        invariant
            1 <= i <= n + 1,
            0 <= n < o@.len(),
            o@ == o0,
            first_free(o0, 1, n as int) == first_free(o0, i as int, n as int),
        ensures
            found matches Some(f) ==> first_free(o0, 1, n as int) == Some(f as int),
            found is None ==> first_free(o0, 1, n as int) is None,
        decreases n - i + 1,
    {
        if o[i as usize].class == 0 {
            found = Some(i as i32);
            break;
        }
        i = i + 1;
    }
    let slot = match found {
        Some(f) => f,
        None => {
            if *numobj < maxobj {
                *numobj = *numobj + 1;
            }
            *numobj
        },
    };
    proof {
        lemma_first_free(o0, 1, n as int);
    }
    let ghost before = o@[slot as int];
    o[slot as usize].oldtile = -1;
    o[slot as usize].oldx = 0;
    o[slot as usize].oldy = 0;
    assert(o@[slot as int] == activeobj { oldtile: -1i16, oldx: 0u8, oldy: 0u8, ..before });
    assert(o@ =~= o0.update(slot as int, activeobj { oldtile: -1i16, oldx: 0u8, oldy: 0u8, ..before }));
    slot
}


/// Whether an object at (x, y) of `size` cells overlaps, or touches from
/// above or the left, the 24 by 24 cells of the play window whose top-left
/// cell is (ox, oy).
pub open spec fn near_window(x: int, y: int, size: int, ox: int, oy: int) -> bool {
    x + size >= ox && x < ox + 24 && y + size >= oy && y < oy + 24
}

/// Wakes an inactive object that comes near the play window (see
/// `near_window`): it becomes active facing north, and is saved back to
/// slot `objecton` of the object table. Otherwise nothing changes.
pub fn doinactive(obj: &mut objtype, origin_x: i32, origin_y: i32, o: &mut [activeobj], objecton: usize)
    requires
        origin_x <= i32::MAX - 24,
        origin_y <= i32::MAX - 24,
        near_window(
            old(obj).x as int,
            old(obj).y as int,
            old(obj).size as int,
            origin_x as int,
            origin_y as int,
        ) ==> objecton < old(o)@.len(),
    ensures
        if near_window(
            old(obj).x as int,
            old(obj).y as int,
            old(obj).size as int,
            origin_x as int,
            origin_y as int,
        ) {
            &&& *final(obj) == (objtype { active: true, dir: 0, ..*old(obj) })
            &&& final(o)@ == old(o)@.update(objecton as int, activeobj::of_objtype(*final(obj)))
        } else {
            &&& *final(obj) == *old(obj)
            &&& final(o)@ == old(o)@
        },
{
    if obj.x as i32 + obj.size as i32 >= origin_x && (obj.x as i32) < origin_x + 24 && obj.y as i32
        + obj.size as i32 >= origin_y && (obj.y as i32) < origin_y + 24 {
        obj.active = true;
        obj.dir = crate::catacomb_ii::dir_type::dirtype::north.to_u32() as u16;
        o[objecton] = activeobj::from(*obj);
    }
}

/// The character of a warp digit tile: the tile less 161, as a byte, when
/// that is a digit; `default` otherwise.
pub open spec fn warp_digit(tile: i32, default: u8) -> u8 {
    let c = (tile - 161) as u8;
    if 48 <= c <= 57 {
        c
    } else {
        default
    }
}

/// The level number written by the two tiles under the level's exit: the
/// first digit (0 when the tile is no digit) and, when the second tile is a
/// digit, the second one.
pub open spec fn warp_level(first: i32, second: i32) -> int {
    let d0 = warp_digit(first, 48);
    let d1 = warp_digit(second, 32);
    if d1 == 32 {
        d0 - 48
    } else {
        (d0 - 48) * 10 + (d1 - 48)
    }
}

/// The level after one is cleared: the warp level under the exit when it
/// is above 0, else the next level.
pub open spec fn next_level(level: i16, warp: int) -> int {
    if warp > 0 {
        warp
    } else {
        level + 1
    }
}

/// Clears the level whose exit was reached at (x, y): the level becomes the
/// one the warp tiles two rows below the exit name (see `warp_level`), or
/// the next one. Returns whether that is past level 30, which wins the
/// game.
pub fn levelcleared(x: u8, y: u8, background: &[i32], pcs: &mut PcrlibCState) -> (won: bool)
    requires
        (x as int) + 1 < VIEW_STRIDE,
        cell(x as int + 1, y as int + 2) < background@.len(),
        background@[cell(x as int, y as int + 2)] >= i32::MIN + 161,
        background@[cell(x as int + 1, y as int + 2)] >= i32::MIN + 161,
        warp_level(background@[cell(x as int, y as int + 2)], background@[cell(x as int + 1, y as int + 2)]) <= 0
            ==> old(pcs).level < i16::MAX,
    ensures
        ({
            let warp = warp_level(
                background@[cell(x as int, y as int + 2)],
                background@[cell(x as int + 1, y as int + 2)],
            );
            &&& final(pcs).level == next_level(old(pcs).level, warp)
            &&& *final(pcs) == (PcrlibCState { level: final(pcs).level, ..*old(pcs) })
            &&& won == (final(pcs).level > 30)
        }),
{
    let row: usize = (y as usize + 2) * VIEW_STRIDE;
    let mut d0: u8 = (background[row + x as usize] - 161) as u8;
    if d0 < 48 || d0 > 57 {
        d0 = 48;
    }
    let mut d1: u8 = (background[row + x as usize + 1] - 161) as u8;
    if d1 < 48 || d1 > 57 {
        d1 = 32;
    }
    let value: i16 = if d1 == 32 {
        (d0 - 48) as i16
    } else {
        ((d0 - 48) * 10 + (d1 - 48)) as i16
    };
    if value > 0 {
        pcs.level = value;
    } else {
        pcs.level = pcs.level + 1;
    }
    pcs.level > 30
}


/// The stage after `s`, 8-bit: 255 is followed by 0.
pub open spec fn next_stage(s: u8) -> u8 {
    if s == 255 {
        0
    } else {
        (s + 1) as u8
    }
}

/// An idle object's animation: the next stage, back to 0 after the last,
/// and two frames of delay.
pub fn idlethink(obj: &mut objtype)
    ensures
        *final(obj) == (objtype {
            stage: if next_stage(old(obj).stage) == old(obj).stages { 0 } else { next_stage(old(obj).stage) },
            delay: 2,
            ..*old(obj)
        }),
{
    obj.stage = obj.stage.wrapping_add(1);
    obj.delay = 2;
    if obj.stage == obj.stages {
        obj.stage = 0;
    }
}

/// A fading object's animation: the next stage and two frames of delay;
/// after the last stage the object is gone (class 0).
pub fn fadethink(obj: &mut objtype)
    ensures
        *final(obj) == (objtype {
            stage: next_stage(old(obj).stage),
            delay: 2,
            class: if next_stage(old(obj).stage) == old(obj).stages { 0 } else { old(obj).class },
            ..*old(obj)
        }),
{
    obj.stage = obj.stage.wrapping_add(1);
    obj.delay = 2;
    if obj.stage == obj.stages {
        obj.class = 0;
    }
}

} // verus!
