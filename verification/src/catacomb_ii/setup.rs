//! The game's start-up tables: the drawing priority of every tile and the
//! solid wall border of the tile map. The numbers of the classes and tiles
//! they depend on are the caller's.
use vstd::prelude::*;

use crate::catacomb_ii::catasm::VIEW_STRIDE;
use crate::catacomb_ii::obj_def_type::objdeftype;

verus! {

/// The classes and tile numbers the priority table is built from.
#[derive(Clone, Copy, Debug)]
pub struct PriorityLayout {
    /// The tile of open floor.
    pub blankfloor: usize,
    /// The first tile of the bigger (2 by 2 and up) pictures.
    pub tile2s: usize,
    /// The last tile.
    pub maxpics: usize,
    /// The classes of the teleporter, of the first and last dying objects
    /// whose tiles lie flat (dead2 to dead5), of the big shot and of the
    /// player.
    pub teleporter: usize,
    pub dead2: usize,
    pub dead5: usize,
    pub bigshot: usize,
    pub player: usize,
}

/// Whether tile `i` is one of `first` to `first + extra`.
pub open spec fn in_tiles(i: int, first: int, extra: int) -> bool {
    first <= i <= first + extra
}

/// Whether tile `i` belongs to a dying object that lies flat: one of the
/// `size * size + 1` tiles from the first tile of a class from `dead2` to
/// `dead5`.
pub open spec fn flat_dead(objdef: Seq<objdeftype>, l: PriorityLayout, i: int) -> bool {
    exists|c: int|
        l.dead2 <= c <= l.dead5 && #[trigger] in_tiles(
            i,
            objdef[c].firstchar as int,
            objdef[c].size * objdef[c].size,
        )
}

/// The drawing priority of tile `i`: 5 for the player's 64 tiles; 1 for the
/// chest (167); 2 for shots (152 to 161) and the big shot's 32 tiles; 0
/// for open floor, the teleporter's 21 tiles and flat dying objects; other
/// tiles 3 below `tile2s` (walls and the like), 4 up to `maxpics`
/// (monsters), and 99 past it.
pub open spec fn priority_of(objdef: Seq<objdeftype>, l: PriorityLayout, i: int) -> u8 {
    if in_tiles(i, objdef[l.player as int].firstchar as int, 63) {
        5
    } else if i == 167 {
        1
    } else if (152 <= i <= 161) || in_tiles(i, objdef[l.bigshot as int].firstchar as int, 31) {
        2
    } else if i == l.blankfloor || in_tiles(i, objdef[l.teleporter as int].firstchar as int, 20)
        || flat_dead(objdef, l, i) {
        0
    } else if i < l.tile2s {
        3
    } else if i <= l.maxpics {
        4
    } else {
        99
    }
}

/// Whether the table of `len` entries holds every tile the layout names.
pub open spec fn layout_ok(objdef: Seq<objdeftype>, l: PriorityLayout, len: int) -> bool {
    &&& l.teleporter < objdef.len() && l.bigshot < objdef.len() && l.player < objdef.len()
    &&& l.dead5 < objdef.len()
    &&& l.blankfloor < len && 167 < len && l.maxpics < len && l.tile2s <= l.maxpics + 1
    &&& objdef[l.teleporter as int].firstchar + 20 < len
    &&& objdef[l.bigshot as int].firstchar + 31 < len
    &&& objdef[l.player as int].firstchar + 63 < len
    &&& forall|c: int|
        l.dead2 <= c <= l.dead5 ==> #[trigger] objdef[c].firstchar + objdef[c].size
            * objdef[c].size < len
}

/// Sets entries `first` to `first + extra` of the table to `v`.
fn fill_range(p: &mut Vec<u8>, first: usize, extra: usize, v: u8)
    requires
        first + extra < old(p)@.len(),
    ensures
        final(p)@.len() == old(p)@.len(),
        forall|i: int|
            0 <= i < old(p)@.len() ==> #[trigger] final(p)@[i] == if in_tiles(
                i,
                first as int,
                extra as int,
            ) {
                v
            } else {
                old(p)@[i]
            },
{
    let plen: usize = p.len();
    let last: usize = first + extra;
    let mut i: usize = first;
    while i <= last
        invariant
            last == first + extra,
            plen == p@.len(),
            first <= i <= first + extra + 1,
            first + extra < p@.len(),
            p@.len() == old(p)@.len(),
            forall|j: int|
                0 <= j < p@.len() ==> #[trigger] p@[j] == if first <= j < i {
                    v
                } else {
                    old(p)@[j]
                },
        decreases last + 1 - i,
    {
        p.set(i, v);
        i += 1;
    }
}

/// Sets entries `first` to `last` that still hold 99 to `v`.
fn fill_unset(p: &mut Vec<u8>, first: usize, last: usize, v: u8)
    requires
        last < old(p)@.len(),
    ensures
        final(p)@.len() == old(p)@.len(),
        forall|i: int|
            0 <= i < old(p)@.len() ==> #[trigger] final(p)@[i] == if first <= i <= last
                && old(p)@[i] == 99 {
                v
            } else {
                old(p)@[i]
            },
{
    let plen: usize = p.len();
    let mut i: usize = first;
    while i <= last
        invariant
            plen == p@.len(),
            last < p@.len(),
            p@.len() == old(p)@.len(),
            first <= i,
            i <= last + 1 || i == first,
            forall|j: int|
                0 <= j < p@.len() ==> #[trigger] p@[j] == if first <= j < i && old(p)@[j] == 99 {
                    v
                } else {
                    old(p)@[j]
                },
        decreases last + 1 - i,
    {
        if p[i] == 99 {
            p.set(i, v);
        }
        i += 1;
    }
}

/// The drawing priority of every tile of a table of `len` entries (see
/// `priority_of`); an object is drawn over a tile whose priority is not
/// above its own.
pub fn object_priorities(objdef: &[objdeftype], l: PriorityLayout, len: usize) -> (p: Vec<u8>)
    requires
        layout_ok(objdef@, l, len as int),
    ensures
        p@.len() == len,
        forall|i: int| 0 <= i < len ==> #[trigger] p@[i] == priority_of(objdef@, l, i),
{
    let mut p: Vec<u8> = Vec::new();
    let mut k: usize = 0;
    while k < len
        invariant
            k <= len,
            p@.len() == k,
            forall|j: int| 0 <= j < k ==> #[trigger] p@[j] == 99,
        decreases len - k,
    {
        p.push(99);
        k += 1;
    }
    p.set(l.blankfloor, 0);
    fill_range(&mut p, objdef[l.teleporter].firstchar as usize, 20, 0);
    let ghost p2 = p@;
    let mut c: usize = l.dead2;
    while c <= l.dead5
        invariant
            l.dead2 <= c,
            c <= l.dead5 + 1 || c == l.dead2,
            layout_ok(objdef@, l, len as int),
            p@.len() == len,
            forall|j: int|
                0 <= j < len ==> #[trigger] p@[j] == if exists|cc: int|
                    l.dead2 <= cc < c && #[trigger] in_tiles(
                        j,
                        objdef@[cc].firstchar as int,
                        objdef@[cc].size * objdef@[cc].size,
                    ) {
                    0u8
                } else {
                    p2[j]
                },
        decreases l.dead5 + 1 - c,
    {
        let d = objdef[c];
        let sz: usize = d.size as usize;
        assert(sz * sz <= 65025) by (nonlinear_arith)
            requires
                sz <= 255,
        ;
        let extra: usize = sz * sz;
        assert(objdef@[c as int].firstchar + objdef@[c as int].size * objdef@[c as int].size < len);
        let ghost before = p@;
        fill_range(&mut p, d.firstchar as usize, extra, 0);
        proof {
            assert forall|j: int| 0 <= j < len implies #[trigger] p@[j] == if exists|cc: int|
                l.dead2 <= cc < c + 1 && #[trigger] in_tiles(
                    j,
                    objdef@[cc].firstchar as int,
                    objdef@[cc].size * objdef@[cc].size,
                ) {
                0u8
            } else {
                p2[j]
            } by {
                if in_tiles(j, objdef@[c as int].firstchar as int, objdef@[c as int].size
                    * objdef@[c as int].size) {
                    assert(l.dead2 <= c < c + 1);
                } else if exists|cc: int|
                    l.dead2 <= cc < c + 1 && #[trigger] in_tiles(
                        j,
                        objdef@[cc].firstchar as int,
                        objdef@[cc].size * objdef@[cc].size,
                    ) {
                    let cc = choose|cc: int|
                        l.dead2 <= cc < c + 1 && #[trigger] in_tiles(
                            j,
                            objdef@[cc].firstchar as int,
                            objdef@[cc].size * objdef@[cc].size,
                        );
                    assert(cc != c);
                }
            }
        }
        c += 1;
    }
    fill_range(&mut p, 152, 9, 2);
    fill_range(&mut p, objdef[l.bigshot].firstchar as usize, 31, 2);
    if l.tile2s > 0 {
        fill_unset(&mut p, 0, l.tile2s - 1, 3);
    }
    p.set(167, 1);
    fill_unset(&mut p, l.tile2s, l.maxpics, 4);
    fill_range(&mut p, objdef[l.player].firstchar as usize, 63, 5);
    proof {
        assert forall|i: int| 0 <= i < len implies #[trigger] p@[i] == priority_of(objdef@, l, i) by {
            if !(exists|cc: int|
                l.dead2 <= cc < l.dead5 + 1 && #[trigger] in_tiles(
                    i,
                    objdef@[cc].firstchar as int,
                    objdef@[cc].size * objdef@[cc].size,
                )) {
                assert(!flat_dead(objdef@, l, i));
            } else {
                let cc = choose|cc: int|
                    l.dead2 <= cc < l.dead5 + 1 && #[trigger] in_tiles(
                        i,
                        objdef@[cc].firstchar as int,
                        objdef@[cc].size * objdef@[cc].size,
                    );
                assert(in_tiles(i, objdef@[cc].firstchar as int, objdef@[cc].size * objdef@[cc].size));
                assert(flat_dead(objdef@, l, i));
            }
        }
    }
    p
}


/// The number of rows of the view: a row more than the background has.
pub const VIEW_ROWS: usize = 87;

/// The number of rows of the background.
pub const BACKGROUND_ROWS: usize = 86;

/// Whether the cell in row `r`, column `c` of the tile map is part of the
/// solid border: the `topoff` columns at each side of every row up to 85,
/// and the `leftoff` rows at the top and bottom in columns 11 to 74; in the
/// view also the whole of row 86.
pub open spec fn in_border(r: int, c: int, topoff: int, leftoff: int, view: bool) -> bool {
    ||| r <= 85 && (c < topoff || c >= 86 - topoff)
    ||| view && r == 86
    ||| 11 <= c <= 74 && (r < leftoff || r >= 86 - leftoff)
}

/// Walls the tile map in with `solidwall` (see `in_border`), in the view
/// and in the background; other cells keep their tiles.
pub fn wall_border(view: &mut [i32], background: &mut [i32], solidwall: i32, topoff: usize, leftoff: usize)
    requires
        old(view)@.len() == VIEW_ROWS * VIEW_STRIDE,
        old(background)@.len() == BACKGROUND_ROWS * VIEW_STRIDE,
        topoff <= 86,
        leftoff <= 86,
    ensures
        final(view)@.len() == old(view)@.len(),
        final(background)@.len() == old(background)@.len(),
        forall|i: int|
            0 <= i < old(view)@.len() ==> #[trigger] final(view)@[i] == if in_border(
                i / (VIEW_STRIDE as int),
                i % (VIEW_STRIDE as int),
                topoff as int,
                leftoff as int,
                true,
            ) {
                solidwall
            } else {
                old(view)@[i]
            },
        forall|i: int|
            0 <= i < old(background)@.len() ==> #[trigger] final(background)@[i] == if in_border(
                i / (VIEW_STRIDE as int),
                i % (VIEW_STRIDE as int),
                topoff as int,
                leftoff as int,
                false,
            ) {
                solidwall
            } else {
                old(background)@[i]
            },
{
    let mut i: usize = 0;
    while i < VIEW_ROWS * VIEW_STRIDE
        invariant
            i <= VIEW_ROWS * VIEW_STRIDE,
            view@.len() == VIEW_ROWS * VIEW_STRIDE,
            topoff <= 86,
            leftoff <= 86,
            forall|j: int|
                0 <= j < view@.len() ==> #[trigger] view@[j] == if j < i && in_border(
                    j / (VIEW_STRIDE as int),
                    j % (VIEW_STRIDE as int),
                    topoff as int,
                    leftoff as int,
                    true,
                ) {
                    solidwall
                } else {
                    old(view)@[j]
                },
        decreases VIEW_ROWS * VIEW_STRIDE - i,
    {
        let r: usize = i / VIEW_STRIDE;
        let c: usize = i % VIEW_STRIDE;
        if (r <= 85 && (c < topoff || c + topoff >= 86)) || r == 86 || (11 <= c && c <= 74 && (r
            < leftoff || r + leftoff >= 86)) {
            view[i] = solidwall;
        }
        i += 1;
    }
    let mut i: usize = 0;
    while i < BACKGROUND_ROWS * VIEW_STRIDE
        invariant
            i <= BACKGROUND_ROWS * VIEW_STRIDE,
            background@.len() == BACKGROUND_ROWS * VIEW_STRIDE,
            topoff <= 86,
            leftoff <= 86,
            forall|j: int|
                0 <= j < background@.len() ==> #[trigger] background@[j] == if j < i && in_border(
                    j / (VIEW_STRIDE as int),
                    j % (VIEW_STRIDE as int),
                    topoff as int,
                    leftoff as int,
                    false,
                ) {
                    solidwall
                } else {
                    old(background)@[j]
                },
        decreases BACKGROUND_ROWS * VIEW_STRIDE - i,
    {
        let r: usize = i / VIEW_STRIDE;
        let c: usize = i % VIEW_STRIDE;
        if (r <= 85 && (c < topoff || c + topoff >= 86)) || (11 <= c && c <= 74 && (r < leftoff
            || r + leftoff >= 86)) {
            background[i] = solidwall;
        }
        i += 1;
    }
}

} // verus!
