//! Laying out a level: the 64 by 64 cells of an expanded level file go into
//! the tile map with a border of 11 cells; cells from 230 on are tokens
//! that place the player (token 0) and the other objects.
use vstd::prelude::*;

use crate::catacomb_ii::active_obj::activeobj;
use crate::catacomb_ii::catasm::VIEW_STRIDE;
use crate::catacomb_ii::obj_def_type::objdeftype;
use crate::catacomb_ii::pcrlib_a::{rndt, rndtable};
use crate::catacomb_ii::pcrlib_a_state::PcrlibAState;
use crate::catacomb_ii::saved_game::SavedGame;
use crate::catacomb_ii::pcrlib_c_state::PcrlibCState;
use crate::catacomb_ii::score_screen::lemma_decimal_plain;
use crate::catacomb_ii::text_window::{chars_drawn, draws_ok, plain_run, print_at};
use crate::int_math::{decimal, decimal_text};

verus! {

/// The number of cells of a level file, 64 by 64.
pub const LEVEL_CELLS: usize = 4096;

/// The first byte of a level file that is a token rather than a tile.
pub const FIRST_TOKEN: u8 = 230;

/// The tile map cells a level is laid out in and then copied to the view:
/// up to row 75 and column 74.
pub const MAP_CELLS: usize = 6525;

/// The column of the tile map that level cell `j` goes to.
pub open spec fn level_x(j: int) -> int {
    j % 64 + 11
}

/// The row of the tile map that level cell `j` goes to.
pub open spec fn level_y(j: int) -> int {
    j / 64 + 11
}

/// The tile a level byte puts in the map: the byte itself, or open floor
/// (128) under a token.
pub open spec fn level_tile(b: u8) -> i32 {
    if b < FIRST_TOKEN {
        b as i32
    } else {
        128
    }
}

/// Whether a level byte places an object other than the player.
pub open spec fn is_monster(b: u8) -> bool {
    b > FIRST_TOKEN
}

/// The number of objects other than the player placed by the first `k`
/// cells of the level.
pub open spec fn monsters_before(sm: Seq<u8>, k: int) -> int
    decreases k,
{
    if k <= 0 {
        0
    } else {
        monsters_before(sm, k - 1) + if is_monster(sm[k - 1]) {
            1int
        } else {
            0int
        }
    }
}

/// Where the first `k` cells of the level put the player: the last player
/// token among them, or (13, 13) when there is none.
pub open spec fn player_start(sm: Seq<u8>, k: int) -> (int, int)
    decreases k,
{
    if k <= 0 {
        (13, 13)
    } else if sm[k - 1] == FIRST_TOKEN {
        (level_x(k - 1), level_y(k - 1))
    } else {
        player_start(sm, k - 1)
    }
}

/// The index in the tile map of the cell level cell `j` goes to.
pub open spec fn map_index(j: int) -> int {
    level_y(j) * VIEW_STRIDE + level_x(j)
}

/// The level cell that goes to tile map index `i`, if any.
pub open spec fn level_cell_at(i: int) -> int {
    let r = i / (VIEW_STRIDE as int);
    let c = i % (VIEW_STRIDE as int);
    if 11 <= r < 75 && 11 <= c < 75 {
        (r - 11) * 64 + (c - 11)
    } else {
        -1
    }
}

/// The tile map after the first `k` cells of the level are laid out in it.
pub open spec fn laid_out(bg: Seq<i32>, sm: Seq<u8>, k: int) -> Seq<i32> {
    Seq::new(
        bg.len(),
        |i: int|
            {
                let j = level_cell_at(i);
                if 0 <= i && 0 <= j < k {
                    level_tile(sm[j])
                } else {
                    bg[i]
                }
            },
    )
}

/// The view after the part of the tile map a level occupies, with a border
/// of one cell, is copied into it: rows 10 to 75, columns 10 to 74.
pub open spec fn copied_view(view: Seq<i32>, bg: Seq<i32>) -> Seq<i32> {
    Seq::new(
        view.len(),
        |i: int|
            {
                let r = i / (VIEW_STRIDE as int);
                let c = i % (VIEW_STRIDE as int);
                if 10 <= r <= 75 && 10 <= c <= 74 {
                    bg[i]
                } else {
                    view[i]
                }
            },
    )
}

/// The player's record at the start of a level whose first `k` cells are
/// laid out: at its start (see `player_start`), facing east, not moving,
/// with nothing under it yet.
pub open spec fn player_placed(old0: activeobj, sm: Seq<u8>, k: int) -> activeobj {
    let (x, y) = player_start(sm, k);
    activeobj {
        x: x as u8,
        y: y as u8,
        stage: 0,
        delay: 0,
        dir: 1,
        oldx: 0,
        oldy: 0,
        oldtile: -1i16,
        ..old0
    }
}

/// The object level cell `j` places: asleep, of the class the token names
/// in `tokens`, with its class's hit points, facing the way the random
/// number drawn for it says (one draw per object, in order).
pub open spec fn monster_placed(
    oldn: activeobj,
    sm: Seq<u8>,
    j: int,
    tokens: Seq<u16>,
    objdef: Seq<objdeftype>,
    r0: int,
) -> activeobj {
    let class = tokens[sm[j] - FIRST_TOKEN];
    let x = level_x(j) as u8;
    let y = level_y(j) as u8;
    activeobj {
        active: false,
        class,
        x,
        y,
        stage: 0,
        delay: 0,
        dir: (rndtable@[(r0 + monsters_before(sm, j) + 1) % 256] / 64) as u16,
        hp: objdef[class as int].hitpoints as i8,
        oldx: x,
        oldy: y,
        oldtile: -1i16,
        ..oldn
    }
}

/// Counting objects goes up by at most one a cell.
proof fn lemma_monsters_before_mono(sm: Seq<u8>, j: int, k: int)
    requires
        0 <= j <= k,
    ensures
        monsters_before(sm, j) <= monsters_before(sm, k),
        monsters_before(sm, k) <= monsters_before(sm, j) + (k - j),
    decreases k - j,
{
    if j < k {
        lemma_monsters_before_mono(sm, j, k - 1);
    }
}

/// Counting objects never goes down.
proof fn lemma_monsters_before_mono_all(sm: Seq<u8>)
    ensures
        forall|a: int, b: int| 0 <= a <= b ==> #[trigger] monsters_before(sm, a) <= #[trigger] monsters_before(sm, b),
        forall|a: int| #[trigger] monsters_before(sm, a) >= 0,
{
    assert forall|a: int| #[trigger] monsters_before(sm, a) >= 0 by {
        if a > 0 {
            lemma_monsters_before_mono(sm, 0, a);
        }
    }
    assert forall|a: int, b: int| 0 <= a <= b implies #[trigger] monsters_before(sm, a) <= #[trigger] monsters_before(sm, b) by {
        lemma_monsters_before_mono(sm, a, b);
    }
}

/// Where level cell `j` goes in the tile map, and back.
proof fn lemma_map_index(j: int)
    requires
        0 <= j < LEVEL_CELLS,
    ensures
        0 <= map_index(j) < MAP_CELLS,
        level_cell_at(map_index(j)) == j,
        forall|i: int| 0 <= i && level_cell_at(i) == j ==> i == map_index(j),
{
    let x = j % 64;
    let y = j / 64;
    assert(0 <= x < 64 && 0 <= y < 64 && j == y * 64 + x);
    let i = (y + 11) * 86 + (x + 11);
    assert(i / 86 == y + 11 && i % 86 == x + 11) by (nonlinear_arith)
        requires
            i == (y + 11) * 86 + (x + 11),
            0 <= x < 64,
            0 <= y < 64,
    ;
    assert forall|i2: int| 0 <= i2 && level_cell_at(i2) == j implies i2 == map_index(j) by {
        let r = i2 / 86;
        let c = i2 % 86;
        assert(i2 == r * 86 + c) by (nonlinear_arith)
            requires
                r == i2 / 86,
                c == i2 % 86,
        ;
        assert((r - 11) * 64 + (c - 11) == j);
        assert(0 <= c - 11 < 64 && 0 <= r - 11 < 64);
        assert((r - 11) == j / 64 && (c - 11) == j % 64) by (nonlinear_arith)
            requires
                (r - 11) * 64 + (c - 11) == j,
                0 <= c - 11 < 64,
                0 <= r - 11,
        ;
    }
}

/// Lays out a level: the 64 by 64 cells of `sm` go into `background` with a
/// border of 11 cells (see `laid_out`); the player's record, slot 0 of `o`,
/// is put at its start (see `player_placed`); each other token, in order,
/// fills the next slot of `o` from 1 on with an object of the class that
/// `tokens` gives it (see `monster_placed`), drawing one random number for
/// its direction; then the occupied part of the map is copied into `view`
/// (see `copied_view`). Returns the number of objects placed besides the
/// player.
pub fn lay_out_level(
    sm: &[u8],
    tokens: &[u16; 26],
    objdef: &[objdeftype],
    o: &mut [activeobj],
    background: &mut [i32],
    view: &mut [i32],
    pas: &mut PcrlibAState,
) -> (numobj: i32)
    requires
        sm@.len() >= LEVEL_CELLS,
        forall|t: int| 0 <= t < 26 ==> (tokens[t] as int) < objdef@.len(),
        monsters_before(sm@, LEVEL_CELLS as int) < old(o)@.len(),
        old(background)@.len() >= MAP_CELLS,
        old(view)@.len() >= MAP_CELLS,
    ensures
        numobj == monsters_before(sm@, LEVEL_CELLS as int),
        final(background)@ == laid_out(old(background)@, sm@, LEVEL_CELLS as int),
        final(view)@ == copied_view(old(view)@, final(background)@),
        final(o)@.len() == old(o)@.len(),
        final(o)@[0] == player_placed(old(o)@[0], sm@, LEVEL_CELLS as int),
        forall|j: int|
            0 <= j < LEVEL_CELLS && is_monster(#[trigger] sm@[j]) ==> final(o)@[monsters_before(sm@, j)
                + 1] == monster_placed(
                old(o)@[monsters_before(sm@, j) + 1],
                sm@,
                j,
                tokens@,
                objdef@,
                old(pas).rndindex as int,
            ),
        forall|n: int| numobj < n < old(o)@.len() ==> final(o)@[n] == old(o)@[n],
        final(pas).rndindex == if numobj == 0 {
            old(pas).rndindex as int
        } else {
            (old(pas).rndindex + numobj) % 256
        },
        *final(pas) == (PcrlibAState { rndindex: final(pas).rndindex, ..*old(pas) }),
{
    let ghost o0 = o@;
    let ghost bg0 = background@;
    let ghost r0 = pas.rndindex as int;
    proof {
        lemma_monsters_before_mono_all(sm@);
    }
    let mut player: activeobj = o[0];
    player.x = 13;
    player.y = 13;
    player.stage = 0;
    player.delay = 0;
    player.dir = 1;
    player.oldx = 0;
    player.oldy = 0;
    player.oldtile = -1;
    let olen: usize = o.len();
    let mut numobj: usize = 0;
    let mut k: usize = 0;
    assert(background@ =~= laid_out(bg0, sm@, 0));
    while k < LEVEL_CELLS
        invariant
            0 <= k <= LEVEL_CELLS,
            sm@.len() >= LEVEL_CELLS,
            forall|t: int| 0 <= t < 26 ==> (tokens[t] as int) < objdef@.len(),
            monsters_before(sm@, LEVEL_CELLS as int) < o0.len(),
            bg0.len() >= MAP_CELLS,
            numobj == monsters_before(sm@, k as int),
            o@.len() == o0.len(),
            o0.len() == olen,
            forall|a: int| #[trigger] monsters_before(sm@, a) >= 0,
            background@ == laid_out(bg0, sm@, k as int),
            player == player_placed(o0[0], sm@, k as int),
            o@[0] == o0[0],
            forall|a: int, b: int| 0 <= a <= b ==> #[trigger] monsters_before(sm@, a) <= #[trigger] monsters_before(sm@, b),
            forall|j: int|
                0 <= j < k && is_monster(#[trigger] sm@[j]) ==> o@[monsters_before(sm@, j) + 1]
                    == monster_placed(o0[monsters_before(sm@, j) + 1], sm@, j, tokens@, objdef@, r0),
            forall|n: int| numobj < n < o0.len() ==> o@[n] == o0[n],
            pas.rndindex == if numobj == 0 {
                r0
            } else {
                (r0 + numobj) % 256
            },
            *pas == (PcrlibAState { rndindex: pas.rndindex, ..*old(pas) }),
            r0 == old(pas).rndindex,
        decreases LEVEL_CELLS - k,
    {
        proof {
            lemma_map_index(k as int);
            lemma_monsters_before_mono(sm@, k as int + 1, LEVEL_CELLS as int);
            lemma_monsters_before_mono(sm@, k as int, k as int + 1);
            assert forall|j: int| 0 <= j < k && is_monster(#[trigger] sm@[j]) implies monsters_before(
                sm@,
                j,
            ) + 1 <= monsters_before(sm@, k as int) by {
                lemma_monsters_before_mono(sm@, j + 1, k as int);
            }
        }
        let xx: usize = k % 64;
        let yy: usize = k / 64;
        let at: usize = (yy + 11) * VIEW_STRIDE + (xx + 11);
        assert(at == map_index(k as int));
        let btile: u8 = sm[k];
        let ghost before = background@;
        if btile < FIRST_TOKEN {
            background[at] = btile as i32;
        } else {
            background[at] = 128;
            if btile == FIRST_TOKEN {
                player.x = (xx + 11) as u8;
                player.y = (yy + 11) as u8;
            } else {
                let ghost m = numobj as int;
                assert(monsters_before(sm@, k as int + 1) == m + 1);
                numobj = numobj + 1;
                let class: u16 = tokens[(btile - FIRST_TOKEN) as usize];
                let dir: i32 = rndt(pas);
                proof {
                    assert(((r0 + m) % 256 + 1) % 256 == (r0 + m + 1) % 256) by (nonlinear_arith)
                        requires
                            m >= 0,
                            r0 >= 0,
                    ;
                    assert(pas.rndindex == (r0 + m + 1) % 256);
                }
                let x: u8 = (xx + 11) as u8;
                let y: u8 = (yy + 11) as u8;
                let filler = o[numobj].filler;
                o[numobj] = activeobj {
                    active: false,
                    class,
                    x,
                    y,
                    stage: 0,
                    delay: 0,
                    dir: (dir / 64) as u16,
                    hp: objdef[class as usize].hitpoints as i8,
                    oldx: x,
                    oldy: y,
                    oldtile: -1,
                    filler,
                };
                assert(o@[m + 1] == monster_placed(o0[m + 1], sm@, k as int, tokens@, objdef@, r0));
            }
        }
        proof {
            assert(background@ =~= laid_out(bg0, sm@, k as int + 1)) by {
                assert forall|i: int| 0 <= i < background@.len() implies background@[i] == laid_out(
                    bg0,
                    sm@,
                    k as int + 1,
                )[i] by {
                    if i == at {
                        assert(level_cell_at(i) == k);
                    } else {
                        assert(level_cell_at(i) != k);
                    }
                }
            }
        }
        k = k + 1;
    }
    let mut y: usize = 10;
    let ghost bg1 = background@;
    let ghost v0 = view@;
    while y <= 75
        invariant
            10 <= y <= 76,
            background@ == bg1,
            bg1.len() >= MAP_CELLS,
            v0.len() >= MAP_CELLS,
            view@.len() == v0.len(),
            forall|i: int|
                0 <= i < view@.len() ==> view@[i] == if 10 <= i / (VIEW_STRIDE as int) < y && 10
                    <= i % (VIEW_STRIDE as int) <= 74 {
                    bg1[i]
                } else {
                    v0[i]
                },
        decreases 76 - y,
    {
        let mut x: usize = 10;
        while x <= 74
            invariant
                10 <= y <= 75,
                10 <= x <= 75,
                background@ == bg1,
                bg1.len() >= MAP_CELLS,
                v0.len() >= MAP_CELLS,
                view@.len() == v0.len(),
                forall|i: int|
                    0 <= i < view@.len() ==> view@[i] == if (10 <= i / (VIEW_STRIDE as int) < y
                        && 10 <= i % (VIEW_STRIDE as int) <= 74) || (i / (VIEW_STRIDE as int) == y
                        && 10 <= i % (VIEW_STRIDE as int) < x) {
                        bg1[i]
                    } else {
                        v0[i]
                    },
            decreases 75 - x,
        {
            let at: usize = y * VIEW_STRIDE + x;
            proof {
                assert(at / 86 == y && at % 86 == x) by (nonlinear_arith)
                    requires
                        at == y * 86 + x,
                        0 <= x < 86,
                ;
            }
            view[at] = background[at];
            proof {
                assert forall|i: int| 0 <= i < view@.len() implies #[trigger] view@[i] == if (10
                    <= i / (VIEW_STRIDE as int) < y && 10 <= i % (VIEW_STRIDE as int) <= 74) || (i
                    / (VIEW_STRIDE as int) == y && 10 <= i % (VIEW_STRIDE as int) < x + 1) {
                    bg1[i]
                } else {
                    v0[i]
                } by {
                    if i != at && i / 86 == y && i % 86 == x {
                        assert(i == (i / 86) * 86 + i % 86) by (nonlinear_arith);
                    }
                }
            }
            x = x + 1;
        }
        y = y + 1;
    }
    assert(view@ =~= copied_view(v0, bg1));
    let ghost laid = o@;
    o[0] = player;
    proof {
        lemma_monsters_before_mono(sm@, 0, LEVEL_CELLS as int);
        assert forall|j: int| 0 <= j < LEVEL_CELLS && is_monster(#[trigger] sm@[j]) implies o@[monsters_before(sm@, j) + 1] == monster_placed(
            o0[monsters_before(sm@, j) + 1],
            sm@,
            j,
            tokens@,
            objdef@,
            r0,
        ) by {
            assert(monsters_before(sm@, j) >= 0);
            lemma_monsters_before_mono(sm@, j + 1, LEVEL_CELLS as int);
            assert(monsters_before(sm@, j + 1) == monsters_before(sm@, j) + 1);
            assert(o@[monsters_before(sm@, j) + 1] == laid[monsters_before(sm@, j) + 1]);
        }
    }
    numobj as i32
}


/// What a level's start leaves besides the map: the number of objects
/// besides the player, the top-left cell of the play window (11 cells up
/// and left of the player, who is in its middle), and the state a restart
/// of the level goes back to.
pub struct LevelStart {
    pub numobj: i32,
    pub origin_x: i32,
    pub origin_y: i32,
    pub saved: SavedGame,
}

/// Starts level `level` from its expanded map `sm` (see `lay_out_level`):
/// the play window is centred on the player, the shot power drops to 0,
/// and the items, score and player's record at the start are kept for a
/// restart of the level.
pub fn loadlevel(
    sm: &[u8],
    tokens: &[u16; 26],
    objdef: &[objdeftype],
    o: &mut [activeobj],
    background: &mut [i32],
    view: &mut [i32],
    pas: &mut PcrlibAState,
    items: &[i16],
    score: i32,
    level: i16,
    shotpower: &mut i32,
) -> (r: LevelStart)
    requires
        sm@.len() >= LEVEL_CELLS,
        forall|t: int| 0 <= t < 26 ==> (tokens[t] as int) < objdef@.len(),
        monsters_before(sm@, LEVEL_CELLS as int) < old(o)@.len(),
        old(background)@.len() >= MAP_CELLS,
        old(view)@.len() >= MAP_CELLS,
        items@.len() >= 6,
    ensures
        r.numobj == monsters_before(sm@, LEVEL_CELLS as int),
        final(background)@ == laid_out(old(background)@, sm@, LEVEL_CELLS as int),
        final(view)@ == copied_view(old(view)@, final(background)@),
        final(o)@.len() == old(o)@.len(),
        final(o)@[0] == player_placed(old(o)@[0], sm@, LEVEL_CELLS as int),
        forall|j: int|
            0 <= j < LEVEL_CELLS && is_monster(#[trigger] sm@[j]) ==> final(o)@[monsters_before(sm@, j)
                + 1] == monster_placed(
                old(o)@[monsters_before(sm@, j) + 1],
                sm@,
                j,
                tokens@,
                objdef@,
                old(pas).rndindex as int,
            ),
        forall|n: int| r.numobj < n < old(o)@.len() ==> final(o)@[n] == old(o)@[n],
        final(pas).rndindex == if r.numobj == 0 {
            old(pas).rndindex as int
        } else {
            (old(pas).rndindex + r.numobj) % 256
        },
        *final(pas) == (PcrlibAState { rndindex: final(pas).rndindex, ..*old(pas) }),
        r.origin_x == final(o)@[0].x - 11,
        r.origin_y == final(o)@[0].y - 11,
        *final(shotpower) == 0,
        forall|i: int| 0 <= i < 6 ==> #[trigger] r.saved.items[i] == items@[i],
        r.saved.score == score,
        r.saved.level == level,
        r.saved.player == final(o)@[0],
{
    proof {
        lemma_monsters_before_mono(sm@, 0, LEVEL_CELLS as int);
    }
    let numobj = lay_out_level(sm, tokens, objdef, o, background, view, pas);
    let player = o[0];
    *shotpower = 0;
    let saved = SavedGame {
        items: [items[0], items[1], items[2], items[3], items[4], items[5]],
        score,
        level,
        player,
    };
    LevelStart { numobj, origin_x: player.x as i32 - 11, origin_y: player.y as i32 - 11, saved }
}

/// The text showing level `level` in the side panel: its number and a
/// space (clearing what a longer number left).
pub open spec fn level_text(level: i16) -> Seq<u8> {
    decimal_text(level as int) + seq![32u8]
}

/// Shows the number of level `level` at column 33 of row 1 of the side
/// panel, as a new level starts (see `level_text`). The play window is then
/// drawn afresh by `restore`.
pub fn show_level(level: i16, screen: &mut [u8], pcs: &mut PcrlibCState)
    requires
        draws_ok(old(screen)@.len() as int, *old(pcs), plain_run(33, 1, level_text(level))),
    ensures
        final(screen)@ == chars_drawn(old(screen)@, *old(pcs), plain_run(33, 1, level_text(level))),
        *final(pcs) == (PcrlibCState { sx: (33 + level_text(level).len()) as i32, sy: 1, ..*old(pcs) }),
{
    let mut text = decimal(level as i32);
    text.push(32u8);
    proof {
        lemma_decimal_plain(level as int);
        assert(text@ =~= level_text(level));
    }
    print_at(33, 1, text.as_slice(), screen, pcs);
}

} // verus!
