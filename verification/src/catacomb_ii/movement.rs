//! How objects move: the cells a one-cell step uncovers, the order in which
//! a chasing monster tries directions, the player's steps and facing, the
//! charging of the player's shot, and when an object gets to think.
use vstd::prelude::*;

use crate::catacomb_ii::dir_type::dirtype;
use crate::catacomb_ii::obj_type::objtype;
use crate::catacomb_ii::pcrlib_a::{rndt, rndtable};
use crate::catacomb_ii::pcrlib_a_state::PcrlibAState;
use crate::catacomb_ii::scan_codes::{
    SDL_SCANCODE_B, SDL_SCANCODE_N, SDL_SCANCODE_P, SDL_SCANCODE_Q, SDL_SCANCODE_RETURN,
    SDL_SCANCODE_SPACE,
};
use crate::catacomb_ii::think_type::thinktype;

verus! {

/// The direction opposite `d`; `nodir` stays.
pub open spec fn opposite(d: dirtype) -> dirtype {
    match d {
        dirtype::north => dirtype::south,
        dirtype::east => dirtype::west,
        dirtype::south => dirtype::north,
        dirtype::west => dirtype::east,
        dirtype::northeast => dirtype::southwest,
        dirtype::southeast => dirtype::northwest,
        dirtype::southwest => dirtype::northeast,
        dirtype::northwest => dirtype::southeast,
        dirtype::nodir => dirtype::nodir,
    }
}

/// The direction opposite `d` (see `opposite`).
pub fn opposite_dir(d: dirtype) -> (r: dirtype)
    ensures
        r == opposite(d),
{
    match d {
        dirtype::north => dirtype::south,
        dirtype::east => dirtype::west,
        dirtype::south => dirtype::north,
        dirtype::west => dirtype::east,
        dirtype::northeast => dirtype::southwest,
        dirtype::southeast => dirtype::northwest,
        dirtype::southwest => dirtype::northeast,
        dirtype::northwest => dirtype::southeast,
        dirtype::nodir => dirtype::nodir,
    }
}

/// Turning round twice faces the way one started.
pub proof fn lemma_opposite_twice(d: dirtype)
    ensures
        opposite(opposite(d)) == d,
{
}

/// The columns a step in direction `d` moves: east is +1, west is -1.
pub open spec fn dir_dx(d: dirtype) -> int {
    match d {
        dirtype::east | dirtype::northeast | dirtype::southeast => 1,
        dirtype::west | dirtype::southwest | dirtype::northwest => -1,
        _ => 0,
    }
}

/// The rows a step in direction `d` moves: south is +1, north is -1.
pub open spec fn dir_dy(d: dirtype) -> int {
    match d {
        dirtype::south | dirtype::southeast | dirtype::southwest => 1,
        dirtype::north | dirtype::northeast | dirtype::northwest => -1,
        _ => 0,
    }
}

/// Whether `d` is one of north, east, south and west.
pub open spec fn is_cardinal(d: dirtype) -> bool {
    d.value() < 4
}

/// What a one-cell step of an object needs: where its top-left cell goes,
/// and the row or column of cells it newly covers, as its first cell and
/// the step from one of those cells to the next.
#[derive(Clone, Copy, Debug, PartialEq, Eq, Structural)]
pub struct WalkPlan {
    pub newx: i32,
    pub newy: i32,
    pub chkx: i32,
    pub chky: i32,
    pub deltax: i32,
    pub deltay: i32,
}

/// The step of a `size` by `size` object at (x, y) in the cardinal
/// direction `dir`: the object moves one cell; the cells it newly covers
/// start at its new top-left cell, except east (the column right of it) and
/// south (the row under it), and run across the direction of motion.
pub open spec fn walk_plan_of(x: u8, y: u8, size: u8, dir: dirtype) -> WalkPlan {
    let newx = x + dir_dx(dir);
    let newy = y + dir_dy(dir);
    WalkPlan {
        newx: newx as i32,
        newy: newy as i32,
        chkx: (if dir == dirtype::east { x + size } else { newx }) as i32,
        chky: (if dir == dirtype::south { y + size } else { newy }) as i32,
        deltax: if dir_dx(dir) == 0 { 1 } else { 0 },
        deltay: if dir_dy(dir) == 0 { 1 } else { 0 },
    }
}

/// The plan of a one-cell step (see `walk_plan_of`); none for a direction
/// other than north, east, south or west, in which an object cannot walk.
pub fn walk_plan(x: u8, y: u8, size: u8, dir: dirtype) -> (r: Option<WalkPlan>)
    ensures
        r == if is_cardinal(dir) {
            Some(walk_plan_of(x, y, size, dir))
        } else {
            None::<WalkPlan>
        },
{
    let x: i32 = x as i32;
    let y: i32 = y as i32;
    match dir {
        dirtype::north => Some(
            WalkPlan { newx: x, newy: y - 1, chkx: x, chky: y - 1, deltax: 1, deltay: 0 },
        ),
        dirtype::east => Some(
            WalkPlan { newx: x + 1, newy: y, chkx: x + size as i32, chky: y, deltax: 0, deltay: 1 },
        ),
        dirtype::south => Some(
            WalkPlan { newx: x, newy: y + 1, chkx: x, chky: y + size as i32, deltax: 1, deltay: 0 },
        ),
        dirtype::west => Some(
            WalkPlan { newx: x - 1, newy: y, chkx: x - 1, chky: y, deltax: 0, deltay: 1 },
        ),
        _ => None,
    }
}

/// Cell `k` of the row or column a step newly covers.
pub open spec fn walk_cell(p: WalkPlan, k: int) -> (int, int) {
    (p.chkx + k * p.deltax, p.chky + k * p.deltay)
}

/// Whether cell (cx, cy) is covered by a `size` by `size` object whose
/// top-left cell is (x, y).
pub open spec fn covers(x: int, y: int, size: int, cx: int, cy: int) -> bool {
    x <= cx < x + size && y <= cy < y + size
}

/// The cells a step checks are exactly those the object covers after the
/// step and did not cover before it.
pub proof fn lemma_walk_uncovers(x: u8, y: u8, size: u8, dir: dirtype, cx: int, cy: int)
    requires
        is_cardinal(dir),
    ensures
        ({
            let p = walk_plan_of(x, y, size, dir);
            (exists|k: int| 0 <= k < size && #[trigger] walk_cell(p, k) == (cx, cy)) <==> (covers(
                p.newx as int,
                p.newy as int,
                size as int,
                cx,
                cy,
            ) && !covers(x as int, y as int, size as int, cx, cy))
        }),
{
    let p = walk_plan_of(x, y, size, dir);
    if covers(p.newx as int, p.newy as int, size as int, cx, cy) && !covers(
        x as int,
        y as int,
        size as int,
        cx,
        cy,
    ) {
        let k: int = if p.deltax == 1 { cx - p.chkx } else { cy - p.chky };
        assert(walk_cell(p, k) == (cx, cy));
    }
    assert forall|k: int| 0 <= k < size && #[trigger] walk_cell(p, k) == (cx, cy) implies covers(
        p.newx as int,
        p.newy as int,
        size as int,
        cx,
        cy,
    ) && !covers(x as int, y as int, size as int, cx, cy) by {
        assert(k * p.deltax == if p.deltax == 1 { k } else { 0 });
        assert(k * p.deltay == if p.deltay == 1 { k } else { 0 });
    }
}

/// The way to go to close a distance `d` along one axis: `pos` when it is
/// above 0, `neg` below 0, none at 0.
pub open spec fn toward(d: int, pos: dirtype, neg: dirtype) -> dirtype {
    if d > 0 {
        pos
    } else if d < 0 {
        neg
    } else {
        dirtype::nodir
    }
}

/// The absolute value of `v`.
pub open spec fn abs(v: int) -> int {
    if v < 0 {
        -v
    } else {
        v
    }
}

/// The two ways a chasing monster facing `olddir` would go to close the
/// distance (dx, dy) to the player: first along the longer axis (columns
/// when the two are equal), then the other; a way back along `olddir`, or
/// along an axis with no distance, is none.
pub open spec fn chase_prefs(olddir: dirtype, dx: int, dy: int) -> (dirtype, dirtype) {
    let h = toward(dx, dirtype::east, dirtype::west);
    let v = toward(dy, dirtype::south, dirtype::north);
    let t = opposite(olddir);
    let a = if abs(dy) > abs(dx) { v } else { h };
    let b = if abs(dy) > abs(dx) { h } else { v };
    (if a == t { dirtype::nodir } else { a }, if b == t { dirtype::nodir } else { b })
}

/// `d` alone, or nothing when `d` is `skip`.
pub open spec fn unless(d: dirtype, skip: dirtype) -> Seq<dirtype> {
    if d == skip {
        Seq::empty()
    } else {
        seq![d]
    }
}

/// The directions a chasing monster facing `olddir` tries first, in order,
/// to reach the player (dx, dy) cells away: the two ways of `chase_prefs`
/// that are not none (a diagonal mover takes the longer axis first, the
/// other mover the shorter), then straight on.
pub open spec fn chase_first_spec(diagonal: bool, olddir: dirtype, dx: int, dy: int) -> Seq<dirtype> {
    let (d1, d2) = chase_prefs(olddir, dx, dy);
    if diagonal {
        unless(d1, dirtype::nodir) + unless(d2, dirtype::nodir) + seq![olddir]
    } else {
        unless(d2, dirtype::nodir) + unless(d1, dirtype::nodir) + seq![olddir]
    }
}

/// A chasing monster facing a cardinal direction turns back only when
/// nothing else lets it through: the way back is not among the directions
/// it tries first, it is the last one it tries, and every other cardinal
/// direction comes before it.
#[verifier::spinoff_prover]
#[verifier::rlimit(40)]
pub proof fn lemma_chase_back_last(diagonal: bool, olddir: dirtype, dx: int, dy: int, coin: int)
    requires
        is_cardinal(olddir),
    ensures
        !chase_first_spec(diagonal, olddir, dx, dy).contains(opposite(olddir)),
        chase_sweep_spec(olddir, coin).last() == opposite(olddir),
        !chase_sweep_spec(olddir, coin).drop_last().contains(opposite(olddir)),
        forall|d: dirtype|
            is_cardinal(d) && d != opposite(olddir) ==> #[trigger] chase_sweep_spec(
                olddir,
                coin,
            ).drop_last().contains(d),
{
    let f = chase_first_spec(diagonal, olddir, dx, dy);
    let t = opposite(olddir);
    assert(!f.contains(t)) by {
        if f.contains(t) {
            let i = choose|i: int| 0 <= i < f.len() && f[i] == t;
            assert(f[i] == t);
        }
    }
    let s = chase_sweep_spec(olddir, coin);
    let body = s.drop_last();
    let order = if coin > 128 {
        seq![dirtype::north, dirtype::east, dirtype::south, dirtype::west]
    } else {
        seq![dirtype::west, dirtype::south, dirtype::east, dirtype::north]
    };
    let a = unless(order[0], t);
    let b = unless(order[1], t);
    let c = unless(order[2], t);
    let e = unless(order[3], t);
    assert(body =~= a + b + c + e);
    assert(!body.contains(t)) by {
        if body.contains(t) {
            let i = choose|i: int| 0 <= i < body.len() && body[i] == t;
            assert(body[i] == t);
        }
    }
    assert forall|d: dirtype| is_cardinal(d) && d != t implies #[trigger] body.contains(d) by {
        if d == order[0] {
            assert(body[0] == d);
        } else if d == order[1] {
            assert(body[a.len() as int] == d);
        } else if d == order[2] {
            assert(body[(a.len() + b.len()) as int] == d);
        } else {
            assert(d == order[3]);
            assert(body[(a.len() + b.len() + c.len()) as int] == d);
        }
    }
}

/// Appends `d` to `v` unless it is `skip`.
fn push_unless(v: &mut Vec<dirtype>, d: dirtype, skip: dirtype)
    ensures
        final(v)@ == old(v)@ + unless(d, skip),
{
    if d != skip {
        v.push(d);
    }
}

/// The directions a chasing monster at (x, y) facing `olddir` tries first,
/// in order, to reach the player at (px, py) (see `chase_first_spec`). The
/// monster walks the first of them that lets it through.
pub fn chase_first(diagonal: bool, olddir: dirtype, px: u8, py: u8, x: u8, y: u8) -> (r: Vec<dirtype>)
    ensures
        r@ == chase_first_spec(diagonal, olddir, px - x, py - y),
{
    let deltax: i32 = px as i32 - x as i32;
    let deltay: i32 = py as i32 - y as i32;
    let turnaround = opposite_dir(olddir);
    let mut d1 = dirtype::nodir;
    let mut d2 = dirtype::nodir;
    if deltax > 0 {
        d1 = dirtype::east;
    }
    if deltax < 0 {
        d1 = dirtype::west;
    }
    if deltay > 0 {
        d2 = dirtype::south;
    }
    if deltay < 0 {
        d2 = dirtype::north;
    }
    let ax: i32 = if deltax < 0 { -deltax } else { deltax };
    let ay: i32 = if deltay < 0 { -deltay } else { deltay };
    if ay > ax {
        let t = d1;
        d1 = d2;
        d2 = t;
    }
    if d1 == turnaround {
        d1 = dirtype::nodir;
    }
    if d2 == turnaround {
        d2 = dirtype::nodir;
    }
    let mut r: Vec<dirtype> = Vec::new();
    if diagonal {
        push_unless(&mut r, d1, dirtype::nodir);
        push_unless(&mut r, d2, dirtype::nodir);
    } else {
        push_unless(&mut r, d2, dirtype::nodir);
        push_unless(&mut r, d1, dirtype::nodir);
    }
    r.push(olddir);
    r
}

/// The directions a chasing monster facing `olddir` tries when neither way
/// toward the player nor straight on lets it through: the other directions
/// but the way back, north to west when `coin` is above 128, west to north
/// otherwise, and last the way back.
pub open spec fn chase_sweep_spec(olddir: dirtype, coin: int) -> Seq<dirtype> {
    let t = opposite(olddir);
    if coin > 128 {
        unless(dirtype::north, t) + unless(dirtype::east, t) + unless(dirtype::south, t) + unless(
            dirtype::west,
            t,
        ) + seq![t]
    } else {
        unless(dirtype::west, t) + unless(dirtype::south, t) + unless(dirtype::east, t) + unless(
            dirtype::north,
            t,
        ) + seq![t]
    }
}

/// The directions a chasing monster facing `olddir` tries after those of
/// `chase_first` (see `chase_sweep_spec`); the coin is the next number of
/// the random table, drawn here.
pub fn chase_sweep(olddir: dirtype, pas: &mut PcrlibAState) -> (r: Vec<dirtype>)
    ensures
        final(pas).rndindex == (old(pas).rndindex + 1) % 256,
        r@ == chase_sweep_spec(olddir, rndtable@[final(pas).rndindex as int] as int),
        *final(pas) == (PcrlibAState { rndindex: final(pas).rndindex, ..*old(pas) }),
{
    let turnaround = opposite_dir(olddir);
    let coin: i32 = rndt(pas);
    let mut r: Vec<dirtype> = Vec::new();
    if coin > 128 {
        push_unless(&mut r, dirtype::north, turnaround);
        push_unless(&mut r, dirtype::east, turnaround);
        push_unless(&mut r, dirtype::south, turnaround);
        push_unless(&mut r, dirtype::west, turnaround);
    } else {
        push_unless(&mut r, dirtype::west, turnaround);
        push_unless(&mut r, dirtype::south, turnaround);
        push_unless(&mut r, dirtype::east, turnaround);
        push_unless(&mut r, dirtype::north, turnaround);
    }
    r.push(turnaround);
    r
}

/// The two cardinal steps the player makes for the diagonal direction `c`
/// on frame `frameon`: the order of the two alternates every two frames.
pub open spec fn diagonal_split(c: dirtype, frameon: u16) -> (dirtype, dirtype) {
    if (frameon / 2) % 2 != 0 {
        match c {
            dirtype::northeast => (dirtype::east, dirtype::north),
            dirtype::southeast => (dirtype::south, dirtype::east),
            dirtype::southwest => (dirtype::west, dirtype::south),
            _ => (dirtype::north, dirtype::west),
        }
    } else {
        match c {
            dirtype::northeast => (dirtype::north, dirtype::east),
            dirtype::southeast => (dirtype::east, dirtype::south),
            dirtype::southwest => (dirtype::south, dirtype::west),
            _ => (dirtype::west, dirtype::north),
        }
    }
}

/// A diagonal step is made of two different cardinal steps that together
/// go the diagonal's way.
pub proof fn lemma_diagonal_split(c: dirtype, frameon: u16)
    requires
        4 <= c.value() < 8,
    ensures
        ({
            let (a, b) = diagonal_split(c, frameon);
            &&& is_cardinal(a) && is_cardinal(b) && a != b
            &&& dir_dx(a) + dir_dx(b) == dir_dx(c)
            &&& dir_dy(a) + dir_dy(b) == dir_dy(c)
        }),
{
}

/// The steps the player walks this frame with the controls pointing `c`:
/// none unless `c` is a direction and the frame is odd; a diagonal is two
/// cardinal steps (see `diagonal_split`).
pub open spec fn player_steps_spec(c: dirtype, frameon: u16) -> Seq<dirtype> {
    if c.value() < 8 && frameon % 2 != 0 {
        if c.value() > 3 {
            let (a, b) = diagonal_split(c, frameon);
            seq![a, b]
        } else {
            seq![c]
        }
    } else {
        Seq::empty()
    }
}

/// The cardinal direction the player turns to when the controls point `c`
/// but it does not walk: a diagonal turns it to the cardinal direction next
/// clockwise (north-east to east, south-east to south, south-west to west,
/// north-west to north); no direction keeps `current`.
pub open spec fn facing(c: dirtype, current: u16) -> u16 {
    match c {
        dirtype::north | dirtype::northwest => 0,
        dirtype::east | dirtype::northeast => 1,
        dirtype::south | dirtype::southeast => 2,
        dirtype::west | dirtype::southwest => 3,
        dirtype::nodir => current,
    }
}

/// The direction the player faces after the frame: the last step walked,
/// or with the second button held (strafing) the direction it faced; when
/// it does not walk, the way the controls point (see `facing`), unless the
/// second button is held.
pub open spec fn player_dir_spec(c: dirtype, button2: bool, frameon: u16, current: u16) -> u16 {
    let steps = player_steps_spec(c, frameon);
    if steps.len() > 0 {
        if button2 {
            current
        } else {
            steps.last().value() as u16
        }
    } else if !button2 {
        facing(c, current)
    } else {
        current
    }
}

/// What the player does with its controls in one frame: the steps it walks,
/// in order, and the direction it then faces.
pub struct PlayerMove {
    pub steps: Vec<dirtype>,
    pub dir: u16,
}

/// The player's move for controls pointing `c`, with the second button
/// `button2`, on frame `frameon`, facing `current` (see `player_steps_spec`
/// and `player_dir_spec`).
pub fn player_move(c: dirtype, button2: bool, frameon: u16, current: u16) -> (r: PlayerMove)
    ensures
        r.steps@ == player_steps_spec(c, frameon),
        r.dir == player_dir_spec(c, button2, frameon, current),
{
    let mut steps: Vec<dirtype> = Vec::new();
    let mut dir: u16 = current;
    let cv: u32 = c.to_u32();
    if cv < 8 && frameon % 2 != 0 {
        let mut last = c;
        if cv > 3 {
            let odd: bool = (frameon / 2) % 2 != 0;
            let (a, b) = match c {
                dirtype::northeast => if odd {
                    (dirtype::east, dirtype::north)
                } else {
                    (dirtype::north, dirtype::east)
                },
                dirtype::southeast => if odd {
                    (dirtype::south, dirtype::east)
                } else {
                    (dirtype::east, dirtype::south)
                },
                dirtype::southwest => if odd {
                    (dirtype::west, dirtype::south)
                } else {
                    (dirtype::south, dirtype::west)
                },
                _ => if odd {
                    (dirtype::north, dirtype::west)
                } else {
                    (dirtype::west, dirtype::north)
                },
            };
            steps.push(a);
            steps.push(b);
            last = b;
        } else {
            steps.push(c);
        }
        if !button2 {
            dir = last.to_u32() as u16;
        }
    } else if !button2 {
        dir = match c {
            dirtype::north | dirtype::northwest => 0,
            dirtype::east | dirtype::northeast => 1,
            dirtype::south | dirtype::southeast => 2,
            dirtype::west | dirtype::southwest => 3,
            dirtype::nodir => current,
        };
    }
    PlayerMove { steps, dir }
}

/// The shot fired in a frame.
#[derive(Clone, Copy, Debug, PartialEq, Eq, Structural)]
pub enum ShotFired {
    NoShot,
    Shot,
    BigShot,
}

/// The player's shot after a frame: the bolts still to fire, the power
/// charged, the shot fired, and whether the power meter is to be drawn.
#[derive(Clone, Copy, Debug, PartialEq, Eq, Structural)]
pub struct ShotCharge {
    pub boltsleft: i32,
    pub shotpower: i32,
    pub fired: ShotFired,
    pub meter: bool,
}

/// One frame of the player's shooting: while bolts are left, one big shot
/// every third frame; else, with the fire button held, the power charges
/// (to 1 at once, then by one every other frame up to 13); on its release a
/// charged shot goes off, a big one at full power, and the power drops to 0.
pub open spec fn charge_shot_spec(boltsleft: i32, shotpower: i32, button1: bool, frameon: u16) -> ShotCharge {
    if boltsleft > 0 {
        if frameon % 3 == 0 {
            ShotCharge { boltsleft: (boltsleft - 1) as i32, shotpower, fired: ShotFired::BigShot, meter: false }
        } else {
            ShotCharge { boltsleft, shotpower, fired: ShotFired::NoShot, meter: false }
        }
    } else if button1 {
        let p = if shotpower == 0 {
            1
        } else if shotpower < 13 && frameon % 2 != 0 {
            shotpower + 1
        } else {
            shotpower as int
        };
        ShotCharge { boltsleft, shotpower: p as i32, fired: ShotFired::NoShot, meter: true }
    } else if shotpower > 0 {
        ShotCharge {
            boltsleft,
            shotpower: 0,
            fired: if shotpower == 13 { ShotFired::BigShot } else { ShotFired::Shot },
            meter: true,
        }
    } else {
        ShotCharge { boltsleft, shotpower, fired: ShotFired::NoShot, meter: false }
    }
}

/// One frame of the player's shooting (see `charge_shot_spec`); the power
/// stays between 0 and 13.
pub fn charge_shot(boltsleft: i32, shotpower: i32, button1: bool, frameon: u16) -> (r: ShotCharge)
    requires
        0 <= shotpower <= 13,
    ensures
        r == charge_shot_spec(boltsleft, shotpower, button1, frameon),
        0 <= r.shotpower <= 13,
{
    let mut r = ShotCharge { boltsleft, shotpower, fired: ShotFired::NoShot, meter: false };
    if boltsleft > 0 {
        if frameon % 3 == 0 {
            r.fired = ShotFired::BigShot;
            r.boltsleft = boltsleft - 1;
        }
    } else if button1 {
        if shotpower == 0 {
            r.shotpower = 1;
        } else if shotpower < 13 && frameon % 2 != 0 {
            r.shotpower = shotpower + 1;
        }
        r.meter = true;
    } else if shotpower > 0 {
        r.fired = if shotpower == 13 { ShotFired::BigShot } else { ShotFired::Shot };
        r.shotpower = 0;
        r.meter = true;
    }
    r
}

/// The behaviour numbered `n` in object definitions; none past the last.
pub open spec fn think_of(n: u8) -> Option<thinktype> {
    match n {
        0 => Some(thinktype::playercmd),
        1 => Some(thinktype::gargcmd),
        2 => Some(thinktype::dragoncmd),
        3 => Some(thinktype::ramstraight),
        4 => Some(thinktype::ramdiag),
        5 => Some(thinktype::straight),
        6 => Some(thinktype::idle),
        7 => Some(thinktype::fade),
        8 => Some(thinktype::explode),
        9 => Some(thinktype::gunthinke),
        10 => Some(thinktype::gunthinks),
        _ => None,
    }
}

/// Whether the object thinks this frame, and how: an object still waiting
/// counts its delay down and does not; otherwise the next number of the
/// random table decides, against the object's speed, whether it runs its
/// behaviour (see `think_of`).
pub fn think_gate(obj: &mut objtype, pas: &mut PcrlibAState) -> (r: Option<thinktype>)
    ensures
        old(obj).delay > 0 ==> {
            &&& *final(obj) == (objtype { delay: (old(obj).delay - 1) as u8, ..*old(obj) })
            &&& *final(pas) == *old(pas)
            &&& r == None::<thinktype>
        },
        old(obj).delay == 0 ==> {
            &&& *final(obj) == *old(obj)
            &&& final(pas).rndindex == (old(pas).rndindex + 1) % 256
            &&& *final(pas) == (PcrlibAState { rndindex: final(pas).rndindex, ..*old(pas) })
            &&& r == if (rndtable@[final(pas).rndindex as int] as int) < old(obj).speed {
                think_of(old(obj).think)
            } else {
                None::<thinktype>
            }
        },
{
    if obj.delay > 0 {
        obj.delay = obj.delay - 1;
        return None;
    }
    let coin: i32 = rndt(pas);
    if coin < obj.speed as i32 {
        match obj.think {
            0 => Some(thinktype::playercmd),
            1 => Some(thinktype::gargcmd),
            2 => Some(thinktype::dragoncmd),
            3 => Some(thinktype::ramstraight),
            4 => Some(thinktype::ramdiag),
            5 => Some(thinktype::straight),
            6 => Some(thinktype::idle),
            7 => Some(thinktype::fade),
            8 => Some(thinktype::explode),
            9 => Some(thinktype::gunthinke),
            10 => Some(thinktype::gunthinks),
            _ => None,
        }
    } else {
        None
    }
}


/// An item the player uses from the keyboard.
#[derive(Clone, Copy, Debug, PartialEq, Eq, Structural)]
pub enum ItemKey {
    Potion,
    Bolt,
    Nuke,
}

/// The item keys held, with `hp` hit points: P or space drinks a potion
/// when the player is not at full health (13), B casts a bolt, N or return
/// casts a nuke, in that order of precedence; the keys of the item used are
/// released (for a potion, Q and space).
pub open spec fn item_key_spec(keys: Seq<bool>, hp: i8) -> (Option<ItemKey>, Seq<bool>) {
    let p = SDL_SCANCODE_P as int;
    let space = SDL_SCANCODE_SPACE as int;
    let b = SDL_SCANCODE_B as int;
    let n = SDL_SCANCODE_N as int;
    let ret = SDL_SCANCODE_RETURN as int;
    if keys[p] || keys[space] {
        if hp < 13 {
            (Some(ItemKey::Potion), keys.update(SDL_SCANCODE_Q as int, false).update(space, false))
        } else {
            (None, keys)
        }
    } else if keys[b] {
        (Some(ItemKey::Bolt), keys.update(b, false))
    } else if keys[n] || keys[ret] {
        (Some(ItemKey::Nuke), keys.update(n, false).update(ret, false))
    } else {
        (None, keys)
    }
}

/// The item the player uses with the keys held (see `item_key_spec`),
/// releasing its keys.
pub fn item_key(keydown: &mut Vec<bool>, hp: i8) -> (r: Option<ItemKey>)
    requires
        old(keydown)@.len() > SDL_SCANCODE_SPACE,
    ensures
        (r, final(keydown)@) == item_key_spec(old(keydown)@, hp),
{
    if keydown[SDL_SCANCODE_P as usize] || keydown[SDL_SCANCODE_SPACE as usize] {
        if hp < 13 {
            keydown.set(SDL_SCANCODE_Q as usize, false);
            keydown.set(SDL_SCANCODE_SPACE as usize, false);
            Some(ItemKey::Potion)
        } else {
            None
        }
    } else if keydown[SDL_SCANCODE_B as usize] {
        keydown.set(SDL_SCANCODE_B as usize, false);
        Some(ItemKey::Bolt)
    } else if keydown[SDL_SCANCODE_N as usize] || keydown[SDL_SCANCODE_RETURN as usize] {
        keydown.set(SDL_SCANCODE_N as usize, false);
        keydown.set(SDL_SCANCODE_RETURN as usize, false);
        Some(ItemKey::Nuke)
    } else {
        None
    }
}

} // verus!
