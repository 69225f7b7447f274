use vstd::prelude::*;

use crate::cavern::player::Player;
use crate::cavern::random::{random_range, random_shuffle};
use crate::cavern::robot::RobotType;
use crate::cavern::{GRID_BLOCK_SIZE, LEVEL_X_OFFSET, NUM_COLUMNS, WIDTH};
use crate::int_math::div_trunc;

verus! {

/// A game in progress, or the demo shown behind the menu when there is no
/// player.
pub struct Game {
    pub player: Option<Player>,
    pub level_colour: i8,
    pub level: i8,
    pub timer: i32,
    pub grid: Vec<Vec<u8>>,
    pub fruits: Vec<u32>,
    pub bolts: Vec<u32>,
    pub enemies: Vec<u32>,
    pub pending_enemies: Vec<RobotType>,
    pub pops: Vec<u32>,
    pub orbs: Vec<u32>,
}

/// The rows of a grid, as byte sequences.
pub open spec fn rows_view(rows: Seq<Vec<u8>>) -> Seq<Seq<u8>> {
    Seq::new(rows.len(), |i: int| rows[i]@)
}

/// A level set that can be played: at least one level, each with a first
/// row.
pub open spec fn levels_ok(levels: Seq<Vec<Vec<u8>>>) -> bool {
    &&& levels.len() > 0
    &&& forall|i: int| 0 <= i < levels.len() ==> #[trigger] levels[i]@.len() > 0
}

/// The grid of level number `level`: the levels are played in turn, and the
/// first row is repeated below the last one.
pub open spec fn level_grid(levels: Seq<Vec<Vec<u8>>>, level: int) -> Seq<Seq<u8>> {
    let rows = rows_view(levels[level % levels.len() as int]@);
    rows.push(rows[0])
}

/// The number of enemies of a level.
pub open spec fn num_enemies(level: int) -> int {
    10 + level
}

/// The number of aggressive enemies of a level: one more than the level
/// number divided by 1.5, rounded down.
pub open spec fn num_strong_enemies(level: int) -> int {
    1 + (2 * level) / 3
}

/// The enemies of a level before shuffling: the aggressive ones, then the
/// normal ones.
pub open spec fn enemy_list(level: int) -> Seq<RobotType> {
    Seq::new(num_strong_enemies(level) as nat, |i: int| RobotType::Aggressive) + Seq::new(
        (num_enemies(level) - num_strong_enemies(level)) as nat,
        |i: int| RobotType::Normal,
    )
}

/// The player, reset for a new level (see `Player::reset`).
pub open spec fn reset_player(p: Player) -> Player {
    Player {
        x: (WIDTH / 2) as i32,
        y: 100,
        vel_y: 0,
        direction_x: 1,
        fire_timer: 0,
        hurt_timer: 100,
        health: 3,
        blowing_orb: None,
        ..p
    }
}

/// Sounds are heard only while a player is playing.
pub open spec fn audible(player: Option<Player>) -> bool {
    player is Some
}

/// The x of a robot spawned at the first free column of the top row,
/// searching from column r + i onwards and wrapping round; the middle of
/// the screen when the searched columns are all blocked.
pub open spec fn spawn_x_from(row: Seq<u8>, r: int, i: int) -> int
    decreases NUM_COLUMNS - i,
{
    if i >= NUM_COLUMNS || i < 0 {
        (WIDTH / 2) as int
    } else {
        let grid_x = (r + i) % NUM_COLUMNS as int;
        if row[grid_x] == 32u8 {
            GRID_BLOCK_SIZE * grid_x + LEVEL_X_OFFSET + 12
        } else {
            spawn_x_from(row, r, i + 1)
        }
    }
}

/// A game just set up for `player` at the first level: the player reset,
/// the first colour, the first level's grid, the clock at -1, nothing on
/// screen and that level's enemies pending in some order.
pub open spec fn fresh_game(g: Game, player: Option<Player>, levels: Seq<Vec<Vec<u8>>>) -> bool {
    &&& g.player == match player {
        Some(p) => Some(reset_player(p)),
        None => None,
    }
    &&& g.level_colour == 0
    &&& g.level == 0
    &&& g.timer == -1
    &&& rows_view(g.grid@) == level_grid(levels, 0)
    &&& g.fruits@.len() == 0 && g.bolts@.len() == 0 && g.enemies@.len() == 0
    &&& g.pops@.len() == 0 && g.orbs@.len() == 0
    &&& g.pending_enemies@.to_multiset() == enemy_list(0).to_multiset()
}

/// Copies the rows of a grid.
fn copy_rows(rows: &Vec<Vec<u8>>) -> (r: Vec<Vec<u8>>)
    ensures
        rows_view(r@) == rows_view(rows@),
{
    let mut out: Vec<Vec<u8>> = Vec::new();
    let mut i: usize = 0;
    while i < rows.len()
        invariant
            i <= rows.len(),
            out@.len() == i,
            forall|k: int| 0 <= k < i ==> #[trigger] out@[k]@ == rows@[k]@,
        decreases rows.len() - i,
    {
        let row = rows[i].clone();
        assert(row@ =~= rows@[i as int]@);
        out.push(row);
        i += 1;
    }
    assert(rows_view(out@) =~= rows_view(rows@));
    out
}

/// Whether sounds are heard: only while a player is playing.
pub fn sound_audible(player: &Option<Player>) -> (r: bool)
    ensures
        r == audible(*player),
{
    player.is_some()
}

impl Game {
    /// A new game for `player` (none for the menu's demo), at the first
    /// level of `levels` (see `next_level`).
    pub fn new(player: Option<Player>, levels: &Vec<Vec<Vec<u8>>>) -> (r: Self)
        requires
            levels_ok(levels@),
        ensures
            fresh_game(r, player, levels@),
    {
        let mut game = Game {
            player,
            level_colour: -1,
            level: -1,
            timer: -1,
            grid: Vec::new(),
            fruits: Vec::new(),
            bolts: Vec::new(),
            enemies: Vec::new(),
            pending_enemies: Vec::new(),
            pops: Vec::new(),
            orbs: Vec::new(),
        };
        game.next_level(levels);
        game
    }

    /// The largest number of enemies on screen at once: it grows with the
    /// level, up to 8.
    pub fn max_enemies(&self) -> (r: i32)
        requires
            self.level <= 121,
        ensures
            r == if div_trunc(self.level + 6, 2) < 8 {
                div_trunc(self.level + 6, 2)
            } else {
                8
            },
    {
        let m = (self.level + 6) / 2;
        if m < 8 {
            m as i32
        } else {
            8
        }
    }

    /// The x where a robot spawns, searching the top row from column `r`
    /// (see `spawn_x_from`).
    pub fn robot_spawn_x_from(&self, r: i32) -> (x: i32)
        requires
            0 <= r < NUM_COLUMNS,
            self.grid@.len() > 0,
            self.grid@[0]@.len() >= NUM_COLUMNS,
        ensures
            x == spawn_x_from(self.grid@[0]@, r as int, 0),
    {
        let row = &self.grid[0];
        let mut i: i32 = 0;
        while i < NUM_COLUMNS
            invariant
                0 <= i <= NUM_COLUMNS,
                0 <= r < NUM_COLUMNS,
                row@ == self.grid@[0]@,
                row@.len() >= NUM_COLUMNS,
                spawn_x_from(row@, r as int, 0) == spawn_x_from(row@, r as int, i as int),
            decreases NUM_COLUMNS - i,
        {
            let grid_x = (r + i) % NUM_COLUMNS;
            if row[grid_x as usize] == 32u8 {
                return GRID_BLOCK_SIZE * grid_x + LEVEL_X_OFFSET + 12;
            }
            i += 1;
        }
        WIDTH / 2
    }

    /// A spawn location for a robot: the first free column of the top row
    /// from a column picked at random (see `spawn_x_from`).
    pub fn get_robot_spawn_x(&self) -> (x: i32)
        requires
            self.grid@.len() > 0,
            self.grid@[0]@.len() >= NUM_COLUMNS,
        ensures
            exists|r: int| 0 <= r < NUM_COLUMNS && x == #[trigger] spawn_x_from(self.grid@[0]@, r, 0),
    {
        let r = random_range(0, NUM_COLUMNS);
        self.robot_spawn_x_from(r)
    }

    /// Advances the game clock by one tick.
    pub fn update(&mut self)
        requires
            old(self).timer < i32::MAX,
        ensures
            final(self).timer == old(self).timer + 1,
            final(self).player == old(self).player,
            final(self).level == old(self).level,
            final(self).level_colour == old(self).level_colour,
            final(self).grid@ == old(self).grid@,
            final(self).pending_enemies@ == old(self).pending_enemies@,
    {
        self.timer = self.timer + 1;
    }

    /// Starts the next level: the next background colour (of 4) and level
    /// number, that level's grid with its first row repeated at the bottom,
    /// the player reset, the clock at -1, no fruit, bolt, enemy, pop or orb,
    /// and the level's enemies pending in random order (see `enemy_list`).
    /// Returns whether the level sound is heard (see `audible`).
    pub fn next_level(&mut self, levels: &Vec<Vec<Vec<u8>>>) -> (sound: bool)
        requires
            levels_ok(levels@),
            -1 <= old(self).level < 127,
            -1 <= old(self).level_colour < 127,
        ensures
            final(self).level_colour == (old(self).level_colour + 1) % 4,
            final(self).level == old(self).level + 1,
            rows_view(final(self).grid@) == level_grid(levels@, final(self).level as int),
            final(self).timer == -1,
            final(self).player == (match old(self).player {
                Some(p) => Some(reset_player(p)),
                None => None,
            }),
            final(self).fruits@.len() == 0 && final(self).bolts@.len() == 0,
            final(self).enemies@.len() == 0 && final(self).pops@.len() == 0,
            final(self).orbs@.len() == 0,
            final(self).pending_enemies@.to_multiset() == enemy_list(
                final(self).level as int,
            ).to_multiset(),
            sound == audible(final(self).player),
    {
        self.level_colour = (self.level_colour + 1) % 4;
        self.level = self.level + 1;
        let index = (self.level as usize) % levels.len();
        let mut grid = copy_rows(&levels[index]);
        assert(levels@[index as int]@.len() > 0);
        assert(rows_view(grid@).len() == grid@.len());
        let first = grid[0].clone();
        assert(first@ =~= grid@[0]@);
        grid.push(first);
        proof {
            assert(rows_view(grid@) =~= level_grid(levels@, self.level as int));
        }
        self.grid = grid;
        self.timer = -1;
        if let Some(p) = &mut self.player {
            p.reset();
        }
        self.fruits = Vec::new();
        self.bolts = Vec::new();
        self.enemies = Vec::new();
        self.pops = Vec::new();
        self.orbs = Vec::new();
        let level = self.level as usize;
        let num_enemies: usize = 10 + level;
        let num_strong_enemies: usize = 1 + (2 * level) / 3;
        let num_weak_enemies: usize = num_enemies - num_strong_enemies;
        let mut pending: Vec<RobotType> = Vec::new();
        let mut i: usize = 0;
        while i < num_strong_enemies
            invariant
                i <= num_strong_enemies,
                pending@ == Seq::new(i as nat, |k: int| RobotType::Aggressive),
            decreases num_strong_enemies - i,
        {
            pending.push(RobotType::Aggressive);
            assert(pending@ =~= Seq::new((i + 1) as nat, |k: int| RobotType::Aggressive));
            i += 1;
        }
        let mut j: usize = 0;
        while j < num_weak_enemies
            invariant
                j <= num_weak_enemies,
                pending@ == Seq::new(num_strong_enemies as nat, |k: int| RobotType::Aggressive)
                    + Seq::new(j as nat, |k: int| RobotType::Normal),
            decreases num_weak_enemies - j,
        {
            pending.push(RobotType::Normal);
            assert(pending@ =~= Seq::new(num_strong_enemies as nat, |k: int| RobotType::Aggressive)
                + Seq::new((j + 1) as nat, |k: int| RobotType::Normal));
            j += 1;
        }
        assert(pending@ =~= enemy_list(self.level as int));
        random_shuffle(&mut pending);
        self.pending_enemies = pending;
        sound_audible(&self.player)
    }
}

/// A robot spawns above a free column of the top row, or in the middle of
/// the screen.
pub proof fn lemma_spawn_x(row: Seq<u8>, r: int, i: int)
    requires
        row.len() >= NUM_COLUMNS,
    ensures
        spawn_x_from(row, r, i) == WIDTH / 2 || exists|c: int|
            0 <= c < NUM_COLUMNS && row[c] == 32u8 && spawn_x_from(row, r, i) == GRID_BLOCK_SIZE
                * c + LEVEL_X_OFFSET + 12,
    decreases NUM_COLUMNS - i,
{
    if 0 <= i < NUM_COLUMNS {
        let grid_x = (r + i) % NUM_COLUMNS as int;
        if row[grid_x] != 32u8 {
            lemma_spawn_x(row, r, i + 1);
        }
    }
}

} // verus!
