use vstd::prelude::*;

use crate::cavern::actor::Image;
use crate::cavern::drawing::{StatusIcon, CHAR_WIDTH, MAX_ICONS};
use crate::int_math::{decimal, decimal_text};
use crate::cavern::WIDTH;
use crate::cavern::game::{fresh_game, levels_ok, sound_audible, Game};
use crate::cavern::player::Player;

verus! {

/// The screens of the game.
#[derive(Clone, Copy, Debug, PartialEq, Eq, Structural)]
pub enum State {
    Menu,
    Play,
    GameOver,
}

/// The sounds that a state change makes heard.
#[derive(Clone, Copy, Debug, PartialEq, Eq, Structural)]
pub enum GameSound {
    Level,
    Over,
}

/// The screen shown and the game behind it.
pub struct GlobalState {
    pub state: State,
    pub game: Game,
}

/// Outside the menu, a player is playing or has just lost.
pub open spec fn global_state_ok(s: &GlobalState) -> bool {
    s.state != State::Menu ==> s.game.player is Some
}

/// A new player, as `Player::new` makes it.
pub open spec fn new_player(blank: Image) -> Player {
    Player {
        lives: 2,
        score: 0,
        direction_x: 0,
        fire_timer: 0,
        hurt_timer: 0,
        health: 0,
        blowing_orb: None,
        x: 0,
        y: 0,
        image: blank,
        anchor: crate::cavern::gravity_actor::GRAVITY_ACTOR_DEFAULT_ANCHOR,
        vel_y: 0,
        landed: false,
    }
}

impl GlobalState {
    /// The menu, with the demo game behind it.
    pub fn new(levels: &Vec<Vec<Vec<u8>>>) -> (r: Self)
        requires
            levels_ok(levels@),
        ensures
            r.state == State::Menu,
            fresh_game(r.game, None, levels@),
            global_state_ok(&r),
    {
        GlobalState { state: State::Menu, game: Game::new(None, levels) }
    }

    /// One frame of the screen logic. On the menu, space starts a game for
    /// a new player (and the level sound), else the demo runs on. While
    /// playing, a negative number of lives ends the game (and the game-over
    /// sound), else the game runs on. On the game-over screen, space goes
    /// back to the menu with a new demo. Returns the sound to play.
    pub fn update(
        &mut self,
        space_pressed: bool,
        levels: &Vec<Vec<Vec<u8>>>,
        blank: Image,
    ) -> (sound: Option<GameSound>)
        requires
            global_state_ok(old(self)),
            levels_ok(levels@),
            old(self).game.timer < i32::MAX,
        ensures
            global_state_ok(final(self)),
            match old(self).state {
                State::Menu => if space_pressed {
                    &&& final(self).state == State::Play
                    &&& fresh_game(final(self).game, Some(new_player(blank)), levels@)
                    &&& sound == Some(GameSound::Level)
                } else {
                    &&& final(self).state == State::Menu
                    &&& final(self).game.timer == old(self).game.timer + 1
                    &&& final(self).game.player == old(self).game.player
                    &&& final(self).game.level == old(self).game.level
                    &&& sound is None
                },
                State::Play => if old(self).game.player.unwrap().lives < 0 {
                    &&& final(self).state == State::GameOver
                    &&& final(self).game == old(self).game
                    &&& sound == Some(GameSound::Over)
                } else {
                    &&& final(self).state == State::Play
                    &&& final(self).game.timer == old(self).game.timer + 1
                    &&& final(self).game.player == old(self).game.player
                    &&& final(self).game.level == old(self).game.level
                    &&& sound is None
                },
                State::GameOver => if space_pressed {
                    &&& final(self).state == State::Menu
                    &&& fresh_game(final(self).game, None, levels@)
                    &&& sound is None
                } else {
                    &&& final(self).state == State::GameOver
                    &&& final(self).game == old(self).game
                    &&& sound is None
                },
            },
    {
        match self.state {
            State::Menu => {
                if space_pressed {
                    self.state = State::Play;
                    self.game = Game::new(Some(Player::new(blank)), levels);
                    if sound_audible(&self.game.player) {
                        Some(GameSound::Level)
                    } else {
                        None
                    }
                } else {
                    self.game.update();
                    None
                }
            },
            State::Play => {
                let lives = match &self.game.player {
                    Some(p) => p.lives,
                    None => 0,
                };
                if lives < 0 {
                    self.state = State::GameOver;
                    if sound_audible(&self.game.player) {
                        Some(GameSound::Over)
                    } else {
                        None
                    }
                } else {
                    self.game.update();
                    None
                }
            },
            State::GameOver => {
                if space_pressed {
                    self.state = State::Menu;
                    self.game = Game::new(None, levels);
                }
                None
            },
        }
    }
}

/// The animation frame of the "press space" prompt at game time `timer`: a
/// new frame every 4 ticks over a 160-tick cycle, shifted by 40 ticks, and
/// held on the last of its 10 frames for most of the cycle.
pub open spec fn space_frame(timer: int) -> int {
    let f = ((timer + 40) % 160) / 4;
    if f < 9 {
        f
    } else {
        9
    }
}

/// The animation frame of the "press space" prompt (see `space_frame`).
pub fn space_anim_frame(timer: i32) -> (r: usize)
    requires
        -40 <= timer <= i32::MAX - 40,
    ensures
        r == space_frame(timer as int),
        r < 10,
{
    let f = ((timer + 40) % 160) / 4;
    if f < 9 {
        f as usize
    } else {
        9
    }
}

/// The icons of the status bar: a life icon per spare life, at most two
/// (two also when the count is negative), a plus sign when there are more
/// than two, then, while the game is not lost, an icon per health point.
pub open spec fn status_list(lives: int, health: int) -> Seq<StatusIcon> {
    let n = if lives < 0 || lives > 2 {
        2
    } else {
        lives
    };
    Seq::new(n as nat, |i: int| StatusIcon::Life) + (if lives > 2 {
        seq![StatusIcon::Plus]
    } else {
        Seq::empty()
    }) + (if lives >= 0 {
        Seq::new(health as nat, |i: int| StatusIcon::Health)
    } else {
        Seq::empty()
    })
}

/// The icons of the status bar (see `status_list`).
pub fn status_icons(lives: i32, health: i32) -> (r: Vec<StatusIcon>)
    requires
        lives >= 0 ==> 0 <= health <= MAX_ICONS - 3,
    ensures
        r@ == status_list(lives as int, health as int),
        r@.len() <= MAX_ICONS,
{
    let n: usize = if lives < 0 || lives > 2 {
        2
    } else {
        lives as usize
    };
    let mut icons: Vec<StatusIcon> = Vec::new();
    let mut i: usize = 0;
    while i < n
        invariant
            i <= n <= 2,
            icons@ == Seq::new(i as nat, |k: int| StatusIcon::Life),
        decreases n - i,
    {
        icons.push(StatusIcon::Life);
        assert(icons@ =~= Seq::new((i + 1) as nat, |k: int| StatusIcon::Life));
        i += 1;
    }
    let ghost lives_part = icons@;
    if lives > 2 {
        icons.push(StatusIcon::Plus);
    }
    let ghost head = icons@;
    assert(head =~= lives_part + (if lives > 2 {
        seq![StatusIcon::Plus]
    } else {
        Seq::<StatusIcon>::empty()
    }));
    if lives >= 0 {
        let h = health as usize;
        let mut j: usize = 0;
        while j < h
            invariant
                j <= h,
                h <= MAX_ICONS - 3,
                head.len() <= 3,
                icons@ == head + Seq::new(j as nat, |k: int| StatusIcon::Health),
            decreases h - j,
        {
            icons.push(StatusIcon::Health);
            assert(icons@ =~= head + Seq::new((j + 1) as nat, |k: int| StatusIcon::Health));
            j += 1;
        }
    }
    assert(icons@ =~= status_list(lives as int, health as int));
    icons
}

/// The x where a right-justified score of `len` characters starts: the
/// digits are as wide as the letter A, and 2 pixels are left at the edge.
pub fn score_x(len: usize) -> (r: i32)
    requires
        len <= 1000,
    ensures
        r == WIDTH - 2 - CHAR_WIDTH@[0] * len,
{
    WIDTH - 2 - CHAR_WIDTH[0] * (len as i32)
}

/// The level caption: "LEVEL " and the level's number counted from 1.
pub fn level_text(level: i8) -> (r: Vec<u8>)
    ensures
        r@ == seq![76u8, 69, 86, 69, 76, 32] + decimal_text(level + 1),
{
    let mut text: Vec<u8> = Vec::new();
    text.push(76u8);
    text.push(69u8);
    text.push(86u8);
    text.push(69u8);
    text.push(76u8);
    text.push(32u8);
    let number = decimal((level as i32) + 1);
    let ghost caption = text@;
    let mut i: usize = 0;
    while i < number.len()
        invariant
            i <= number.len(),
            caption == seq![76u8, 69, 86, 69, 76, 32],
            text@ == caption + number@.take(i as int),
        decreases number.len() - i,
    {
        text.push(number[i]);
        assert(text@ =~= caption + number@.take(i as int + 1));
        i += 1;
    }
    assert(number@.take(number.len() as int) =~= number@);
    text
}

/// The status bar shows at most two life icons (they come first), and a
/// plus sign exactly when there are more than two spare lives.
pub proof fn lemma_status_lives(lives: int, health: int)
    ensures
        forall|i: int|
            0 <= i < status_list(lives, health).len() && #[trigger] status_list(lives, health)[i]
                == StatusIcon::Life ==> i < 2,
        status_list(lives, health).contains(StatusIcon::Plus) <==> lives > 2,
{
    let n = if lives < 0 || lives > 2 {
        2
    } else {
        lives
    };
    let a = Seq::new(n as nat, |i: int| StatusIcon::Life);
    let b = if lives > 2 {
        seq![StatusIcon::Plus]
    } else {
        Seq::<StatusIcon>::empty()
    };
    let c = if lives >= 0 {
        Seq::new(health as nat, |i: int| StatusIcon::Health)
    } else {
        Seq::<StatusIcon>::empty()
    };
    let l = status_list(lives, health);
    assert(l == a + b + c);
    assert forall|i: int| 0 <= i < l.len() && #[trigger] l[i] == StatusIcon::Life implies i < 2 by {
        if i >= n {
            if i < n + b.len() {
                assert(l[i] == b[i - n]);
            } else {
                assert(l[i] == c[i - n - b.len()]);
            }
        }
    }
    if lives > 2 {
        assert(l[n] == StatusIcon::Plus);
    }
    if l.contains(StatusIcon::Plus) {
        let k = choose|k: int| 0 <= k < l.len() && l[k] == StatusIcon::Plus;
        if k < n {
            assert(l[k] == a[k]);
        } else if k >= n + b.len() {
            assert(l[k] == c[k - n - b.len()]);
        }
    }
}

} // verus!
