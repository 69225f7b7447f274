use vstd::prelude::*;

use crate::cavern::actor::{center_of, covers, geometry_ok, Actor, Anchor, Image, COORD_LIMIT};
use crate::cavern::collide_actor::{grid_ok, CollideActor};
use crate::cavern::gravity_actor::{
    fall_speed,
    gravity_step,
    GravityActor,
    GRAVITY_ACTOR_DEFAULT_ANCHOR,
};
use crate::cavern::player::Player;
use crate::cavern::pop::Pop;
use crate::cavern::random::random_choice;
use crate::cavern::resources::{resources_ok, Resources};
use crate::cavern::robot::RobotType;
use crate::int_math::div_trunc;

verus! {

/// The kinds of fruit and power-up.
#[derive(Clone, Copy, Debug, PartialEq, Eq, Structural)]
pub enum FruitType {
    Apple,
    Raspberry,
    Lemon,
    ExtraHealth,
    ExtraLife,
}

impl FruitType {
    /// The number of the fruit type, 0 to 4 in declaration order.
    pub open spec fn value(self) -> int {
        match self {
            FruitType::Apple => 0,
            FruitType::Raspberry => 1,
            FruitType::Lemon => 2,
            FruitType::ExtraHealth => 3,
            FruitType::ExtraLife => 4,
        }
    }

    /// The number of the fruit type (see `value`).
    pub fn val(&self) -> (r: i32)
        ensures
            r == self.value(),
    {
        match self {
            FruitType::Apple => 0,
            FruitType::Raspberry => 1,
            FruitType::Lemon => 2,
            FruitType::ExtraHealth => 3,
            FruitType::ExtraLife => 4,
        }
    }
}

/// The plain fruits in turn: apple, raspberry, lemon, apple, ...
pub open spec fn basic_fruit(i: int) -> FruitType {
    if i % 3 == 0 {
        FruitType::Apple
    } else if i % 3 == 1 {
        FruitType::Raspberry
    } else {
        FruitType::Lemon
    }
}

/// The list from which a new fruit's type is drawn, each entry equally
/// likely. A fruit from an orb that held a normal robot is one of the
/// three plain fruits. Otherwise each plain fruit appears 10 times, extra
/// health 9 times and extra life once.
pub open spec fn fruit_choices(trapped: Option<RobotType>) -> Seq<FruitType> {
    if trapped == Some(RobotType::Normal) {
        Seq::new(3, |i: int| basic_fruit(i))
    } else {
        Seq::new(30, |i: int| basic_fruit(i)) + Seq::new(9, |i: int| FruitType::ExtraHealth) + seq![
            FruitType::ExtraLife,
        ]
    }
}

/// The list from which a new fruit's type is drawn (see `fruit_choices`).
pub fn fruit_type_choices(trapped: Option<RobotType>) -> (r: Vec<FruitType>)
    ensures
        r@ == fruit_choices(trapped),
{
    let normal = match trapped {
        Some(RobotType::Normal) => true,
        _ => false,
    };
    let copies: usize = if normal {
        1
    } else {
        10
    };
    let mut types: Vec<FruitType> = Vec::new();
    let mut i: usize = 0;
    while i < copies
        invariant
            i <= copies,
            types@ == Seq::new((3 * i) as nat, |k: int| basic_fruit(k)),
        decreases copies - i,
    {
        types.push(FruitType::Apple);
        types.push(FruitType::Raspberry);
        types.push(FruitType::Lemon);
        proof {
            assert((3 * i) % 3 == 0 && (3 * i + 1) % 3 == 1 && (3 * i + 2) % 3 == 2) by (
            nonlinear_arith);
            assert(types@ =~= Seq::new((3 * (i + 1)) as nat, |k: int| basic_fruit(k)));
        }
        i += 1;
    }
    if !normal {
        let mut j: usize = 0;
        while j < 9
            invariant
                j <= 9,
                types@ == Seq::new(30, |k: int| basic_fruit(k)) + Seq::new(
                    j as nat,
                    |k: int| FruitType::ExtraHealth,
                ),
            decreases 9 - j,
        {
            types.push(FruitType::ExtraHealth);
            proof {
                assert(types@ =~= Seq::new(30, |k: int| basic_fruit(k)) + Seq::new(
                    (j + 1) as nat,
                    |k: int| FruitType::ExtraHealth,
                ));
            }
            j += 1;
        }
        types.push(FruitType::ExtraLife);
    }
    proof {
        assert(types@ =~= fruit_choices(trapped));
    }
    types
}

/// A fruit, power-up or extra life that falls to the ground and waits to
/// be collected.
pub struct Fruit {
    pub time_to_live: i32,
    pub trapped_enemy_type: Option<RobotType>,
    pub type_: FruitType,
    pub x: i32,
    pub y: i32,
    pub image: Image,
    pub anchor: Anchor,
    pub vel_y: i32,
    pub landed: bool,
}

/// A new fruit of type `type_` at (x, y), with its full time to live.
pub open spec fn fruit_at(
    x: i32,
    y: i32,
    trapped: Option<RobotType>,
    type_: FruitType,
    blank: Image,
) -> Fruit {
    Fruit {
        time_to_live: 500,
        trapped_enemy_type: trapped,
        type_,
        x,
        y,
        image: blank,
        anchor: GRAVITY_ACTOR_DEFAULT_ANCHOR,
        vel_y: 0,
        landed: false,
    }
}

/// Whether the player exists and (px, py) lies on its image.
pub open spec fn player_catches(player: Option<Player>, px: int, py: int) -> bool {
    match player {
        Some(p) => covers(p.anchor, p.x, p.y, p.image, px, py),
        None => false,
    }
}

/// The player after collecting a fruit: extra health (at most 3), an
/// extra life, or 100 points per fruit number plus one.
pub open spec fn collect_fruit(p: Player, t: FruitType) -> Player {
    match t {
        FruitType::ExtraHealth => Player {
            health: if p.health + 1 < 3 {
                (p.health + 1) as i32
            } else {
                3i32
            },
            ..p
        },
        FruitType::ExtraLife => Player { lives: (p.lives + 1) as i32, ..p },
        _ => Player { score: (p.score + (t.value() + 1) * 100) as i32, ..p },
    }
}

/// The animation frame of a fruit of type `t` at game time `game_timer`:
/// 3 frames per type, shown 0, 1, 2, 1 for 6 ticks each.
pub open spec fn fruit_frame(t: FruitType, game_timer: int) -> int {
    let k = div_trunc(game_timer, 6) % 4;
    t.value() * 3 + if k == 3 {
        1
    } else {
        k
    }
}

/// A player whose counters leave room for collecting a fruit.
pub open spec fn player_ok(player: Option<Player>) -> bool {
    match player {
        Some(p) => geometry_ok(p.x, p.y, p.image) && p.health < i32::MAX && p.lives < i32::MAX
            && p.score <= i32::MAX - 500,
        None => true,
    }
}

impl Fruit {
    /// A new fruit at (x, y) from an orb that held `trapped_enemy_type`;
    /// its type is drawn at random from `fruit_choices`.
    pub fn new(x: i32, y: i32, trapped_enemy_type: Option<RobotType>, blank: Image) -> (r: Self)
        ensures
            r == fruit_at(x, y, trapped_enemy_type, r.type_, blank),
            fruit_choices(trapped_enemy_type).contains(r.type_),
    {
        let types = fruit_type_choices(trapped_enemy_type);
        let type_ = random_choice(types.as_slice()).unwrap();
        Fruit {
            time_to_live: 500,
            trapped_enemy_type,
            type_,
            x,
            y,
            image: blank,
            anchor: GRAVITY_ACTOR_DEFAULT_ANCHOR,
            vel_y: 0,
            landed: false,
        }
    }

    /// One frame of the fruit: it falls (see `gravity_step`); if the player
    /// touches its centre the player collects it (see `collect_fruit`) and
    /// it expires, else its time to live goes down by one; an expired fruit
    /// leaves a pop 27 pixels above its position; its animation frame
    /// follows the game time.
    pub fn update(
        &mut self,
        pops: &mut Vec<Pop>,
        player: &mut Option<Player>,
        game_timer: i32,
        grid: &[Vec<u8>],
        resources: &Resources,
    )
        requires
            grid_ok(grid@),
            resources_ok(resources),
            geometry_ok(old(self).x, old(self).y, old(self).image),
            -COORD_LIMIT <= old(self).y + fall_speed(old(self).vel_y as int) <= COORD_LIMIT,
            old(self).vel_y < i32::MAX,
            old(self).time_to_live > i32::MIN,
            game_timer > -6,
            player_ok(*old(player)),
        ensures
            ({
                let g = gravity_step(
                    old(self).x as int,
                    old(self).y as int,
                    old(self).vel_y as int,
                    old(self).landed,
                    true,
                    old(self).image,
                    old(self).anchor,
                    grid@,
                );
                let c = center_of(old(self).anchor, old(self).x, g.0 as i32, old(self).image);
                let caught = player_catches(*old(player), c.0, c.1);
                let ttl: int = if caught {
                    0
                } else {
                    old(self).time_to_live - 1
                };
                &&& *final(self) == Fruit {
                    y: g.0 as i32,
                    vel_y: g.1 as i32,
                    landed: g.2,
                    time_to_live: ttl as i32,
                    image: resources.fruit_textures@[fruit_frame(old(self).type_, game_timer as int)],
                    ..*old(self)
                }
                &&& *final(player) == if caught {
                    Some(collect_fruit(old(player).unwrap(), old(self).type_))
                } else {
                    *old(player)
                }
                &&& caught && old(self).type_ == FruitType::ExtraHealth ==> {
                    let h = old(player).unwrap().health;
                    let h2 = final(player).unwrap().health;
                    &&& h2 <= h + 1
                    &&& h2 <= 3
                    &&& (h2 == h + 1 || h2 == 3)
                    &&& final(player).unwrap().lives == old(player).unwrap().lives
                    &&& final(player).unwrap().score == old(player).unwrap().score
                }
                &&& caught && old(self).type_ == FruitType::ExtraLife ==> {
                    &&& final(player).unwrap().lives == old(player).unwrap().lives + 1
                    &&& final(player).unwrap().health == old(player).unwrap().health
                    &&& final(player).unwrap().score == old(player).unwrap().score
                }
                &&& caught && old(self).type_ != FruitType::ExtraHealth && old(self).type_ != FruitType::ExtraLife ==> {
                    &&& final(player).unwrap().score == old(player).unwrap().score + 100 * (old(self).type_.value() + 1)
                    &&& final(player).unwrap().health == old(player).unwrap().health
                    &&& final(player).unwrap().lives == old(player).unwrap().lives
                }
                &&& !caught ==> *final(player) == *old(player)
                &&& final(pops)@ == if ttl <= 0 {
                    old(pops)@.push(
                        Pop {
                            timer: -1i32,
                            type_: 0i32,
                            x: old(self).x,
                            y: (g.0 - 27) as i32,
                            image: resources.blank_texture,
                            anchor: Anchor::Centre,
                        },
                    )
                } else {
                    old(pops)@
                }
            }),
    {
        GravityActor::update(self, true, grid);
        let center = self.center();
        let caught = match player {
            Some(p) => p.collidepoint(center),
            None => false,
        };
        if caught {
            if let Some(p) = player {
                match self.type_ {
                    FruitType::ExtraHealth => {
                        p.health = if p.health + 1 < 3 {
                            p.health + 1
                        } else {
                            3
                        };
                    },
                    FruitType::ExtraLife => {
                        p.lives = p.lives + 1;
                    },
                    _ => {
                        p.score = p.score + (self.type_.val() + 1) * 100;
                    },
                }
            }
            self.time_to_live = 0;
        } else {
            self.time_to_live = self.time_to_live - 1;
        }
        if self.time_to_live <= 0 {
            pops.push(Pop::new(self.x, self.y - 27, 0, resources.blank_texture));
        }
        let type_factor = self.type_.val() * 3;
        let phase = (game_timer / 6) % 4;
        let timer_factor = if phase == 3 {
            1
        } else {
            phase
        };
        let image_i = (type_factor + timer_factor) as usize;
        self.image = resources.fruit_textures[image_i];
    }
}

impl Actor for Fruit {
    open spec fn pos_x(&self) -> i32 {
        self.x
    }

    open spec fn pos_y(&self) -> i32 {
        self.y
    }

    open spec fn spec_image(&self) -> Image {
        self.image
    }

    open spec fn spec_anchor(&self) -> Anchor {
        self.anchor
    }

    open spec fn at_pos(&self, x: i32, y: i32) -> Self {
        Fruit { x, y, ..*self }
    }

    proof fn lemma_at_pos(&self, x: i32, y: i32, x2: i32, y2: i32) {
    }

    fn x(&self) -> i32 {
        self.x
    }

    fn set_x(&mut self, v: i32) {
        self.x = v;
    }

    fn y(&self) -> i32 {
        self.y
    }

    fn set_y(&mut self, v: i32) {
        self.y = v;
    }

    fn image(&self) -> Image {
        self.image
    }

    fn anchor(&self) -> Anchor {
        self.anchor
    }
}

impl CollideActor for Fruit {

}

impl GravityActor for Fruit {
    open spec fn spec_vel_y(&self) -> i32 {
        self.vel_y
    }

    open spec fn spec_landed(&self) -> bool {
        self.landed
    }

    open spec fn with_fall(&self, vel_y: i32, landed: bool) -> Self {
        Fruit { vel_y, landed, ..*self }
    }

    proof fn lemma_with_fall(&self, v: i32, l: bool, x: i32, y: i32, v2: i32, l2: bool) {
    }

    fn vel_y(&self) -> i32 {
        self.vel_y
    }

    fn set_vel_y(&mut self, v: i32) {
        self.vel_y = v;
    }

    fn landed(&self) -> bool {
        self.landed
    }

    fn set_landed(&mut self, v: bool) {
        self.landed = v;
    }
}

/// Collecting fruit never raises the player's health above 3.
pub proof fn lemma_health_capped(p: Player, t: FruitType)
    requires
        p.health <= 3,
    ensures
        collect_fruit(p, t).health <= 3,
{
}

/// An extra-health fruit gives exactly one more point of health, up to 3:
/// the new health is the smaller of the old one plus one and 3; lives and
/// score stay as they were.
pub proof fn lemma_extra_health_one_more(p: Player)
    ensures
        ({
            let h2 = collect_fruit(p, FruitType::ExtraHealth).health;
            &&& h2 <= p.health + 1
            &&& h2 <= 3
            &&& (h2 == p.health + 1 || h2 == 3)
            &&& collect_fruit(p, FruitType::ExtraHealth).lives == p.lives
            &&& collect_fruit(p, FruitType::ExtraHealth).score == p.score
        }),
{
}

} // verus!
