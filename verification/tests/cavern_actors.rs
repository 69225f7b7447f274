use classic_games::cavern::actor::{top_left_pos, Actor, Anchor, Image};
use classic_games::cavern::bolt::Bolt;
use classic_games::cavern::collide_actor::{block, CollideActor};
use classic_games::cavern::fruit::{fruit_type_choices, Fruit, FruitType};
use classic_games::cavern::gravity_actor::GravityActor;
use classic_games::cavern::orb::Orb;
use classic_games::cavern::player::Player;
use classic_games::cavern::pop::Pop;
use classic_games::cavern::resources::Resources;
use classic_games::cavern::robot::{Robot, RobotType};
use classic_games::cavern::{GRID_BLOCK_SIZE, LEVEL_X_OFFSET};

fn image(texture: u32, width: i32, height: i32) -> Image {
    Image { texture, width, height }
}

fn images(first: u32, n: u32) -> Vec<Image> {
    (0..n).map(|i| image(first + i, 20, 20)).collect()
}

fn resources() -> Resources {
    Resources {
        blank_texture: image(0, 10, 10),
        space_textures: images(100, 10),
        orb_textures: images(200, 7),
        trap_textures: images(300, 16),
        bolt_textures: images(400, 4),
        pop_textures: images(500, 14),
        fruit_textures: images(600, 15),
    }
}

/// 18 empty rows, with a solid floor on row 17.
fn floor_grid() -> Vec<Vec<u8>> {
    let mut grid: Vec<Vec<u8>> = (0..17).map(|_| vec![b' '; 28]).collect();
    grid.push(vec![b'X'; 28]);
    grid
}

fn empty_grid() -> Vec<Vec<u8>> {
    (0..18).map(|_| vec![b' '; 28]).collect()
}

#[test]
fn top_left_of_both_anchors() {
    let img = image(1, 30, 40);
    assert_eq!(top_left_pos(Anchor::Centre, 100, 100, &img), (85, 80));
    assert_eq!(top_left_pos(Anchor::CentreBottom, 100, 100, &img), (85, 60));
}

#[test]
fn actor_geometry_of_a_pop() {
    let pop = Pop::new(100, 200, 0, image(1, 30, 40));
    assert_eq!(pop.left(), 85);
    assert_eq!(pop.right(), 115);
    assert_eq!(pop.top(), 180);
    assert_eq!(pop.bottom(), 220);
    assert_eq!(pop.center(), (100, 200));
    assert!(pop.collidepoint((85, 180)));
    assert!(pop.collidepoint((115, 220)));
    assert!(!pop.collidepoint((116, 200)));
}

#[test]
fn block_reads_the_grid_cell() {
    let grid = floor_grid();
    let x = LEVEL_X_OFFSET + GRID_BLOCK_SIZE * 3;
    assert!(block(x, GRID_BLOCK_SIZE * 17, &grid));
    assert!(!block(x, GRID_BLOCK_SIZE * 16, &grid));
    // Row 0 and rows past the grid never hold blocks.
    assert!(!block(x, 0, &grid));
    assert!(!block(x, GRID_BLOCK_SIZE * 18, &grid));
    // Left of the grid.
    assert!(!block(LEVEL_X_OFFSET - 30, GRID_BLOCK_SIZE * 17, &grid));
}

#[test]
fn move_without_obstacle_goes_all_the_way() {
    let grid = empty_grid();
    let mut bolt = Bolt::new(100, 100, 1, image(0, 10, 10));
    assert!(!bolt.move_(1, 0, 7, &grid));
    assert_eq!((bolt.x, bolt.y), (107, 100));
}

#[test]
fn move_stops_at_the_level_edge() {
    let grid = empty_grid();
    let mut bolt = Bolt::new(728, 100, 1, image(0, 10, 10));
    assert!(bolt.move_(1, 0, 7, &grid));
    assert_eq!(bolt.x, 730);
    let mut left = Bolt::new(72, 100, -1, image(0, 10, 10));
    assert!(left.move_(-1, 0, 7, &grid));
    assert_eq!(left.x, 70);
}

#[test]
fn move_stops_above_a_block() {
    let grid = floor_grid();
    let mut player = Player::new(image(0, 10, 20));
    player.x = 400;
    player.y = 420;
    assert!(player.move_(0, 1, 10, &grid));
    assert_eq!(player.y, 424);
}

#[test]
fn gravity_accelerates_up_to_the_limit() {
    let grid = empty_grid();
    let mut player = Player::new(image(0, 10, 20));
    player.x = 400;
    player.y = 100;
    player.update(true, &grid);
    assert_eq!((player.y, player.vel_y), (101, 1));
    player.vel_y = 10;
    player.update(true, &grid);
    assert_eq!((player.y, player.vel_y), (111, 10));
    assert!(!player.landed);
}

#[test]
fn gravity_lands_on_a_block() {
    let grid = floor_grid();
    let mut player = Player::new(image(0, 10, 20));
    player.x = 400;
    player.y = 424;
    player.update(true, &grid);
    assert_eq!((player.y, player.vel_y, player.landed), (424, 0, true));
}

#[test]
fn gravity_wraps_from_the_bottom_to_the_top() {
    let grid = empty_grid();
    let mut player = Player::new(image(0, 10, 20));
    player.x = 400;
    player.y = 500;
    player.update(true, &grid);
    assert_eq!(player.y, 1);
    assert_eq!(player.vel_y, 1);
}

#[test]
fn gravity_without_detection_just_falls() {
    let grid = floor_grid();
    let mut player = Player::new(image(0, 10, 20));
    player.x = 400;
    player.y = 424;
    player.vel_y = 4;
    player.update(false, &grid);
    assert_eq!((player.y, player.vel_y, player.landed), (429, 5, false));
}

#[test]
fn player_reset_keeps_lives_and_score() {
    let mut player = Player::new(image(0, 10, 20));
    player.score = 1234;
    player.lives = 5;
    player.health = 1;
    player.reset();
    assert_eq!((player.x, player.y), (400, 100));
    assert_eq!((player.health, player.hurt_timer, player.direction_x), (3, 100, 1));
    assert_eq!((player.score, player.lives), (1234, 5));
}

#[test]
fn robot_type_numbers() {
    assert_eq!(RobotType::Normal.val(), 0);
    assert_eq!(RobotType::Aggressive.val(), 1);
}

#[test]
fn robots_get_a_random_speed_of_one_to_three() {
    let mut seen = [false; 4];
    for _ in 0..200 {
        let robot = Robot::new(10, 20, RobotType::Normal, image(0, 10, 10));
        assert!((1..4).contains(&robot.speed));
        assert_eq!((robot.x, robot.y, robot.direction_x, robot.fire_timer), (10, 20, 1, 100));
        seen[robot.speed as usize] = true;
    }
    assert!(seen[1] && seen[2] && seen[3]);
}

#[test]
fn fruit_type_numbers() {
    let vals: Vec<i32> = [
        FruitType::Apple,
        FruitType::Raspberry,
        FruitType::Lemon,
        FruitType::ExtraHealth,
        FruitType::ExtraLife,
    ]
    .iter()
    .map(|t| t.val())
    .collect();
    assert_eq!(vals, vec![0, 1, 2, 3, 4]);
}

#[test]
fn fruit_choices_by_trapped_robot() {
    assert_eq!(
        fruit_type_choices(Some(RobotType::Normal)),
        vec![FruitType::Apple, FruitType::Raspberry, FruitType::Lemon]
    );
    let list = fruit_type_choices(Some(RobotType::Aggressive));
    assert_eq!(list.len(), 40);
    assert_eq!(list.iter().filter(|t| **t == FruitType::Apple).count(), 10);
    assert_eq!(list.iter().filter(|t| **t == FruitType::ExtraHealth).count(), 9);
    assert_eq!(list.iter().filter(|t| **t == FruitType::ExtraLife).count(), 1);
    assert_eq!(list[39], FruitType::ExtraLife);
    assert_eq!(fruit_type_choices(None), list);
}

#[test]
fn new_fruit_is_drawn_from_its_choices() {
    let mut kinds = Vec::new();
    for _ in 0..100 {
        let fruit = Fruit::new(300, 200, Some(RobotType::Normal), image(0, 10, 10));
        assert!(matches!(
            fruit.type_,
            FruitType::Apple | FruitType::Raspberry | FruitType::Lemon
        ));
        assert_eq!((fruit.time_to_live, fruit.vel_y, fruit.landed), (500, 0, false));
        if !kinds.contains(&fruit.type_) {
            kinds.push(fruit.type_);
        }
    }
    assert!(kinds.len() > 1);
}

#[test]
fn fruit_collected_by_the_player() {
    let res = resources();
    let grid = floor_grid();
    let mut fruit = Fruit::new(400, 424, Some(RobotType::Normal), res.blank_texture);
    fruit.type_ = FruitType::Lemon;
    let mut player = Player::new(image(0, 40, 40));
    player.x = 400;
    player.y = 424;
    let mut holder = Some(player);
    let mut pops = Vec::new();
    fruit.update(&mut pops, &mut holder, 0, &grid, &res);
    assert_eq!(holder.as_ref().unwrap().score, 300);
    assert_eq!(fruit.time_to_live, 0);
    assert_eq!(pops.len(), 1);
    assert_eq!((pops[0].x, pops[0].y, pops[0].type_, pops[0].timer), (400, 424 - 27, 0, -1));
    // Lemon is fruit number 2, frame 0 at time 0.
    assert_eq!(fruit.image, res.fruit_textures[6]);
}

#[test]
fn fruit_power_ups() {
    let res = resources();
    let grid = floor_grid();
    let mut player = Player::new(image(0, 40, 40));
    player.x = 400;
    player.y = 424;
    player.health = 3;
    let mut holder = Some(player);
    let mut pops = Vec::new();
    let mut health = Fruit::new(400, 424, None, res.blank_texture);
    health.type_ = FruitType::ExtraHealth;
    health.update(&mut pops, &mut holder, 6, &grid, &res);
    assert_eq!(holder.as_ref().unwrap().health, 3);
    let mut life = Fruit::new(400, 424, None, res.blank_texture);
    life.type_ = FruitType::ExtraLife;
    life.update(&mut pops, &mut holder, 6, &grid, &res);
    assert_eq!(holder.as_ref().unwrap().lives, 3);
    // Extra life is fruit number 4, frame 1 at time 6.
    assert_eq!(life.image, res.fruit_textures[13]);
}

#[test]
fn uncollected_fruit_ages() {
    let res = resources();
    let grid = floor_grid();
    let mut fruit = Fruit::new(400, 300, Some(RobotType::Normal), res.blank_texture);
    let mut nobody: Option<Player> = None;
    let mut pops = Vec::new();
    fruit.update(&mut pops, &mut nobody, 18, &grid, &res);
    assert_eq!(fruit.time_to_live, 499);
    assert_eq!((fruit.y, fruit.vel_y), (301, 1));
    assert!(pops.is_empty());
    fruit.time_to_live = 1;
    fruit.update(&mut pops, &mut nobody, 18, &grid, &res);
    assert_eq!(pops.len(), 1);
}

#[test]
fn pop_animation() {
    let res = resources();
    let mut pop = Pop::new(10, 20, 1, res.blank_texture);
    pop.update(&res);
    assert_eq!((pop.timer, pop.image), (0, res.pop_textures[7]));
    pop.update(&res);
    pop.update(&res);
    assert_eq!((pop.timer, pop.image), (2, res.pop_textures[8]));
}

#[test]
fn orb_hit_by_a_bolt_bursts_next() {
    let res = resources();
    let mut orb = Orb::new(300, 200, 1, res.orb_textures[0]);
    let bolt = Bolt::new(305, 195, 1, res.blank_texture);
    assert!(orb.hit_test(&bolt));
    assert_eq!(orb.timer, 249);
    let far = Bolt::new(400, 195, 1, res.blank_texture);
    let mut other = Orb::new(300, 200, 1, res.orb_textures[0]);
    assert!(!other.hit_test(&far));
    assert_eq!(other.timer, -1);
}

#[test]
fn blown_orb_moves_then_floats() {
    let res = resources();
    let grid = empty_grid();
    let mut orb = Orb::new(300, 200, 1, res.blank_texture);
    let mut fruits = Vec::new();
    let mut pops = Vec::new();
    orb.update(&mut fruits, &mut pops, &grid, &res);
    assert_eq!((orb.x, orb.y, orb.timer, orb.floating), (304, 200, 0, false));
    assert_eq!(orb.image, res.orb_textures[0]);
    for _ in 0..6 {
        orb.update(&mut fruits, &mut pops, &grid, &res);
    }
    assert_eq!((orb.x, orb.timer, orb.floating), (328, 6, true));
    let y = orb.y;
    orb.update(&mut fruits, &mut pops, &grid, &res);
    assert!(orb.y == y - 1 || orb.y == y - 2);
    assert_eq!(orb.x, 328);
}

#[test]
fn old_orb_bursts_and_frees_its_robot() {
    let res = resources();
    let grid = empty_grid();
    let mut orb = Orb::new(300, 200, 1, res.blank_texture);
    orb.floating = true;
    orb.timer = 249;
    orb.trapped_enemy_type = Some(RobotType::Aggressive);
    let mut fruits = Vec::new();
    let mut pops = Vec::new();
    orb.update(&mut fruits, &mut pops, &grid, &res);
    assert_eq!(pops.len(), 1);
    assert_eq!((pops[0].x, pops[0].y, pops[0].type_), (orb.x, orb.y, 1));
    assert_eq!(fruits.len(), 1);
    assert_eq!((fruits[0].x, fruits[0].y), (orb.x, orb.y));
    // Trapped aggressive robot, frame (250 / 4) % 8 = 6.
    assert_eq!(orb.image, res.trap_textures[8 + 6]);
}

#[test]
fn bolt_spent_on_the_first_orb_it_hits() {
    let res = resources();
    let grid = empty_grid();
    let mut orbs = vec![
        Orb::new(500, 100, 1, res.orb_textures[0]),
        Orb::new(305, 100, 1, res.orb_textures[0]),
        Orb::new(307, 100, 1, res.orb_textures[0]),
    ];
    let mut bolt = Bolt::new(300, 100, 1, res.blank_texture);
    bolt.update(&mut orbs, 4, &grid, &res);
    assert_eq!(bolt.x, 307);
    assert!(!bolt.active);
    assert_eq!((orbs[0].timer, orbs[1].timer, orbs[2].timer), (-1, 249, -1));
    // Moving right, frame 1 at time 4.
    assert_eq!(bolt.image, res.bolt_textures[3]);
}

#[test]
fn bolt_spent_against_the_edge() {
    let res = resources();
    let grid = empty_grid();
    let mut orbs = vec![Orb::new(90, 100, 1, res.orb_textures[0])];
    let mut bolt = Bolt::new(75, 100, -1, res.blank_texture);
    bolt.update(&mut orbs, 0, &grid, &res);
    assert_eq!(bolt.x, 70);
    assert!(!bolt.active);
    assert_eq!(orbs[0].timer, -1);
    assert_eq!(bolt.image, res.bolt_textures[0]);
}

#[test]
fn no_block_left_of_the_grid() {
    let mut grid = floor_grid();
    grid[17][0] = b'X';
    // Column 0 holds a block, but the pixels left of the grid are not in it.
    assert!(block(LEVEL_X_OFFSET, GRID_BLOCK_SIZE * 17, &grid));
    assert!(!block(LEVEL_X_OFFSET - 1, GRID_BLOCK_SIZE * 17, &grid));
    assert!(!block(LEVEL_X_OFFSET - 24, GRID_BLOCK_SIZE * 17, &grid));
}
