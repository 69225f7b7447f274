use classic_games::catacomb_ii::dir_type::dirtype;
use classic_games::catacomb_ii::movement::{
    chase_first, chase_sweep, charge_shot, item_key, opposite_dir, player_move, think_gate,
    walk_plan, ItemKey, ShotCharge, ShotFired, WalkPlan,
};
use classic_games::catacomb_ii::obj_type::objtype;
use classic_games::catacomb_ii::pcrlib_a_state::PcrlibAState;
use classic_games::catacomb_ii::scan_codes::{
    SDL_SCANCODE_B, SDL_SCANCODE_N, SDL_SCANCODE_P, SDL_SCANCODE_Q, SDL_SCANCODE_RETURN,
    SDL_SCANCODE_SPACE,
};
use classic_games::catacomb_ii::think_type::thinktype;

fn monster(delay: u8, speed: u16, think: u8) -> objtype {
    objtype {
        active: true,
        class: 3,
        x: 10,
        y: 12,
        stage: 0,
        delay,
        dir: 1,
        hp: 5,
        oldx: 10,
        oldy: 12,
        oldtile: -1,
        filler: [0],
        think,
        contact: 0,
        solid: 1,
        firstchar: 0,
        size: 2,
        stages: 2,
        dirmask: 3,
        speed,
        hitpoints: 5,
        damage: 1,
        points: 100,
    }
}

#[test]
fn opposite_directions() {
    assert_eq!(opposite_dir(dirtype::north), dirtype::south);
    assert_eq!(opposite_dir(dirtype::east), dirtype::west);
    assert_eq!(opposite_dir(dirtype::northeast), dirtype::southwest);
    assert_eq!(opposite_dir(dirtype::southeast), dirtype::northwest);
    assert_eq!(opposite_dir(dirtype::nodir), dirtype::nodir);
    for d in [dirtype::north, dirtype::east, dirtype::south, dirtype::west, dirtype::northwest] {
        assert_eq!(opposite_dir(opposite_dir(d)), d);
    }
}

#[test]
fn a_step_checks_the_cells_it_uncovers() {
    assert_eq!(
        walk_plan(5, 7, 2, dirtype::north),
        Some(WalkPlan { newx: 5, newy: 6, chkx: 5, chky: 6, deltax: 1, deltay: 0 })
    );
    assert_eq!(
        walk_plan(5, 7, 2, dirtype::east),
        Some(WalkPlan { newx: 6, newy: 7, chkx: 7, chky: 7, deltax: 0, deltay: 1 })
    );
    assert_eq!(
        walk_plan(5, 7, 2, dirtype::south),
        Some(WalkPlan { newx: 5, newy: 8, chkx: 5, chky: 9, deltax: 1, deltay: 0 })
    );
    assert_eq!(
        walk_plan(5, 7, 2, dirtype::west),
        Some(WalkPlan { newx: 4, newy: 7, chkx: 4, chky: 7, deltax: 0, deltay: 1 })
    );
    assert_eq!(walk_plan(5, 7, 2, dirtype::northeast), None);
    assert_eq!(walk_plan(5, 7, 2, dirtype::nodir), None);
}

#[test]
fn stepping_cells_are_new_cells() {
    // Each checked cell is covered after the step and was not before.
    for dir in [dirtype::north, dirtype::east, dirtype::south, dirtype::west] {
        let x: i32 = 20;
        let y: i32 = 30;
        let size: i32 = 3;
        let p = walk_plan(20, 30, 3, dir).unwrap();
        let covers = |ox: i32, oy: i32, cx: i32, cy: i32| {
            ox <= cx && cx < ox + size && oy <= cy && cy < oy + size
        };
        let mut count: i32 = 0;
        for k in 0..size {
            let cx: i32 = p.chkx + k * p.deltax;
            let cy: i32 = p.chky + k * p.deltay;
            assert!(covers(p.newx, p.newy, cx, cy));
            assert!(!covers(x, y, cx, cy));
            count += 1;
        }
        let mut fresh: i32 = 0;
        for cy in 25..40 {
            for cx in 15..30 {
                if covers(p.newx, p.newy, cx, cy) && !covers(x, y, cx, cy) {
                    fresh += 1;
                }
            }
        }
        assert_eq!(count, fresh);
    }
}

#[test]
fn chaser_heads_along_the_longer_distance() {
    // The player is 5 columns east and 2 rows north; the monster faces east.
    assert_eq!(
        chase_first(true, dirtype::east, 10, 3, 5, 5),
        vec![dirtype::east, dirtype::north, dirtype::east]
    );
    assert_eq!(
        chase_first(false, dirtype::east, 10, 3, 5, 5),
        vec![dirtype::north, dirtype::east, dirtype::east]
    );
    // Rows farther than columns: the rows come first for a diagonal mover.
    assert_eq!(
        chase_first(true, dirtype::north, 6, 0, 5, 5),
        vec![dirtype::north, dirtype::east, dirtype::north]
    );
}

#[test]
fn chaser_never_turns_back_first() {
    // The player is straight behind a monster facing north.
    assert_eq!(chase_first(true, dirtype::north, 5, 9, 5, 5), vec![dirtype::north]);
    assert_eq!(chase_first(false, dirtype::north, 5, 9, 5, 5), vec![dirtype::north]);
    // On the player's cell there is no way to go but straight on.
    assert_eq!(chase_first(false, dirtype::west, 5, 5, 5, 5), vec![dirtype::west]);
}

#[test]
fn chaser_sweeps_then_turns_back() {
    let mut pas = PcrlibAState::new();
    // The table's second number is 8: west to north.
    pas.rndindex = 0;
    let r = chase_sweep(dirtype::north, &mut pas);
    assert_eq!(pas.rndindex, 1);
    assert_eq!(r, vec![dirtype::west, dirtype::east, dirtype::north, dirtype::south]);
    // The fourth is 220: north to west.
    pas.rndindex = 2;
    let r = chase_sweep(dirtype::north, &mut pas);
    assert_eq!(pas.rndindex, 3);
    assert_eq!(r, vec![dirtype::north, dirtype::east, dirtype::west, dirtype::south]);
    pas.rndindex = 255;
    let r = chase_sweep(dirtype::east, &mut pas);
    assert_eq!(pas.rndindex, 0);
    assert_eq!(r, vec![dirtype::south, dirtype::east, dirtype::north, dirtype::west]);
}

#[test]
fn player_walks_on_odd_frames() {
    let m = player_move(dirtype::east, false, 1, 0);
    assert_eq!(m.steps, vec![dirtype::east]);
    assert_eq!(m.dir, 1);
    let m = player_move(dirtype::east, false, 2, 0);
    assert!(m.steps.is_empty());
    assert_eq!(m.dir, 1);
    let m = player_move(dirtype::nodir, false, 1, 2);
    assert!(m.steps.is_empty());
    assert_eq!(m.dir, 2);
}

#[test]
fn diagonal_steps_alternate() {
    let m = player_move(dirtype::northeast, false, 1, 0);
    assert_eq!(m.steps, vec![dirtype::north, dirtype::east]);
    assert_eq!(m.dir, 1);
    let m = player_move(dirtype::northeast, false, 3, 0);
    assert_eq!(m.steps, vec![dirtype::east, dirtype::north]);
    assert_eq!(m.dir, 0);
    let m = player_move(dirtype::southwest, false, 5, 0);
    assert_eq!(m.steps, vec![dirtype::south, dirtype::west]);
    let m = player_move(dirtype::northwest, false, 7, 0);
    assert_eq!(m.steps, vec![dirtype::north, dirtype::west]);
    assert_eq!(m.dir, 3);
}

#[test]
fn strafing_keeps_the_facing() {
    let m = player_move(dirtype::south, true, 1, 1);
    assert_eq!(m.steps, vec![dirtype::south]);
    assert_eq!(m.dir, 1);
    let m = player_move(dirtype::south, true, 2, 1);
    assert!(m.steps.is_empty());
    assert_eq!(m.dir, 1);
}

#[test]
fn standing_player_turns_clockwise_of_a_diagonal() {
    assert_eq!(player_move(dirtype::northeast, false, 0, 0).dir, 1);
    assert_eq!(player_move(dirtype::southeast, false, 0, 0).dir, 2);
    assert_eq!(player_move(dirtype::southwest, false, 0, 0).dir, 3);
    assert_eq!(player_move(dirtype::northwest, false, 0, 1).dir, 0);
    assert_eq!(player_move(dirtype::west, false, 4, 1).dir, 3);
}

#[test]
fn shot_charges_up_to_full_power() {
    let held = |p: i32, f: u16| charge_shot(0, p, true, f);
    assert_eq!(
        held(0, 2),
        ShotCharge { boltsleft: 0, shotpower: 1, fired: ShotFired::NoShot, meter: true }
    );
    assert_eq!(held(5, 1).shotpower, 6);
    assert_eq!(held(5, 2).shotpower, 5);
    assert_eq!(held(13, 1).shotpower, 13);
    let mut p: i32 = 0;
    for f in 0..100u16 {
        p = held(p, f).shotpower;
        assert!((0..=13).contains(&p));
    }
    assert_eq!(p, 13);
}

#[test]
fn releasing_fires_the_charged_shot() {
    assert_eq!(
        charge_shot(0, 13, false, 0),
        ShotCharge { boltsleft: 0, shotpower: 0, fired: ShotFired::BigShot, meter: true }
    );
    assert_eq!(
        charge_shot(0, 7, false, 0),
        ShotCharge { boltsleft: 0, shotpower: 0, fired: ShotFired::Shot, meter: true }
    );
    assert_eq!(
        charge_shot(0, 0, false, 0),
        ShotCharge { boltsleft: 0, shotpower: 0, fired: ShotFired::NoShot, meter: false }
    );
}

#[test]
fn bolts_fire_every_third_frame() {
    assert_eq!(
        charge_shot(2, 4, false, 3),
        ShotCharge { boltsleft: 1, shotpower: 4, fired: ShotFired::BigShot, meter: false }
    );
    assert_eq!(
        charge_shot(2, 4, true, 4),
        ShotCharge { boltsleft: 2, shotpower: 4, fired: ShotFired::NoShot, meter: false }
    );
}

#[test]
fn waiting_objects_count_down() {
    let mut obj = monster(3, 256, 3);
    let mut pas = PcrlibAState::new();
    assert_eq!(think_gate(&mut obj, &mut pas), None);
    assert_eq!(obj.delay, 2);
    assert_eq!(pas.rndindex, 0);
}

#[test]
fn ready_objects_think_by_speed() {
    let mut pas = PcrlibAState::new();
    let mut obj = monster(0, 256, 3);
    assert_eq!(think_gate(&mut obj, &mut pas), Some(thinktype::ramstraight));
    assert_eq!(pas.rndindex, 1);
    assert_eq!(obj.delay, 0);
    // Speed 8 is not above the table's next number, 109.
    let mut obj = monster(0, 8, 4);
    assert_eq!(think_gate(&mut obj, &mut pas), None);
    // Speed 110 is.
    let mut obj = monster(0, 110, 9);
    pas.rndindex = 1;
    assert_eq!(think_gate(&mut obj, &mut pas), Some(thinktype::gunthinke));
    let mut obj = monster(0, 256, 11);
    assert_eq!(think_gate(&mut obj, &mut pas), None);
}

fn keys(held: &[u32]) -> Vec<bool> {
    let mut k = vec![false; 512];
    for &c in held {
        k[c as usize] = true;
    }
    k
}

#[test]
fn potion_key_drinks_below_full_health() {
    let mut k = keys(&[SDL_SCANCODE_P, SDL_SCANCODE_Q, SDL_SCANCODE_B]);
    assert_eq!(item_key(&mut k, 5), Some(ItemKey::Potion));
    // Q and space are released; P and B stay held.
    assert_eq!(k, keys(&[SDL_SCANCODE_P, SDL_SCANCODE_B]));
    let mut k = keys(&[SDL_SCANCODE_SPACE, SDL_SCANCODE_B]);
    assert_eq!(item_key(&mut k, 13), None);
    assert_eq!(k, keys(&[SDL_SCANCODE_SPACE, SDL_SCANCODE_B]));
}

#[test]
fn bolt_and_nuke_keys() {
    let mut k = keys(&[SDL_SCANCODE_B, SDL_SCANCODE_N]);
    assert_eq!(item_key(&mut k, 13), Some(ItemKey::Bolt));
    assert_eq!(k, keys(&[SDL_SCANCODE_N]));
    assert_eq!(item_key(&mut k, 13), Some(ItemKey::Nuke));
    assert_eq!(k, keys(&[]));
    let mut k = keys(&[SDL_SCANCODE_RETURN]);
    assert_eq!(item_key(&mut k, 1), Some(ItemKey::Nuke));
    assert_eq!(k, keys(&[]));
    assert_eq!(item_key(&mut k, 1), None);
}
