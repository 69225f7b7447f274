use classic_games::catacomb_ii::active_obj::activeobj;
use classic_games::catacomb_ii::saved_game::{game_slot, SavedGame, SAVED_GAME_SIZE};

fn player() -> activeobj {
    activeobj {
        active: true,
        class: 1,
        x: 13,
        y: 40,
        stage: 2,
        delay: 0,
        dir: 1,
        hp: 13,
        oldx: 12,
        oldy: 40,
        oldtile: -1,
        filler: [0],
    }
}

#[test]
fn saved_game_layout() {
    let g = SavedGame { items: [1, 2, 0, 3, -2, 300], score: 0x01020304, level: 7, player: player() };
    let b = g.serialize();
    assert_eq!(b.len(), SAVED_GAME_SIZE);
    assert_eq!(
        b,
        vec![
            1, 0, 2, 0, 0, 0, 3, 0, 0xfe, 0xff, 0x2c, 0x01, // items
            4, 3, 2, 1, // score
            7, 0, // level
            1, 1, 0, 13, 40, 2, 0, 1, 0, 13, 12, 40, 0xff, 0xff, 0, // player
        ]
    );
}

#[test]
fn saved_game_reads_back() {
    let g = SavedGame { items: [5, 0, 1, 2, 3, 4], score: -123456, level: 29, player: player() };
    let b = g.serialize();
    let h = SavedGame::deserialize(&b);
    assert_eq!(h.items, g.items);
    assert_eq!(h.score, g.score);
    assert_eq!(h.level, g.level);
    assert_eq!(h.player.active, true);
    assert_eq!(h.player.class, 1);
    assert_eq!((h.player.x, h.player.y, h.player.stage, h.player.delay), (13, 40, 2, 0));
    assert_eq!(h.player.dir, 1);
    assert_eq!(h.player.hp, 13);
    assert_eq!((h.player.oldx, h.player.oldy, h.player.oldtile), (12, 40, -1));
    assert_eq!(h.player.filler, [0]);
}

#[test]
fn any_nonzero_byte_is_active() {
    let mut b = SavedGame { items: [0; 6], score: 0, level: 1, player: player() }.serialize();
    b[18] = 7;
    assert!(SavedGame::deserialize(&b).player.active);
    b[18] = 0;
    assert!(!SavedGame::deserialize(&b).player.active);
    let mut o = player();
    o.active = false;
    let mut w = Vec::new();
    o.serialize(&mut w);
    assert_eq!(w[0], 0);
    assert!(!activeobj::deserialize(&w, 0).active);
}

#[test]
fn save_slots_are_digits_one_to_nine() {
    assert_eq!(game_slot(b'1'), Some(1));
    assert_eq!(game_slot(b'9'), Some(9));
    assert_eq!(game_slot(b'0'), None);
    assert_eq!(game_slot(b'a'), None);
    assert_eq!(game_slot(27), None);
}
