use classic_games::catacomb_ii::catacomb::clearold;
use classic_games::catacomb_ii::pcrlib_c::{
    default_highscores, insert_highscore, load_highscores, serialize_highscores, strlen,
};
use classic_games::catacomb_ii::pcrlib_c_state::PcrlibCState;
use classic_games::catacomb_ii::pic_file_type::farptr;
use classic_games::catacomb_ii::rleasm::RLEExpand;
use classic_games::catacomb_ii::scores::{deserialize_initials, serialize_initials, scores};

#[test]
fn score_entry_on_disk() {
    let s = scores { score: 0x0102_0304, level: -2, initials: *b"ABC" };
    let mut bytes = Vec::new();
    s.serialize(&mut bytes);
    assert_eq!(bytes, vec![4, 3, 2, 1, 0xfe, 0xff, b'A', b'B', b'C', 0]);
    assert_eq!(scores::ondisk_struct_size(), 10);
    let back = scores::deserialize(&bytes);
    assert_eq!((back.score, back.level, back.initials), (s.score, s.level, s.initials));
}

#[test]
fn initials_field() {
    assert_eq!(deserialize_initials(&[b'X', b'Y', b'Z', 7]), *b"XYZ");
    let mut w = vec![9];
    serialize_initials(b"PCR", &mut w);
    assert_eq!(w, vec![9, b'P', b'C', b'R', 0]);
}

#[test]
fn high_score_table_defaults_without_a_file() {
    let mut pcs = PcrlibCState::new();
    load_highscores(&[0u8; 50], 0, &mut pcs);
    for h in pcs.highscores.iter() {
        assert_eq!((h.score, h.level, h.initials), (100, 1, *b"PCR"));
    }
    let d = default_highscores();
    assert_eq!(d[4].score, 100);
}

#[test]
fn high_score_table_round_trip() {
    let mut pcs = PcrlibCState::new();
    let mut table = default_highscores();
    table[0] = scores { score: 5000, level: 7, initials: *b"JDR" };
    let bytes = serialize_highscores(&table);
    assert_eq!(bytes.len(), 50);
    load_highscores(&bytes, 50, &mut pcs);
    assert_eq!((pcs.highscores[0].score, pcs.highscores[0].level), (5000, 7));
    assert_eq!(pcs.highscores[0].initials, *b"JDR");
    assert_eq!(pcs.highscores[1].score, 100);
}

#[test]
fn new_high_score_inserted_in_order() {
    let mut pcs = PcrlibCState::new();
    pcs.highscores = default_highscores();
    pcs.highscores[0].score = 900;
    pcs.highscores[1].score = 500;
    pcs.highscores[2].score = 300;
    pcs.score = 400;
    pcs.level = 4;
    assert_eq!(insert_highscore(&mut pcs), 2);
    let scores: Vec<i32> = pcs.highscores.iter().map(|h| h.score).collect();
    assert_eq!(scores, vec![900, 500, 400, 300, 100]);
    assert_eq!((pcs.highscores[2].level, pcs.highscores[2].initials), (4, *b"   "));
    pcs.score = 50;
    assert_eq!(insert_highscore(&mut pcs), 5);
    assert_eq!(pcs.highscores[4].score, 100);
}

#[test]
fn run_length_expansion() {
    let source = [0x81, 7, 8, 2, 9, 0x80, 1, 0xee];
    let mut dest = vec![0xaa];
    RLEExpand(&source, 7, &mut dest);
    assert_eq!(dest, vec![0xaa, 7, 8, 9, 9, 9, 9, 9, 1]);
}

#[test]
fn string_length_to_the_first_zero() {
    assert_eq!(strlen(b"abc\0def\0"), 3);
    assert_eq!(strlen(b"\0"), 0);
}

#[test]
fn segment_offset_pointers() {
    assert_eq!(farptr { ofs: 0x10, seg: 0x1000 }.flatptr(), 0x10010);
    assert_eq!(farptr { ofs: 0xffff, seg: 0xffff }.flatptr(), 0x10ffef);
}

#[test]
fn clearing_the_remembered_tiles() {
    let mut tiles = [7i32; 576];
    clearold(&mut tiles);
    assert!(tiles.iter().all(|t| *t == -1));
}

#[test]
fn decoding_splits_at_a_run_boundary() {
    // A literal run of 2, a repeat of 4 and a literal run of 1.
    let src = [0x81u8, 7, 8, 1, 9, 0x80, 6];
    let mut whole = Vec::new();
    RLEExpand(&src, 7, &mut whole);
    assert_eq!(whole, vec![7, 8, 9, 9, 9, 9, 6]);
    let mut parts = Vec::new();
    RLEExpand(&src, 3, &mut parts);
    RLEExpand(&src[3..], 4, &mut parts);
    assert_eq!(parts, whole);
}
