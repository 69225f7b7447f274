//! Saved games: the state kept at the start of a level (items, score,
//! level and the player's record), its on-disk form, and the slot a key
//! names.
use vstd::prelude::*;

use crate::catacomb_ii::active_obj::activeobj;
use crate::catacomb_ii::le_bytes::{le16, le16_bytes, le32, le32_bytes, push_u16_le, push_u32_le, read_i16_le, read_i32_le, read_u16_le};

verus! {

/// The number of bytes of an object record on disk.
pub const ACTIVEOBJ_SIZE: usize = 15;

/// The number of bytes of a saved game on disk.
pub const SAVED_GAME_SIZE: usize = 33;

/// The 16-bit number two little-endian bytes at `at` hold.
pub open spec fn u16_at(b: Seq<u8>, at: int) -> u16 {
    le16(b[at], b[at + 1]) as u16
}

/// The signed 16-bit number two little-endian bytes at `at` hold.
pub open spec fn i16_at(b: Seq<u8>, at: int) -> i16 {
    u16_at(b, at) as i16
}

/// The signed 32-bit number four little-endian bytes at `at` hold.
pub open spec fn i32_at(b: Seq<u8>, at: int) -> i32 {
    (le32(b[at], b[at + 1], b[at + 2], b[at + 3]) as u32) as i32
}

/// The little-endian bytes of a signed 16-bit number.
pub open spec fn i16_bytes(v: i16) -> Seq<u8> {
    le16_bytes(v as u16)
}

/// The little-endian bytes of a signed 32-bit number.
pub open spec fn i32_bytes(v: i32) -> Seq<u8> {
    le32_bytes(v as u32)
}

impl activeobj {
    /// The on-disk bytes of the record: each field in order, `active` as 1
    /// or 0, 16-bit numbers little-endian.
    pub open spec fn encoded(self) -> Seq<u8> {
        seq![if self.active { 1u8 } else { 0u8 }] + le16_bytes(self.class) + seq![
            self.x,
            self.y,
            self.stage,
            self.delay,
        ] + le16_bytes(self.dir) + seq![self.hp as u8, self.oldx, self.oldy] + i16_bytes(
            self.oldtile,
        ) + seq![self.filler[0]]
    }

    /// The record `ACTIVEOBJ_SIZE` bytes at `at` hold; any byte but 0 is
    /// active.
    pub open spec fn decoded(b: Seq<u8>, at: int) -> activeobj {
        activeobj {
            active: b[at] != 0,
            class: u16_at(b, at + 1),
            x: b[at + 3],
            y: b[at + 4],
            stage: b[at + 5],
            delay: b[at + 6],
            dir: u16_at(b, at + 7),
            hp: b[at + 9] as i8,
            oldx: b[at + 10],
            oldy: b[at + 11],
            oldtile: i16_at(b, at + 12),
            filler: [b[at + 14]],
        }
    }

    /// Writes the record in its on-disk form.
    pub fn serialize(&self, w: &mut Vec<u8>)
        ensures
            final(w)@ == old(w)@ + self.encoded(),
    {
        w.push(if self.active { 1u8 } else { 0u8 });
        push_u16_le(w, self.class);
        w.push(self.x);
        w.push(self.y);
        w.push(self.stage);
        w.push(self.delay);
        push_u16_le(w, self.dir);
        w.push(self.hp as u8);
        w.push(self.oldx);
        w.push(self.oldy);
        push_u16_le(w, self.oldtile as u16);
        w.push(self.filler[0]);
        assert(w@ =~= old(w)@ + self.encoded());
    }

    /// Reads a record from its on-disk form at `at`.
    pub fn deserialize(r: &[u8], at: usize) -> (res: activeobj)
        requires
            at + ACTIVEOBJ_SIZE <= r.len(),
        ensures
            res == activeobj::decoded(r@, at as int),
    {
        let res = activeobj {
            active: r[at] != 0,
            class: read_u16_le(r, at + 1),
            x: r[at + 3],
            y: r[at + 4],
            stage: r[at + 5],
            delay: r[at + 6],
            dir: read_u16_le(r, at + 7),
            hp: r[at + 9] as i8,
            oldx: r[at + 10],
            oldy: r[at + 11],
            oldtile: read_i16_le(r, at + 12),
            filler: [r[at + 14]],
        };
        assert(res.oldtile == i16_at(r@, at + 12)) by {
            let u = le16(r@[at + 12], r@[at + 13]) as u16;
            let t = res.oldtile;
            assert(t as u16 == u);
            assert(t == u as i16) by (bit_vector)
                requires
                    t as u16 == u,
            ;
        }
        assert(res.filler =~= activeobj::decoded(r@, at as int).filler);
        res
    }
}

/// The bytes of a 16-bit number read back give the number.
pub proof fn lemma_u16_roundtrip(v: u16)
    ensures
        u16_at(le16_bytes(v), 0) == v,
{
    assert((v % 256) as u8 + 256 * ((v / 256) as u8) == v) by (nonlinear_arith);
}

/// The bytes of a signed 16-bit number read back give the number.
pub proof fn lemma_i16_roundtrip(v: i16)
    ensures
        i16_at(i16_bytes(v), 0) == v,
{
    lemma_u16_roundtrip(v as u16);
    let u = v as u16;
    assert(u as i16 == v) by (bit_vector)
        requires
            u == v as u16,
    ;
}

/// The bytes of a signed 32-bit number read back give the number.
pub proof fn lemma_i32_roundtrip(v: i32)
    ensures
        i32_at(i32_bytes(v), 0) == v,
{
    let s = v as u32;
    assert((s % 256) as u8 + 256 * ((s / 256 % 256) as u8) + 65536 * ((s / 65536 % 256) as u8)
        + 16777216 * ((s / 16777216) as u8) == s) by (nonlinear_arith);
    assert(s as i32 == v) by (bit_vector)
        requires
            s == v as u32,
    ;
}

/// Reading back the on-disk form of an object record gives the record.
pub proof fn lemma_activeobj_roundtrip(o: activeobj)
    ensures
        activeobj::decoded(o.encoded(), 0) == o,
{
    let b = o.encoded();
    lemma_u16_roundtrip(o.class);
    lemma_u16_roundtrip(o.dir);
    lemma_i16_roundtrip(o.oldtile);
    assert(b.subrange(1, 3) =~= le16_bytes(o.class));
    assert(b.subrange(7, 9) =~= le16_bytes(o.dir));
    assert(b.subrange(12, 14) =~= i16_bytes(o.oldtile));
    let hp = o.hp;
    assert((hp as u8) as i8 == hp) by (bit_vector);
    let d = activeobj::decoded(b, 0);
    assert(d.filler =~= o.filler);
}

/// What a saved game holds: the items, score and player record as they were
/// when the level began, and the level.
#[derive(Clone, Copy, Debug)]
pub struct SavedGame {
    pub items: [i16; 6],
    pub score: i32,
    pub level: i16,
    pub player: activeobj,
}

/// The little-endian bytes of the six item counts, in order.
pub open spec fn items_bytes(items: [i16; 6]) -> Seq<u8> {
    i16_bytes(items[0]) + i16_bytes(items[1]) + i16_bytes(items[2]) + i16_bytes(items[3])
        + i16_bytes(items[4]) + i16_bytes(items[5])
}

impl SavedGame {
    /// The on-disk bytes of the saved game: the six item counts, the score,
    /// the level and the player's record, in that order.
    pub open spec fn encoded(self) -> Seq<u8> {
        items_bytes(self.items) + i32_bytes(self.score) + i16_bytes(self.level)
            + self.player.encoded()
    }

    /// The saved game `SAVED_GAME_SIZE` bytes hold.
    pub open spec fn decoded(b: Seq<u8>) -> SavedGame {
        SavedGame {
            items: [
                i16_at(b, 0),
                i16_at(b, 2),
                i16_at(b, 4),
                i16_at(b, 6),
                i16_at(b, 8),
                i16_at(b, 10),
            ],
            score: i32_at(b, 12),
            level: i16_at(b, 16),
            player: activeobj::decoded(b, 18),
        }
    }

    /// The saved game's on-disk form.
    pub fn serialize(&self) -> (w: Vec<u8>)
        ensures
            w@ == self.encoded(),
    {
        let mut w: Vec<u8> = Vec::new();
        push_u16_le(&mut w, self.items[0] as u16);
        assert(w@ =~= i16_bytes(self.items[0]));
        push_u16_le(&mut w, self.items[1] as u16);
        push_u16_le(&mut w, self.items[2] as u16);
        push_u16_le(&mut w, self.items[3] as u16);
        push_u16_le(&mut w, self.items[4] as u16);
        push_u16_le(&mut w, self.items[5] as u16);
        assert(w@ == items_bytes(self.items));
        push_u32_le(&mut w, self.score as u32);
        assert(w@ == items_bytes(self.items) + i32_bytes(self.score));
        push_u16_le(&mut w, self.level as u16);
        assert(w@ == items_bytes(self.items) + i32_bytes(self.score) + i16_bytes(self.level));
        self.player.serialize(&mut w);
        w
    }

    /// Reads a saved game from its on-disk form.
    pub fn deserialize(r: &[u8]) -> (res: SavedGame)
        requires
            SAVED_GAME_SIZE <= r.len(),
        ensures
            res == SavedGame::decoded(r@),
    {
        let mut items: [i16; 6] = [0; 6];
        let mut i: usize = 0;
        while i < 6
            invariant
                0 <= i <= 6,
                SAVED_GAME_SIZE <= r.len(),
                forall|j: int| 0 <= j < i ==> items[j] == i16_at(r@, 2 * j),
            decreases 6 - i,
        {
            let v = read_i16_le(r, 2 * i);
            let ghost u = le16(r@[2 * i as int], r@[2 * i + 1]) as u16;
            assert(v == u as i16) by (bit_vector)
                requires
                    v as u16 == u,
            ;
            items[i] = v;
            i = i + 1;
        }
        let score = read_i32_le(r, 12);
        let ghost su = le32(r@[12], r@[13], r@[14], r@[15]) as u32;
        assert(score == su as i32) by (bit_vector)
            requires
                score as u32 == su,
        ;
        let level = read_i16_le(r, 16);
        let ghost lu = le16(r@[16], r@[17]) as u16;
        assert(level == lu as i16) by (bit_vector)
            requires
                level as u16 == lu,
        ;
        let player = activeobj::deserialize(r, 18);
        let res = SavedGame { items, score, level, player };
        assert(res.items =~= SavedGame::decoded(r@).items);
        res
    }
}

/// The item counts read back from their bytes.
proof fn lemma_items_roundtrip(items: [i16; 6], b: Seq<u8>)
    requires
        b.len() >= 12,
        b.subrange(0, 12) == items_bytes(items),
    ensures
        forall|j: int| 0 <= j < 6 ==> #[trigger] i16_at(b, 2 * j) == items[j],
{
    assert forall|j: int| 0 <= j < 6 implies #[trigger] i16_at(b, 2 * j) == items[j] by {
        lemma_i16_roundtrip(items[j]);
        let e = items_bytes(items);
        assert(e.subrange(2 * j, 2 * j + 2) =~= i16_bytes(items[j]));
        assert(b[2 * j] == e[2 * j] && b[2 * j + 1] == e[2 * j + 1]);
    }
}

/// Loading a saved game gives back what was saved.
pub proof fn lemma_saved_game_roundtrip(g: SavedGame)
    ensures
        g.encoded().len() == SAVED_GAME_SIZE,
        SavedGame::decoded(g.encoded()) == g,
{
    let b = g.encoded();
    let ib = items_bytes(g.items);
    assert(ib.len() == 12);
    assert(b.subrange(0, 12) =~= ib);
    lemma_items_roundtrip(g.items, b);
    lemma_i32_roundtrip(g.score);
    assert(b.subrange(12, 16) =~= i32_bytes(g.score));
    lemma_i16_roundtrip(g.level);
    assert(b.subrange(16, 18) =~= i16_bytes(g.level));
    lemma_activeobj_roundtrip(g.player);
    let pe = g.player.encoded();
    assert(b.subrange(18, 33) =~= pe);
    assert(activeobj::decoded(b, 18) == activeobj::decoded(pe, 0)) by {
        assert(activeobj::decoded(b, 18).filler =~= activeobj::decoded(pe, 0).filler);
    }
    let d = SavedGame::decoded(b);
    assert(i16_at(b, 2 * 0int) == g.items[0]);
    assert(i16_at(b, 2 * 1int) == g.items[1]);
    assert(i16_at(b, 2 * 2int) == g.items[2]);
    assert(i16_at(b, 2 * 3int) == g.items[3]);
    assert(i16_at(b, 2 * 4int) == g.items[4]);
    assert(i16_at(b, 2 * 5int) == g.items[5]);
    assert(d.items =~= g.items);
}

/// The save slot a key names: the digits 1 to 9; other keys name none.
pub fn game_slot(ch: u8) -> (r: Option<u8>)
    ensures
        r == if 49 <= ch <= 57 {
            Some((ch - 48) as u8)
        } else {
            None::<u8>
        },
{
    if ch >= 49 && ch <= 57 {
        Some(ch - 48)
    } else {
        None
    }
}

} // verus!
