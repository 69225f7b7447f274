use vstd::prelude::*;

use crate::catacomb_ii::le_bytes::{le16, le32, push_u16_le, push_u32_le, read_i16_le, read_i32_le};

verus! {

/// A high score entry. On disk it takes `ondisk_struct_size()` bytes: the
/// score (4 bytes, little-endian), the level (2 bytes, little-endian) and the
/// three initials followed by a padding byte.
#[derive(Clone, Copy, Debug)]
pub struct scores {
    pub score: i32,
    pub level: i16,
    pub initials: [u8; 3],
}

/// Reads the initials field: four bytes on disk, of which the first three
/// are the initials.
pub fn deserialize_initials(r: &[u8]) -> (res: [u8; 3])
    requires
        r.len() >= 4,
    ensures
        res@ == r@.subrange(0, 3),
{
    let res = [r[0], r[1], r[2]];
    assert(res@ =~= r@.subrange(0, 3));
    res
}

/// Writes the initials field: the three initials and a zero padding byte.
pub fn serialize_initials(instance: &[u8; 3], w: &mut Vec<u8>)
    ensures
        final(w)@ == old(w)@ + instance@ + seq![0u8],
{
    w.push(instance[0]);
    w.push(instance[1]);
    w.push(instance[2]);
    w.push(0);
    assert(final(w)@ =~= old(w)@ + instance@ + seq![0u8]);
}

impl scores {
    /// The number of bytes of one entry on disk.
    pub fn ondisk_struct_size() -> (r: usize)
        ensures
            r == 10,
    {
        10
    }

    /// The on-disk bytes of the entry.
    pub open spec fn encoded(self) -> Seq<u8> {
        let s = self.score as u32;
        let l = self.level as u16;
        seq![
            (s % 256) as u8,
            (s / 256 % 256) as u8,
            (s / 65536 % 256) as u8,
            (s / 16777216) as u8,
            (l % 256) as u8,
            (l / 256) as u8,
            self.initials[0],
            self.initials[1],
            self.initials[2],
            0u8,
        ]
    }

    /// Writes the entry in its on-disk form.
    pub fn serialize(&self, w: &mut Vec<u8>)
        ensures
            final(w)@ == old(w)@ + self.encoded(),
    {
        let ghost start: int = w@.len() as int;
        push_u32_le(w, self.score as u32);
        push_u16_le(w, self.level as u16);
        serialize_initials(&self.initials, w);
        let ghost s = self.score as u32;
        let ghost l = self.level as u16;
        let ghost b = w@;
        assert(le32(b[start], b[start + 1], b[start + 2], b[start + 3]) == s);
        assert(b[start] == (s % 256) as u8 && b[start + 1] == (s / 256 % 256) as u8 && b[start
            + 2] == (s / 65536 % 256) as u8 && b[start + 3] == (s / 16777216) as u8);
        assert(b[start + 4] == (l % 256) as u8 && b[start + 5] == (l / 256) as u8);
        assert(w@ =~= old(w)@ + self.encoded());
    }

    /// Reads an entry from its on-disk form.
    pub fn deserialize(r: &[u8]) -> (res: scores)
        requires
            r.len() >= 10,
        ensures
            res.score as u32 == le32(r[0], r[1], r[2], r[3]),
            res.level as u16 == le16(r[4], r[5]),
            res.initials@ == r@.subrange(6, 9),
    {
        let score = read_i32_le(r, 0);
        let level = read_i16_le(r, 4);
        let initials = [r[6], r[7], r[8]];
        assert(initials@ =~= r@.subrange(6, 9));
        scores { score, level, initials }
    }
}

/// Reading back the on-disk form of an entry gives the same entry.
pub proof fn lemma_scores_roundtrip(s: scores)
    ensures
        ({
            let b = s.encoded();
            &&& le32(b[0], b[1], b[2], b[3]) == s.score as u32
            &&& le16(b[4], b[5]) == s.level as u16
            &&& b.subrange(6, 9) == s.initials@
        }),
{
    let b = s.encoded();
    assert(b.subrange(6, 9) =~= s.initials@);
}

} // verus!
