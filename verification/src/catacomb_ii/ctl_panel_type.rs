use vstd::prelude::*;

use crate::catacomb_ii::gr_type::grtype;
use crate::catacomb_ii::le_bytes::{le16, le16_bytes, push_u16_le, read_i16_le, read_u16_le};
use crate::catacomb_ii::sound_type::soundtype;

verus! {

/// The control panel settings as saved on disk: modes, joystick
/// calibration, mouse sensitivity and the keys (as DOS scan codes). On disk
/// it takes `CTLPANEL_SIZE` bytes: each field in order, 16-bit numbers
/// little-endian, the modes by their numbers.
#[derive(Clone, Copy, Debug)]
pub struct ctlpaneltype {
    pub grmode: grtype,
    pub soundmode: soundtype,
    pub playermode: [u16; 3],
    pub JoyXlow: [i16; 3],
    pub JoyYlow: [i16; 3],
    pub JoyXhigh: [i16; 3],
    pub JoyYhigh: [i16; 3],
    pub MouseSensitivity: i16,
    pub key: [u8; 8],
    pub keyB1: u8,
    pub keyB2: u8,
}

impl ctlpaneltype {
    /// All settings zero: text mode, sound off.
    pub fn default() -> (r: ctlpaneltype)
        ensures
            r.grmode == grtype::text,
            r.soundmode == soundtype::off,
            forall|i: int|
                0 <= i < 3 ==> r.playermode[i] == 0 && r.JoyXlow[i] == 0 && r.JoyYlow[i] == 0
                    && r.JoyXhigh[i] == 0 && r.JoyYhigh[i] == 0,
            r.MouseSensitivity == 0,
            forall|i: int| 0 <= i < 8 ==> r.key[i] == 0,
            r.keyB1 == 0,
            r.keyB2 == 0,
    {
        ctlpaneltype {
            grmode: grtype::text,
            soundmode: soundtype::off,
            playermode: [0; 3],
            JoyXlow: [0; 3],
            JoyYlow: [0; 3],
            JoyXhigh: [0; 3],
            JoyYhigh: [0; 3],
            MouseSensitivity: 0,
            key: [0; 8],
            keyB1: 0,
            keyB2: 0,
        }
    }
}

/// The number of bytes of the control panel settings on disk.
pub const CTLPANEL_SIZE: usize = 46;

/// The number of 16-bit fields at the start of the on-disk form.
pub const CTLPANEL_WORDS: usize = 18;

/// The little-endian bytes of a sequence of 16-bit numbers.
pub open spec fn words_bytes(ws: Seq<u16>) -> Seq<u8> {
    Seq::new(2 * ws.len(), |i: int| le16_bytes(ws[i / 2])[i % 2])
}

/// Whether bytes hold a control panel: long enough, with known graphics
/// and sound modes.
pub open spec fn ctlpanel_readable(bytes: Seq<u8>) -> bool {
    &&& bytes.len() >= CTLPANEL_SIZE
    &&& le16(bytes[0], bytes[1]) <= 3
    &&& le16(bytes[2], bytes[3]) <= 2
}

/// A 16-bit number read from two bytes gives them back.
pub proof fn lemma_le16_bytes(b0: u8, b1: u8)
    ensures
        le16_bytes(le16(b0, b1) as u16) == seq![b0, b1],
{
    let v = le16(b0, b1);
    assert(v % 256 == b0 && v / 256 == b1) by (nonlinear_arith)
        requires
            v == b0 + 256 * b1,
            0 <= b0 < 256,
            0 <= b1 < 256,
    ;
    assert(le16_bytes(v as u16) =~= seq![b0, b1]);
}

/// The bytes of a 16-bit number read back as that number.
pub proof fn lemma_le16_value(v: u16)
    ensures
        le16(le16_bytes(v)[0], le16_bytes(v)[1]) == v,
{
    assert(v == (v % 256) + 256 * (v / 256)) by (nonlinear_arith);
}

impl ctlpaneltype {
    /// The 16-bit fields, in their on-disk order.
    pub open spec fn words(self) -> Seq<u16> {
        seq![
            self.grmode.value(),
            self.soundmode.value(),
            self.playermode[0],
            self.playermode[1],
            self.playermode[2],
            self.JoyXlow[0] as u16,
            self.JoyXlow[1] as u16,
            self.JoyXlow[2] as u16,
            self.JoyYlow[0] as u16,
            self.JoyYlow[1] as u16,
            self.JoyYlow[2] as u16,
            self.JoyXhigh[0] as u16,
            self.JoyXhigh[1] as u16,
            self.JoyXhigh[2] as u16,
            self.JoyYhigh[0] as u16,
            self.JoyYhigh[1] as u16,
            self.JoyYhigh[2] as u16,
            self.MouseSensitivity as u16,
        ]
    }

    /// The on-disk bytes of the settings.
    pub open spec fn encoded(self) -> Seq<u8> {
        words_bytes(self.words()) + self.key@ + seq![self.keyB1, self.keyB2]
    }

    /// Writes the settings in their on-disk form.
    pub fn serialize(&self, w: &mut Vec<u8>)
        ensures
            final(w)@ == old(w)@ + self.encoded(),
    {
        let words: [u16; 18] = [
            self.grmode.to_u16(),
            self.soundmode.to_u16(),
            self.playermode[0],
            self.playermode[1],
            self.playermode[2],
            self.JoyXlow[0] as u16,
            self.JoyXlow[1] as u16,
            self.JoyXlow[2] as u16,
            self.JoyYlow[0] as u16,
            self.JoyYlow[1] as u16,
            self.JoyYlow[2] as u16,
            self.JoyXhigh[0] as u16,
            self.JoyXhigh[1] as u16,
            self.JoyXhigh[2] as u16,
            self.JoyYhigh[0] as u16,
            self.JoyYhigh[1] as u16,
            self.JoyYhigh[2] as u16,
            self.MouseSensitivity as u16,
        ];
        assert(words@ =~= self.words());
        let mut i: usize = 0;
        while i < CTLPANEL_WORDS
            invariant
                i <= CTLPANEL_WORDS,
                words@ == self.words(),
                w@ == old(w)@ + words_bytes(words@.take(i as int)),
            decreases CTLPANEL_WORDS - i,
        {
            push_u16_le(w, words[i]);
            assert(words_bytes(words@.take(i as int + 1)) =~= words_bytes(words@.take(i as int))
                + le16_bytes(words[i as int]));
            i += 1;
        }
        assert(words@.take(18) =~= words@);
        let mut k: usize = 0;
        let ghost before_keys = w@;
        while k < 8
            invariant
                k <= 8,
                w@ == before_keys + self.key@.take(k as int),
            decreases 8 - k,
        {
            w.push(self.key[k]);
            assert(w@ =~= before_keys + self.key@.take(k as int + 1));
            k += 1;
        }
        w.push(self.keyB1);
        w.push(self.keyB2);
        assert(self.key@.take(8) =~= self.key@);
        assert(w@ =~= old(w)@ + self.encoded());
    }

    /// Reads settings from their on-disk form: `None` when the bytes are too
    /// few or name an unknown graphics or sound mode (see
    /// `ctlpanel_readable`), else the settings whose form the bytes begin
    /// with.
    pub fn deserialize(bytes: &[u8]) -> (r: Option<ctlpaneltype>)
        ensures
            r is Some <==> ctlpanel_readable(bytes@),
            r matches Some(c) ==> c.encoded() == bytes@.subrange(0, CTLPANEL_SIZE as int),
    {
        if bytes.len() < CTLPANEL_SIZE {
            return None;
        }
        let gr = read_u16_le(bytes, 0);
        let snd = read_u16_le(bytes, 2);
        if gr > 3 || snd > 2 {
            return None;
        }
        let c = ctlpaneltype {
            grmode: grtype::from_u16(gr),
            soundmode: soundtype::from_u16(snd),
            playermode: [read_u16_le(bytes, 4), read_u16_le(bytes, 6), read_u16_le(bytes, 8)],
            JoyXlow: [read_i16_le(bytes, 10), read_i16_le(bytes, 12), read_i16_le(bytes, 14)],
            JoyYlow: [read_i16_le(bytes, 16), read_i16_le(bytes, 18), read_i16_le(bytes, 20)],
            JoyXhigh: [read_i16_le(bytes, 22), read_i16_le(bytes, 24), read_i16_le(bytes, 26)],
            JoyYhigh: [read_i16_le(bytes, 28), read_i16_le(bytes, 30), read_i16_le(bytes, 32)],
            MouseSensitivity: read_i16_le(bytes, 34),
            key: [
                bytes[36],
                bytes[37],
                bytes[38],
                bytes[39],
                bytes[40],
                bytes[41],
                bytes[42],
                bytes[43],
            ],
            keyB1: bytes[44],
            keyB2: bytes[45],
        };
        proof {
            let b = bytes@;
            let ws = c.words();
            assert forall|k: int| 0 <= k < 18 implies #[trigger] ws[k] == le16(
                b[2 * k],
                b[2 * k + 1],
            ) by {}
            assert forall|i: int| 0 <= i < 36 implies #[trigger] words_bytes(ws)[i] == b[i] by {
                let k = i / 2;
                lemma_le16_bytes(b[2 * k], b[2 * k + 1]);
            }
            assert(c.encoded() =~= b.subrange(0, CTLPANEL_SIZE as int));
        }
        Some(c)
    }
}

/// Reading back the on-disk form of settings gives the same settings: the
/// form can be read, and no other settings have the same form.
pub proof fn lemma_ctlpanel_roundtrip(c: ctlpaneltype, d: ctlpaneltype)
    ensures
        c.encoded().len() == CTLPANEL_SIZE,
        ctlpanel_readable(c.encoded()),
        c.encoded() == d.encoded() ==> c == d,
{
    let e = c.encoded();
    let f = d.encoded();
    lemma_le16_value(c.grmode.value());
    lemma_le16_value(c.soundmode.value());
    assert(e[0] == words_bytes(c.words())[0] && e[1] == words_bytes(c.words())[1]);
    assert(e[2] == words_bytes(c.words())[2] && e[3] == words_bytes(c.words())[3]);
    if e == f {
        let wc = c.words();
        let wd = d.words();
        assert forall|k: int| 0 <= k < 18 implies #[trigger] wc[k] == wd[k] by {
            assert(e[2 * k] == f[2 * k] && e[2 * k + 1] == f[2 * k + 1]);
            lemma_le16_value(wc[k]);
            lemma_le16_value(wd[k]);
        }
        assert(wc[0] == wd[0] && wc[1] == wd[1] && wc[2] == wd[2] && wc[3] == wd[3] && wc[4]
            == wd[4] && wc[5] == wd[5] && wc[6] == wd[6] && wc[7] == wd[7] && wc[8] == wd[8]
            && wc[9] == wd[9] && wc[10] == wd[10] && wc[11] == wd[11] && wc[12] == wd[12] && wc[13]
            == wd[13] && wc[14] == wd[14] && wc[15] == wd[15] && wc[16] == wd[16] && wc[17]
            == wd[17]);
        assert(c.grmode == d.grmode) by {
            assert(c.grmode.value() == d.grmode.value());
        }
        assert(c.soundmode == d.soundmode) by {
            assert(c.soundmode.value() == d.soundmode.value());
        }
        lemma_i16_bits(c.JoyXlow[0], d.JoyXlow[0]);
        lemma_i16_bits(c.JoyXlow[1], d.JoyXlow[1]);
        lemma_i16_bits(c.JoyXlow[2], d.JoyXlow[2]);
        lemma_i16_bits(c.JoyYlow[0], d.JoyYlow[0]);
        lemma_i16_bits(c.JoyYlow[1], d.JoyYlow[1]);
        lemma_i16_bits(c.JoyYlow[2], d.JoyYlow[2]);
        lemma_i16_bits(c.JoyXhigh[0], d.JoyXhigh[0]);
        lemma_i16_bits(c.JoyXhigh[1], d.JoyXhigh[1]);
        lemma_i16_bits(c.JoyXhigh[2], d.JoyXhigh[2]);
        lemma_i16_bits(c.JoyYhigh[0], d.JoyYhigh[0]);
        lemma_i16_bits(c.JoyYhigh[1], d.JoyYhigh[1]);
        lemma_i16_bits(c.JoyYhigh[2], d.JoyYhigh[2]);
        lemma_i16_bits(c.MouseSensitivity, d.MouseSensitivity);
        assert forall|k: int| 0 <= k < 8 implies c.key@[k] == d.key@[k] by {
            assert(e[36 + k] == f[36 + k]);
        }
        assert(e[44] == f[44] && e[45] == f[45]);
        assert(c.key =~= d.key);
        assert(c.playermode =~= d.playermode);
        assert(c.JoyXlow =~= d.JoyXlow);
        assert(c.JoyYlow =~= d.JoyYlow);
        assert(c.JoyXhigh =~= d.JoyXhigh);
        assert(c.JoyYhigh =~= d.JoyYhigh);
    }
}

/// Signed 16-bit numbers with the same bits are equal.
proof fn lemma_i16_bits(a: i16, b: i16)
    ensures
        a as u16 == b as u16 ==> a == b,
{
    assert(a as u16 == b as u16 ==> a == b) by (bit_vector);
}

} // verus!
