use vstd::prelude::*;

verus! {

/// The value of two little-endian bytes.
pub open spec fn le16(b0: u8, b1: u8) -> int {
    b0 + 256 * b1
}

/// The value of four little-endian bytes.
pub open spec fn le32(b0: u8, b1: u8, b2: u8, b3: u8) -> int {
    b0 + 256 * b1 + 65536 * b2 + 16777216 * b3
}

/// The little-endian bytes of a 16-bit number.
pub open spec fn le16_bytes(v: u16) -> Seq<u8> {
    seq![(v % 256) as u8, (v / 256) as u8]
}

/// The little-endian bytes of a 32-bit number.
pub open spec fn le32_bytes(v: u32) -> Seq<u8> {
    seq![(v % 256) as u8, (v / 256 % 256) as u8, (v / 65536 % 256) as u8, (v / 16777216) as u8]
}

/// Reads a little-endian `u16` at `at`.
pub fn read_u16_le(bytes: &[u8], at: usize) -> (r: u16)
    requires
        at + 2 <= bytes.len(),
    ensures
        r == le16(bytes[at as int], bytes[at + 1]),
{
    let b0 = bytes[at] as u16;
    let b1 = bytes[at + 1] as u16;
    assert(b0 | (b1 << 8) == b0 + 256 * b1) by (bit_vector)
        requires
            b0 < 256,
            b1 < 256,
    ;
    b0 | (b1 << 8)
}

/// Reads a little-endian `i16` at `at`.
pub fn read_i16_le(bytes: &[u8], at: usize) -> (r: i16)
    requires
        at + 2 <= bytes.len(),
    ensures
        r as u16 == le16(bytes[at as int], bytes[at + 1]),
{
    let u = read_u16_le(bytes, at);
    let r = #[verifier::truncate] (u as i16);
    assert(r as u16 == u) by (bit_vector)
        requires
            r == u as i16,
    ;
    r
}

/// Reads a little-endian `u32` at `at`.
pub fn read_u32_le(bytes: &[u8], at: usize) -> (r: u32)
    requires
        at + 4 <= bytes.len(),
    ensures
        r == le32(bytes[at as int], bytes[at + 1], bytes[at + 2], bytes[at + 3]),
{
    let b0 = bytes[at] as u32;
    let b1 = bytes[at + 1] as u32;
    let b2 = bytes[at + 2] as u32;
    let b3 = bytes[at + 3] as u32;
    assert(b0 | (b1 << 8) | (b2 << 16) | (b3 << 24) == b0 + 256 * b1 + 65536 * b2 + 16777216
        * b3) by (bit_vector)
        requires
            b0 < 256,
            b1 < 256,
            b2 < 256,
            b3 < 256,
    ;
    b0 | (b1 << 8) | (b2 << 16) | (b3 << 24)
}

/// Reads a little-endian `i32` at `at`.
pub fn read_i32_le(bytes: &[u8], at: usize) -> (r: i32)
    requires
        at + 4 <= bytes.len(),
    ensures
        r as u32 == le32(bytes[at as int], bytes[at + 1], bytes[at + 2], bytes[at + 3]),
{
    let u = read_u32_le(bytes, at);
    let r = #[verifier::truncate] (u as i32);
    assert(r as u32 == u) by (bit_vector)
        requires
            r == u as i32,
    ;
    r
}

/// Appends the little-endian bytes of `v`.
pub fn push_u16_le(out: &mut Vec<u8>, v: u16)
    ensures
        final(out)@.len() == old(out)@.len() + 2,
        final(out)@.subrange(0, old(out)@.len() as int) == old(out)@,
        le16(final(out)@[old(out)@.len() as int], final(out)@[old(out)@.len() as int + 1]) == v,
        final(out)@ == old(out)@ + le16_bytes(v),
{
    let b0 = (v & 0xff) as u8;
    let b1 = (v >> 8) as u8;
    assert(b0 + 256 * b1 == v && b0 == v % 256 && b1 == v / 256) by (bit_vector)
        requires
            b0 == (v & 0xff) as u8,
            b1 == (v >> 8) as u8,
    ;
    out.push(b0);
    out.push(b1);
    assert(out@ =~= old(out)@ + le16_bytes(v));
}

/// Appends the little-endian bytes of `v`.
pub fn push_u32_le(out: &mut Vec<u8>, v: u32)
    ensures
        final(out)@.len() == old(out)@.len() + 4,
        final(out)@.subrange(0, old(out)@.len() as int) == old(out)@,
        le32(
            final(out)@[old(out)@.len() as int],
            final(out)@[old(out)@.len() as int + 1],
            final(out)@[old(out)@.len() as int + 2],
            final(out)@[old(out)@.len() as int + 3],
        ) == v,
        final(out)@ == old(out)@ + le32_bytes(v),
{
    let b0 = (v & 0xff) as u8;
    let b1 = ((v >> 8) & 0xff) as u8;
    let b2 = ((v >> 16) & 0xff) as u8;
    let b3 = (v >> 24) as u8;
    assert(b0 + 256 * b1 + 65536 * b2 + 16777216 * b3 == v) by (bit_vector)
        requires
            b0 == (v & 0xff) as u8,
            b1 == ((v >> 8) & 0xff) as u8,
            b2 == ((v >> 16) & 0xff) as u8,
            b3 == (v >> 24) as u8,
    ;
    assert(b0 == v % 256 && b1 == v / 256 % 256 && b2 == v / 65536 % 256 && b3 == v / 16777216)
        by (bit_vector)
        requires
            b0 == (v & 0xff) as u8,
            b1 == ((v >> 8) & 0xff) as u8,
            b2 == ((v >> 16) & 0xff) as u8,
            b3 == (v >> 24) as u8,
    ;
    out.push(b0);
    out.push(b1);
    out.push(b2);
    out.push(b3);
    assert(out@ =~= old(out)@ + le32_bytes(v));
}

} // verus!
