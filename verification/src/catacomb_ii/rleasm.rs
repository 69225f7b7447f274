use vstd::prelude::*;

verus! {

/// The bytes that run-length decoding produces from position `i` of `src`
/// while the position is below `limit`. A control byte with the top bit set
/// is followed by `(control & 0x7f) + 1` literal bytes; any other control
/// byte `c` is followed by one byte that is repeated `c + 3` times.
pub open spec fn rle_from(src: Seq<u8>, limit: nat, i: nat) -> Seq<u8>
    decreases if i < limit { limit - i } else { 0 },
{
    if i >= limit {
        Seq::empty()
    } else {
        let val = src[i as int];
        if val & 0x80 != 0 {
            let len = ((val & 0x7f) + 1) as nat;
            src.subrange(i + 1 as int, (i + 1 + len) as int) + rle_from(src, limit, i + 1 + len)
        } else {
            let len = (val + 3) as nat;
            Seq::new(len, |k: int| src[i + 1 as int]) + rle_from(src, limit, i + 2)
        }
    }
}

/// Every run that decoding reads from position `i` on lies inside `src`.
pub open spec fn rle_ok(src: Seq<u8>, limit: nat, i: nat) -> bool
    decreases if i < limit { limit - i } else { 0 },
{
    if i >= limit {
        true
    } else {
        &&& i < src.len()
        &&& {
            let val = src[i as int];
            if val & 0x80 != 0 {
                let len = ((val & 0x7f) + 1) as nat;
                i + 1 + len <= src.len() && rle_ok(src, limit, i + 1 + len)
            } else {
                i + 2 <= src.len() && rle_ok(src, limit, i + 2)
            }
        }
    }
}

/// Expands the run-length encoded `source[..source_len]` onto the end of
/// `dest` (see `rle_from`).
pub fn RLEExpand(source: &[u8], source_len: usize, dest: &mut Vec<u8>)
    requires
        rle_ok(source@, source_len as nat, 0),
    ensures
        final(dest)@ == old(dest)@ + rle_from(source@, source_len as nat, 0),
{
    let mut source_i: usize = 0;
    while source_i < source_len
        invariant
            rle_ok(source@, source_len as nat, source_i as nat),
            old(dest)@ + rle_from(source@, source_len as nat, 0) == dest@ + rle_from(
                source@,
                source_len as nat,
                source_i as nat,
            ),
        decreases if source_i < source_len { source_len - source_i } else { 0 },
    {
        let val: u8 = source[source_i];
        source_i += 1;
        if val & 0x80 != 0 {
            assert(val & 0x7f <= 0x7f) by (bit_vector);
            let len = ((val & 0x7f) + 1) as usize;
            let ghost before = dest@;
            let mut k: usize = 0;
            while k < len
                invariant
                    k <= len,
                    source_i + len <= source.len(),
                    dest@ == before + source@.subrange(source_i as int, (source_i + k) as int),
                decreases len - k,
            {
                dest.push(source[source_i + k]);
                k += 1;
                assert(dest@ =~= before + source@.subrange(source_i as int, (source_i + k) as int));
            }
            source_i += len;
            assert(old(dest)@ + rle_from(source@, source_len as nat, 0) =~= dest@ + rle_from(
                source@,
                source_len as nat,
                source_i as nat,
            ));
        } else {
            assert(val & 0x80 == 0 ==> val < 0x80) by (bit_vector);
            let len = (val + 3) as usize;
            let b = source[source_i];
            let ghost before = dest@;
            let mut k: usize = 0;
            while k < len
                invariant
                    k <= len,
                    dest@ == before + Seq::new(k as nat, |m: int| b),
                decreases len - k,
            {
                dest.push(b);
                k += 1;
                assert(dest@ =~= before + Seq::new(k as nat, |m: int| b));
            }
            source_i += 1;
            assert(old(dest)@ + rle_from(source@, source_len as nat, 0) =~= dest@ + rle_from(
                source@,
                source_len as nat,
                source_i as nat,
            ));
        }
    }
    assert(rle_from(source@, source_len as nat, source_i as nat) =~= Seq::empty());
    assert(dest@ =~= dest@ + Seq::<u8>::empty());
}


/// The position of the control byte after the run at position `i`.
pub open spec fn rle_next(src: Seq<u8>, i: nat) -> nat {
    let val = src[i as int];
    if val & 0x80 != 0 {
        i + 1 + ((val & 0x7f) + 1) as nat
    } else {
        i + 2
    }
}

/// Whether decoding from position `i` reaches position `p` at the start of
/// a run (a run boundary).
pub open spec fn rle_visits(src: Seq<u8>, i: nat, p: nat) -> bool
    decreases if i < p { p - i } else { 0 },
{
    if i == p {
        true
    } else if i < p {
        rle_visits(src, rle_next(src, i), p)
    } else {
        false
    }
}

/// Decoding up to a run boundary `p` and then on gives what decoding all
/// at once gives.
proof fn lemma_rle_prefix(src: Seq<u8>, n: nat, i: nat, p: nat)
    requires
        rle_ok(src, n, i),
        rle_visits(src, i, p),
        i <= p <= n,
    ensures
        rle_ok(src, p, i),
        rle_ok(src, n, p),
        rle_from(src, n, i) == rle_from(src, p, i) + rle_from(src, n, p),
    decreases p - i,
{
    if i < p {
        let nx = rle_next(src, i);
        assert(rle_visits(src, nx, p));
        if nx > p {
            assert(!rle_visits(src, nx, p));
        }
        lemma_rle_prefix(src, n, nx, p);
        assert(rle_from(src, n, i) =~= rle_from(src, p, i) + rle_from(src, n, p));
    } else {
        assert(rle_from(src, p, p) =~= Seq::<u8>::empty());
        assert(rle_from(src, n, i) =~= rle_from(src, p, i) + rle_from(src, n, p));
    }
}

/// Decoding from position `p + q` of `src` is decoding from position `q` of
/// the bytes from `p` on.
proof fn lemma_rle_shift(src: Seq<u8>, n: nat, p: nat, q: nat)
    requires
        rle_ok(src, n, p + q),
        p <= src.len(),
        p <= n,
    ensures
        rle_ok(src.subrange(p as int, src.len() as int), (n - p) as nat, q),
        rle_from(src, n, p + q) == rle_from(
            src.subrange(p as int, src.len() as int),
            (n - p) as nat,
            q,
        ),
    decreases if p + q < n { n - (p + q) } else { 0 },
{
    let sub = src.subrange(p as int, src.len() as int);
    if p + q < n {
        let i = p + q;
        let val = src[i as int];
        assert(sub[q as int] == val);
        if val & 0x80 != 0 {
            let len = ((val & 0x7f) + 1) as nat;
            lemma_rle_shift(src, n, p, q + 1 + len);
            assert(sub.subrange(q + 1 as int, (q + 1 + len) as int) =~= src.subrange(
                i + 1 as int,
                (i + 1 + len) as int,
            ));
        } else {
            lemma_rle_shift(src, n, p, q + 2);
            assert(sub[q + 1 as int] == src[i + 1 as int]);
            assert(Seq::new((val + 3) as nat, |k: int| sub[q + 1 as int]) =~= Seq::new(
                (val + 3) as nat,
                |k: int| src[i + 1 as int],
            ));
        }
    }
}

/// Decoding splits at a run boundary: decoding `n` bytes of `src` gives
/// what decoding its first `p` bytes and then the `n - p` bytes from `p` on
/// gives, when `p` is where a run starts.
pub proof fn lemma_rle_split(src: Seq<u8>, n: nat, p: nat)
    requires
        rle_ok(src, n, 0),
        rle_visits(src, 0, p),
        p <= n,
    ensures
        rle_ok(src, p, 0),
        rle_ok(src.subrange(p as int, src.len() as int), (n - p) as nat, 0),
        rle_from(src, n, 0) == rle_from(src, p, 0) + rle_from(
            src.subrange(p as int, src.len() as int),
            (n - p) as nat,
            0,
        ),
{
    lemma_rle_prefix(src, n, 0, p);
    if p < n {
        assert(p < src.len());
    } else {
        lemma_rle_bound(src, n, p);
    }
    lemma_rle_shift(src, n, p, 0);
}

/// A position past the limit is within reach of `subrange`: when nothing
/// is left to decode, no bytes are read.
proof fn lemma_rle_bound(src: Seq<u8>, n: nat, p: nat)
    requires
        rle_ok(src, n, 0),
        rle_visits(src, 0, p),
        p == n,
    ensures
        p <= src.len(),
{
    lemma_rle_visit_bound(src, n, 0, p);
}

/// Each run boundary before the limit, and the limit when it is one, lies
/// within the bytes.
proof fn lemma_rle_visit_bound(src: Seq<u8>, n: nat, i: nat, p: nat)
    requires
        rle_ok(src, n, i),
        rle_visits(src, i, p),
        p <= n,
        i <= src.len(),
    ensures
        p <= src.len(),
    decreases if i < p { p - i } else { 0 },
{
    if i < p {
        lemma_rle_visit_bound(src, n, rle_next(src, i), p);
    }
}

} // verus!
