//! Little-endian scalar images, and facts about byte sequences.
//!
//! Every multi-byte scalar on the wire is little endian.  The spec functions
//! here give the byte image of each scalar, the value read back from a byte
//! sequence, and the predicate `has_bytes_at`, which says that an object's
//! image sits at a given distance from the end of a buffer.  Because the
//! buffer only ever grows at its front, `has_bytes_at` facts survive every
//! later write (`lemma_prepend_keeps_bytes`).

use vstd::prelude::*;

verus! {

/// Byte image of a `u16`, least significant byte first.
pub open spec fn u16_le(x: u16) -> Seq<u8> {
    seq![(x & 0xff) as u8, ((x >> 8) & 0xff) as u8]
}

/// Byte image of a `u32`, least significant byte first.
pub open spec fn u32_le(x: u32) -> Seq<u8> {
    seq![
        (x & 0xff) as u8,
        ((x >> 8) & 0xff) as u8,
        ((x >> 16) & 0xff) as u8,
        ((x >> 24) & 0xff) as u8,
    ]
}

/// Byte image of an `i32`: the image of its two's-complement bits.
pub open spec fn i32_le(x: i32) -> Seq<u8> {
    u32_le(x as u32)
}

/// The `u16` stored little endian at position `p`.
pub open spec fn rd_u16(s: Seq<u8>, p: int) -> u16 {
    (s[p] as u16) | ((s[p + 1] as u16) << 8)
}

/// The `u32` stored little endian at position `p`.
pub open spec fn rd_u32(s: Seq<u8>, p: int) -> u32 {
    (s[p] as u32) | ((s[p + 1] as u32) << 8) | ((s[p + 2] as u32) << 16)
        | ((s[p + 3] as u32) << 24)
}

/// The `i32` stored little endian at position `p`.
pub open spec fn rd_i32(s: Seq<u8>, p: int) -> i32 {
    rd_u32(s, p) as i32
}

/// The `i16` stored little endian at position `p`.
pub open spec fn rd_i16(s: Seq<u8>, p: int) -> i16 {
    rd_u16(s, p) as i16
}

/// `n` zero bytes: the padding the builder inserts for alignment.
pub open spec fn zeros(n: int) -> Seq<u8> {
    Seq::new(n as nat, |i: int| 0u8)
}

/// The image `img` lies at distance `r` from the end of `v`: `r` is the
/// object's end-relative offset, stable however much is later written in
/// front of `v`.
pub open spec fn has_bytes_at(v: Seq<u8>, r: int, img: Seq<u8>) -> bool {
    &&& img.len() <= r <= v.len()
    &&& v.subrange(v.len() - r, v.len() - r + img.len()) == img
}

/// Writing more bytes in front of a buffer disturbs no object already in it.
pub proof fn lemma_prepend_keeps_bytes(pre: Seq<u8>, v: Seq<u8>, r: int, img: Seq<u8>)
    requires
        has_bytes_at(v, r, img),
    ensures
        has_bytes_at(pre + v, r, img),
{
    let w = pre + v;
    assert(w.subrange(w.len() - r, w.len() - r + img.len()) =~= v.subrange(
        v.len() - r,
        v.len() - r + img.len(),
    ));
}

/// Each byte of an object found through `has_bytes_at`.
pub proof fn lemma_bytes_at_index(v: Seq<u8>, r: int, img: Seq<u8>, k: int)
    requires
        has_bytes_at(v, r, img),
        0 <= k < img.len(),
    ensures
        v[v.len() - r + k] == img[k],
{
    assert(v.subrange(v.len() - r, v.len() - r + img.len())[k] == v[v.len() - r + k]);
}

/// A contiguous part of an object found through `has_bytes_at`.
pub proof fn lemma_bytes_at_subrange(v: Seq<u8>, r: int, img: Seq<u8>, lo: int, hi: int)
    requires
        has_bytes_at(v, r, img),
        0 <= lo <= hi <= img.len(),
    ensures
        v.subrange(v.len() - r + lo, v.len() - r + hi) == img.subrange(lo, hi),
{
    assert forall|k: int| 0 <= k < hi - lo implies v.subrange(v.len() - r + lo, v.len() - r + hi)[k]
        == img.subrange(lo, hi)[k] by {
        lemma_bytes_at_index(v, r, img, lo + k);
    }
    assert(v.subrange(v.len() - r + lo, v.len() - r + hi) =~= img.subrange(lo, hi));
}

/// Reading back the image of a `u16` yields the value written.
pub proof fn lemma_rd_u16_le(s: Seq<u8>, p: int, x: u16)
    requires
        0 <= p,
        p + 2 <= s.len(),
        s.subrange(p, p + 2) == u16_le(x),
    ensures
        rd_u16(s, p) == x,
{
    assert(s[p] == s.subrange(p, p + 2)[0]);
    assert(s[p + 1] == s.subrange(p, p + 2)[1]);
    assert((((x & 0xff) as u8 as u16) | ((((x >> 8) & 0xff) as u8 as u16) << 8)) == x)
        by (bit_vector);
}

/// Reading back the image of a `u32` yields the value written.
pub proof fn lemma_rd_u32_le(s: Seq<u8>, p: int, x: u32)
    requires
        0 <= p,
        p + 4 <= s.len(),
        s.subrange(p, p + 4) == u32_le(x),
    ensures
        rd_u32(s, p) == x,
{
    assert(s[p] == s.subrange(p, p + 4)[0]);
    assert(s[p + 1] == s.subrange(p, p + 4)[1]);
    assert(s[p + 2] == s.subrange(p, p + 4)[2]);
    assert(s[p + 3] == s.subrange(p, p + 4)[3]);
    assert((((x & 0xff) as u8 as u32) | ((((x >> 8) & 0xff) as u8 as u32) << 8) | ((((x >> 16)
        & 0xff) as u8 as u32) << 16) | ((((x >> 24) & 0xff) as u8 as u32) << 24)) == x)
        by (bit_vector);
}

/// Reading back the image of an `i32` yields the value written.
pub proof fn lemma_rd_i32_le(s: Seq<u8>, p: int, x: i32)
    requires
        0 <= p,
        p + 4 <= s.len(),
        s.subrange(p, p + 4) == i32_le(x),
    ensures
        rd_i32(s, p) == x,
{
    lemma_rd_u32_le(s, p, x as u32);
    assert((x as u32) as i32 == x) by (bit_vector);
}

/// Reading back the image of an `i16` yields the value written.
pub proof fn lemma_rd_i16_le(s: Seq<u8>, p: int, x: i16)
    requires
        0 <= p,
        p + 2 <= s.len(),
        s.subrange(p, p + 2) == u16_le(x as u16),
    ensures
        rd_i16(s, p) == x,
{
    lemma_rd_u16_le(s, p, x as u16);
    assert((x as u16) as i16 == x) by (bit_vector);
}

/// Appends the little-endian image of a `u16`.
pub fn push_u16_le(out: &mut Vec<u8>, x: u16)
    ensures
        final(out)@ == old(out)@ + u16_le(x),
{
    out.push((x & 0xff) as u8);
    out.push(((x >> 8) & 0xff) as u8);
    proof {
        assert(out@ =~= old(out)@ + u16_le(x));
    }
}

/// Appends the little-endian image of a `u32`.
pub fn push_u32_le(out: &mut Vec<u8>, x: u32)
    ensures
        final(out)@ == old(out)@ + u32_le(x),
{
    out.push((x & 0xff) as u8);
    out.push(((x >> 8) & 0xff) as u8);
    out.push(((x >> 16) & 0xff) as u8);
    out.push(((x >> 24) & 0xff) as u8);
    proof {
        assert(out@ =~= old(out)@ + u32_le(x));
    }
}

/// Appends the little-endian image of an `i32`.
pub fn push_i32_le(out: &mut Vec<u8>, x: i32)
    ensures
        final(out)@ == old(out)@ + i32_le(x),
{
    push_u32_le(out, x as u32);
}

/// Appends the little-endian image of an `i16`.
pub fn push_i16_le(out: &mut Vec<u8>, x: i16)
    ensures
        final(out)@ == old(out)@ + u16_le(x as u16),
{
    push_u16_le(out, x as u16);
}

/// Appends a copy of `src`.
pub fn append_bytes(out: &mut Vec<u8>, src: &Vec<u8>)
    ensures
        final(out)@ == old(out)@ + src@,
{
    let mut i: usize = 0;
    while i < src.len()
        invariant
            i <= src@.len(),
            out@ == old(out)@ + src@.subrange(0, i as int),
        decreases src@.len() - i,
    {
        let b: u8 = src[i];
        out.push(b);
        proof {
            assert(out@ =~= old(out)@ + src@.subrange(0, i as int + 1));
        }
        i = i + 1;
    }
    proof {
        assert(src@.subrange(0, src@.len() as int) =~= src@);
        assert(out@ =~= old(out)@ + src@);
    }
}

/// Reads the `u16` stored at position `p`.
pub fn read_u16_at(v: &Vec<u8>, p: usize) -> (r: u16)
    requires
        p + 2 <= v@.len(),
    ensures
        r == rd_u16(v@, p as int),
{
    let _n: usize = v.len();
    (v[p] as u16) | ((v[p + 1] as u16) << 8)
}

/// Reads the `u32` stored at position `p`.
pub fn read_u32_at(v: &Vec<u8>, p: usize) -> (r: u32)
    requires
        p + 4 <= v@.len(),
    ensures
        r == rd_u32(v@, p as int),
{
    let _n: usize = v.len();
    (v[p] as u32) | ((v[p + 1] as u32) << 8) | ((v[p + 2] as u32) << 16) | ((v[p
        + 3] as u32) << 24)
}

/// Reads the `i32` stored at position `p`.
pub fn read_i32_at(v: &Vec<u8>, p: usize) -> (r: i32)
    requires
        p + 4 <= v@.len(),
    ensures
        r == rd_i32(v@, p as int),
{
    read_u32_at(v, p) as i32
}

/// Reads the `i16` stored at position `p`.
pub fn read_i16_at(v: &Vec<u8>, p: usize) -> (r: i16)
    requires
        p + 2 <= v@.len(),
    ensures
        r == rd_i16(v@, p as int),
{
    read_u16_at(v, p) as i16
}

} // verus!
