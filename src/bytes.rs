use vstd::prelude::*;

verus! {

/// The four bytes of `v`, least significant first.
pub open spec fn le32(v: u32) -> Seq<u8> {
    seq![
        (v & 0xff) as u8,
        ((v >> 8u32) & 0xff) as u8,
        ((v >> 16u32) & 0xff) as u8,
        ((v >> 24u32) & 0xff) as u8,
    ]
}

/// The little-endian `u32` held in `b[i..i + 4]`.
pub open spec fn read_le32(b: Seq<u8>, i: int) -> u32 {
    (b[i] as u32) | ((b[i + 1] as u32) << 8u32) | ((b[i + 2] as u32) << 16u32) | ((b[i + 3]
        as u32) << 24u32)
}

proof fn lemma_le32_round_trip(v: u32)
    ensures
        read_le32(le32(v), 0) == v,
{
    let b = le32(v);
    let b0 = (v & 0xff) as u8;
    let b1 = ((v >> 8u32) & 0xff) as u8;
    let b2 = ((v >> 16u32) & 0xff) as u8;
    let b3 = ((v >> 24u32) & 0xff) as u8;
    assert(b[0] == b0 && b[1] == b1 && b[2] == b2 && b[3] == b3);
    assert((b0 as u32) | ((b1 as u32) << 8u32) | ((b2 as u32) << 16u32) | ((b3 as u32) << 24u32)
        == v) by (bit_vector)
        requires
            b0 == (v & 0xff) as u8,
            b1 == ((v >> 8u32) & 0xff) as u8,
            b2 == ((v >> 16u32) & 0xff) as u8,
            b3 == ((v >> 24u32) & 0xff) as u8,
    ;
}

/// Reading four bytes that were written by `le32(v)` gives `v` back.
pub proof fn lemma_read_written(b: Seq<u8>, i: int, v: u32)
    requires
        0 <= i,
        i + 4 <= b.len(),
        b.subrange(i, i + 4) == le32(v),
    ensures
        read_le32(b, i) == v,
{
    lemma_le32_round_trip(v);
    let w = b.subrange(i, i + 4);
    assert(w[0] == b[i] && w[1] == b[i + 1] && w[2] == b[i + 2] && w[3] == b[i + 3]);
}

/// Reading at an offset inside a window is reading at the shifted offset of the whole.
pub proof fn lemma_read_shifted(b: Seq<u8>, lo: int, hi: int, k: int)
    requires
        0 <= lo <= hi <= b.len(),
        0 <= k,
        k + 4 <= hi - lo,
    ensures
        read_le32(b.subrange(lo, hi), k) == read_le32(b, lo + k),
{
    let w = b.subrange(lo, hi);
    assert(w[k] == b[lo + k] && w[k + 1] == b[lo + k + 1] && w[k + 2] == b[lo + k + 2] && w[k
        + 3] == b[lo + k + 3]);
}

/// Appends the four little-endian bytes of `v`.
pub fn push_le32(out: &mut Vec<u8>, v: u32)
    ensures
        final(out)@ == old(out)@ + le32(v),
{
    out.push((v & 0xff) as u8);
    out.push(((v >> 8u32) & 0xff) as u8);
    out.push(((v >> 16u32) & 0xff) as u8);
    out.push(((v >> 24u32) & 0xff) as u8);
    assert(final(out)@ =~= old(out)@ + le32(v));
}

/// The little-endian `u32` at `b[i..i + 4]`.
pub fn get_le32(b: &Vec<u8>, i: usize) -> (r: u32)
    requires
        i + 4 <= b@.len(),
    ensures
        r == read_le32(b@, i as int),
{
    let n: usize = b.len();
    assert(i + 4 <= n);
    (b[i] as u32) | ((b[i + 1] as u32) << 8u32) | ((b[i + 2] as u32) << 16u32) | ((b[i + 3]
        as u32) << 24u32)
}

} // verus!
