use vstd::prelude::*;

verus! {

/// The two bytes of `v`, least significant first.
pub open spec fn le16(v: u16) -> Seq<u8> {
    seq![(v % 256) as u8, (v / 256) as u8]
}

/// The four bytes of `v`, least significant first.
pub open spec fn le32(v: u32) -> Seq<u8> {
    seq![(v % 256) as u8, ((v / 256) % 256) as u8, ((v / 65536) % 256) as u8, (v / 16777216) as u8]
}

/// The number whose little-endian bytes are `b[pos]`, `b[pos + 1]`.
pub open spec fn read_le16(b: Seq<u8>, pos: int) -> u16 {
    (b[pos] + 256 * b[pos + 1]) as u16
}

/// The number whose little-endian bytes are `b[pos]` to `b[pos + 3]`.
pub open spec fn read_le32(b: Seq<u8>, pos: int) -> u32 {
    (b[pos] + 256 * b[pos + 1] + 65536 * b[pos + 2] + 16777216 * b[pos + 3]) as u32
}

/// Reading back what `le16` wrote gives the number.
pub proof fn lemma_le16_roundtrip(v: u16, rest: Seq<u8>, prefix: Seq<u8>)
    ensures
        read_le16(prefix + le16(v) + rest, prefix.len() as int) == v,
{
    let b = prefix + le16(v) + rest;
    let p = prefix.len() as int;
    assert(b[p] == (v % 256) as u8);
    assert(b[p + 1] == (v / 256) as u8);
    assert(v == (v % 256) + 256 * (v / 256)) by (nonlinear_arith);
}

/// Reading back what `le32` wrote gives the number.
pub proof fn lemma_le32_roundtrip(v: u32, rest: Seq<u8>, prefix: Seq<u8>)
    ensures
        read_le32(prefix + le32(v) + rest, prefix.len() as int) == v,
{
    let b = prefix + le32(v) + rest;
    let p = prefix.len() as int;
    assert(b[p] == (v % 256) as u8);
    assert(b[p + 1] == ((v / 256) % 256) as u8);
    assert(b[p + 2] == ((v / 65536) % 256) as u8);
    assert(b[p + 3] == (v / 16777216) as u8);
    assert(v == (v % 256) + 256 * ((v / 256) % 256) + 65536 * ((v / 65536) % 256) + 16777216 * (v
        / 16777216)) by (bit_vector);
}

/// Reading two bytes that `le16` wrote gives the number.
pub proof fn lemma_read_le16(b: Seq<u8>, pos: int, v: u16)
    requires
        0 <= pos,
        pos + 2 <= b.len(),
        b.subrange(pos, pos + 2) == le16(v),
    ensures
        read_le16(b, pos) == v,
{
    assert(b[pos] == b.subrange(pos, pos + 2)[0]);
    assert(b[pos + 1] == b.subrange(pos, pos + 2)[1]);
    assert(v == (v % 256) + 256 * (v / 256)) by (nonlinear_arith);
}

/// Reading four bytes that `le32` wrote gives the number.
pub proof fn lemma_read_le32(b: Seq<u8>, pos: int, v: u32)
    requires
        0 <= pos,
        pos + 4 <= b.len(),
        b.subrange(pos, pos + 4) == le32(v),
    ensures
        read_le32(b, pos) == v,
{
    assert(b[pos] == b.subrange(pos, pos + 4)[0]);
    assert(b[pos + 1] == b.subrange(pos, pos + 4)[1]);
    assert(b[pos + 2] == b.subrange(pos, pos + 4)[2]);
    assert(b[pos + 3] == b.subrange(pos, pos + 4)[3]);
    assert(v == (v % 256) + 256 * ((v / 256) % 256) + 65536 * ((v / 65536) % 256) + 16777216 * (v
        / 16777216)) by (bit_vector);
}

/// Appends the little-endian bytes of `v`.
pub fn push_le16(out: &mut Vec<u8>, v: u16)
    ensures
        final(out)@ == old(out)@ + le16(v),
{
    out.push((v % 256) as u8);
    out.push((v / 256) as u8);
    proof {
        assert(final(out)@ =~= old(out)@ + le16(v));
    }
}

/// Appends the little-endian bytes of `v`.
pub fn push_le32(out: &mut Vec<u8>, v: u32)
    ensures
        final(out)@ == old(out)@ + le32(v),
{
    out.push((v % 256) as u8);
    out.push(((v / 256) % 256) as u8);
    out.push(((v / 65536) % 256) as u8);
    out.push((v / 16777216) as u8);
    proof {
        assert(final(out)@ =~= old(out)@ + le32(v));
    }
}

/// Appends all of `bytes`.
pub fn push_all(out: &mut Vec<u8>, bytes: &[u8])
    ensures
        final(out)@ == old(out)@ + bytes@,
{
    let ghost start = out@;
    let mut i: usize = 0;
    while i < bytes.len()
        invariant
            i <= bytes@.len(),
            out@ == start + bytes@.subrange(0, i as int),
        decreases bytes@.len() - i,
    {
        out.push(bytes[i]);
        i = i + 1;
        proof {
            assert(out@ =~= start + bytes@.subrange(0, i as int));
        }
    }
    proof {
        assert(bytes@.subrange(0, bytes@.len() as int) =~= bytes@);
    }
}

/// The little-endian `u16` at `pos`.
pub fn get_le16(b: &[u8], pos: usize) -> (res: u16)
    requires
        pos + 2 <= b@.len(),
    ensures
        res == read_le16(b@, pos as int),
{
    b[pos] as u16 + 256 * (b[pos + 1] as u16)
}

/// The little-endian `u32` at `pos`.
pub fn get_le32(b: &[u8], pos: usize) -> (res: u32)
    requires
        pos + 4 <= b@.len(),
    ensures
        res == read_le32(b@, pos as int),
{
    b[pos] as u32 + 256 * (b[pos + 1] as u32) + 65536 * (b[pos + 2] as u32) + 16777216 * (b[pos
        + 3] as u32)
}

/// A copy of `b[start..end]`.
pub fn copy_range(b: &[u8], start: usize, end: usize) -> (res: Vec<u8>)
    requires
        start <= end <= b@.len(),
    ensures
        res@ == b@.subrange(start as int, end as int),
{
    let mut res: Vec<u8> = Vec::with_capacity(end - start);
    let mut i: usize = start;
    while i < end
        invariant
            start <= i <= end,
            end <= b@.len(),
            res@ == b@.subrange(start as int, i as int),
        decreases end - i,
    {
        res.push(b[i]);
        i = i + 1;
        proof {
            assert(res@ =~= b@.subrange(start as int, i as int));
        }
    }
    res
}

} // verus!
