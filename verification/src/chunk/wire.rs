//! Integers on the wire: big-endian in three and four bytes, little-endian
//! in four.

use vstd::prelude::*;

verus! {

/// The three bytes of `v`, most significant first. Meant for `v < 2^24`.
#[verifier::opaque]
pub open spec fn be24(v: u32) -> Seq<u8> {
    seq![(v / 0x1_0000 % 0x100) as u8, (v / 0x100 % 0x100) as u8, (v % 0x100) as u8]
}

/// The four bytes of `v`, most significant first.
#[verifier::opaque]
pub open spec fn be32(v: u32) -> Seq<u8> {
    seq![
        (v / 0x100_0000) as u8,
        (v / 0x1_0000 % 0x100) as u8,
        (v / 0x100 % 0x100) as u8,
        (v % 0x100) as u8,
    ]
}

/// The four bytes of `v`, least significant first.
#[verifier::opaque]
pub open spec fn le32(v: u32) -> Seq<u8> {
    seq![
        (v % 0x100) as u8,
        (v / 0x100 % 0x100) as u8,
        (v / 0x1_0000 % 0x100) as u8,
        (v / 0x100_0000) as u8,
    ]
}

/// The number that the three bytes from `at` on spell, most significant
/// first.
pub open spec fn be24_at(bytes: Seq<u8>, at: int) -> u32 {
    (bytes[at] as int * 0x1_0000 + bytes[at + 1] as int * 0x100 + bytes[at + 2] as int) as u32
}

/// The number that the four bytes from `at` on spell, most significant
/// first.
pub open spec fn be32_at(bytes: Seq<u8>, at: int) -> u32 {
    (bytes[at] as int * 0x100_0000 + bytes[at + 1] as int * 0x1_0000 + bytes[at + 2] as int * 0x100
        + bytes[at + 3] as int) as u32
}

/// The number that the four bytes from `at` on spell, least significant
/// first.
pub open spec fn le32_at(bytes: Seq<u8>, at: int) -> u32 {
    (bytes[at] as int + bytes[at + 1] as int * 0x100 + bytes[at + 2] as int * 0x1_0000 + bytes[at
        + 3] as int * 0x100_0000) as u32
}

/// How many bytes each form takes.
pub proof fn lemma_wire_lengths(v: u32)
    ensures
        be24(v).len() == 3,
        be32(v).len() == 4,
        le32(v).len() == 4,
{
    reveal(be24);
    reveal(be32);
    reveal(le32);
}

/// Reading back three big-endian bytes gives the number that was written.
pub proof fn lemma_be24_round_trip(v: u32, bytes: Seq<u8>, at: int)
    requires
        v <= 0xFF_FFFF,
        0 <= at,
        at + 3 <= bytes.len(),
        bytes.subrange(at, at + 3) == be24(v),
    ensures
        be24_at(bytes, at) == v,
{
    reveal(be24);
    let b = bytes.subrange(at, at + 3);
    assert(b[0] == bytes[at] && b[1] == bytes[at + 1] && b[2] == bytes[at + 2]);
}

/// Reading back four big-endian bytes gives the number that was written.
pub proof fn lemma_be32_round_trip(v: u32, bytes: Seq<u8>, at: int)
    requires
        0 <= at,
        at + 4 <= bytes.len(),
        bytes.subrange(at, at + 4) == be32(v),
    ensures
        be32_at(bytes, at) == v,
{
    reveal(be32);
    let b = bytes.subrange(at, at + 4);
    assert(b[0] == bytes[at] && b[1] == bytes[at + 1] && b[2] == bytes[at + 2] && b[3] == bytes[at
        + 3]);
}

/// Reading back four little-endian bytes gives the number that was written.
pub proof fn lemma_le32_round_trip(v: u32, bytes: Seq<u8>, at: int)
    requires
        0 <= at,
        at + 4 <= bytes.len(),
        bytes.subrange(at, at + 4) == le32(v),
    ensures
        le32_at(bytes, at) == v,
{
    reveal(le32);
    let b = bytes.subrange(at, at + 4);
    assert(b[0] == bytes[at] && b[1] == bytes[at + 1] && b[2] == bytes[at + 2] && b[3] == bytes[at
        + 3]);
}

/// Appends the low three bytes of `v`, most significant first.
pub(crate) fn put_be24(out: &mut Vec<u8>, v: u32)
    requires
        v <= 0xFF_FFFF,
    ensures
        final(out)@ == old(out)@ + be24(v),
{
    out.push((v / 0x1_0000 % 0x100) as u8);
    out.push((v / 0x100 % 0x100) as u8);
    out.push((v % 0x100) as u8);
    reveal(be24);
    assert(out@ =~= old(out)@ + be24(v));
}

/// Appends the four bytes of `v`, most significant first.
pub(crate) fn put_be32(out: &mut Vec<u8>, v: u32)
    ensures
        final(out)@ == old(out)@ + be32(v),
{
    out.push((v / 0x100_0000) as u8);
    out.push((v / 0x1_0000 % 0x100) as u8);
    out.push((v / 0x100 % 0x100) as u8);
    out.push((v % 0x100) as u8);
    reveal(be32);
    assert(out@ =~= old(out)@ + be32(v));
}

/// Appends the four bytes of `v`, least significant first.
pub(crate) fn put_le32(out: &mut Vec<u8>, v: u32)
    ensures
        final(out)@ == old(out)@ + le32(v),
{
    out.push((v % 0x100) as u8);
    out.push((v / 0x100 % 0x100) as u8);
    out.push((v / 0x1_0000 % 0x100) as u8);
    out.push((v / 0x100_0000) as u8);
    reveal(le32);
    assert(out@ =~= old(out)@ + le32(v));
}

/// Reads three bytes from `at` on as one number, most significant first.
pub(crate) fn get_be24(bytes: &Vec<u8>, at: usize) -> (v: u32)
    requires
        at + 3 <= bytes.len(),
    ensures
        v == be24_at(bytes@, at as int),
        v <= 0xFF_FFFF,
{
    (bytes[at] as u32) * 0x1_0000 + (bytes[at + 1] as u32) * 0x100 + (bytes[at + 2] as u32)
}

/// Reads four bytes from `at` on as one number, most significant first.
pub(crate) fn get_be32(bytes: &Vec<u8>, at: usize) -> (v: u32)
    requires
        at + 4 <= bytes.len(),
    ensures
        v == be32_at(bytes@, at as int),
{
    (bytes[at] as u32) * 0x100_0000 + (bytes[at + 1] as u32) * 0x1_0000 + (bytes[at + 2] as u32)
        * 0x100 + (bytes[at + 3] as u32)
}

/// Reads four bytes from `at` on as one number, least significant first.
pub(crate) fn get_le32(bytes: &Vec<u8>, at: usize) -> (v: u32)
    requires
        at + 4 <= bytes.len(),
    ensures
        v == le32_at(bytes@, at as int),
{
    (bytes[at] as u32) + (bytes[at + 1] as u32) * 0x100 + (bytes[at + 2] as u32) * 0x1_0000 + (
    bytes[at + 3] as u32) * 0x100_0000
}

/// Appends the bytes of `source` from `from` up to `to`.
pub(crate) fn put_range(out: &mut Vec<u8>, source: &Vec<u8>, from: usize, to: usize)
    requires
        from <= to <= source.len(),
    ensures
        final(out)@ == old(out)@ + source@.subrange(from as int, to as int),
{
    let mut i: usize = from;
    while i < to
        invariant
            from <= i <= to <= source.len(),
            out@ == old(out)@ + source@.subrange(from as int, i as int),
        decreases to - i,
    {
        out.push(source[i]);
        assert(out@ =~= old(out)@ + source@.subrange(from as int, i + 1));
        i += 1;
    }
    assert(out@ =~= old(out)@ + source@.subrange(from as int, to as int));
}

/// Appends all of `data`.
pub(crate) fn put_slice(out: &mut Vec<u8>, data: &[u8])
    ensures
        final(out)@ == old(out)@ + data@,
{
    let mut i: usize = 0;
    while i < data.len()
        invariant
            i <= data@.len(),
            out@ == old(out)@ + data@.subrange(0, i as int),
        decreases data@.len() - i,
    {
        out.push(data[i]);
        assert(out@ =~= old(out)@ + data@.subrange(0, i + 1));
        i += 1;
    }
    assert(data@.subrange(0, i as int) =~= data@);
}

} // verus!
