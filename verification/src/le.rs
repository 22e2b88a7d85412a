//! Little-endian integer encodings used on the wire.

use vstd::prelude::*;

verus! {

/// Two little-endian bytes of `v`.
#[verifier::opaque]
pub open spec fn le_u16(v: u16) -> Seq<u8> {
    seq![(v % 256) as u8, (v / 256) as u8]
}

/// Four little-endian bytes of `v`.
#[verifier::opaque]
pub open spec fn le_u32(v: u32) -> Seq<u8> {
    seq![
        (v % 256) as u8,
        ((v / 0x100) % 256) as u8,
        ((v / 0x1_0000) % 256) as u8,
        (v / 0x100_0000) as u8,
    ]
}

/// Eight little-endian bytes of `v`.
pub open spec fn le_u64(v: u64) -> Seq<u8> {
    le_u32((v % 0x1_0000_0000) as u32) + le_u32((v / 0x1_0000_0000) as u32)
}

/// Two bytes for every `u16`.
pub broadcast proof fn lemma_le_u16_len(v: u16)
    ensures
        #[trigger] le_u16(v).len() == 2,
{
    reveal(le_u16);
}

/// Four bytes for every `u32`.
pub broadcast proof fn lemma_le_u32_len(v: u32)
    ensures
        #[trigger] le_u32(v).len() == 4,
{
    reveal(le_u32);
}

/// The lengths of the little-endian encodings.
pub broadcast group group_le_len {
    lemma_le_u16_len,
    lemma_le_u32_len,
}

/// The `u16` whose little-endian bytes are `b[0..2]`.
pub open spec fn u16_from_le(b: Seq<u8>) -> u16 {
    (b[0] as int + 0x100 * b[1] as int) as u16
}

/// The `u32` whose little-endian bytes are `b[0..4]`.
pub open spec fn u32_from_le(b: Seq<u8>) -> u32 {
    (b[0] as int + 0x100 * b[1] as int + 0x1_0000 * b[2] as int + 0x100_0000 * b[3] as int) as u32
}

/// The `u64` whose little-endian bytes are `b[0..8]`.
pub open spec fn u64_from_le(b: Seq<u8>) -> u64 {
    (u32_from_le(b.subrange(0, 4)) as int + 0x1_0000_0000 * u32_from_le(b.subrange(4, 8)) as int) as u64
}

/// Append `v` as two little-endian bytes.
pub fn push_u16_le(out: &mut Vec<u8>, v: u16)
    ensures
        final(out)@ == old(out)@ + le_u16(v),
{
    reveal(le_u16);
    reveal(le_u32);
    out.push((v % 256) as u8);
    out.push((v / 256) as u8);
    assert(final(out)@ =~= old(out)@ + le_u16(v));
}

/// Append `v` as four little-endian bytes.
pub fn push_u32_le(out: &mut Vec<u8>, v: u32)
    ensures
        final(out)@ == old(out)@ + le_u32(v),
{
    reveal(le_u16);
    reveal(le_u32);
    out.push((v % 256) as u8);
    out.push(((v / 0x100) % 256) as u8);
    out.push(((v / 0x1_0000) % 256) as u8);
    out.push((v / 0x100_0000) as u8);
    assert(final(out)@ =~= old(out)@ + le_u32(v));
}

/// Append `v` as eight little-endian bytes.
pub fn push_u64_le(out: &mut Vec<u8>, v: u64)
    ensures
        final(out)@ == old(out)@ + le_u64(v),
{
    reveal(le_u16);
    reveal(le_u32);
    push_u32_le(out, (v % 0x1_0000_0000) as u32);
    push_u32_le(out, (v / 0x1_0000_0000) as u32);
    assert(final(out)@ =~= old(out)@ + le_u64(v));
}

/// Append a byte string.
pub fn push_bytes(out: &mut Vec<u8>, bytes: &[u8])
    ensures
        final(out)@ == old(out)@ + bytes@,
{
    let ghost start = out@;
    let mut i: usize = 0;
    while i < bytes.len()
        invariant
            0 <= i <= bytes@.len(),
            out@ == start + bytes@.take(i as int),
        decreases bytes@.len() - i,
    {
        out.push(bytes[i]);
        i = i + 1;
        assert(out@ =~= start + bytes@.take(i as int));
    }
    assert(bytes@.take(i as int) =~= bytes@);
}

/// The value of two bytes.
pub fn read_u16_le(b0: u8, b1: u8) -> (v: u16)
    ensures
        v == u16_from_le(seq![b0, b1]),
        le_u16(v) == seq![b0, b1],
{
    reveal(le_u16);
    reveal(le_u32);
    let v = b0 as u16 + 0x100 * b1 as u16;
    assert(le_u16(v) =~= seq![b0, b1]);
    v
}

/// The value of four bytes.
#[verifier::rlimit(40)]
pub fn read_u32_le(b0: u8, b1: u8, b2: u8, b3: u8) -> (v: u32)
    ensures
        v == u32_from_le(seq![b0, b1, b2, b3]),
        le_u32(v) == seq![b0, b1, b2, b3],
{
    reveal(le_u16);
    reveal(le_u32);
    let v = b0 as u32 + 0x100 * b1 as u32 + 0x1_0000 * b2 as u32 + 0x100_0000 * b3 as u32;
    assert(le_u32(v) =~= seq![b0, b1, b2, b3]);
    v
}

/// Reading back two little-endian bytes gives the encoded value.
pub proof fn lemma_le_u16_roundtrip(v: u16)
    ensures
        u16_from_le(le_u16(v)) == v,
{
    reveal(le_u16);
    reveal(le_u32);
}

/// Reading back four little-endian bytes gives the encoded value.
pub proof fn lemma_le_u32_roundtrip(v: u32)
    ensures
        u32_from_le(le_u32(v)) == v,
{
    reveal(le_u16);
    reveal(le_u32);
}


} // verus!
