//! Reading of Engine API response fields that the core may leave short: a
//! field cut off by the end of the data reads as if the missing bytes were zero.

use crate::le::{u32_from_le, u64_from_le};
use vstd::prelude::*;

verus! {

/// How many of `n` bytes from `pos` on the data holds.
pub open spec fn tail_len(len: int, pos: int, n: int) -> int {
    if pos < len {
        if len - pos < n {
            len - pos
        } else {
            n
        }
    } else {
        0
    }
}

/// The `n` bytes from `pos` on, with the bytes past the end of the data read as zero.
pub open spec fn zero_tail(d: Seq<u8>, pos: int, n: nat) -> Seq<u8> {
    Seq::new(n, |i: int| if i < tail_len(d.len() as int, pos, n as int) { d[pos + i] } else { 0u8 })
}

/// Read `n` bytes from `*pos` on, padding with zeros past the end of the data,
/// and advance `*pos` past the bytes that were there.
pub fn read_zero_tail(data: &[u8], pos: &mut usize, n: usize) -> (r: Vec<u8>)
    ensures
        r@ == zero_tail(data@, *old(pos) as int, n as nat),
        *final(pos) == *old(pos) + tail_len(data@.len() as int, *old(pos) as int, n as int),
{
    let mut out: Vec<u8> = Vec::new();
    let start = *pos;
    let k: usize = if start < data.len() {
        if data.len() - start < n {
            data.len() - start
        } else {
            n
        }
    } else {
        0
    };
    let mut i: usize = 0;
    while i < n
        invariant
            0 <= i <= n,
            start == *old(pos),
            k == tail_len(data@.len() as int, start as int, n as int),
            k == 0 || start + k <= data.len(),
            out@.len() == i,
            forall|j: int| 0 <= j < i ==> out@[j] == zero_tail(data@, start as int, n as nat)[j],
        decreases n - i,
    {
        if i < k {
            out.push(data[start + i]);
        } else {
            out.push(0);
        }
        i = i + 1;
    }
    proof {
        assert(out@ =~= zero_tail(data@, start as int, n as nat));
    }
    *pos = start + k;
    out
}

/// Read one byte, zero past the end of the data.
pub fn read_u8_zero_tail(data: &[u8], pos: &mut usize) -> (r: u8)
    ensures
        r == zero_tail(data@, *old(pos) as int, 1)[0],
        *final(pos) == *old(pos) + tail_len(data@.len() as int, *old(pos) as int, 1),
{
    let b = read_zero_tail(data, pos, 1);
    b[0]
}

/// Read a little-endian `i32`, its missing bytes zero.
pub fn read_i32_zero_tail(data: &[u8], pos: &mut usize) -> (r: i32)
    ensures
        r == u32_from_le(zero_tail(data@, *old(pos) as int, 4)) as i32,
        *final(pos) == *old(pos) + tail_len(data@.len() as int, *old(pos) as int, 4),
{
    let b = read_zero_tail(data, pos, 4);
    let v: u32 = crate::le::read_u32_le(b[0], b[1], b[2], b[3]);
    v as i32
}

/// Read a little-endian `u64`, its missing bytes zero.
pub fn read_u64_zero_tail(data: &[u8], pos: &mut usize) -> (r: u64)
    ensures
        r == u64_from_le(zero_tail(data@, *old(pos) as int, 8)),
        *final(pos) == *old(pos) + tail_len(data@.len() as int, *old(pos) as int, 8),
{
    let b = read_zero_tail(data, pos, 8);
    let lo: u32 = crate::le::read_u32_le(b[0], b[1], b[2], b[3]);
    let hi: u32 = crate::le::read_u32_le(b[4], b[5], b[6], b[7]);
    proof {
        assert(b@.subrange(0, 4)[0] == b@[0] && b@.subrange(0, 4)[1] == b@[1]);
        assert(b@.subrange(0, 4)[2] == b@[2] && b@.subrange(0, 4)[3] == b@[3]);
        assert(b@.subrange(4, 8)[0] == b@[4] && b@.subrange(4, 8)[1] == b@[5]);
        assert(b@.subrange(4, 8)[2] == b@[6] && b@.subrange(4, 8)[3] == b@[7]);
    }
    lo as u64 + 0x1_0000_0000u64 * (hi as u64)
}

/// Parse the answer to the hedge-mode query: whether its first byte is
/// nonzero, an empty answer reading as `false`.
pub fn parse_query_hedge_mode_response(data: &[u8]) -> (r: Option<bool>)
    ensures
        r == Some(data@.len() > 0 && data@[0] != 0),
{
    let mut pos: usize = 0;
    let b = read_u8_zero_tail(data, &mut pos);
    Some(b != 0)
}

} // verus!
