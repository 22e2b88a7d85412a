//! Reading the shared-config wire primitives from a byte slice.

use crate::shared_config::error::SharedConfigError;
use crate::shared_config::utf16::{decode_utf16, utf16_decode};
use crate::shared_config::writer::flag_of;
use vstd::prelude::*;

verus! {

/// Largest accepted string, in UTF-16 code units.
pub const MAX_STRING_LEN: i32 = 2097152;

/// Largest accepted string-list count.
pub const MAX_LIST_COUNT: i32 = 10000;

/// Message of a read past the end of the data.
pub open spec fn eof_msg() -> Seq<char> {
    "unexpected end of shared config data"@
}

/// Message of a string length out of range.
pub open spec fn string_len_msg() -> Seq<char> {
    "wrong shared config string length"@
}

/// Message of a list count out of range.
pub open spec fn list_count_msg() -> Seq<char> {
    "wrong shared config list count"@
}

/// The `u16` stored little-endian at `p`.
pub open spec fn u16_at(d: Seq<u8>, p: int) -> u16 {
    (d[p] as int + 0x100 * d[p + 1] as int) as u16
}

/// The `u32` stored little-endian at `p`.
pub open spec fn u32_at(d: Seq<u8>, p: int) -> u32 {
    (d[p] as int + 0x100 * d[p + 1] as int + 0x1_0000 * d[p + 2] as int + 0x100_0000
        * d[p + 3] as int) as u32
}

/// The `i32` stored little-endian (two's complement) at `p`.
pub open spec fn i32_at(d: Seq<u8>, p: int) -> i32 {
    u32_at(d, p) as i32
}

/// The `u64` stored little-endian at `p`.
pub open spec fn u64_at(d: Seq<u8>, p: int) -> u64 {
    (u32_at(d, p) as int + 0x1_0000_0000 * u32_at(d, p + 4) as int) as u64
}

/// `n` little-endian `u16` values from `p` on.
pub open spec fn u16s_at(d: Seq<u8>, p: int, n: nat) -> Seq<u16> {
    Seq::new(n, |k: int| u16_at(d, p + 2 * k))
}

/// `n` little-endian `u32` values from `p` on.
pub open spec fn u32s_at(d: Seq<u8>, p: int, n: nat) -> Seq<u32> {
    Seq::new(n, |k: int| u32_at(d, p + 4 * k))
}

/// `n` little-endian `u64` values from `p` on.
pub open spec fn u64s_at(d: Seq<u8>, p: int, n: nat) -> Seq<u64> {
    Seq::new(n, |k: int| u64_at(d, p + 8 * k))
}

/// `n` flags from `p` on; every nonzero byte reads as `true`.
pub open spec fn bools_at(d: Seq<u8>, p: int, n: nat) -> Seq<bool> {
    Seq::new(n, |k: int| flag_of(d[p + k]))
}

/// The text of `n` UTF-16 units stored from `p` on.
#[verifier::opaque]
pub open spec fn units_text(d: Seq<u8>, p: int, n: nat) -> Seq<char> {
    utf16_decode(u16s_at(d, p, n))
}

/// A `StringX` at `p`: an `i32` count of UTF-16 units, then the units.
/// Gives the text and the position after it, or the error message.
pub open spec fn string_x_at(d: Seq<u8>, p: int) -> Result<(Seq<char>, int), Seq<char>> {
    if p + 4 > d.len() {
        Err(eof_msg())
    } else {
        let n = i32_at(d, p);
        if n < 0 || n > MAX_STRING_LEN {
            Err(string_len_msg())
        } else if p + 4 + 2 * n > d.len() {
            Err(eof_msg())
        } else {
            Ok((units_text(d, p + 4, n as nat), p + 4 + 2 * n))
        }
    }
}

/// `count` consecutive `StringX` values from `p` on.
pub open spec fn strings_at(d: Seq<u8>, p: int, count: nat) -> Result<(Seq<Seq<char>>, int), Seq<char>>
    decreases count,
{
    if count == 0 {
        Ok((Seq::empty(), p))
    } else {
        match strings_at(d, p, (count - 1) as nat) {
            Err(e) => Err(e),
            Ok((v, q)) => match string_x_at(d, q) {
                Err(e) => Err(e),
                Ok((s, r)) => Ok((v.push(s), r)),
            },
        }
    }
}

/// A string list at `p`: an `i32` count, then that many `StringX` values.
pub open spec fn string_list_x_at(d: Seq<u8>, p: int) -> Result<(Seq<Seq<char>>, int), Seq<char>> {
    if p + 4 > d.len() {
        Err(eof_msg())
    } else {
        let n = i32_at(d, p);
        if n < 0 || n > MAX_LIST_COUNT {
            Err(list_count_msg())
        } else {
            strings_at(d, p + 4, n as nat)
        }
    }
}

/// The texts of a list of strings.
pub open spec fn texts(v: Seq<String>) -> Seq<Seq<char>> {
    Seq::new(v.len(), |i: int| v[i]@)
}

/// A cursor over a shared-config byte string.
pub struct ConfigReader<'a> {
    data: &'a [u8],
    pos: usize,
}

impl<'a> ConfigReader<'a> {
    /// The bytes read.
    pub closed spec fn bytes(&self) -> Seq<u8> {
        self.data@
    }

    /// The position of the next byte.
    pub closed spec fn at(&self) -> int {
        self.pos as int
    }

    /// A cursor at the start of `data`.
    pub fn new(data: &'a [u8]) -> (r: Self)
        ensures
            r.bytes() == data@,
            r.at() == 0,
    {
        ConfigReader { data, pos: 0 }
    }

    /// The bytes read.
    pub fn data(&self) -> (r: &'a [u8])
        ensures
            r@ == self.bytes(),
    {
        self.data
    }

    /// The position of the next byte.
    pub fn position(&self) -> (r: usize)
        ensures
            r == self.at(),
    {
        self.pos
    }

    /// Move the cursor.
    pub fn set_position(&mut self, pos: usize)
        ensures
            final(self).bytes() == old(self).bytes(),
            final(self).at() == pos,
    {
        self.pos = pos;
    }

    /// Bytes left after the cursor (zero past the end).
    pub fn remaining(&self) -> (r: usize)
        ensures
            r == (if self.at() <= self.bytes().len() {
                self.bytes().len() - self.at()
            } else {
                0
            }),
    {
        self.data.len().saturating_sub(self.pos)
    }

    /// Whether `n` more bytes are there.
    pub fn need(&self, n: usize) -> (r: Result<(), SharedConfigError>)
        ensures
            r is Ok <==> self.at() + n <= self.bytes().len(),
            r matches Err(e) ==> e@ == eof_msg(),
    {
        let len = self.data.len();
        match self.pos.checked_add(n) {
            Some(end) => {
                if end > len {
                    Err(SharedConfigError::new("unexpected end of shared config data"))
                } else {
                    Ok(())
                }
            },
            None => Err(SharedConfigError::new("unexpected end of shared config data")),
        }
    }

    /// One byte.
    pub fn read_u8(&mut self) -> (r: Result<u8, SharedConfigError>)
        ensures
            final(self).bytes() == old(self).bytes(),
            old(self).at() + 1 <= old(self).bytes().len() ==> r == Ok::<u8, SharedConfigError>(
                old(self).bytes()[old(self).at()],
            ) && final(self).at() == old(self).at() + 1,
            old(self).at() + 1 > old(self).bytes().len() ==> (r matches Err(e) && e@ == eof_msg()),
    {
        self.need(1)?;
        let v = self.data[self.pos];
        self.pos = self.pos + 1;
        Ok(v)
    }

    /// One flag; every nonzero byte reads as `true`.
    pub fn read_bool(&mut self) -> (r: Result<bool, SharedConfigError>)
        ensures
            final(self).bytes() == old(self).bytes(),
            old(self).at() + 1 <= old(self).bytes().len() ==> r == Ok::<bool, SharedConfigError>(
                flag_of(old(self).bytes()[old(self).at()]),
            ) && final(self).at() == old(self).at() + 1,
            old(self).at() + 1 > old(self).bytes().len() ==> (r matches Err(e) && e@ == eof_msg()),
    {
        let v = self.read_u8()?;
        proof {
            reveal(flag_of);
        }
        Ok(v != 0)
    }

    /// A little-endian `u16`.
    pub fn read_u16(&mut self) -> (r: Result<u16, SharedConfigError>)
        ensures
            final(self).bytes() == old(self).bytes(),
            old(self).at() + 2 <= old(self).bytes().len() ==> r == Ok::<u16, SharedConfigError>(
                u16_at(old(self).bytes(), old(self).at()),
            ) && final(self).at() == old(self).at() + 2,
            old(self).at() + 2 > old(self).bytes().len() ==> (r matches Err(e) && e@ == eof_msg()),
    {
        self.need(2)?;
        let p = self.pos;
        let v = crate::le::read_u16_le(self.data[p], self.data[p + 1]);
        self.pos = p + 2;
        Ok(v)
    }

    /// A little-endian `u32`.
    pub fn read_u32(&mut self) -> (r: Result<u32, SharedConfigError>)
        ensures
            final(self).bytes() == old(self).bytes(),
            old(self).at() + 4 <= old(self).bytes().len() ==> r == Ok::<u32, SharedConfigError>(
                u32_at(old(self).bytes(), old(self).at()),
            ) && final(self).at() == old(self).at() + 4,
            old(self).at() + 4 > old(self).bytes().len() ==> (r matches Err(e) && e@ == eof_msg()),
    {
        self.need(4)?;
        let p = self.pos;
        let v = crate::le::read_u32_le(
            self.data[p],
            self.data[p + 1],
            self.data[p + 2],
            self.data[p + 3],
        );
        self.pos = p + 4;
        Ok(v)
    }

    /// A little-endian two's-complement `i32`.
    pub fn read_i32(&mut self) -> (r: Result<i32, SharedConfigError>)
        ensures
            final(self).bytes() == old(self).bytes(),
            old(self).at() + 4 <= old(self).bytes().len() ==> r == Ok::<i32, SharedConfigError>(
                i32_at(old(self).bytes(), old(self).at()),
            ) && final(self).at() == old(self).at() + 4,
            old(self).at() + 4 > old(self).bytes().len() ==> (r matches Err(e) && e@ == eof_msg()),
    {
        let v = self.read_u32()?;
        Ok(v as i32)
    }

    /// A little-endian `u64`.
    pub fn read_u64(&mut self) -> (r: Result<u64, SharedConfigError>)
        ensures
            final(self).bytes() == old(self).bytes(),
            old(self).at() + 8 <= old(self).bytes().len() ==> r == Ok::<u64, SharedConfigError>(
                u64_at(old(self).bytes(), old(self).at()),
            ) && final(self).at() == old(self).at() + 8,
            old(self).at() + 8 > old(self).bytes().len() ==> (r matches Err(e) && e@ == eof_msg()),
    {
        self.need(8)?;
        let ghost d = self.data@;
        let ghost p = self.pos as int;
        let lo = self.read_u32()?;
        let hi = self.read_u32()?;
        Ok(lo as u64 + 0x1_0000_0000 * hi as u64)
    }

    /// A `StringX`: an `i32` count of UTF-16 units, then the units.
    pub fn read_string_x(&mut self) -> (r: Result<String, SharedConfigError>)
        ensures
            final(self).bytes() == old(self).bytes(),
            match string_x_at(old(self).bytes(), old(self).at()) {
                Ok((s, q)) => r matches Ok(t) && t@ == s && final(self).at() == q,
                Err(m) => r matches Err(e) && e@ == m,
            },
    {
        let ghost d = self.data@;
        let ghost p = self.pos as int;
        let len = self.read_i32()?;
        if len < 0 || len > MAX_STRING_LEN {
            return Err(SharedConfigError::new("wrong shared config string length"));
        }
        let count = len as usize;
        let raw = self.read_bytes(count * 2)?;
        let mut units: Vec<u16> = Vec::new();
        let mut i: usize = 0;
        while i < count
            invariant
                0 <= i <= count,
                count == len,
                0 <= len <= MAX_STRING_LEN,
                0 <= p,
                p + 4 + 2 * count <= d.len(),
                raw@ == d.subrange(p + 4, p + 4 + 2 * count),
                units@ =~= u16s_at(d, p + 4, i as nat),
            decreases count - i,
        {
            let v = crate::le::read_u16_le(raw[2 * i], raw[2 * i + 1]);
            proof {
                let q = p + 4 + 2 * i;
                assert(raw@[2 * i as int] == d[q] && raw@[2 * i + 1] == d[q + 1]);
            }
            units.push(v);
            i = i + 1;
        }
        proof {
            reveal(units_text);
        }
        Ok(decode_utf16(units.as_slice()))
    }

    /// A string list: an `i32` count, then that many `StringX` values.
    pub fn read_string_list_x(&mut self) -> (r: Result<Vec<String>, SharedConfigError>)
        ensures
            final(self).bytes() == old(self).bytes(),
            match string_list_x_at(old(self).bytes(), old(self).at()) {
                Ok((v, q)) => r matches Ok(t) && texts(t@) == v && final(self).at() == q,
                Err(m) => r matches Err(e) && e@ == m,
            },
    {
        let ghost d = self.data@;
        let ghost p0 = self.pos as int;
        let cnt = self.read_i32()?;
        if cnt < 0 || cnt > MAX_LIST_COUNT {
            return Err(SharedConfigError::new("wrong shared config list count"));
        }
        let ghost start = self.pos as int;
        assert(string_list_x_at(d, p0) == strings_at(d, start, cnt as nat));
        let count = cnt as usize;
        let mut v: Vec<String> = Vec::new();
        let mut i: usize = 0;
        proof {
            assert(texts(v@) =~= Seq::<Seq<char>>::empty());
        }
        while i < count
            invariant
                0 <= i <= count,
                self.data@ == d,
                d == old(self).bytes(),
                string_list_x_at(d, old(self).at()) == strings_at(d, start, count as nat),
                strings_at(d, start, i as nat) == Ok::<(Seq<Seq<char>>, int), Seq<char>>(
                    (texts(v@), self.pos as int),
                ),
            decreases count - i,
        {
            let ghost before = v@;
            let s = self.read_string_x();
            match s {
                Ok(s) => {
                    v.push(s);
                    proof {
                        assert(texts(v@) =~= texts(before).push(s@));
                    }
                    i = i + 1;
                },
                Err(e) => {
                    proof {
                        lemma_strings_at_err(d, start, i as nat, count as nat);
                    }
                    return Err(e);
                },
            }
        }
        Ok(v)
    }

    /// `N` flags; every nonzero byte reads as `true`.
    pub fn read_bool_array<const N: usize>(&mut self) -> (r: Result<[bool; N], SharedConfigError>)
        ensures
            final(self).bytes() == old(self).bytes(),
            old(self).at() + N <= old(self).bytes().len() ==> (r matches Ok(a) && a@ == bools_at(
                old(self).bytes(),
                old(self).at(),
                N as nat,
            ) && final(self).at() == old(self).at() + N),
            old(self).at() + N > old(self).bytes().len() ==> (r matches Err(e) && e@ == eof_msg()),
    {
        let raw = self.read_bytes(N)?;
        let mut out = [false; N];
        let mut i: usize = 0;
        while i < N
            invariant
                0 <= i <= N,
                raw@.len() == N,
                forall|k: int| 0 <= k < i ==> out@[k] == flag_of(raw@[k]),
            decreases N - i,
        {
            proof {
                reveal(flag_of);
            }
            out[i] = raw[i] != 0;
            i = i + 1;
        }
        proof {
            let d = old(self).bytes();
            let p = old(self).at();
            assert forall|k: int| 0 <= k < N implies out@[k] == bools_at(d, p, N as nat)[k] by {
                assert(raw@[k] == d[p + k]);
                assert(out@[k] == flag_of(raw@[k]));
            }
            assert(out@.len() == N);
            assert(out@ =~= bools_at(d, p, N as nat));
        }
        Ok(out)
    }

    /// `N` bytes.
    pub fn read_u8_array<const N: usize>(&mut self) -> (r: Result<[u8; N], SharedConfigError>)
        ensures
            final(self).bytes() == old(self).bytes(),
            old(self).at() + N <= old(self).bytes().len() ==> (r matches Ok(a) && a@ == old(self).bytes().subrange(old(self).at(), old(self).at() + N) && final(self).at() == old(self).at() + N),
            old(self).at() + N > old(self).bytes().len() ==> (r matches Err(e) && e@ == eof_msg()),
    {
        let raw = self.read_bytes(N)?;
        let mut out = [0u8; N];
        let mut i: usize = 0;
        while i < N
            invariant
                0 <= i <= N,
                raw@.len() == N,
                forall|k: int| 0 <= k < i ==> out@[k] == raw@[k],
            decreases N - i,
        {
            out[i] = raw[i];
            i = i + 1;
        }
        proof {
            assert(out@ =~= raw@);
        }
        Ok(out)
    }

    /// `N` little-endian `u16` values.
    pub fn read_u16_array<const N: usize>(&mut self) -> (r: Result<[u16; N], SharedConfigError>)
        ensures
            final(self).bytes() == old(self).bytes(),
            old(self).at() + 2 * N <= old(self).bytes().len() ==> (r matches Ok(a) && a@
                == u16s_at(old(self).bytes(), old(self).at(), N as nat) && final(self).at() == old(self).at() + 2 * N),
            old(self).at() + 2 * N > old(self).bytes().len() ==> (r matches Err(e) && e@
                == eof_msg()),
    {
        let ghost d = self.data@;
        let ghost p = self.pos as int;
        let len = self.data.len();
        if N > usize::MAX / 2 {
            assert(p + 2 * N > len);
            return Err(SharedConfigError::new("unexpected end of shared config data"));
        }
        self.need(2 * N)?;
        let mut out = [0u16; N];
        let mut i: usize = 0;
        while i < N
            invariant
                0 <= i <= N,
                N <= usize::MAX / 2,
                self.data@ == d,
                d == old(self).bytes(),
                p == old(self).at(),
                0 <= p,
                self.pos == p + 2 * i,
                p + 2 * N <= d.len(),
                forall|k: int| 0 <= k < i ==> out@[k] == u16_at(d, p + 2 * k),
            decreases N - i,
        {
            let v = self.read_u16()?;
            out[i] = v;
            i = i + 1;
        }
        proof {
            assert(out@ =~= u16s_at(d, p, N as nat));
        }
        Ok(out)
    }

    /// `N` little-endian `u32` values.
    pub fn read_u32_array<const N: usize>(&mut self) -> (r: Result<[u32; N], SharedConfigError>)
        ensures
            final(self).bytes() == old(self).bytes(),
            old(self).at() + 4 * N <= old(self).bytes().len() ==> (r matches Ok(a) && a@
                == u32s_at(old(self).bytes(), old(self).at(), N as nat) && final(self).at() == old(self).at() + 4 * N),
            old(self).at() + 4 * N > old(self).bytes().len() ==> (r matches Err(e) && e@
                == eof_msg()),
    {
        let ghost d = self.data@;
        let ghost p = self.pos as int;
        let len = self.data.len();
        if N > usize::MAX / 4 {
            assert(p + 4 * N > len);
            return Err(SharedConfigError::new("unexpected end of shared config data"));
        }
        self.need(4 * N)?;
        let mut out = [0u32; N];
        let mut i: usize = 0;
        while i < N
            invariant
                0 <= i <= N,
                N <= usize::MAX / 4,
                self.data@ == d,
                d == old(self).bytes(),
                p == old(self).at(),
                0 <= p,
                self.pos == p + 4 * i,
                p + 4 * N <= d.len(),
                forall|k: int| 0 <= k < i ==> out@[k] == u32_at(d, p + 4 * k),
            decreases N - i,
        {
            let v = self.read_u32()?;
            out[i] = v;
            i = i + 1;
        }
        proof {
            assert(out@ =~= u32s_at(d, p, N as nat));
        }
        Ok(out)
    }

    /// `N` little-endian `u64` values.
    pub fn read_u64_array<const N: usize>(&mut self) -> (r: Result<[u64; N], SharedConfigError>)
        ensures
            final(self).bytes() == old(self).bytes(),
            old(self).at() + 8 * N <= old(self).bytes().len() ==> (r matches Ok(a) && a@
                == u64s_at(old(self).bytes(), old(self).at(), N as nat) && final(self).at() == old(self).at() + 8 * N),
            old(self).at() + 8 * N > old(self).bytes().len() ==> (r matches Err(e) && e@
                == eof_msg()),
    {
        let ghost d = self.data@;
        let ghost p = self.pos as int;
        let len = self.data.len();
        if N > usize::MAX / 8 {
            assert(p + 8 * N > len);
            return Err(SharedConfigError::new("unexpected end of shared config data"));
        }
        self.need(8 * N)?;
        let mut out = [0u64; N];
        let mut i: usize = 0;
        while i < N
            invariant
                0 <= i <= N,
                N <= usize::MAX / 8,
                self.data@ == d,
                d == old(self).bytes(),
                p == old(self).at(),
                0 <= p,
                self.pos == p + 8 * i,
                p + 8 * N <= d.len(),
                forall|k: int| 0 <= k < i ==> out@[k] == u64_at(d, p + 8 * k),
            decreases N - i,
        {
            let v = self.read_u64()?;
            out[i] = v;
            i = i + 1;
        }
        proof {
            assert(out@ =~= u64s_at(d, p, N as nat));
        }
        Ok(out)
    }

    /// The bytes from the cursor up to `block_end`, kept for a newer
    /// writer's fields; empty when the cursor is already there.
    pub fn read_tail(&self, block_end: usize) -> (r: Vec<u8>)
        requires
            block_end <= self.bytes().len(),
        ensures
            r@ == (if self.at() < block_end {
                self.bytes().subrange(self.at(), block_end as int)
            } else {
                Seq::empty()
            }),
    {
        let mut out: Vec<u8> = Vec::new();
        if self.pos < block_end {
            crate::le::push_bytes(&mut out, slice_range(self.data, self.pos, block_end));
            proof {
                assert(out@ =~= self.bytes().subrange(self.at(), block_end as int));
            }
        }
        out
    }

    /// A byte if the cursor is before `block_end`, else `default`.
    pub fn read_u8_or(&mut self, block_end: usize, default: u8) -> (r: Result<u8, SharedConfigError>)
        ensures
            final(self).bytes() == old(self).bytes(),
            old(self).at() >= block_end ==> r == Ok::<u8, SharedConfigError>(default) && final(self).at() == old(self).at(),
            old(self).at() < block_end && old(self).at() + 1 <= old(self).bytes().len() ==> r
                == Ok::<u8, SharedConfigError>(old(self).bytes()[old(self).at()]) && final(self).at() == old(self).at() + 1,
            old(self).at() < block_end && old(self).at() + 1 > old(self).bytes().len() ==> (r matches Err(e) && e@ == eof_msg()),
    {
        if self.pos < block_end {
            self.read_u8()
        } else {
            Ok(default)
        }
    }

    /// A flag if the cursor is before `block_end`, else `default`.
    pub fn read_bool_or(&mut self, block_end: usize, default: bool) -> (r: Result<bool, SharedConfigError>)
        ensures
            final(self).bytes() == old(self).bytes(),
            old(self).at() >= block_end ==> r == Ok::<bool, SharedConfigError>(default) && final(self).at() == old(self).at(),
            old(self).at() < block_end && old(self).at() + 1 <= old(self).bytes().len() ==> r
                == Ok::<bool, SharedConfigError>(flag_of(old(self).bytes()[old(self).at()]))
                && final(self).at() == old(self).at() + 1,
            old(self).at() < block_end && old(self).at() + 1 > old(self).bytes().len() ==> (r matches Err(e) && e@ == eof_msg()),
    {
        if self.pos < block_end {
            self.read_bool()
        } else {
            Ok(default)
        }
    }

    /// A little-endian `u32` if the cursor is before `block_end`, else `default`.
    pub fn read_u32_or(&mut self, block_end: usize, default: u32) -> (r: Result<u32, SharedConfigError>)
        ensures
            final(self).bytes() == old(self).bytes(),
            old(self).at() >= block_end ==> r == Ok::<u32, SharedConfigError>(default) && final(self).at() == old(self).at(),
            old(self).at() < block_end && old(self).at() + 4 <= old(self).bytes().len() ==> r
                == Ok::<u32, SharedConfigError>(u32_at(old(self).bytes(), old(self).at()))
                && final(self).at() == old(self).at() + 4,
            old(self).at() < block_end && old(self).at() + 4 > old(self).bytes().len() ==> (r matches Err(e) && e@ == eof_msg()),
    {
        if self.pos < block_end {
            self.read_u32()
        } else {
            Ok(default)
        }
    }

    /// A `StringX` if the cursor is before `block_end`, else the empty string.
    pub fn read_string_x_or_empty(&mut self, block_end: usize) -> (r: Result<String, SharedConfigError>)
        ensures
            final(self).bytes() == old(self).bytes(),
            old(self).at() >= block_end ==> (r matches Ok(t) && t@ == Seq::<char>::empty()
                && final(self).at() == old(self).at()),
            old(self).at() < block_end ==> match string_x_at(old(self).bytes(), old(self).at()) {
                Ok((s, q)) => r matches Ok(t) && t@ == s && final(self).at() == q,
                Err(m) => r matches Err(e) && e@ == m,
            },
    {
        if self.pos < block_end {
            self.read_string_x()
        } else {
            Ok(String::new())
        }
    }

    /// The next `n` bytes.
    pub fn read_bytes(&mut self, n: usize) -> (r: Result<&'a [u8], SharedConfigError>)
        ensures
            final(self).bytes() == old(self).bytes(),
            old(self).at() + n <= old(self).bytes().len() ==> (r matches Ok(b) && b@
                == old(self).bytes().subrange(old(self).at(), old(self).at() + n) && final(self).at()
                == old(self).at() + n),
            old(self).at() + n > old(self).bytes().len() ==> (r matches Err(e) && e@ == eof_msg()),
    {
        self.need(n)?;
        let p = self.pos;
        assert(p + n <= self.data.len());
        let b = slice_range(self.data, p, p + n);
        self.pos = p + n;
        Ok(b)
    }
}

/// Once a string of the list fails, the whole list fails with that error.
pub proof fn lemma_strings_at_err(d: Seq<u8>, p: int, i: nat, count: nat)
    requires
        i < count,
        strings_at(d, p, i) is Ok,
        string_x_at(d, strings_at(d, p, i)->Ok_0.1) is Err,
    ensures
        strings_at(d, p, count) == Err::<(Seq<Seq<char>>, int), Seq<char>>(
            string_x_at(d, strings_at(d, p, i)->Ok_0.1)->Err_0,
        ),
    decreases count - i,
{
    if i + 1 < count {
        lemma_strings_at_err_from(d, p, (i + 1) as nat, count);
    }
}

/// A failed prefix of the list fails every longer list the same way.
pub proof fn lemma_strings_at_err_from(d: Seq<u8>, p: int, i: nat, count: nat)
    requires
        i <= count,
        strings_at(d, p, i) is Err,
    ensures
        strings_at(d, p, count) == strings_at(d, p, i),
    decreases count - i,
{
    if i < count {
        lemma_strings_at_err_from(d, p, (i + 1) as nat, count);
    }
}

/// The bytes `data[start..end]`.
pub fn slice_range<'b>(data: &'b [u8], start: usize, end: usize) -> (r: &'b [u8])
    requires
        start <= end <= data@.len(),
    ensures
        r@ == data@.subrange(start as int, end as int),
{
    vstd::slice::slice_subrange(data, start, end)
}

} // verus!
