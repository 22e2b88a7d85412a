//! Writing the shared-config wire primitives, with the size limits checked
//! while writing. The first failure is kept; later writes change nothing.

use crate::le::{le_u16, le_u32, le_u64, push_bytes, push_u16_le, push_u32_le, push_u64_le};
use crate::shared_config::error::SharedConfigError;
use crate::shared_config::reader::{MAX_LIST_COUNT, MAX_STRING_LEN};
use crate::shared_config::utf16::{encode_utf16, utf16_encode};
use vstd::prelude::*;

verus! {

broadcast use crate::le::group_le_len;

/// Largest accepted block body.
pub const MAX_BLOCK_SIZE: u32 = 16777216;

/// Largest accepted payload: the header and six blocks of the largest size.
pub const MAX_PAYLOAD_SIZE: usize = 100663333;

/// Message of a payload whose length does not fit in memory.
pub open spec fn overflow_msg() -> Seq<char> {
    "shared config payload size overflow"@
}

/// Message of a payload over the size limit.
pub open spec fn payload_too_large_msg() -> Seq<char> {
    "shared config payload too large"@
}

/// Message of a block over the size limit.
pub open spec fn block_too_large_msg() -> Seq<char> {
    "shared config block too large"@
}

/// Message of a string over the length limit.
pub open spec fn string_too_long_msg() -> Seq<char> {
    "shared config string too long"@
}

/// Message of a list over the count limit.
pub open spec fn list_too_long_msg() -> Seq<char> {
    "shared config list too long"@
}

/// A flag as one byte.
#[verifier::opaque]
pub open spec fn bool_byte(b: bool) -> u8 {
    if b {
        1
    } else {
        0
    }
}

/// The flag that a byte stands for: any nonzero byte is `true`.
#[verifier::opaque]
pub open spec fn flag_of(x: u8) -> bool {
    x != 0
}

/// A flag's byte reads back as the flag.
pub proof fn lemma_bool_byte(b: bool)
    ensures
        flag_of(bool_byte(b)) == b,
{
    reveal(bool_byte);
    reveal(flag_of);
}

/// The one-byte encoding of a flag.
#[verifier::opaque]
pub open spec fn flag_bytes(b: bool) -> Seq<u8> {
    seq![bool_byte(b)]
}

/// Little-endian bytes of the `i32` count of a length.
pub open spec fn count_bytes(n: nat) -> Seq<u8> {
    le_u32(n as u32)
}

/// `StringX` bytes of a text: the count of UTF-16 units, then the units.
pub open spec fn string_x_bytes(s: Seq<char>) -> Seq<u8> {
    count_bytes(utf16_encode(s).len()) + units_bytes(utf16_encode(s))
}

/// Little-endian bytes of `u16` values.
pub open spec fn units_bytes(u: Seq<u16>) -> Seq<u8>
    decreases u.len(),
{
    if u.len() == 0 {
        Seq::empty()
    } else {
        units_bytes(u.drop_last()) + le_u16(u.last())
    }
}

/// Little-endian bytes of `u32` values.
pub open spec fn u32s_bytes(u: Seq<u32>) -> Seq<u8>
    decreases u.len(),
{
    if u.len() == 0 {
        Seq::empty()
    } else {
        u32s_bytes(u.drop_last()) + le_u32(u.last())
    }
}

/// Little-endian bytes of `u64` values.
pub open spec fn u64s_bytes(u: Seq<u64>) -> Seq<u8>
    decreases u.len(),
{
    if u.len() == 0 {
        Seq::empty()
    } else {
        u64s_bytes(u.drop_last()) + le_u64(u.last())
    }
}

/// Flag bytes of a list of flags.
pub open spec fn bools_bytes(b: Seq<bool>) -> Seq<u8> {
    Seq::new(b.len(), |i: int| bool_byte(b[i]))
}

/// Whether a text fits the string limit.
pub open spec fn string_fits(s: Seq<char>) -> bool {
    utf16_encode(s).len() <= MAX_STRING_LEN
}

/// Bytes of consecutive `StringX` values.
pub open spec fn strings_bytes(v: Seq<Seq<char>>) -> Seq<u8>
    decreases v.len(),
{
    if v.len() == 0 {
        Seq::empty()
    } else {
        strings_bytes(v.drop_last()) + string_x_bytes(v.last())
    }
}

/// Whether every text of a list fits the string limit.
pub open spec fn strings_fit(v: Seq<Seq<char>>) -> bool {
    forall|i: int| 0 <= i < v.len() ==> string_fits(#[trigger] v[i])
}

/// Bytes of a string list: the count, then the strings.
pub open spec fn string_list_x_bytes(v: Seq<Seq<char>>) -> Seq<u8> {
    count_bytes(v.len()) + strings_bytes(v)
}

/// Whether a list fits the list limit and each string the string limit.
pub open spec fn string_list_fits(v: Seq<Seq<char>>) -> bool {
    v.len() <= MAX_LIST_COUNT && strings_fit(v)
}

/// The texts of a list of strings.
pub open spec fn texts_of(v: Seq<String>) -> Seq<Seq<char>> {
    Seq::new(v.len(), |i: int| v[i]@)
}

/// Two bytes per `u16` value.
pub proof fn lemma_units_bytes_len(u: Seq<u16>)
    ensures
        units_bytes(u).len() == 2 * u.len(),
    decreases u.len(),
{
    if u.len() > 0 {
        lemma_units_bytes_len(u.drop_last());
    }
}

/// Four bytes per `u32` value.
pub proof fn lemma_u32s_bytes_len(u: Seq<u32>)
    ensures
        u32s_bytes(u).len() == 4 * u.len(),
    decreases u.len(),
{
    if u.len() > 0 {
        lemma_u32s_bytes_len(u.drop_last());
    }
}

/// Eight bytes per `u64` value.
pub proof fn lemma_u64s_bytes_len(u: Seq<u64>)
    ensures
        u64s_bytes(u).len() == 8 * u.len(),
    decreases u.len(),
{
    if u.len() > 0 {
        lemma_u64s_bytes_len(u.drop_last());
    }
}

/// The bytes of a prefix of a string list are no longer than those of the list.
pub proof fn lemma_strings_bytes_len_take(v: Seq<Seq<char>>, i: int)
    requires
        0 <= i <= v.len(),
    ensures
        strings_bytes(v.take(i)).len() <= strings_bytes(v).len(),
    decreases v.len(),
{
    if i < v.len() {
        assert(v.drop_last().take(i) =~= v.take(i));
        lemma_strings_bytes_len_take(v.drop_last(), i);
    } else {
        assert(v.take(i) =~= v);
    }
}

/// A growing payload with the block being written and the first failure.
pub struct ConfigWriter {
    buf: Vec<u8>,
    active_block_body_start: Option<usize>,
    error: Option<SharedConfigError>,
}

impl ConfigWriter {
    /// The bytes written.
    pub closed spec fn written(&self) -> Seq<u8> {
        self.buf@
    }

    /// Where the body of the open block starts, if a block is open.
    pub closed spec fn open_block(&self) -> Option<usize> {
        self.active_block_body_start
    }

    /// Whether a write has failed.
    pub closed spec fn failed(&self) -> bool {
        self.error is Some
    }

    /// The message of the first failure.
    pub closed spec fn fault(&self) -> Seq<char> {
        match self.error {
            Some(e) => e@,
            None => Seq::empty(),
        }
    }

    /// The open block starts inside the payload, which keeps within its limit.
    pub closed spec fn wf(&self) -> bool {
        &&& self.buf@.len() <= MAX_PAYLOAD_SIZE
        &&& (self.active_block_body_start matches Some(s) ==> s <= self.buf@.len() && self.buf@.len()
            - s <= MAX_BLOCK_SIZE)
    }

    /// Whether `n` more bytes keep the payload and the open block within their limits.
    pub open spec fn room(&self, n: int) -> bool {
        &&& self.written().len() + n <= MAX_PAYLOAD_SIZE
        &&& (self.open_block() matches Some(s) ==> self.written().len() + n - s <= MAX_BLOCK_SIZE)
    }

    /// Why `n` more bytes do not fit.
    pub open spec fn room_fault(&self, n: int) -> Seq<char> {
        if self.written().len() + n > usize::MAX {
            overflow_msg()
        } else if self.written().len() + n > MAX_PAYLOAD_SIZE {
            payload_too_large_msg()
        } else {
            block_too_large_msg()
        }
    }

    /// The state after appending `b` in one step: appended if there is room,
    /// else failed with the reason; nothing changes after a failure.
    pub closed spec fn wrote(&self, before: &ConfigWriter, b: Seq<u8>) -> bool {
        &&& self.wf()
        &&& self.open_block() == before.open_block()
        &&& if before.failed() {
            self.written() == before.written() && self.failed() && self.fault() == before.fault()
        } else if before.room(b.len() as int) {
            self.written() == before.written() + b && !self.failed()
        } else {
            self.written() == before.written() && self.failed() && self.fault()
                == before.room_fault(b.len() as int)
        }
    }

    /// The state after a multi-step write of `b`, possible only when `ok`:
    /// appended when nothing failed, failed otherwise.
    pub closed spec fn wrote_all(&self, before: &ConfigWriter, ok: bool, b: Seq<u8>) -> bool {
        &&& self.wf()
        &&& self.open_block() == before.open_block()
        &&& (!self.failed() <==> (!before.failed() && ok && before.room(b.len() as int)))
        &&& (!self.failed() ==> self.written() == before.written() + b)
        &&& (before.failed() ==> self.fault() == before.fault())
        &&& (!before.failed() && ok && !before.room(b.len() as int) && before.written().len() + b.len()
            <= MAX_PAYLOAD_SIZE ==> self.fault() == block_too_large_msg())
    }

    /// An empty payload with no open block.
    pub fn new() -> (r: Self)
        ensures
            r.wf(),
            r.written() == Seq::<u8>::empty(),
            r.open_block() is None,
            !r.failed(),
    {
        ConfigWriter { buf: Vec::new(), active_block_body_start: None, error: None }
    }

    /// The bytes written so far.
    pub fn as_bytes(&self) -> (r: &[u8])
        ensures
            r@ == self.written(),
    {
        self.buf.as_slice()
    }

    /// Whether a write has failed.
    pub fn has_failed(&self) -> (r: bool)
        ensures
            r == self.failed(),
    {
        self.error.is_some()
    }

    /// Record a failure unless one is recorded already.
    pub fn fail(&mut self, message: &str)
        requires
            old(self).wf(),
        ensures
            final(self).wf(),
            final(self).written() == old(self).written(),
            final(self).open_block() == old(self).open_block(),
            final(self).failed(),
            final(self).fault() == (if old(self).failed() {
                old(self).fault()
            } else {
                message@
            }),
    {
        if self.error.is_none() {
            self.error = Some(SharedConfigError::new(message));
        }
    }

    /// Check room for `additional` bytes, failing with the reason when there is none.
    fn reserve_for(&mut self, additional: usize) -> (r: bool)
        requires
            old(self).wf(),
        ensures
            final(self).wf(),
            final(self).written() == old(self).written(),
            final(self).open_block() == old(self).open_block(),
            r == (!old(self).failed() && old(self).room(additional as int)),
            r ==> !final(self).failed(),
            !r ==> final(self).failed(),
            !r && !old(self).failed() ==> final(self).fault() == old(self).room_fault(
                additional as int,
            ),
            old(self).failed() ==> final(self).fault() == old(self).fault(),
    {
        if self.error.is_some() {
            return false;
        }
        let next_len = match self.buf.len().checked_add(additional) {
            Some(n) => n,
            None => {
                self.fail("shared config payload size overflow");
                return false;
            },
        };
        if next_len > MAX_PAYLOAD_SIZE {
            self.fail("shared config payload too large");
            return false;
        }
        match self.active_block_body_start {
            Some(start) => {
                if next_len - start > MAX_BLOCK_SIZE as usize {
                    self.fail("shared config block too large");
                    return false;
                }
            },
            None => {},
        }
        true
    }

    /// Append raw bytes.
    pub fn write_bytes(&mut self, b: &[u8])
        requires
            old(self).wf(),
        ensures
            final(self).wf(),
            final(self).wrote(old(self), b@),
    {
        if self.reserve_for(b.len()) {
            push_bytes(&mut self.buf, b);
        }
    }

    /// Append one byte.
    pub fn write_u8(&mut self, v: u8)
        requires
            old(self).wf(),
        ensures
            final(self).wf(),
            final(self).wrote(old(self), seq![v]),
    {
        if self.reserve_for(1) {
            let ghost before = self.buf@;
            self.buf.push(v);
            assert(self.buf@ =~= before + seq![v]);
        }
    }

    /// Append a flag as `1` or `0`.
    pub fn write_bool(&mut self, v: bool)
        requires
            old(self).wf(),
        ensures
            final(self).wf(),
            final(self).wrote(old(self), seq![bool_byte(v)]),
    {
        proof {
            reveal(bool_byte);
            reveal(flag_bytes);
        }
        self.write_u8(if v {
            1
        } else {
            0
        });
    }

    /// Append a little-endian `u16`.
    pub fn write_u16(&mut self, v: u16)
        requires
            old(self).wf(),
        ensures
            final(self).wf(),
            final(self).wrote(old(self), le_u16(v)),
    {
        if self.reserve_for(2) {
            push_u16_le(&mut self.buf, v);
        }
    }

    /// Append a little-endian `u32`.
    pub fn write_u32(&mut self, v: u32)
        requires
            old(self).wf(),
        ensures
            final(self).wf(),
            final(self).wrote(old(self), le_u32(v)),
    {
        if self.reserve_for(4) {
            push_u32_le(&mut self.buf, v);
        }
    }

    /// Append a little-endian two's-complement `i32`.
    pub fn write_i32(&mut self, v: i32)
        requires
            old(self).wf(),
        ensures
            final(self).wf(),
            final(self).wrote(old(self), le_u32(v as u32)),
    {
        self.write_u32(v as u32);
    }

    /// Append a little-endian `u64`.
    pub fn write_u64(&mut self, v: u64)
        requires
            old(self).wf(),
        ensures
            final(self).wf(),
            final(self).wrote(old(self), le_u64(v)),
    {
        if self.reserve_for(8) {
            push_u64_le(&mut self.buf, v);
        }
    }

    /// Append a `StringX`: the count of UTF-16 units, then the units.
    pub fn write_string_x(&mut self, s: &str)
        requires
            old(self).wf(),
        ensures
            final(self).wf(),
            final(self).wrote_all(old(self), string_fits(s@), string_x_bytes(s@)),
            !old(self).failed() && !string_fits(s@) ==> final(self).fault()
                == string_too_long_msg(),
    {
        let units = encode_utf16(s);
        let len = units.len();
        if len > MAX_STRING_LEN as usize {
            self.fail("shared config string too long");
            return;
        }
        let ghost w0 = *self;
        self.write_i32(len as i32);
        proof {
            assert((len as i32) as u32 == len as u32);
            lemma_units_bytes_len(units@);
        }
        if !self.reserve_for(len * 2) {
            return;
        }
        let ghost start = self.buf@;
        let mut i: usize = 0;
        proof {
            assert(units@.take(0) =~= Seq::<u16>::empty());
            assert(start + units_bytes(units@.take(0)) =~= start);
        }
        while i < len
            invariant
                0 <= i <= len,
                len == units@.len(),
                len <= MAX_STRING_LEN,
                start.len() + 2 * len <= MAX_PAYLOAD_SIZE,
                self.active_block_body_start == w0.active_block_body_start,
                self.active_block_body_start matches Some(s) ==> s <= start.len() && start.len()
                    + 2 * len - s <= MAX_BLOCK_SIZE,
                self.error is None,
                self.buf@ == start + units_bytes(units@.take(i as int)),
                self.buf@.len() == start.len() + 2 * i,
            decreases len - i,
        {
            push_u16_le(&mut self.buf, units[i]);
            proof {
                assert(units@.take(i + 1).drop_last() =~= units@.take(i as int));
                assert(self.buf@ =~= start + units_bytes(units@.take(i + 1)));
            }
            i = i + 1;
        }
        proof {
            assert(units@.take(len as int) =~= units@);
            assert(self.buf@ =~= w0.buf@ + string_x_bytes(s@));
        }
    }

    /// Append a string list: the count, then each `StringX`.
    pub fn write_string_list_x(&mut self, list: &[String])
        requires
            old(self).wf(),
        ensures
            final(self).wf(),
            final(self).wrote_all(
                old(self),
                string_list_fits(texts_of(list@)),
                string_list_x_bytes(texts_of(list@)),
            ),
            !old(self).failed() && list@.len() > MAX_LIST_COUNT ==> final(self).fault()
                == list_too_long_msg(),
    {
        let ghost v = texts_of(list@);
        if list.len() > MAX_LIST_COUNT as usize {
            self.fail("shared config list too long");
            return;
        }
        let ghost w0 = *self;
        self.write_i32(list.len() as i32);
        proof {
            assert((list.len() as i32) as u32 == list.len() as u32);
            lemma_strings_bytes_len_take(v, v.len() as int);
            assert(v.take(v.len() as int) =~= v);
        }
        let mut i: usize = 0;
        proof {
            assert(v.take(0) =~= Seq::<Seq<char>>::empty());
        }
        while i < list.len()
            invariant
                0 <= i <= list@.len(),
                v == texts_of(list@),
                list@.len() <= MAX_LIST_COUNT,
                self.wf(),
                self.open_block() == w0.open_block(),
                !self.failed() ==> !w0.failed() && self.written() == w0.written() + count_bytes(
                    v.len(),
                ) + strings_bytes(v.take(i as int)),
                !self.failed() ==> strings_fit(v.take(i as int)),
                self.failed() ==> !(!w0.failed() && string_list_fits(v) && w0.room(
                    string_list_x_bytes(v).len() as int,
                )),
                w0.failed() ==> self.failed() && self.fault() == w0.fault(),
                self.failed() && !w0.failed() && string_list_fits(v) && w0.written().len()
                    + string_list_x_bytes(v).len() <= MAX_PAYLOAD_SIZE ==> self.fault() == block_too_large_msg(),
            decreases list@.len() - i,
        {
            let ghost w1 = *self;
            proof {
                lemma_strings_bytes_len_take(v, i + 1);
                assert(v.take(i + 1).drop_last() =~= v.take(i as int));
                assert(v[i as int] == list@[i as int]@);
            }
            self.write_string_x(list[i].as_str());
            proof {
                if !self.failed() {
                    assert(self.written() =~= w0.written() + count_bytes(v.len()) + strings_bytes(
                        v.take(i + 1),
                    ));
                    assert forall|k: int| 0 <= k < i + 1 implies string_fits(
                        #[trigger] v.take(i + 1)[k],
                    ) by {
                        if k < i {
                            assert(v.take(i + 1)[k] == v.take(i as int)[k]);
                        }
                    }
                }
                if self.failed() && !w1.failed() && !w0.failed() && string_list_fits(v) {
                    assert(string_fits(v[i as int]));
                }
            }
            i = i + 1;
        }
        proof {
            assert(v.take(list@.len() as int) =~= v);
            if !self.failed() {
                assert(self.written() =~= w0.written() + string_list_x_bytes(v));
                assert(strings_fit(v));
                assert(w0.room(string_list_x_bytes(v).len() as int));
            }
        }
    }

    /// Append flags, one byte each.
    pub fn write_bool_array(&mut self, arr: &[bool])
        requires
            old(self).wf(),
        ensures
            final(self).wf(),
            final(self).wrote_all(old(self), true, bools_bytes(arr@)),
    {
        let ghost w0 = *self;
        let mut i: usize = 0;
        while i < arr.len()
            invariant
                0 <= i <= arr@.len(),
                self.wf(),
                self.open_block() == w0.open_block(),
                !self.failed() ==> !w0.failed() && self.written() == w0.written() + bools_bytes(
                    arr@.take(i as int),
                ),
                self.failed() ==> !(!w0.failed() && w0.room(arr@.len() as int)),
                w0.failed() ==> self.failed() && self.fault() == w0.fault(),
                self.failed() && !w0.failed() && w0.written().len() + arr@.len() <= MAX_PAYLOAD_SIZE
                    ==> self.fault() == block_too_large_msg(),
            decreases arr@.len() - i,
        {
            self.write_bool(arr[i]);
            proof {
                if !self.failed() {
                    assert(self.written() =~= w0.written() + bools_bytes(arr@.take(i + 1)));
                }
            }
            i = i + 1;
        }
        proof {
            assert(arr@.take(arr@.len() as int) =~= arr@);
        }
    }

    /// Append bytes.
    pub fn write_u8_array(&mut self, arr: &[u8])
        requires
            old(self).wf(),
        ensures
            final(self).wf(),
            final(self).wrote(old(self), arr@),
    {
        self.write_bytes(arr);
    }

    /// Append little-endian `u16` values, one write each.
    pub fn write_u16_array(&mut self, arr: &[u16])
        requires
            old(self).wf(),
        ensures
            final(self).wf(),
            final(self).wrote_all(old(self), true, units_bytes(arr@)),
    {
        let ghost w0 = *self;
        let mut i: usize = 0;
        proof {
            lemma_units_bytes_len(arr@);
        }
        while i < arr.len()
            invariant
                0 <= i <= arr@.len(),
                units_bytes(arr@).len() == 2 * arr@.len(),
                self.wf(),
                self.open_block() == w0.open_block(),
                !self.failed() ==> !w0.failed() && self.written() == w0.written() + units_bytes(
                    arr@.take(i as int),
                ),
                self.failed() ==> !(!w0.failed() && w0.room(2 * arr@.len() as int)),
                w0.failed() ==> self.failed() && self.fault() == w0.fault(),
                self.failed() && !w0.failed() && w0.written().len() + 2 * arr@.len() <= MAX_PAYLOAD_SIZE
                    ==> self.fault() == block_too_large_msg(),
            decreases arr@.len() - i,
        {
            proof {
                assert(arr@.take(i + 1).drop_last() =~= arr@.take(i as int));
                lemma_units_bytes_len(arr@.take(i as int));
            }
            self.write_u16(arr[i]);
            proof {
                if !self.failed() {
                    assert(self.written() =~= w0.written() + units_bytes(arr@.take(i + 1)));
                }
            }
            i = i + 1;
        }
        proof {
            assert(arr@.take(arr@.len() as int) =~= arr@);
        }
    }

    /// Append little-endian `u32` values, one write each.
    pub fn write_u32_array(&mut self, arr: &[u32])
        requires
            old(self).wf(),
        ensures
            final(self).wf(),
            final(self).wrote_all(old(self), true, u32s_bytes(arr@)),
    {
        let ghost w0 = *self;
        let mut i: usize = 0;
        proof {
            lemma_u32s_bytes_len(arr@);
        }
        while i < arr.len()
            invariant
                0 <= i <= arr@.len(),
                u32s_bytes(arr@).len() == 4 * arr@.len(),
                self.wf(),
                self.open_block() == w0.open_block(),
                !self.failed() ==> !w0.failed() && self.written() == w0.written() + u32s_bytes(
                    arr@.take(i as int),
                ),
                self.failed() ==> !(!w0.failed() && w0.room(4 * arr@.len() as int)),
                w0.failed() ==> self.failed() && self.fault() == w0.fault(),
                self.failed() && !w0.failed() && w0.written().len() + 4 * arr@.len() <= MAX_PAYLOAD_SIZE
                    ==> self.fault() == block_too_large_msg(),
            decreases arr@.len() - i,
        {
            proof {
                assert(arr@.take(i + 1).drop_last() =~= arr@.take(i as int));
                lemma_u32s_bytes_len(arr@.take(i as int));
            }
            self.write_u32(arr[i]);
            proof {
                if !self.failed() {
                    assert(self.written() =~= w0.written() + u32s_bytes(arr@.take(i + 1)));
                }
            }
            i = i + 1;
        }
        proof {
            assert(arr@.take(arr@.len() as int) =~= arr@);
        }
    }

    /// Append little-endian `u64` values, one write each.
    pub fn write_u64_array(&mut self, arr: &[u64])
        requires
            old(self).wf(),
        ensures
            final(self).wf(),
            final(self).wrote_all(old(self), true, u64s_bytes(arr@)),
    {
        let ghost w0 = *self;
        let mut i: usize = 0;
        proof {
            lemma_u64s_bytes_len(arr@);
        }
        while i < arr.len()
            invariant
                0 <= i <= arr@.len(),
                u64s_bytes(arr@).len() == 8 * arr@.len(),
                self.wf(),
                self.open_block() == w0.open_block(),
                !self.failed() ==> !w0.failed() && self.written() == w0.written() + u64s_bytes(
                    arr@.take(i as int),
                ),
                self.failed() ==> !(!w0.failed() && w0.room(8 * arr@.len() as int)),
                w0.failed() ==> self.failed() && self.fault() == w0.fault(),
                self.failed() && !w0.failed() && w0.written().len() + 8 * arr@.len() <= MAX_PAYLOAD_SIZE
                    ==> self.fault() == block_too_large_msg(),
            decreases arr@.len() - i,
        {
            proof {
                assert(arr@.take(i + 1).drop_last() =~= arr@.take(i as int));
                lemma_u64s_bytes_len(arr@.take(i as int));
            }
            self.write_u64(arr[i]);
            proof {
                if !self.failed() {
                    assert(self.written() =~= w0.written() + u64s_bytes(arr@.take(i + 1)));
                }
            }
            i = i + 1;
        }
        proof {
            assert(arr@.take(arr@.len() as int) =~= arr@);
        }
    }

    /// The payload, or the first failure.
    pub fn finish(self) -> (r: Result<Vec<u8>, SharedConfigError>)
        ensures
            match r {
                Ok(b) => !self.failed() && b@ == self.written(),
                Err(e) => self.failed() && e@ == self.fault(),
            },
    {
        match self.error {
            Some(e) => Err(e),
            None => Ok(self.buf),
        }
    }
}

/// What a multi-step write gives: appended when nothing failed, failed
/// exactly when something was already failed, `ok` is false or there is no room.
pub proof fn lemma_wrote_all_meaning(before: ConfigWriter, after: ConfigWriter, ok: bool, b: Seq<u8>)
    requires
        after.wrote_all(&before, ok, b),
    ensures
        after.wf(),
        after.open_block() == before.open_block(),
        !after.failed() <==> (!before.failed() && ok && before.room(b.len() as int)),
        !after.failed() ==> after.written() == before.written() + b,
        before.failed() ==> after.fault() == before.fault(),
        !before.failed() && ok && !before.room(b.len() as int) && before.written().len() + b.len()
            <= MAX_PAYLOAD_SIZE ==> after.fault() == block_too_large_msg(),
{
}

/// Nothing asked, nothing written.
pub proof fn lemma_wrote_all_empty(w: ConfigWriter)
    requires
        w.wf(),
    ensures
        w.wrote_all(&w, true, Seq::empty()),
{
    assert(w.written() + Seq::<u8>::empty() =~= w.written());
}

/// A failed writer has written nothing that a refused request could need.
pub proof fn lemma_wrote_all_failed(before: ConfigWriter, after: ConfigWriter, b: Seq<u8>)
    requires
        after.wf(),
        after.failed(),
        after.open_block() == before.open_block(),
        before.failed() ==> after.fault() == before.fault(),
    ensures
        after.wrote_all(&before, false, b),
{
}

/// A one-step write is a write that asks for nothing more.
pub proof fn lemma_wrote_all_of_wrote(before: ConfigWriter, after: ConfigWriter, b: Seq<u8>)
    requires
        after.wrote(&before, b),
    ensures
        after.wrote_all(&before, true, b),
{
}

/// Two writes in a row write the two byte strings one after the other.
pub proof fn lemma_wrote_all_then(
    w0: ConfigWriter,
    w1: ConfigWriter,
    w2: ConfigWriter,
    ok1: bool,
    b1: Seq<u8>,
    ok2: bool,
    b2: Seq<u8>,
)
    requires
        w1.wrote_all(&w0, ok1, b1),
        w2.wrote_all(&w1, ok2, b2),
    ensures
        w2.wrote_all(&w0, ok1 && ok2, b1 + b2),
{
    if !w2.failed() {
        assert(w2.written() =~= w0.written() + (b1 + b2));
    }
}

/// A block written as its kind, a size placeholder, a body `b` that asked for
/// `ok`, and the size filled in: the whole block written in one go, possible
/// when `ok` holds and the body fits a block.
pub proof fn lemma_block_written(
    w0: ConfigWriter,
    w1: ConfigWriter,
    w2: ConfigWriter,
    w3: ConfigWriter,
    kind: u8,
    size_pos: usize,
    ok: bool,
    b: Seq<u8>,
)
    requires
        w0.wf(),
        w0.open_block() is None,
        w1.wf(),
        !w0.failed() && w0.room(5) ==> !w1.failed() && w1.written() == w0.written() + seq![kind] + le_u32(0) && size_pos
            == w0.written().len() + 1 && w1.open_block() == Some((size_pos + 4) as usize),
        !(!w0.failed() && w0.room(5)) ==> w1.failed() && w1.open_block() == w0.open_block(),
        w0.failed() ==> w1.written() == w0.written() && w1.fault() == w0.fault(),
        w2.wrote_all(&w1, ok, b),
        w3.wf(),
        w3.open_block() is None,
        w2.failed() ==> w3.failed() && w3.written() == w2.written() && w3.fault() == w2.fault(),
        !w2.failed() && w2.written().len() - (size_pos + 4) <= MAX_BLOCK_SIZE ==> !w3.failed() && w3.written() == patched(
            w2.written(),
            size_pos as int,
            (w2.written().len() - (size_pos + 4)) as u32,
        ),
        !w2.failed() && w2.written().len() - (size_pos + 4) > MAX_BLOCK_SIZE ==> w3.failed() && w3.written() == w2.written(),
    ensures
        w3.wrote_all(&w0, ok && b.len() <= MAX_BLOCK_SIZE, seq![kind] + le_u32(b.len() as u32) + b),
        !w0.failed() && ok && b.len() > MAX_BLOCK_SIZE && w0.written().len() + 5 + b.len() <= MAX_PAYLOAD_SIZE
            ==> w3.failed() && w3.fault() == block_too_large_msg(),
{
    if !w3.failed() {
        let x = w0.written();
        assert(w2.written() == x + seq![kind] + le_u32(0) + b);
        assert(w3.written() =~= x + (seq![kind] + le_u32(b.len() as u32) + b));
    }
}

/// Start a block of `kind`: its kind byte, then a placeholder for the body size.
/// Gives the position of the size field; the block is open when nothing failed.
pub fn begin_block(w: &mut ConfigWriter, kind: u8) -> (r: usize)
    requires
        old(w).wf(),
    ensures
        final(w).wf(),
        !old(w).failed() && old(w).room(5) ==> !final(w).failed() && final(w).written() == old(w).written() + seq![kind] + le_u32(0) && r == old(w).written().len() + 1 && final(w).open_block() == Some((r + 4) as usize),
        !(!old(w).failed() && old(w).room(5)) ==> final(w).failed() && final(w).open_block() == old(w).open_block(),
        old(w).failed() ==> final(w).written() == old(w).written() && final(w).fault() == old(w).fault(),
{
    w.write_u8(kind);
    let size_pos = w.buf.len();
    w.write_u32(0);
    if w.error.is_none() {
        w.active_block_body_start = Some(size_pos + 4);
    }
    proof {
        if !w.failed() {
            assert(w.written() =~= old(w).written() + seq![kind] + le_u32(0));
        }
    }
    size_pos
}

/// The payload with the four bytes at `pos` replaced by `v` little-endian.
pub open spec fn patched(b: Seq<u8>, pos: int, v: u32) -> Seq<u8> {
    b.subrange(0, pos) + le_u32(v) + b.subrange(pos + 4, b.len() as int)
}

/// Close the open block: fill in its body size, or fail when the body is too large.
pub fn end_block(w: &mut ConfigWriter, size_pos: usize)
    requires
        old(w).wf(),
        !old(w).failed() ==> size_pos + 4 <= old(w).written().len(),
    ensures
        final(w).wf(),
        final(w).open_block() is None,
        old(w).failed() ==> final(w).failed() && final(w).written() == old(w).written() && final(w).fault() == old(w).fault(),
        !old(w).failed() && old(w).written().len() - (size_pos + 4) <= MAX_BLOCK_SIZE ==> !final(w).failed() && final(w).written() == patched(
            old(w).written(),
            size_pos as int,
            (old(w).written().len() - (size_pos + 4)) as u32,
        ),
        !old(w).failed() && old(w).written().len() - (size_pos + 4) > MAX_BLOCK_SIZE ==> final(w).failed() && final(w).fault() == block_too_large_msg() && final(w).written() == old(w).written(),
{
    w.active_block_body_start = None;
    if w.error.is_some() {
        return;
    }
    let body_start = size_pos + 4;
    let body_size = w.buf.len() - body_start;
    if body_size > MAX_BLOCK_SIZE as usize {
        w.fail("shared config block too large");
        return;
    }
    let size = body_size as u32;
    w.buf.set(size_pos, (size % 256) as u8);
    w.buf.set(size_pos + 1, ((size / 0x100) % 256) as u8);
    w.buf.set(size_pos + 2, ((size / 0x1_0000) % 256) as u8);
    w.buf.set(size_pos + 3, (size / 0x100_0000) as u8);
    proof {
        reveal(le_u32);
        assert(w.buf@ =~= patched(old(w).written(), size_pos as int, size));
    }
}

} // verus!
