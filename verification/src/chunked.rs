//! Collector for chunked Engine API responses.
//!
//! Each fragment is `[chunk_index:u16][chunk_total:u16][payload]`. Fragments
//! may arrive in any order; when every slot of the announced table is filled
//! the payloads are joined in index order.

use crate::le::{read_u16_le, u16_from_le};
use vstd::prelude::*;

verus! {

/// Cap on the joined payload of one chunked candles response.
pub const MAX_REQUEST_CANDLES_CHUNKED_PAYLOAD_BYTES: usize = 16 * 1024 * 1024;

/// Result of accepting one fragment.
#[derive(Debug, PartialEq, Eq)]
pub enum ChunkedResponseResult {
    /// Malformed, duplicate, out-of-range or over-cap fragment.
    Ignored,
    /// A new fragment filled an empty slot; more are missing.
    Stored,
    /// The last missing fragment arrived: all payloads joined in index order.
    Complete(Vec<u8>),
}

/// Outcome of one fragment in the collector's model.
pub enum ChunkOutcome {
    Ignored,
    Stored,
    Complete(Seq<u8>),
}

/// Number of filled slots.
pub open spec fn filled_count(s: Seq<Option<Seq<u8>>>) -> nat
    decreases s.len(),
{
    if s.len() == 0 {
        0
    } else {
        filled_count(s.drop_last()) + if s.last() is Some { 1nat } else { 0nat }
    }
}

/// Total payload bytes of the filled slots.
pub open spec fn filled_bytes(s: Seq<Option<Seq<u8>>>) -> nat
    decreases s.len(),
{
    if s.len() == 0 {
        0
    } else {
        filled_bytes(s.drop_last()) + match s.last() {
            Some(p) => p.len(),
            None => 0,
        }
    }
}

/// Payloads of the filled slots joined in index order.
pub open spec fn joined(s: Seq<Option<Seq<u8>>>) -> Seq<u8>
    decreases s.len(),
{
    if s.len() == 0 {
        Seq::empty()
    } else {
        joined(s.drop_last()) + match s.last() {
            Some(p) => p,
            None => Seq::empty(),
        }
    }
}

/// An empty table of `n` slots.
pub open spec fn empty_table(n: nat) -> Seq<Option<Seq<u8>>> {
    Seq::new(n, |i: int| None::<Seq<u8>>)
}

/// The collector's state after a fragment and the reported outcome.
pub open spec fn chunk_step(slots: Seq<Option<Seq<u8>>>, max: nat, data: Seq<u8>) -> (
    Seq<Option<Seq<u8>>>,
    ChunkOutcome,
) {
    if data.len() < 4 {
        (slots, ChunkOutcome::Ignored)
    } else {
        let index = u16_from_le(data.subrange(0, 2)) as int;
        let total = u16_from_le(data.subrange(2, 4)) as nat;
        let payload = data.skip(4);
        if total == 0 {
            (slots, ChunkOutcome::Ignored)
        } else {
            let table = if slots.len() == total {
                slots
            } else {
                empty_table(total)
            };
            if index >= total || table[index] is Some {
                (table, ChunkOutcome::Ignored)
            } else if filled_bytes(table) + payload.len() > max {
                (Seq::empty(), ChunkOutcome::Ignored)
            } else {
                let next = table.update(index, Some(payload));
                if filled_count(next) == total {
                    (Seq::empty(), ChunkOutcome::Complete(joined(next)))
                } else {
                    (next, ChunkOutcome::Stored)
                }
            }
        }
    }
}

/// Filling an empty slot adds one to the count and the payload to the bytes.
proof fn lemma_fill_slot(s: Seq<Option<Seq<u8>>>, i: int, p: Seq<u8>)
    requires
        0 <= i < s.len(),
        s[i] is None,
    ensures
        filled_count(s.update(i, Some(p))) == filled_count(s) + 1,
        filled_bytes(s.update(i, Some(p))) == filled_bytes(s) + p.len(),
    decreases s.len(),
{
    let t = s.update(i, Some(p));
    if i == s.len() - 1 {
        assert(t.drop_last() =~= s.drop_last());
    } else {
        assert(t.drop_last() =~= s.drop_last().update(i, Some(p)));
        lemma_fill_slot(s.drop_last(), i, p);
    }
}

/// Count and bytes of a table never exceed its size / are zero when it is empty.
proof fn lemma_empty_table(n: nat)
    ensures
        filled_count(empty_table(n)) == 0,
        filled_bytes(empty_table(n)) == 0,
    decreases n,
{
    if n > 0 {
        assert(empty_table(n).drop_last() =~= empty_table((n - 1) as nat));
        lemma_empty_table((n - 1) as nat);
    }
}

/// The count of filled slots is at most the number of slots.
proof fn lemma_count_bound(s: Seq<Option<Seq<u8>>>)
    ensures
        filled_count(s) <= s.len(),
    decreases s.len(),
{
    if s.len() > 0 {
        lemma_count_bound(s.drop_last());
    }
}

/// Collector for one chunked response.
#[derive(Debug)]
pub struct ChunkedResponseAggregator {
    chunks: Vec<Option<Vec<u8>>>,
    received: usize,
    total: usize,
    payload_bytes: usize,
    max_payload_bytes: usize,
    operation: &'static str,
}

/// View of one slot.
pub open spec fn slot_view(o: Option<Vec<u8>>) -> Option<Seq<u8>> {
    match o {
        Some(v) => Some(v@),
        None => None,
    }
}

impl ChunkedResponseAggregator {
    /// The slots of the current table.
    pub closed spec fn slots(&self) -> Seq<Option<Seq<u8>>> {
        self.chunks@.map_values(|o: Option<Vec<u8>>| slot_view(o))
    }

    /// Cap on the joined payload.
    pub closed spec fn max(&self) -> nat {
        self.max_payload_bytes as nat
    }

    /// The counters agree with the slot table.
    pub closed spec fn wf(&self) -> bool {
        &&& self.chunks@.len() == self.total
        &&& self.received == filled_count(self.slots())
        &&& self.payload_bytes == filled_bytes(self.slots())
        &&& self.payload_bytes <= self.max_payload_bytes
    }

    /// An empty collector whose joined payload may not exceed `max_payload_bytes`.
    pub fn new(operation: &'static str, max_payload_bytes: usize) -> (r: Self)
        ensures
            r.wf(),
            r.slots() == Seq::<Option<Seq<u8>>>::empty(),
            r.max() == max_payload_bytes,
    {
        let r = ChunkedResponseAggregator {
            chunks: Vec::new(),
            received: 0,
            total: 0,
            payload_bytes: 0,
            max_payload_bytes,
            operation,
        };
        assert(r.slots() =~= Seq::<Option<Seq<u8>>>::empty());
        r
    }

    /// Accept one fragment.
    pub fn on_chunk(&mut self, response_data: &[u8]) -> (r: ChunkedResponseResult)
        requires
            old(self).wf(),
        ensures
            final(self).wf(),
            final(self).max() == old(self).max(),
            final(self).slots() == chunk_step(old(self).slots(), old(self).max(), response_data@).0,
            match chunk_step(old(self).slots(), old(self).max(), response_data@).1 {
                ChunkOutcome::Ignored => r is Ignored,
                ChunkOutcome::Stored => r is Stored,
                ChunkOutcome::Complete(m) => r matches ChunkedResponseResult::Complete(v) && v@ == m,
            },
    {
        if response_data.len() < 4 {
            return ChunkedResponseResult::Ignored;
        }
        let chunk_index = read_u16_le(response_data[0], response_data[1]) as usize;
        let chunk_total = read_u16_le(response_data[2], response_data[3]) as usize;
        proof {
            assert(response_data@.subrange(0, 2) =~= seq![response_data@[0], response_data@[1]]);
            assert(response_data@.subrange(2, 4) =~= seq![response_data@[2], response_data@[3]]);
        }
        let ghost payload = response_data@.skip(4);
        if chunk_total == 0 {
            return ChunkedResponseResult::Ignored;
        }
        if self.total != chunk_total {
            let mut chunks: Vec<Option<Vec<u8>>> = Vec::new();
            let mut i: usize = 0;
            while i < chunk_total
                invariant
                    0 <= i <= chunk_total,
                    chunks@.len() == i,
                    forall|j: int| 0 <= j < i ==> chunks@[j] is None,
                decreases chunk_total - i,
            {
                chunks.push(None);
                i = i + 1;
            }
            self.chunks = chunks;
            self.received = 0;
            self.total = chunk_total;
            self.payload_bytes = 0;
            proof {
                assert(self.slots() =~= empty_table(chunk_total as nat));
                lemma_empty_table(chunk_total as nat);
            }
        }
        let ghost table = self.slots();
        if chunk_index >= chunk_total || self.chunks[chunk_index].is_some() {
            return ChunkedResponseResult::Ignored;
        }
        let payload_len = response_data.len() - 4;
        if payload_len > self.max_payload_bytes - self.payload_bytes {
            self.reset();
            return ChunkedResponseResult::Ignored;
        }
        let mut owned: Vec<u8> = Vec::new();
        let mut k: usize = 4;
        while k < response_data.len()
            invariant
                4 <= k <= response_data@.len(),
                owned@ == response_data@.subrange(4, k as int),
            decreases response_data@.len() - k,
        {
            owned.push(response_data[k]);
            k = k + 1;
            assert(owned@ =~= response_data@.subrange(4, k as int));
        }
        proof {
            assert(owned@ =~= payload);
            lemma_fill_slot(table, chunk_index as int, payload);
            lemma_count_bound(table.update(chunk_index as int, Some(payload)));
        }
        self.chunks.set(chunk_index, Some(owned));
        self.payload_bytes = self.payload_bytes + payload_len;
        self.received = self.received + 1;
        proof {
            assert(self.slots() =~= table.update(chunk_index as int, Some(payload)));
        }
        if self.received != self.total {
            return ChunkedResponseResult::Stored;
        }
        let ghost full = self.slots();
        let mut merged: Vec<u8> = Vec::new();
        let mut j: usize = 0;
        while j < self.chunks.len()
            invariant
                0 <= j <= self.chunks@.len(),
                full == self.chunks@.map_values(|o: Option<Vec<u8>>| slot_view(o)),
                merged@ == joined(full.take(j as int)),
            decreases self.chunks@.len() - j,
        {
            proof {
                assert(full.take(j + 1).drop_last() =~= full.take(j as int));
            }
            match &self.chunks[j] {
                Some(c) => crate::le::push_bytes(&mut merged, c.as_slice()),
                None => {},
            }
            j = j + 1;
        }
        proof {
            assert(full.take(j as int) =~= full);
        }
        self.reset();
        ChunkedResponseResult::Complete(merged)
    }

    /// Drop the table and all counters.
    pub fn reset(&mut self)
        ensures
            final(self).wf(),
            final(self).slots() == Seq::<Option<Seq<u8>>>::empty(),
            final(self).max() == old(self).max(),
    {
        self.chunks = Vec::new();
        self.reset_counters();
        assert(self.slots() =~= Seq::<Option<Seq<u8>>>::empty());
    }

    /// Filled slots and table size.
    pub fn progress(&self) -> (r: (usize, usize))
        requires
            self.wf(),
        ensures
            r.0 == filled_count(self.slots()),
            r.1 == self.slots().len(),
    {
        (self.received, self.total)
    }

    fn reset_counters(&mut self)
        ensures
            final(self).received == 0,
            final(self).total == 0,
            final(self).payload_bytes == 0,
            final(self).chunks == old(self).chunks,
            final(self).max_payload_bytes == old(self).max_payload_bytes,
    {
        self.received = 0;
        self.total = 0;
        self.payload_bytes = 0;
    }
}

/// Aggregator for the chunked candles response.
///
/// Each chunk has the header `ChunkIndex:u16 + ChunkTotal:u16`, followed by
/// the data payload. Keep a separate aggregator per request uid. The joined
/// payload is capped before chunks are copied.
#[derive(Debug)]
pub struct CandlesAggregator(ChunkedResponseAggregator);

impl CandlesAggregator {
    /// The collector inside.
    pub closed spec fn inner(&self) -> ChunkedResponseAggregator {
        self.0
    }

    /// An empty aggregator with the candles payload cap.
    pub fn new() -> (r: Self)
        ensures
            r.inner().wf(),
            r.inner().slots() == Seq::<Option<Seq<u8>>>::empty(),
            r.inner().max() == MAX_REQUEST_CANDLES_CHUNKED_PAYLOAD_BYTES,
    {
        CandlesAggregator(
            ChunkedResponseAggregator::new(
                "RequestCandlesData",
                MAX_REQUEST_CANDLES_CHUNKED_PAYLOAD_BYTES,
            ),
        )
    }

    /// An empty aggregator with a custom payload cap.
    pub fn with_max_payload_bytes(max_payload_bytes: usize) -> (r: Self)
        ensures
            r.inner().wf(),
            r.inner().slots() == Seq::<Option<Seq<u8>>>::empty(),
            r.inner().max() == max_payload_bytes,
    {
        CandlesAggregator(ChunkedResponseAggregator::new("RequestCandlesData", max_payload_bytes))
    }

    /// Add a chunk. If all chunks are assembled, return the concatenated buffer
    /// and reset state.
    pub fn on_chunk(&mut self, response_data: &[u8]) -> (r: Option<Vec<u8>>)
        requires
            old(self).inner().wf(),
        ensures
            final(self).inner().wf(),
            final(self).inner().max() == old(self).inner().max(),
            final(self).inner().slots() == chunk_step(
                old(self).inner().slots(),
                old(self).inner().max(),
                response_data@,
            ).0,
            match chunk_step(old(self).inner().slots(), old(self).inner().max(), response_data@).1 {
                ChunkOutcome::Complete(m) => r matches Some(v) && v@ == m,
                _ => r is None,
            },
    {
        match self.on_chunk_result(response_data) {
            ChunkedResponseResult::Complete(merged) => Some(merged),
            ChunkedResponseResult::Ignored | ChunkedResponseResult::Stored => None,
        }
    }

    /// Add a chunk and return the exact processing status.
    pub fn on_chunk_result(&mut self, response_data: &[u8]) -> (r: ChunkedResponseResult)
        requires
            old(self).inner().wf(),
        ensures
            final(self).inner().wf(),
            final(self).inner().max() == old(self).inner().max(),
            final(self).inner().slots() == chunk_step(
                old(self).inner().slots(),
                old(self).inner().max(),
                response_data@,
            ).0,
            match chunk_step(old(self).inner().slots(), old(self).inner().max(), response_data@).1 {
                ChunkOutcome::Ignored => r is Ignored,
                ChunkOutcome::Stored => r is Stored,
                ChunkOutcome::Complete(m) => r matches ChunkedResponseResult::Complete(v) && v@ == m,
            },
    {
        self.0.on_chunk(response_data)
    }

    /// Reset state (on a new candles request).
    pub fn reset(&mut self)
        ensures
            final(self).inner().wf(),
            final(self).inner().slots() == Seq::<Option<Seq<u8>>>::empty(),
            final(self).inner().max() == old(self).inner().max(),
    {
        self.0.reset();
    }

    /// Received and announced chunk counts.
    pub fn progress(&self) -> (r: (usize, usize))
        requires
            self.inner().wf(),
        ensures
            r.0 == filled_count(self.inner().slots()),
            r.1 == self.inner().slots().len(),
    {
        self.0.progress()
    }
}

/// The collector's slots after the fragments `frags`, from `slots`, and the
/// outcome of the last fragment (`Ignored` when there is none).
pub open spec fn feed(slots: Seq<Option<Seq<u8>>>, max: nat, frags: Seq<Seq<u8>>) -> (
    Seq<Option<Seq<u8>>>,
    ChunkOutcome,
)
    decreases frags.len(),
{
    if frags.len() == 0 {
        (slots, ChunkOutcome::Ignored)
    } else {
        chunk_step(feed(slots, max, frags.drop_last()).0, max, frags.last())
    }
}

/// Whether `data` is the fragment of slot `index` of `total` that carries `payload`.
pub open spec fn is_fragment(data: Seq<u8>, index: int, total: nat, payload: Seq<u8>) -> bool {
    &&& data.len() >= 4
    &&& u16_from_le(data.subrange(0, 2)) as int == index
    &&& u16_from_le(data.subrange(2, 4)) as nat == total
    &&& data.skip(4) == payload
}

/// The table of all slots filled with `payloads`, in index order.
pub open spec fn full_table(payloads: Seq<Seq<u8>>) -> Seq<Option<Seq<u8>>> {
    Seq::new(payloads.len(), |i: int| Some(payloads[i]))
}

/// The table with the slots named in `placed` filled from `payloads`.
pub open spec fn placed_table(payloads: Seq<Seq<u8>>, placed: Seq<int>) -> Seq<Option<Seq<u8>>> {
    Seq::new(payloads.len(), |i: int| if placed.contains(i) { Some(payloads[i]) } else { None })
}

/// A table whose filled slots agree with `t` holds no more bytes than `t`.
proof fn lemma_bytes_le(s: Seq<Option<Seq<u8>>>, t: Seq<Option<Seq<u8>>>)
    requires
        s.len() == t.len(),
        forall|i: int| 0 <= i < s.len() && (#[trigger] s[i]) is Some ==> s[i] == t[i],
    ensures
        filled_bytes(s) <= filled_bytes(t),
    decreases s.len(),
{
    if s.len() > 0 {
        let (a, b) = (s.drop_last(), t.drop_last());
        assert forall|i: int| 0 <= i < a.len() && (#[trigger] a[i]) is Some implies a[i] == b[i] by {
            assert(a[i] == s[i] && b[i] == t[i]);
        }
        lemma_bytes_le(a, b);
        assert(s.last() == s[s.len() - 1]);
    }
}

/// Fragments of every slot of a `payloads.len()`-slot table, one per slot and
/// in any order, fed to a fresh collector whose cap admits them all: each
/// but the last is stored, and the last completes the response with the
/// payloads joined in index order, leaving the collector empty.
pub proof fn law_chunks_complete_in_any_order(
    max: nat,
    payloads: Seq<Seq<u8>>,
    order: Seq<int>,
    frags: Seq<Seq<u8>>,
)
    requires
        0 < payloads.len() <= u16::MAX,
        order.len() == payloads.len(),
        forall|k: int| 0 <= k < order.len() ==> 0 <= #[trigger] order[k] < payloads.len(),
        forall|j: int, k: int| 0 <= j < k < order.len() ==> order[j] != order[k],
        frags.len() == order.len(),
        forall|k: int| 0 <= k < frags.len() ==> is_fragment(#[trigger] frags[k], order[k], payloads.len(), payloads[order[k]]),
        filled_bytes(full_table(payloads)) <= max,
    ensures
        forall|k: int| 0 < k < frags.len() ==> #[trigger] feed(Seq::empty(), max, frags.take(k)).1 is Stored,
        feed(Seq::empty(), max, frags).1 == ChunkOutcome::Complete(joined(full_table(payloads))),
        feed(Seq::empty(), max, frags).0 == Seq::<Option<Seq<u8>>>::empty(),
{
    let n = payloads.len();
    assert forall|k: int| 0 <= k <= n implies {
        &&& (0 < k < n ==> feed(Seq::empty(), max, #[trigger] frags.take(k)).0 == placed_table(payloads, order.take(k)))
        &&& filled_count(placed_table(payloads, order.take(k))) == k
        &&& (0 < k < n ==> feed(Seq::empty(), max, frags.take(k)).1 is Stored)
        &&& (k == n ==> feed(Seq::empty(), max, frags.take(k)).1 == ChunkOutcome::Complete(joined(full_table(payloads))))
        &&& (k == n ==> feed(Seq::empty(), max, frags.take(k)).0 == Seq::<Option<Seq<u8>>>::empty())
    } by {
        lemma_feed_prefix(max, payloads, order, frags, k);
    }
    assert(frags.take(n as int) =~= frags);
}

/// The state after the first `k` fragments of `law_chunks_complete_in_any_order`.
proof fn lemma_feed_prefix(max: nat, payloads: Seq<Seq<u8>>, order: Seq<int>, frags: Seq<Seq<u8>>, k: int)
    requires
        0 < payloads.len() <= u16::MAX,
        order.len() == payloads.len(),
        forall|k: int| 0 <= k < order.len() ==> 0 <= #[trigger] order[k] < payloads.len(),
        forall|j: int, k: int| 0 <= j < k < order.len() ==> order[j] != order[k],
        frags.len() == order.len(),
        forall|k: int| 0 <= k < frags.len() ==> is_fragment(#[trigger] frags[k], order[k], payloads.len(), payloads[order[k]]),
        filled_bytes(full_table(payloads)) <= max,
        0 <= k <= payloads.len(),
    ensures
        k == 0 ==> feed(Seq::empty(), max, frags.take(k)).0 == Seq::<Option<Seq<u8>>>::empty(),
        0 < k < payloads.len() ==> feed(Seq::empty(), max, frags.take(k)).0 == placed_table(payloads, order.take(k)),
        filled_count(placed_table(payloads, order.take(k))) == k,
        0 < k < payloads.len() ==> feed(Seq::empty(), max, frags.take(k)).1 is Stored,
        k == payloads.len() ==> feed(Seq::empty(), max, frags.take(k)).1 == ChunkOutcome::Complete(joined(full_table(payloads))),
        k == payloads.len() ==> feed(Seq::empty(), max, frags.take(k)).0 == Seq::<Option<Seq<u8>>>::empty(),
    decreases k,
{
    let n = payloads.len();
    let empty: Seq<Option<Seq<u8>>> = Seq::empty();
    if k == 0 {
        assert(frags.take(0) =~= Seq::<Seq<u8>>::empty());
        assert(placed_table(payloads, order.take(0)) =~= empty_table(n));
        lemma_empty_table(n);
    } else {
        lemma_feed_prefix(max, payloads, order, frags, k - 1);
        let prev = placed_table(payloads, order.take(k - 1));
        let i = order[k - 1];
        let data = frags[k - 1];
        assert(frags.take(k).drop_last() =~= frags.take(k - 1));
        assert(frags.take(k).last() == data);
        assert(is_fragment(data, i, n, payloads[i]));
        assert(!order.take(k - 1).contains(i)) by {
            if order.take(k - 1).contains(i) {
                let j = choose|j: int| 0 <= j < k - 1 && #[trigger] order.take(k - 1)[j] == i;
                assert(order[j] == order[k - 1]);
            }
        }
        let next = prev.update(i, Some(payloads[i]));
        assert(next =~= placed_table(payloads, order.take(k))) by {
            assert forall|x: int| 0 <= x < n implies next[x] == placed_table(payloads, order.take(k))[x] by {
                if order.take(k).contains(x) {
                    let j = choose|j: int| 0 <= j < k && #[trigger] order.take(k)[j] == x;
                    if j < k - 1 {
                        assert(order.take(k - 1)[j] == x);
                    }
                } else {
                    assert(order.take(k)[k - 1] == i);
                    if order.take(k - 1).contains(x) {
                        let j = choose|j: int| 0 <= j < k - 1 && #[trigger] order.take(k - 1)[j] == x;
                        assert(order.take(k)[j] == x);
                    }
                }
            }
        }
        lemma_fill_slot(prev, i, payloads[i]);
        lemma_bytes_le(next, full_table(payloads));
        let before = feed(empty, max, frags.take(k - 1)).0;
        if k - 1 == 0 {
            assert(prev =~= empty_table(n));
            assert(before.len() == 0);
        } else {
            assert(before == prev);
        }
        if k == n {
            assert forall|x: int| 0 <= x < n implies order.take(k).contains(x) by {
                lemma_covers(order, x);
            }
            assert(next =~= full_table(payloads));
        }
    }
}

/// A sequence of `n` distinct slots in `0..n` names every slot.
proof fn lemma_covers(order: Seq<int>, x: int)
    requires
        forall|k: int| 0 <= k < order.len() ==> 0 <= #[trigger] order[k] < order.len(),
        forall|j: int, k: int| 0 <= j < k < order.len() ==> order[j] != order[k],
        0 <= x < order.len(),
    ensures
        order.take(order.len() as int).contains(x),
{
    assert(order.take(order.len() as int) =~= order);
    if !order.contains(x) {
        // `order` would be `n` distinct values among the `n - 1` of `0..n` other than `x`.
        let n = order.len() as int;
        let s = order.to_set();
        let range = vstd::set_lib::set_int_range(0, n);
        let others = range.remove(x);
        vstd::set_lib::lemma_int_range(0, n);
        assert(range.contains(x));
        assert(others.len() == n - 1);
        assert(order.no_duplicates()) by {
            assert forall|i: int, j: int| 0 <= i < order.len() && 0 <= j < order.len() && i != j implies order[i] != order[j] by {
                if i < j {
                } else {
                }
            }
        }
        order.unique_seq_to_set();
        assert forall|v: int| s.contains(v) implies others.contains(v) by {
            assert(order.contains(v));
            let k = choose|k: int| 0 <= k < order.len() && #[trigger] order[k] == v;
            assert(0 <= order[k] < n);
        }
        assert(s.subset_of(others));
        vstd::set_lib::lemma_len_subset(s, others);
        assert(false);
    }
}

} // verus!
