//! Archived order geometry of a closed report trade, as the core sends it on
//! request: a version byte, then one record per buy or sell line.

use crate::le::read_u32_le;
use crate::shared_config::reader::{u32_at, u64_at};
use crate::state::MoonTime;
use std::sync::Arc;
use vstd::prelude::*;

verus! {

/// Archived chart coordinate.
#[derive(Debug, Clone, Copy, PartialEq, Eq, Structural)]
pub struct ReportTracePoint {
    /// Unix UTC milliseconds; no core-timezone or ping-offset correction is needed.
    pub time: MoonTime,
    /// Price, as the IEEE-754 bits of its `f64` value (full precision kept).
    pub price: u64,
}

/// One own or inherited buy/sell trace from a closed trade's archive.
#[derive(Debug, Clone)]
pub struct ReportTrace {
    /// False for geometry inherited from another order through join/split.
    pub own: bool,
    /// Order type byte as the core sends it.
    pub order_type: u8,
    /// Stop price as the IEEE-754 bits of its `f64` value; zero means no stop marker.
    pub stop_price: u64,
    /// Unix UTC milliseconds; zero means no stop time.
    pub stop_time: MoonTime,
    /// Original chart points: one anchor followed by groups of three per segment.
    pub points: Vec<ReportTracePoint>,
}

/// What a trace holds: own flag, order type, stop price, stop time and the
/// points as time and price.
pub type TraceView = (bool, u8, u64, i64, Seq<(i64, u64)>);

/// The `i64` stored little-endian at `p`.
pub open spec fn i64_at(d: Seq<u8>, p: int) -> i64 {
    u64_at(d, p) as i64
}

/// The trace stored at `p` and the position after it, if the data holds it:
/// its 22-byte head (own flag, order type, stop price, stop time, point
/// count) must be there, and its points, 16 bytes each (time and price),
/// must fit what is left.
pub open spec fn trace_at(d: Seq<u8>, p: int) -> Option<(TraceView, int)> {
    if p + 22 > d.len() {
        None
    } else {
        let count = u32_at(d, p + 18) as int;
        let q = p + 22;
        if count > (d.len() - q) / 16 {
            None
        } else {
            Some(
                (
                    (
                        (d[p] & 1) != 0,
                        d[p + 1],
                        u64_at(d, p + 2),
                        i64_at(d, p + 10),
                        Seq::new(
                            count as nat,
                            |i: int| (i64_at(d, q + 16 * i), u64_at(d, q + 16 * i + 8)),
                        ),
                    ),
                    q + 16 * count,
                ),
            )
        }
    }
}

/// The traces from `p` to the end of the data, if every one is whole.
pub open spec fn traces_from(d: Seq<u8>, p: int) -> Option<Seq<TraceView>>
    decreases d.len() - p,
{
    if p >= d.len() || p < 0 {
        Some(Seq::empty())
    } else {
        match trace_at(d, p) {
            None => None,
            Some((t, q)) => if q > p {
                match traces_from(d, q) {
                    Some(rest) => Some(seq![t] + rest),
                    None => None,
                }
            } else {
                None
            },
        }
    }
}

/// The traces of an archive: none for an empty archive, else version `1`
/// followed by whole traces up to the end.
pub open spec fn archive_traces(d: Seq<u8>) -> Option<Seq<TraceView>> {
    if d.len() == 0 {
        Some(Seq::empty())
    } else if d[0] != 1 {
        None
    } else {
        traces_from(d, 1)
    }
}

/// What a trace holds.
pub open spec fn trace_view(t: ReportTrace) -> TraceView {
    (
        t.own,
        t.order_type,
        t.stop_price,
        t.stop_time.unix_millis,
        Seq::new(t.points@.len(), |i: int| (t.points@[i].time.unix_millis, t.points@[i].price)),
    )
}

/// What a list of traces holds.
pub open spec fn trace_views(v: Seq<ReportTrace>) -> Seq<TraceView> {
    Seq::new(v.len(), |i: int| trace_view(v[i]))
}

/// The little-endian `u64` at `p`; the caller has checked that it is there.
fn u64_le_at(data: &[u8], p: usize) -> (r: u64)
    requires
        p + 8 <= data@.len(),
    ensures
        r == u64_at(data@, p as int),
{
    let lo = read_u32_le(data[p], data[p + 1], data[p + 2], data[p + 3]);
    let hi = read_u32_le(data[p + 4], data[p + 5], data[p + 6], data[p + 7]);
    lo as u64 + 0x1_0000_0000u64 * (hi as u64)
}

/// Read the points of a trace: `count` points from `p` on, which the data holds.
fn read_points(data: &[u8], p: usize, count: usize) -> (r: Vec<ReportTracePoint>)
    requires
        p + 16 * count <= data@.len(),
    ensures
        r@.len() == count,
        forall|i: int|
            0 <= i < count ==> (#[trigger] r@[i]).time.unix_millis == i64_at(data@, p + 16 * i) && r@[i].price
                == u64_at(data@, p + 16 * i + 8),
{
    let mut points: Vec<ReportTracePoint> = Vec::new();
    let mut i: usize = 0;
    let len = data.len();
    while i < count
        invariant
            0 <= i <= count,
            len == data@.len(),
            p + 16 * count <= data@.len(),
            points@.len() == i,
            forall|j: int|
                0 <= j < i ==> (#[trigger] points@[j]).time.unix_millis == i64_at(data@, p + 16 * j)
                    && points@[j].price == u64_at(data@, p + 16 * j + 8),
        decreases count - i,
    {
        assert(p + 16 * i + 16 <= len);
        let at = p + 16 * i;
        let time = u64_le_at(data, at);
        let price = u64_le_at(data, at + 8);
        points.push(ReportTracePoint { time: MoonTime::from_unix_millis(time as i64), price });
        i = i + 1;
    }
    points
}

/// Read the trace at `pos`, or nothing when the data does not hold it whole.
fn read_trace(data: &[u8], pos: usize) -> (r: Option<(ReportTrace, usize)>)
    ensures
        match trace_at(data@, pos as int) {
            None => r is None,
            Some((t, q)) => r matches Some((x, e)) && trace_view(x) == t && e == q,
        },
{
    if pos > data.len() || data.len() - pos < 22 {
        return None;
    }
    let own = data[pos] & 1 != 0;
    let order_type = data[pos + 1];
    let stop_price = u64_le_at(data, pos + 2);
    let stop_time = u64_le_at(data, pos + 10);
    let count32 = read_u32_le(data[pos + 18], data[pos + 19], data[pos + 20], data[pos + 21]);
    let count = count32 as usize;
    let q = pos + 22;
    if count > (data.len() - q) / 16 {
        return None;
    }
    let points = read_points(data, q, count);
    let t = ReportTrace {
        own,
        order_type,
        stop_price,
        stop_time: MoonTime::from_unix_millis(stop_time as i64),
        points,
    };
    proof {
        let spec_t = trace_at(data@, pos as int)->Some_0.0;
        assert(trace_view(t).4 =~= spec_t.4);
    }
    Some((t, q + 16 * count))
}

/// Parse a trace archive: an empty archive holds no traces; otherwise a
/// version byte `1` and whole traces up to the end, or nothing at all.
pub fn parse_traces(data: &[u8]) -> (r: Option<Vec<ReportTrace>>)
    ensures
        match archive_traces(data@) {
            None => r is None,
            Some(v) => r matches Some(x) && trace_views(x@) == v,
        },
{
    if data.len() == 0 {
        let empty: Vec<ReportTrace> = Vec::new();
        proof {
            assert(trace_views(empty@) =~= Seq::<TraceView>::empty());
        }
        return Some(empty);
    }
    if data[0] != 1 {
        return None;
    }
    let mut traces: Vec<ReportTrace> = Vec::new();
    let mut pos: usize = 1;
    proof {
        assert(trace_views(traces@) + traces_from(data@, 1)->Some_0 =~= traces_from(data@, 1)->Some_0);
    }
    while pos < data.len()
        invariant
            1 <= pos <= data@.len(),
            data@.len() > 0 && data@[0] == 1,
            traces_from(data@, pos as int) is None ==> traces_from(data@, 1) is None,
            traces_from(data@, pos as int) matches Some(rest) ==> traces_from(data@, 1) == Some(
                trace_views(traces@) + rest,
            ),
        decreases data@.len() - pos,
    {
        match read_trace(data, pos) {
            None => {
                return None;
            },
            Some((t, next)) => {
                let ghost old_views = trace_views(traces@);
                traces.push(t);
                proof {
                    assert(trace_views(traces@) =~= old_views.push(trace_view(t)));
                    if traces_from(data@, next as int) is Some {
                        let rest = traces_from(data@, next as int)->Some_0;
                        assert(old_views + (seq![trace_view(t)] + rest) =~= trace_views(traces@) + rest);
                    }
                }
                pos = next;
            },
        }
    }
    proof {
        assert(trace_views(traces@) + Seq::<TraceView>::empty() =~= trace_views(traces@));
    }
    Some(traces)
}

/// One on-demand trace request, correlated with `TraceReady` or `TraceFailed`.
#[derive(Debug, Clone, Copy, PartialEq, Eq, Hash, Structural)]
pub struct ReportTraceTicket {
    pub request_id: u64,
    /// Report-row identity, not a record or live order id. Negative values are valid.
    pub report_uid: i64,
}

/// The answer to a trace request.
#[derive(Debug, Clone)]
pub enum ReportEvent {
    /// The archive arrived and parsed; every ticket of the request shares it.
    TraceReady { ticket: ReportTraceTicket, traces: Arc<Vec<ReportTrace>> },
    /// The core refused, the archive was malformed, or the request timed out.
    TraceFailed { ticket: ReportTraceTicket, error: String },
}

/// What an answer says: its ticket, and the traces or the error message.
pub open spec fn event_view(e: ReportEvent) -> (ReportTraceTicket, Result<Seq<TraceView>, Seq<char>>) {
    match e {
        ReportEvent::TraceReady { ticket, traces } => (ticket, Ok(trace_views((*traces)@))),
        ReportEvent::TraceFailed { ticket, error } => (ticket, Err(error@)),
    }
}

/// What a list of answers says.
pub open spec fn events_view(v: Seq<ReportEvent>) -> Seq<(ReportTraceTicket, Result<Seq<TraceView>, Seq<char>>)> {
    v.map_values(|e: ReportEvent| event_view(e))
}

/// One answer per ticket, in order, all carrying `outcome`.
pub open spec fn answers(tickets: Seq<ReportTraceTicket>, outcome: Result<Seq<TraceView>, Seq<char>>) -> Seq<
    (ReportTraceTicket, Result<Seq<TraceView>, Seq<char>>),
> {
    tickets.map_values(|t: ReportTraceTicket| (t, outcome))
}

/// A pending request: its request id, the tickets that wait for it (the
/// first one made the request), and its deadline in monotonic milliseconds.
pub type PendingView = (u64, Seq<ReportTraceTicket>, u64);

/// Whether a request for report `uid` is pending.
pub open spec fn pending_for_report(e: Seq<PendingView>, uid: i64) -> bool {
    exists|k: int| 0 <= k < e.len() && (#[trigger] e[k]).1[0].report_uid == uid
}

/// The position of the pending request for report `uid`.
pub open spec fn report_slot(e: Seq<PendingView>, uid: i64) -> int {
    choose|k: int| 0 <= k < e.len() && (#[trigger] e[k]).1[0].report_uid == uid
}

/// Whether a request with id `id` is pending.
pub open spec fn pending_request(e: Seq<PendingView>, id: u64) -> bool {
    exists|k: int| 0 <= k < e.len() && (#[trigger] e[k]).0 == id
}

/// The position of the pending request with id `id`.
pub open spec fn request_slot(e: Seq<PendingView>, id: u64) -> int {
    choose|k: int| 0 <= k < e.len() && (#[trigger] e[k]).0 == id
}

/// The pending requests other than the one with id `id`, in order.
pub open spec fn without_request(e: Seq<PendingView>, id: u64) -> Seq<PendingView>
    decreases e.len(),
{
    if e.len() == 0 {
        e
    } else if e.last().0 == id {
        without_request(e.drop_last(), id)
    } else {
        without_request(e.drop_last(), id).push(e.last())
    }
}

/// The pending requests whose deadline is after `now`, in order.
pub open spec fn still_pending(e: Seq<PendingView>, now: u64) -> Seq<PendingView>
    decreases e.len(),
{
    if e.len() == 0 {
        e
    } else if now < e.last().2 {
        still_pending(e.drop_last(), now).push(e.last())
    } else {
        still_pending(e.drop_last(), now)
    }
}

/// The tickets of the requests whose deadline is not after `now`, in order.
pub open spec fn expired_tickets(e: Seq<PendingView>, now: u64) -> Seq<ReportTraceTicket>
    decreases e.len(),
{
    if e.len() == 0 {
        Seq::empty()
    } else if now < e.last().2 {
        expired_tickets(e.drop_last(), now)
    } else {
        expired_tickets(e.drop_last(), now) + e.last().1
    }
}

/// Ids unique; every request has a ticket; all tickets of a request name
/// its report; at most one request per report.
pub open spec fn pending_wf(e: Seq<PendingView>) -> bool {
    &&& forall|i: int, j: int| 0 <= i < e.len() && 0 <= j < e.len() && i != j ==> (#[trigger] e[i]).0 != (#[trigger] e[j]).0
    &&& forall|i: int| 0 <= i < e.len() ==> (#[trigger] e[i]).1.len() > 0
    &&& forall|i: int, t: int| 0 <= i < e.len() && 0 <= t < e[i].1.len() ==> (#[trigger] e[i].1[t]).report_uid == e[i].1[0].report_uid
    &&& forall|i: int, j: int| 0 <= i < e.len() && 0 <= j < e.len() && i != j ==> (#[trigger] e[i]).1[0].report_uid != (#[trigger] e[j]).1[0].report_uid
}

/// Message of a trace archive that does not parse.
pub open spec fn invalid_archive_message() -> Seq<char> {
    "invalid or unsupported report trace archive"@
}

/// Message of a request that timed out.
pub open spec fn timed_out_message() -> Seq<char> {
    "report trace request timed out"@
}

/// What a request's answer carries: the parsed archive, or why it failed.
pub open spec fn trace_outcome(result: Result<Seq<u8>, Seq<char>>) -> Result<Seq<TraceView>, Seq<char>> {
    match result {
        Ok(blob) => match archive_traces(blob) {
            Some(v) => Ok(v),
            None => Err(invalid_archive_message()),
        },
        Err(msg) => Err(msg),
    }
}

struct PendingTrace {
    tickets: Vec<ReportTraceTicket>,
    deadline_ms: u64,
}

/// Trace requests in flight. The core replaces queued requests for the same
/// report, so duplicate requests share one answer here.
pub struct ReportTraceRequests {
    pending: Vec<(u64, PendingTrace)>,
}

/// What a pending entry holds.
spec fn pending_view(p: (u64, PendingTrace)) -> PendingView {
    (p.0, p.1.tickets@, p.1.deadline_ms)
}

impl ReportTraceRequests {
    /// The pending requests, in order.
    pub closed spec fn entries(&self) -> Seq<PendingView> {
        self.pending@.map_values(|p: (u64, PendingTrace)| pending_view(p))
    }

    /// Ids unique, every request has a ticket of its report, one request per report.
    pub open spec fn wf(&self) -> bool {
        pending_wf(self.entries())
    }

    /// No request pending.
    pub fn new() -> (r: Self)
        ensures
            r.wf(),
            r.entries() == Seq::<PendingView>::empty(),
    {
        let r = ReportTraceRequests { pending: Vec::new() };
        assert(r.entries() =~= Seq::<PendingView>::empty());
        r
    }

    /// Whether no request is pending.
    pub fn is_empty(&self) -> (r: bool)
        ensures
            r == (self.entries().len() == 0),
    {
        self.pending.len() == 0
    }

    /// Register a request. Where one for the same report is pending, the
    /// ticket joins it and `false` comes back: no new request is to be sent.
    /// Otherwise the request is recorded (replacing one with the same id) and
    /// `true` comes back.
    pub fn begin(&mut self, ticket: ReportTraceTicket, deadline_ms: u64) -> (r: bool)
        requires
            old(self).wf(),
        ensures
            final(self).wf(),
            r == !pending_for_report(old(self).entries(), ticket.report_uid),
            !r ==> ({
                let k = report_slot(old(self).entries(), ticket.report_uid);
                final(self).entries() == old(self).entries().update(
                    k,
                    (old(self).entries()[k].0, old(self).entries()[k].1.push(ticket), old(self).entries()[k].2),
                )
            }),
            r ==> final(self).entries() == without_request(old(self).entries(), ticket.request_id).push(
                (ticket.request_id, seq![ticket], deadline_ms),
            ),
    {
        let ghost e0 = self.entries();
        let mut i: usize = 0;
        while i < self.pending.len()
            invariant
                0 <= i <= self.pending@.len(),
                self.entries() == e0,
                e0 == old(self).entries(),
                pending_wf(e0),
                forall|k: int| 0 <= k < i ==> (#[trigger] e0[k]).1[0].report_uid != ticket.report_uid,
            decreases self.pending@.len() - i,
        {
            assert(e0[i as int] == pending_view(self.pending@[i as int]));
            if self.pending[i].1.tickets[0].report_uid == ticket.report_uid {
                assert(pending_for_report(e0, ticket.report_uid));
                let ghost k = report_slot(e0, ticket.report_uid);
                assert(k == i as int);
                let mut entry = self.pending.remove(i);
                entry.1.tickets.push(ticket);
                self.pending.insert(i, entry);
                proof {
                    let e1 = self.entries();
                    let want = e0.update(k, (e0[k].0, e0[k].1.push(ticket), e0[k].2));
                    assert forall|j: int| 0 <= j < e1.len() implies e1[j] == want[j] by {
                        assert(e1[j] == pending_view(self.pending@[j]));
                    }
                    assert(e1 =~= want);
                    assert forall|a: int, t: int| 0 <= a < e1.len() && 0 <= t < e1[a].1.len()
                        implies (#[trigger] e1[a].1[t]).report_uid == e1[a].1[0].report_uid by {
                        if a == k && t == e0[k].1.len() {
                        }
                    }
                }
                return false;
            }
            i = i + 1;
        }
        // A new request; a pending one with the same id is replaced.
        let mut kept: Vec<(u64, PendingTrace)> = Vec::new();
        let mut old_pending: Vec<(u64, PendingTrace)> = Vec::new();
        std::mem::swap(&mut old_pending, &mut self.pending);
        let mut j: usize = 0;
        while j < old_pending.len()
            invariant
                0 <= j <= old_pending@.len(),
                old_pending@.map_values(|p: (u64, PendingTrace)| pending_view(p)) == e0,
                kept@.map_values(|p: (u64, PendingTrace)| pending_view(p)) == without_request(e0.subrange(0, j as int), ticket.request_id),
            decreases old_pending@.len() - j,
        {
            proof {
                assert(e0.subrange(0, j as int + 1).drop_last() =~= e0.subrange(0, j as int));
                assert(e0[j as int] == pending_view(old_pending@[j as int]));
            }
            if old_pending[j].0 != ticket.request_id {
                let ghost before = kept@;
                kept.push(clone_pending(&old_pending[j]));
                proof {
                    assert(kept@.map_values(|p: (u64, PendingTrace)| pending_view(p)) =~= before.map_values(
                        |p: (u64, PendingTrace)| pending_view(p),
                    ).push(e0[j as int]));
                }
            }
            j = j + 1;
        }
        proof {
            assert(e0.subrange(0, e0.len() as int) =~= e0);
            lemma_without_request_sub(e0, ticket.request_id);
        }
        let ghost before = kept@;
        let mut first: Vec<ReportTraceTicket> = Vec::new();
        first.push(ticket);
        assert(first@ =~= seq![ticket]);
        kept.push((ticket.request_id, PendingTrace { tickets: first, deadline_ms }));
        self.pending = kept;
        proof {
            let e1 = self.entries();
            let w = without_request(e0, ticket.request_id);
            assert(e1 =~= before.map_values(|p: (u64, PendingTrace)| pending_view(p)).push(
                (ticket.request_id, seq![ticket], deadline_ms),
            ));
            assert(e1 == w.push((ticket.request_id, seq![ticket], deadline_ms)));
            assert forall|a: int| 0 <= a < w.len() implies (#[trigger] w[a]).0 != ticket.request_id
                && w[a].1[0].report_uid != ticket.report_uid by {
                let b = lemma_without_request_member(e0, ticket.request_id, a);
            }
            assert forall|a: int, b: int| 0 <= a < e1.len() && 0 <= b < e1.len() && a != b
                implies (#[trigger] e1[a]).0 != (#[trigger] e1[b]).0
                && e1[a].1[0].report_uid != e1[b].1[0].report_uid by {
                if a < w.len() && b < w.len() {
                    lemma_without_request_pair(e0, ticket.request_id, a, b);
                }
            }
            assert forall|a: int| 0 <= a < e1.len() implies (#[trigger] e1[a]).1.len() > 0 by {
                if a < w.len() {
                    let c = lemma_without_request_member(e0, ticket.request_id, a);
                }
            }
            assert forall|a: int, t: int| 0 <= a < e1.len() && 0 <= t < e1[a].1.len()
                implies (#[trigger] e1[a].1[t]).report_uid == e1[a].1[0].report_uid by {
                if a < w.len() {
                    let c = lemma_without_request_member(e0, ticket.request_id, a);
                }
            }
        }
        true
    }

    /// Answer the request with id `request_uid`: every ticket that waits for
    /// it gets the parsed archive or the failure, in order, and the request
    /// is forgotten. An unknown id changes nothing.
    pub fn complete(&mut self, request_uid: u64, result: Result<&[u8], &str>, out: &mut Vec<ReportEvent>)
        requires
            old(self).wf(),
        ensures
            final(self).wf(),
            final(self).entries() == without_request(old(self).entries(), request_uid),
            events_view(final(out)@) == events_view(old(out)@) + (if pending_request(old(self).entries(), request_uid) {
                answers(
                    old(self).entries()[request_slot(old(self).entries(), request_uid)].1,
                    trace_outcome(match result {
                        Ok(b) => Ok(b@),
                        Err(m) => Err(m@),
                    }),
                )
            } else {
                Seq::empty()
            }),
    {
        let ghost e0 = self.entries();
        let ghost outcome = trace_outcome(match result {
            Ok(b) => Ok(b@),
            Err(m) => Err(m@),
        });
        let mut i: usize = 0;
        while i < self.pending.len()
            invariant
                0 <= i <= self.pending@.len(),
                self.entries() == e0,
                e0 == old(self).entries(),
                outcome == trace_outcome(match result {
                    Ok(b) => Ok(b@),
                    Err(m) => Err(m@),
                }),
                events_view(out@) == events_view(old(out)@),
                pending_wf(e0),
                forall|k: int| 0 <= k < i ==> (#[trigger] e0[k]).0 != request_uid,
            decreases self.pending@.len() - i,
        {
            assert(e0[i as int] == pending_view(self.pending@[i as int]));
            if self.pending[i].0 == request_uid {
                assert(pending_request(e0, request_uid));
                let ghost k = request_slot(e0, request_uid);
                assert(k == i as int);
                let entry = self.pending.remove(i);
                proof {
                    let e1 = self.entries();
                    assert(e1 =~= e0.remove(k)) by {
                        assert forall|j: int| 0 <= j < e1.len() implies e1[j] == e0.remove(k)[j] by {
                            assert(e1[j] == pending_view(self.pending@[j]));
                        }
                    }
                    lemma_without_unique(e0, request_uid, k);
                    assert forall|a: int, b: int| 0 <= a < e1.len() && 0 <= b < e1.len() && a != b
                        implies (#[trigger] e1[a]).0 != (#[trigger] e1[b]).0
                        && e1[a].1[0].report_uid != e1[b].1[0].report_uid by {
                        let a0 = if a < k { a } else { a + 1 };
                        let b0 = if b < k { b } else { b + 1 };
                        assert(e1[a] == e0[a0] && e1[b] == e0[b0]);
                    }
                    assert forall|a: int, t: int| 0 <= a < e1.len() && 0 <= t < e1[a].1.len()
                        implies (#[trigger] e1[a].1[t]).report_uid == e1[a].1[0].report_uid by {
                        let a0 = if a < k { a } else { a + 1 };
                        assert(e1[a] == e0[a0]);
                    }
                    assert forall|a: int| 0 <= a < e1.len() implies (#[trigger] e1[a]).1.len() > 0 by {
                        let a0 = if a < k { a } else { a + 1 };
                        assert(e1[a] == e0[a0]);
                    }
                }
                let parsed: Result<Arc<Vec<ReportTrace>>, String> = match result {
                    Ok(blob) => match parse_traces(blob) {
                        Some(t) => {
                            let a = Arc::new(t);
                            assert(outcome == Ok::<Seq<TraceView>, Seq<char>>(trace_views((*a)@)));
                            Ok(a)
                        },
                        None => {
                            let m = "invalid or unsupported report trace archive".to_owned();
                            assert(outcome == Err::<Seq<TraceView>, Seq<char>>(m@));
                            Err(m)
                        },
                    },
                    Err(msg) => {
                        let m = msg.to_owned();
                        assert(outcome == Err::<Seq<TraceView>, Seq<char>>(m@));
                        Err(m)
                    },
                };
                let tickets = entry.1.tickets;
                let mut t: usize = 0;
                let ghost out0 = events_view(out@);
                while t < tickets.len()
                    invariant
                        0 <= t <= tickets@.len(),
                        match parsed {
                            Ok(a) => outcome == Ok::<Seq<TraceView>, Seq<char>>(trace_views((*a)@)),
                            Err(m) => outcome == Err::<Seq<TraceView>, Seq<char>>(m@),
                        },
                        events_view(out@) == out0 + answers(tickets@.subrange(0, t as int), outcome),
                    decreases tickets@.len() - t,
                {
                    let ev = match &parsed {
                        Ok(a) => ReportEvent::TraceReady { ticket: tickets[t], traces: a.clone() },
                        Err(m) => ReportEvent::TraceFailed { ticket: tickets[t], error: m.clone() },
                    };
                    let ghost before = out@;
                    out.push(ev);
                    proof {
                        assert(events_view(out@) =~= events_view(before).push(event_view(ev)));
                        assert(answers(tickets@.subrange(0, t as int + 1), outcome) =~= answers(
                            tickets@.subrange(0, t as int),
                            outcome,
                        ).push((tickets@[t as int], outcome)));
                    }
                    t = t + 1;
                }
                proof {
                    assert(tickets@.subrange(0, tickets@.len() as int) =~= tickets@);
                    assert(e0[k].1 == tickets@);
                }
                return;
            }
            i = i + 1;
        }
        proof {
            assert(!pending_request(e0, request_uid));
            lemma_without_absent(e0, request_uid);
            assert(events_view(out@) + Seq::empty() =~= events_view(out@));
        }
    }

    /// Fail every request whose deadline is not after `now_ms`, each of its
    /// tickets in order, and forget those requests.
    pub fn tick(&mut self, now_ms: u64, out: &mut Vec<ReportEvent>)
        requires
            old(self).wf(),
        ensures
            final(self).wf(),
            final(self).entries() == still_pending(old(self).entries(), now_ms),
            events_view(final(out)@) == events_view(old(out)@) + answers(
                expired_tickets(old(self).entries(), now_ms),
                Err(timed_out_message()),
            ),
    {
        let ghost e0 = self.entries();
        let ghost out0 = events_view(out@);
        let ghost failed: Result<Seq<TraceView>, Seq<char>> = Err(timed_out_message());
        let mut old_pending: Vec<(u64, PendingTrace)> = Vec::new();
        std::mem::swap(&mut old_pending, &mut self.pending);
        let mut kept: Vec<(u64, PendingTrace)> = Vec::new();
        let mut j: usize = 0;
        while j < old_pending.len()
            invariant
                0 <= j <= old_pending@.len(),
                old_pending@.map_values(|p: (u64, PendingTrace)| pending_view(p)) == e0,
                kept@.map_values(|p: (u64, PendingTrace)| pending_view(p)) == still_pending(e0.subrange(0, j as int), now_ms),
                events_view(out@) == out0 + answers(expired_tickets(e0.subrange(0, j as int), now_ms), failed),
                failed == Err::<Seq<TraceView>, Seq<char>>(timed_out_message()),
            decreases old_pending@.len() - j,
        {
            proof {
                assert(e0.subrange(0, j as int + 1).drop_last() =~= e0.subrange(0, j as int));
                assert(e0[j as int] == pending_view(old_pending@[j as int]));
            }
            if now_ms < old_pending[j].1.deadline_ms {
                let ghost before = kept@;
                kept.push(clone_pending(&old_pending[j]));
                proof {
                    assert(kept@.map_values(|p: (u64, PendingTrace)| pending_view(p)) =~= before.map_values(
                        |p: (u64, PendingTrace)| pending_view(p),
                    ).push(e0[j as int]));
                }
            } else {
                let ghost base = expired_tickets(e0.subrange(0, j as int), now_ms);
                let mut t: usize = 0;
                while t < old_pending[j].1.tickets.len()
                    invariant
                        0 <= j < old_pending@.len(),
                        0 <= t <= old_pending@[j as int].1.tickets@.len(),
                        failed == Err::<Seq<TraceView>, Seq<char>>(timed_out_message()),
                        events_view(out@) == out0 + answers(base + old_pending@[j as int].1.tickets@.subrange(0, t as int), failed),
                    decreases old_pending@[j as int].1.tickets@.len() - t,
                {
                    let ev = ReportEvent::TraceFailed {
                        ticket: old_pending[j].1.tickets[t],
                        error: "report trace request timed out".to_owned(),
                    };
                    proof {
                        reveal_strlit("report trace request timed out");
                    }
                    let ghost before = out@;
                    out.push(ev);
                    proof {
                        let tk = old_pending@[j as int].1.tickets@;
                        assert(events_view(out@) =~= events_view(before).push(event_view(ev)));
                        assert(base + tk.subrange(0, t as int + 1) =~= (base + tk.subrange(0, t as int)).push(tk[t as int]));
                        assert(answers(base + tk.subrange(0, t as int + 1), failed) =~= answers(
                            base + tk.subrange(0, t as int),
                            failed,
                        ).push((tk[t as int], failed)));
                    }
                    t = t + 1;
                }
                proof {
                    let tk = old_pending@[j as int].1.tickets@;
                    assert(tk.subrange(0, tk.len() as int) =~= tk);
                }
            }
            j = j + 1;
        }
        proof {
            assert(e0.subrange(0, e0.len() as int) =~= e0);
        }
        self.pending = kept;
        proof {
            let e1 = self.entries();
            lemma_still_pending_sub(e0, now_ms);
            assert forall|a: int, b: int| 0 <= a < e1.len() && 0 <= b < e1.len() && a != b
                implies (#[trigger] e1[a]).0 != (#[trigger] e1[b]).0
                && e1[a].1[0].report_uid != e1[b].1[0].report_uid by {
                lemma_still_pending_pair(e0, now_ms, a, b);
            }
            assert forall|a: int| 0 <= a < e1.len() implies (#[trigger] e1[a]).1.len() > 0 by {
                let c = lemma_still_pending_member(e0, now_ms, a);
            }
            assert forall|a: int, t: int| 0 <= a < e1.len() && 0 <= t < e1[a].1.len()
                implies (#[trigger] e1[a].1[t]).report_uid == e1[a].1[0].report_uid by {
                let c = lemma_still_pending_member(e0, now_ms, a);
            }
        }
    }
}

/// A copy of a pending entry.
fn clone_pending(p: &(u64, PendingTrace)) -> (r: (u64, PendingTrace))
    ensures
        pending_view(r) == pending_view(*p),
{
    (p.0, PendingTrace { tickets: p.1.tickets.clone(), deadline_ms: p.1.deadline_ms })
}

/// Every entry left after removing id `id` is an entry of `e` other than it.
proof fn lemma_without_request_member(e: Seq<PendingView>, id: u64, a: int) -> (c: int)
    requires
        0 <= a < without_request(e, id).len(),
    ensures
        0 <= c < e.len(),
        without_request(e, id)[a] == e[c],
        e[c].0 != id,
    decreases e.len(),
{
    let w = without_request(e.drop_last(), id);
    if e.last().0 == id {
        lemma_without_request_member(e.drop_last(), id, a)
    } else if a < w.len() {
        lemma_without_request_member(e.drop_last(), id, a)
    } else {
        e.len() - 1
    }
}

/// Removing id `id` keeps distinct entries at distinct places of `e`.
proof fn lemma_without_request_pair(e: Seq<PendingView>, id: u64, a: int, b: int)
    requires
        pending_wf(e),
        0 <= a < without_request(e, id).len(),
        0 <= b < without_request(e, id).len(),
        a != b,
    ensures
        without_request(e, id)[a].0 != without_request(e, id)[b].0,
        without_request(e, id)[a].1[0].report_uid != without_request(e, id)[b].1[0].report_uid,
    decreases e.len(),
{
    lemma_without_request_prefix_wf(e);
    let w = without_request(e.drop_last(), id);
    if e.last().0 == id {
        lemma_without_request_pair(e.drop_last(), id, a, b);
    } else if a < w.len() && b < w.len() {
        lemma_without_request_pair(e.drop_last(), id, a, b);
    } else {
        let x = if a < w.len() { a } else { b };
        let c = lemma_without_request_member(e.drop_last(), id, x);
        assert(e.drop_last()[c] == e[c]);
    }
}

/// A prefix of a well-formed list is well-formed.
proof fn lemma_without_request_prefix_wf(e: Seq<PendingView>)
    requires
        pending_wf(e),
        e.len() > 0,
    ensures
        pending_wf(e.drop_last()),
{
    let d = e.drop_last();
    assert forall|i: int| 0 <= i < d.len() implies d[i] == e[i] by {}
    assert forall|i: int, t: int| 0 <= i < d.len() && 0 <= t < d[i].1.len()
        implies (#[trigger] d[i].1[t]).report_uid == d[i].1[0].report_uid by {
        assert(d[i] == e[i]);
    }
}

/// `without_request` of the whole list, stated for the prefix that the loop covers.
proof fn lemma_without_request_sub(e: Seq<PendingView>, id: u64)
    ensures
        without_request(e.subrange(0, e.len() as int), id) == without_request(e, id),
{
    assert(e.subrange(0, e.len() as int) =~= e);
}

/// With ids unique, removing the one at `k` is removing id `e[k].0`.
proof fn lemma_without_unique(e: Seq<PendingView>, id: u64, k: int)
    requires
        0 <= k < e.len(),
        e[k].0 == id,
        forall|i: int, j: int| 0 <= i < e.len() && 0 <= j < e.len() && i != j ==> (#[trigger] e[i]).0 != (#[trigger] e[j]).0,
    ensures
        without_request(e, id) == e.remove(k),
    decreases e.len(),
{
    if k == e.len() - 1 {
        let d = e.drop_last();
        assert forall|i: int| 0 <= i < d.len() implies (#[trigger] d[i]).0 != id by {
            assert(d[i] == e[i]);
        }
        lemma_without_absent(d, id);
        assert(d =~= e.remove(k));
    } else {
        let d = e.drop_last();
        assert forall|i: int, j: int| 0 <= i < d.len() && 0 <= j < d.len() && i != j implies (#[trigger] d[i]).0 != (#[trigger] d[j]).0 by {
            assert(d[i] == e[i] && d[j] == e[j]);
        }
        assert(e.last() == e[e.len() - 1]);
        lemma_without_unique(d, id, k);
        assert(d.remove(k).push(e.last()) =~= e.remove(k));
    }
}

/// Removing an id that no entry has changes nothing.
proof fn lemma_without_absent(e: Seq<PendingView>, id: u64)
    requires
        forall|i: int| 0 <= i < e.len() ==> (#[trigger] e[i]).0 != id,
    ensures
        without_request(e, id) == e,
    decreases e.len(),
{
    if e.len() > 0 {
        let d = e.drop_last();
        assert forall|i: int| 0 <= i < d.len() implies (#[trigger] d[i]).0 != id by {
            assert(d[i] == e[i]);
        }
        lemma_without_absent(d, id);
        assert(e[e.len() - 1].0 != id);
        assert(d.push(e.last()) =~= e);
    }
}

/// Every entry still pending is an entry of `e`.
proof fn lemma_still_pending_member(e: Seq<PendingView>, now: u64, a: int) -> (c: int)
    requires
        0 <= a < still_pending(e, now).len(),
    ensures
        0 <= c < e.len(),
        still_pending(e, now)[a] == e[c],
    decreases e.len(),
{
    let w = still_pending(e.drop_last(), now);
    if now < e.last().2 && a == w.len() {
        e.len() - 1
    } else {
        lemma_still_pending_member(e.drop_last(), now, a)
    }
}

/// Entries still pending sit at distinct places of a well-formed `e`.
proof fn lemma_still_pending_pair(e: Seq<PendingView>, now: u64, a: int, b: int)
    requires
        pending_wf(e),
        0 <= a < still_pending(e, now).len(),
        0 <= b < still_pending(e, now).len(),
        a != b,
    ensures
        still_pending(e, now)[a].0 != still_pending(e, now)[b].0,
        still_pending(e, now)[a].1[0].report_uid != still_pending(e, now)[b].1[0].report_uid,
    decreases e.len(),
{
    lemma_without_request_prefix_wf(e);
    let w = still_pending(e.drop_last(), now);
    if now < e.last().2 && (a == w.len() || b == w.len()) {
        let x = if a < w.len() { a } else { b };
        let c = lemma_still_pending_member(e.drop_last(), now, x);
        assert(e.drop_last()[c] == e[c]);
    } else {
        lemma_still_pending_pair(e.drop_last(), now, a, b);
    }
}

/// `still_pending` of the whole list, stated for the prefix that the loop covers.
proof fn lemma_still_pending_sub(e: Seq<PendingView>, now: u64)
    ensures
        still_pending(e.subrange(0, e.len() as int), now) == still_pending(e, now),
{
    assert(e.subrange(0, e.len() as int) =~= e);
}

} // verus!
