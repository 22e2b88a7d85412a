//! Decisions of the runtime loop and of the init steps, taken on plain
//! values: the loop around them performs the waiting, the channel reads and
//! the clock reads, and hands the results in.

use crate::shared_config::reader::{u16_at, u32_at, u64_at};
use vstd::prelude::*;

verus! {

/// Idle time after which a chunked response with no progress times out.
pub const CHUNK_IDLE_TIMEOUT_MS: u64 = 15000;

/// Push the idle deadline of a chunked response `CHUNK_IDLE_TIMEOUT_MS`
/// past `now_ms` when its progress generation moved since last seen.
pub fn extend_chunk_deadline(deadline_ms: &mut u64, seen_progress: &mut u64, generation: u64, now_ms: u64)
    requires
        now_ms <= u64::MAX - CHUNK_IDLE_TIMEOUT_MS,
    ensures
        generation != *old(seen_progress) ==> *final(seen_progress) == generation && *final(deadline_ms)
            == now_ms + CHUNK_IDLE_TIMEOUT_MS,
        generation == *old(seen_progress) ==> *final(seen_progress) == *old(seen_progress)
            && *final(deadline_ms) == *old(deadline_ms),
{
    if generation != *seen_progress {
        *seen_progress = generation;
        *deadline_ms = now_ms + CHUNK_IDLE_TIMEOUT_MS;
    }
}

/// What a non-blocking read of a pending request's channel found.
#[derive(Debug, Clone, Copy, PartialEq, Eq, Structural)]
pub enum RecvPoll {
    /// A reply was there.
    Ready,
    /// The sender is gone.
    Disconnected,
    /// Nothing yet.
    Empty,
}

/// What the loop does with a pending request after reading its channel.
#[derive(Debug, Clone, Copy, PartialEq, Eq, Structural)]
pub enum PendingOutcome {
    /// Remove it and deliver the reply.
    Deliver,
    /// Remove it and report that the reply channel closed.
    Closed,
    /// Remove it and report a timeout.
    TimedOut,
    /// Keep it.
    Wait,
}

/// The fate of a pending request: a reply is delivered, a closed channel is
/// reported, and with nothing read it times out once `now_ms` reaches its
/// deadline.
pub fn pending_outcome(recv: RecvPoll, deadline_ms: u64, now_ms: u64) -> (r: PendingOutcome)
    ensures
        r == (match recv {
            RecvPoll::Ready => PendingOutcome::Deliver,
            RecvPoll::Disconnected => PendingOutcome::Closed,
            RecvPoll::Empty => if deadline_ms <= now_ms {
                PendingOutcome::TimedOut
            } else {
                PendingOutcome::Wait
            },
        }),
{
    match recv {
        RecvPoll::Ready => PendingOutcome::Deliver,
        RecvPoll::Disconnected => PendingOutcome::Closed,
        RecvPoll::Empty => {
            if deadline_ms <= now_ms {
                PendingOutcome::TimedOut
            } else {
                PendingOutcome::Wait
            }
        },
    }
}

/// Progress of a batch of transfer-asset refreshes.
#[derive(Debug, Clone, Copy, PartialEq, Eq, Structural)]
pub struct PendingTransferAssetsBatch {
    /// Batch identifier.
    pub id: u64,
    /// Refreshes still awaited.
    pub remaining: usize,
    /// Refreshes that updated their asset list.
    pub updated: usize,
    /// Refreshes that failed.
    pub failed: usize,
}

/// A finished batch of transfer-asset refreshes: how many it asked for, and
/// how many updated and failed.
#[derive(Debug, Clone, Copy, PartialEq, Eq, Structural)]
pub struct TransferAssetsBatchDone {
    /// Batch identifier.
    pub id: u64,
    /// Refreshes asked for: those updated and those failed.
    pub requested: usize,
    /// Refreshes that updated their asset list.
    pub updated: usize,
    /// Refreshes that failed.
    pub failed: usize,
}

/// Index of the first batch with identifier `id`, if any.
pub open spec fn batch_index(bs: Seq<PendingTransferAssetsBatch>, id: u64) -> Option<int> {
    if exists|i: int| 0 <= i < bs.len() && bs[i].id == id {
        Some(choose|i: int| 0 <= i < bs.len() && bs[i].id == id && forall|j: int| 0 <= j < i ==> bs[j].id != id)
    } else {
        None
    }
}

/// A batch after one more of its refreshes finished.
pub open spec fn batch_after(b: PendingTransferAssetsBatch, success: bool) -> PendingTransferAssetsBatch {
    PendingTransferAssetsBatch {
        id: b.id,
        remaining: if b.remaining > 0 { (b.remaining - 1) as usize } else { 0 },
        updated: if success { (b.updated + 1) as usize } else { b.updated },
        failed: if success { b.failed } else { (b.failed + 1) as usize },
    }
}

/// Count one finished refresh of batch `batch_id`, when it has one: the
/// batch counts it as updated or failed, and when none remains it leaves the
/// list (its place taken by the last batch) and is reported as done.
pub fn finish_transfer_assets_batch_item(
    batches: &mut Vec<PendingTransferAssetsBatch>,
    batch_id: Option<u64>,
    success: bool,
) -> (r: Option<TransferAssetsBatchDone>)
    requires
        forall|i: int| 0 <= i < old(batches)@.len() ==> #[trigger] old(batches)@[i].updated + old(batches)@[i].failed
            < usize::MAX,
    ensures
        match batch_id {
            None => r is None && final(batches)@ == old(batches)@,
            Some(id) => match batch_index(old(batches)@, id) {
                None => r is None && final(batches)@ == old(batches)@,
                Some(i) => {
                    let b = batch_after(old(batches)@[i], success);
                    if b.remaining != 0 {
                        r is None && final(batches)@ == old(batches)@.update(i, b)
                    } else {
                        r == Some(TransferAssetsBatchDone {
                            id: b.id,
                            requested: (b.updated + b.failed) as usize,
                            updated: b.updated,
                            failed: b.failed,
                        }) && final(batches)@ == old(batches)@.update(i, old(batches)@.last()).drop_last()
                    }
                },
            },
        },
{
    let id = match batch_id {
        None => {
            return None;
        },
        Some(id) => id,
    };
    let mut pos: usize = 0;
    while pos < batches.len()
        invariant
            0 <= pos <= batches@.len(),
            batches@ == old(batches)@,
            forall|j: int| 0 <= j < pos ==> batches@[j].id != id,
        ensures
            0 <= pos <= batches@.len(),
            batches@ == old(batches)@,
            forall|j: int| 0 <= j < pos ==> batches@[j].id != id,
            pos < batches@.len() ==> batches@[pos as int].id == id,
        decreases batches@.len() - pos,
    {
        if batches[pos].id == id {
            break;
        }
        pos = pos + 1;
    }
    if pos == batches.len() {
        proof {
            assert(!(exists|i: int| 0 <= i < batches@.len() && batches@[i].id == id));
        }
        return None;
    }
    proof {
        let i = batch_index(old(batches)@, id)->Some_0;
        assert(batches@[pos as int].id == id);
        assert(i == pos) by {
            if i < pos {
            } else if i > pos {
            }
        }
    }
    let mut b = batches[pos];
    b.remaining = if b.remaining > 0 { b.remaining - 1 } else { 0 };
    if success {
        b.updated = b.updated + 1;
    } else {
        b.failed = b.failed + 1;
    }
    batches.set(pos, b);
    if b.remaining != 0 {
        return None;
    }
    let ghost updated_list = batches@;
    let done = batches.swap_remove(pos);
    proof {
        assert(updated_list.update(pos as int, updated_list.last()).drop_last() =~= old(batches)@.update(
            pos as int,
            old(batches)@.last(),
        ).drop_last()) by {
            if pos as int == old(batches)@.len() - 1 {
            }
        }
    }
    Some(TransferAssetsBatchDone {
        id: done.id,
        requested: done.updated + done.failed,
        updated: done.updated,
        failed: done.failed,
    })
}

/// Why init failed.
#[derive(Debug, Clone)]
pub enum InitError {
    /// The client was asked to shut down.
    SendChannelClosed,
    /// A step that init cannot do without failed.
    CriticalStepFailed { step: String, message: String },
}

/// The required strategy-schema step of init, waiting for the schema.
#[derive(Debug, Clone, Copy, PartialEq, Eq, Structural)]
pub struct PendingStrategySchemaStep {
    pub schema_revision_before: u64,
    pub schema_failures_before: u64,
    /// Monotonic milliseconds at which the request went out.
    pub started_at_ms: u64,
}

/// What the strategy state shows about the schema when the step is polled.
#[derive(Debug, Clone)]
pub struct StrategySchemaView {
    /// The client was asked to shut down.
    pub shutdown_requested: bool,
    /// How many schemas were applied so far.
    pub schema_revision: u64,
    /// How many schema parses failed so far.
    pub schema_failures: u64,
    /// Kinds and fields of the applied schema, if one is held.
    pub schema_counts: Option<(usize, usize)>,
    /// Length of the raw schema bytes, if they are held.
    pub schema_raw_len: Option<usize>,
    /// Message of the last parse failure, if any.
    pub last_error: Option<String>,
}

/// What init records about the schema step.
#[derive(Debug, Clone)]
pub struct SchemaStepResult {
    pub strategy_schema_raw_bytes: usize,
    pub strategy_schema_kind_count: usize,
    pub strategy_schema_field_count: usize,
    pub errors: Vec<String>,
}

/// Outcome of polling the schema step.
#[derive(Debug, Clone)]
pub enum StrategySchemaPoll {
    Pending,
    Ready,
    Timeout,
    Failed(InitError),
}

/// Name of the schema step in messages.
pub open spec fn schema_step() -> Seq<char> {
    "TStratSchemaRequest"@
}

/// Whether the poll failed the step critically with the given step name and message.
pub open spec fn failed_with(r: StrategySchemaPoll, step: Seq<char>, message: Seq<char>) -> bool {
    match r {
        StrategySchemaPoll::Failed(InitError::CriticalStepFailed { step: s, message: m }) => s@ == step
            && m@ == message,
        _ => false,
    }
}

/// Start the schema step at `now_ms`, remembering the revision and failure
/// counters as they are before the request.
pub fn begin_required_strategy_schema_step(view: &StrategySchemaView, now_ms: u64) -> (r: PendingStrategySchemaStep)
    ensures
        r.schema_revision_before == view.schema_revision,
        r.schema_failures_before == view.schema_failures,
        r.started_at_ms == now_ms,
{
    PendingStrategySchemaStep {
        schema_revision_before: view.schema_revision,
        schema_failures_before: view.schema_failures,
        started_at_ms: now_ms,
    }
}

/// Append a text.
fn push_str(out: &mut String, s: &str)
    ensures
        final(out)@ == old(out)@ + s@,
{
    let ghost start = out@;
    for c in it: s.chars()
        invariant
            it.seq() == s@,
            out@ == start + s@.take(it.index() as int),
    {
        proof {
            assert(s@.take(it.index() + 1) =~= s@.take(it.index() as int).push(c));
        }
        out.push(c);
    }
    proof {
        assert(s@.take(s@.len() as int) =~= s@);
    }
}

/// `"{step}: {message}"`.
fn step_message(step: &str, message: &str) -> (r: String)
    ensures
        r@ == step@ + ": "@ + message@,
{
    let mut out = String::new();
    push_str(&mut out, step);
    push_str(&mut out, ": ");
    push_str(&mut out, message);
    proof {
        assert(out@ =~= step@ + ": "@ + message@);
    }
    out
}

/// Message of a revision that moved while no schema is held.
pub open spec fn empty_schema_message() -> Seq<char> {
    "schema revision advanced but schema state is empty"@
}

/// Message of a parse failure without a recorded error.
pub open spec fn default_failure_message() -> Seq<char> {
    "strategy schema parse failed"@
}

/// Poll the schema step at `now_ms`. In order: a shutdown fails it; a moved
/// revision makes it ready (recording the schema's sizes) or fails it when
/// no schema is held; a moved failure counter fails it with the recorded
/// message; then it times out once `timeout_ms` have passed since it
/// started; else it stays pending. Each failure but the shutdown is also
/// recorded as `"TStratSchemaRequest: {message}"`.
pub fn poll_required_strategy_schema_step(
    view: &StrategySchemaView,
    result: &mut SchemaStepResult,
    pending: &PendingStrategySchemaStep,
    timeout_ms: u64,
    now_ms: u64,
) -> (r: StrategySchemaPoll)
    ensures
        view.shutdown_requested ==> (r matches StrategySchemaPoll::Failed(InitError::SendChannelClosed))
            && *final(result) == *old(result),
        !view.shutdown_requested && view.schema_revision != pending.schema_revision_before ==> match view.schema_counts {
            Some((kinds, fields)) => (r matches StrategySchemaPoll::Ready) && final(result).strategy_schema_raw_bytes == (match view.schema_raw_len {
                Some(n) => n,
                None => 0,
            }) && final(result).strategy_schema_kind_count == kinds
                && final(result).strategy_schema_field_count == fields
                && final(result).errors == old(result).errors,
            None => failed_with(r, schema_step(), empty_schema_message())
                && final(result).errors@.len() == old(result).errors@.len() + 1
                && final(result).errors@.take(old(result).errors@.len() as int) == old(result).errors@
                && final(result).errors@.last()@ == schema_step() + ": "@ + empty_schema_message(),
        },
        !view.shutdown_requested && view.schema_revision == pending.schema_revision_before
            && view.schema_failures != pending.schema_failures_before ==> {
            let m = match view.last_error {
                Some(e) => e@,
                None => default_failure_message(),
            };
            &&& failed_with(r, schema_step(), m)
            &&& final(result).errors@.len() == old(result).errors@.len() + 1
            &&& final(result).errors@.take(old(result).errors@.len() as int) == old(result).errors@
            &&& final(result).errors@.last()@ == schema_step() + ": "@ + m
        },
        !view.shutdown_requested && view.schema_revision == pending.schema_revision_before
            && view.schema_failures == pending.schema_failures_before ==> *final(result) == *old(result)
            && if now_ms >= pending.started_at_ms && now_ms - pending.started_at_ms >= timeout_ms {
            r matches StrategySchemaPoll::Timeout
        } else {
            r matches StrategySchemaPoll::Pending
        },
{
    if view.shutdown_requested {
        return StrategySchemaPoll::Failed(InitError::SendChannelClosed);
    }
    if view.schema_revision != pending.schema_revision_before {
        match view.schema_counts {
            None => {
                let message = "schema revision advanced but schema state is empty".to_owned();
                let line = step_message("TStratSchemaRequest", message.as_str());
                result.errors.push(line);
                let step = "TStratSchemaRequest".to_owned();
                return StrategySchemaPoll::Failed(InitError::CriticalStepFailed { step, message });
            },
            Some((kinds, fields)) => {
                result.strategy_schema_raw_bytes = match view.schema_raw_len {
                    Some(n) => n,
                    None => 0,
                };
                result.strategy_schema_kind_count = kinds;
                result.strategy_schema_field_count = fields;
                return StrategySchemaPoll::Ready;
            },
        }
    }
    if view.schema_failures != pending.schema_failures_before {
        let message = match &view.last_error {
            Some(e) => e.clone(),
            None => "strategy schema parse failed".to_owned(),
        };
        let line = step_message("TStratSchemaRequest", message.as_str());
        result.errors.push(line);
        let step = "TStratSchemaRequest".to_owned();
        return StrategySchemaPoll::Failed(InitError::CriticalStepFailed { step, message });
    }
    if now_ms >= pending.started_at_ms && now_ms - pending.started_at_ms >= timeout_ms {
        return StrategySchemaPoll::Timeout;
    }
    StrategySchemaPoll::Pending
}


/// The page size that a raw `sysconf(_SC_PAGESIZE)` answer stands for: the
/// answer when it is positive and fits in `usize`.
pub fn page_size_from_sysconf(raw: i64) -> (r: Option<usize>)
    ensures
        r == (if 0 < raw && raw <= usize::MAX {
            Some(raw as usize)
        } else {
            None::<usize>
        }),
{
    if raw > 0 && (raw as u64) <= (usize::MAX as u64) {
        Some(raw as usize)
    } else {
        None
    }
}

/// Header fields of an engine API response.
#[derive(Debug, Clone, Copy, PartialEq, Eq, Structural)]
pub struct EngineResponseMeta {
    pub request_uid: u64,
    /// The engine method byte.
    pub method: u8,
    pub success: bool,
}

/// The `u32` stored little-endian at `p`.
fn u32_le(d: &[u8], p: usize) -> (r: u32)
    requires
        p + 4 <= d@.len(),
    ensures
        r == u32_at(d@, p as int),
{
    d[p] as u32 + 0x100 * d[p + 1] as u32 + 0x1_0000 * d[p + 2] as u32 + 0x100_0000 * d[p + 3] as u32
}

/// The `u64` stored little-endian at `p`.
fn u64_le(d: &[u8], p: usize) -> (r: u64)
    requires
        p + 8 <= d@.len(),
    ensures
        r == u64_at(d@, p as int),
{
    let _n = d.len();
    let lo = u32_le(d, p);
    let hi = u32_le(d, p + 4);
    lo as u64 + 0x1_0000_0000 * hi as u64
}

/// Byte length of the engine response fields up to the error message text:
/// the 11-byte command header, request id, method, success, error code and
/// the message length.
pub const ENGINE_META_SIZE: usize = 27;

/// The request id of an engine response: the eight bytes after the 11-byte
/// command header, when the payload has them.
pub fn engine_response_request_uid_from_payload(payload: &[u8]) -> (r: Option<u64>)
    ensures
        r == (if payload@.len() >= 19 {
            Some(u64_at(payload@, 11))
        } else {
            None::<u64>
        }),
{
    if payload.len() < 19 {
        return None;
    }
    Some(u64_le(payload, 11))
}

/// The header fields of an engine response, when the payload holds them and
/// the whole error message that follows.
pub fn engine_response_meta_from_payload(payload: &[u8]) -> (r: Option<EngineResponseMeta>)
    ensures
        r == (if payload@.len() >= ENGINE_META_SIZE && payload@.len() - ENGINE_META_SIZE >= u16_at(payload@, 25) {
            Some(EngineResponseMeta {
                request_uid: u64_at(payload@, 11),
                method: payload@[19],
                success: payload@[20] != 0,
            })
        } else {
            None::<EngineResponseMeta>
        }),
{
    if payload.len() < ENGINE_META_SIZE {
        return None;
    }
    let request_uid = u64_le(payload, 11);
    let method = payload[19];
    let success = payload[20] != 0;
    let len = payload[25] as u16 + 0x100 * payload[26] as u16;
    if payload.len() - ENGINE_META_SIZE < len as usize {
        return None;
    }
    Some(EngineResponseMeta { request_uid, method, success })
}

/// Receive and send buffer size asked of the OS for the client socket.
pub const SOCKET_BUFFER_BYTES: usize = 8388608;

/// Operating-system families that the socket options differ by.
#[derive(Debug, Clone, Copy, PartialEq, Eq, Structural)]
pub enum SocketPlatform {
    Windows,
    /// Linux and Android.
    Linux,
    /// macOS and iOS.
    Apple,
    Other,
}

/// The `setsockopt` call that switches "don't fragment" for a UDP socket:
/// `(level, option name, value)`, or `None` where the platform has none.
///
/// On Linux, enabling uses `IP_PMTUDISC_PROBE` (3) so that the protocol's
/// MTU probes carry DF while bypassing the cached path MTU, and disabling
/// returns to `IP_PMTUDISC_DONT` (0); elsewhere the option is a flag.
pub fn dont_fragment_option(platform: SocketPlatform, is_v6: bool, enable: bool) -> (r: Option<(i32, i32, i32)>)
    ensures
        r == (match platform {
            SocketPlatform::Windows => Some(
                if is_v6 {
                    (41i32, 14i32, if enable { 1i32 } else { 0i32 })
                } else {
                    (0i32, 14i32, if enable { 1i32 } else { 0i32 })
                },
            ),
            SocketPlatform::Linux => Some(
                if is_v6 {
                    (41i32, 23i32, if enable { 3i32 } else { 0i32 })
                } else {
                    (0i32, 10i32, if enable { 3i32 } else { 0i32 })
                },
            ),
            SocketPlatform::Apple => Some(
                if is_v6 {
                    (41i32, 62i32, if enable { 1i32 } else { 0i32 })
                } else {
                    (0i32, 28i32, if enable { 1i32 } else { 0i32 })
                },
            ),
            SocketPlatform::Other => None::<(i32, i32, i32)>,
        }),
{
    match platform {
        SocketPlatform::Windows => {
            let val: i32 = if enable { 1 } else { 0 };
            Some(if is_v6 { (41, 14, val) } else { (0, 14, val) })
        },
        SocketPlatform::Linux => {
            let val: i32 = if enable { 3 } else { 0 };
            Some(if is_v6 { (41, 23, val) } else { (0, 10, val) })
        },
        SocketPlatform::Apple => {
            let val: i32 = if enable { 1 } else { 0 };
            Some(if is_v6 { (41, 62, val) } else { (0, 28, val) })
        },
        SocketPlatform::Other => None,
    }
}

/// The idle deadline of a chunked request (re)started at `now_ms`.
pub fn chunk_idle_deadline(now_ms: u64) -> (r: u64)
    requires
        now_ms <= u64::MAX - CHUNK_IDLE_TIMEOUT_MS,
    ensures
        r == now_ms + CHUNK_IDLE_TIMEOUT_MS,
{
    now_ms + CHUNK_IDLE_TIMEOUT_MS
}

// ---------------------------------------------------------------------------
// Retained candles and market history
// ---------------------------------------------------------------------------

/// A candles-snapshot failure to report: the request it concerns and why.
#[derive(Debug, Clone)]
pub struct CandlesFailure {
    pub request_uid: u64,
    pub error: String,
}

/// What one poll of a pending full-candles request found.
#[derive(Debug, Clone, Copy, PartialEq, Eq, Structural)]
pub enum AutoCandlesRecv {
    /// Nothing yet.
    Empty,
    /// The sender is gone.
    Disconnected,
    /// The merged reply of request `uid` arrived; `applied` says whether the
    /// retained history took it, and, when it did, `barrier_available`
    /// whether the market-history worker handed out its barrier.
    Merged { uid: u64, applied: bool, barrier_available: bool },
}

/// What the loop does with a pending full-candles request after one poll.
#[derive(Debug, Clone)]
pub struct AutoCandlesStep {
    /// It stays pending.
    pub keep: bool,
    /// It waits for the market-history worker's barrier acknowledgement.
    pub await_barrier: bool,
    /// The "full candles requested" flag is cleared, so that a new request may go out.
    pub clear_requested: bool,
    /// Its request is dropped from the API's pending table.
    pub forget_request: bool,
    /// The failure to report, if any.
    pub failure: Option<CandlesFailure>,
}

/// What a step says: keep, await barrier, clear requested, forget request,
/// and the failure as request and message.
pub type StepView = (bool, bool, bool, bool, Option<(u64, Seq<char>)>);

/// What a full-candles step says.
pub open spec fn auto_candles_step_view(s: AutoCandlesStep) -> StepView {
    (
        s.keep,
        s.await_barrier,
        s.clear_requested,
        s.forget_request,
        match s.failure {
            Some(f) => Some((f.request_uid, f.error@)),
            None => None,
        },
    )
}

/// Message when the worker has no barrier after a snapshot was applied.
pub open spec fn worker_unavailable_msg() -> Seq<char> {
    "market history worker unavailable after snapshot apply"@
}

/// Message when the retained history did not take the snapshot.
pub open spec fn not_applied_msg() -> Seq<char> {
    "candles snapshot was not applied to retained history"@
}

/// Message when the reply channel closed before a reply.
pub open spec fn candles_closed_msg() -> Seq<char> {
    "pending full candles receiver closed before response"@
}

/// Message when a full-candles request idled out.
pub open spec fn candles_timeout_msg() -> Seq<char> {
    "pending full candles request timed out"@
}

/// The fate of pending full-candles request `item_uid` with idle deadline
/// `deadline_ms` after one poll at `now_ms`. A merged reply leaves the list:
/// once applied it waits for the worker's barrier, or fails when there is
/// none; when not applied it fails (under the reply's uid, or the request's
/// when the reply carries none). A closed channel or an idle timeout fails
/// the request, drops it from the pending table and clears the requested flag.
pub open spec fn auto_candles_step_spec(item_uid: u64, recv: AutoCandlesRecv, deadline_ms: u64, now_ms: u64) -> StepView {
    match recv {
        AutoCandlesRecv::Merged { uid, applied, barrier_available } => if applied {
            if barrier_available {
                (false, true, false, false, None)
            } else {
                (false, false, false, false, Some((uid, worker_unavailable_msg())))
            }
        } else {
            (false, false, false, false, Some((if uid != 0 { uid } else { item_uid }, not_applied_msg())))
        },
        AutoCandlesRecv::Disconnected => (false, false, true, true, Some((item_uid, candles_closed_msg()))),
        AutoCandlesRecv::Empty => if deadline_ms <= now_ms {
            (false, false, true, true, Some((item_uid, candles_timeout_msg())))
        } else {
            (true, false, false, false, None)
        },
    }
}

/// Decide the fate of a pending full-candles request after one poll.
pub fn auto_candles_step(item_uid: u64, recv: AutoCandlesRecv, deadline_ms: u64, now_ms: u64) -> (r: AutoCandlesStep)
    ensures
        auto_candles_step_view(r) == auto_candles_step_spec(item_uid, recv, deadline_ms, now_ms),
{
    let done = AutoCandlesStep { keep: false, await_barrier: false, clear_requested: false, forget_request: false, failure: None };
    match recv {
        AutoCandlesRecv::Merged { uid, applied, barrier_available } => {
            if applied {
                if barrier_available {
                    AutoCandlesStep { await_barrier: true, ..done }
                } else {
                    let error = "market history worker unavailable after snapshot apply".to_owned();
                    AutoCandlesStep { failure: Some(CandlesFailure { request_uid: uid, error }), ..done }
                }
            } else {
                let request_uid = if uid != 0 { uid } else { item_uid };
                let error = "candles snapshot was not applied to retained history".to_owned();
                AutoCandlesStep { failure: Some(CandlesFailure { request_uid, error }), ..done }
            }
        },
        AutoCandlesRecv::Disconnected => {
            let error = "pending full candles receiver closed before response".to_owned();
            AutoCandlesStep {
                clear_requested: true,
                forget_request: true,
                failure: Some(CandlesFailure { request_uid: item_uid, error }),
                ..done
            }
        },
        AutoCandlesRecv::Empty => {
            if deadline_ms <= now_ms {
                let error = "pending full candles request timed out".to_owned();
                AutoCandlesStep {
                    clear_requested: true,
                    forget_request: true,
                    failure: Some(CandlesFailure { request_uid: item_uid, error }),
                    ..done
                }
            } else {
                AutoCandlesStep { keep: true, ..done }
            }
        },
    }
}

/// What the loop does with an applied candles snapshot that waits for the
/// market-history worker's barrier acknowledgement.
#[derive(Debug, Clone)]
pub struct AutoCandlesApplyStep {
    /// It keeps waiting.
    pub keep: bool,
    /// The snapshot is reported ready with its apply summary.
    pub ready: bool,
    /// The "full candles requested" flag is cleared.
    pub clear_requested: bool,
    /// The failure to report, if any.
    pub failure: Option<CandlesFailure>,
}

/// What a barrier step says: keep, ready, clear requested, and the failure.
pub open spec fn auto_candles_apply_view(s: AutoCandlesApplyStep) -> (bool, bool, bool, Option<(u64, Seq<char>)>) {
    (
        s.keep,
        s.ready,
        s.clear_requested,
        match s.failure {
            Some(f) => Some((f.request_uid, f.error@)),
            None => None,
        },
    )
}

/// Message when the barrier channel closed before the acknowledgement.
pub open spec fn barrier_closed_msg() -> Seq<char> {
    "market history worker barrier closed before ack"@
}

/// Message when the barrier acknowledgement timed out.
pub open spec fn barrier_timeout_msg() -> Seq<char> {
    "market history worker barrier timed out"@
}

/// The fate of a snapshot of request `uid` waiting for the barrier, after
/// one poll: the acknowledgement makes it ready; a closed channel or the
/// deadline fails it and clears the requested flag.
pub open spec fn auto_candles_apply_spec(uid: u64, recv: RecvPoll, deadline_ms: u64, now_ms: u64) -> (bool, bool, bool, Option<(u64, Seq<char>)>) {
    match recv {
        RecvPoll::Ready => (false, true, false, None),
        RecvPoll::Disconnected => (false, false, true, Some((uid, barrier_closed_msg()))),
        RecvPoll::Empty => if deadline_ms <= now_ms {
            (false, false, true, Some((uid, barrier_timeout_msg())))
        } else {
            (true, false, false, None)
        },
    }
}

/// Decide the fate of a snapshot waiting for the barrier after one poll.
pub fn auto_candles_apply_step(uid: u64, recv: RecvPoll, deadline_ms: u64, now_ms: u64) -> (r: AutoCandlesApplyStep)
    ensures
        auto_candles_apply_view(r) == auto_candles_apply_spec(uid, recv, deadline_ms, now_ms),
{
    let done = AutoCandlesApplyStep { keep: false, ready: false, clear_requested: false, failure: None };
    match recv {
        RecvPoll::Ready => AutoCandlesApplyStep { ready: true, ..done },
        RecvPoll::Disconnected => {
            let error = "market history worker barrier closed before ack".to_owned();
            AutoCandlesApplyStep { clear_requested: true, failure: Some(CandlesFailure { request_uid: uid, error }), ..done }
        },
        RecvPoll::Empty => {
            if deadline_ms <= now_ms {
                let error = "market history worker barrier timed out".to_owned();
                AutoCandlesApplyStep {
                    clear_requested: true,
                    failure: Some(CandlesFailure { request_uid: uid, error }),
                    ..done
                }
            } else {
                AutoCandlesApplyStep { keep: true, ..done }
            }
        },
    }
}

/// What one poll of a pending market-history request found.
#[derive(Debug, Clone)]
pub enum MarketHistoryRecv {
    /// Nothing yet.
    Empty,
    /// The parser stopped.
    Disconnected,
    /// The parser reported an error.
    Failed(String),
    /// The parser merged the archive of request `uid`; when that is the
    /// pending request, `apply_started` says whether the retained history
    /// of the market took it for applying.
    Merged { uid: u64, apply_started: bool },
}

/// What the loop does with a pending market-history request after one poll.
#[derive(Debug, Clone)]
pub enum MarketHistoryStep {
    /// It stays pending.
    Wait,
    /// It idled out: drop its request from the pending table, request the
    /// whole archive again and restart the idle deadline.
    Retry,
    /// It leaves the list and waits for the apply acknowledgement.
    AwaitApply,
    /// It leaves the list and fails; `forget_request` drops its request from
    /// the pending table.
    Fail { error: String, forget_request: bool },
}

/// What a market-history step says.
pub enum MarketHistoryStepView {
    Wait,
    Retry,
    AwaitApply,
    Fail { error: Seq<char>, forget_request: bool },
}

/// What a market-history step says.
pub open spec fn market_history_step_view(s: MarketHistoryStep) -> MarketHistoryStepView {
    match s {
        MarketHistoryStep::Wait => MarketHistoryStepView::Wait,
        MarketHistoryStep::Retry => MarketHistoryStepView::Retry,
        MarketHistoryStep::AwaitApply => MarketHistoryStepView::AwaitApply,
        MarketHistoryStep::Fail { error, forget_request } => MarketHistoryStepView::Fail { error: error@, forget_request },
    }
}

/// Message when the parser answered another request.
pub open spec fn mismatched_uid_msg() -> Seq<char> {
    "market-history parser returned a mismatched request UID"@
}

/// Message when the market has no retained history to apply to.
pub open spec fn history_not_configured_msg() -> Seq<char> {
    "retained history is not configured for this market"@
}

/// Message when the parser stopped before completing.
pub open spec fn parser_stopped_msg() -> Seq<char> {
    "market-history parser stopped before completion"@
}

/// The fate of pending market-history request `item_uid` after one poll:
/// a merged archive of another request fails; one of this request goes to
/// be applied, or fails when the market has no retained history; a parser
/// error fails with its message; a stopped parser fails and drops the
/// request; an idle request past its deadline is retried whole.
pub open spec fn market_history_step_spec(item_uid: u64, recv: MarketHistoryRecv, deadline_ms: u64, now_ms: u64) -> MarketHistoryStepView {
    match recv {
        MarketHistoryRecv::Merged { uid, apply_started } => if uid != item_uid {
            MarketHistoryStepView::Fail { error: mismatched_uid_msg(), forget_request: false }
        } else if apply_started {
            MarketHistoryStepView::AwaitApply
        } else {
            MarketHistoryStepView::Fail { error: history_not_configured_msg(), forget_request: false }
        },
        MarketHistoryRecv::Failed(e) => MarketHistoryStepView::Fail { error: e@, forget_request: false },
        MarketHistoryRecv::Disconnected => MarketHistoryStepView::Fail { error: parser_stopped_msg(), forget_request: true },
        MarketHistoryRecv::Empty => if deadline_ms <= now_ms {
            MarketHistoryStepView::Retry
        } else {
            MarketHistoryStepView::Wait
        },
    }
}

/// Decide the fate of a pending market-history request after one poll.
pub fn market_history_step(item_uid: u64, recv: MarketHistoryRecv, deadline_ms: u64, now_ms: u64) -> (r: MarketHistoryStep)
    ensures
        market_history_step_view(r) == market_history_step_spec(item_uid, recv, deadline_ms, now_ms),
{
    match recv {
        MarketHistoryRecv::Merged { uid, apply_started } => {
            if uid != item_uid {
                MarketHistoryStep::Fail {
                    error: "market-history parser returned a mismatched request UID".to_owned(),
                    forget_request: false,
                }
            } else if apply_started {
                MarketHistoryStep::AwaitApply
            } else {
                MarketHistoryStep::Fail {
                    error: "retained history is not configured for this market".to_owned(),
                    forget_request: false,
                }
            }
        },
        MarketHistoryRecv::Failed(error) => MarketHistoryStep::Fail { error, forget_request: false },
        MarketHistoryRecv::Disconnected => MarketHistoryStep::Fail {
            error: "market-history parser stopped before completion".to_owned(),
            forget_request: true,
        },
        MarketHistoryRecv::Empty => {
            if deadline_ms <= now_ms {
                MarketHistoryStep::Retry
            } else {
                MarketHistoryStep::Wait
            }
        },
    }
}

/// What one poll of a market-history apply acknowledgement found.
#[derive(Debug, Clone)]
pub enum MarketHistoryApplyRecv {
    /// Nothing yet.
    Empty,
    /// The worker stopped.
    Disconnected,
    /// The archive was applied.
    Applied,
    /// Applying failed with this message.
    Failed(String),
}

/// What the loop does with an archive waiting for its apply acknowledgement.
#[derive(Debug, Clone)]
pub enum MarketHistoryApplyStep {
    /// It keeps waiting.
    Wait,
    /// It is reported ready with its apply summary.
    Ready,
    /// It is reported failed with this message.
    Fail(String),
}

/// What an apply-acknowledgement step says: `None` to wait, else ready (`Ok`) or the failure.
pub open spec fn market_history_apply_view(s: MarketHistoryApplyStep) -> Option<Result<(), Seq<char>>> {
    match s {
        MarketHistoryApplyStep::Wait => None,
        MarketHistoryApplyStep::Ready => Some(Ok(())),
        MarketHistoryApplyStep::Fail(e) => Some(Err(e@)),
    }
}

/// Message when the worker stopped before acknowledging.
pub open spec fn apply_stopped_msg() -> Seq<char> {
    "market-history worker stopped before apply acknowledgement"@
}

/// Message when the apply acknowledgement timed out.
pub open spec fn apply_timeout_msg() -> Seq<char> {
    "market-history apply acknowledgement timed out"@
}

/// The fate of an archive waiting for its apply acknowledgement after one
/// poll: applied is ready, an apply error or a stopped worker fails, and
/// with nothing read it fails once `now_ms` reaches the deadline.
pub open spec fn market_history_apply_spec(recv: MarketHistoryApplyRecv, deadline_ms: u64, now_ms: u64) -> Option<Result<(), Seq<char>>> {
    match recv {
        MarketHistoryApplyRecv::Applied => Some(Ok(())),
        MarketHistoryApplyRecv::Failed(e) => Some(Err(e@)),
        MarketHistoryApplyRecv::Disconnected => Some(Err(apply_stopped_msg())),
        MarketHistoryApplyRecv::Empty => if deadline_ms <= now_ms {
            Some(Err(apply_timeout_msg()))
        } else {
            None
        },
    }
}

/// Decide the fate of an archive waiting for its apply acknowledgement.
pub fn market_history_apply_step(recv: MarketHistoryApplyRecv, deadline_ms: u64, now_ms: u64) -> (r: MarketHistoryApplyStep)
    ensures
        market_history_apply_view(r) == market_history_apply_spec(recv, deadline_ms, now_ms),
{
    match recv {
        MarketHistoryApplyRecv::Applied => MarketHistoryApplyStep::Ready,
        MarketHistoryApplyRecv::Failed(error) => MarketHistoryApplyStep::Fail(error),
        MarketHistoryApplyRecv::Disconnected => MarketHistoryApplyStep::Fail(
            "market-history worker stopped before apply acknowledgement".to_owned(),
        ),
        MarketHistoryApplyRecv::Empty => {
            if deadline_ms <= now_ms {
                MarketHistoryApplyStep::Fail("market-history apply acknowledgement timed out".to_owned())
            } else {
                MarketHistoryApplyStep::Wait
            }
        },
    }
}

} // verus!
