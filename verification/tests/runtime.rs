use moonproto::runtime::{
    begin_required_strategy_schema_step, engine_response_meta_from_payload,
    engine_response_request_uid_from_payload, extend_chunk_deadline, page_size_from_sysconf,
    pending_outcome, poll_required_strategy_schema_step, InitError, PendingOutcome, RecvPoll,
    SchemaStepResult, StrategySchemaPoll, StrategySchemaView, CHUNK_IDLE_TIMEOUT_MS,
};
use moonproto::runtime::{dont_fragment_option, SocketPlatform};
use moonproto::runtime::{finish_transfer_assets_batch_item, PendingTransferAssetsBatch, TransferAssetsBatchDone};

fn fresh_view() -> StrategySchemaView {
    StrategySchemaView {
        shutdown_requested: false,
        schema_revision: 0,
        schema_failures: 0,
        schema_counts: None,
        schema_raw_len: None,
        last_error: None,
    }
}

fn empty_result() -> SchemaStepResult {
    SchemaStepResult {
        strategy_schema_raw_bytes: 0,
        strategy_schema_kind_count: 0,
        strategy_schema_field_count: 0,
        errors: Vec::new(),
    }
}

#[test]
fn unrelated_sliced_progress_does_not_extend_strategy_schema_deadline() {
    let now_ms: u64 = 10000;
    let view = fresh_view();
    let mut pending = begin_required_strategy_schema_step(&view, now_ms);
    pending.started_at_ms = now_ms - 2000;
    assert!(matches!(
        poll_required_strategy_schema_step(&view, &mut empty_result(), &pending, 1000, now_ms),
        StrategySchemaPoll::Timeout
    ));
}

#[test]
fn schema_step_stays_pending_before_the_timeout() {
    let view = fresh_view();
    let pending = begin_required_strategy_schema_step(&view, 5000);
    assert!(matches!(
        poll_required_strategy_schema_step(&view, &mut empty_result(), &pending, 1000, 5999),
        StrategySchemaPoll::Pending
    ));
    assert!(matches!(
        poll_required_strategy_schema_step(&view, &mut empty_result(), &pending, 1000, 6000),
        StrategySchemaPoll::Timeout
    ));
}

#[test]
fn schema_step_is_ready_when_the_revision_moves() {
    let before = fresh_view();
    let pending = begin_required_strategy_schema_step(&before, 0);
    let mut after = fresh_view();
    after.schema_revision = 1;
    after.schema_counts = Some((4, 120));
    after.schema_raw_len = Some(900);
    let mut result = empty_result();
    assert!(matches!(
        poll_required_strategy_schema_step(&after, &mut result, &pending, 1000, 50000),
        StrategySchemaPoll::Ready
    ));
    assert_eq!(result.strategy_schema_raw_bytes, 900);
    assert_eq!(result.strategy_schema_kind_count, 4);
    assert_eq!(result.strategy_schema_field_count, 120);
    assert!(result.errors.is_empty());
}

#[test]
fn schema_step_fails_on_empty_schema_parse_failure_and_shutdown() {
    let before = fresh_view();
    let pending = begin_required_strategy_schema_step(&before, 0);

    let mut moved = fresh_view();
    moved.schema_revision = 1;
    let mut result = empty_result();
    match poll_required_strategy_schema_step(&moved, &mut result, &pending, 1000, 0) {
        StrategySchemaPoll::Failed(InitError::CriticalStepFailed { step, message }) => {
            assert_eq!(step, "TStratSchemaRequest");
            assert_eq!(message, "schema revision advanced but schema state is empty");
        }
        _ => panic!("expected a failed step"),
    }
    assert_eq!(
        result.errors,
        vec!["TStratSchemaRequest: schema revision advanced but schema state is empty".to_string()]
    );

    let mut failed = fresh_view();
    failed.schema_failures = 1;
    let mut result = empty_result();
    match poll_required_strategy_schema_step(&failed, &mut result, &pending, 1000, 0) {
        StrategySchemaPoll::Failed(InitError::CriticalStepFailed { message, .. }) => {
            assert_eq!(message, "strategy schema parse failed");
        }
        _ => panic!("expected a failed step"),
    }
    failed.last_error = Some("bad kind table".into());
    let mut result = empty_result();
    assert!(matches!(
        poll_required_strategy_schema_step(&failed, &mut result, &pending, 1000, 0),
        StrategySchemaPoll::Failed(InitError::CriticalStepFailed { .. })
    ));
    assert_eq!(result.errors, vec!["TStratSchemaRequest: bad kind table".to_string()]);

    let mut closing = fresh_view();
    closing.shutdown_requested = true;
    closing.schema_revision = 1;
    assert!(matches!(
        poll_required_strategy_schema_step(&closing, &mut empty_result(), &pending, 1000, 0),
        StrategySchemaPoll::Failed(InitError::SendChannelClosed)
    ));
}

#[test]
fn chunk_deadline_moves_only_with_progress() {
    let mut deadline = 100;
    let mut seen = 3;
    extend_chunk_deadline(&mut deadline, &mut seen, 3, 5000);
    assert_eq!((deadline, seen), (100, 3));
    extend_chunk_deadline(&mut deadline, &mut seen, 4, 5000);
    assert_eq!((deadline, seen), (5000 + CHUNK_IDLE_TIMEOUT_MS, 4));
    assert_eq!(CHUNK_IDLE_TIMEOUT_MS, 15000);
}

#[test]
fn pending_requests_deliver_close_time_out_or_wait() {
    assert_eq!(pending_outcome(RecvPoll::Ready, 0, 100), PendingOutcome::Deliver);
    assert_eq!(pending_outcome(RecvPoll::Disconnected, 1000, 100), PendingOutcome::Closed);
    assert_eq!(pending_outcome(RecvPoll::Empty, 100, 100), PendingOutcome::TimedOut);
    assert_eq!(pending_outcome(RecvPoll::Empty, 101, 100), PendingOutcome::Wait);
}

#[test]
fn page_size_keeps_only_positive_answers() {
    assert_eq!(page_size_from_sysconf(4096), Some(4096));
    assert_eq!(page_size_from_sysconf(0), None);
    assert_eq!(page_size_from_sysconf(-1), None);
}

fn engine_payload(uid: u64, method: u8, success: bool, message: &[u8]) -> Vec<u8> {
    let mut p = vec![0u8; 11];
    p.extend_from_slice(&uid.to_le_bytes());
    p.push(method);
    p.push(success as u8);
    p.extend_from_slice(&7i32.to_le_bytes());
    p.extend_from_slice(&(message.len() as u16).to_le_bytes());
    p.extend_from_slice(message);
    p
}

#[test]
fn engine_response_header_fields() {
    let p = engine_payload(0x0102030405060708, 9, true, b"fine");
    assert_eq!(engine_response_request_uid_from_payload(&p), Some(0x0102030405060708));
    let meta = engine_response_meta_from_payload(&p).unwrap();
    assert_eq!(meta.request_uid, 0x0102030405060708);
    assert_eq!(meta.method, 9);
    assert!(meta.success);
    assert_eq!(engine_response_request_uid_from_payload(&p[..18]), None);
    assert!(engine_response_meta_from_payload(&p[..p.len() - 1]).is_none());
    assert!(engine_response_meta_from_payload(&p[..20]).is_none());
}

#[test]
fn dont_fragment_options_per_platform() {
    assert_eq!(dont_fragment_option(SocketPlatform::Linux, false, true), Some((0, 10, 3)));
    assert_eq!(dont_fragment_option(SocketPlatform::Linux, true, false), Some((41, 23, 0)));
    assert_eq!(dont_fragment_option(SocketPlatform::Windows, false, true), Some((0, 14, 1)));
    assert_eq!(dont_fragment_option(SocketPlatform::Windows, true, true), Some((41, 14, 1)));
    assert_eq!(dont_fragment_option(SocketPlatform::Apple, false, true), Some((0, 28, 1)));
    assert_eq!(dont_fragment_option(SocketPlatform::Apple, true, false), Some((41, 62, 0)));
    assert_eq!(dont_fragment_option(SocketPlatform::Other, true, true), None);
}

fn batch(id: u64, remaining: usize) -> PendingTransferAssetsBatch {
    PendingTransferAssetsBatch { id, remaining, updated: 0, failed: 0 }
}

#[test]
fn transfer_asset_batches_count_until_done() {
    let mut batches = vec![batch(1, 2), batch(2, 1), batch(3, 5)];
    assert_eq!(finish_transfer_assets_batch_item(&mut batches, None, true), None);
    assert_eq!(finish_transfer_assets_batch_item(&mut batches, Some(9), true), None);
    assert_eq!(batches.len(), 3);
    assert_eq!(finish_transfer_assets_batch_item(&mut batches, Some(1), true), None);
    assert_eq!(batches[0], PendingTransferAssetsBatch { id: 1, remaining: 1, updated: 1, failed: 0 });
    let done = finish_transfer_assets_batch_item(&mut batches, Some(1), false);
    assert_eq!(done, Some(TransferAssetsBatchDone { id: 1, requested: 2, updated: 1, failed: 1 }));
    // The last batch takes the finished batch's place.
    assert_eq!(batches.iter().map(|b| b.id).collect::<Vec<_>>(), vec![3, 2]);
    let done = finish_transfer_assets_batch_item(&mut batches, Some(2), false);
    assert_eq!(done, Some(TransferAssetsBatchDone { id: 2, requested: 1, updated: 0, failed: 1 }));
    assert_eq!(batches.len(), 1);
}

use moonproto::runtime::{
    auto_candles_apply_step, auto_candles_step, chunk_idle_deadline, market_history_apply_step,
    market_history_step, AutoCandlesRecv, MarketHistoryApplyRecv, MarketHistoryApplyStep, MarketHistoryRecv,
    MarketHistoryStep,
};

#[test]
fn applied_candles_wait_for_the_worker_barrier() {
    let s = auto_candles_step(7, AutoCandlesRecv::Merged { uid: 7, applied: true, barrier_available: true }, 0, 100);
    assert!(!s.keep && s.await_barrier && !s.clear_requested && !s.forget_request && s.failure.is_none());
    let s = auto_candles_step(7, AutoCandlesRecv::Merged { uid: 7, applied: true, barrier_available: false }, 0, 100);
    let f = s.failure.unwrap();
    assert_eq!((f.request_uid, f.error.as_str()), (7, "market history worker unavailable after snapshot apply"));
    assert!(!s.keep && !s.await_barrier);
}

#[test]
fn unapplied_candles_fail_under_the_reply_uid_or_the_request_uid() {
    let s = auto_candles_step(7, AutoCandlesRecv::Merged { uid: 9, applied: false, barrier_available: true }, 0, 0);
    let f = s.failure.unwrap();
    assert_eq!((f.request_uid, f.error.as_str()), (9, "candles snapshot was not applied to retained history"));
    let s = auto_candles_step(7, AutoCandlesRecv::Merged { uid: 0, applied: false, barrier_available: false }, 0, 0);
    assert_eq!(s.failure.unwrap().request_uid, 7);
    assert!(!s.clear_requested && !s.forget_request);
}

#[test]
fn lost_or_idle_candle_requests_fail_and_free_the_request_flag() {
    let s = auto_candles_step(3, AutoCandlesRecv::Disconnected, 1_000, 10);
    assert!(!s.keep && s.clear_requested && s.forget_request);
    assert_eq!(s.failure.unwrap().error, "pending full candles receiver closed before response");
    let s = auto_candles_step(3, AutoCandlesRecv::Empty, 1_000, 999);
    assert!(s.keep && s.failure.is_none() && !s.clear_requested);
    let s = auto_candles_step(3, AutoCandlesRecv::Empty, 1_000, 1_000);
    assert!(!s.keep && s.clear_requested && s.forget_request);
    assert_eq!(s.failure.unwrap().error, "pending full candles request timed out");
}

#[test]
fn candle_barrier_acknowledgement_and_its_failures() {
    let s = auto_candles_apply_step(5, RecvPoll::Ready, 0, 100);
    assert!(s.ready && !s.keep && s.failure.is_none());
    let s = auto_candles_apply_step(5, RecvPoll::Disconnected, 200, 100);
    assert!(s.clear_requested);
    assert_eq!(s.failure.unwrap().error, "market history worker barrier closed before ack");
    let s = auto_candles_apply_step(5, RecvPoll::Empty, 200, 100);
    assert!(s.keep && !s.ready);
    let s = auto_candles_apply_step(5, RecvPoll::Empty, 200, 200);
    assert_eq!(s.failure.unwrap().error, "market history worker barrier timed out");
}

#[test]
fn market_history_replies_are_matched_to_their_request() {
    let s = market_history_step(4, MarketHistoryRecv::Merged { uid: 5, apply_started: true }, 0, 0);
    assert!(matches!(s, MarketHistoryStep::Fail { ref error, forget_request: false }
        if error == "market-history parser returned a mismatched request UID"));
    let s = market_history_step(4, MarketHistoryRecv::Merged { uid: 4, apply_started: true }, 0, 0);
    assert!(matches!(s, MarketHistoryStep::AwaitApply));
    let s = market_history_step(4, MarketHistoryRecv::Merged { uid: 4, apply_started: false }, 0, 0);
    assert!(matches!(s, MarketHistoryStep::Fail { ref error, .. }
        if error == "retained history is not configured for this market"));
    let s = market_history_step(4, MarketHistoryRecv::Failed("bad archive".to_string()), 0, 0);
    assert!(matches!(s, MarketHistoryStep::Fail { ref error, forget_request: false } if error == "bad archive"));
    let s = market_history_step(4, MarketHistoryRecv::Disconnected, 0, 0);
    assert!(matches!(s, MarketHistoryStep::Fail { ref error, forget_request: true }
        if error == "market-history parser stopped before completion"));
}

#[test]
fn idle_market_history_is_requested_again() {
    assert!(matches!(market_history_step(4, MarketHistoryRecv::Empty, 500, 499), MarketHistoryStep::Wait));
    assert!(matches!(market_history_step(4, MarketHistoryRecv::Empty, 500, 500), MarketHistoryStep::Retry));
    assert_eq!(chunk_idle_deadline(500), 500 + CHUNK_IDLE_TIMEOUT_MS);
}

#[test]
fn market_history_apply_acknowledgement_and_its_failures() {
    assert!(matches!(market_history_apply_step(MarketHistoryApplyRecv::Applied, 0, 9), MarketHistoryApplyStep::Ready));
    assert!(matches!(market_history_apply_step(MarketHistoryApplyRecv::Empty, 10, 9), MarketHistoryApplyStep::Wait));
    assert!(matches!(market_history_apply_step(MarketHistoryApplyRecv::Failed("x".into()), 10, 9),
        MarketHistoryApplyStep::Fail(ref e) if e == "x"));
    assert!(matches!(market_history_apply_step(MarketHistoryApplyRecv::Disconnected, 10, 9),
        MarketHistoryApplyStep::Fail(ref e) if e == "market-history worker stopped before apply acknowledgement"));
    assert!(matches!(market_history_apply_step(MarketHistoryApplyRecv::Empty, 10, 10),
        MarketHistoryApplyStep::Fail(ref e) if e == "market-history apply acknowledgement timed out"));
}
