use moonproto::chunked::{CandlesAggregator, ChunkedResponseAggregator, ChunkedResponseResult};
use moonproto::state::{KernelProblem, MoonTime, ProblemCategory, ProblemsState};
use std::sync::Arc;

fn fragment(index: u16, total: u16, payload: &[u8]) -> Vec<u8> {
    let mut v = index.to_le_bytes().to_vec();
    v.extend_from_slice(&total.to_le_bytes());
    v.extend_from_slice(payload);
    v
}

#[test]
fn chunks_join_in_index_order_whatever_the_arrival() {
    let mut agg = ChunkedResponseAggregator::new("candles", 1024);
    assert_eq!(agg.on_chunk(&fragment(2, 3, b"ef")), ChunkedResponseResult::Stored);
    assert_eq!(agg.on_chunk(&fragment(0, 3, b"ab")), ChunkedResponseResult::Stored);
    assert_eq!(agg.progress(), (2, 3));
    assert_eq!(
        agg.on_chunk(&fragment(1, 3, b"cd")),
        ChunkedResponseResult::Complete(b"abcdef".to_vec())
    );
}

#[test]
fn chunks_ignore_malformed_duplicate_and_out_of_range_fragments() {
    let mut agg = ChunkedResponseAggregator::new("candles", 1024);
    assert_eq!(agg.on_chunk(&[1, 0, 2]), ChunkedResponseResult::Ignored);
    assert_eq!(agg.on_chunk(&fragment(0, 0, b"x")), ChunkedResponseResult::Ignored);
    assert_eq!(agg.on_chunk(&fragment(0, 2, b"x")), ChunkedResponseResult::Stored);
    assert_eq!(agg.on_chunk(&fragment(0, 2, b"y")), ChunkedResponseResult::Ignored);
    assert_eq!(agg.on_chunk(&fragment(5, 2, b"y")), ChunkedResponseResult::Ignored);
    assert_eq!(agg.on_chunk(&fragment(1, 2, b"z")), ChunkedResponseResult::Complete(b"xz".to_vec()));
}

#[test]
fn chunks_over_the_cap_are_ignored() {
    let mut agg = ChunkedResponseAggregator::new("candles", 3);
    assert_eq!(agg.on_chunk(&fragment(0, 2, b"abc")), ChunkedResponseResult::Stored);
    assert_eq!(agg.on_chunk(&fragment(1, 2, b"d")), ChunkedResponseResult::Ignored);
}

#[test]
fn candles_aggregator_gives_the_joined_payload() {
    let mut agg = CandlesAggregator::with_max_payload_bytes(100);
    assert_eq!(agg.on_chunk(&fragment(1, 2, b"2")), None);
    assert_eq!(agg.on_chunk(&fragment(0, 2, b"1")), Some(b"12".to_vec()));
}

fn problem(kind: u8, title: &str) -> Arc<KernelProblem> {
    Arc::new(KernelProblem {
        kind,
        kind_name: "test".into(),
        category: ProblemCategory::from_byte(3),
        title: title.into(),
        message: String::new(),
        technical_details: String::new(),
        first_seen: MoonTime::from_unix_millis(1_788_600_000_123),
        confirmed: MoonTime::from_unix_millis(1_788_600_002_456),
        confirmations: 1,
    })
}

#[test]
fn problem_categories_keep_unknown_bytes() {
    assert_eq!(ProblemCategory::from_byte(0), ProblemCategory::Machine);
    assert_eq!(ProblemCategory::from_byte(3), ProblemCategory::Other);
    assert_eq!(ProblemCategory::from_byte(250), ProblemCategory::Unknown(250));
}

#[test]
fn problems_state_latest_notification_wins_then_full_replaces() {
    let mut s = ProblemsState::new();
    assert!(!s.snapshot_received());
    s.apply_notification(problem(22, "first"));
    s.apply_notification(problem(22, "second"));
    assert_eq!(s.items().len(), 1);
    assert_eq!(s.items()[0].title, "second");
    s.apply_snapshot(vec![problem(1, "full")]);
    assert!(s.snapshot_received());
    assert_eq!(s.items().len(), 1);
    assert_eq!(s.items()[0].kind, 1);
    s.clear();
    assert!(s.items().is_empty());
}

#[test]
fn problems_notification_replaces_the_first_row_of_its_kind() {
    let mut s = ProblemsState::new();
    s.apply_snapshot(vec![problem(5, "a"), problem(7, "b"), problem(5, "c")]);
    s.apply_notification(problem(5, "new"));
    let titles: Vec<&str> = s.items().iter().map(|p| p.title.as_str()).collect();
    assert_eq!(titles, ["new", "b", "c"]);
    s.apply_notification(problem(9, "appended"));
    assert_eq!(s.items().len(), 4);
    assert_eq!(s.items()[3].kind, 9);
    assert!(s.snapshot_received());
}
