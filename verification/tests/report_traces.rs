use moonproto::report_traces::{parse_traces, ReportEvent, ReportTraceRequests, ReportTraceTicket};
use std::sync::Arc;

// Order type bytes used to tell the lines apart; 255 is a byte the core may add later.
const BUY: u8 = 0;
const SELL: u8 = 1;
const BUY_STOP: u8 = 2;

fn line(own: bool, order_type: u8, points: &[(i64, f64)]) -> Vec<u8> {
    let mut raw = vec![u8::from(own), order_type];
    raw.extend_from_slice(&0.123456789012345_f64.to_le_bytes());
    raw.extend_from_slice(&1_800_000_000_123_i64.to_le_bytes());
    raw.extend_from_slice(&(points.len() as u32).to_le_bytes());
    for (time, price) in points {
        raw.extend_from_slice(&time.to_le_bytes());
        raw.extend_from_slice(&price.to_le_bytes());
    }
    raw
}

#[test]
fn archive_preserves_own_inherited_geometry_precision_and_utc_time() {
    let points = [(1_800_000_000_123, 0.000000123456789012345), (0, 0.0), (1_799_999_999_987, 9.9)];
    let mut raw = vec![1];
    raw.extend(line(true, BUY, &points));
    raw.extend(line(true, SELL, &points[..1]));
    raw.extend(line(false, BUY_STOP, &[]));
    raw.extend(line(false, 255, &points));
    let traces = parse_traces(&raw).unwrap();
    assert_eq!(traces.len(), 4);
    assert!(traces[0].own && traces[1].own);
    assert!(!traces[2].own && !traces[3].own);
    assert_eq!(traces[0].order_type, BUY);
    assert_eq!(traces[1].order_type, SELL);
    assert_eq!(traces[2].order_type, BUY_STOP);
    assert_eq!(traces[3].order_type, 255);
    assert!(traces[2].points.is_empty());
    assert_eq!(traces[0].stop_time.unix_millis(), 1_800_000_000_123);
    assert_eq!(traces[0].stop_price, 0.123456789012345_f64.to_bits());
    for (actual, (time, price)) in traces[0].points.iter().zip(points) {
        assert_eq!(actual.time.unix_millis(), time);
        assert_eq!(actual.price, price.to_bits());
    }
}

#[test]
fn archive_accepts_large_lines_without_a_client_side_point_cap() {
    let points = vec![(1_800_000_000_123, 0.000012345678901234); 20_000];
    let mut raw = vec![1];
    raw.extend(line(true, BUY, &points));
    let traces = parse_traces(&raw).unwrap();
    assert_eq!(traces[0].points.len(), points.len());
    let last = traces[0].points.last().unwrap();
    assert_eq!(last.time.unix_millis(), points[19_999].0);
    assert_eq!(f64::from_bits(last.price), points[19_999].1);
}

#[test]
fn archive_rejects_partial_records_bad_counts_and_unknown_versions() {
    let mut raw = vec![1];
    raw.extend(line(true, SELL, &[(123, 4.5)]));
    for end in 2..raw.len() {
        assert!(parse_traces(&raw[..end]).is_none(), "accepted prefix {end}");
    }
    raw[19..23].copy_from_slice(&u32::MAX.to_le_bytes());
    assert!(parse_traces(&raw).is_none());
    assert!(parse_traces(&[2]).is_none());
    assert!(parse_traces(&[]).unwrap().is_empty());
    assert!(parse_traces(&[1]).unwrap().is_empty());
}

#[test]
fn own_flag_is_the_low_bit() {
    let mut raw = vec![1];
    let mut l = line(true, BUY, &[]);
    l[0] = 3;
    raw.extend(l);
    let mut l = line(true, BUY, &[]);
    l[0] = 2;
    raw.extend(l);
    let traces = parse_traces(&raw).unwrap();
    assert!(traces[0].own);
    assert!(!traces[1].own);
}

fn ticket(request_id: u64, report_uid: i64) -> ReportTraceTicket {
    ReportTraceTicket { request_id, report_uid }
}

#[test]
fn requests_match_out_of_order_and_share_duplicate_report_answers() {
    let mut state = ReportTraceRequests::new();
    let deadline = 1_000 + 12_000;
    let a = ticket(10, i64::MIN);
    let b = ticket(20, 22);
    let repeated_a = ticket(30, a.report_uid);
    assert!(state.begin(a, deadline));
    assert!(state.begin(b, deadline));
    assert!(!state.begin(repeated_a, deadline));
    let mut out = Vec::new();
    state.complete(99, Ok(&[2]), &mut out);
    assert!(out.is_empty());
    state.complete(b.request_id, Ok(&[]), &mut out);
    assert!(matches!(&out[0], ReportEvent::TraceReady { ticket, traces } if *ticket == b && traces.is_empty()));
    out.clear();
    let mut raw = vec![1];
    raw.extend(line(true, BUY, &[(123, 4.5)]));
    state.complete(a.request_id, Ok(&raw), &mut out);
    let [ReportEvent::TraceReady { ticket: ta, traces: first }, ReportEvent::TraceReady { ticket: tr, traces: second }] =
        out.as_slice()
    else {
        panic!("{out:?}")
    };
    assert_eq!((*ta, *tr), (a, repeated_a));
    assert!(Arc::ptr_eq(first, second));
    assert_eq!(first[0].points.len(), 1);
    assert!(state.is_empty());
    out.clear();
    state.complete(a.request_id, Ok(&raw), &mut out);
    assert!(out.is_empty());
}

#[test]
fn malformed_and_timed_out_requests_fail_without_caching_absence() {
    let mut state = ReportTraceRequests::new();
    let deadline = 5_000 + 12_000;
    let a = ticket(1, -1);
    let b = ticket(2, 99);
    let repeated_b = ticket(3, b.report_uid);
    state.begin(a, deadline);
    state.begin(b, deadline);
    state.begin(repeated_b, deadline + 60_000);
    let mut out = Vec::new();
    let mut invalid = vec![1];
    invalid.extend(line(true, BUY, &[(123, 4.5)]));
    invalid.push(0); // No partial-success event for the valid first line.
    state.complete(a.request_id, Ok(&invalid), &mut out);
    assert!(matches!(&out[0], ReportEvent::TraceFailed { ticket, .. } if *ticket == a));
    out.clear();
    state.tick(deadline - 1, &mut out);
    assert!(out.is_empty());
    state.tick(deadline, &mut out);
    assert_eq!(out.len(), 2);
    assert!(out.iter().all(|event| matches!(event, ReportEvent::TraceFailed { .. })));
    assert!(state.is_empty());
    out.clear();
    state.complete(b.request_id, Ok(&[]), &mut out);
    assert!(out.is_empty());
    assert!(state.begin(ticket(4, b.report_uid), deadline));
}

#[test]
fn refused_request_passes_the_core_message_to_every_ticket() {
    let mut state = ReportTraceRequests::new();
    assert!(state.begin(ticket(7, 5), 100));
    assert!(!state.begin(ticket(8, 5), 100));
    let mut out = Vec::new();
    state.complete(7, Err("no such report"), &mut out);
    assert_eq!(out.len(), 2);
    for (event, id) in out.iter().zip([7, 8]) {
        match event {
            ReportEvent::TraceFailed { ticket, error } => {
                assert_eq!(ticket.request_id, id);
                assert_eq!(error, "no such report");
            }
            other => panic!("{other:?}"),
        }
    }
    out.clear();
    state.complete(8, Ok(&[]), &mut out);
    assert!(out.is_empty());
}

#[test]
fn timed_out_requests_say_so() {
    let mut state = ReportTraceRequests::new();
    state.begin(ticket(1, 1), 10);
    let mut out = Vec::new();
    state.tick(10, &mut out);
    match &out[0] {
        ReportEvent::TraceFailed { error, .. } => assert_eq!(error, "report trace request timed out"),
        other => panic!("{other:?}"),
    }
}

#[test]
fn a_repeated_request_id_replaces_the_pending_one() {
    let mut state = ReportTraceRequests::new();
    assert!(state.begin(ticket(1, 10), 50));
    assert!(state.begin(ticket(1, 20), 50));
    let mut out = Vec::new();
    state.complete(1, Ok(&[]), &mut out);
    assert_eq!(out.len(), 1);
    assert!(state.is_empty());
}
