use svix_cli2::forward::{ForwardOutcome, ForwardResult};
use svix_cli2::gate::Method;
use svix_cli2::history::{render_line, EntryOutcome, HistoryEntry, HistoryStore};

fn entry(id: &[u8], received_at: u64) -> HistoryEntry {
    HistoryEntry {
        request_id: id.to_vec(),
        method: Method::Post,
        path: b"/webhook".to_vec(),
        received_at,
        outcome: EntryOutcome::Pending,
    }
}

fn ok_result(status: u16, latency_ms: u64) -> ForwardResult {
    ForwardResult {
        outcome: ForwardOutcome::Status(status),
        latency_ms,
        completed_at: 1_600_000_100,
        response_body: Vec::new(),
    }
}

#[test]
fn capacity_is_never_exceeded_and_oldest_is_evicted() {
    let mut h = HistoryStore::new(3, true);
    for i in 0..5u64 {
        h.record(entry(format!("msg_{i}").as_bytes(), i));
        assert!(h.len() <= 3);
    }
    assert_eq!(h.len(), 3);
    assert_eq!(h.entry_at(0).request_id, b"msg_2".to_vec());
    assert_eq!(h.entry_at(1).request_id, b"msg_3".to_vec());
    assert_eq!(h.entry_at(2).request_id, b"msg_4".to_vec());
}

#[test]
fn zero_capacity_keeps_nothing() {
    let mut h = HistoryStore::new(0, true);
    h.record(entry(b"msg_1", 1));
    assert_eq!(h.len(), 0);
}

#[test]
fn completion_updates_in_place_and_keeps_order() {
    let mut h = HistoryStore::new(10, true);
    h.record(entry(b"msg_1", 1));
    h.record(entry(b"msg_2", 2));
    h.record(entry(b"msg_3", 3));

    let ix = h.complete(&b"msg_2".to_vec(), ok_result(200, 12));
    assert_eq!(ix, Some(1));
    assert_eq!(h.len(), 3);
    assert_eq!(h.entry_at(0).request_id, b"msg_1".to_vec());
    assert_eq!(h.entry_at(1).request_id, b"msg_2".to_vec());
    assert_eq!(h.entry_at(2).request_id, b"msg_3".to_vec());
    assert!(matches!(h.entry_at(0).outcome, EntryOutcome::Pending));
    assert!(matches!(
        h.entry_at(1).outcome,
        EntryOutcome::Completed(ForwardResult { outcome: ForwardOutcome::Status(200), .. })
    ));
    assert!(matches!(h.entry_at(2).outcome, EntryOutcome::Pending));
}

#[test]
fn completing_an_unknown_delivery_changes_nothing() {
    let mut h = HistoryStore::new(10, true);
    h.record(entry(b"msg_1", 1));
    assert_eq!(h.complete(&b"msg_9".to_vec(), ok_result(200, 1)), None);
    assert_eq!(h.len(), 1);
    assert!(matches!(h.entry_at(0).outcome, EntryOutcome::Pending));
}

#[test]
fn completion_only_touches_pending_entries() {
    let mut h = HistoryStore::new(10, true);
    h.record(entry(b"msg_1", 1));
    assert_eq!(h.complete(&b"msg_1".to_vec(), ok_result(200, 5)), Some(0));
    // A second completion for the same id finds no pending entry.
    assert_eq!(h.complete(&b"msg_1".to_vec(), ok_result(500, 6)), None);
    assert!(matches!(
        h.entry_at(0).outcome,
        EntryOutcome::Completed(ForwardResult { outcome: ForwardOutcome::Status(200), .. })
    ));
}

#[test]
fn retention_disabled_retains_nothing() {
    let mut h = HistoryStore::new(10, false);
    h.record(entry(b"msg_1", 1));
    h.record(entry(b"msg_2", 2));
    assert_eq!(h.len(), 0);
}

#[test]
fn rendered_lines_are_exact() {
    let mut e = entry(b"msg_1", 1);
    e.outcome = EntryOutcome::Completed(ok_result(200, 12));
    assert_eq!(String::from_utf8(render_line(&e)).unwrap(), "POST /webhook -> 200 (12ms)");

    e.outcome = EntryOutcome::Completed(ForwardResult {
        outcome: ForwardOutcome::Timeout,
        latency_ms: 5000,
        completed_at: 0,
        response_body: Vec::new(),
    });
    assert_eq!(String::from_utf8(render_line(&e)).unwrap(), "POST /webhook -> timeout");

    e.outcome = EntryOutcome::Completed(ForwardResult {
        outcome: ForwardOutcome::NetworkError,
        latency_ms: 0,
        completed_at: 0,
        response_body: Vec::new(),
    });
    assert_eq!(String::from_utf8(render_line(&e)).unwrap(), "POST /webhook -> network error");

    e.outcome = EntryOutcome::Rejected(svix_cli2::gate::RejectReason::StaleTimestamp);
    assert_eq!(
        String::from_utf8(render_line(&e)).unwrap(),
        "POST /webhook -> rejected: stale timestamp"
    );

    e.outcome = EntryOutcome::Pending;
    assert_eq!(String::from_utf8(render_line(&e)).unwrap(), "POST /webhook -> pending");
}
