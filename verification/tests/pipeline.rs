use svix_cli2::forward::{serialize_request, ForwardOutcome, ForwardResult};
use svix_cli2::gate::{compute_signature, Method, RejectReason, RelayedRequest};
use svix_cli2::history::EntryOutcome;
use svix_cli2::pipeline::{AdmitDecision, Pipeline};
use svix_cli2::token::RelayToken;

const NOW: u64 = 1_600_000_000;
const WINDOW: u64 = 300;

fn token() -> RelayToken {
    RelayToken::from_bytes((100u8..124u8).collect())
}

fn signed_delivery(id: &[u8], body: &[u8], timestamp: u64) -> RelayedRequest {
    let tok = token();
    let sig = compute_signature(&tok, timestamp, &body.to_vec());
    RelayedRequest {
        id: id.to_vec(),
        method: Method::Post,
        path: b"/webhook".to_vec(),
        headers: Vec::new(),
        body: body.to_vec(),
        signature: Some(sig),
        timestamp,
        received_at: timestamp,
    }
}

fn ok200(latency_ms: u64) -> ForwardResult {
    ForwardResult {
        outcome: ForwardOutcome::Status(200),
        latency_ms,
        completed_at: NOW + 1,
        response_body: b"ok".to_vec(),
    }
}

#[test]
fn signed_delivery_is_forwarded_once_and_recorded_with_status_200() {
    let tok = token();
    let mut p = Pipeline::new(16, true, WINDOW, true);
    let req = signed_delivery(b"msg_1", b"{\"id\":\"evt_1\"}", NOW - 5);

    // The security gate passes it; exactly one outbound request leaves for the
    // local server, with the identical POST body.
    let mut forwards = 0;
    let ob = match p.accept(&req, &tok, NOW) {
        AdmitDecision::Forward(ob) => {
            forwards += 1;
            ob
        }
        AdmitDecision::Reject(reason, _) => panic!("unexpected rejection: {reason:?}"),
    };
    assert_eq!(forwards, 1);
    assert_eq!(ob.method, Method::Post);
    assert_eq!(ob.body, b"{\"id\":\"evt_1\"}".to_vec());
    let wire = serialize_request(&ob, &b"localhost:3000".to_vec());
    let text = String::from_utf8_lossy(&wire).into_owned();
    assert!(text.starts_with("POST /webhook HTTP/1.1\r\n"));
    assert!(text.ends_with("{\"id\":\"evt_1\"}"));

    // The local server answers 200; the pending record completes in place.
    let line = p.complete(&b"msg_1".to_vec(), ok200(12)).expect("a pending record exists");
    assert_eq!(String::from_utf8(line).unwrap(), "POST /webhook -> 200 (12ms)");
    assert_eq!(p.history.len(), 1);
    assert!(matches!(
        p.history.entry_at(0).outcome,
        EntryOutcome::Completed(ForwardResult { outcome: ForwardOutcome::Status(200), .. })
    ));
}

#[test]
fn stale_delivery_is_rejected_and_nothing_reaches_the_local_server() {
    let tok = token();
    let mut p = Pipeline::new(16, true, WINDOW, true);
    let req = signed_delivery(b"msg_2", b"{}", NOW - WINDOW - 1);

    let mut forwards = 0;
    match p.accept(&req, &tok, NOW) {
        AdmitDecision::Forward(_) => forwards += 1,
        AdmitDecision::Reject(reason, line) => {
            assert_eq!(reason, RejectReason::StaleTimestamp);
            assert_eq!(
                String::from_utf8(line).unwrap(),
                "POST /webhook -> rejected: stale timestamp"
            );
        }
    }
    assert_eq!(forwards, 0, "the local server sees no request");
    assert_eq!(p.history.len(), 1);
    assert!(matches!(
        p.history.entry_at(0).outcome,
        EntryOutcome::Rejected(RejectReason::StaleTimestamp)
    ));
}

#[test]
fn retention_disabled_still_renders_a_line_per_delivery_but_keeps_nothing() {
    let tok = token();
    let mut p = Pipeline::new(16, false, WINDOW, true);
    let mut lines: Vec<String> = Vec::new();

    for (i, id) in [b"msg_a", b"msg_b"].iter().enumerate() {
        let req = signed_delivery(*id, b"{}", NOW - i as u64);
        match p.accept(&req, &tok, NOW) {
            AdmitDecision::Forward(_) => {
                let line = p.complete(&id.to_vec(), ok200(3)).expect("rendered at completion");
                lines.push(String::from_utf8(line).unwrap());
            }
            AdmitDecision::Reject(_, line) => {
                lines.push(String::from_utf8(line).unwrap());
            }
        }
    }

    assert_eq!(lines.len(), 2, "one console line per delivery");
    assert!(lines.iter().all(|l| l == "POST /webhook -> 200 (3ms)"));
    assert_eq!(p.history.len(), 0, "the retained collection stays empty");
    assert_eq!(p.inflight.len(), 0, "nothing transient is kept either");
}

#[test]
fn a_failed_forward_does_not_stop_subsequent_deliveries() {
    let tok = token();
    let mut p = Pipeline::new(16, true, WINDOW, true);

    let first = signed_delivery(b"msg_1", b"{}", NOW);
    assert!(matches!(p.accept(&first, &tok, NOW), AdmitDecision::Forward(_)));
    // The local URL is unreachable: the forward lands as a network error.
    let line = p
        .complete(
            &b"msg_1".to_vec(),
            ForwardResult {
                outcome: ForwardOutcome::NetworkError,
                latency_ms: 30,
                completed_at: NOW,
                response_body: Vec::new(),
            },
        )
        .unwrap();
    assert_eq!(String::from_utf8(line).unwrap(), "POST /webhook -> network error");

    // The next delivery is processed exactly as before.
    let second = signed_delivery(b"msg_2", b"{}", NOW);
    assert!(matches!(p.accept(&second, &tok, NOW), AdmitDecision::Forward(_)));
    let line = p.complete(&b"msg_2".to_vec(), ok200(4)).unwrap();
    assert_eq!(String::from_utf8(line).unwrap(), "POST /webhook -> 200 (4ms)");
    assert_eq!(p.history.len(), 2);
}

#[test]
fn security_opt_out_forwards_unsigned_deliveries() {
    let tok = token();
    let mut p = Pipeline::new(16, true, WINDOW, false);
    let req = RelayedRequest {
        id: b"msg_x".to_vec(),
        method: Method::Get,
        path: b"/ping".to_vec(),
        headers: Vec::new(),
        body: Vec::new(),
        signature: None,
        timestamp: 0,
        received_at: NOW,
    };
    assert!(matches!(p.accept(&req, &tok, NOW), AdmitDecision::Forward(_)));
}
