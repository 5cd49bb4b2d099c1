use hmac::Mac;
use svix_cli2::gate::{
    compute_signature, u64_to_dec, verify, Method, RejectReason, RelayedRequest, Verdict,
};
use svix_cli2::token::RelayToken;

fn test_token() -> RelayToken {
    RelayToken::from_bytes((0u8..24u8).collect())
}

fn delivery(body: &[u8], timestamp: u64, signature: Option<Vec<u8>>) -> RelayedRequest {
    RelayedRequest {
        id: b"msg_1".to_vec(),
        method: Method::Post,
        path: b"/webhook".to_vec(),
        headers: Vec::new(),
        body: body.to_vec(),
        signature,
        timestamp,
        received_at: timestamp,
    }
}

#[test]
fn genuine_delivery_passes_within_window() {
    let token = test_token();
    let now: u64 = 1_600_000_000;
    let sig = compute_signature(&token, now - 10, &b"{\"id\":\"evt_1\"}".to_vec());
    let req = delivery(b"{\"id\":\"evt_1\"}", now - 10, Some(sig));
    assert_eq!(verify(&req, &token, now, 300, true), Verdict::Passed);
}

#[test]
fn single_byte_body_mutation_fails_verification() {
    let token = test_token();
    let now: u64 = 1_600_000_000;
    let body = b"{\"id\":\"evt_1\"}".to_vec();
    let sig = compute_signature(&token, now, &body);
    let mut mutated = body.clone();
    for i in 0..mutated.len() {
        mutated[i] ^= 0x01;
        let req = delivery(&mutated, now, Some(sig.clone()));
        assert_eq!(
            verify(&req, &token, now, 300, true),
            Verdict::Rejected(RejectReason::BadSignature),
            "mutation at byte {i} must fail"
        );
        mutated[i] ^= 0x01;
    }
}

#[test]
fn stale_timestamp_rejected_even_with_correct_signature() {
    let token = test_token();
    let now: u64 = 1_600_000_000;
    let old = now - 301;
    let sig = compute_signature(&token, old, &b"x".to_vec());
    let req = delivery(b"x", old, Some(sig));
    assert_eq!(
        verify(&req, &token, now, 300, true),
        Verdict::Rejected(RejectReason::StaleTimestamp)
    );
}

#[test]
fn future_timestamp_outside_window_rejected() {
    let token = test_token();
    let now: u64 = 1_600_000_000;
    let future = now + 301;
    let sig = compute_signature(&token, future, &b"x".to_vec());
    let req = delivery(b"x", future, Some(sig));
    assert_eq!(
        verify(&req, &token, now, 300, true),
        Verdict::Rejected(RejectReason::StaleTimestamp)
    );
}

#[test]
fn disabled_security_passes_everything() {
    let token = test_token();
    let now: u64 = 1_600_000_000;
    let garbage = delivery(b"whatever", now - 9999, Some(vec![0u8; 32]));
    assert_eq!(verify(&garbage, &token, now, 300, false), Verdict::Passed);
    let unsigned = delivery(b"whatever", 0, None);
    assert_eq!(verify(&unsigned, &token, now, 300, false), Verdict::Passed);
}

#[test]
fn missing_signature_is_a_verification_failure() {
    let token = test_token();
    let now: u64 = 1_600_000_000;
    let req = delivery(b"x", now, None);
    assert_eq!(
        verify(&req, &token, now, 300, true),
        Verdict::Rejected(RejectReason::MissingSignature)
    );
}

#[test]
fn wrong_signature_rejected() {
    let token = test_token();
    let now: u64 = 1_600_000_000;
    let req = delivery(b"x", now, Some(vec![7u8; 32]));
    assert_eq!(
        verify(&req, &token, now, 300, true),
        Verdict::Rejected(RejectReason::BadSignature)
    );
}

#[test]
fn signature_agrees_with_hmac_sha256_of_signed_payload() {
    let token = test_token();
    let body = b"hello".to_vec();
    let timestamp: u64 = 1_600_000_000;
    let ours = compute_signature(&token, timestamp, &body);

    let mut payload = timestamp.to_string().into_bytes();
    payload.push(b'.');
    payload.extend_from_slice(&body);
    let mut mac = <hmac::Hmac<sha2::Sha256> as Mac>::new_from_slice(&token.bytes).unwrap();
    mac.update(&payload);
    let expected = mac.finalize().into_bytes().to_vec();

    assert_eq!(ours, expected);
    assert_eq!(ours.len(), 32);
}

#[test]
fn decimal_rendering_is_exact() {
    assert_eq!(u64_to_dec(0), b"0".to_vec());
    assert_eq!(u64_to_dec(7), b"7".to_vec());
    assert_eq!(u64_to_dec(1_234_567_890), b"1234567890".to_vec());
    assert_eq!(u64_to_dec(u64::MAX), b"18446744073709551615".to_vec());
}

#[test]
fn token_generation_and_hex() {
    let t = RelayToken::generate().expect("entropy available");
    assert_eq!(t.bytes.len(), 24);
    let hex = t.to_hex();
    assert_eq!(hex.len(), 48);
    assert!(hex.iter().all(|c| c.is_ascii_hexdigit()));

    let fixed = RelayToken::from_bytes(vec![0x00, 0x0f, 0xa5, 0xff, 1, 2, 3, 4, 5, 6, 7, 8, 9,
        10, 11, 12, 13, 14, 15, 16, 17, 18, 19, 20]);
    let hex = fixed.to_hex();
    assert!(hex.starts_with(b"000fa5ff01020304"));
}

#[test]
fn hex_round_trips_a_persisted_token() {
    let t = RelayToken::generate().unwrap();
    let hex = t.to_hex();
    let back = RelayToken::from_hex(&hex).expect("own rendering reads back");
    assert_eq!(back.bytes, t.bytes);

    let mut upper = hex.clone();
    upper.make_ascii_uppercase();
    let back = RelayToken::from_hex(&upper).expect("upper-case digits are accepted");
    assert_eq!(back.bytes, t.bytes);
}

#[test]
fn bad_hex_is_refused() {
    assert!(RelayToken::from_hex(b"").is_none());
    assert!(RelayToken::from_hex(b"0f").is_none(), "too short");
    let mut text = vec![b'a'; 48];
    assert!(RelayToken::from_hex(&text).is_some());
    text[10] = b'g';
    assert!(RelayToken::from_hex(&text).is_none(), "a non-digit is refused");
    text.push(b'a');
    assert!(RelayToken::from_hex(&text).is_none(), "wrong length is refused");
}
