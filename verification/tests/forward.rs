use svix_cli2::forward::{
    build_outbound, is_blocked_header, parse_status_line, serialize_request, truncate_body,
};
use svix_cli2::frame::{decode_frame_bytes, encode_frame};
use svix_cli2::gate::{Header, Method, RelayedRequest};
use svix_cli2::url::parse_local_url_bytes;

fn header(name: &[u8], value: &[u8]) -> Header {
    Header { name: name.to_vec(), value: value.to_vec() }
}

fn sample_request() -> RelayedRequest {
    RelayedRequest {
        id: b"msg_7".to_vec(),
        method: Method::Post,
        path: b"/hook".to_vec(),
        headers: vec![
            header(b"Content-Type", b"application/json"),
            header(b"Connection", b"keep-alive"),
            header(b"svix-relay-trace", b"abc"),
            header(b"X-Event", b"created"),
            header(b"Host", b"relay.example"),
        ],
        body: b"hi".to_vec(),
        signature: None,
        timestamp: 1_600_000_000,
        received_at: 1_600_000_001,
    }
}

#[test]
fn blocked_headers_are_case_insensitive() {
    assert!(is_blocked_header(&b"Connection".to_vec()));
    assert!(is_blocked_header(&b"HOST".to_vec()));
    assert!(is_blocked_header(&b"Transfer-Encoding".to_vec()));
    assert!(is_blocked_header(&b"content-length".to_vec()));
    assert!(is_blocked_header(&b"Svix-Relay-Anything".to_vec()));
    assert!(!is_blocked_header(&b"Content-Type".to_vec()));
    assert!(!is_blocked_header(&b"X-Event".to_vec()));
}

#[test]
fn outbound_keeps_method_path_body_and_filters_headers() {
    let req = sample_request();
    let ob = build_outbound(&req);
    assert_eq!(ob.method, Method::Post);
    assert_eq!(ob.path, b"/hook".to_vec());
    assert_eq!(ob.body, b"hi".to_vec());
    let names: Vec<Vec<u8>> = ob.headers.iter().map(|h| h.name.clone()).collect();
    assert_eq!(names, vec![b"Content-Type".to_vec(), b"X-Event".to_vec()]);
    assert_eq!(ob.headers[0].value, b"application/json".to_vec());
    assert_eq!(ob.headers[1].value, b"created".to_vec());
}

#[test]
fn serialized_request_is_exact() {
    let req = sample_request();
    let ob = build_outbound(&req);
    let bytes = serialize_request(&ob, &b"localhost:8080".to_vec());
    let expected = b"POST /hook HTTP/1.1\r\n\
host: localhost:8080\r\n\
Content-Type: application/json\r\n\
X-Event: created\r\n\
content-length: 2\r\n\
\r\n\
hi"
    .to_vec();
    assert_eq!(String::from_utf8_lossy(&bytes), String::from_utf8_lossy(&expected));
}

#[test]
fn status_line_parsing() {
    assert_eq!(parse_status_line(b"HTTP/1.1 200 OK\r\n"), Some(200));
    assert_eq!(parse_status_line(b"HTTP/1.0 404 Not Found\r\n"), Some(404));
    assert_eq!(parse_status_line(b"HTTP/1.1 503 Unavailable"), Some(503));
    assert_eq!(parse_status_line(b"HTTP/1.1 20"), None);
    assert_eq!(parse_status_line(b"SSH-2.0-OpenSSH\r\n"), None);
    assert_eq!(parse_status_line(b""), None);
    assert_eq!(parse_status_line(b"HTTP/11 200 OK"), None);
}

#[test]
fn body_truncation_keeps_prefix() {
    assert_eq!(truncate_body(b"abcdef".to_vec(), 4), b"abcd".to_vec());
    assert_eq!(truncate_body(b"ab".to_vec(), 4), b"ab".to_vec());
    assert_eq!(truncate_body(Vec::new(), 4), Vec::<u8>::new());
}

#[test]
fn local_url_parsing_accepts_http_and_https() {
    let u = parse_local_url_bytes(b"http://localhost:8080/hook").unwrap();
    assert!(!u.https);
    assert_eq!(u.host, b"localhost".to_vec());
    assert_eq!(u.port, 8080);
    assert_eq!(u.path, b"/hook".to_vec());

    let u = parse_local_url_bytes(b"https://127.0.0.1/a/b?x=1").unwrap();
    assert!(u.https);
    assert_eq!(u.host, b"127.0.0.1".to_vec());
    assert_eq!(u.port, 443);
    assert_eq!(u.path, b"/a/b?x=1".to_vec());

    let u = parse_local_url_bytes(b"http://box").unwrap();
    assert_eq!(u.host, b"box".to_vec());
    assert_eq!(u.port, 80);
    assert_eq!(u.path, b"/".to_vec());

    let u = parse_local_url_bytes(b"http://box:99").unwrap();
    assert_eq!(u.port, 99);
    assert_eq!(u.path, b"/".to_vec());
}

#[test]
fn local_url_parsing_rejects_bad_input() {
    assert!(parse_local_url_bytes(b"ftp://host/x").is_none());
    assert!(parse_local_url_bytes(b"localhost:8080").is_none());
    assert!(parse_local_url_bytes(b"http://").is_none());
    assert!(parse_local_url_bytes(b"http://:8080/x").is_none());
    assert!(parse_local_url_bytes(b"http://host:/x").is_none());
    assert!(parse_local_url_bytes(b"http://host:99999/x").is_none());
    assert!(parse_local_url_bytes(b"http://host:12a/x").is_none());
    assert!(parse_local_url_bytes(b"").is_none());
}

#[test]
fn frame_round_trip_preserves_every_field() {
    let mut req = sample_request();
    req.signature = Some(vec![9u8; 32]);
    let wire = encode_frame(&req);
    let back = decode_frame_bytes(&wire, 42).expect("well-formed frame decodes");
    assert_eq!(back.id, req.id);
    assert_eq!(back.method, req.method);
    assert_eq!(back.path, req.path);
    assert_eq!(back.headers.len(), req.headers.len());
    for (a, b) in back.headers.iter().zip(req.headers.iter()) {
        assert_eq!(a.name, b.name);
        assert_eq!(a.value, b.value);
    }
    assert_eq!(back.body, req.body);
    assert_eq!(back.signature, req.signature);
    assert_eq!(back.timestamp, req.timestamp);
    assert_eq!(back.received_at, 42);
}

#[test]
fn frame_without_signature_round_trips() {
    let req = sample_request();
    let wire = encode_frame(&req);
    let back = decode_frame_bytes(&wire, 7).unwrap();
    assert_eq!(back.signature, None);
    assert_eq!(back.body, req.body);
}

#[test]
fn malformed_frames_are_refused() {
    assert!(decode_frame_bytes(b"", 0).is_none());
    assert!(decode_frame_bytes(b"\x01\x02", 0).is_none());
    assert!(decode_frame_bytes(&[0xff; 64], 0).is_none());
    let req = sample_request();
    let mut wire = encode_frame(&req);
    wire.push(0);
    assert!(decode_frame_bytes(&wire, 0).is_none(), "trailing bytes are refused");
    let wire = encode_frame(&req);
    assert!(decode_frame_bytes(&wire[..wire.len() - 1], 0).is_none(), "truncation is refused");
}
