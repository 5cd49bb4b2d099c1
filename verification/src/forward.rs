//! Request forwarder: turns a verified delivery into the outbound HTTP
//! request that replays it against the developer's local URL, and captures
//! the outcome of one replay.
//!
//! The socket work itself lives outside this crate; here stand the parts
//! that decide what is sent and how a raw response is read.

use vstd::prelude::*;
use vstd::string::StringSliceAdditionalSpecFns;
use crate::gate::{Header, Method, RelayedRequest, bytes_eq, dec_digits, u64_to_dec};

verus! {

/// The ghost image of a header: its name and value as byte sequences.
pub struct HeaderV {
    pub name: Seq<u8>,
    pub value: Seq<u8>,
}

impl View for Header {
    type V = HeaderV;

    open spec fn view(&self) -> HeaderV {
        HeaderV { name: self.name@, value: self.value@ }
    }
}

/// The ghost images of a run of headers, in order.
pub open spec fn header_views(hs: Seq<Header>) -> Seq<HeaderV> {
    hs.map_values(|h: Header| h@)
}

/// A byte with any ASCII upper-case letter folded to lower case.
pub open spec fn lower_byte(c: u8) -> u8 {
    if 65 <= c <= 90 {
        (c + 32) as u8
    } else {
        c
    }
}

/// A byte sequence with every ASCII upper-case letter folded to lower case;
/// header names compare case-insensitively.
pub open spec fn lower_bytes(s: Seq<u8>) -> Seq<u8> {
    s.map_values(|c: u8| lower_byte(c))
}

/// Folds a header name to lower case.
fn to_lower(s: &Vec<u8>) -> (r: Vec<u8>)
    ensures
        r@ == lower_bytes(s@),
{
    let mut out: Vec<u8> = Vec::new();
    let mut i: usize = 0;
    while i < s.len()
        invariant
            i <= s@.len(),
            out@ == lower_bytes(s@.take(i as int)),
        decreases s@.len() - i,
    {
        let c = s[i];
        if 65 <= c && c <= 90 {
            out.push(c + 32);
        } else {
            out.push(c);
        }
        i = i + 1;
        proof {
            assert(out@ =~= lower_bytes(s@.take(i as int)));
        }
    }
    proof {
        assert(s@.take(s@.len() as int) =~= s@);
    }
    out
}

/// Whether a byte sequence begins with the given prefix.
pub fn has_prefix(a: &[u8], p: &[u8]) -> (r: bool)
    ensures
        r == (a@.len() >= p@.len() && a@.take(p@.len() as int) == p@),
{
    if a.len() < p.len() {
        return false;
    }
    let mut i: usize = 0;
    while i < p.len()
        invariant
            i <= p@.len() <= a@.len(),
            forall|j: int| 0 <= j < i ==> a@[j] == p@[j],
        decreases p@.len() - i,
    {
        if a[i] != p[i] {
            proof {
                assert(a@.take(p@.len() as int)[i as int] != p@[i as int]);
            }
            return false;
        }
        i = i + 1;
    }
    proof {
        assert(a@.take(p@.len() as int) =~= p@);
    }
    true
}

/// The headers a replay never carries over: hop-by-hop headers, the ones
/// the forwarder recomputes for the local request (host, content-length),
/// and the relay's own internal headers.
pub open spec fn blocked_header(name: Seq<u8>) -> bool {
    let low = lower_bytes(name);
    ||| low == "host".spec_bytes()
    ||| low == "connection".spec_bytes()
    ||| low == "keep-alive".spec_bytes()
    ||| low == "proxy-authenticate".spec_bytes()
    ||| low == "proxy-authorization".spec_bytes()
    ||| low == "te".spec_bytes()
    ||| low == "trailer".spec_bytes()
    ||| low == "transfer-encoding".spec_bytes()
    ||| low == "upgrade".spec_bytes()
    ||| low == "content-length".spec_bytes()
    ||| (low.len() >= "svix-relay-".spec_bytes().len()
        && low.take("svix-relay-".spec_bytes().len() as int) == "svix-relay-".spec_bytes())
}

/// Decides whether one header is held back from the replay.
pub fn is_blocked_header(name: &Vec<u8>) -> (r: bool)
    ensures
        r == blocked_header(name@),
{
    let low = to_lower(name);
    let l = low.as_slice();
    bytes_eq(l, "host".as_bytes()) || bytes_eq(l, "connection".as_bytes()) || bytes_eq(
        l,
        "keep-alive".as_bytes(),
    ) || bytes_eq(l, "proxy-authenticate".as_bytes()) || bytes_eq(
        l,
        "proxy-authorization".as_bytes(),
    ) || bytes_eq(l, "te".as_bytes()) || bytes_eq(l, "trailer".as_bytes()) || bytes_eq(
        l,
        "transfer-encoding".as_bytes(),
    ) || bytes_eq(l, "upgrade".as_bytes()) || bytes_eq(l, "content-length".as_bytes())
        || has_prefix(l, "svix-relay-".as_bytes())
}

/// The headers that survive filtering, in their original order.
pub open spec fn kept_header_views(hs: Seq<HeaderV>) -> Seq<HeaderV> {
    hs.filter(|h: HeaderV| !blocked_header(h.name))
}

/// The outbound HTTP request that replays one delivery locally.
pub struct OutboundRequest {
    pub method: Method,
    pub path: Vec<u8>,
    pub headers: Vec<Header>,
    pub body: Vec<u8>,
}

/// Builds the outbound request for a delivery: same method, path and body;
/// the header mapping with the blocked names left out, order kept.
pub fn build_outbound(req: &RelayedRequest) -> (r: OutboundRequest)
    ensures
        r.method == req.method,
        r.path@ == req.path@,
        r.body@ == req.body@,
        header_views(r.headers@) == kept_header_views(header_views(req.headers@)),
{
    let mut headers: Vec<Header> = Vec::new();
    let mut i: usize = 0;
    proof {
        reveal(Seq::filter);
        assert(header_views(req.headers@.take(0)) =~= Seq::empty());
    }
    while i < req.headers.len()
        invariant
            i <= req.headers@.len(),
            header_views(headers@) == kept_header_views(
                header_views(req.headers@.take(i as int)),
            ),
        decreases req.headers@.len() - i,
    {
        let h = &req.headers[i];
        let ghost prev = header_views(req.headers@.take(i as int));
        if !is_blocked_header(&h.name) {
            headers.push(copy_header(h));
        }
        i = i + 1;
        proof {
            reveal(Seq::filter);
            let cur = header_views(req.headers@.take(i as int));
            assert(cur.drop_last() =~= prev);
            assert(cur.last() == req.headers@[i - 1]@);
            assert(header_views(headers@) =~= kept_header_views(cur));
        }
    }
    proof {
        assert(req.headers@.take(req.headers@.len() as int) =~= req.headers@);
    }
    OutboundRequest {
        method: req.method,
        path: copy_bytes(&req.path),
        headers,
        body: copy_bytes(&req.body),
    }
}

/// A fresh vector with the same bytes.
pub fn copy_bytes(v: &Vec<u8>) -> (r: Vec<u8>)
    ensures
        r@ == v@,
{
    let mut out: Vec<u8> = Vec::new();
    out.extend_from_slice(v.as_slice());
    proof {
        assert forall|i: int| 0 <= i < out@.len() implies out@[i] == v@[i] by {
            assert(vstd::pervasive::cloned::<u8>(v@[i], out@[i]));
        }
        assert(out@ =~= v@);
    }
    out
}

/// A fresh header with the same name and value.
fn copy_header(h: &Header) -> (r: Header)
    ensures
        r@ == h@,
{
    Header { name: copy_bytes(&h.name), value: copy_bytes(&h.value) }
}

/// How one replay ended: a response status, or the failure kind. None of
/// these is fatal to the tunnel.
#[derive(Clone, Copy, Debug, PartialEq, Eq, Structural)]
pub enum ForwardOutcome {
    /// The local server answered with this status code.
    Status(u16),
    /// The bounded forward timeout elapsed without a response.
    Timeout,
    /// The connection to the local URL could not be made or broke.
    NetworkError,
}

/// The captured outcome of replaying one delivery.
pub struct ForwardResult {
    pub outcome: ForwardOutcome,
    /// Time from send to outcome, in milliseconds.
    pub latency_ms: u64,
    /// Local time at which the outcome landed, in seconds.
    pub completed_at: u64,
    /// The response body, possibly truncated for retention.
    pub response_body: Vec<u8>,
}

/// Cuts a response body down to at most `max` bytes, keeping a prefix.
pub fn truncate_body(body: Vec<u8>, max: usize) -> (r: Vec<u8>)
    ensures
        body@.len() <= max ==> r@ == body@,
        body@.len() > max ==> r@ == body@.take(max as int),
{
    let mut body = body;
    if body.len() > max {
        body.truncate(max);
    }
    body
}

/// The HTTP line terminator.
pub open spec fn crlf() -> Seq<u8> {
    "\r\n".spec_bytes()
}

/// One serialized header line.
pub open spec fn header_line(h: HeaderV) -> Seq<u8> {
    h.name + ": ".spec_bytes() + h.value + crlf()
}

/// The serialized header lines of a run of headers, in order.
pub open spec fn header_block(hs: Seq<HeaderV>) -> Seq<u8>
    decreases hs.len(),
{
    if hs.len() == 0 {
        Seq::empty()
    } else {
        header_block(hs.drop_last()) + header_line(hs.last())
    }
}

/// The full wire form of an outbound replay request: request line, a host
/// header for the local target, the forwarded headers, a recomputed
/// content-length, and the body.
pub open spec fn request_bytes(
    method: Method,
    path: Seq<u8>,
    host: Seq<u8>,
    headers: Seq<HeaderV>,
    body: Seq<u8>,
) -> Seq<u8> {
    crate::gate::method_bytes(method) + " ".spec_bytes() + path + " HTTP/1.1".spec_bytes()
        + crlf() + "host: ".spec_bytes() + host + crlf() + header_block(headers)
        + "content-length: ".spec_bytes() + dec_digits(body.len()) + crlf() + crlf() + body
}

/// Appends bytes to a buffer.
pub fn append_bytes(out: &mut Vec<u8>, s: &[u8])
    ensures
        final(out)@ == old(out)@ + s@,
{
    out.extend_from_slice(s);
    proof {
        assert forall|i: int| 0 <= i < out@.len() implies out@[i] == (old(out)@ + s@)[i] by {
            if i >= old(out)@.len() {
                assert(vstd::pervasive::cloned::<u8>(s@[i - old(out)@.len()], out@[i]));
            }
        }
        assert(out@ =~= old(out)@ + s@);
    }
}

/// Serializes the outbound request for the local host named by `host`
/// (the authority part of the local URL).
pub fn serialize_request(r: &OutboundRequest, host: &Vec<u8>) -> (out: Vec<u8>)
    ensures
        out@ == request_bytes(r.method, r.path@, host@, header_views(r.headers@), r.body@),
{
    let mut out: Vec<u8> = Vec::new();
    append_bytes(&mut out, r.method.name().as_bytes());
    append_bytes(&mut out, " ".as_bytes());
    append_bytes(&mut out, r.path.as_slice());
    append_bytes(&mut out, " HTTP/1.1".as_bytes());
    append_bytes(&mut out, "\r\n".as_bytes());
    append_bytes(&mut out, "host: ".as_bytes());
    append_bytes(&mut out, host.as_slice());
    append_bytes(&mut out, "\r\n".as_bytes());
    proof {
        assert(out@ =~= crate::gate::method_bytes(r.method) + " ".spec_bytes() + r.path@
            + " HTTP/1.1".spec_bytes() + crlf() + "host: ".spec_bytes() + host@ + crlf());
    }
    let ghost head = out@;
    let mut i: usize = 0;
    while i < r.headers.len()
        invariant
            i <= r.headers@.len(),
            out@ == head + header_block(header_views(r.headers@.take(i as int))),
        decreases r.headers@.len() - i,
    {
        let h = &r.headers[i];
        append_bytes(&mut out, h.name.as_slice());
        append_bytes(&mut out, ": ".as_bytes());
        append_bytes(&mut out, h.value.as_slice());
        append_bytes(&mut out, "\r\n".as_bytes());
        i = i + 1;
        proof {
            let cur = header_views(r.headers@.take(i as int));
            assert(cur.drop_last() =~= header_views(r.headers@.take(i - 1)));
            assert(cur.last() == r.headers@[i - 1]@);
            assert(out@ =~= head + header_block(cur));
        }
    }
    proof {
        assert(r.headers@.take(r.headers@.len() as int) =~= r.headers@);
    }
    append_bytes(&mut out, "content-length: ".as_bytes());
    let len_dec = u64_to_dec(r.body.len() as u64);
    append_bytes(&mut out, len_dec.as_slice());
    append_bytes(&mut out, "\r\n".as_bytes());
    append_bytes(&mut out, "\r\n".as_bytes());
    append_bytes(&mut out, r.body.as_slice());
    proof {
        assert(out@ =~= request_bytes(
            r.method,
            r.path@,
            host@,
            header_views(r.headers@),
            r.body@,
        ));
    }
    out
}

/// An ASCII decimal digit.
pub open spec fn is_digit(c: u8) -> bool {
    48 <= c <= 57
}

/// The status code at the head of a raw HTTP/1.x response, when the status
/// line is well formed; `None` for anything else.
pub open spec fn status_of_response(s: Seq<u8>) -> Option<u16> {
    if s.len() >= 12 && s.take(5) == "HTTP/".spec_bytes() && is_digit(s[5]) && s[6] == 46u8
        && is_digit(s[7]) && s[8] == 32u8 && is_digit(s[9]) && is_digit(s[10]) && is_digit(
        s[11],
    ) {
        Some((((s[9] - 48) * 100 + (s[10] - 48) * 10 + (s[11] - 48))) as u16)
    } else {
        None
    }
}

/// Reads the status code off a raw response.
pub fn parse_status_line(s: &[u8]) -> (r: Option<u16>)
    ensures
        r == status_of_response(s@),
{
    if s.len() < 12 {
        return None;
    }
    proof {
        reveal_strlit("HTTP/");
        assert(vstd::string::is_ascii("HTTP/"));
        vstd::string::is_ascii_spec_bytes("HTTP/");
    }
    if !has_prefix(s, "HTTP/".as_bytes()) {
        return None;
    }
    let d_major = s[5];
    let dot = s[6];
    let d_minor = s[7];
    let sp = s[8];
    let h = s[9];
    let t = s[10];
    let u = s[11];
    if !(48 <= d_major && d_major <= 57) || dot != 46 || !(48 <= d_minor && d_minor <= 57)
        || sp != 32 {
        return None;
    }
    if 48 <= h && h <= 57 && 48 <= t && t <= 57 && 48 <= u && u <= 57 {
        Some(((h - 48) as u16) * 100 + ((t - 48) as u16) * 10 + ((u - 48) as u16))
    } else {
        None
    }
}

} // verus!
