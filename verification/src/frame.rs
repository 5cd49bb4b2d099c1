//! The wire form of a delivery frame on the tunnel: length-prefixed
//! fields, little-endian integers. A frame that does not decode is
//! dropped by the listener, never fatal.

use vstd::prelude::*;
use vstd::bytes::{spec_u32_from_le_bytes, spec_u32_to_le_bytes, spec_u64_from_le_bytes,
    spec_u64_to_le_bytes, lemma_auto_spec_u32_to_from_le_bytes,
    lemma_auto_spec_u64_to_from_le_bytes, u32_from_le_bytes, u32_to_le_bytes, u64_from_le_bytes,
    u64_to_le_bytes};
use vstd::slice::{slice_subrange, slice_to_vec};
use crate::forward::{HeaderV, header_views, append_bytes};
use crate::gate::{Header, Method, RelayedRequest};

verus! {

/// The ghost image of one frame: everything a delivery carries on the
/// wire. The receipt time is local and not part of the frame.
pub struct FrameV {
    pub id: Seq<u8>,
    pub method: Method,
    pub path: Seq<u8>,
    pub headers: Seq<HeaderV>,
    pub body: Seq<u8>,
    pub signature: Option<Seq<u8>>,
    pub timestamp: u64,
}

/// The frame image of a decoded delivery.
pub open spec fn frame_view(req: RelayedRequest) -> FrameV {
    FrameV {
        id: req.id@,
        method: req.method,
        path: req.path@,
        headers: header_views(req.headers@),
        body: req.body@,
        signature: match req.signature {
            Option::None => Option::None,
            Option::Some(s) => Option::Some(s@),
        },
        timestamp: req.timestamp,
    }
}

/// The wire tag of a method.
pub open spec fn method_tag(m: Method) -> u8 {
    match m {
        Method::Get => 0,
        Method::Post => 1,
        Method::Put => 2,
        Method::Patch => 3,
        Method::Delete => 4,
        Method::Head => 5,
        Method::Options => 6,
    }
}

/// The method a wire tag names, if any.
pub open spec fn tag_method(t: u8) -> Option<Method> {
    if t == 0 {
        Some(Method::Get)
    } else if t == 1 {
        Some(Method::Post)
    } else if t == 2 {
        Some(Method::Put)
    } else if t == 3 {
        Some(Method::Patch)
    } else if t == 4 {
        Some(Method::Delete)
    } else if t == 5 {
        Some(Method::Head)
    } else if t == 6 {
        Some(Method::Options)
    } else {
        None
    }
}

/// A byte run preceded by its length.
pub open spec fn len_prefixed(b: Seq<u8>) -> Seq<u8> {
    spec_u32_to_le_bytes(b.len() as u32) + b
}

/// The encoding of one header: name and value, each length-prefixed.
pub open spec fn header_encoding(h: HeaderV) -> Seq<u8> {
    len_prefixed(h.name) + len_prefixed(h.value)
}

/// The encoding of a run of headers, in order.
pub open spec fn headers_encoding(hs: Seq<HeaderV>) -> Seq<u8>
    decreases hs.len(),
{
    if hs.len() == 0 {
        Seq::empty()
    } else {
        header_encoding(hs.first()) + headers_encoding(hs.drop_first())
    }
}

/// Whether every variable-length field of a frame fits its length prefix.
pub open spec fn frame_fits(f: FrameV) -> bool {
    &&& f.id.len() <= u32::MAX
    &&& f.path.len() <= u32::MAX
    &&& f.headers.len() <= u32::MAX
    &&& (forall|i: int|
        0 <= i < f.headers.len() ==> (#[trigger] f.headers[i]).name.len() <= u32::MAX
            && f.headers[i].value.len() <= u32::MAX)
    &&& f.body.len() <= u32::MAX
    &&& (f.signature matches Some(s) ==> s.len() <= u32::MAX)
}

/// The complete wire form of a frame: identifier, method tag, path,
/// header count and headers, body, an optional signature behind a flag
/// byte, and the claimed timestamp.
pub open spec fn frame_bytes(f: FrameV) -> Seq<u8> {
    len_prefixed(f.id) + seq![method_tag(f.method)] + len_prefixed(f.path) + spec_u32_to_le_bytes(
        f.headers.len() as u32,
    ) + headers_encoding(f.headers) + len_prefixed(f.body) + (match f.signature {
        Option::None => seq![0u8],
        Option::Some(s) => seq![1u8] + len_prefixed(s),
    }) + spec_u64_to_le_bytes(f.timestamp)
}

/// Appending one header extends the encoding at its end.
proof fn lemma_headers_encoding_push(hs: Seq<HeaderV>, h: HeaderV)
    ensures
        headers_encoding(hs.push(h)) == headers_encoding(hs) + header_encoding(h),
    decreases hs.len(),
{
    if hs.len() == 0 {
        assert(hs.push(h).len() == 1);
        assert(hs.push(h).first() == h);
        assert(hs.push(h).drop_first() =~= Seq::<HeaderV>::empty());
        assert(headers_encoding(Seq::<HeaderV>::empty()) =~= Seq::<u8>::empty());
        assert(headers_encoding(hs.push(h)) == header_encoding(h) + headers_encoding(
            Seq::<HeaderV>::empty(),
        ));
        assert(headers_encoding(hs.push(h)) =~= header_encoding(h));
        assert(headers_encoding(hs) + header_encoding(h) =~= header_encoding(h));
    } else {
        assert(hs.push(h).drop_first() =~= hs.drop_first().push(h));
        assert(hs.push(h).first() == hs.first());
        lemma_headers_encoding_push(hs.drop_first(), h);
        assert(headers_encoding(hs.push(h)) =~= headers_encoding(hs) + header_encoding(h));
    }
}

/// Appends a length-prefixed byte run.
fn append_block(out: &mut Vec<u8>, b: &[u8])
    requires
        b@.len() <= u32::MAX,
    ensures
        final(out)@ == old(out)@ + len_prefixed(b@),
{
    let len_bytes = u32_to_le_bytes(b.len() as u32);
    append_bytes(out, len_bytes.as_slice());
    append_bytes(out, b);
    proof {
        assert(out@ =~= old(out)@ + len_prefixed(b@));
    }
}

/// Serializes a delivery into its wire frame.
pub fn encode_frame(req: &RelayedRequest) -> (out: Vec<u8>)
    requires
        frame_fits(frame_view(*req)),
    ensures
        out@ == frame_bytes(frame_view(*req)),
{
    let ghost f = frame_view(*req);
    let mut out: Vec<u8> = Vec::new();
    append_block(&mut out, req.id.as_slice());
    let tag: u8 = match req.method {
        Method::Get => 0,
        Method::Post => 1,
        Method::Put => 2,
        Method::Patch => 3,
        Method::Delete => 4,
        Method::Head => 5,
        Method::Options => 6,
    };
    out.push(tag);
    append_block(&mut out, req.path.as_slice());
    let count_bytes = u32_to_le_bytes(req.headers.len() as u32);
    append_bytes(&mut out, count_bytes.as_slice());
    proof {
        assert(out@ =~= len_prefixed(f.id) + seq![method_tag(f.method)] + len_prefixed(f.path)
            + spec_u32_to_le_bytes(f.headers.len() as u32));
    }
    let ghost head = out@;
    let mut i: usize = 0;
    proof {
        assert(header_views(req.headers@.take(0)) =~= Seq::<HeaderV>::empty());
        assert(out@ =~= head + headers_encoding(header_views(req.headers@.take(0))));
    }
    while i < req.headers.len()
        invariant
            i <= req.headers@.len(),
            frame_fits(f),
            f == frame_view(*req),
            out@ == head + headers_encoding(header_views(req.headers@.take(i as int))),
        decreases req.headers@.len() - i,
    {
        let h = &req.headers[i];
        proof {
            assert(header_views(req.headers@)[i as int] == req.headers@[i as int]@);
        }
        append_block(&mut out, h.name.as_slice());
        append_block(&mut out, h.value.as_slice());
        i = i + 1;
        proof {
            let prev = header_views(req.headers@.take(i - 1));
            let cur = header_views(req.headers@.take(i as int));
            assert(cur =~= prev.push(req.headers@[i - 1]@));
            lemma_headers_encoding_push(prev, req.headers@[i - 1]@);
            assert(out@ =~= head + headers_encoding(cur));
        }
    }
    proof {
        assert(req.headers@.take(req.headers@.len() as int) =~= req.headers@);
    }
    append_block(&mut out, req.body.as_slice());
    match &req.signature {
        Option::None => {
            out.push(0);
        },
        Option::Some(sig) => {
            out.push(1);
            append_block(&mut out, sig.as_slice());
        },
    }
    let ts_bytes = u64_to_le_bytes(req.timestamp);
    append_bytes(&mut out, ts_bytes.as_slice());
    proof {
        assert(out@ =~= frame_bytes(f));
    }
    out
}

/// Reads a little-endian length off the front.
pub open spec fn take_u32(s: Seq<u8>) -> Option<(u32, Seq<u8>)> {
    if s.len() >= 4 {
        Some((spec_u32_from_le_bytes(s.take(4)), s.skip(4)))
    } else {
        None
    }
}

/// Reads a little-endian timestamp off the front.
pub open spec fn take_u64(s: Seq<u8>) -> Option<(u64, Seq<u8>)> {
    if s.len() >= 8 {
        Some((spec_u64_from_le_bytes(s.take(8)), s.skip(8)))
    } else {
        None
    }
}

/// Reads one byte off the front.
pub open spec fn take_byte(s: Seq<u8>) -> Option<(u8, Seq<u8>)> {
    if s.len() >= 1 {
        Some((s[0], s.skip(1)))
    } else {
        None
    }
}

/// Reads one length-prefixed byte run off the front.
pub open spec fn take_block(s: Seq<u8>) -> Option<(Seq<u8>, Seq<u8>)> {
    match take_u32(s) {
        Option::None => None,
        Option::Some((n, r)) => if r.len() >= n {
            Some((r.take(n as int), r.skip(n as int)))
        } else {
            None
        },
    }
}

/// Reads the given number of encoded headers off the front.
pub open spec fn take_headers(s: Seq<u8>, n: nat) -> Option<(Seq<HeaderV>, Seq<u8>)>
    decreases n,
{
    if n == 0 {
        Some((Seq::empty(), s))
    } else {
        match take_block(s) {
            Option::None => None,
            Option::Some((name, r1)) => match take_block(r1) {
                Option::None => None,
                Option::Some((value, r2)) => match take_headers(r2, (n - 1) as nat) {
                    Option::None => None,
                    Option::Some((hs, r3)) => Some(
                        (seq![HeaderV { name, value }] + hs, r3),
                    ),
                },
            },
        }
    }
}

/// The parse of a whole frame: `None` for anything malformed or with
/// trailing bytes.
pub open spec fn decode_frame(s: Seq<u8>) -> Option<FrameV> {
    match take_block(s) {
        Option::None => None,
        Option::Some((id, s1)) => match take_byte(s1) {
            Option::None => None,
            Option::Some((tag, s2)) => match tag_method(tag) {
                Option::None => None,
                Option::Some(method) => match take_block(s2) {
                    Option::None => None,
                    Option::Some((path, s3)) => match take_u32(s3) {
                        Option::None => None,
                        Option::Some((hcount, s4)) => match take_headers(s4, hcount as nat) {
                            Option::None => None,
                            Option::Some((headers, s5)) => match take_block(s5) {
                                Option::None => None,
                                Option::Some((body, s6)) => match take_byte(s6) {
                                    Option::None => None,
                                    Option::Some((flag, s7)) => decode_tail(
                                        s7,
                                        flag,
                                        FrameV {
                                            id,
                                            method,
                                            path,
                                            headers,
                                            body,
                                            signature: Option::None,
                                            timestamp: 0,
                                        },
                                    ),
                                },
                            },
                        },
                    },
                },
            },
        },
    }
}

/// The parse of a frame's tail: the optional signature behind its flag
/// byte, the timestamp, and nothing after.
pub open spec fn decode_tail(s7: Seq<u8>, flag: u8, partial: FrameV) -> Option<FrameV> {
    if flag == 0 {
        match take_u64(s7) {
            Option::None => None,
            Option::Some((timestamp, s8)) => if s8.len() == 0 {
                Some(FrameV { signature: Option::None, timestamp, ..partial })
            } else {
                None
            },
        }
    } else if flag == 1 {
        match take_block(s7) {
            Option::None => None,
            Option::Some((sig, s8)) => match take_u64(s8) {
                Option::None => None,
                Option::Some((timestamp, s9)) => if s9.len() == 0 {
                    Some(FrameV { signature: Option::Some(sig), timestamp, ..partial })
                } else {
                    None
                },
            },
        }
    } else {
        None
    }
}

proof fn lemma_take_u32_of(n: u32, rest: Seq<u8>)
    ensures
        take_u32(spec_u32_to_le_bytes(n) + rest) == Some((n, rest)),
{
    lemma_auto_spec_u32_to_from_le_bytes();
    let s = spec_u32_to_le_bytes(n) + rest;
    assert(s.take(4) =~= spec_u32_to_le_bytes(n));
    assert(s.skip(4) =~= rest);
}

proof fn lemma_take_u64_of(x: u64, rest: Seq<u8>)
    ensures
        take_u64(spec_u64_to_le_bytes(x) + rest) == Some((x, rest)),
{
    lemma_auto_spec_u64_to_from_le_bytes();
    let s = spec_u64_to_le_bytes(x) + rest;
    assert(s.take(8) =~= spec_u64_to_le_bytes(x));
    assert(s.skip(8) =~= rest);
}

proof fn lemma_take_byte_of(x: u8, rest: Seq<u8>)
    ensures
        take_byte(seq![x] + rest) == Some((x, rest)),
{
    let s = seq![x] + rest;
    assert(s[0] == x);
    assert(s.skip(1) =~= rest);
}

proof fn lemma_take_block_of(b: Seq<u8>, rest: Seq<u8>)
    requires
        b.len() <= u32::MAX,
    ensures
        take_block(len_prefixed(b) + rest) == Some((b, rest)),
{
    lemma_auto_spec_u32_to_from_le_bytes();
    let n = b.len() as u32;
    assert(len_prefixed(b) + rest =~= spec_u32_to_le_bytes(n) + (b + rest));
    lemma_take_u32_of(n, b + rest);
    assert((b + rest).take(n as int) =~= b);
    assert((b + rest).skip(n as int) =~= rest);
}

proof fn lemma_take_headers_of(hs: Seq<HeaderV>, rest: Seq<u8>)
    requires
        forall|i: int|
            0 <= i < hs.len() ==> (#[trigger] hs[i]).name.len() <= u32::MAX
                && hs[i].value.len() <= u32::MAX,
    ensures
        take_headers(headers_encoding(hs) + rest, hs.len()) == Some((hs, rest)),
    decreases hs.len(),
{
    if hs.len() == 0 {
        assert(headers_encoding(hs) + rest =~= rest);
    } else {
        let h = hs.first();
        let tail = hs.drop_first();
        let tail_enc = headers_encoding(tail) + rest;
        assert(headers_encoding(hs) + rest =~= len_prefixed(h.name) + (len_prefixed(h.value)
            + tail_enc));
        assert(hs[0] == h);
        lemma_take_block_of(h.name, len_prefixed(h.value) + tail_enc);
        lemma_take_block_of(h.value, tail_enc);
        assert(forall|i: int|
            0 <= i < tail.len() ==> (#[trigger] tail[i]).name.len() <= u32::MAX
                && tail[i].value.len() <= u32::MAX) by {
            assert(forall|i: int| 0 <= i < tail.len() ==> tail[i] == hs[i + 1]);
        }
        lemma_take_headers_of(tail, rest);
        assert(HeaderV { name: h.name, value: h.value } == h);
        assert(seq![h] + tail =~= hs);
    }
}

/// A frame that fits its length prefixes decodes back to itself: the
/// decoder and the encoder are exact inverses over well-formed frames.
#[verifier::rlimit(60)]
pub proof fn lemma_frame_round_trip(f: FrameV)
    requires
        frame_fits(f),
    ensures
        decode_frame(frame_bytes(f)) == Some(f),
{
    let enc = frame_bytes(f);
    let sig_part: Seq<u8> = match f.signature {
        Option::None => seq![0u8],
        Option::Some(s) => seq![1u8] + len_prefixed(s),
    };
    let r1 = seq![method_tag(f.method)] + (len_prefixed(f.path) + (spec_u32_to_le_bytes(
        f.headers.len() as u32,
    ) + (headers_encoding(f.headers) + (len_prefixed(f.body) + (sig_part + spec_u64_to_le_bytes(
        f.timestamp,
    ))))));
    assert(enc =~= len_prefixed(f.id) + r1);
    lemma_take_block_of(f.id, r1);
    let r2 = len_prefixed(f.path) + (spec_u32_to_le_bytes(f.headers.len() as u32) + (
    headers_encoding(f.headers) + (len_prefixed(f.body) + (sig_part + spec_u64_to_le_bytes(
        f.timestamp,
    )))));
    lemma_take_byte_of(method_tag(f.method), r2);
    assert(tag_method(method_tag(f.method)) == Some(f.method));
    let r3 = spec_u32_to_le_bytes(f.headers.len() as u32) + (headers_encoding(f.headers) + (
    len_prefixed(f.body) + (sig_part + spec_u64_to_le_bytes(f.timestamp))));
    lemma_take_block_of(f.path, r3);
    let r4 = headers_encoding(f.headers) + (len_prefixed(f.body) + (sig_part
        + spec_u64_to_le_bytes(f.timestamp)));
    lemma_take_u32_of(f.headers.len() as u32, r4);
    let r5 = len_prefixed(f.body) + (sig_part + spec_u64_to_le_bytes(f.timestamp));
    lemma_take_headers_of(f.headers, r5);
    let r6 = sig_part + spec_u64_to_le_bytes(f.timestamp);
    lemma_take_block_of(f.body, r6);
    match f.signature {
        Option::None => {
            assert(r6 =~= seq![0u8] + spec_u64_to_le_bytes(f.timestamp));
            lemma_take_byte_of(0u8, spec_u64_to_le_bytes(f.timestamp));
            assert(spec_u64_to_le_bytes(f.timestamp) =~= spec_u64_to_le_bytes(f.timestamp)
                + Seq::<u8>::empty());
            lemma_take_u64_of(f.timestamp, Seq::empty());
            assert(spec_u64_to_le_bytes(f.timestamp) + Seq::<u8>::empty() =~= spec_u64_to_le_bytes(
                f.timestamp,
            ));
        },
        Option::Some(sig) => {
            assert(r6 =~= seq![1u8] + (len_prefixed(sig) + spec_u64_to_le_bytes(f.timestamp)));
            lemma_take_byte_of(1u8, len_prefixed(sig) + spec_u64_to_le_bytes(f.timestamp));
            lemma_take_block_of(sig, spec_u64_to_le_bytes(f.timestamp));
            assert(spec_u64_to_le_bytes(f.timestamp) =~= spec_u64_to_le_bytes(f.timestamp)
                + Seq::<u8>::empty());
            lemma_take_u64_of(f.timestamp, Seq::empty());
        },
    }
    assert(decode_frame(enc) == Some(
        FrameV {
            id: f.id,
            method: f.method,
            path: f.path,
            headers: f.headers,
            body: f.body,
            signature: f.signature,
            timestamp: f.timestamp,
        },
    ));
    assert(FrameV {
        id: f.id,
        method: f.method,
        path: f.path,
        headers: f.headers,
        body: f.body,
        signature: f.signature,
        timestamp: f.timestamp,
    } == f);
}

/// Reads a length at a cursor.
fn read_u32(s: &[u8], c: usize) -> (r: Option<(u32, usize)>)
    requires
        c <= s@.len(),
    ensures
        r matches Some(p) ==> c + 4 == p.1 && p.1 <= s@.len() && take_u32(s@.skip(c as int))
            == Some((p.0, s@.skip(p.1 as int))),
        r is None ==> take_u32(s@.skip(c as int)) is None,
{
    if s.len() - c >= 4 {
        let v = u32_from_le_bytes(slice_subrange(s, c, c + 4));
        proof {
            assert(s@.skip(c as int).take(4) =~= s@.subrange(c as int, c + 4));
            assert(s@.skip(c as int).skip(4) =~= s@.skip(c + 4));
        }
        Some((v, c + 4))
    } else {
        None
    }
}

/// Reads a timestamp at a cursor.
fn read_u64(s: &[u8], c: usize) -> (r: Option<(u64, usize)>)
    requires
        c <= s@.len(),
    ensures
        r matches Some(p) ==> c + 8 == p.1 && p.1 <= s@.len() && take_u64(s@.skip(c as int))
            == Some((p.0, s@.skip(p.1 as int))),
        r is None ==> take_u64(s@.skip(c as int)) is None,
{
    if s.len() - c >= 8 {
        let v = u64_from_le_bytes(slice_subrange(s, c, c + 8));
        proof {
            assert(s@.skip(c as int).take(8) =~= s@.subrange(c as int, c + 8));
            assert(s@.skip(c as int).skip(8) =~= s@.skip(c + 8));
        }
        Some((v, c + 8))
    } else {
        None
    }
}

/// Reads one byte at a cursor.
fn read_byte(s: &[u8], c: usize) -> (r: Option<(u8, usize)>)
    requires
        c <= s@.len(),
    ensures
        r matches Some(p) ==> c + 1 == p.1 && p.1 <= s@.len() && take_byte(s@.skip(c as int))
            == Some((p.0, s@.skip(p.1 as int))),
        r is None ==> take_byte(s@.skip(c as int)) is None,
{
    if s.len() - c >= 1 {
        let v = s[c];
        proof {
            assert(s@.skip(c as int)[0] == s@[c as int]);
            assert(s@.skip(c as int).skip(1) =~= s@.skip(c + 1));
        }
        Some((v, c + 1))
    } else {
        None
    }
}

/// Reads one length-prefixed byte run at a cursor.
fn read_block(s: &[u8], c: usize) -> (r: Option<(Vec<u8>, usize)>)
    requires
        c <= s@.len(),
    ensures
        r matches Some(p) ==> c <= p.1 <= s@.len() && take_block(s@.skip(c as int)) == Some(
            (p.0@, s@.skip(p.1 as int)),
        ),
        r is None ==> take_block(s@.skip(c as int)) is None,
{
    match read_u32(s, c) {
        None => None,
        Some((n, c1)) => {
            if s.len() - c1 >= n as usize {
                let v = slice_to_vec(slice_subrange(s, c1, c1 + n as usize));
                proof {
                    assert(s@.skip(c1 as int).take(n as int) =~= s@.subrange(
                        c1 as int,
                        c1 + n as int,
                    ));
                    assert(s@.skip(c1 as int).skip(n as int) =~= s@.skip(c1 + n as int));
                }
                Some((v, c1 + n as usize))
            } else {
                proof {
                    assert(s@.skip(c1 as int).len() < n);
                }
                None
            }
        },
    }
}

/// Stitches a run of already-read headers onto a parse of the rest.
pub open spec fn headers_compose(
    done: Seq<HeaderV>,
    rest: Option<(Seq<HeaderV>, Seq<u8>)>,
) -> Option<(Seq<HeaderV>, Seq<u8>)> {
    match rest {
        Option::None => None,
        Option::Some((hs, r)) => Some((done + hs, r)),
    }
}

proof fn lemma_compose_empty(rest: Option<(Seq<HeaderV>, Seq<u8>)>)
    ensures
        headers_compose(Seq::empty(), rest) == rest,
{
    match rest {
        Option::None => {},
        Option::Some((hs, r)) => {
            assert(Seq::empty() + hs =~= hs);
        },
    }
}

proof fn lemma_compose_step(done: Seq<HeaderV>, h: HeaderV, rest: Option<(Seq<HeaderV>, Seq<u8>)>)
    ensures
        headers_compose(done, headers_compose(seq![h], rest)) == headers_compose(
            done.push(h),
            rest,
        ),
{
    match rest {
        Option::None => {},
        Option::Some((hs, r)) => {
            assert(done + (seq![h] + hs) =~= done.push(h) + hs);
        },
    }
}

/// Decodes one wire frame into a delivery, stamping it with the local
/// receipt time. The result is exactly the parse: a malformed frame comes
/// back as `None` and is dropped by the listener.
#[verifier::loop_isolation(false)]
pub fn decode_frame_bytes(s: &[u8], received_at: u64) -> (r: Option<RelayedRequest>)
    ensures
        r matches Some(req) ==> decode_frame(s@) == Some(frame_view(req)) && req.received_at
            == received_at,
        r is None ==> decode_frame(s@) is None,
{
    proof {
        assert(s@.skip(0) =~= s@);
    }
    let (id, c1) = match read_block(s, 0) {
        None => {
            return None;
        },
        Some(p) => p,
    };
    let (tag, c2) = match read_byte(s, c1) {
        None => {
            return None;
        },
        Some(p) => p,
    };
    let method = if tag == 0 {
        Method::Get
    } else if tag == 1 {
        Method::Post
    } else if tag == 2 {
        Method::Put
    } else if tag == 3 {
        Method::Patch
    } else if tag == 4 {
        Method::Delete
    } else if tag == 5 {
        Method::Head
    } else if tag == 6 {
        Method::Options
    } else {
        proof {
            assert(tag_method(tag) is None);
        }
        return None;
    };
    let (path, c3) = match read_block(s, c2) {
        None => {
            return None;
        },
        Some(p) => p,
    };
    let (hcount, c4) = match read_u32(s, c3) {
        None => {
            return None;
        },
        Some(p) => p,
    };
    let ghost s4 = s@.skip(c4 as int);
    let mut headers: Vec<Header> = Vec::new();
    let mut c: usize = c4;
    let mut i: u32 = 0;
    proof {
        lemma_compose_empty(take_headers(s4, hcount as nat));
        assert(header_views(headers@) =~= Seq::<HeaderV>::empty());
    }
    while i < hcount
        invariant
            c <= s@.len(),
            i <= hcount,
            take_headers(s4, hcount as nat) == headers_compose(
                header_views(headers@),
                take_headers(s@.skip(c as int), (hcount - i) as nat),
            ),
        decreases hcount - i,
    {
        let ghost c_pre = c as int;
        let ghost done_pre = header_views(headers@);
        let (name, ca) = match read_block(s, c) {
            None => {
                return None;
            },
            Some(p) => p,
        };
        let (value, cb) = match read_block(s, ca) {
            None => {
                return None;
            },
            Some(p) => p,
        };
        let ghost h = HeaderV { name: name@, value: value@ };
        proof {
            assert(take_headers(s@.skip(c_pre), (hcount - i) as nat) == headers_compose(
                seq![h],
                take_headers(s@.skip(cb as int), (hcount - i - 1) as nat),
            ));
            lemma_compose_step(
                done_pre,
                h,
                take_headers(s@.skip(cb as int), (hcount - i - 1) as nat),
            );
        }
        headers.push(Header { name, value });
        proof {
            assert(header_views(headers@) =~= done_pre.push(h));
        }
        c = cb;
        i = i + 1;
    }
    let ghost s5 = s@.skip(c as int);
    proof {
        assert(take_headers(s@.skip(c as int), 0) == Some((Seq::<HeaderV>::empty(), s5)));
        assert(header_views(headers@) + Seq::<HeaderV>::empty() =~= header_views(headers@));
        assert(take_headers(s4, hcount as nat) == Some((header_views(headers@), s5)));
    }
    let (body, c6) = match read_block(s, c) {
        None => {
            return None;
        },
        Some(p) => p,
    };
    let (flag, c7) = match read_byte(s, c6) {
        None => {
            return None;
        },
        Some(p) => p,
    };
    let signature: Option<Vec<u8>> = if flag == 0 {
        None
    } else if flag == 1 {
        match read_block(s, c7) {
            None => {
                return None;
            },
            Some((sig, c8)) => {
                let (timestamp, c9) = match read_u64(s, c8) {
                    None => {
                        return None;
                    },
                    Some(p) => p,
                };
                if c9 != s.len() {
                    proof {
                        assert(s@.skip(c9 as int).len() != 0);
                    }
                    return None;
                }
                return Some(
                    RelayedRequest {
                        id,
                        method,
                        path,
                        headers,
                        body,
                        signature: Some(sig),
                        timestamp,
                        received_at,
                    },
                );
            },
        }
    } else {
        return None;
    };
    let (timestamp, c9) = match read_u64(s, c7) {
        None => {
            return None;
        },
        Some(p) => p,
    };
    if c9 != s.len() {
        proof {
            assert(s@.skip(c9 as int).len() != 0);
        }
        return None;
    }
    Some(
        RelayedRequest {
            id,
            method,
            path,
            headers,
            body,
            signature,
            timestamp,
            received_at,
        },
    )
}

} // verus!
