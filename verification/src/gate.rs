//! Security gate: authenticity and freshness verification of inbound
//! deliveries, with the relay token as shared secret.

use vstd::prelude::*;
use vstd::string::StringSliceAdditionalSpecFns;
use hmac::Mac;
use crate::token::RelayToken;

verus! {

/// The HTTP method of a delivery.
#[derive(Clone, Copy, Debug, PartialEq, Eq, Structural)]
pub enum Method {
    Get,
    Post,
    Put,
    Patch,
    Delete,
    Head,
    Options,
}

/// The wire bytes of a method's upper-case name.
pub open spec fn method_bytes(m: Method) -> Seq<u8> {
    match m {
        Method::Get => "GET".spec_bytes(),
        Method::Post => "POST".spec_bytes(),
        Method::Put => "PUT".spec_bytes(),
        Method::Patch => "PATCH".spec_bytes(),
        Method::Delete => "DELETE".spec_bytes(),
        Method::Head => "HEAD".spec_bytes(),
        Method::Options => "OPTIONS".spec_bytes(),
    }
}

impl Method {
    /// The upper-case name of the method, as it appears on the wire.
    pub fn name(&self) -> (r: &'static str)
        ensures
            r.spec_bytes() == method_bytes(*self),
    {
        match self {
            Method::Get => "GET",
            Method::Post => "POST",
            Method::Put => "PUT",
            Method::Patch => "PATCH",
            Method::Delete => "DELETE",
            Method::Head => "HEAD",
            Method::Options => "OPTIONS",
        }
    }
}

/// One name/value pair of a delivery's header mapping.
pub struct Header {
    pub name: Vec<u8>,
    pub value: Vec<u8>,
}

/// One inbound delivery, decoded from a relay frame: what the relay saw,
/// plus the claimed authenticity material and the local receipt time.
pub struct RelayedRequest {
    /// Identifier the relay assigned to this delivery.
    pub id: Vec<u8>,
    pub method: Method,
    pub path: Vec<u8>,
    pub headers: Vec<Header>,
    pub body: Vec<u8>,
    /// The keyed-hash tag carried on the frame, if any.
    pub signature: Option<Vec<u8>>,
    /// The sender's claimed signing time, in seconds.
    pub timestamp: u64,
    /// Local receipt time, in seconds.
    pub received_at: u64,
}

/// Why a delivery was turned away without being forwarded.
#[derive(Clone, Copy, Debug, PartialEq, Eq, Structural)]
pub enum RejectReason {
    /// The claimed timestamp falls outside the freshness window.
    StaleTimestamp,
    /// The frame carries no signature at all.
    MissingSignature,
    /// The carried signature does not match the recomputed one.
    BadSignature,
}

/// The security gate's decision on one delivery.
#[derive(Clone, Copy, Debug, PartialEq, Eq, Structural)]
pub enum Verdict {
    Passed,
    Rejected(RejectReason),
}

/// The tag that the keyed-hash scheme assigns to a message under a key.
/// It stands for HMAC-SHA-256, whose value this crate does not restate.
pub uninterp spec fn mac_of(key: Seq<u8>, msg: Seq<u8>) -> Seq<u8>;

/// Relies on hmac::Hmac combined with sha2::Sha256: the tag is a function
/// of key and message alone and is 32 bytes long; any key length is
/// accepted.
#[verifier::external_body]
fn hmac_sha256(key: &[u8], msg: &[u8]) -> (r: Vec<u8>)
    ensures
        r@ == mac_of(key@, msg@),
        r@.len() == 32,
{
    let mut mac = <hmac::Hmac<sha2::Sha256> as Mac>::new_from_slice(key)
        .expect("HMAC accepts keys of any length");
    mac.update(msg);
    mac.finalize().into_bytes().to_vec()
}

/// The ASCII decimal digits of a number, most significant first.
pub open spec fn dec_digits(n: nat) -> Seq<u8>
    decreases n,
{
    if n < 10 {
        seq![(n + 48) as u8]
    } else {
        dec_digits(n / 10) + seq![(n % 10 + 48) as u8]
    }
}

/// Renders a number in ASCII decimal.
pub fn u64_to_dec(n: u64) -> (r: Vec<u8>)
    ensures
        r@ == dec_digits(n as nat),
    decreases n,
{
    if n < 10 {
        let mut out: Vec<u8> = Vec::new();
        out.push((n as u8) + 48);
        proof {
            assert(out@ =~= dec_digits(n as nat));
        }
        out
    } else {
        let mut out = u64_to_dec(n / 10);
        out.push((n % 10) as u8 + 48);
        proof {
            assert(out@ =~= dec_digits(n as nat));
        }
        out
    }
}

/// What gets signed for a delivery: the claimed timestamp in decimal,
/// a dot, and the raw body. A change to any byte of either changes this
/// sequence.
pub open spec fn signed_payload(timestamp: u64, body: Seq<u8>) -> Seq<u8> {
    dec_digits(timestamp as nat) + seq![46u8] + body
}

/// The tag a genuine sender puts on a delivery with this timestamp and body.
pub open spec fn expected_tag(key: Seq<u8>, timestamp: u64, body: Seq<u8>) -> Seq<u8> {
    mac_of(key, signed_payload(timestamp, body))
}

/// Recomputes the signature a delivery with this timestamp and body must
/// carry under the given token.
pub fn compute_signature(token: &RelayToken, timestamp: u64, body: &Vec<u8>) -> (r: Vec<u8>)
    ensures
        r@ == expected_tag(token@, timestamp, body@),
        r@.len() == 32,
{
    let mut payload = u64_to_dec(timestamp);
    payload.push(46);
    let mut i: usize = 0;
    while i < body.len()
        invariant
            i <= body@.len(),
            payload@ == dec_digits(timestamp as nat) + seq![46u8] + body@.take(i as int),
        decreases body@.len() - i,
    {
        payload.push(body[i]);
        i = i + 1;
        proof {
            assert(payload@ =~= dec_digits(timestamp as nat) + seq![46u8]
                + body@.take(i as int));
        }
    }
    proof {
        assert(body@.take(body@.len() as int) =~= body@);
    }
    hmac_sha256(token.bytes.as_slice(), payload.as_slice())
}

/// Whether a claimed timestamp is within the freshness window around the
/// present moment, on either side.
pub open spec fn fresh_at(claimed: u64, now: u64, window: u64) -> bool {
    claimed + window >= now && claimed <= now + window
}

/// The security gate's decision, as a function of the delivery, the shared secret,
/// the present moment, the freshness window, and the session's
/// security-enabled flag. Staleness is checked before the signature, so a
/// stale delivery is turned away even when its signature is correct; a
/// missing signature is a verification failure.
pub open spec fn verdict_spec(
    req: RelayedRequest,
    key: Seq<u8>,
    now: u64,
    window: u64,
    security_enabled: bool,
) -> Verdict {
    if !security_enabled {
        Verdict::Passed
    } else if !fresh_at(req.timestamp, now, window) {
        Verdict::Rejected(RejectReason::StaleTimestamp)
    } else {
        match req.signature {
            Option::None => Verdict::Rejected(RejectReason::MissingSignature),
            Option::Some(sig) => if sig@ == expected_tag(key, req.timestamp, req.body@) {
                Verdict::Passed
            } else {
                Verdict::Rejected(RejectReason::BadSignature)
            },
        }
    }
}

/// Verifies one delivery against the session token. The result is exactly
/// `verdict_spec` of the inputs.
pub fn verify(
    req: &RelayedRequest,
    token: &RelayToken,
    now: u64,
    window: u64,
    security_enabled: bool,
) -> (v: Verdict)
    ensures
        v == verdict_spec(*req, token@, now, window, security_enabled),
{
    if !security_enabled {
        return Verdict::Passed;
    }
    let fresh = if req.timestamp <= now {
        now - req.timestamp <= window
    } else {
        req.timestamp - now <= window
    };
    if !fresh {
        return Verdict::Rejected(RejectReason::StaleTimestamp);
    }
    match &req.signature {
        Option::None => Verdict::Rejected(RejectReason::MissingSignature),
        Option::Some(sig) => {
            let expected = compute_signature(token, req.timestamp, &req.body);
            if bytes_eq(sig.as_slice(), expected.as_slice()) {
                Verdict::Passed
            } else {
                Verdict::Rejected(RejectReason::BadSignature)
            }
        },
    }
}

/// Byte-for-byte equality of two slices.
pub fn bytes_eq(a: &[u8], b: &[u8]) -> (r: bool)
    ensures
        r == (a@ == b@),
{
    if a.len() != b.len() {
        proof {
            assert(a@ != b@);
        }
        return false;
    }
    let mut i: usize = 0;
    while i < a.len()
        invariant
            i <= a@.len(),
            a@.len() == b@.len(),
            forall|j: int| 0 <= j < i ==> a@[j] == b@[j],
        decreases a@.len() - i,
    {
        if a[i] != b[i] {
            proof {
                assert(a@[i as int] != b@[i as int]);
            }
            return false;
        }
        i = i + 1;
    }
    proof {
        assert(a@ =~= b@);
    }
    true
}

/// A delivery whose signature is the genuine tag for its body and claimed
/// timestamp, and whose timestamp lies within the freshness window, passes
/// the security gate whenever security is enabled. Any delivery whose body or
/// timestamp was altered carries a tag computed over a different signed
/// payload, so only the keyed hash itself decides it.
pub proof fn lemma_genuine_delivery_passes(
    req: RelayedRequest,
    key: Seq<u8>,
    now: u64,
    window: u64,
)
    requires
        req.signature matches Some(sig) && sig@ == expected_tag(key, req.timestamp, req.body@),
        fresh_at(req.timestamp, now, window),
    ensures
        verdict_spec(req, key, now, window, true) is Passed,
{
}

/// A delivery whose claimed timestamp falls outside the freshness window
/// is rejected as stale, even when its signature is the genuine tag.
pub proof fn lemma_stale_rejected(req: RelayedRequest, key: Seq<u8>, now: u64, window: u64)
    requires
        !fresh_at(req.timestamp, now, window),
    ensures
        verdict_spec(req, key, now, window, true)
            == Verdict::Rejected(RejectReason::StaleTimestamp),
{
}

/// With security disabled, every delivery passes, whatever it carries.
pub proof fn lemma_security_disabled_passes(
    req: RelayedRequest,
    key: Seq<u8>,
    now: u64,
    window: u64,
)
    ensures
        verdict_spec(req, key, now, window, false) is Passed,
{
}

/// Every byte of a decimal rendering is an ASCII digit; in particular,
/// none is the separating dot.
pub proof fn lemma_dec_digits_are_digits(n: nat)
    ensures
        forall|i: int|
            0 <= i < dec_digits(n).len() ==> 48 <= #[trigger] dec_digits(n)[i] <= 57,
    decreases n,
{
    if n >= 10 {
        lemma_dec_digits_are_digits(n / 10);
        assert forall|i: int| 0 <= i < dec_digits(n).len() implies 48 <= #[trigger] dec_digits(
            n,
        )[i] <= 57 by {
            if i < dec_digits(n / 10).len() {
                assert(dec_digits(n)[i] == dec_digits(n / 10)[i]);
            }
        }
    }
}

/// A bigger number never renders shorter.
proof fn lemma_dec_digits_len(n: nat)
    ensures
        dec_digits(n).len() >= 1,
        n >= 10 ==> dec_digits(n).len() >= 2,
    decreases n,
{
    if n >= 10 {
        lemma_dec_digits_len(n / 10);
    }
}

/// Two numbers with the same decimal rendering are the same number.
proof fn lemma_dec_digits_injective(a: nat, b: nat)
    requires
        dec_digits(a) == dec_digits(b),
    ensures
        a == b,
    decreases a,
{
    lemma_dec_digits_len(a);
    lemma_dec_digits_len(b);
    if a < 10 && b < 10 {
        assert(dec_digits(a)[0] == a + 48);
        assert(dec_digits(b)[0] == b + 48);
    } else if a >= 10 && b >= 10 {
        assert(dec_digits(a).drop_last() =~= dec_digits(a / 10));
        assert(dec_digits(b).drop_last() =~= dec_digits(b / 10));
        assert(dec_digits(a).last() == a % 10 + 48);
        assert(dec_digits(b).last() == b % 10 + 48);
        lemma_dec_digits_injective(a / 10, b / 10);
    }
}

/// The signed payload determines the timestamp and the body: any
/// difference in either, a single byte included, changes what is signed.
/// The expected signature then differs wherever the keyed hash separates
/// distinct payloads.
pub proof fn lemma_signed_payload_injective(t1: u64, b1: Seq<u8>, t2: u64, b2: Seq<u8>)
    requires
        signed_payload(t1, b1) == signed_payload(t2, b2),
    ensures
        t1 == t2,
        b1 == b2,
{
    let d1 = dec_digits(t1 as nat);
    let d2 = dec_digits(t2 as nat);
    let p1 = signed_payload(t1, b1);
    let p2 = signed_payload(t2, b2);
    lemma_dec_digits_are_digits(t1 as nat);
    lemma_dec_digits_are_digits(t2 as nat);
    if d1.len() == d2.len() {
        assert(d1 =~= p1.take(d1.len() as int));
        assert(d2 =~= p2.take(d2.len() as int));
        lemma_dec_digits_injective(t1 as nat, t2 as nat);
        assert(b1 =~= p1.skip(d1.len() as int + 1));
        assert(b2 =~= p2.skip(d2.len() as int + 1));
    } else if d1.len() < d2.len() {
        assert(p1[d1.len() as int] == 46);
        assert(p2[d1.len() as int] == d2[d1.len() as int]);
        assert(48 <= d2[d1.len() as int] <= 57);
    } else {
        assert(p2[d2.len() as int] == 46);
        assert(p1[d2.len() as int] == d1[d2.len() as int]);
        assert(48 <= d1[d2.len() as int] <= 57);
    }
}

/// A delivery whose body or timestamp was altered carries a tag computed
/// over a different signed payload, so the security gate turns it away —
/// unless the keyed hash itself maps the two distinct payloads to the
/// same tag, which this crate assumes neither way. The collision
/// hypothesis is the last premise.
pub proof fn lemma_mutation_rejected(
    genuine: RelayedRequest,
    mutated: RelayedRequest,
    key: Seq<u8>,
    now: u64,
    window: u64,
)
    requires
        verdict_spec(genuine, key, now, window, true) is Passed,
        mutated.signature == genuine.signature,
        mutated.body@ != genuine.body@ || mutated.timestamp != genuine.timestamp,
        fresh_at(mutated.timestamp, now, window),
        expected_tag(key, mutated.timestamp, mutated.body@) != expected_tag(
            key,
            genuine.timestamp,
            genuine.body@,
        ),
    ensures
        verdict_spec(mutated, key, now, window, true)
            == Verdict::Rejected(RejectReason::BadSignature),
{
    assert(signed_payload(mutated.timestamp, mutated.body@) != signed_payload(
        genuine.timestamp,
        genuine.body@,
    )) by {
        if signed_payload(mutated.timestamp, mutated.body@) == signed_payload(
            genuine.timestamp,
            genuine.body@,
        ) {
            lemma_signed_payload_injective(
                mutated.timestamp,
                mutated.body@,
                genuine.timestamp,
                genuine.body@,
            );
        }
    }
}

} // verus!
