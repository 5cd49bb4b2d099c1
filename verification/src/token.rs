//! Relay token: the opaque credential that authenticates a tunnel session
//! and doubles as the shared secret for delivery verification.

use vstd::prelude::*;
use crate::FatalError;

verus! {

/// Length in bytes of every relay token.
pub const TOKEN_LEN: usize = 24;

/// The opaque, fixed-length credential for one tunnel session. Immutable
/// once generated; the caller is responsible for persisting it.
pub struct RelayToken {
    pub bytes: Vec<u8>,
}

impl View for RelayToken {
    type V = Seq<u8>;

    open spec fn view(&self) -> Seq<u8> {
        self.bytes@
    }
}

/// Relies on getrandom::getrandom: on success the whole buffer has been
/// filled from the operating system's secure random source. Nothing is
/// assumed about the values drawn.
#[verifier::external_body]
fn random_bytes(n: usize) -> (r: Option<Vec<u8>>)
    ensures
        r matches Some(v) ==> v@.len() == n,
{
    let mut buf = vec![0u8; n];
    match getrandom::getrandom(&mut buf) {
        Ok(()) => Some(buf),
        Err(_) => None,
    }
}

impl RelayToken {
    /// A token is well formed when it has exactly the fixed length.
    pub open spec fn wf(&self) -> bool {
        self@.len() == TOKEN_LEN
    }

    /// Draws a fresh token from the secure random source. Fails with
    /// `EntropyUnavailable`, and only with it, when the source cannot
    /// be read.
    pub fn generate() -> (r: Result<RelayToken, FatalError>)
        ensures
            r matches Ok(t) ==> t.wf(),
            r matches Err(e) ==> e is EntropyUnavailable,
    {
        match random_bytes(TOKEN_LEN) {
            Some(bytes) => Ok(RelayToken { bytes }),
            None => Err(FatalError::EntropyUnavailable),
        }
    }

    /// Builds a token from bytes that a previous session persisted.
    pub fn from_bytes(bytes: Vec<u8>) -> (r: RelayToken)
        requires
            bytes@.len() == TOKEN_LEN,
        ensures
            r.wf(),
            r@ == bytes@,
    {
        RelayToken { bytes }
    }

    /// The hexadecimal rendering of the token, for persistence and display.
    pub fn to_hex(&self) -> (r: Vec<u8>)
        ensures
            r@ == hex_bytes(self@),
    {
        let mut out: Vec<u8> = Vec::new();
        let mut i: usize = 0;
        while i < self.bytes.len()
            invariant
                i <= self.bytes@.len(),
                out@ == hex_bytes(self@.take(i as int)),
            decreases self.bytes@.len() - i,
        {
            let b = self.bytes[i];
            out.push(hex_digit(b / 16));
            out.push(hex_digit(b % 16));
            i = i + 1;
            proof {
                assert(self@.take(i as int).drop_last() =~= self@.take(i - 1));
                assert(self@.take(i as int).last() == self@[i - 1]);
            }
        }
        proof {
            assert(self@.take(self@.len() as int) =~= self@);
        }
        out
    }
}

/// The value of one ASCII hexadecimal digit, upper or lower case.
pub open spec fn spec_hex_value(c: u8) -> Option<u8> {
    if 48 <= c <= 57 {
        Some((c - 48) as u8)
    } else if 97 <= c <= 102 {
        Some((c - 87) as u8)
    } else if 65 <= c <= 70 {
        Some((c - 55) as u8)
    } else {
        None
    }
}

/// The bytes a hexadecimal rendering stands for: each pair of digits one
/// byte, or nothing when a character is no digit or one is left over.
pub open spec fn spec_unhex(s: Seq<u8>) -> Option<Seq<u8>>
    decreases s.len(),
{
    if s.len() == 0 {
        Some(Seq::empty())
    } else if s.len() == 1 {
        None
    } else {
        match spec_unhex(s.drop_last().drop_last()) {
            Option::None => None,
            Option::Some(rest) => match (spec_hex_value(s[s.len() - 2]), spec_hex_value(
                s.last(),
            )) {
                (Option::Some(hi), Option::Some(lo)) => Some(rest.push((hi * 16 + lo) as u8)),
                _ => None,
            },
        }
    }
}

impl RelayToken {
    /// Reads a token back from the hexadecimal form a previous session
    /// persisted. `None` unless the text is exactly the rendering of a
    /// token of the fixed length.
    pub fn from_hex(s: &[u8]) -> (r: Option<RelayToken>)
        ensures
            r matches Some(t) ==> t.wf() && spec_unhex(s@) == Some(t@),
            r is None ==> s@.len() != 2 * TOKEN_LEN || spec_unhex(s@) is None,
    {
        if s.len() != 2 * TOKEN_LEN {
            return None;
        }
        let mut bytes: Vec<u8> = Vec::new();
        let mut i: usize = 0;
        while i < s.len()
            invariant
                i <= s@.len(),
                i % 2 == 0,
                s@.len() == 2 * TOKEN_LEN,
                bytes@.len() * 2 == i,
                spec_unhex(s@.take(i as int)) == Some(bytes@),
            decreases s@.len() - i,
        {
            let hi = match hex_value(s[i]) {
                Some(v) => v,
                None => {
                    proof {
                        lemma_unhex_bad_digit(s@, i as int);
                    }
                    return None;
                },
            };
            let lo = match hex_value(s[i + 1]) {
                Some(v) => v,
                None => {
                    proof {
                        lemma_unhex_bad_digit(s@, i + 1);
                    }
                    return None;
                },
            };
            bytes.push(hi * 16 + lo);
            i = i + 2;
            proof {
                let cur = s@.take(i as int);
                assert(cur.drop_last().drop_last() =~= s@.take(i - 2));
                assert(cur[cur.len() - 2] == s@[i - 2]);
                assert(cur.last() == s@[i - 1]);
            }
        }
        proof {
            assert(s@.take(s@.len() as int) =~= s@);
        }
        Some(RelayToken { bytes })
    }
}

/// A sequence of even length with a bad digit at any position has no
/// hexadecimal reading.
proof fn lemma_unhex_bad_digit(s: Seq<u8>, i: int)
    requires
        s.len() % 2 == 0,
        0 <= i < s.len(),
        spec_hex_value(s[i]) is None,
    ensures
        spec_unhex(s) is None,
    decreases s.len(),
{
    if s.len() >= 2 {
        if i < s.len() - 2 {
            lemma_unhex_bad_digit(s.drop_last().drop_last(), i);
            assert(s.drop_last().drop_last()[i] == s[i]);
        }
    }
}

fn hex_value(c: u8) -> (r: Option<u8>)
    ensures
        r == spec_hex_value(c),
{
    if 48 <= c && c <= 57 {
        Some(c - 48)
    } else if 97 <= c && c <= 102 {
        Some(c - 87)
    } else if 65 <= c && c <= 70 {
        Some(c - 55)
    } else {
        None
    }
}

/// The ASCII code of the lower-case hexadecimal digit for a value below 16.
pub open spec fn spec_hex_digit(n: u8) -> u8
    recommends
        n < 16,
{
    if n < 10 {
        (n + 48) as u8
    } else {
        (n + 87) as u8
    }
}

fn hex_digit(n: u8) -> (r: u8)
    requires
        n < 16,
    ensures
        r == spec_hex_digit(n),
{
    if n < 10 {
        n + 48
    } else {
        n + 87
    }
}

/// The hexadecimal rendering of a byte sequence: two lower-case digits
/// per byte, in order.
pub open spec fn hex_bytes(s: Seq<u8>) -> Seq<u8>
    decreases s.len(),
{
    if s.len() == 0 {
        Seq::empty()
    } else {
        hex_bytes(s.drop_last()) + seq![
            spec_hex_digit(s.last() / 16),
            spec_hex_digit(s.last() % 16),
        ]
    }
}

} // verus!
