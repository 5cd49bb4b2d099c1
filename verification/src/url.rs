//! The local target URL: the listen operation accepts only an absolute
//! HTTP or HTTPS URL, broken into the parts the forwarder needs.

use vstd::prelude::*;
use vstd::string::StringSliceAdditionalSpecFns;
use vstd::slice::{slice_subrange, slice_to_vec};
use crate::forward::{has_prefix, is_digit};

verus! {

/// The validated local target of the replay: scheme, host, port, and the
/// path prefix every forwarded request is sent under.
pub struct LocalUrl {
    pub https: bool,
    pub host: Vec<u8>,
    pub port: u16,
    pub path: Vec<u8>,
}

/// The ghost image of a validated local URL.
pub struct LocalUrlV {
    pub https: bool,
    pub host: Seq<u8>,
    pub port: u16,
    pub path: Seq<u8>,
}

impl View for LocalUrl {
    type V = LocalUrlV;

    open spec fn view(&self) -> LocalUrlV {
        LocalUrlV { https: self.https, host: self.host@, port: self.port, path: self.path@ }
    }
}

/// A byte that ends the host part.
pub open spec fn is_host_delim(c: u8) -> bool {
    c == 58 || c == 47
}

/// The first position at or after `from` whose byte satisfies the bound
/// given by `slash_only` (the path delimiter alone, or the host
/// delimiters), or the length when none does.
pub open spec fn first_delim(s: Seq<u8>, from: int, slash_only: bool) -> int
    recommends
        0 <= from <= s.len(),
    decreases s.len() - from,
{
    if from < 0 || from >= s.len() {
        s.len() as int
    } else if (slash_only && s[from] == 47) || (!slash_only && is_host_delim(s[from])) {
        from
    } else {
        first_delim(s, from + 1, slash_only)
    }
}

/// `first_delim` points at the first delimiter at or after `from`.
pub proof fn lemma_first_delim(s: Seq<u8>, from: int, slash_only: bool)
    requires
        0 <= from <= s.len(),
    ensures
        from <= first_delim(s, from, slash_only) <= s.len(),
        first_delim(s, from, slash_only) < s.len() ==> {
            let i = first_delim(s, from, slash_only);
            (slash_only && s[i] == 47) || (!slash_only && is_host_delim(s[i]))
        },
        forall|j: int|
            from <= j < first_delim(s, from, slash_only) ==> !((slash_only && s[j] == 47) || (
            !slash_only && is_host_delim(s[j]))),
    decreases s.len() - from,
{
    if from < s.len() && !((slash_only && s[from] == 47) || (!slash_only && is_host_delim(
        s[from],
    ))) {
        lemma_first_delim(s, from + 1, slash_only);
    }
}

/// The numeric value of a run of ASCII decimal digits.
pub open spec fn dec_value(s: Seq<u8>) -> int
    decreases s.len(),
{
    if s.len() == 0 {
        0
    } else {
        dec_value(s.drop_last()) * 10 + (s.last() - 48)
    }
}

/// Whether every byte of a sequence is an ASCII decimal digit.
pub open spec fn all_digits(s: Seq<u8>) -> bool {
    forall|i: int| 0 <= i < s.len() ==> is_digit(#[trigger] s[i])
}

/// The port a scheme implies when the URL names none.
pub open spec fn default_port(https: bool) -> u16 {
    if https {
        443
    } else {
        80
    }
}

/// The parts after the scheme: a non-empty host up to the first `:` or
/// `/`, an optional explicit port of at most five digits valued at most
/// 65535, and the rest as the path (`/` when absent).
pub open spec fn parse_after_scheme(r: Seq<u8>, https: bool) -> Option<LocalUrlV> {
    let he = first_delim(r, 0, false);
    if he == 0 {
        None
    } else {
        let host = r.take(he);
        if he == r.len() {
            Some(
                LocalUrlV { https, host, port: default_port(https), path: "/".spec_bytes() },
            )
        } else if r[he] == 47 {
            Some(LocalUrlV { https, host, port: default_port(https), path: r.skip(he) })
        } else {
            let pe = first_delim(r, he + 1, true);
            let digits = r.subrange(he + 1, pe);
            if digits.len() == 0 || digits.len() > 5 || !all_digits(digits) || dec_value(digits)
                > 65535 {
                None
            } else {
                let path = if pe == r.len() {
                    "/".spec_bytes()
                } else {
                    r.skip(pe)
                };
                Some(LocalUrlV { https, host, port: dec_value(digits) as u16, path })
            }
        }
    }
}

/// The parse of a local URL: an absolute `http://` or `https://` URL with
/// a non-empty host; anything else is refused.
pub open spec fn parse_local_url(s: Seq<u8>) -> Option<LocalUrlV> {
    if s.len() >= "http://".spec_bytes().len() && s.take("http://".spec_bytes().len() as int)
        == "http://".spec_bytes() {
        parse_after_scheme(s.skip("http://".spec_bytes().len() as int), false)
    } else if s.len() >= "https://".spec_bytes().len() && s.take(
        "https://".spec_bytes().len() as int,
    ) == "https://".spec_bytes() {
        parse_after_scheme(s.skip("https://".spec_bytes().len() as int), true)
    } else {
        None
    }
}

/// Finds the first delimiter in a byte slice, at or after `from`.
fn find_delim(s: &[u8], from: usize, slash_only: bool) -> (r: usize)
    requires
        from <= s@.len(),
    ensures
        r == first_delim(s@, from as int, slash_only),
        from <= r <= s@.len(),
{
    proof {
        lemma_first_delim(s@, from as int, slash_only);
    }
    let mut i: usize = from;
    while i < s.len()
        invariant
            from <= i <= s@.len(),
            forall|j: int|
                from <= j < i ==> !((slash_only && s@[j] == 47) || (!slash_only
                    && is_host_delim(s@[j]))),
            from <= first_delim(s@, from as int, slash_only) <= s@.len(),
            first_delim(s@, from as int, slash_only) < s@.len() ==> {
                let k = first_delim(s@, from as int, slash_only);
                (slash_only && s@[k] == 47) || (!slash_only && is_host_delim(s@[k]))
            },
            forall|j: int|
                from <= j < first_delim(s@, from as int, slash_only) ==> !((slash_only && s@[j]
                    == 47) || (!slash_only && is_host_delim(s@[j]))),
        decreases s@.len() - i,
    {
        let c = s[i];
        let hit = if slash_only {
            c == 47
        } else {
            c == 58 || c == 47
        };
        if hit {
            proof {
                assert(first_delim(s@, from as int, slash_only) == i as int);
            }
            return i;
        }
        i = i + 1;
    }
    proof {
        assert(first_delim(s@, from as int, slash_only) == s@.len());
    }
    i
}

/// Ten to the given power.
pub open spec fn pow10(n: nat) -> int
    decreases n,
{
    if n == 0 {
        1
    } else {
        10 * pow10((n - 1) as nat)
    }
}

/// A run of digits is worth less than ten to its length, and never less
/// than nothing.
pub proof fn lemma_dec_value_bound(s: Seq<u8>)
    requires
        all_digits(s),
    ensures
        0 <= dec_value(s) < pow10(s.len()),
    decreases s.len(),
{
    if s.len() > 0 {
        assert(all_digits(s.drop_last()));
        lemma_dec_value_bound(s.drop_last());
        assert(is_digit(s.last()));
    }
}

/// Ten to a power never shrinks as the power grows.
pub proof fn lemma_pow10_le(m: nat, n: nat)
    requires
        m <= n,
    ensures
        1 <= pow10(m) <= pow10(n),
    decreases n,
{
    if m < n {
        lemma_pow10_le(m, (n - 1) as nat);
    } else if n > 0 {
        lemma_pow10_le((m - 1) as nat, (n - 1) as nat);
    }
}

/// The numeric value of a digit run of at most five digits.
fn dec_value_exec(s: &[u8]) -> (r: u32)
    requires
        all_digits(s@),
        0 < s@.len() <= 5,
    ensures
        r == dec_value(s@),
{
    let mut v: u32 = 0;
    let mut i: usize = 0;
    while i < s.len()
        invariant
            i <= s@.len() <= 5,
            all_digits(s@),
            v == dec_value(s@.take(i as int)),
            v < 100000,
        decreases s@.len() - i,
    {
        let d = s[i];
        proof {
            assert(is_digit(s@[i as int]));
            assert(s@.take(i + 1).drop_last() =~= s@.take(i as int));
            assert(s@.take(i + 1).last() == s@[i as int]);
            assert(all_digits(s@.take(i as int)));
            lemma_dec_value_bound(s@.take(i as int));
            lemma_pow10_le(i as nat, 4nat);
            assert(pow10(0) == 1);
            assert(pow10(1) == 10);
            assert(pow10(2) == 100);
            assert(pow10(3) == 1000);
            assert(pow10(4) == 10000);
            assert(pow10(5) == 100000);
            assert(v < 10000);
            assert(all_digits(s@.take(i + 1)));
            lemma_dec_value_bound(s@.take(i + 1));
            lemma_pow10_le((i + 1) as nat, 5nat);
        }
        v = v * 10 + (d - 48) as u32;
        i = i + 1;
    }
    proof {
        assert(s@.take(s@.len() as int) =~= s@);
    }
    v
}

/// Validates and splits a candidate local URL. The result is exactly the
/// parse: `None` for anything but an absolute HTTP or HTTPS URL with a
/// non-empty host and a sound port.
#[verifier::loop_isolation(false)]
pub fn parse_local_url_bytes(s: &[u8]) -> (r: Option<LocalUrl>)
    ensures
        r matches Some(u) ==> parse_local_url(s@) == Some(u@),
        r is None ==> parse_local_url(s@) is None,
{
    let (rest_start, https): (usize, bool) = if has_prefix(s, "http://".as_bytes()) {
        ("http://".as_bytes().len(), false)
    } else if has_prefix(s, "https://".as_bytes()) {
        ("https://".as_bytes().len(), true)
    } else {
        return None;
    };
    let rest = slice_subrange(s, rest_start, s.len());
    proof {
        assert(rest@ =~= s@.skip(rest_start as int));
    }
    let he = find_delim(rest, 0, false);
    if he == 0 {
        return None;
    }
    let host = slice_to_vec(slice_subrange(rest, 0, he));
    proof {
        assert(host@ =~= rest@.take(he as int));
    }
    if he == rest.len() {
        let mut path: Vec<u8> = Vec::new();
        path.push(47);
        proof {
            reveal_strlit("/");
            assert(vstd::string::is_ascii("/"));
            vstd::string::is_ascii_spec_bytes("/");
            assert(path@ =~= "/".spec_bytes());
        }
        return Some(
            LocalUrl { https, host, port: if https { 443 } else { 80 }, path },
        );
    }
    if rest[he] == 47 {
        let path = slice_to_vec(slice_subrange(rest, he, rest.len()));
        proof {
            assert(path@ =~= rest@.skip(he as int));
        }
        return Some(
            LocalUrl { https, host, port: if https { 443 } else { 80 }, path },
        );
    }
    let pe = find_delim(rest, he + 1, true);
    let digits = slice_subrange(rest, he + 1, pe);
    if digits.len() == 0 || digits.len() > 5 {
        return None;
    }
    let mut k: usize = 0;
    while k < digits.len()
        invariant
            k <= digits@.len(),
            forall|j: int| 0 <= j < k ==> is_digit(#[trigger] digits@[j]),
        decreases digits@.len() - k,
    {
        let c = digits[k];
        if !(48 <= c && c <= 57) {
            proof {
                assert(!is_digit(digits@[k as int]));
            }
            return None;
        }
        k = k + 1;
    }
    proof {
        assert(all_digits(digits@));
    }
    let value = dec_value_exec(digits);
    if value > 65535 {
        return None;
    }
    let path: Vec<u8> = if pe == rest.len() {
        let mut p: Vec<u8> = Vec::new();
        p.push(47);
        proof {
            reveal_strlit("/");
            assert(vstd::string::is_ascii("/"));
            vstd::string::is_ascii_spec_bytes("/");
            assert(p@ =~= "/".spec_bytes());
        }
        p
    } else {
        let p = slice_to_vec(slice_subrange(rest, pe, rest.len()));
        proof {
            assert(p@ =~= rest@.skip(pe as int));
        }
        p
    };
    Some(LocalUrl { https, host, port: value as u16, path })
}

} // verus!
