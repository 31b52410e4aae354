//! Plain-value core of the gRPC surface: default endpoint values and the
//! request-timeout header, parsed exactly.
//!
//! The transport itself (requests, channels, sockets) lives outside this
//! crate; these functions compute from the strings the transport hands
//! over.

use vstd::prelude::*;
use vstd::string::{StrSliceExecFns, StringExecFns};

verus! {

/// Default timeout for gRPC calls, in seconds, enforced when the client
/// provides none.
pub const DEFAULT_GRPC_TIMEOUT_SEC: u64 = 15;

/// Default server port.
pub fn default_port() -> (r: u16)
    ensures
        r == 10124u16,
{
    10124
}

/// Default endpoint, as `ip:port`.
pub fn default_endpoint_str() -> (r: &'static str)
    ensures
        r@ == "0.0.0.0:10124"@,
{
    "0.0.0.0:10124"
}

/// The string holds a `:` separator somewhere.
pub open spec fn spec_has_colon(s: Seq<char>) -> bool {
    exists|i: int| 0 <= i < s.len() && s[i] == ':'
}

/// If an endpoint is missing a port number, add the default one.
pub fn endpoint_str(endpoint: String) -> (r: String)
    ensures
        spec_has_colon(endpoint@) ==> r@ == endpoint@,
        !spec_has_colon(endpoint@) ==> r@ == endpoint@ + ":10124"@,
{
    let s = endpoint.as_str();
    let n = s.unicode_len();
    let mut i: usize = 0;
    let mut found = false;
    while i < n
        invariant
            n == s@.len(),
            s@ == endpoint@,
            i <= n,
            found == exists|j: int| 0 <= j < i && s@[j] == ':',
        decreases n - i,
    {
        if s.get_char(i) == ':' {
            found = true;
        }
        i += 1;
    }
    if found {
        endpoint
    } else {
        endpoint.concat(":10124")
    }
}

/// Pick the node name: the one provided, else the hostname from the
/// environment, else a fixed fallback.  The environment is read by the
/// caller.
pub fn node_name(node: &Option<String>, env_hostname: Option<String>) -> (r: String)
    ensures
        node matches Some(n) ==> r@ == n@,
        node is None && env_hostname is Some ==> r@ == env_hostname->Some_0@,
        node is None && env_hostname is None ==> r@ == "mayastor-node"@,
{
    match node {
        Some(n) => n.clone(),
        None => match env_hostname {
            Some(h) => h,
            None => String::from_str("mayastor-node"),
        },
    }
}

/// The character is a decimal digit.
pub open spec fn spec_is_digit(c: char) -> bool {
    '0' <= c && c <= '9'
}

/// Every character of the string is a decimal digit.
pub open spec fn spec_all_digits(s: Seq<char>) -> bool {
    forall|i: int| 0 <= i < s.len() ==> spec_is_digit(#[trigger] s[i])
}

/// The number a digit string denotes.
pub open spec fn spec_atoi(s: Seq<char>) -> int
    decreases s.len(),
{
    if s.len() == 0 {
        0
    } else {
        spec_atoi(s.drop_last()) * 10 + (s.last() as int - '0' as int)
    }
}

/// What `u64` parsing accepts: an optional leading `+`, then at least one
/// digit, denoting a value that fits.
pub open spec fn spec_parse_u64(s: Seq<char>) -> Option<int> {
    let digits = if s.len() > 0 && s[0] == '+' {
        s.skip(1)
    } else {
        s
    };
    if digits.len() > 0 && spec_all_digits(digits) && spec_atoi(digits) <= u64::MAX {
        Some(spec_atoi(digits))
    } else {
        None
    }
}

/// Nanoseconds denoted by one unit suffix of the `grpc-timeout` header.
pub open spec fn spec_unit_nanos(c: char) -> Option<int> {
    if c == 'H' {
        Some(3600000000000int)
    } else if c == 'M' {
        Some(60000000000int)
    } else if c == 'S' {
        Some(1000000000int)
    } else if c == 'm' {
        Some(1000000int)
    } else if c == 'u' {
        Some(1000int)
    } else if c == 'n' {
        Some(1int)
    } else {
        None
    }
}

/// The timeout a `grpc-timeout` header denotes, in nanoseconds: a value of
/// at least one digit followed by a unit character.  A missing or
/// malformed header means the default timeout.
pub open spec fn spec_grpc_timeout_nanos(header: Option<Seq<char>>) -> int {
    let default = DEFAULT_GRPC_TIMEOUT_SEC * 1000000000;
    match header {
        None => default as int,
        Some(s) => {
            if s.len() >= 2 && spec_parse_u64(s.subrange(0, s.len() - 1)) is Some
                && spec_unit_nanos(s.last()) is Some {
                spec_parse_u64(s.subrange(0, s.len() - 1))->Some_0 * spec_unit_nanos(
                    s.last(),
                )->Some_0
            } else {
                default as int
            }
        },
    }
}

/// A digit string denotes a non-negative number, no smaller than the
/// number any of its prefixes denotes.
proof fn lemma_atoi_prefix(s: Seq<char>, k: int)
    requires
        spec_all_digits(s),
        0 <= k <= s.len(),
    ensures
        spec_atoi(s) >= spec_atoi(s.subrange(0, k)) >= 0,
    decreases s.len() - k,
{
    if k == s.len() {
        assert(s.subrange(0, k) =~= s);
        lemma_atoi_nonneg(s);
    } else {
        lemma_atoi_prefix(s, k + 1);
        let p1 = s.subrange(0, k + 1);
        let p0 = s.subrange(0, k);
        assert(p1.drop_last() =~= p0);
        lemma_atoi_nonneg(p0);
        assert(spec_is_digit(s[k]));
        assert(spec_atoi(p1) == spec_atoi(p0) * 10 + (s[k] as int - '0' as int));
        assert(spec_atoi(p0) * 10 >= spec_atoi(p0)) by (nonlinear_arith)
            requires
                spec_atoi(p0) >= 0,
        ;
    }
}

proof fn lemma_atoi_nonneg(s: Seq<char>)
    requires
        spec_all_digits(s),
    ensures
        spec_atoi(s) >= 0,
    decreases s.len(),
{
    if s.len() > 0 {
        assert(spec_all_digits(s.drop_last()));
        lemma_atoi_nonneg(s.drop_last());
        assert(spec_is_digit(s.last()));
        assert(spec_atoi(s.drop_last()) * 10 >= 0) by (nonlinear_arith)
            requires
                spec_atoi(s.drop_last()) >= 0,
        ;
    }
}

/// Parse a `u64` the way the standard library does: optional leading `+`,
/// then decimal digits; `None` on anything else or on overflow.
fn parse_u64(s: &str) -> (r: Option<u64>)
    ensures
        r matches Some(v) ==> Some(v as int) == spec_parse_u64(s@),
        r is None ==> spec_parse_u64(s@) is None,
{
    let n = s.unicode_len();
    let start: usize = if n > 0 && s.get_char(0) == '+' {
        1
    } else {
        0
    };
    let ghost digits = if s@.len() > 0 && s@[0] == '+' {
        s@.skip(1)
    } else {
        s@
    };
    assert(digits =~= s@.subrange(start as int, n as int));
    if n == start {
        return None;
    }
    let mut acc: u64 = 0;
    let mut i: usize = start;
    while i < n
        invariant
            n == s@.len(),
            start <= i <= n,
            digits == (if s@.len() > 0 && s@[0] == '+' {
                s@.skip(1)
            } else {
                s@
            }),
            digits =~= s@.subrange(start as int, n as int),
            spec_all_digits(s@.subrange(start as int, i as int)),
            acc as int == spec_atoi(s@.subrange(start as int, i as int)),
        decreases n - i,
    {
        let c = s.get_char(i);
        if !(c >= '0' && c <= '9') {
            proof {
                assert(digits[i - start] == s@[i as int]);
                assert(!spec_is_digit(digits[i - start]));
                assert(!spec_all_digits(digits));
            }
            return None;
        }
        let d: u64 = (c as u32 as u64) - 48;
        assert(d == c as int - '0' as int);
        if acc > (u64::MAX - d) / 10 {
            // The value overflows a u64; the full digit string denotes at
            // least as much as this prefix extended by one digit.
            proof {
                let p1 = s@.subrange(start as int, i as int + 1);
                assert(p1.drop_last() =~= s@.subrange(start as int, i as int));
                assert(forall|j: int|
                    0 <= j < p1.len() ==> spec_is_digit(#[trigger] p1[j]));
                assert(spec_atoi(p1) == acc * 10 + d);
                assert(acc * 10 + d > u64::MAX) by (nonlinear_arith)
                    requires
                        acc > (u64::MAX - d) / 10,
                        0 <= d <= 9,
                        acc <= u64::MAX,
                ;
                if spec_all_digits(digits) {
                    lemma_atoi_prefix(digits, i as int + 1 - start);
                    assert(digits.subrange(0, i as int + 1 - start) =~= p1);
                }
            }
            return None;
        }
        acc = acc * 10 + d;
        proof {
            let p1 = s@.subrange(start as int, i as int + 1);
            assert(p1.drop_last() =~= s@.subrange(start as int, i as int));
        }
        i += 1;
    }
    assert(digits =~= s@.subrange(start as int, n as int));
    Some(acc)
}

/// Parse the `grpc-timeout` request header into nanoseconds: at least one
/// digit and a unit character.  A missing or malformed header, or an
/// unsupported unit, yields the default timeout.
pub fn grpc_timeout_nanos(header: Option<&str>) -> (r: u128)
    ensures
        r as int == spec_grpc_timeout_nanos(
            match header {
                Some(h) => Some(h@),
                None => None,
            },
        ),
{
    let default: u128 = (DEFAULT_GRPC_TIMEOUT_SEC as u128) * 1000000000;
    let s = match header {
        Some(s) => s,
        None => {
            return default;
        },
    };
    let n = s.unicode_len();
    if n < 2 {
        return default;
    }
    let value = match parse_u64(s.substring_char(0, n - 1)) {
        Some(v) => v,
        None => {
            return default;
        },
    };
    let unit = s.get_char(n - 1);
    proof {
        assert(s@.subrange(0, n - 1) == s@.subrange(0, s@.len() - 1));
        assert(s@.last() == s@[n - 1]);
    }
    let mult: u128 = if unit == 'H' {
        3600000000000
    } else if unit == 'M' {
        60000000000
    } else if unit == 'S' {
        1000000000
    } else if unit == 'm' {
        1000000
    } else if unit == 'u' {
        1000
    } else if unit == 'n' {
        1
    } else {
        return default;
    };
    assert((value as int) * (mult as int) <= 0xffffffffffffffffint * 3600000000000int)
        by (nonlinear_arith)
        requires
            0 <= value <= 0xffffffffffffffffu64,
            0 < mult <= 3600000000000u128,
    ;
    (value as u128) * mult
}

} // verus!
