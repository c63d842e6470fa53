//! Per-request decisions of the HTTP server: the body-size guard, the HTTP/2
//! rule on connection-specific headers, and the headers every response gets.

use vstd::prelude::*;
use vstd::string::*;
use crate::human::{parse_usize, spec_parse_usize};
use crate::text::str_eq;

verus! {

/// A `Content-Length` that parses as a count larger than the limit.
pub open spec fn spec_body_too_large(content_length: Option<Seq<char>>, max_body: usize) -> bool {
    match content_length {
        Some(v) => match spec_parse_usize(v) {
            Some(n) => n > max_body,
            None => false,
        },
        None => false,
    }
}

/// Whether a request announces a body over the limit (answered with 413
/// before the body is read); a missing or unreadable length is left to the
/// streaming limit.
pub fn body_too_large(content_length: Option<&str>, max_body: usize) -> (r: bool)
    ensures
        r == spec_body_too_large(
            match content_length {
                Some(v) => Some(v@),
                None => None,
            },
            max_body,
        ),
{
    match content_length {
        Some(v) => match parse_usize(v) {
            Some(n) => n > max_body,
            None => false,
        },
        None => false,
    }
}

/// Connection-specific header names, which HTTP/2 forbids.
pub open spec fn spec_hop_by_hop(name: Seq<char>) -> bool {
    name == "connection"@ || name == "transfer-encoding"@ || name == "keep-alive"@ || name == "upgrade"@
}

/// Whether a (lower-case) header name is connection-specific.
pub fn is_hop_by_hop(name: &str) -> (r: bool)
    ensures
        r == spec_hop_by_hop(name@),
{
    str_eq(name, "connection") || str_eq(name, "transfer-encoding") || str_eq(name, "keep-alive") || str_eq(
        name,
        "upgrade",
    )
}

/// What an HTTP/2 answer does with connection-specific headers.
#[derive(Clone, Copy, Debug, PartialEq, Eq, Structural)]
pub enum H2HeaderFix {
    /// Nothing to change.
    Keep,
    /// `426 Upgrade Required`: drop the connection-specific headers.
    StripHopByHop,
    /// Any other status: answer `500 Internal Server Error` instead.
    InternalError,
}

/// The fix for a response: only HTTP/2 responses that carry such headers
/// change; a `426` (the refusal of WebSocket over HTTP/2) keeps its status.
pub open spec fn spec_h2_header_fix(is_http2: bool, status: u16, has_hop_by_hop: bool) -> H2HeaderFix {
    if is_http2 && has_hop_by_hop {
        if status == 426 {
            H2HeaderFix::StripHopByHop
        } else {
            H2HeaderFix::InternalError
        }
    } else {
        H2HeaderFix::Keep
    }
}

/// Decide how an HTTP/2 response handles connection-specific headers.
pub fn h2_header_fix(is_http2: bool, status: u16, has_hop_by_hop: bool) -> (r: H2HeaderFix)
    ensures
        r == spec_h2_header_fix(is_http2, status, has_hop_by_hop),
{
    if is_http2 && has_hop_by_hop {
        if status == 426 {
            H2HeaderFix::StripHopByHop
        } else {
            H2HeaderFix::InternalError
        }
    } else {
        H2HeaderFix::Keep
    }
}

/// The headers added to every response: HSTS on TLS, and the configured
/// `Alt-Svc`.
pub open spec fn spec_extra_headers(hsts: bool, alt_svc: Option<Seq<char>>) -> Seq<(Seq<char>, Seq<char>)> {
    (if hsts {
        seq![("strict-transport-security"@, "max-age=31536000"@)]
    } else {
        Seq::empty()
    }) + match alt_svc {
        Some(v) => seq![("alt-svc"@, v)],
        None => Seq::empty(),
    }
}

/// Headers to add to a response, in order.
pub fn extra_headers(hsts: bool, alt_svc: Option<&str>) -> (r: Vec<(String, String)>)
    ensures
        r@.map_values(|h: (String, String)| (h.0@, h.1@)) == spec_extra_headers(
            hsts,
            match alt_svc {
                Some(v) => Some(v@),
                None => None,
            },
        ),
{
    let mut out: Vec<(String, String)> = Vec::new();
    if hsts {
        out.push((String::from_str("strict-transport-security"), String::from_str("max-age=31536000")));
    }
    match alt_svc {
        Some(v) => {
            out.push((String::from_str("alt-svc"), String::from_str(v)));
        },
        None => {},
    }
    assert(out@.map_values(|h: (String, String)| (h.0@, h.1@)) =~= spec_extra_headers(
        hsts,
        match alt_svc {
            Some(v) => Some(v@),
            None => None,
        },
    ));
    out
}

/// Exactly the four connection-specific headers are hop-by-hop.
pub proof fn law_hop_by_hop_names(name: Seq<char>)
    ensures
        spec_hop_by_hop(name) == seq!["connection"@, "transfer-encoding"@, "keep-alive"@, "upgrade"@].contains(name),
{
    let l = seq!["connection"@, "transfer-encoding"@, "keep-alive"@, "upgrade"@];
    assert(l.contains(name) == (name == l[0] || name == l[1] || name == l[2] || name == l[3]));
}

} // verus!
