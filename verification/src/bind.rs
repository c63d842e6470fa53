//! HTTP protocol mode of a bound app and the `Alt-Svc` header it advertises.

use vstd::prelude::*;
use vstd::string::*;
use crate::text::{decimal, push_decimal};

verus! {

/// HTTP protocol mode for a bound app.
///
/// `All` prepares for HTTP/3 discovery: TCP responses advertise `Alt-Svc`.
#[derive(Clone, Copy, Debug, Eq, PartialEq, Structural)]
pub enum Http {
    H1,
    H1H2,
    All,
}

impl Http {
    /// HTTP/1.1 only.
    pub fn h1() -> (r: Self)
        ensures
            r == Http::H1,
    {
        Http::H1
    }

    /// HTTP/1.1 and HTTP/2 (the default).
    pub fn h1_h2() -> (r: Self)
        ensures
            r == Http::H1H2,
    {
        Http::H1H2
    }

    /// HTTP/1.1 and HTTP/2, advertising HTTP/3 with `Alt-Svc`.
    pub fn all() -> (r: Self)
        ensures
            r == Http::All,
    {
        Http::All
    }
}

/// `h3=":<port>"; ma=86400`.
pub open spec fn alt_svc_value(port: u16) -> Seq<char> {
    "h3=\":"@ + decimal(port as nat) + "\"; ma=86400"@
}

/// The `Alt-Svc` header after selecting the protocol mode: `All` with a known
/// port advertises HTTP/3 on it, `All` without a port keeps the current value,
/// other modes clear it.
pub open spec fn spec_alt_svc(http: Http, port: Option<u16>, current: Option<Seq<char>>) -> Option<Seq<char>> {
    match http {
        Http::All => match port {
            Some(p) => Some(alt_svc_value(p)),
            None => current,
        },
        _ => None,
    }
}

/// The app's `Alt-Svc` header once the protocol mode is applied.
pub fn apply_http_mode(http: Http, port: Option<u16>, current: Option<String>) -> (r: Option<String>)
    ensures
        spec_alt_svc(
            http,
            port,
            match current {
                Some(c) => Some(c@),
                None => None,
            },
        ) == match r {
            Some(s) => Some(s@),
            None => None::<Seq<char>>,
        },
{
    match http {
        Http::All => match port {
            Some(p) => {
                let mut out = String::from_str("h3=\":");
                push_decimal(&mut out, p as u128);
                out.append("\"; ma=86400");
                Some(out)
            },
            None => current,
        },
        _ => None,
    }
}

} // verus!
