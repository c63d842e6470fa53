//! Pieces of request handling that work on plain text: percent-decoding,
//! the media type of `Content-Type`, the request URL, and the scheme / host
//! seen behind a trusted proxy.

use vstd::prelude::*;
use vstd::string::*;
use crate::text::{
    eq_ignore_ascii_case, find_seq, find_str, lemma_split_on_nonempty, split_char, split_on, str_eq,
    str_eq_ignore_ascii_case, trim, trim_ws,
};

verus! {

/// Name for what `percent_encoding::percent_decode_str(input).decode_utf8_lossy()`
/// returns for `input`.
pub uninterp spec fn percent_decoded(input: Seq<char>) -> Seq<char>;

/// Percent-decode and read as UTF-8 (invalid sequences become U+FFFD): wraps
/// `percent_encoding::percent_decode_str` and `PercentDecode::decode_utf8_lossy`.
///
/// Trusted: the result is named `percent_decoded(input)`. The crate's source
/// passes every byte other than `%` through unchanged, so input without `%`
/// comes back as it was; nothing else about the decoding is claimed.
#[verifier::external_body]
fn decode_percent_lossy(input: &str) -> (r: String)
    ensures
        r@ == percent_decoded(input@),
        !input@.contains('%') ==> r@ == input@,
{
    percent_encoding::percent_decode_str(input).decode_utf8_lossy().into_owned()
}

/// Decode `%XX` escapes; bytes that do not form UTF-8 become U+FFFD.
pub fn percent_decode(input: &str) -> (r: String)
    ensures
        r@ == percent_decoded(input@),
        !input@.contains('%') ==> r@ == input@,
{
    decode_percent_lossy(input)
}

/// The media type of a `Content-Type` value: the part before the first `;`, trimmed.
pub open spec fn spec_media_type(value: Seq<char>) -> Seq<char> {
    trim_ws(split_on(value, ';')[0])
}

/// Media type of a `Content-Type` header value (`text/html; charset=utf-8` → `text/html`).
pub fn media_type(value: &str) -> (r: String)
    ensures
        r@ == spec_media_type(value@),
{
    let parts = split_char(value, ';');
    proof {
        lemma_split_on_nonempty(value@, ';');
    }
    String::from_str(trim(parts[0].as_str()))
}

/// Whether a scheme is `https` (any ASCII case).
pub fn is_secure_scheme(scheme: &str) -> (r: bool)
    ensures
        r == eq_ignore_ascii_case(scheme@, "https"@),
{
    str_eq_ignore_ascii_case(scheme, "https")
}

/// The absolute URL of a request path: `scheme://host` and the path, without
/// the query.
pub open spec fn spec_request_url(scheme: Seq<char>, host: Seq<char>, path: Seq<char>) -> Seq<char> {
    scheme + "://"@ + host + path
}

/// Absolute URL for the request path (no query).
pub fn request_url(scheme: &str, host: &str, path: &str) -> (r: String)
    ensures
        r@ == spec_request_url(scheme@, host@, path@),
{
    let mut out = String::from_str(scheme);
    out.append("://");
    out.append(host);
    out.append(path);
    out
}

/// A request target split at its first `?` into path and raw query.
pub open spec fn spec_split_path_query(target: Seq<char>) -> (Seq<char>, Option<Seq<char>>) {
    match find_seq(target, "?"@) {
        Some(i) => (target.subrange(0, i), Some(target.subrange(i + 1, target.len() as int))),
        None => (target, None),
    }
}

/// Split a request target at its first `?` (`str::split_once`).
pub fn split_path_query(target: &str) -> (r: (String, Option<String>))
    ensures
        spec_split_path_query(target@) == (
            r.0@,
            match r.1 {
                Some(q) => Some(q@),
                None => None,
            },
        ),
{
    let n = target.unicode_len();
    match find_str(target, "?") {
        Some(i) => {
            proof {
                reveal_strlit("?");
                crate::text::lemma_find_from_found(target@, "?"@, 0);
            }
            (String::from_str(target.substring_char(0, i)), Some(String::from_str(target.substring_char(i + 1, n))))
        },
        None => (String::from_str(target), None),
    }
}

/// The first comma-separated entry of a forwarded header, trimmed, when non-empty.
pub open spec fn forwarded_first(v: Option<Seq<char>>) -> Option<Seq<char>> {
    match v {
        Some(s) => {
            let first = trim_ws(split_on(s, ',')[0]);
            if first.len() > 0 {
                Some(first)
            } else {
                None
            }
        },
        None => None,
    }
}

/// Scheme and host of a request: the URI's scheme (else `http`) and the `Host`
/// header (else `localhost`), replaced by the first `X-Forwarded-Proto` /
/// `X-Forwarded-Host` entries when the proxy is trusted.
pub open spec fn spec_resolve_scheme_host(
    host_header: Option<Seq<char>>,
    forwarded_proto: Option<Seq<char>>,
    forwarded_host: Option<Seq<char>>,
    uri_scheme: Option<Seq<char>>,
    trust_proxy: bool,
) -> (Seq<char>, Seq<char>) {
    let scheme = match uri_scheme {
        Some(s) => s,
        None => "http"@,
    };
    let host = match host_header {
        Some(h) => h,
        None => "localhost"@,
    };
    if trust_proxy {
        (
            match forwarded_first(forwarded_proto) {
                Some(p) => p,
                None => scheme,
            },
            match forwarded_first(forwarded_host) {
                Some(h) => h,
                None => host,
            },
        )
    } else {
        (scheme, host)
    }
}

/// The first entry of a forwarded header.
fn first_forwarded(v: Option<&str>) -> (r: Option<String>)
    ensures
        forwarded_first(
            match v {
                Some(s) => Some(s@),
                None => None,
            },
        ) == match r {
            Some(s) => Some(s@),
            None => None::<Seq<char>>,
        },
{
    match v {
        Some(s) => {
            let parts = split_char(s, ',');
            proof {
                lemma_split_on_nonempty(s@, ',');
            }
            let first = trim(parts[0].as_str());
            if first.unicode_len() > 0 {
                Some(String::from_str(first))
            } else {
                None
            }
        },
        None => None,
    }
}

/// The contents of an optional borrowed string.
pub open spec fn opt_view(v: Option<&str>) -> Option<Seq<char>> {
    match v {
        Some(s) => Some(s@),
        None => None,
    }
}

/// Build scheme / host from the request's header values (and proxy headers when trusted).
pub fn resolve_scheme_host(
    host_header: Option<&str>,
    forwarded_proto: Option<&str>,
    forwarded_host: Option<&str>,
    uri_scheme: Option<&str>,
    trust_proxy: bool,
) -> (r: (String, String))
    ensures
        (r.0@, r.1@) == spec_resolve_scheme_host(
            opt_view(host_header),
            opt_view(forwarded_proto),
            opt_view(forwarded_host),
            opt_view(uri_scheme),
            trust_proxy,
        ),
{
    let mut scheme = match uri_scheme {
        Some(s) => String::from_str(s),
        None => String::from_str("http"),
    };
    let mut host = match host_header {
        Some(h) => String::from_str(h),
        None => String::from_str("localhost"),
    };
    if trust_proxy {
        match first_forwarded(forwarded_proto) {
            Some(p) => {
                scheme = p;
            },
            None => {},
        }
        match first_forwarded(forwarded_host) {
            Some(h) => {
                host = h;
            },
            None => {},
        }
    }
    (scheme, host)
}

/// `+` read as a space, as form encoding writes spaces.
pub open spec fn plus_to_space(s: Seq<char>) -> Seq<char> {
    s.map_values(|c: char| if c == '+' { ' ' } else { c })
}

/// A form-encoded component decoded: `+` as space, then `%XX` escapes.
pub open spec fn form_decoded(s: Seq<char>) -> Seq<char> {
    percent_decoded(plus_to_space(s))
}

/// The non-empty `&`-separated pieces of a query, in order.
pub open spec fn query_pieces(pieces: Seq<Seq<char>>) -> Seq<Seq<char>>
    decreases pieces.len(),
{
    if pieces.len() == 0 {
        Seq::empty()
    } else {
        let prev = query_pieces(pieces.drop_last());
        if pieces.last().len() > 0 {
            prev.push(pieces.last())
        } else {
            prev
        }
    }
}

/// A piece split at its first `=` (no `=`: the whole piece names an empty value).
pub open spec fn split_pair(p: Seq<char>) -> (Seq<char>, Seq<char>) {
    match find_seq(p, "="@) {
        Some(i) => (p.subrange(0, i), p.subrange(i + 1, p.len() as int)),
        None => (p, Seq::empty()),
    }
}

/// The decoded pairs of a query, in order: one per non-empty `&`-separated
/// piece, split at the piece's first `=`.
pub open spec fn urlencoded_pairs(query: Seq<char>) -> Seq<(Seq<char>, Seq<char>)> {
    query_pieces(split_on(query, '&')).map_values(
        |p: Seq<char>| (form_decoded(split_pair(p).0), form_decoded(split_pair(p).1)),
    )
}

/// The pairs of a query: wraps `serde_urlencoded::from_str` into a list of
/// string pairs (its error, which string values never raise, gives no pairs).
///
/// Trusted: as the crate's source (`form_urlencoded::parse`) shows, there is
/// one pair per non-empty `&`-separated piece, split at the piece's first `=`,
/// each side read with `+` as space and then percent-decoded like
/// `percent_encoding`'s decoder (whose result is named `percent_decoded`).
#[verifier::external_body]
fn query_pairs(query: &str) -> (r: Vec<(String, String)>)
    ensures
        r@.len() == urlencoded_pairs(query@).len(),
        forall|i: int| 0 <= i < r@.len() ==> ((#[trigger] r@[i]).0@, r@[i].1@) == urlencoded_pairs(query@)[i],
{
    serde_urlencoded::from_str::<Vec<(String, String)>>(query).unwrap_or_default()
}

/// Pairs as a map: a later pair for a name wins.
pub open spec fn pairs_map(s: Seq<(Seq<char>, Seq<char>)>) -> Map<Seq<char>, Seq<char>>
    decreases s.len(),
{
    if s.len() == 0 {
        Map::empty()
    } else {
        pairs_map(s.drop_last()).insert(s.last().0, s.last().1)
    }
}

/// Owned pairs as the contracts see them.
pub open spec fn pairs_view(v: Seq<(String, String)>) -> Seq<(Seq<char>, Seq<char>)> {
    v.map_values(|p: (String, String)| (p.0@, p.1@))
}

/// No name occurs twice.
pub open spec fn distinct_names(s: Seq<(Seq<char>, Seq<char>)>) -> bool {
    forall|i: int, j: int| 0 <= i < j < s.len() ==> (#[trigger] s[i]).0 != (#[trigger] s[j]).0
}

/// Replacing the value of a name that occurs once updates the map there.
proof fn lemma_pairs_map_update(s: Seq<(Seq<char>, Seq<char>)>, j: int, e: (Seq<char>, Seq<char>))
    requires
        distinct_names(s),
        0 <= j < s.len(),
        s[j].0 == e.0,
    ensures
        pairs_map(s.update(j, e)) == pairs_map(s).insert(e.0, e.1),
    decreases s.len(),
{
    let u = s.update(j, e);
    if j == s.len() - 1 {
        assert(u.drop_last() =~= s.drop_last());
        assert(pairs_map(u) =~= pairs_map(s).insert(e.0, e.1));
    } else {
        assert(u.drop_last() =~= s.drop_last().update(j, e));
        lemma_pairs_map_update(s.drop_last(), j, e);
        assert(s[j].0 != s[s.len() - 1].0);
        assert(pairs_map(u) =~= pairs_map(s).insert(e.0, e.1));
    }
}

/// Position of `name` among the pairs.
fn name_index(v: &Vec<(String, String)>, name: &str) -> (r: Option<usize>)
    ensures
        match r {
            Some(j) => j < v@.len() && v@[j as int].0@ == name@,
            None => forall|j: int| 0 <= j < v@.len() ==> (#[trigger] v@[j]).0@ != name@,
        },
{
    let mut j: usize = 0;
    while j < v.len()
        invariant
            j <= v@.len(),
            forall|k: int| 0 <= k < j ==> (#[trigger] v@[k]).0@ != name@,
        decreases v@.len() - j,
    {
        if str_eq(v[j].0.as_str(), name) {
            return Some(j);
        }
        j = j + 1;
    }
    None
}

/// Query parameters: the decoded pairs of the query with a later value for a
/// name replacing an earlier one (`+` is a space).
pub fn parse_query(query: &str) -> (r: Vec<(String, String)>)
    ensures
        distinct_names(pairs_view(r@)),
        pairs_map(pairs_view(r@)) == pairs_map(urlencoded_pairs(query@)),
{
    let pairs = query_pairs(query);
    let ghost all = urlencoded_pairs(query@);
    let mut out: Vec<(String, String)> = Vec::new();
    let mut i: usize = 0;
    assert(all.take(0) =~= Seq::<(Seq<char>, Seq<char>)>::empty());
    assert(pairs_view(out@) =~= Seq::<(Seq<char>, Seq<char>)>::empty());
    while i < pairs.len()
        invariant
            all == urlencoded_pairs(query@),
            pairs@.len() == all.len(),
            forall|k: int| 0 <= k < pairs@.len() ==> ((#[trigger] pairs@[k]).0@, pairs@[k].1@) == all[k],
            i <= pairs@.len(),
            distinct_names(pairs_view(out@)),
            pairs_map(pairs_view(out@)) == pairs_map(all.take(i as int)),
        decreases pairs@.len() - i,
    {
        let name = pairs[i].0.clone();
        let value = pairs[i].1.clone();
        let ghost e = (name@, value@);
        assert(e == all[i as int]);
        assert(all.take(i + 1).drop_last() =~= all.take(i as int));
        let ghost before = pairs_view(out@);
        match name_index(&out, name.as_str()) {
            Some(j) => {
                proof {
                    lemma_pairs_map_update(before, j as int, e);
                }
                out.set(j, (name, value));
                assert(pairs_view(out@) =~= before.update(j as int, e));
                assert(distinct_names(pairs_view(out@))) by {
                    let v = pairs_view(out@);
                    assert forall|x: int, y: int| 0 <= x < y < v.len() implies (#[trigger] v[x]).0 != (#[trigger] v[y]).0 by {
                        assert(before[x].0 != before[y].0);
                    }
                }
            },
            None => {
                out.push((name, value));
                assert(pairs_view(out@) =~= before.push(e));
                assert(pairs_view(out@).drop_last() =~= before);
                assert(distinct_names(pairs_view(out@))) by {
                    let v = pairs_view(out@);
                    assert forall|x: int, y: int| 0 <= x < y < v.len() implies (#[trigger] v[x]).0 != (#[trigger] v[y]).0 by {
                        if y == v.len() - 1 {
                            assert(before[x].0 == out@[x].0@);
                        } else {
                            assert(before[x] == v[x] && before[y] == v[y]);
                        }
                    }
                }
            },
        }
        i = i + 1;
    }
    assert(all.take(pairs@.len() as int) =~= all);
    out
}

/// The cookie a `Set-Cookie` value stores: the part before the first `;`,
/// trimmed, split at its first `=`, each side trimmed; none without `=`.
pub open spec fn spec_set_cookie_pair(raw: Seq<char>) -> Option<(Seq<char>, Seq<char>)> {
    let pair = trim_ws(split_on(raw, ';')[0]);
    match find_seq(pair, "="@) {
        Some(i) => Some((trim_ws(pair.subrange(0, i)), trim_ws(pair.subrange(i + 1, pair.len() as int)))),
        None => None,
    }
}

/// Name and value of the cookie a `Set-Cookie` header stores.
pub fn set_cookie_pair(raw: &str) -> (r: Option<(String, String)>)
    ensures
        spec_set_cookie_pair(raw@) == match r {
            Some(p) => Some((p.0@, p.1@)),
            None => None::<(Seq<char>, Seq<char>)>,
        },
{
    let parts = split_char(raw, ';');
    proof {
        lemma_split_on_nonempty(raw@, ';');
    }
    let pair = trim(parts[0].as_str());
    let n = pair.unicode_len();
    match find_str(pair, "=") {
        Some(i) => {
            proof {
                reveal_strlit("=");
                crate::text::lemma_find_from_found(pair@, "="@, 0);
            }
            let name = trim(pair.substring_char(0, i));
            let value = trim(pair.substring_char(i + 1, n));
            Some((String::from_str(name), String::from_str(value)))
        },
        None => None,
    }
}

/// `name=value` pairs joined with `; `.
pub open spec fn cookie_list(pairs: Seq<(Seq<char>, Seq<char>)>) -> Seq<char>
    decreases pairs.len(),
{
    if pairs.len() == 0 {
        Seq::empty()
    } else if pairs.len() == 1 {
        pairs[0].0 + "="@ + pairs[0].1
    } else {
        cookie_list(pairs.drop_last()) + "; "@ + pairs.last().0 + "="@ + pairs.last().1
    }
}

/// The `Cookie` header for the stored cookies; `None` when there are none.
pub fn cookie_header(jar: &Vec<(String, String)>) -> (r: Option<String>)
    ensures
        match r {
            Some(h) => jar@.len() > 0 && h@ == cookie_list(pairs_view(jar@)),
            None => jar@.len() == 0,
        },
{
    if jar.len() == 0 {
        return None;
    }
    let ghost v = pairs_view(jar@);
    let mut out = String::new();
    let mut i: usize = 0;
    assert(v.take(0) =~= Seq::<(Seq<char>, Seq<char>)>::empty());
    while i < jar.len()
        invariant
            v == pairs_view(jar@),
            i <= jar@.len(),
            out@ == cookie_list(v.take(i as int)),
        decreases jar@.len() - i,
    {
        assert(v.take(i + 1).drop_last() =~= v.take(i as int));
        assert(v.take(i + 1).last() == (jar@[i as int].0@, jar@[i as int].1@));
        if i > 0 {
            out.append("; ");
        } else {
            assert(v.take(1)[0] == (jar@[0].0@, jar@[0].1@));
        }
        out.append(jar[i].0.as_str());
        out.append("=");
        out.append(jar[i].1.as_str());
        i = i + 1;
    }
    assert(v.take(jar@.len() as int) =~= v);
    Some(out)
}

} // verus!
