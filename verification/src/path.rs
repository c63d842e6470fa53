//! Route path normalization, prefix joining and path-template conversion.

use vstd::prelude::*;
use vstd::string::*;
use crate::text::{push_char, starts_with_char, str_starts_with_char, substring, to_owned_string};

verus! {

/// A path always starts with `/`; the empty path is the root.
pub open spec fn spec_normalize_path(p: Seq<char>) -> Seq<char> {
    if p.len() == 0 {
        seq!['/']
    } else if p[0] == '/' {
        p
    } else {
        seq!['/'] + p
    }
}

/// Drop trailing `/`, keeping at least one character.
pub open spec fn strip_trailing_slashes(s: Seq<char>) -> Seq<char>
    decreases s.len(),
{
    if s.len() > 1 && s.last() == '/' {
        strip_trailing_slashes(s.drop_last())
    } else {
        s
    }
}

/// Mount prefix: empty for the root, otherwise a `/`-led path without trailing `/`.
pub open spec fn spec_normalize_prefix(prefix: Seq<char>) -> Seq<char> {
    if prefix.len() == 0 || prefix == seq!['/'] {
        Seq::empty()
    } else {
        strip_trailing_slashes(spec_normalize_path(prefix))
    }
}

/// Joining a (normalized) prefix with a route path.
pub open spec fn spec_join_paths(prefix: Seq<char>, path: Seq<char>) -> Seq<char> {
    let path = if path.len() == 0 { seq!['/'] } else { path };
    if prefix.len() == 0 {
        spec_normalize_path(path)
    } else if path == seq!['/'] {
        prefix
    } else {
        let rest = if path[0] == '/' { path.drop_first() } else { path };
        prefix + seq!['/'] + rest
    }
}

/// Drop all leading `/`.
pub open spec fn strip_leading_slashes(s: Seq<char>) -> Seq<char>
    decreases s.len(),
{
    if s.len() > 0 && s[0] == '/' {
        strip_leading_slashes(s.drop_first())
    } else {
        s
    }
}

/// Drop all trailing `/` (possibly down to the empty string).
pub open spec fn strip_all_trailing_slashes(s: Seq<char>) -> Seq<char>
    decreases s.len(),
{
    if s.len() > 0 && s.last() == '/' {
        strip_all_trailing_slashes(s.drop_last())
    } else {
        s
    }
}

/// `s` with `/` trimmed from both ends.
pub open spec fn trim_slashes(s: Seq<char>) -> Seq<char> {
    strip_all_trailing_slashes(strip_leading_slashes(s))
}

/// The `/`-separated segments of `s`, empty ones included (one segment when
/// there is no `/`).
pub open spec fn segments(s: Seq<char>) -> Seq<Seq<char>>
    decreases s.len(),
{
    if s.len() == 0 {
        seq![Seq::<char>::empty()]
    } else {
        let prev = segments(s.drop_last());
        if s.last() == '/' {
            prev.push(Seq::empty())
        } else {
            prev.update(prev.len() - 1, prev.last().push(s.last()))
        }
    }
}

/// `:name` becomes `{name}`; other segments stay as they are.
pub open spec fn brace_segment(seg: Seq<char>) -> Seq<char> {
    if starts_with_char(seg, ':') {
        seq!['{'] + seg.drop_first() + seq!['}']
    } else {
        seg
    }
}

/// Every segment written back with a leading `/`, converted by `brace_segment`.
pub open spec fn join_brace(segs: Seq<Seq<char>>) -> Seq<char>
    decreases segs.len(),
{
    if segs.len() == 0 {
        Seq::empty()
    } else {
        join_brace(segs.drop_last()) + seq!['/'] + brace_segment(segs.last())
    }
}

/// Some segment starts with a wildcard `*`.
pub open spec fn has_wildcard(segs: Seq<Seq<char>>) -> bool {
    exists|i: int| 0 <= i < segs.len() && starts_with_char(#[trigger] segs[i], '*')
}

/// OpenAPI form of an Express-style path; `None` when it holds a wildcard.
pub open spec fn spec_to_brace_path(path: Seq<char>) -> Option<Seq<char>> {
    let p = spec_normalize_path(path);
    if p == seq!['/'] {
        Some(seq!['/'])
    } else {
        let segs = segments(trim_slashes(p));
        if has_wildcard(segs) {
            None
        } else {
            Some(join_brace(segs))
        }
    }
}

/// `*` becomes `{*path}`, `*name` becomes `{*name}`, `:name` becomes `{name}`.
pub open spec fn matchit_segment(seg: Seq<char>) -> Seq<char> {
    if starts_with_char(seg, '*') {
        if seg.len() == 1 {
            seq!['{', '*', 'p', 'a', 't', 'h', '}']
        } else {
            seq!['{', '*'] + seg.drop_first() + seq!['}']
        }
    } else if starts_with_char(seg, ':') {
        seq!['{'] + seg.drop_first() + seq!['}']
    } else {
        seg
    }
}

/// Every segment written back with a leading `/`, converted by `matchit_segment`.
pub open spec fn join_matchit(segs: Seq<Seq<char>>) -> Seq<char>
    decreases segs.len(),
{
    if segs.len() == 0 {
        Seq::empty()
    } else {
        join_matchit(segs.drop_last()) + seq!['/'] + matchit_segment(segs.last())
    }
}

/// Router-table form of an Express-style path.
pub open spec fn spec_to_matchit_path(path: Seq<char>) -> Seq<char> {
    let p = spec_normalize_path(path);
    if p == seq!['/'] {
        seq!['/']
    } else {
        join_matchit(segments(trim_slashes(p)))
    }
}

/// A string holding only `/`.
fn root_string() -> (r: String)
    ensures
        r@ == seq!['/'],
{
    let mut r = String::new();
    push_char(&mut r, '/');
    r
}

/// Whether `s` is exactly `/`.
fn is_root(s: &str) -> (r: bool)
    ensures
        r == (s@ == seq!['/']),
{
    let b = s.unicode_len() == 1 && s.get_char(0) == '/';
    if b {
        assert(s@ =~= seq!['/']);
    }
    b
}

/// Make `path` start with `/` (`""` becomes `/`).
pub fn normalize_path(path: &str) -> (r: String)
    ensures
        r@ == spec_normalize_path(path@),
{
    if path.unicode_len() == 0 {
        return root_string();
    }
    if str_starts_with_char(path, '/') {
        to_owned_string(path)
    } else {
        let mut r = root_string();
        r.append(path);
        r
    }
}

/// Mount prefix form: `""` / `"/"` become `""`; otherwise `/`-led, trailing `/` removed.
pub fn normalize_prefix(prefix: &str) -> (r: String)
    ensures
        r@ == spec_normalize_prefix(prefix@),
{
    if prefix.unicode_len() == 0 || is_root(prefix) {
        return String::new();
    }
    let p = normalize_path(prefix);
    let ps = p.as_str();
    let mut end = ps.unicode_len();
    assert(ps@.subrange(0, end as int) =~= ps@);
    while end > 1 && ps.get_char(end - 1) == '/'
        invariant
            ps@ == p@,
            1 <= end <= ps@.len(),
            strip_trailing_slashes(ps@) == strip_trailing_slashes(ps@.subrange(0, end as int)),
        decreases end,
    {
        assert(ps@.subrange(0, end as int).drop_last() =~= ps@.subrange(0, end - 1));
        end = end - 1;
    }
    assert(ps@.subrange(0, end as int) == strip_trailing_slashes(ps@.subrange(0, end as int)));
    substring(ps, 0, end)
}

/// Join a mount prefix with a route path (`join_paths("/api", "/users")` is `/api/users`).
pub fn join_paths(prefix: &str, path: &str) -> (r: String)
    ensures
        r@ == spec_join_paths(prefix@, path@),
{
    let root = root_string();
    let path: &str = if path.unicode_len() == 0 { root.as_str() } else { path };
    if prefix.unicode_len() == 0 {
        return normalize_path(path);
    }
    if is_root(path) {
        return to_owned_string(prefix);
    }
    let n = path.unicode_len();
    let rest: &str = if path.get_char(0) == '/' { path.substring_char(1, n) } else { path };
    assert(path@[0] == '/' ==> rest@ =~= path@.drop_first());
    let mut r = to_owned_string(prefix);
    push_char(&mut r, '/');
    r.append(rest);
    r
}

/// Character range `[lo, hi)` of `s` with `/` trimmed from both ends.
fn trim_slash_bounds(s: &str) -> (r: (usize, usize))
    ensures
        r.0 <= r.1 <= s@.len(),
        s@.subrange(r.0 as int, r.1 as int) == trim_slashes(s@),
{
    let n = s.unicode_len();
    let mut lo: usize = 0;
    assert(s@.subrange(0, n as int) =~= s@);
    while lo < n && s.get_char(lo) == '/'
        invariant
            n == s@.len(),
            lo <= n,
            strip_leading_slashes(s@) == strip_leading_slashes(s@.subrange(lo as int, n as int)),
        decreases n - lo,
    {
        assert(s@.subrange(lo as int, n as int).drop_first() =~= s@.subrange(lo + 1, n as int));
        lo = lo + 1;
    }
    assert(strip_leading_slashes(s@.subrange(lo as int, n as int)) == s@.subrange(lo as int, n as int));
    let mut hi: usize = n;
    while hi > lo && s.get_char(hi - 1) == '/'
        invariant
            n == s@.len(),
            lo <= hi <= n,
            strip_leading_slashes(s@) == s@.subrange(lo as int, n as int),
            trim_slashes(s@) == strip_all_trailing_slashes(s@.subrange(lo as int, hi as int)),
        decreases hi,
    {
        assert(s@.subrange(lo as int, hi as int).drop_last() =~= s@.subrange(lo as int, hi - 1));
        hi = hi - 1;
    }
    assert(strip_all_trailing_slashes(s@.subrange(lo as int, hi as int)) == s@.subrange(lo as int, hi as int));
    (lo, hi)
}

/// Unfolds `segments` by one character.
pub proof fn lemma_segments_step(t: Seq<char>, i: int)
    requires
        0 <= i < t.len(),
    ensures
        segments(t.take(i + 1)) == (if t[i] == '/' {
            segments(t.take(i)).push(Seq::empty())
        } else {
            segments(t.take(i)).update(
                segments(t.take(i)).len() - 1,
                segments(t.take(i)).last().push(t[i]),
            )
        }),
{
    assert(t.take(i + 1).drop_last() =~= t.take(i));
}

/// `segments` is never empty.
pub proof fn lemma_segments_nonempty(s: Seq<char>)
    ensures
        segments(s).len() >= 1,
    decreases s.len(),
{
    if s.len() > 0 {
        lemma_segments_nonempty(s.drop_last());
    }
}

/// Write `seg` in its OpenAPI form.
fn push_brace_segment(out: &mut String, seg: &str)
    ensures
        final(out)@ == old(out)@ + seq!['/'] + brace_segment(seg@),
{
    push_char(out, '/');
    let n = seg.unicode_len();
    if n > 0 && seg.get_char(0) == ':' {
        push_char(out, '{');
        out.append(seg.substring_char(1, n));
        push_char(out, '}');
        assert(seg@.subrange(1, n as int) =~= seg@.drop_first());
    } else {
        out.append(seg);
    }
}

/// Write `seg` in its router-table form.
fn push_matchit_segment(out: &mut String, seg: &str)
    ensures
        final(out)@ == old(out)@ + seq!['/'] + matchit_segment(seg@),
{
    push_char(out, '/');
    let n = seg.unicode_len();
    if n > 0 && seg.get_char(0) == '*' {
        if n == 1 {
            push_char(out, '{');
            push_char(out, '*');
            push_char(out, 'p');
            push_char(out, 'a');
            push_char(out, 't');
            push_char(out, 'h');
            push_char(out, '}');
        } else {
            push_char(out, '{');
            push_char(out, '*');
            out.append(seg.substring_char(1, n));
            push_char(out, '}');
            assert(seg@.subrange(1, n as int) =~= seg@.drop_first());
        }
    } else if n > 0 && seg.get_char(0) == ':' {
        push_char(out, '{');
        out.append(seg.substring_char(1, n));
        push_char(out, '}');
        assert(seg@.subrange(1, n as int) =~= seg@.drop_first());
    } else {
        out.append(seg);
    }
}

/// Completed segments of a prefix stay fixed as the string grows.
proof fn lemma_segments_stable(t: Seq<char>, a: int, b: int)
    requires
        0 <= a <= b <= t.len(),
    ensures
        segments(t.take(b)).len() >= segments(t.take(a)).len(),
        forall|j: int|
            0 <= j < segments(t.take(a)).len() - 1 ==> #[trigger] segments(t.take(b))[j]
                == segments(t.take(a))[j],
    decreases b - a,
{
    if b > a {
        lemma_segments_stable(t, a, b - 1);
        lemma_segments_step(t, b - 1);
        lemma_segments_nonempty(t.take(b - 1));
    }
}

/// A segment that a `/` has closed is a segment of the whole string.
proof fn lemma_closed_segment_kept(t: Seq<char>, k: int)
    requires
        0 <= k < t.len(),
        t[k] == '/',
    ensures
        ({
            let prev = segments(t.take(k));
            &&& prev.len() - 1 < segments(t).len()
            &&& segments(t)[prev.len() - 1] == prev.last()
        }),
{
    lemma_segments_nonempty(t.take(k));
    lemma_segments_step(t, k);
    lemma_segments_stable(t, k + 1, t.len() as int);
    assert(t.take(t.len() as int) =~= t);
}

/// The wildcard test splits over the last segment.
proof fn lemma_has_wildcard_split(segs: Seq<Seq<char>>)
    requires
        segs.len() >= 1,
    ensures
        has_wildcard(segs) == (has_wildcard(segs.drop_last()) || starts_with_char(segs.last(), '*')),
{
    if has_wildcard(segs) {
        let i = choose|i: int| 0 <= i < segs.len() && starts_with_char(#[trigger] segs[i], '*');
        if i < segs.len() - 1 {
            assert(segs.drop_last()[i] == segs[i]);
        }
    }
    if has_wildcard(segs.drop_last()) {
        let i = choose|i: int|
            0 <= i < segs.drop_last().len() && starts_with_char(#[trigger] segs.drop_last()[i], '*');
        assert(segs[i] == segs.drop_last()[i]);
    }
    if starts_with_char(segs.last(), '*') {
        assert(starts_with_char(segs[segs.len() - 1], '*'));
    }
}

/// Convert Express `:id` to OpenAPI `{id}`; `None` when the path holds a `*` wildcard.
pub fn to_brace_path(path: &str) -> (r: Option<String>)
    ensures
        match r {
            Some(s) => spec_to_brace_path(path@) == Some(s@),
            None => spec_to_brace_path(path@) is None,
        },
{
    let p = normalize_path(path);
    let ps = p.as_str();
    if is_root(ps) {
        return Some(root_string());
    }
    let (lo, hi) = trim_slash_bounds(ps);
    let ghost t = trim_slashes(ps@);
    let mut out = String::new();
    let mut cur = String::new();
    let mut i: usize = lo;
    proof {
        assert(t.take(0) =~= Seq::<char>::empty());
    }
    while i < hi
        invariant
            lo <= i <= hi <= ps@.len(),
            ps@.subrange(lo as int, hi as int) == t,
            t == trim_slashes(ps@),
            ps@ == spec_normalize_path(path@),
            ps@ != seq!['/'],
            segments(t.take(i - lo)).len() >= 1,
            cur@ == segments(t.take(i - lo)).last(),
            out@ == join_brace(segments(t.take(i - lo)).drop_last()),
            !has_wildcard(segments(t.take(i - lo)).drop_last()),
        decreases hi - i,
    {
        let c = ps.get_char(i);
        let ghost k = i - lo;
        let ghost prev = segments(t.take(k));
        proof {
            assert(t[k] == c);
            lemma_segments_step(t, k);
        }
        if c == '/' {
            if str_starts_with_char(cur.as_str(), '*') {
                proof {
                    lemma_closed_segment_kept(t, k);
                    let j = prev.len() - 1;
                    assert(0 <= j < segments(t).len());
                    assert(starts_with_char(segments(t)[j], '*'));
                    assert(has_wildcard(segments(t)));
                }
                return None;
            }
            push_brace_segment(&mut out, cur.as_str());
            cur = String::new();
            proof {
                let next = segments(t.take(k + 1));
                assert(next.drop_last() =~= prev);
                lemma_has_wildcard_split(prev);
            }
        } else {
            push_char(&mut cur, c);
            proof {
                let next = segments(t.take(k + 1));
                assert(next.drop_last() =~= prev.drop_last());
            }
        }
        i = i + 1;
    }
    proof {
        assert(t.take(hi - lo) =~= t);
        lemma_has_wildcard_split(segments(t));
    }
    if str_starts_with_char(cur.as_str(), '*') {
        return None;
    }
    push_brace_segment(&mut out, cur.as_str());
    Some(out)
}

/// Convert Express `:id` / `*path` to router-table `{id}` / `{*path}`.
pub fn to_matchit_path(path: &str) -> (r: String)
    ensures
        r@ == spec_to_matchit_path(path@),
{
    let p = normalize_path(path);
    let ps = p.as_str();
    if is_root(ps) {
        return root_string();
    }
    let (lo, hi) = trim_slash_bounds(ps);
    let ghost t = trim_slashes(ps@);
    let mut out = String::new();
    let mut cur = String::new();
    let mut i: usize = lo;
    proof {
        assert(t.take(0) =~= Seq::<char>::empty());
    }
    while i < hi
        invariant
            lo <= i <= hi <= ps@.len(),
            ps@.subrange(lo as int, hi as int) == t,
            t == trim_slashes(ps@),
            ps@ == spec_normalize_path(path@),
            ps@ != seq!['/'],
            segments(t.take(i - lo)).len() >= 1,
            cur@ == segments(t.take(i - lo)).last(),
            out@ == join_matchit(segments(t.take(i - lo)).drop_last()),
        decreases hi - i,
    {
        let c = ps.get_char(i);
        let ghost k = i - lo;
        let ghost prev = segments(t.take(k));
        proof {
            assert(t[k] == c);
            lemma_segments_step(t, k);
        }
        if c == '/' {
            push_matchit_segment(&mut out, cur.as_str());
            cur = String::new();
            proof {
                let next = segments(t.take(k + 1));
                assert(next.drop_last() =~= prev);
                assert(prev.drop_last().push(prev.last()) =~= prev);
            }
        } else {
            push_char(&mut cur, c);
            proof {
                let next = segments(t.take(k + 1));
                assert(next.drop_last() =~= prev.drop_last());
            }
        }
        i = i + 1;
    }
    proof {
        assert(t.take(hi - lo) =~= t);
        let segs = segments(t);
        assert(segs.drop_last().push(segs.last()) =~= segs);
    }
    push_matchit_segment(&mut out, cur.as_str());
    out
}

/// A mount prefix: empty (the root), or `/`-led with no trailing `/`.
pub open spec fn is_mount_prefix(p: Seq<char>) -> bool {
    p.len() == 0 || (starts_with_char(p, '/') && p.last() != '/')
}

/// Normalizing a path yields a `/`-led path, and normalizing again changes nothing.
pub proof fn law_normalize_path_idempotent(p: Seq<char>)
    ensures
        starts_with_char(spec_normalize_path(p), '/'),
        spec_normalize_path(spec_normalize_path(p)) == spec_normalize_path(p),
{
    if p.len() > 0 && p[0] != '/' {
        assert((seq!['/'] + p)[0] == '/');
    }
}

/// Joining with the root prefix only normalizes the path; joining the root path
/// (or the empty path) onto a prefix gives the prefix back.
pub proof fn law_join_root(prefix: Seq<char>, path: Seq<char>)
    requires
        prefix.len() > 0,
    ensures
        spec_join_paths(Seq::empty(), path) == spec_normalize_path(path),
        spec_join_paths(prefix, seq!['/']) == prefix,
        spec_join_paths(prefix, Seq::empty()) == prefix,
{
}

/// A prefix that holds any character besides `/` normalizes to a mount prefix.
pub proof fn law_normalize_prefix_is_mount_prefix(prefix: Seq<char>)
    requires
        exists|i: int| 0 <= i < prefix.len() && prefix[i] != '/',
    ensures
        is_mount_prefix(spec_normalize_prefix(prefix)),
{
    let i = choose|i: int| 0 <= i < prefix.len() && prefix[i] != '/';
    let p = spec_normalize_path(prefix);
    assert(prefix != seq!['/']) by {
        if prefix == seq!['/'] {
            assert(prefix[i] == '/');
        }
    }
    let j: int = if prefix[0] == '/' { i } else { i + 1 };
    assert(p[j] != '/');
    lemma_strip_trailing(p, j);
}

/// Stripping trailing `/` keeps a leading `/` and every position up to a known
/// non-`/` character, and leaves no trailing `/`.
proof fn lemma_strip_trailing(s: Seq<char>, j: int)
    requires
        0 <= j < s.len(),
        s[j] != '/',
        s[0] == '/',
    ensures
        strip_trailing_slashes(s).len() > j,
        strip_trailing_slashes(s)[0] == '/',
        strip_trailing_slashes(s).last() != '/',
    decreases s.len(),
{
    if s.len() > 1 && s.last() == '/' {
        lemma_strip_trailing(s.drop_last(), j);
    }
}

/// Mounting a router under `b`, and that router under `a`, places a route where
/// one mount under the joined prefix `join(a, b)` would (unless both prefixes are
/// the root).
pub proof fn law_join_nested_mounts(a: Seq<char>, b: Seq<char>, c: Seq<char>)
    requires
        is_mount_prefix(a),
        is_mount_prefix(b),
        a.len() > 0 || b.len() > 0,
    ensures
        spec_join_paths(spec_join_paths(a, b), c) == spec_join_paths(a, spec_join_paths(b, c)),
{
    let c2 = if c.len() == 0 { seq!['/'] } else { c };
    if a.len() > 0 && b.len() > 0 {
        assert(b != seq!['/']) by {
            if b == seq!['/'] {
                assert(b.last() == '/');
            }
        }
        assert(spec_join_paths(a, b) =~= a + b);
        let jbc = spec_join_paths(b, c);
        if c2 == seq!['/'] {
            assert(jbc == b);
        } else {
            let rest = if c2[0] == '/' { c2.drop_first() } else { c2 };
            assert(jbc == b + seq!['/'] + rest);
            assert(jbc[0] == '/');
            assert(jbc != seq!['/']) by {
                assert(jbc.len() >= 2);
            }
            assert(jbc.drop_first() =~= b.drop_first() + seq!['/'] + rest);
            assert(a + seq!['/'] + jbc.drop_first() =~= a + b + seq!['/'] + rest);
        }
    } else if a.len() == 0 {
        assert(spec_join_paths(a, b) == b);
        let jbc = spec_join_paths(b, c);
        assert(jbc[0] == '/');
    } else {
        assert(spec_join_paths(a, b) == a);
        let nc = spec_normalize_path(c2);
        if c2 == seq!['/'] {
        } else if c2[0] == '/' {
        } else {
            assert(nc == seq!['/'] + c2);
            assert(nc != seq!['/']) by {
                assert(nc.len() >= 2);
            }
            assert(nc.drop_first() =~= c2);
        }
    }
}

/// How a route segment is written for the router table: `*name` becomes
/// `{*name}` (a bare `*` becomes `{*path}`), `:name` becomes `{name}`, and any
/// other segment stays as it is.
pub proof fn law_matchit_segment_forms(name: Seq<char>, seg: Seq<char>)
    ensures
        name.len() > 0 ==> matchit_segment(seq!['*'] + name) == seq!['{', '*'] + name + seq!['}'],
        matchit_segment(seq!['*']) == seq!['{', '*', 'p', 'a', 't', 'h', '}'],
        matchit_segment(seq![':'] + name) == seq!['{'] + name + seq!['}'],
        (seg.len() == 0 || (seg[0] != '*' && seg[0] != ':')) ==> matchit_segment(seg) == seg,
{
    assert((seq!['*'] + name).drop_first() =~= name);
    assert((seq![':'] + name).drop_first() =~= name);
    assert((seq!['*'] + name)[0] == '*');
    assert((seq![':'] + name)[0] == ':');
}

} // verus!
