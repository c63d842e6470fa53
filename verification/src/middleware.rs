//! Labels of middleware in `Router::explain` output.

use vstd::prelude::*;
use vstd::string::*;
use crate::text::{occurs_at, str_eq, str_trim_end_matches, trim_end_matches};

verus! {

/// The last position where `n` occurs in `h` at or before `i`.
pub open spec fn rfind_to(h: Seq<char>, n: Seq<char>, i: int) -> Option<int>
    decreases i + 1,
{
    if i < 0 {
        None
    } else if occurs_at(h, n, i) {
        Some(i)
    } else {
        rfind_to(h, n, i - 1)
    }
}

/// The piece after the last `::` (`str::rsplit("::").next()`), or all of `s`.
pub open spec fn last_path_piece(s: Seq<char>) -> Seq<char> {
    match rfind_to(s, "::"@, s.len() - 2) {
        Some(i) => s.subrange(i + 2, s.len() as int),
        None => s,
    }
}

/// The type name with closure suffixes removed.
pub open spec fn strip_closure_suffixes(full: Seq<char>) -> Seq<char> {
    trim_end_matches(
        trim_end_matches(trim_end_matches(full, ">::{{closure}}"@), "::{{closure}}"@),
        "{{closure}}"@,
    )
}

/// What `abbreviate_type_name` returns.
pub open spec fn spec_abbreviate_type_name(full: Seq<char>) -> Seq<char> {
    let base = last_path_piece(strip_closure_suffixes(full));
    if base.len() == 0 || base == "{{closure}}"@ {
        "closure"@
    } else {
        base
    }
}

/// Character position just after the last `::` of `s`, or 0 when there is none.
fn after_last_path_sep(s: &str) -> (r: usize)
    ensures
        r <= s@.len(),
        s@.subrange(r as int, s@.len() as int) == last_path_piece(s@),
{
    proof {
        reveal_strlit("::");
    }
    let n = s.unicode_len();
    assert("::"@ =~= seq![':', ':']);
    if n < 2 {
        assert(rfind_to(s@, "::"@, s@.len() - 2) is None);
        assert(s@.subrange(0, n as int) =~= s@);
        return 0;
    }
    let mut i: usize = n - 1;
    while i > 0
        invariant
            n == s@.len(),
            n >= 2,
            i <= n - 1,
            "::"@ == seq![':', ':'],
            rfind_to(s@, "::"@, n - 2) == rfind_to(s@, "::"@, i - 1),
        decreases i,
    {
        let j = i - 1;
        if s.get_char(j) == ':' && s.get_char(i) == ':' {
            assert(s@.subrange(j as int, j + 2) =~= "::"@);
            return i + 1;
        }
        assert(s@.subrange(j as int, j + 2)[0] == s@[j as int]);
        assert(s@.subrange(j as int, j + 2)[1] == s@[i as int]);
        assert(!occurs_at(s@, "::"@, j as int));
        i = j;
    }
    assert(s@.subrange(0, n as int) =~= s@);
    0
}

/// Short label for a middleware from its type name: the last path segment
/// without closure suffixes, or `closure` for an anonymous closure.
pub fn abbreviate_type_name(full: &str) -> (r: String)
    ensures
        r@ == spec_abbreviate_type_name(full@),
{
    proof {
        reveal_strlit(">::{{closure}}");
        reveal_strlit("::{{closure}}");
        reveal_strlit("{{closure}}");
    }
    let t1 = str_trim_end_matches(full, ">::{{closure}}");
    let t2 = str_trim_end_matches(t1, "::{{closure}}");
    let t3 = str_trim_end_matches(t2, "{{closure}}");
    let k = after_last_path_sep(t3);
    let base = t3.substring_char(k, t3.unicode_len());
    if base.unicode_len() == 0 || str_eq(base, "{{closure}}") {
        String::from_str("closure")
    } else {
        String::from_str(base)
    }
}

/// A middleware label is never empty.
pub proof fn law_abbreviation_nonempty(full: Seq<char>)
    ensures
        spec_abbreviate_type_name(full).len() > 0,
{
    reveal_strlit("closure");
}

} // verus!
