//! Route-table text: the `Allow` header of an `OPTIONS` answer and the
//! `explain` listing of a router.

use vstd::prelude::*;
use vstd::string::*;
use crate::text::{decimal, push_decimal, str_eq, strings_view};

verus! {

/// Lexicographic order of strings by code point (the order of `str`).
pub open spec fn lex_lt(a: Seq<char>, b: Seq<char>) -> bool
    decreases a.len(),
{
    if a.len() == 0 {
        b.len() > 0
    } else if b.len() == 0 {
        false
    } else if a[0] != b[0] {
        a[0] < b[0]
    } else {
        lex_lt(a.drop_first(), b.drop_first())
    }
}

/// `a < b` for strings.
pub fn str_lt(a: &str, b: &str) -> (r: bool)
    ensures
        r == lex_lt(a@, b@),
{
    let n = a.unicode_len();
    let m = b.unicode_len();
    let mut i: usize = 0;
    assert(a@.skip(0) =~= a@);
    assert(b@.skip(0) =~= b@);
    while i < n && i < m
        invariant
            n == a@.len(),
            m == b@.len(),
            i <= n,
            i <= m,
            lex_lt(a@, b@) == lex_lt(a@.skip(i as int), b@.skip(i as int)),
        decreases n - i,
    {
        let x = a.get_char(i);
        let y = b.get_char(i);
        assert(a@.skip(i as int)[0] == x && b@.skip(i as int)[0] == y);
        if x != y {
            return x < y;
        }
        assert(a@.skip(i as int).drop_first() =~= a@.skip(i + 1));
        assert(b@.skip(i as int).drop_first() =~= b@.skip(i + 1));
        i = i + 1;
    }
    assert(a@.skip(i as int).len() == n - i);
    assert(b@.skip(i as int).len() == m - i);
    i == n && i < m
}

/// `x` placed into a list: before the first element it is below, dropped when
/// it meets an equal one (a sorted set stays a sorted set).
pub open spec fn insert_distinct(l: Seq<Seq<char>>, x: Seq<char>) -> Seq<Seq<char>>
    decreases l.len(),
{
    if l.len() == 0 {
        seq![x]
    } else if l[0] == x {
        l
    } else if lex_lt(x, l[0]) {
        seq![x] + l
    } else {
        seq![l[0]] + insert_distinct(l.drop_first(), x)
    }
}

/// The distinct strings of `xs` in ascending order.
pub open spec fn sorted_distinct(xs: Seq<Seq<char>>) -> Seq<Seq<char>>
    decreases xs.len(),
{
    if xs.len() == 0 {
        Seq::empty()
    } else {
        insert_distinct(sorted_distinct(xs.drop_last()), xs.last())
    }
}

/// Add `x` to a list the way `insert_distinct` does.
fn insert_distinct_into(l: &mut Vec<String>, x: &str)
    ensures
        strings_view(final(l)@) == insert_distinct(strings_view(old(l)@), x@),
{
    let ghost ol = strings_view(l@);
    let mut k: usize = 0;
    assert(ol.skip(0) =~= ol);
    assert(ol.subrange(0, 0) + insert_distinct(ol.skip(0), x@) =~= insert_distinct(ol, x@));
    while k < l.len()
        invariant
            ol == strings_view(l@),
            l@ == old(l)@,
            k <= l@.len(),
            ol.subrange(0, k as int) + insert_distinct(ol.skip(k as int), x@) == insert_distinct(ol, x@),
        decreases l@.len() - k,
    {
        let ghost rest = ol.skip(k as int);
        assert(rest[0] == l@[k as int]@);
        if str_eq(l[k].as_str(), x) {
            assert(insert_distinct(rest, x@) == rest);
            assert(ol.subrange(0, k as int) + rest =~= ol);
            return;
        }
        if str_lt(x, l[k].as_str()) {
            let ghost before = l@;
            let s = String::from_str(x);
            l.insert(k, s);
            assert(insert_distinct(rest, x@) == seq![x@] + rest);
            assert(l@ == before.insert(k as int, s));
            assert forall|j: int| 0 <= j < l@.len() implies (#[trigger] strings_view(l@)[j]) == (ol.subrange(
                0,
                k as int,
            ) + (seq![x@] + rest))[j] by {
                if j < k {
                    assert(l@[j] == before[j]);
                } else if j == k {
                    assert(l@[j] == s);
                } else {
                    assert(l@[j] == before[j - 1]);
                }
            }
            assert(strings_view(l@) =~= ol.subrange(0, k as int) + (seq![x@] + rest));
            return;
        }
        assert(rest.drop_first() =~= ol.skip(k + 1));
        assert(ol.subrange(0, k + 1) =~= ol.subrange(0, k as int).push(ol[k as int]));
        assert(ol.subrange(0, k as int) + (seq![ol[k as int]] + insert_distinct(ol.skip(k + 1), x@)) =~= ol.subrange(
            0,
            k + 1,
        ) + insert_distinct(ol.skip(k + 1), x@));
        k = k + 1;
    }
    assert(ol.skip(k as int) =~= Seq::<Seq<char>>::empty());
    assert(ol.subrange(0, k as int) =~= ol);
    l.push(String::from_str(x));
    assert(strings_view(l@) =~= ol + seq![x@]);
}

/// The strings joined with `sep` between them (`[..].join(sep)`).
pub open spec fn join(l: Seq<Seq<char>>, sep: Seq<char>) -> Seq<char>
    decreases l.len(),
{
    if l.len() == 0 {
        Seq::empty()
    } else if l.len() == 1 {
        l[0]
    } else {
        join(l.drop_last(), sep) + sep + l.last()
    }
}

/// Join owned strings with `sep`.
pub fn join_strings(l: &Vec<String>, sep: &str) -> (r: String)
    ensures
        r@ == join(strings_view(l@), sep@),
{
    let ghost v = strings_view(l@);
    let mut out = String::new();
    let mut i: usize = 0;
    assert(v.take(0) =~= Seq::<Seq<char>>::empty());
    while i < l.len()
        invariant
            v == strings_view(l@),
            i <= l@.len(),
            out@ == join(v.take(i as int), sep@),
        decreases l@.len() - i,
    {
        assert(v.take(i + 1).drop_last() =~= v.take(i as int));
        assert(v.take(i + 1).last() == l@[i as int]@);
        if i > 0 {
            out.append(sep);
        } else {
            assert(out@ =~= Seq::<char>::empty());
            assert(v.take(1)[0] == l@[0]@);
        }
        out.append(l[i].as_str());
        i = i + 1;
    }
    assert(v.take(l@.len() as int) =~= v);
    out
}

/// The methods an `Allow` header lists: the route's methods, `OPTIONS`, and
/// `HEAD` when `GET` is there, each once, in ascending order.
pub open spec fn allowed_methods(methods: Seq<Seq<char>>) -> Seq<Seq<char>> {
    let base = methods.push("OPTIONS"@);
    sorted_distinct(if base.contains("GET"@) { base.push("HEAD"@) } else { base })
}

/// The `Allow` header for a path served with `methods`.
pub fn allow_header(methods: &Vec<String>) -> (r: String)
    ensures
        r@ == join(allowed_methods(strings_view(methods@)), ", "@),
{
    let ghost ms = strings_view(methods@);
    let mut all: Vec<String> = Vec::new();
    let mut has_get = false;
    let mut i: usize = 0;
    assert(ms.take(0) =~= Seq::<Seq<char>>::empty());
    while i < methods.len()
        invariant
            ms == strings_view(methods@),
            i <= methods@.len(),
            strings_view(all@) == sorted_distinct(ms.take(i as int)),
            has_get == ms.take(i as int).contains("GET"@),
        decreases methods@.len() - i,
    {
        let m = methods[i].as_str();
        assert(ms.take(i + 1).drop_last() =~= ms.take(i as int));
        assert(ms.take(i + 1).last() == m@);
        insert_distinct_into(&mut all, m);
        if str_eq(m, "GET") {
            has_get = true;
            assert(ms.take(i + 1)[i as int] == "GET"@);
        } else {
            proof {
                let t1 = ms.take(i + 1);
                let t0 = ms.take(i as int);
                if t1.contains("GET"@) {
                    let k = choose|k: int| 0 <= k < t1.len() && #[trigger] t1[k] == "GET"@;
                    if k < i {
                        assert(t0[k] == "GET"@);
                    }
                }
            }
            proof {
                let t1 = ms.take(i + 1);
                let t0 = ms.take(i as int);
                if t0.contains("GET"@) {
                    let k = choose|k: int| 0 <= k < t0.len() && #[trigger] t0[k] == "GET"@;
                    assert(t1[k] == "GET"@);
                }
            }
        }
        i = i + 1;
    }
    assert(ms.take(methods@.len() as int) =~= ms);
    let ghost base = ms.push("OPTIONS"@);
    assert(base.drop_last() =~= ms);
    insert_distinct_into(&mut all, "OPTIONS");
    proof {
        reveal_strlit("OPTIONS");
        reveal_strlit("GET");
        if base.contains("GET"@) {
            let k = choose|k: int| 0 <= k < base.len() && #[trigger] base[k] == "GET"@;
            if k == ms.len() {
                assert(base[k] == "OPTIONS"@);
                assert("OPTIONS"@[0] != "GET"@[0]);
            } else {
                assert(ms[k] == "GET"@);
            }
        }
        if ms.contains("GET"@) {
            let k = choose|k: int| 0 <= k < ms.len() && #[trigger] ms[k] == "GET"@;
            assert(base[k] == "GET"@);
        }
    }
    assert(strings_view(all@) == sorted_distinct(base));
    assert(has_get == base.contains("GET"@));
    if has_get {
        let ghost b2 = base.push("HEAD"@);
        assert(b2.drop_last() =~= base);
        insert_distinct_into(&mut all, "HEAD");
        assert(strings_view(all@) == sorted_distinct(b2));
    }
    assert(strings_view(all@) == allowed_methods(ms));
    join_strings(&all, ", ")
}

/// No string is below itself.
proof fn lemma_lex_irreflexive(a: Seq<char>)
    ensures
        !lex_lt(a, a),
    decreases a.len(),
{
    if a.len() > 0 {
        lemma_lex_irreflexive(a.drop_first());
    }
}

/// Two different strings are ordered one way or the other.
proof fn lemma_lex_total(a: Seq<char>, b: Seq<char>)
    requires
        a != b,
    ensures
        lex_lt(a, b) || lex_lt(b, a),
    decreases a.len(),
{
    if a.len() > 0 && b.len() > 0 && a[0] == b[0] {
        if a.drop_first() == b.drop_first() {
            assert(a =~= seq![a[0]] + a.drop_first());
            assert(b =~= seq![b[0]] + b.drop_first());
        }
        lemma_lex_total(a.drop_first(), b.drop_first());
    } else if a.len() == 0 && b.len() == 0 {
        assert(a =~= b);
    }
}

/// The order is transitive.
proof fn lemma_lex_transitive(a: Seq<char>, b: Seq<char>, c: Seq<char>)
    requires
        lex_lt(a, b),
        lex_lt(b, c),
    ensures
        lex_lt(a, c),
    decreases a.len(),
{
    if a.len() > 0 && b.len() > 0 && c.len() > 0 && a[0] == b[0] && b[0] == c[0] {
        lemma_lex_transitive(a.drop_first(), b.drop_first(), c.drop_first());
    }
}

/// Strictly ascending: each string below every later one.
pub open spec fn ascending(l: Seq<Seq<char>>) -> bool {
    forall|i: int, j: int| 0 <= i < j < l.len() ==> lex_lt(#[trigger] l[i], #[trigger] l[j])
}

/// Placing a string keeps every old one, adds it, and keeps the list ascending.
proof fn lemma_insert_distinct(l: Seq<Seq<char>>, x: Seq<char>)
    requires
        ascending(l),
    ensures
        ascending(insert_distinct(l, x)),
        insert_distinct(l, x).contains(x),
        forall|y: Seq<char>| l.contains(y) ==> insert_distinct(l, x).contains(y),
        forall|y: Seq<char>| #[trigger] insert_distinct(l, x).contains(y) ==> y == x || l.contains(y),
    decreases l.len(),
{
    let r = insert_distinct(l, x);
    if l.len() == 0 {
        assert(r[0] == x);
    } else if l[0] == x {
    } else if lex_lt(x, l[0]) {
        assert(r[0] == x);
        assert forall|i: int, j: int| 0 <= i < j < r.len() implies lex_lt(#[trigger] r[i], #[trigger] r[j]) by {
            if i == 0 {
                assert(r[j] == l[j - 1]);
                if j - 1 > 0 {
                    lemma_lex_transitive(x, l[0], l[j - 1]);
                }
            } else {
                assert(r[i] == l[i - 1] && r[j] == l[j - 1]);
            }
        }
        assert forall|y: Seq<char>| l.contains(y) implies r.contains(y) by {
            let k = choose|k: int| 0 <= k < l.len() && l[k] == y;
            assert(r[k + 1] == y);
        }
        assert forall|y: Seq<char>| #[trigger] r.contains(y) implies y == x || l.contains(y) by {
            let k = choose|k: int| 0 <= k < r.len() && r[k] == y;
            if k > 0 {
                assert(l[k - 1] == y);
            }
        }
    } else {
        let rest = l.drop_first();
        assert(ascending(rest)) by {
            assert forall|i: int, j: int| 0 <= i < j < rest.len() implies lex_lt(#[trigger] rest[i], #[trigger] rest[j]) by {
                assert(rest[i] == l[i + 1] && rest[j] == l[j + 1]);
            }
        }
        lemma_insert_distinct(rest, x);
        let t = insert_distinct(rest, x);
        lemma_lex_total(x, l[0]);
        assert(r == seq![l[0]] + t);
        assert(r[0] == l[0]);
        assert forall|i: int, j: int| 0 <= i < j < r.len() implies lex_lt(#[trigger] r[i], #[trigger] r[j]) by {
            if i == 0 {
                assert(r[j] == t[j - 1]);
                assert(t.contains(t[j - 1]));
                if t[j - 1] != x {
                    assert(rest.contains(t[j - 1]));
                    let k = choose|k: int| 0 <= k < rest.len() && rest[k] == t[j - 1];
                    assert(l[k + 1] == t[j - 1]);
                }
            } else {
                assert(r[i] == t[i - 1] && r[j] == t[j - 1]);
            }
        }
        assert(t.contains(x));
        let kx = choose|k: int| 0 <= k < t.len() && t[k] == x;
        assert(r[kx + 1] == x);
        assert forall|y: Seq<char>| l.contains(y) implies r.contains(y) by {
            let k = choose|k: int| 0 <= k < l.len() && l[k] == y;
            if k > 0 {
                assert(rest[k - 1] == y);
                assert(rest.contains(y));
                assert(t.contains(y));
                let q = choose|q: int| 0 <= q < t.len() && t[q] == y;
                assert(r[q + 1] == y);
            }
        }
        assert forall|y: Seq<char>| #[trigger] r.contains(y) implies y == x || l.contains(y) by {
            let k = choose|k: int| 0 <= k < r.len() && r[k] == y;
            if k > 0 {
                assert(t[k - 1] == y);
                assert(t.contains(y));
                if y != x {
                    let q = choose|q: int| 0 <= q < rest.len() && rest[q] == y;
                    assert(l[q + 1] == y);
                }
            }
        }
    }
}

/// `sorted_distinct` holds exactly the strings of its input, ascending.
proof fn lemma_sorted_distinct(xs: Seq<Seq<char>>)
    ensures
        ascending(sorted_distinct(xs)),
        forall|y: Seq<char>| #[trigger] sorted_distinct(xs).contains(y) <==> xs.contains(y),
    decreases xs.len(),
{
    if xs.len() > 0 {
        lemma_sorted_distinct(xs.drop_last());
        let prev = sorted_distinct(xs.drop_last());
        lemma_insert_distinct(prev, xs.last());
        assert forall|y: Seq<char>| #[trigger] sorted_distinct(xs).contains(y) <==> xs.contains(y) by {
            if xs.contains(y) {
                let k = choose|k: int| 0 <= k < xs.len() && xs[k] == y;
                if k < xs.len() - 1 {
                    assert(xs.drop_last()[k] == y);
                    assert(prev.contains(y));
                }
            }
            if sorted_distinct(xs).contains(y) && y != xs.last() {
                assert(prev.contains(y));
                let k = choose|k: int| 0 <= k < xs.drop_last().len() && xs.drop_last()[k] == y;
                assert(xs[k] == y);
            }
        }
    }
}

/// The `Allow` list names each method once, in ascending order: every route
/// method, `OPTIONS`, `HEAD` when `GET` is there, and nothing else.
pub proof fn law_allow_lists_methods_once(methods: Seq<Seq<char>>)
    ensures
        ascending(allowed_methods(methods)),
        allowed_methods(methods).contains("OPTIONS"@),
        forall|m: Seq<char>| methods.contains(m) ==> allowed_methods(methods).contains(m),
        methods.contains("GET"@) ==> allowed_methods(methods).contains("HEAD"@),
        forall|m: Seq<char>| #[trigger] allowed_methods(methods).contains(m) ==> methods.contains(m) || m
            == "OPTIONS"@ || (m == "HEAD"@ && methods.contains("GET"@)),
{
    let base = methods.push("OPTIONS"@);
    let all = if base.contains("GET"@) { base.push("HEAD"@) } else { base };
    lemma_sorted_distinct(all);
    assert(base[methods.len() as int] == "OPTIONS"@);
    assert(all.contains("OPTIONS"@)) by {
        assert(all[methods.len() as int] == "OPTIONS"@);
    }
    assert forall|m: Seq<char>| methods.contains(m) implies all.contains(m) by {
        let k = choose|k: int| 0 <= k < methods.len() && methods[k] == m;
        assert(all[k] == m);
    }
    if methods.contains("GET"@) {
        let k = choose|k: int| 0 <= k < methods.len() && methods[k] == "GET"@;
        assert(base[k] == "GET"@);
        assert(all[base.len() as int] == "HEAD"@);
    }
    reveal_strlit("OPTIONS");
    reveal_strlit("GET");
    assert forall|m: Seq<char>| #[trigger] allowed_methods(methods).contains(m) implies methods.contains(m) || m
        == "OPTIONS"@ || (m == "HEAD"@ && methods.contains("GET"@)) by {
        assert(all.contains(m));
        let k = choose|k: int| 0 <= k < all.len() && all[k] == m;
        if k < methods.len() {
            assert(methods[k] == m);
        } else if k > methods.len() {
            assert(base.contains("GET"@));
            let q = choose|q: int| 0 <= q < base.len() && base[q] == "GET"@;
            if q == methods.len() {
                assert("OPTIONS"@[0] != "GET"@[0]);
            } else {
                assert(methods[q] == "GET"@);
            }
        }
    }
}

/// `x` placed before the first element that is not below it.
pub open spec fn insert_sorted(l: Seq<Seq<char>>, x: Seq<char>) -> Seq<Seq<char>>
    decreases l.len(),
{
    if l.len() == 0 {
        seq![x]
    } else if lex_lt(l[0], x) {
        seq![l[0]] + insert_sorted(l.drop_first(), x)
    } else {
        seq![x] + l
    }
}

/// The strings in ascending order, repeats kept (`sort_unstable`).
pub open spec fn sorted_strs(xs: Seq<Seq<char>>) -> Seq<Seq<char>>
    decreases xs.len(),
{
    if xs.len() == 0 {
        Seq::empty()
    } else {
        insert_sorted(sorted_strs(xs.drop_last()), xs.last())
    }
}

/// Place `x` the way `insert_sorted` does.
fn insert_sorted_into(l: &mut Vec<String>, x: String)
    ensures
        strings_view(final(l)@) == insert_sorted(strings_view(old(l)@), x@),
{
    let ghost ol = strings_view(l@);
    let ghost xv = x@;
    let mut k: usize = 0;
    assert(ol.skip(0) =~= ol);
    assert(ol.subrange(0, 0) + insert_sorted(ol.skip(0), xv) =~= insert_sorted(ol, xv));
    while k < l.len()
        invariant
            ol == strings_view(l@),
            l@ == old(l)@,
            xv == x@,
            k <= l@.len(),
            ol.subrange(0, k as int) + insert_sorted(ol.skip(k as int), xv) == insert_sorted(ol, xv),
        decreases l@.len() - k,
    {
        let ghost rest = ol.skip(k as int);
        assert(rest[0] == l@[k as int]@);
        if !str_lt(l[k].as_str(), x.as_str()) {
            let ghost before = l@;
            l.insert(k, x);
            assert(insert_sorted(rest, xv) == seq![xv] + rest);
            assert forall|j: int| 0 <= j < l@.len() implies (#[trigger] strings_view(l@)[j]) == (ol.subrange(
                0,
                k as int,
            ) + (seq![xv] + rest))[j] by {
                if j < k {
                    assert(l@[j] == before[j]);
                } else if j > k {
                    assert(l@[j] == before[j - 1]);
                }
            }
            assert(strings_view(l@) =~= ol.subrange(0, k as int) + (seq![xv] + rest));
            return;
        }
        assert(rest.drop_first() =~= ol.skip(k + 1));
        assert(ol.subrange(0, k as int) + (seq![ol[k as int]] + insert_sorted(ol.skip(k + 1), xv)) =~= ol.subrange(
            0,
            k + 1,
        ) + insert_sorted(ol.skip(k + 1), xv));
        k = k + 1;
    }
    assert(ol.skip(k as int) =~= Seq::<Seq<char>>::empty());
    assert(ol.subrange(0, k as int) =~= ol);
    l.push(x);
    assert(strings_view(l@) =~= ol + seq![xv]);
}

/// Labels in ascending order (`MetaMap::labels`).
pub fn sorted_labels(labels: &Vec<String>) -> (r: Vec<String>)
    ensures
        strings_view(r@) == sorted_strs(strings_view(labels@)),
{
    let ghost v = strings_view(labels@);
    let mut out: Vec<String> = Vec::new();
    let mut i: usize = 0;
    assert(v.take(0) =~= Seq::<Seq<char>>::empty());
    while i < labels.len()
        invariant
            v == strings_view(labels@),
            i <= labels@.len(),
            strings_view(out@) == sorted_strs(v.take(i as int)),
        decreases labels@.len() - i,
    {
        assert(v.take(i + 1).drop_last() =~= v.take(i as int));
        assert(v.take(i + 1).last() == labels@[i as int]@);
        insert_sorted_into(&mut out, labels[i].clone());
        i = i + 1;
    }
    assert(v.take(labels@.len() as int) =~= v);
    out
}

/// `x` placed before the first code that is not below it.
pub open spec fn insert_code(l: Seq<u16>, x: u16) -> Seq<u16>
    decreases l.len(),
{
    if l.len() == 0 {
        seq![x]
    } else if l[0] < x {
        seq![l[0]] + insert_code(l.drop_first(), x)
    } else {
        seq![x] + l
    }
}

/// The codes in ascending order.
pub open spec fn sorted_codes(xs: Seq<u16>) -> Seq<u16>
    decreases xs.len(),
{
    if xs.len() == 0 {
        Seq::empty()
    } else {
        insert_code(sorted_codes(xs.drop_last()), xs.last())
    }
}

/// Sort status codes ascending.
pub fn sort_codes(codes: &Vec<u16>) -> (r: Vec<u16>)
    ensures
        r@ == sorted_codes(codes@),
{
    let mut out: Vec<u16> = Vec::new();
    let mut i: usize = 0;
    assert(codes@.take(0) =~= Seq::<u16>::empty());
    while i < codes.len()
        invariant
            i <= codes@.len(),
            out@ == sorted_codes(codes@.take(i as int)),
        decreases codes@.len() - i,
    {
        let x = codes[i];
        assert(codes@.take(i + 1).drop_last() =~= codes@.take(i as int));
        let ghost ol = out@;
        let mut k: usize = 0;
        assert(ol.skip(0) =~= ol);
        assert(ol.subrange(0, 0) + insert_code(ol.skip(0), x) =~= insert_code(ol, x));
        while k < out.len() && out[k] < x
            invariant
                out@ == ol,
                k <= ol.len(),
                ol.subrange(0, k as int) + insert_code(ol.skip(k as int), x) == insert_code(ol, x),
            decreases ol.len() - k,
        {
            assert(ol.skip(k as int).drop_first() =~= ol.skip(k + 1));
            assert(ol.subrange(0, k as int) + (seq![ol[k as int]] + insert_code(ol.skip(k + 1), x)) =~= ol.subrange(
                0,
                k + 1,
            ) + insert_code(ol.skip(k + 1), x));
            k = k + 1;
        }
        if k < out.len() {
            assert(insert_code(ol.skip(k as int), x) == seq![x] + ol.skip(k as int));
        } else {
            assert(ol.skip(k as int) =~= Seq::<u16>::empty());
        }
        out.insert(k, x);
        assert(out@ =~= ol.subrange(0, k as int) + insert_code(ol.skip(k as int), x));
        i = i + 1;
    }
    assert(codes@.take(codes@.len() as int) =~= codes@);
    out
}

/// `{:?}` of a list of codes: `[404, 500]`.
pub open spec fn debug_codes(codes: Seq<u16>) -> Seq<char> {
    "["@ + join(codes.map_values(|c: u16| decimal(c as nat)), ", "@) + "]"@
}

/// Append `{:?}` of sorted codes.
fn push_debug_codes(out: &mut String, codes: &Vec<u16>)
    ensures
        final(out)@ == old(out)@ + debug_codes(codes@),
{
    let ghost ds = codes@.map_values(|c: u16| decimal(c as nat));
    out.append("[");
    let ghost head = out@;
    let mut i: usize = 0;
    assert(ds.take(0) =~= Seq::<Seq<char>>::empty());
    while i < codes.len()
        invariant
            ds == codes@.map_values(|c: u16| decimal(c as nat)),
            i <= codes@.len(),
            out@ == head + join(ds.take(i as int), ", "@),
        decreases codes@.len() - i,
    {
        assert(ds.take(i + 1).drop_last() =~= ds.take(i as int));
        assert(ds.take(i + 1).last() == decimal(codes@[i as int] as nat));
        if i > 0 {
            out.append(", ");
        } else {
            assert(ds.take(1)[0] == decimal(codes@[0] as nat));
        }
        push_decimal(out, codes[i] as u128);
        assert(out@ =~= head + join(ds.take(i + 1), ", "@));
        i = i + 1;
    }
    assert(ds.take(codes@.len() as int) =~= ds);
    out.append("]");
}

/// One route of a router as `explain` lists it.
#[derive(Debug)]
pub struct RouteLine {
    pub method: String,
    pub path: String,
    /// Names of the route's middleware, outermost first.
    pub middleware: Vec<String>,
    /// Labels of the route's values, in any order.
    pub labels: Vec<String>,
}

/// What `explain` reports about a router.
#[derive(Debug)]
pub struct RouterSummary {
    pub root_middleware: Vec<String>,
    pub has_error_handler: bool,
    /// Status codes with a root catcher, in any order.
    pub catcher_codes: Vec<u16>,
    /// Mount prefixes with their own catchers, in mount order.
    pub scoped_catchers: Vec<(String, Vec<u16>)>,
    /// Labels of the router-wide values, in any order.
    pub default_labels: Vec<String>,
    pub routes: Vec<RouteLine>,
    /// Paths of the raw (protocol-level) routes.
    pub raw_paths: Vec<String>,
}

/// One scoped catcher entry: the prefix (`/` for the root) and its sorted codes.
pub open spec fn scoped_line(e: (String, Vec<u16>)) -> Seq<char> {
    (if e.0@.len() == 0 { "/"@ } else { e.0@ }) + " → "@ + debug_codes(sorted_codes(e.1@))
}

/// The catcher entries of a router.
pub open spec fn catch_lines(s: RouterSummary) -> Seq<Seq<char>> {
    (if s.catcher_codes@.len() > 0 {
        seq!["/ → "@ + debug_codes(sorted_codes(s.catcher_codes@))]
    } else {
        Seq::empty()
    }) + s.scoped_catchers@.map_values(|e: (String, Vec<u16>)| scoped_line(e))
}

/// One route line: method, path, middleware and (sorted) labels.
pub open spec fn route_line(r: RouteLine) -> Seq<char> {
    let labels = sorted_strs(strings_view(r.labels@));
    if labels.len() == 0 {
        r.method@ + " "@ + r.path@ + " mw=["@ + join(strings_view(r.middleware@), ", "@) + "]\n"@
    } else {
        r.method@ + " "@ + r.path@ + " mw=["@ + join(strings_view(r.middleware@), ", "@) + "] "@ + join(labels, " "@)
            + "\n"@
    }
}

/// Concatenation of one text per route.
pub open spec fn route_lines(rs: Seq<RouteLine>) -> Seq<char>
    decreases rs.len(),
{
    if rs.len() == 0 {
        Seq::empty()
    } else {
        route_lines(rs.drop_last()) + route_line(rs.last())
    }
}

/// Concatenation of one line per raw route.
pub open spec fn raw_lines(ps: Seq<Seq<char>>) -> Seq<char>
    decreases ps.len(),
{
    if ps.len() == 0 {
        Seq::empty()
    } else {
        raw_lines(ps.drop_last()) + "RAW "@ + ps.last() + " mw=[]\n"@
    }
}

/// The `explain` text of a router.
pub open spec fn spec_explain(s: RouterSummary) -> Seq<char> {
    "root_middleware: ["@ + join(strings_view(s.root_middleware@), ", "@) + "]\n"@ + "error_handler: "@
        + (if s.has_error_handler { "true"@ } else { "false"@ }) + "\n"@ + "catchers: ["@ + join(catch_lines(s), "; "@)
        + "]\n"@ + (if s.default_labels@.len() > 0 {
        "defaults: ["@ + join(sorted_strs(strings_view(s.default_labels@)), " "@) + "]\n"@
    } else {
        Seq::empty()
    }) + route_lines(s.routes@) + raw_lines(strings_view(s.raw_paths@))
}

/// The text of `{:?}` for sorted codes.
fn debug_codes_string(codes: &Vec<u16>) -> (r: String)
    ensures
        r@ == debug_codes(sorted_codes(codes@)),
{
    let sorted = sort_codes(codes);
    let mut out = String::new();
    push_debug_codes(&mut out, &sorted);
    out
}

/// Append the line of one route.
fn push_route_line(out: &mut String, r: &RouteLine)
    ensures
        final(out)@ == old(out)@ + route_line(*r),
{
    let ghost before = out@;
    let labels = sorted_labels(&r.labels);
    out.append(r.method.as_str());
    out.append(" ");
    out.append(r.path.as_str());
    out.append(" mw=[");
    let m = join_strings(&r.middleware, ", ");
    out.append(m.as_str());
    if labels.len() == 0 {
        out.append("]\n");
    } else {
        out.append("] ");
        let ls = join_strings(&labels, " ");
        out.append(ls.as_str());
        out.append("\n");
    }
    assert(out@ =~= before + route_line(*r));
}

impl RouterSummary {
    /// The catcher entries: the root's codes, then each mount's.
    fn catcher_entries(&self) -> (r: Vec<String>)
        ensures
            strings_view(r@) == catch_lines(*self),
    {
        let mut lines: Vec<String> = Vec::new();
        if self.catcher_codes.len() > 0 {
            let mut l = String::from_str("/ → ");
            let d = debug_codes_string(&self.catcher_codes);
            l.append(d.as_str());
            lines.push(l);
        }
        let ghost first = strings_view(lines@);
        let mut i: usize = 0;
        assert(self.scoped_catchers@.take(0).map_values(|e: (String, Vec<u16>)| scoped_line(e)) =~= Seq::<Seq<char>>::empty());
        assert(strings_view(lines@) =~= first + self.scoped_catchers@.take(0).map_values(|e: (String, Vec<u16>)| scoped_line(e)));
        while i < self.scoped_catchers.len()
            invariant
                i <= self.scoped_catchers@.len(),
                strings_view(lines@) == first + self.scoped_catchers@.take(i as int).map_values(
                    |e: (String, Vec<u16>)| scoped_line(e),
                ),
            decreases self.scoped_catchers@.len() - i,
        {
            let e = &self.scoped_catchers[i];
            let mut l = if e.0.as_str().unicode_len() == 0 {
                String::from_str("/")
            } else {
                e.0.clone()
            };
            l.append(" → ");
            let d = debug_codes_string(&e.1);
            l.append(d.as_str());
            let ghost before = strings_view(lines@);
            let ghost lv = l@;
            lines.push(l);
            assert(lv == scoped_line(self.scoped_catchers@[i as int]));
            assert(self.scoped_catchers@.take(i + 1).map_values(|e: (String, Vec<u16>)| scoped_line(e))
                =~= self.scoped_catchers@.take(i as int).map_values(|e: (String, Vec<u16>)| scoped_line(e)).push(lv));
            assert(strings_view(lines@) =~= before.push(lv));
            i = i + 1;
        }
        assert(self.scoped_catchers@.take(self.scoped_catchers@.len() as int) =~= self.scoped_catchers@);
        assert(strings_view(lines@) == catch_lines(*self));
        lines
    }

    /// Route map for debugging and the startup banner.
    pub fn explain(&self) -> (r: String)
        ensures
            r@ == spec_explain(*self),
    {
        let mut out = String::from_str("root_middleware: [");
        let mw = join_strings(&self.root_middleware, ", ");
        out.append(mw.as_str());
        out.append("]\n");
        out.append("error_handler: ");
        out.append(if self.has_error_handler { "true" } else { "false" });
        out.append("\n");
        let lines = self.catcher_entries();
        out.append("catchers: [");
        let c = join_strings(&lines, "; ");
        out.append(c.as_str());
        out.append("]\n");
        if self.default_labels.len() > 0 {
            out.append("defaults: [");
            let sorted = sorted_labels(&self.default_labels);
            let d = join_strings(&sorted, " ");
            out.append(d.as_str());
            out.append("]\n");
        }
        let ghost head = out@;
        let mut k: usize = 0;
        assert(self.routes@.take(0) =~= Seq::<RouteLine>::empty());
        while k < self.routes.len()
            invariant
                k <= self.routes@.len(),
                out@ == head + route_lines(self.routes@.take(k as int)),
            decreases self.routes@.len() - k,
        {
            push_route_line(&mut out, &self.routes[k]);
            assert(self.routes@.take(k + 1).drop_last() =~= self.routes@.take(k as int));
            k = k + 1;
        }
        assert(self.routes@.take(self.routes@.len() as int) =~= self.routes@);
        let ghost mid = out@;
        let ghost ps = strings_view(self.raw_paths@);
        let mut j: usize = 0;
        assert(ps.take(0) =~= Seq::<Seq<char>>::empty());
        while j < self.raw_paths.len()
            invariant
                ps == strings_view(self.raw_paths@),
                j <= self.raw_paths@.len(),
                out@ == mid + raw_lines(ps.take(j as int)),
            decreases self.raw_paths@.len() - j,
        {
            let ghost before = out@;
            out.append("RAW ");
            out.append(self.raw_paths[j].as_str());
            out.append(" mw=[]\n");
            assert(ps.take(j + 1).drop_last() =~= ps.take(j as int));
            assert(ps.take(j + 1).last() == self.raw_paths@[j as int]@);
            assert(out@ =~= before + ("RAW "@ + ps.take(j + 1).last() + " mw=[]\n"@));
            j = j + 1;
        }
        assert(ps.take(self.raw_paths@.len() as int) =~= ps);
        out
    }
}


/// `i` is the first position of `m` in `ms`.
pub open spec fn is_first_index(ms: Seq<Seq<char>>, m: Seq<char>, i: int) -> bool {
    &&& 0 <= i < ms.len()
    &&& ms[i] == m
    &&& forall|j: int| 0 <= j < i ==> ms[j] != m
}

/// Where `m` first stands in `methods`, if it stands there at all.
pub fn find_method(methods: &Vec<String>, m: &str) -> (r: Option<usize>)
    ensures
        match r {
            Some(i) => is_first_index(strings_view(methods@), m@, i as int),
            None => !strings_view(methods@).contains(m@),
        },
{
    let ghost ms = strings_view(methods@);
    let mut i: usize = 0;
    while i < methods.len()
        invariant
            ms == strings_view(methods@),
            i <= methods@.len(),
            forall|j: int| 0 <= j < i ==> ms[j] != m@,
        decreases methods@.len() - i,
    {
        if str_eq(methods[i].as_str(), m) {
            return Some(i);
        }
        i = i + 1;
    }
    proof {
        if ms.contains(m@) {
            let k = choose|k: int| 0 <= k < ms.len() && ms[k] == m@;
            assert(ms[k] != m@);
        }
    }
    None
}

/// How a request whose path matched a route is answered, by its method.
pub enum Dispatch {
    /// `OPTIONS`: an empty `204` answer carrying this `Allow` header.
    Options(String),
    /// The handler registered for the method, at this position.
    Handler(usize),
    /// `HEAD` served by the `GET` handler at this position, body cleared.
    HeadViaGet(usize),
    /// `405 Method Not Allowed`, carrying this `Allow` header.
    NotAllowed(String),
}

/// The answer to `method` on a route that serves `methods`: `OPTIONS` is
/// answered with the `Allow` list; `HEAD` runs the `GET` handler where there
/// is one; a registered method runs its handler; anything else is refused
/// with `405` and the `Allow` list.
pub fn dispatch_choice(method: &str, methods: &Vec<String>) -> (r: Dispatch)
    ensures
        ({
            let ms = strings_view(methods@);
            let allow = join(allowed_methods(ms), ", "@);
            let head_by_get = method@ == "HEAD"@ && ms.contains("GET"@);
            match r {
                Dispatch::Options(a) => method@ == "OPTIONS"@ && a@ == allow,
                Dispatch::HeadViaGet(i) => method@ != "OPTIONS"@ && head_by_get
                    && is_first_index(ms, "GET"@, i as int),
                Dispatch::Handler(i) => method@ != "OPTIONS"@ && !head_by_get
                    && is_first_index(ms, method@, i as int),
                Dispatch::NotAllowed(a) => method@ != "OPTIONS"@ && !head_by_get
                    && !ms.contains(method@) && a@ == allow,
            }
        }),
{
    if str_eq(method, "OPTIONS") {
        return Dispatch::Options(allow_header(methods));
    }
    if str_eq(method, "HEAD") {
        if let Some(i) = find_method(methods, "GET") {
            return Dispatch::HeadViaGet(i);
        }
    }
    match find_method(methods, method) {
        Some(i) => Dispatch::Handler(i),
        None => Dispatch::NotAllowed(allow_header(methods)),
    }
}

} // verus!
