//! Character-level helpers shared by the parsers and renderers.

use vstd::prelude::*;
use vstd::string::*;

verus! {

/// `s` begins with the character `c`.
pub open spec fn starts_with_char(s: Seq<char>, c: char) -> bool {
    s.len() > 0 && s[0] == c
}

/// `s` ends with the character `c`.
pub open spec fn ends_with_char(s: Seq<char>, c: char) -> bool {
    s.len() > 0 && s.last() == c
}

/// `p` is a prefix of `s`.
pub open spec fn is_prefix(p: Seq<char>, s: Seq<char>) -> bool {
    p.len() <= s.len() && s.subrange(0, p.len() as int) == p
}

/// `p` is a suffix of `s`.
pub open spec fn is_suffix(p: Seq<char>, s: Seq<char>) -> bool {
    p.len() <= s.len() && s.subrange(s.len() - p.len(), s.len() as int) == p
}

/// Appends one character: wraps `String::push`.
///
/// Trusted: std documents that `push` appends the character to the end of the
/// string, so the new contents are the old contents followed by `c`.
#[verifier::external_body]
pub(crate) fn push_char(s: &mut String, c: char)
    ensures
        final(s)@ == old(s)@.push(c),
{
    s.push(c)
}

/// Character equality of two strings.
pub fn str_eq(a: &str, b: &str) -> (r: bool)
    ensures
        r == (a@ == b@),
{
    let n = a.unicode_len();
    let m = b.unicode_len();
    if n != m {
        return false;
    }
    let mut i: usize = 0;
    while i < n
        invariant
            n == a@.len(),
            m == b@.len(),
            n == m,
            i <= n,
            forall|k: int| 0 <= k < i ==> a@[k] == b@[k],
        decreases n - i,
    {
        if a.get_char(i) != b.get_char(i) {
            return false;
        }
        i = i + 1;
    }
    assert(a@ =~= b@);
    true
}

/// Whether `s` starts with the character `c`.
pub fn str_starts_with_char(s: &str, c: char) -> (r: bool)
    ensures
        r == starts_with_char(s@, c),
{
    s.unicode_len() > 0 && s.get_char(0) == c
}

/// Whether `s` ends with the character `c`.
pub fn str_ends_with_char(s: &str, c: char) -> (r: bool)
    ensures
        r == ends_with_char(s@, c),
{
    let n = s.unicode_len();
    n > 0 && s.get_char(n - 1) == c
}

/// Whether `p` is a prefix of `s`.
pub fn str_starts_with(s: &str, p: &str) -> (r: bool)
    ensures
        r == is_prefix(p@, s@),
{
    let n = s.unicode_len();
    let m = p.unicode_len();
    if m > n {
        return false;
    }
    let mut i: usize = 0;
    while i < m
        invariant
            n == s@.len(),
            m == p@.len(),
            m <= n,
            i <= m,
            forall|k: int| 0 <= k < i ==> s@[k] == p@[k],
        decreases m - i,
    {
        if s.get_char(i) != p.get_char(i) {
            assert(s@.subrange(0, m as int)[i as int] != p@[i as int]);
            return false;
        }
        i = i + 1;
    }
    assert(s@.subrange(0, m as int) =~= p@);
    true
}

/// Whether `p` is a suffix of `s`.
pub fn str_ends_with(s: &str, p: &str) -> (r: bool)
    ensures
        r == is_suffix(p@, s@),
{
    let n = s.unicode_len();
    let m = p.unicode_len();
    if m > n {
        return false;
    }
    let off = n - m;
    let mut i: usize = 0;
    while i < m
        invariant
            n == s@.len(),
            m == p@.len(),
            off == n - m,
            i <= m,
            forall|k: int| 0 <= k < i ==> s@[off + k] == p@[k],
        decreases m - i,
    {
        if s.get_char(off + i) != p.get_char(i) {
            assert(s@.subrange(off as int, n as int)[i as int] != p@[i as int]);
            return false;
        }
        i = i + 1;
    }
    assert(s@.subrange(off as int, n as int) =~= p@);
    true
}

/// Copy of `s` as an owned string.
pub fn to_owned_string(s: &str) -> (r: String)
    ensures
        r@ == s@,
{
    String::from_str(s)
}

/// Substring by character positions, copied into an owned string.
pub fn substring(s: &str, from: usize, to: usize) -> (r: String)
    requires
        from <= to <= s@.len(),
    ensures
        r@ == s@.subrange(from as int, to as int),
{
    String::from_str(s.substring_char(from, to))
}

/// Rust's `char::is_whitespace`: the Unicode `White_Space` property.
pub open spec fn is_ws(c: char) -> bool {
    c == ' ' || ('\t' <= c && c <= '\r') || c == '\u{85}' || c == '\u{a0}' || c == '\u{1680}'
        || ('\u{2000}' <= c && c <= '\u{200a}') || c == '\u{2028}' || c == '\u{2029}'
        || c == '\u{202f}' || c == '\u{205f}' || c == '\u{3000}'
}

/// Executable whitespace test.
pub fn char_is_ws(c: char) -> (r: bool)
    ensures
        r == is_ws(c),
{
    c == ' ' || ('\t' <= c && c <= '\r') || c == '\u{85}' || c == '\u{a0}' || c == '\u{1680}'
        || ('\u{2000}' <= c && c <= '\u{200a}') || c == '\u{2028}' || c == '\u{2029}'
        || c == '\u{202f}' || c == '\u{205f}' || c == '\u{3000}'
}

/// Drop all leading whitespace.
pub open spec fn strip_leading_ws(s: Seq<char>) -> Seq<char>
    decreases s.len(),
{
    if s.len() > 0 && is_ws(s[0]) {
        strip_leading_ws(s.drop_first())
    } else {
        s
    }
}

/// Drop all trailing whitespace.
pub open spec fn strip_trailing_ws(s: Seq<char>) -> Seq<char>
    decreases s.len(),
{
    if s.len() > 0 && is_ws(s.last()) {
        strip_trailing_ws(s.drop_last())
    } else {
        s
    }
}

/// `str::trim`: whitespace removed from both ends.
pub open spec fn trim_ws(s: Seq<char>) -> Seq<char> {
    strip_trailing_ws(strip_leading_ws(s))
}

/// Character range `[lo, hi)` of `s` that `trim_ws` keeps.
pub fn trim_ws_bounds(s: &str) -> (r: (usize, usize))
    ensures
        r.0 <= r.1 <= s@.len(),
        s@.subrange(r.0 as int, r.1 as int) == trim_ws(s@),
{
    let n = s.unicode_len();
    let mut lo: usize = 0;
    assert(s@.subrange(0, n as int) =~= s@);
    while lo < n && char_is_ws(s.get_char(lo))
        invariant
            n == s@.len(),
            lo <= n,
            strip_leading_ws(s@) == strip_leading_ws(s@.subrange(lo as int, n as int)),
        decreases n - lo,
    {
        assert(s@.subrange(lo as int, n as int).drop_first() =~= s@.subrange(lo + 1, n as int));
        lo = lo + 1;
    }
    assert(strip_leading_ws(s@.subrange(lo as int, n as int)) == s@.subrange(lo as int, n as int));
    let mut hi: usize = n;
    while hi > lo && char_is_ws(s.get_char(hi - 1))
        invariant
            n == s@.len(),
            lo <= hi <= n,
            strip_leading_ws(s@) == s@.subrange(lo as int, n as int),
            trim_ws(s@) == strip_trailing_ws(s@.subrange(lo as int, hi as int)),
        decreases hi,
    {
        assert(s@.subrange(lo as int, hi as int).drop_last() =~= s@.subrange(lo as int, hi - 1));
        hi = hi - 1;
    }
    assert(strip_trailing_ws(s@.subrange(lo as int, hi as int)) == s@.subrange(lo as int, hi as int));
    (lo, hi)
}

/// `str::trim` on a borrowed string.
pub fn trim<'a>(s: &'a str) -> (r: &'a str)
    ensures
        r@ == trim_ws(s@),
{
    let (lo, hi) = trim_ws_bounds(s);
    s.substring_char(lo, hi)
}

/// The digit character for `d < 10`.
pub open spec fn digit_char(d: nat) -> char {
    ((d + '0' as nat) as u32) as char
}

/// Decimal representation of `n`, without leading zeros.
pub open spec fn decimal(n: nat) -> Seq<char>
    decreases n,
{
    if n < 10 {
        seq![digit_char(n)]
    } else {
        decimal(n / 10).push(digit_char(n % 10))
    }
}

/// `n` zero characters.
pub open spec fn zeros(n: nat) -> Seq<char> {
    Seq::new(n, |i: int| '0')
}

/// Decimal representation of `n`, left-padded with `0` to at least `width` characters.
pub open spec fn padded_decimal(n: nat, width: nat) -> Seq<char> {
    let d = decimal(n);
    if d.len() < width {
        zeros((width - d.len()) as nat) + d
    } else {
        d
    }
}

/// Digit character of `d`.
fn digit_to_char(d: u64) -> (c: char)
    requires
        d < 10,
    ensures
        c == digit_char(d as nat),
{
    let b: u8 = (d as u8) + 48;
    b as char
}

/// Append the decimal representation of `n`.
pub fn push_decimal(out: &mut String, n: u128)
    ensures
        final(out)@ == old(out)@ + decimal(n as nat),
    decreases n,
{
    if n >= 10 {
        push_decimal(out, n / 10);
    }
    push_char(out, digit_to_char((n % 10) as u64));
}

/// Number of decimal digits of `n`.
pub fn decimal_len(n: u64) -> (r: usize)
    ensures
        r == decimal(n as nat).len(),
        r <= 20,
    decreases n,
{
    if n >= 10 {
        proof {
            lemma_decimal_len_bound(n as nat);
        }
        decimal_len(n / 10) + 1
    } else {
        1
    }
}

/// `10^n`.
pub open spec fn pow10(n: nat) -> nat
    decreases n,
{
    if n == 0 {
        1
    } else {
        10 * pow10((n - 1) as nat)
    }
}

/// Below `10^k` a number has at most `k` decimal digits.
pub proof fn lemma_decimal_len_pow(n: nat, k: nat)
    requires
        k >= 1,
        n < pow10(k),
    ensures
        decimal(n).len() <= k,
    decreases k,
{
    if n >= 10 {
        assert(pow10(k) == 10 * pow10((k - 1) as nat));
        assert(k >= 2) by {
            if k == 1 {
                assert(pow10(0) == 1);
            }
        }
        assert(n / 10 < pow10((k - 1) as nat));
        lemma_decimal_len_pow(n / 10, (k - 1) as nat);
    }
}

/// Decimal strings of `u64` values are at most twenty characters long.
proof fn lemma_decimal_len_bound(n: nat)
    requires
        n <= u64::MAX,
    ensures
        decimal(n).len() <= 20,
{
    reveal_with_fuel(pow10, 21);
    assert(pow10(20) == 100000000000000000000);
    lemma_decimal_len_pow(n, 20);
}

/// Append `n` in decimal, left-padded with `0` to `width` characters.
pub fn push_padded_decimal(out: &mut String, n: u64, width: usize)
    ensures
        final(out)@ == old(out)@ + padded_decimal(n as nat, width as nat),
{
    let len = decimal_len(n);
    let ghost start = out@;
    if len < width {
        let mut i: usize = 0;
        while i < width - len
            invariant
                len < width,
                i <= width - len,
                out@ == start + zeros(i as nat),
            decreases width - len - i,
        {
            push_char(out, '0');
            assert(zeros(i as nat).push('0') =~= zeros((i + 1) as nat));
            i = i + 1;
        }
    }
    push_decimal(out, n as u128);
    assert(len < width ==> start + zeros((width - len) as nat) + decimal(n as nat) =~= start + (zeros(
        (width - len) as nat,
    ) + decimal(n as nat)));
}

/// An ASCII letter.
pub open spec fn is_ascii_alpha(c: char) -> bool {
    ('a' <= c && c <= 'z') || ('A' <= c && c <= 'Z')
}

/// An ASCII decimal digit.
pub open spec fn is_ascii_digit(c: char) -> bool {
    '0' <= c && c <= '9'
}

/// An ASCII letter or digit.
pub open spec fn is_ascii_alnum(c: char) -> bool {
    is_ascii_alpha(c) || is_ascii_digit(c)
}

/// `char::to_ascii_uppercase`.
pub open spec fn ascii_upper(c: char) -> char {
    if 'a' <= c && c <= 'z' {
        ((c as u32 - 32) as u32) as char
    } else {
        c
    }
}

/// `char::to_ascii_lowercase`.
pub open spec fn ascii_lower(c: char) -> char {
    if 'A' <= c && c <= 'Z' {
        ((c as u32 + 32) as u32) as char
    } else {
        c
    }
}

/// Executable `is_ascii_alphabetic`.
pub fn char_is_ascii_alpha(c: char) -> (r: bool)
    ensures
        r == is_ascii_alpha(c),
{
    ('a' <= c && c <= 'z') || ('A' <= c && c <= 'Z')
}

/// Executable `is_ascii_digit`.
pub fn char_is_ascii_digit(c: char) -> (r: bool)
    ensures
        r == is_ascii_digit(c),
{
    '0' <= c && c <= '9'
}

/// Executable `is_ascii_alphanumeric`.
pub fn char_is_ascii_alnum(c: char) -> (r: bool)
    ensures
        r == is_ascii_alnum(c),
{
    char_is_ascii_alpha(c) || char_is_ascii_digit(c)
}

/// Executable `to_ascii_uppercase`.
pub fn char_ascii_upper(c: char) -> (r: char)
    ensures
        r == ascii_upper(c),
{
    if 'a' <= c && c <= 'z' {
        let b: u8 = (c as u8) - 32;
        b as char
    } else {
        c
    }
}

/// Executable `to_ascii_lowercase`.
pub fn char_ascii_lower(c: char) -> (r: char)
    ensures
        r == ascii_lower(c),
{
    if 'A' <= c && c <= 'Z' {
        let b: u8 = (c as u8) + 32;
        b as char
    } else {
        c
    }
}

/// Drop all leading copies of `c`.
pub open spec fn strip_leading_char(s: Seq<char>, c: char) -> Seq<char>
    decreases s.len(),
{
    if s.len() > 0 && s[0] == c {
        strip_leading_char(s.drop_first(), c)
    } else {
        s
    }
}

/// Drop all trailing copies of `c`.
pub open spec fn strip_trailing_char(s: Seq<char>, c: char) -> Seq<char>
    decreases s.len(),
{
    if s.len() > 0 && s.last() == c {
        strip_trailing_char(s.drop_last(), c)
    } else {
        s
    }
}

/// `str::trim_matches(c)`.
pub open spec fn trim_char(s: Seq<char>, c: char) -> Seq<char> {
    strip_trailing_char(strip_leading_char(s, c), c)
}

/// `str::trim_start_matches(|c| c.is_ascii_digit())`.
pub open spec fn strip_leading_digits(s: Seq<char>) -> Seq<char>
    decreases s.len(),
{
    if s.len() > 0 && is_ascii_digit(s[0]) {
        strip_leading_digits(s.drop_first())
    } else {
        s
    }
}

/// Character range `[lo, hi)` of `s` that `trim_char(s, c)` keeps.
pub fn trim_char_bounds(s: &str, c: char) -> (r: (usize, usize))
    ensures
        r.0 <= r.1 <= s@.len(),
        s@.subrange(r.0 as int, r.1 as int) == trim_char(s@, c),
{
    let n = s.unicode_len();
    let mut lo: usize = 0;
    assert(s@.subrange(0, n as int) =~= s@);
    while lo < n && s.get_char(lo) == c
        invariant
            n == s@.len(),
            lo <= n,
            strip_leading_char(s@, c) == strip_leading_char(s@.subrange(lo as int, n as int), c),
        decreases n - lo,
    {
        assert(s@.subrange(lo as int, n as int).drop_first() =~= s@.subrange(lo + 1, n as int));
        lo = lo + 1;
    }
    assert(strip_leading_char(s@.subrange(lo as int, n as int), c) == s@.subrange(lo as int, n as int));
    let mut hi: usize = n;
    while hi > lo && s.get_char(hi - 1) == c
        invariant
            n == s@.len(),
            lo <= hi <= n,
            strip_leading_char(s@, c) == s@.subrange(lo as int, n as int),
            trim_char(s@, c) == strip_trailing_char(s@.subrange(lo as int, hi as int), c),
        decreases hi,
    {
        assert(s@.subrange(lo as int, hi as int).drop_last() =~= s@.subrange(lo as int, hi - 1));
        hi = hi - 1;
    }
    assert(strip_trailing_char(s@.subrange(lo as int, hi as int), c) == s@.subrange(lo as int, hi as int));
    (lo, hi)
}

/// Start index of `strip_leading_digits(s)`.
pub fn leading_digits_end(s: &str) -> (r: usize)
    ensures
        r <= s@.len(),
        s@.subrange(r as int, s@.len() as int) == strip_leading_digits(s@),
{
    let n = s.unicode_len();
    let mut lo: usize = 0;
    assert(s@.subrange(0, n as int) =~= s@);
    while lo < n && char_is_ascii_digit(s.get_char(lo))
        invariant
            n == s@.len(),
            lo <= n,
            strip_leading_digits(s@) == strip_leading_digits(s@.subrange(lo as int, n as int)),
        decreases n - lo,
    {
        assert(s@.subrange(lo as int, n as int).drop_first() =~= s@.subrange(lo + 1, n as int));
        lo = lo + 1;
    }
    lo
}

/// The pieces of `s` between occurrences of `sep`, empty ones included
/// (`str::split` with a character pattern).
pub open spec fn split_on(s: Seq<char>, sep: char) -> Seq<Seq<char>>
    decreases s.len(),
{
    if s.len() == 0 {
        seq![Seq::<char>::empty()]
    } else {
        let prev = split_on(s.drop_last(), sep);
        if s.last() == sep {
            prev.push(Seq::empty())
        } else {
            prev.update(prev.len() - 1, prev.last().push(s.last()))
        }
    }
}

/// `split_on` is never empty.
pub proof fn lemma_split_on_nonempty(s: Seq<char>, sep: char)
    ensures
        split_on(s, sep).len() >= 1,
    decreases s.len(),
{
    if s.len() > 0 {
        lemma_split_on_nonempty(s.drop_last(), sep);
    }
}

/// Unfolds `split_on` by one character.
pub proof fn lemma_split_on_step(t: Seq<char>, i: int, sep: char)
    requires
        0 <= i < t.len(),
    ensures
        split_on(t.take(i + 1), sep) == (if t[i] == sep {
            split_on(t.take(i), sep).push(Seq::empty())
        } else {
            split_on(t.take(i), sep).update(
                split_on(t.take(i), sep).len() - 1,
                split_on(t.take(i), sep).last().push(t[i]),
            )
        }),
{
    assert(t.take(i + 1).drop_last() =~= t.take(i));
}

/// `str::split` on a character, each piece copied into an owned string.
pub fn split_char(s: &str, sep: char) -> (r: Vec<String>)
    ensures
        r@.len() == split_on(s@, sep).len(),
        forall|k: int| 0 <= k < r@.len() ==> (#[trigger] r@[k])@ == split_on(s@, sep)[k],
{
    let n = s.unicode_len();
    let mut done: Vec<String> = Vec::new();
    let mut cur = String::new();
    let mut i: usize = 0;
    proof {
        assert(s@.take(0) =~= Seq::<char>::empty());
    }
    while i < n
        invariant
            n == s@.len(),
            i <= n,
            split_on(s@.take(i as int), sep).len() == done@.len() + 1,
            forall|k: int| 0 <= k < done@.len() ==> (#[trigger] done@[k])@ == split_on(s@.take(i as int), sep)[k],
            cur@ == split_on(s@.take(i as int), sep).last(),
        decreases n - i,
    {
        let c = s.get_char(i);
        proof {
            lemma_split_on_step(s@, i as int, sep);
            lemma_split_on_nonempty(s@.take(i as int), sep);
        }
        if c == sep {
            let piece = cur;
            done.push(piece);
            cur = String::new();
        } else {
            push_char(&mut cur, c);
        }
        i = i + 1;
    }
    proof {
        assert(s@.take(n as int) =~= s@);
    }
    done.push(cur);
    done
}

/// The contents of a list of owned strings.
pub open spec fn strings_view(v: Seq<String>) -> Seq<Seq<char>> {
    v.map_values(|x: String| x@)
}

/// Concatenation of one rendered piece per item, in order.
pub open spec fn concat_map(xs: Seq<Seq<char>>, f: spec_fn(Seq<char>) -> Seq<char>) -> Seq<char>
    decreases xs.len(),
{
    if xs.len() == 0 {
        Seq::empty()
    } else {
        concat_map(xs.drop_last(), f) + f(xs.last())
    }
}

/// One more item adds its piece at the end.
pub proof fn lemma_concat_map_step(xs: Seq<Seq<char>>, f: spec_fn(Seq<char>) -> Seq<char>, i: int)
    requires
        0 <= i < xs.len(),
    ensures
        concat_map(xs.take(i + 1), f) == concat_map(xs.take(i), f) + f(xs[i]),
{
    assert(xs.take(i + 1).drop_last() =~= xs.take(i));
}

/// Whether some string of `v` equals `s`.
pub fn contains_str(v: &Vec<String>, s: &str) -> (r: bool)
    ensures
        r == strings_view(v@).contains(s@),
{
    let mut i: usize = 0;
    while i < v.len()
        invariant
            i <= v@.len(),
            forall|k: int| 0 <= k < i ==> (#[trigger] v@[k])@ != s@,
        decreases v@.len() - i,
    {
        if str_eq(v[i].as_str(), s) {
            assert(strings_view(v@)[i as int] == s@);
            return true;
        }
        i = i + 1;
    }
    proof {
        if strings_view(v@).contains(s@) {
            let k = choose|k: int| 0 <= k < strings_view(v@).len() && strings_view(v@)[k] == s@;
            assert(v@[k]@ == s@);
        }
    }
    false
}

/// `str::trim_end_matches` with a non-empty string pattern.
pub open spec fn trim_end_matches(s: Seq<char>, p: Seq<char>) -> Seq<char>
    decreases s.len(),
{
    if p.len() > 0 && is_suffix(p, s) {
        trim_end_matches(s.subrange(0, s.len() - p.len()), p)
    } else {
        s
    }
}

/// Remove every trailing repetition of `p` from `s`.
pub fn str_trim_end_matches<'a>(s: &'a str, p: &str) -> (r: &'a str)
    requires
        p@.len() > 0,
    ensures
        r@ == trim_end_matches(s@, p@),
{
    let mut cur = s;
    let m = p.unicode_len();
    while str_ends_with(cur, p)
        invariant
            m == p@.len(),
            m > 0,
            trim_end_matches(cur@, p@) == trim_end_matches(s@, p@),
        decreases cur@.len(),
    {
        let n = cur.unicode_len();
        let next = cur.substring_char(0, n - m);
        cur = next;
    }
    cur
}

/// `n` occurs in `h` starting at position `i`.
pub open spec fn occurs_at(h: Seq<char>, n: Seq<char>, i: int) -> bool {
    0 <= i && i + n.len() <= h.len() && h.subrange(i, i + n.len()) == n
}

/// The first position at or after `i` where `n` occurs in `h`.
pub open spec fn find_from(h: Seq<char>, n: Seq<char>, i: int) -> Option<int>
    decreases h.len() + 1 - i,
{
    if i < 0 || i + n.len() > h.len() {
        None
    } else if occurs_at(h, n, i) {
        Some(i)
    } else {
        find_from(h, n, i + 1)
    }
}

/// `str::find`: the first position where `n` occurs in `h` (counted in characters).
pub open spec fn find_seq(h: Seq<char>, n: Seq<char>) -> Option<int> {
    find_from(h, n, 0)
}

/// `str::contains` with a string pattern.
pub open spec fn contains_seq(h: Seq<char>, n: Seq<char>) -> bool {
    find_seq(h, n) is Some
}

/// `h` with `s` inserted at position `i`.
pub open spec fn insert_seq(h: Seq<char>, i: int, s: Seq<char>) -> Seq<char> {
    h.subrange(0, i) + s + h.subrange(i, h.len() as int)
}

/// A found position is an occurrence, and there is none before it.
pub proof fn lemma_find_from_found(h: Seq<char>, n: Seq<char>, i: int)
    requires
        find_from(h, n, i) is Some,
    ensures
        occurs_at(h, n, find_from(h, n, i)->0),
        i <= find_from(h, n, i)->0,
        forall|j: int| i <= j < find_from(h, n, i)->0 ==> !occurs_at(h, n, j),
    decreases h.len() + 1 - i,
{
    if !(i < 0 || i + n.len() > h.len()) && !occurs_at(h, n, i) {
        lemma_find_from_found(h, n, i + 1);
    }
}

/// No occurrence is found when there is none from `i` on.
pub proof fn lemma_find_from_none(h: Seq<char>, n: Seq<char>, i: int)
    requires
        find_from(h, n, i) is None,
        0 <= i,
    ensures
        forall|j: int| i <= j ==> !occurs_at(h, n, j),
    decreases h.len() + 1 - i,
{
    if i + n.len() <= h.len() {
        lemma_find_from_none(h, n, i + 1);
    }
}

/// `str::find` with a string pattern, as a character position.
pub fn find_str(h: &str, n: &str) -> (r: Option<usize>)
    ensures
        match r {
            Some(i) => find_seq(h@, n@) == Some(i as int),
            None => find_seq(h@, n@) is None,
        },
{
    let len = h.unicode_len();
    let m = n.unicode_len();
    if m > len {
        return None;
    }
    if m == 0 {
        assert(h@.subrange(0, 0) =~= n@);
        return Some(0);
    }
    let mut i: usize = 0;
    while i <= len - m
        invariant
            len == h@.len(),
            m == n@.len(),
            1 <= m <= len,
            i <= len - m + 1,
            find_from(h@, n@, 0) == find_from(h@, n@, i as int),
        decreases len - m + 1 - i,
    {
        let piece = h.substring_char(i, i + m);
        if str_eq(piece, n) {
            return Some(i);
        }
        assert(!occurs_at(h@, n@, i as int));
        i = i + 1;
    }
    None
}

/// `str::contains` with a string pattern.
pub fn contains(h: &str, n: &str) -> (r: bool)
    ensures
        r == contains_seq(h@, n@),
{
    find_str(h, n).is_some()
}

/// `h` with `s` inserted at character position `i`.
pub fn insert_str_at(h: &str, i: usize, s: &str) -> (r: String)
    requires
        i <= h@.len(),
    ensures
        r@ == insert_seq(h@, i as int, s@),
{
    let n = h.unicode_len();
    let mut out = String::from_str(h.substring_char(0, i));
    out.append(s);
    out.append(h.substring_char(i, n));
    out
}

/// ASCII case-insensitive equality (`str::eq_ignore_ascii_case`).
pub open spec fn eq_ignore_ascii_case(a: Seq<char>, b: Seq<char>) -> bool {
    a.len() == b.len() && forall|i: int| 0 <= i < a.len() ==> ascii_lower(#[trigger] a[i]) == ascii_lower(b[i])
}

/// `str::eq_ignore_ascii_case`.
pub fn str_eq_ignore_ascii_case(a: &str, b: &str) -> (r: bool)
    ensures
        r == eq_ignore_ascii_case(a@, b@),
{
    let n = a.unicode_len();
    if n != b.unicode_len() {
        return false;
    }
    let mut i: usize = 0;
    while i < n
        invariant
            n == a@.len(),
            n == b@.len(),
            i <= n,
            forall|k: int| 0 <= k < i ==> ascii_lower(#[trigger] a@[k]) == ascii_lower(b@[k]),
        decreases n - i,
    {
        if char_ascii_lower(a.get_char(i)) != char_ascii_lower(b.get_char(i)) {
            return false;
        }
        i = i + 1;
    }
    true
}

/// `str::replace`: every occurrence of `p` in `s` from position `i` on,
/// taken left to right without overlap, replaced by `r` (`p` non-empty).
pub open spec fn replace_from(s: Seq<char>, p: Seq<char>, r: Seq<char>, i: int) -> Seq<char>
    decreases s.len() - i,
{
    if i < 0 || p.len() == 0 || i + p.len() > s.len() {
        if 0 <= i <= s.len() {
            s.subrange(i, s.len() as int)
        } else {
            Seq::empty()
        }
    } else if occurs_at(s, p, i) {
        r + replace_from(s, p, r, i + p.len())
    } else {
        seq![s[i]] + replace_from(s, p, r, i + 1)
    }
}

/// `s` with every occurrence of the non-empty `p` replaced by `r`.
pub open spec fn replace_all(s: Seq<char>, p: Seq<char>, r: Seq<char>) -> Seq<char> {
    replace_from(s, p, r, 0)
}

/// `str::replace` with a non-empty string pattern.
pub fn str_replace(s: &str, p: &str, r: &str) -> (out: String)
    requires
        p@.len() > 0,
    ensures
        out@ == replace_all(s@, p@, r@),
{
    let n = s.unicode_len();
    let m = p.unicode_len();
    let mut out = String::new();
    let mut i: usize = 0;
    while i < n
        invariant
            n == s@.len(),
            m == p@.len(),
            m > 0,
            i <= n,
            out@ + replace_from(s@, p@, r@, i as int) == replace_all(s@, p@, r@),
        decreases n - i,
    {
        if m <= n - i && str_eq(s.substring_char(i, i + m), p) {
            let ghost before = out@;
            out.append(r);
            assert(before + replace_from(s@, p@, r@, i as int) =~= out@ + replace_from(s@, p@, r@, i + m));
            i = i + m;
        } else {
            let c = s.get_char(i);
            let ghost before = out@;
            push_char(&mut out, c);
            if m <= n - i {
                assert(!occurs_at(s@, p@, i as int));
                assert(before + replace_from(s@, p@, r@, i as int) =~= out@ + replace_from(s@, p@, r@, i + 1));
            } else {
                assert(replace_from(s@, p@, r@, i as int) =~= seq![c] + replace_from(s@, p@, r@, i + 1));
                assert(before + replace_from(s@, p@, r@, i as int) =~= out@ + replace_from(s@, p@, r@, i + 1));
            }
            i = i + 1;
        }
    }
    assert(replace_from(s@, p@, r@, n as int) =~= Seq::<char>::empty());
    assert(out@ + Seq::<char>::empty() =~= out@);
    out
}

/// An occurrence is found: `contains_seq` holds.
pub proof fn lemma_occurs_contains(h: Seq<char>, n: Seq<char>, k: int)
    requires
        occurs_at(h, n, k),
    ensures
        contains_seq(h, n),
{
    if find_from(h, n, 0) is None {
        lemma_find_from_none(h, n, 0);
    }
}

/// An occurrence that an insertion does not cut survives it, shifted when the
/// insertion comes before it.
pub proof fn lemma_occurs_insert(h: Seq<char>, n: Seq<char>, k: int, i: int, x: Seq<char>)
    requires
        occurs_at(h, n, k),
        0 <= i <= h.len(),
        i <= k || i >= k + n.len(),
    ensures
        occurs_at(insert_seq(h, i, x), n, if i <= k { k + x.len() } else { k }),
{
    let g = insert_seq(h, i, x);
    let k2 = if i <= k { k + x.len() } else { k };
    assert(g.len() == h.len() + x.len());
    assert forall|j: int| 0 <= j < n.len() implies g.subrange(k2, k2 + n.len())[j] == n[j] by {
        assert(h.subrange(k, k + n.len())[j] == n[j]);
        if i <= k {
            assert(g[k + x.len() + j] == h[k + j]);
        } else {
            assert(g[k + j] == h[k + j]);
        }
    }
    assert(g.subrange(k2, k2 + n.len()) =~= n);
}

/// `s` ends with `n`: it occurs at `s.len() - n.len()`.
pub proof fn lemma_occurs_at_end(a: Seq<char>, n: Seq<char>)
    ensures
        occurs_at(a + n, n, a.len() as int),
{
    assert((a + n).subrange(a.len() as int, (a.len() + n.len()) as int) =~= n);
}

/// `n` occurs at the start of `n + b`.
pub proof fn lemma_occurs_at_start(n: Seq<char>, b: Seq<char>)
    ensures
        occurs_at(n + b, n, 0),
{
    assert((n + b).subrange(0, n.len() as int) =~= n);
}

/// Leading blanks are gone after `strip_leading_ws`.
pub proof fn lemma_strip_leading_ws_head(s: Seq<char>)
    ensures
        strip_leading_ws(s).len() == 0 || !is_ws(strip_leading_ws(s)[0]),
    decreases s.len(),
{
    if s.len() > 0 && is_ws(s[0]) {
        lemma_strip_leading_ws_head(s.drop_first());
    }
}

/// `strip_trailing_ws` keeps a prefix that does not end in a blank.
pub proof fn lemma_strip_trailing_ws_prefix(s: Seq<char>)
    ensures
        strip_trailing_ws(s).len() <= s.len(),
        strip_trailing_ws(s) == s.subrange(0, strip_trailing_ws(s).len() as int),
        strip_trailing_ws(s).len() == 0 || !is_ws(strip_trailing_ws(s).last()),
    decreases s.len(),
{
    if s.len() > 0 && is_ws(s.last()) {
        lemma_strip_trailing_ws_prefix(s.drop_last());
        let r = strip_trailing_ws(s.drop_last());
        assert(s.drop_last().subrange(0, r.len() as int) =~= s.subrange(0, r.len() as int));
    } else {
        assert(s.subrange(0, s.len() as int) =~= s);
    }
}

/// Trimming twice is trimming once.
pub proof fn lemma_trim_ws_idempotent(s: Seq<char>)
    ensures
        trim_ws(trim_ws(s)) == trim_ws(s),
{
    let a = strip_leading_ws(s);
    let t = strip_trailing_ws(a);
    lemma_strip_leading_ws_head(s);
    lemma_strip_trailing_ws_prefix(a);
    if t.len() > 0 {
        assert(t[0] == a[0]);
    }
    assert(strip_leading_ws(t) == t);
    assert(strip_trailing_ws(t) == t);
}

/// Text without the separator is one piece.
pub proof fn lemma_split_on_no_sep(s: Seq<char>, sep: char)
    requires
        !s.contains(sep),
    ensures
        split_on(s, sep) == seq![s],
    decreases s.len(),
{
    if s.len() > 0 {
        assert(!s.drop_last().contains(sep)) by {
            if s.drop_last().contains(sep) {
                let k = choose|k: int| 0 <= k < s.drop_last().len() && s.drop_last()[k] == sep;
                assert(s[k] == sep);
            }
        }
        lemma_split_on_no_sep(s.drop_last(), sep);
        assert(s.last() != sep) by {
            assert(s[s.len() - 1] == s.last());
        }
        assert(s.drop_last().push(s.last()) =~= s);
        assert(seq![s.drop_last()].update(0, s) =~= seq![s]);
    } else {
        assert(s =~= Seq::<char>::empty());
    }
}

/// After text that is empty or ends with the separator, the pieces of what
/// follows come on their own.
pub proof fn lemma_split_on_concat(x: Seq<char>, y: Seq<char>, sep: char)
    requires
        x.len() == 0 || x.last() == sep,
    ensures
        split_on(x + y, sep) == split_on(x, sep).drop_last() + split_on(y, sep),
    decreases y.len(),
{
    lemma_split_on_nonempty(x, sep);
    if y.len() == 0 {
        assert(x + y =~= x);
        if x.len() == 0 {
            assert(split_on(x, sep).drop_last() + split_on(y, sep) =~= split_on(x, sep));
        } else {
            assert(split_on(x, sep) == split_on(x.drop_last(), sep).push(Seq::empty()));
            assert(split_on(x, sep).drop_last() + split_on(y, sep) =~= split_on(x, sep));
        }
    } else {
        lemma_split_on_concat(x, y.drop_last(), sep);
        lemma_split_on_nonempty(y.drop_last(), sep);
        assert((x + y).drop_last() =~= x + y.drop_last());
        assert((x + y).last() == y.last());
        let a = split_on(x, sep).drop_last();
        let b = split_on(y.drop_last(), sep);
        if y.last() == sep {
            assert(split_on(x + y, sep) =~= a + b.push(Seq::empty()));
        } else {
            assert((a + b).update((a + b).len() - 1, (a + b).last().push(y.last())) =~= a + b.update(
                b.len() - 1,
                b.last().push(y.last()),
            ));
        }
    }
}

/// The first piece of `l` + separator + anything is `l`, for `l` without the separator.
pub proof fn lemma_split_on_first_piece(l: Seq<char>, r: Seq<char>, sep: char)
    requires
        !l.contains(sep),
    ensures
        split_on(l.push(sep) + r, sep)[0] == l,
        split_on(l.push(sep) + r, sep).len() >= 1,
{
    lemma_split_on_no_sep(l, sep);
    assert(l.push(sep).drop_last() =~= l);
    assert(split_on(l.push(sep), sep) == seq![l].push(Seq::<char>::empty()));
    lemma_split_on_concat(l.push(sep), r, sep);
    lemma_split_on_nonempty(r, sep);
    assert(split_on(l.push(sep), sep).drop_last() =~= seq![l]);
}

} // verus!
