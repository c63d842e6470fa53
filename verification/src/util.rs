//! Naming rules and timestamps for the project generators.

use vstd::prelude::*;
use vstd::string::*;
use std::time::Duration;
use crate::path::{lemma_segments_step, segments};
use crate::text::{
    ascii_lower, ascii_upper, char_ascii_lower, char_ascii_upper, char_is_ascii_alnum, char_is_ascii_alpha,
    char_is_ascii_digit, is_ascii_alnum, is_ascii_digit,
    is_ascii_alpha, leading_digits_end, padded_decimal, push_char,
    push_padded_decimal, strip_leading_digits, substring, trim_char, trim_char_bounds,
};

verus! {

/// A Rust identifier in ASCII: a letter or `_`, then letters, digits or `_`.
pub open spec fn ident_ok(s: Seq<char>) -> bool {
    &&& s.len() > 0
    &&& is_ascii_alpha(s[0]) || s[0] == '_'
    &&& forall|i: int| 1 <= i < s.len() ==> is_ascii_alnum(#[trigger] s[i]) || s[i] == '_'
}

/// What `validate_ident` returns.
pub open spec fn spec_validate_ident(s: Seq<char>) -> Result<(), Seq<char>> {
    if s.len() == 0 {
        Err("name must not be empty"@)
    } else if !ident_ok(s) {
        Err("invalid name `"@ + s + "`"@)
    } else {
        Ok(())
    }
}

/// Check that `raw` is usable as a module / type identifier.
pub fn validate_ident(raw: &str) -> (r: Result<(), String>)
    ensures
        match r {
            Ok(()) => spec_validate_ident(raw@) == Ok::<(), Seq<char>>(()),
            Err(e) => spec_validate_ident(raw@) == Err::<(), Seq<char>>(e@),
        },
{
    let n = raw.unicode_len();
    if n == 0 {
        return Err(String::from_str("name must not be empty"));
    }
    let first = raw.get_char(0);
    let mut ok = char_is_ascii_alpha(first) || first == '_';
    let mut i: usize = 1;
    while ok && i < n
        invariant
            n == raw@.len(),
            1 <= i <= n,
            ok ==> forall|k: int| 1 <= k < i ==> is_ascii_alnum(#[trigger] raw@[k]) || raw@[k] == '_',
            ok == (is_ascii_alpha(raw@[0]) || raw@[0] == '_') || !ok,
            ok ==> (is_ascii_alpha(raw@[0]) || raw@[0] == '_'),
            !ok ==> !ident_ok(raw@),
        decreases n - i,
    {
        let c = raw.get_char(i);
        if !(char_is_ascii_alnum(c) || c == '_') {
            ok = false;
        }
        i = i + 1;
    }
    if !ok {
        let mut e = String::from_str("invalid name `");
        e.append(raw);
        e.append("`");
        return Err(e);
    }
    Ok(())
}

/// A path component that `Path::components` keeps as a name.
pub open spec fn kept_component(seg: Seq<char>) -> bool {
    seg.len() > 0 && seg != seq!['.']
}

/// The last kept component among `segs`.
pub open spec fn last_kept(segs: Seq<Seq<char>>) -> Option<Seq<char>>
    decreases segs.len(),
{
    if segs.len() == 0 {
        None
    } else if kept_component(segs.last()) {
        Some(segs.last())
    } else {
        last_kept(segs.drop_last())
    }
}

/// `Path::file_name` for a `/`-separated path: its last component unless that is `..`.
pub open spec fn spec_file_name(p: Seq<char>) -> Option<Seq<char>> {
    match last_kept(segments(p)) {
        Some(c) => if c == seq!['.', '.'] { None } else { Some(c) },
        None => None,
    }
}

/// `last_kept` over a sequence with one more segment.
proof fn lemma_last_kept_push(segs: Seq<Seq<char>>, s: Seq<char>)
    ensures
        last_kept(segs.push(s)) == (if kept_component(s) { Some(s) } else { last_kept(segs) }),
{
    assert(segs.push(s).drop_last() =~= segs);
}

/// Character range of the last component of `p`, when `Path::file_name` has one.
pub fn file_name_bounds(p: &str) -> (r: Option<(usize, usize)>)
    ensures
        r is None <==> spec_file_name(p@) is None,
        match r {
            Some(ab) => ab.0 <= ab.1 <= p@.len()
                && spec_file_name(p@) == Some(p@.subrange(ab.0 as int, ab.1 as int)),
            None => true,
        },
{
    let n = p.unicode_len();
    let mut start: usize = 0;
    let mut seen: bool = false;
    let mut fa: usize = 0;
    let mut fb: usize = 0;
    let mut i: usize = 0;
    proof {
        assert(p@.take(0) =~= Seq::<char>::empty());
    }
    while i < n
        invariant
            n == p@.len(),
            start <= i <= n,
            segments(p@.take(i as int)).len() >= 1,
            segments(p@.take(i as int)).last() == p@.subrange(start as int, i as int),
            seen ==> fa <= fb <= i && last_kept(segments(p@.take(i as int)).drop_last())
                == Some(p@.subrange(fa as int, fb as int)),
            !seen ==> last_kept(segments(p@.take(i as int)).drop_last()) is None,
        decreases n - i,
    {
        let c = p.get_char(i);
        proof {
            lemma_segments_step(p@, i as int);
            assert(p@.take(i + 1)[i as int] == c);
        }
        let ghost prev = segments(p@.take(i as int));
        if c == '/' {
            let len = i - start;
            let is_dot = len == 1 && p.get_char(start) == '.';
            proof {
                let seg = p@.subrange(start as int, i as int);
                let next = segments(p@.take(i + 1));
                assert(next.drop_last() =~= prev);
                assert(prev.drop_last().push(prev.last()) =~= prev);
                lemma_last_kept_push(prev.drop_last(), seg);
                if len == 1 {
                    assert(is_dot == (seg == seq!['.'])) by {
                        if seg == seq!['.'] {
                            assert(seg[0] == p@[start as int]);
                        }
                        if is_dot {
                            assert(seg =~= seq!['.']);
                        }
                    }
                }
                assert(seq!['.'].len() == 1);
            }
            if len > 0 && !is_dot {
                seen = true;
                fa = start;
                fb = i;
            }
            start = i + 1;
            proof {
                assert(p@.subrange(start as int, i + 1) =~= Seq::<char>::empty());
            }
        } else {
            proof {
                let next = segments(p@.take(i + 1));
                assert(next.drop_last() =~= prev.drop_last());
                assert(p@.subrange(start as int, i + 1) =~= p@.subrange(start as int, i as int).push(c));
            }
        }
        i = i + 1;
    }
    let len = n - start;
    let is_dot = len == 1 && p.get_char(start) == '.';
    proof {
        assert(p@.take(n as int) =~= p@);
        let segs = segments(p@);
        let seg = p@.subrange(start as int, n as int);
        assert(segs.drop_last().push(segs.last()) =~= segs);
        lemma_last_kept_push(segs.drop_last(), seg);
        if len == 1 {
            if seg == seq!['.'] {
                assert(seg[0] == p@[start as int]);
            }
            if is_dot {
                assert(seg =~= seq!['.']);
            }
        }
        assert(seq!['.'].len() == 1);
    }
    if len > 0 && !is_dot {
        seen = true;
        fa = start;
        fb = n;
    }
    if !seen {
        return None;
    }
    let ghost seg = p@.subrange(fa as int, fb as int);
    let is_dotdot = fb - fa == 2 && p.get_char(fa) == '.' && p.get_char(fa + 1) == '.';
    proof {
        assert(seq!['.', '.'].len() == 2);
        if seg == seq!['.', '.'] {
            assert(seg[0] == p@[fa as int]);
            assert(seg[1] == p@[fa + 1]);
        }
        if is_dotdot {
            assert(seg =~= seq!['.', '.']);
        }
    }
    if is_dotdot {
        None
    } else {
        Some((fa, fb))
    }
}

/// Keep `-` and ASCII letters and digits; anything else becomes `_`.
pub open spec fn crate_char(c: char) -> char {
    if c == '-' || is_ascii_alnum(c) {
        c
    } else {
        '_'
    }
}

/// The package name derived from `raw` before validation.
pub open spec fn cleaned_crate_name(raw: Seq<char>) -> Seq<char> {
    let base = match spec_file_name(raw) {
        Some(b) => b,
        None => raw,
    };
    strip_leading_digits(trim_char(base.map_values(|c: char| crate_char(c)), '_'))
}

/// What `sanitize_crate_name` returns.
pub open spec fn spec_sanitize_crate_name(raw: Seq<char>) -> Result<Seq<char>, Seq<char>> {
    let cleaned = cleaned_crate_name(raw);
    if cleaned.len() == 0 {
        Err("invalid package name derived from `"@ + raw + "`"@)
    } else if !(cleaned[0] == '_' || is_ascii_alpha(cleaned[0])) {
        Err("invalid package name `"@ + cleaned + "` from `"@ + raw + "`"@)
    } else {
        Ok(cleaned)
    }
}

/// Derive a Cargo package name from a directory argument (`my-app`, `path/to/app`).
pub fn sanitize_crate_name(raw: &str) -> (r: Result<String, String>)
    ensures
        match r {
            Ok(s) => spec_sanitize_crate_name(raw@) == Ok::<Seq<char>, Seq<char>>(s@),
            Err(e) => spec_sanitize_crate_name(raw@) == Err::<Seq<char>, Seq<char>>(e@),
        },
{
    let base: &str = match file_name_bounds(raw) {
        Some((a, b)) => raw.substring_char(a, b),
        None => raw,
    };
    let n = base.unicode_len();
    let mut mapped = String::new();
    let mut i: usize = 0;
    while i < n
        invariant
            n == base@.len(),
            i <= n,
            mapped@ == base@.take(i as int).map_values(|c: char| crate_char(c)),
        decreases n - i,
    {
        let c = base.get_char(i);
        let keep = c == '-' || char_is_ascii_alnum(c);
        push_char(&mut mapped, if keep { c } else { '_' });
        assert(base@.take(i + 1).map_values(|c: char| crate_char(c)) =~= base@.take(i as int).map_values(
            |c: char| crate_char(c),
        ).push(crate_char(c)));
        i = i + 1;
    }
    assert(base@.take(n as int) =~= base@);
    let ms = mapped.as_str();
    let (lo, hi) = trim_char_bounds(ms, '_');
    let trimmed = ms.substring_char(lo, hi);
    let d = leading_digits_end(trimmed);
    let cleaned = substring(trimmed, d, trimmed.unicode_len());
    if cleaned.unicode_len() == 0 {
        let mut e = String::from_str("invalid package name derived from `");
        e.append(raw);
        e.append("`");
        return Err(e);
    }
    let first = cleaned.as_str().get_char(0);
    if !(first == '_' || char_is_ascii_alpha(first)) {
        let mut e = String::from_str("invalid package name `");
        e.append(cleaned.as_str());
        e.append("` from `");
        e.append(raw);
        e.append("`");
        return Err(e);
    }
    Ok(cleaned)
}

/// A name separator for type names.
pub open spec fn is_name_sep(c: char) -> bool {
    c == '-' || c == '_'
}

/// `snake-or-kebab` → `PascalCase`: separators dropped, the first character of
/// each part upper-cased.
pub open spec fn spec_to_type_name(s: Seq<char>) -> Seq<char>
    decreases s.len(),
{
    if s.len() == 0 {
        Seq::empty()
    } else {
        let prev = spec_to_type_name(s.drop_last());
        let c = s.last();
        if is_name_sep(c) {
            prev
        } else if s.len() == 1 || is_name_sep(s[s.len() - 2]) {
            prev.push(ascii_upper(c))
        } else {
            prev.push(c)
        }
    }
}

/// The snake-case form of a name: capitals made lowercase, with an underscore
/// before each capital that follows a lowercase letter or a digit.
pub open spec fn spec_to_snake_case(s: Seq<char>) -> Seq<char>
    decreases s.len(),
{
    if s.len() == 0 {
        Seq::empty()
    } else {
        let p = spec_to_snake_case(s.drop_last());
        let c = s.last();
        if 'A' <= c && c <= 'Z' {
            let prev = s[s.len() - 2];
            if s.len() >= 2 && (('a' <= prev && prev <= 'z') || is_ascii_digit(prev)) {
                p.push('_').push(ascii_lower(c))
            } else {
                p.push(ascii_lower(c))
            }
        } else {
            p.push(c)
        }
    }
}

/// `Welcome` → `welcome`, `UserCreated` → `user_created`.
pub fn to_snake_case(raw: &str) -> (r: String)
    ensures
        r@ == spec_to_snake_case(raw@),
{
    let n = raw.unicode_len();
    let mut out = String::new();
    let mut i: usize = 0;
    assert(raw@.take(0) =~= Seq::<char>::empty());
    while i < n
        invariant
            n == raw@.len(),
            i <= n,
            out@ == spec_to_snake_case(raw@.take(i as int)),
        decreases n - i,
    {
        let c = raw.get_char(i);
        let ghost t = raw@.take(i + 1);
        proof {
            assert(t.drop_last() =~= raw@.take(i as int));
            assert(t.last() == c);
            if i > 0 {
                assert(t[t.len() - 2] == raw@[i - 1]);
            }
        }
        if 'A' <= c && c <= 'Z' {
            if i > 0 {
                let prev = raw.get_char(i - 1);
                if ('a' <= prev && prev <= 'z') || char_is_ascii_digit(prev) {
                    push_char(&mut out, '_');
                }
            }
            push_char(&mut out, char_ascii_lower(c));
        } else {
            push_char(&mut out, c);
        }
        i = i + 1;
    }
    assert(raw@.take(n as int) =~= raw@);
    out
}

/// `blog_post` → `BlogPost`.
pub fn to_type_name(raw: &str) -> (r: String)
    ensures
        r@ == spec_to_type_name(raw@),
{
    let n = raw.unicode_len();
    let mut out = String::new();
    let mut i: usize = 0;
    assert(raw@.take(0) =~= Seq::<char>::empty());
    while i < n
        invariant
            n == raw@.len(),
            i <= n,
            out@ == spec_to_type_name(raw@.take(i as int)),
        decreases n - i,
    {
        let c = raw.get_char(i);
        let ghost t = raw@.take(i + 1);
        proof {
            assert(t.drop_last() =~= raw@.take(i as int));
            assert(t.last() == c);
            if i > 0 {
                assert(t[t.len() - 2] == raw@[i - 1]);
            }
        }
        if c == '-' || c == '_' {
        } else if i == 0 || raw.get_char(i - 1) == '-' || raw.get_char(i - 1) == '_' {
            push_char(&mut out, char_ascii_upper(c));
        } else {
            push_char(&mut out, c);
        }
        i = i + 1;
    }
    assert(raw@.take(n as int) =~= raw@);
    out
}

/// Days since 1970-01-01 → proleptic Gregorian `(year, month, day)` (civil-from-days).
pub open spec fn spec_civil_from_days(days: int) -> (int, int, int) {
    let z = days + 719468;
    let era = (if z >= 0 { z } else { z - 146096 }) / 146097;
    let doe = z - era * 146097;
    let yoe = (doe - doe / 1460 + doe / 36524 - doe / 146096) / 365;
    let y = yoe + era * 400;
    let doy = doe - (365 * yoe + yoe / 4 - yoe / 100);
    let mp = (5 * doy + 2) / 153;
    let d = doy - (153 * mp + 2) / 5 + 1;
    let m = if mp < 10 { mp + 3 } else { mp - 9 };
    (if m <= 2 { y + 1 } else { y }, m, d)
}

/// Within one 400-year era the year-of-era and day-of-year stay in range.
proof fn lemma_era_bounds(doe: u32)
    requires
        doe < 146097,
    ensures
        (doe - doe / 1460 + doe / 36524 - doe / 146096) / 365 <= 399,
        365 * ((doe - doe / 1460 + doe / 36524 - doe / 146096) / 365)
            + ((doe - doe / 1460 + doe / 36524 - doe / 146096) / 365) / 4
            - ((doe - doe / 1460 + doe / 36524 - doe / 146096) / 365) / 100 <= doe,
        doe - (365 * ((doe - doe / 1460 + doe / 36524 - doe / 146096) / 365)
            + ((doe - doe / 1460 + doe / 36524 - doe / 146096) / 365) / 4
            - ((doe - doe / 1460 + doe / 36524 - doe / 146096) / 365) / 100) <= 365,
{
    assert(doe < 146097 ==> (doe - doe / 1460 + doe / 36524 - doe / 146096) / 365 <= 399) by (bit_vector);
    assert(doe < 146097 ==> 365 * ((doe - doe / 1460 + doe / 36524 - doe / 146096) / 365)
        + ((doe - doe / 1460 + doe / 36524 - doe / 146096) / 365) / 4
        - ((doe - doe / 1460 + doe / 36524 - doe / 146096) / 365) / 100 <= doe) by (bit_vector);
    assert(doe < 146097 ==> doe - (365 * ((doe - doe / 1460 + doe / 36524 - doe / 146096) / 365)
        + ((doe - doe / 1460 + doe / 36524 - doe / 146096) / 365) / 4
        - ((doe - doe / 1460 + doe / 36524 - doe / 146096) / 365) / 100) <= 365) by (bit_vector);
}

/// Month index and day of month from a day of the (March-based) year.
proof fn lemma_month_bounds(doy: u32)
    requires
        doy <= 365,
    ensures
        (5 * doy + 2) / 153 <= 11,
        (153 * ((5 * doy + 2) / 153) + 2) / 5 <= doy,
        doy - (153 * ((5 * doy + 2) / 153) + 2) / 5 <= 30,
{
    assert(doy <= 365 ==> (5 * doy + 2) / 153 <= 11) by (bit_vector);
    assert(doy <= 365 ==> (153 * ((5 * doy + 2) / 153) + 2) / 5 <= doy) by (bit_vector);
    assert(doy <= 365 ==> doy - (153 * ((5 * doy + 2) / 153) + 2) / 5 <= 30) by (bit_vector);
}

/// Unix seconds → UTC `(year, month, day, hour, minute, second)`; the year is
/// truncated to `u32`.
pub fn civil_from_unix(secs: u64) -> (r: (u32, u32, u32, u32, u32, u32))
    ensures
        r == civil_from_unix_spec(secs),
        1 <= r.1 <= 12,
        1 <= r.2 <= 31,
{
    let ss = (secs % 60) as u32;
    let mins = secs / 60;
    let mm = (mins % 60) as u32;
    let hours = mins / 60;
    let hh = (hours % 24) as u32;
    let days_u = hours / 24;
    assert(hours == secs / 3600) by {
        vstd::arithmetic::div_mod::lemma_div_denominator(secs as int, 60, 60);
    }
    assert(days_u == secs / 86400) by {
        vstd::arithmetic::div_mod::lemma_div_denominator(secs as int, 3600, 24);
    }
    let z: u64 = days_u + 719468;
    let era: u64 = z / 146097;
    let doe: u64 = z - era * 146097;
    assert(doe < 146097);
    let x: u64 = doe - doe / 1460 + doe / 36524 - doe / 146096;
    let yoe: u64 = x / 365;
    proof {
        lemma_era_bounds(doe as u32);
    }
    let y: u64 = yoe + era * 400;
    let doy: u64 = doe - (365 * yoe + yoe / 4 - yoe / 100);
    proof {
        lemma_month_bounds(doy as u32);
    }
    let mp: u64 = (5 * doy + 2) / 153;
    let d: u64 = doy - (153 * mp + 2) / 5 + 1;
    let m: u64 = if mp < 10 { mp + 3 } else { mp - 9 };
    let year: u64 = if m <= 2 { y + 1 } else { y };
    let y32: u32 = (year % 0x1_0000_0000) as u32;
    (y32, m as u32, d as u32, hh, mm, ss)
}

/// `YYYYMMDD_HHMMSS` of a civil time, zero padded.
pub open spec fn spec_ymdhms(t: (u32, u32, u32, u32, u32, u32)) -> Seq<char> {
    padded_decimal(t.0 as nat, 4) + padded_decimal(t.1 as nat, 2) + padded_decimal(t.2 as nat, 2)
        + seq!['_'] + padded_decimal(t.3 as nat, 2) + padded_decimal(t.4 as nat, 2)
        + padded_decimal(t.5 as nat, 2)
}

/// UTC `YYYYMMDD_HHMMSS` for a Unix timestamp.
pub fn format_ymdhms(secs: u64) -> (r: String)
    ensures
        r@ == spec_ymdhms(civil_from_unix_spec(secs)),
{
    let t = civil_from_unix(secs);
    let mut out = String::new();
    push_padded_decimal(&mut out, t.0 as u64, 4);
    push_padded_decimal(&mut out, t.1 as u64, 2);
    push_padded_decimal(&mut out, t.2 as u64, 2);
    push_char(&mut out, '_');
    push_padded_decimal(&mut out, t.3 as u64, 2);
    push_padded_decimal(&mut out, t.4 as u64, 2);
    push_padded_decimal(&mut out, t.5 as u64, 2);
    out
}

/// The civil time `civil_from_unix` computes, as a spec value.
pub open spec fn civil_from_unix_spec(secs: u64) -> (u32, u32, u32, u32, u32, u32) {
    let c = spec_civil_from_days((secs / 86400) as int);
    let (y, m, d) = c;
    (
        (y % 0x1_0000_0000) as u32,
        m as u32,
        d as u32,
        ((secs / 3600) % 24) as u32,
        ((secs / 60) % 60) as u32,
        (secs % 60) as u32,
    )
}

/// The system clock's time type.
#[verifier::external_type_specification]
#[verifier::external_body]
pub struct ExSystemTime(std::time::SystemTime);

/// Reads the system clock: wraps `SystemTime::now`.
///
/// Trusted, and nothing is claimed of the value: it is the clock's reading.
#[verifier::external_body]
pub(crate) fn system_now() -> std::time::SystemTime {
    std::time::SystemTime::now()
}

/// Time since the Unix epoch: wraps `SystemTime::duration_since(UNIX_EPOCH)`,
/// with `None` for its error (a clock before the epoch).
///
/// Trusted, and nothing is claimed of the value.
#[verifier::external_body]
pub(crate) fn since_unix_epoch(t: std::time::SystemTime) -> Option<Duration> {
    t.duration_since(std::time::UNIX_EPOCH).ok()
}

/// Whole seconds of a duration: wraps `Duration::as_secs`.
///
/// Trusted, and nothing is claimed of the value.
#[verifier::external_body]
fn whole_secs(d: Duration) -> u64 {
    d.as_secs()
}

/// UTC `YYYYMMDD_HHMMSS` for the current time (migration stamps); the Unix
/// epoch when the clock reads earlier.
pub fn utc_ymdhms() -> (r: String)
    ensures
        exists|secs: u64| r@ == spec_ymdhms(#[trigger] civil_from_unix_spec(secs)),
{
    let secs = match since_unix_epoch(system_now()) {
        Some(d) => whole_secs(d),
        None => 0,
    };
    format_ymdhms(secs)
}

/// A type name holds no `-` or `_`.
pub proof fn law_type_name_has_no_separators(s: Seq<char>)
    ensures
        forall|i: int| 0 <= i < spec_to_type_name(s).len() ==> !is_name_sep(#[trigger] spec_to_type_name(s)[i]),
    decreases s.len(),
{
    if s.len() > 0 {
        law_type_name_has_no_separators(s.drop_last());
        let prev = spec_to_type_name(s.drop_last());
        let r = spec_to_type_name(s);
        assert forall|i: int| 0 <= i < r.len() implies !is_name_sep(#[trigger] r[i]) by {
            if i < prev.len() {
                assert(r[i] == prev[i]);
            }
        }
    }
}

/// Every character of `s` satisfies the package-name alphabet.
pub open spec fn crate_name_chars(s: Seq<char>) -> bool {
    forall|i: int| 0 <= i < s.len() ==> (#[trigger] s[i] == '-' || s[i] == '_' || is_ascii_alnum(s[i]))
}

/// Stripping from either end keeps the alphabet.
proof fn lemma_strip_keeps_chars(s: Seq<char>, c: char)
    requires
        crate_name_chars(s),
    ensures
        crate_name_chars(crate::text::strip_leading_char(s, c)),
        crate_name_chars(crate::text::strip_trailing_char(s, c)),
        crate_name_chars(strip_leading_digits(s)),
    decreases s.len(),
{
    if s.len() > 0 {
        assert(crate_name_chars(s.drop_first())) by {
            assert forall|i: int| 0 <= i < s.drop_first().len() implies (#[trigger] s.drop_first()[i] == '-'
                || s.drop_first()[i] == '_' || is_ascii_alnum(s.drop_first()[i])) by {
                assert(s.drop_first()[i] == s[i + 1]);
            }
        }
        assert(crate_name_chars(s.drop_last())) by {
            assert forall|i: int| 0 <= i < s.drop_last().len() implies (#[trigger] s.drop_last()[i] == '-'
                || s.drop_last()[i] == '_' || is_ascii_alnum(s.drop_last()[i])) by {
                assert(s.drop_last()[i] == s[i]);
            }
        }
        lemma_strip_keeps_chars(s.drop_first(), c);
        lemma_strip_keeps_chars(s.drop_last(), c);
    }
}

/// A derived package name is non-empty, starts with a letter or `_`, and holds
/// only ASCII letters, digits, `-` and `_`.
pub proof fn law_sanitized_name_shape(raw: Seq<char>)
    requires
        spec_sanitize_crate_name(raw) is Ok,
    ensures
        spec_sanitize_crate_name(raw)->Ok_0.len() > 0,
        spec_sanitize_crate_name(raw)->Ok_0[0] == '_' || is_ascii_alpha(spec_sanitize_crate_name(raw)->Ok_0[0]),
        crate_name_chars(spec_sanitize_crate_name(raw)->Ok_0),
{
    let base = match spec_file_name(raw) {
        Some(b) => b,
        None => raw,
    };
    let mapped = base.map_values(|c: char| crate_char(c));
    assert(crate_name_chars(mapped));
    lemma_strip_keeps_chars(mapped, '_');
    let lead = crate::text::strip_leading_char(mapped, '_');
    lemma_strip_keeps_chars(lead, '_');
    let trimmed = crate::text::strip_trailing_char(lead, '_');
    lemma_strip_keeps_chars(trimmed, '_');
}

} // verus!
