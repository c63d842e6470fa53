//! Human-readable sizes and durations (`"2 MiB"`, `"30s"`).
//!
//! The library checks the text and splits it into a decimal number (`12`,
//! `1.5`, `.5`, `2.`) and a unit; the value itself is floating-point
//! arithmetic and is computed by the caller.

use vstd::prelude::*;
use vstd::string::*;
use crate::text::{pow10, str_eq, trim, trim_ws};

verus! {

/// A decimal digit.
pub open spec fn is_digit(c: char) -> bool {
    '0' <= c && c <= '9'
}

/// Value of a decimal digit.
pub open spec fn digit_val(c: char) -> nat {
    (c as int - '0' as int) as nat
}

/// Value of a string of decimal digits.
pub open spec fn digits_value(s: Seq<char>) -> nat
    decreases s.len(),
{
    if s.len() == 0 {
        0
    } else {
        digits_value(s.drop_last()) * 10 + digit_val(s.last())
    }
}

/// Every character is a digit.
pub open spec fn all_digits(s: Seq<char>) -> bool {
    forall|i: int| 0 <= i < s.len() ==> is_digit(#[trigger] s[i])
}

/// Characters a number may hold.
pub open spec fn is_num_char(c: char) -> bool {
    is_digit(c) || c == '.'
}

/// Length of the leading run of number characters.
pub open spec fn num_prefix_len(s: Seq<char>) -> nat
    decreases s.len(),
{
    if s.len() > 0 && is_num_char(s[0]) {
        1 + num_prefix_len(s.drop_first())
    } else {
        0
    }
}

/// Number of `.` in `s`.
pub open spec fn count_dots(s: Seq<char>) -> nat
    decreases s.len(),
{
    if s.len() == 0 {
        0
    } else {
        count_dots(s.drop_last()) + (if s.last() == '.' { 1nat } else { 0nat })
    }
}

/// Position of the first `.`, or the length when there is none.
pub open spec fn dot_pos(s: Seq<char>) -> nat
    decreases s.len(),
{
    if s.len() == 0 || s[0] == '.' {
        0
    } else {
        1 + dot_pos(s.drop_first())
    }
}

/// A decimal number: digits with at most one `.`, and at least one digit.
pub open spec fn valid_number(num: Seq<char>) -> bool {
    &&& forall|i: int| 0 <= i < num.len() ==> is_num_char(#[trigger] num[i])
    &&& count_dots(num) <= 1
    &&& num.len() > count_dots(num)
}

/// Digits before the point.
pub open spec fn int_part(num: Seq<char>) -> Seq<char> {
    num.take(dot_pos(num) as int)
}

/// Digits after the point.
pub open spec fn frac_part(num: Seq<char>) -> Seq<char> {
    if dot_pos(num) < num.len() {
        num.skip(dot_pos(num) as int + 1)
    } else {
        Seq::empty()
    }
}

/// The number and unit a trimmed input splits into.
pub open spec fn num_of(s: Seq<char>) -> Seq<char> {
    s.take(num_prefix_len(s) as int)
}

/// The unit after the number, trimmed.
pub open spec fn unit_of(s: Seq<char>) -> Seq<char> {
    trim_ws(s.skip(num_prefix_len(s) as int))
}

/// Bytes per size unit.
pub open spec fn size_multiplier(unit: Seq<char>) -> Option<nat> {
    if unit == ""@ || unit == "b"@ || unit == "B"@ {
        Some(1)
    } else if unit == "k"@ || unit == "K"@ || unit == "kb"@ || unit == "KB"@ || unit == "KiB"@ {
        Some(1024)
    } else if unit == "m"@ || unit == "M"@ || unit == "mb"@ || unit == "MB"@ || unit == "MiB"@ {
        Some(1048576)
    } else if unit == "g"@ || unit == "G"@ || unit == "gb"@ || unit == "GB"@ || unit == "GiB"@ {
        Some(1073741824)
    } else {
        None
    }
}

/// The error for input with no leading number.
pub open spec fn missing_number_msg(s: Seq<char>) -> Seq<char> {
    "missing number in `"@ + s + "`"@
}

/// What `size_parts` gives: the number and the bytes per unit, or the
/// error (in the order: empty input, no leading number, a number that is not
/// a decimal, an unknown unit).
pub open spec fn spec_size_parts(input: Seq<char>) -> Result<(Seq<char>, nat), Seq<char>> {
    let s = trim_ws(input);
    if s.len() == 0 {
        Err("empty size"@)
    } else if num_prefix_len(s) == 0 {
        Err(missing_number_msg(s))
    } else if !valid_number(num_of(s)) {
        Err("invalid size number: "@ + num_of(s))
    } else {
        match size_multiplier(unit_of(s)) {
            None => Err("unknown size unit: "@ + unit_of(s)),
            Some(m) => Ok((num_of(s), m)),
        }
    }
}

/// The units a duration may be given in.
#[derive(Clone, Copy, Debug, PartialEq, Eq, Structural)]
pub enum DurationUnit {
    Seconds,
    Millis,
    Minutes,
    Hours,
}

/// The unit a duration suffix names.
pub open spec fn duration_unit_of(unit: Seq<char>) -> Option<DurationUnit> {
    if unit == ""@ || unit == "s"@ || unit == "sec"@ || unit == "secs"@ || unit == "second"@
        || unit == "seconds"@ {
        Some(DurationUnit::Seconds)
    } else if unit == "ms"@ || unit == "millis"@ || unit == "millisecond"@ || unit
        == "milliseconds"@ {
        Some(DurationUnit::Millis)
    } else if unit == "m"@ || unit == "min"@ || unit == "mins"@ || unit == "minute"@ || unit
        == "minutes"@ {
        Some(DurationUnit::Minutes)
    } else if unit == "h"@ || unit == "hr"@ || unit == "hour"@ || unit == "hours"@ {
        Some(DurationUnit::Hours)
    } else {
        None
    }
}

/// What `duration_parts` gives: the number and its unit, or the error (in the
/// order: empty input, no leading number, not a decimal, an unknown unit).
pub open spec fn spec_duration_parts(input: Seq<char>) -> Result<(Seq<char>, DurationUnit), Seq<char>> {
    let s = trim_ws(input);
    if s.len() == 0 {
        Err("empty duration"@)
    } else if num_prefix_len(s) == 0 {
        Err(missing_number_msg(s))
    } else if !valid_number(num_of(s)) {
        Err("invalid duration number: "@ + num_of(s))
    } else {
        match duration_unit_of(unit_of(s)) {
            None => Err("unknown duration unit: "@ + unit_of(s)),
            Some(u) => Ok((num_of(s), u)),
        }
    }
}

/// Executable digit test.
fn char_is_digit(c: char) -> (r: bool)
    ensures
        r == is_digit(c),
{
    '0' <= c && c <= '9'
}

/// Splitting a digit string into two parts.
pub proof fn lemma_digits_concat(a: Seq<char>, b: Seq<char>)
    ensures
        digits_value(a + b) == digits_value(a) * pow10(b.len()) + digits_value(b),
    decreases b.len(),
{
    if b.len() == 0 {
        assert(a + b =~= a);
        assert(pow10(0) == 1);
        assert(digits_value(a) * 1 == digits_value(a));
    } else {
        let bl = b.drop_last();
        lemma_digits_concat(a, bl);
        assert((a + b).drop_last() =~= a + bl);
        assert((a + b).last() == b.last());
        let x = digits_value(a);
        let p = pow10(bl.len());
        let y = digits_value(bl);
        let dl = digit_val(b.last());
        assert(pow10(b.len()) == 10 * p);
        assert(digits_value(a + bl) == x * p + y);
        assert(digits_value(a + b) == digits_value(a + bl) * 10 + dl);
        assert(digits_value(b) == y * 10 + dl);
        assert((x * p + y) * 10 + dl == x * (10 * p) + (y * 10 + dl)) by (nonlinear_arith);
    }
}


/// `10^n` is positive.
proof fn lemma_pow10_pos(n: nat)
    ensures
        pow10(n) >= 1,
    decreases n,
{
    if n > 0 {
        lemma_pow10_pos((n - 1) as nat);
    }
}

/// Scanning a valid number: dot position and dot count.
fn number_shape(num: &str) -> (r: (usize, usize))
    ensures
        r.0 == dot_pos(num@),
        r.1 == count_dots(num@),
        r.0 <= num@.len(),
{
    let n = num.unicode_len();
    let mut i: usize = 0;
    let mut dots: usize = 0;
    let mut first: usize = n;
    assert(num@.take(0) =~= Seq::<char>::empty());
    assert(num@.skip(0) =~= num@);
    while i < n
        invariant
            n == num@.len(),
            i <= n,
            dots == count_dots(num@.take(i as int)),
            dots <= i,
            first == n ==> dot_pos(num@) == i + dot_pos(num@.skip(i as int)),
            first < n ==> first == dot_pos(num@) && first < i,
            first <= n,
        decreases n - i,
    {
        let c = num.get_char(i);
        proof {
            assert(num@.take(i + 1).drop_last() =~= num@.take(i as int));
            if first == n {
                assert(num@.skip(i as int)[0] == c);
                assert(num@.skip(i as int).drop_first() =~= num@.skip(i + 1));
            }
        }
        if c == '.' {
            dots = dots + 1;
            if first == n {
                first = i;
            }
        }
        i = i + 1;
    }
    proof {
        assert(num@.take(n as int) =~= num@);
        if first == n {
            assert(num@.skip(n as int).len() == 0);
        }
    }
    (first, dots)
}

/// Split a trimmed string into its leading number and the trimmed unit after it.
fn split_num_unit<'a>(s: &'a str) -> (r: Result<(&'a str, &'a str), String>)
    ensures
        match r {
            Ok((num, unit)) => num_prefix_len(s@) > 0 && num@ == num_of(s@) && unit@ == unit_of(s@),
            Err(e) => num_prefix_len(s@) == 0 && e@ == missing_number_msg(s@),
        },
{
    let n = s.unicode_len();
    let mut end: usize = 0;
    assert(s@.skip(0) =~= s@);
    while end < n && (char_is_digit_or_dot(s.get_char(end)))
        invariant
            n == s@.len(),
            end <= n,
            num_prefix_len(s@) == end + num_prefix_len(s@.skip(end as int)),
        decreases n - end,
    {
        assert(s@.skip(end as int).drop_first() =~= s@.skip(end + 1));
        end = end + 1;
    }
    if end == 0 {
        let mut e = String::from_str("missing number in `");
        e.append(s);
        e.append("`");
        return Err(e);
    }
    let num = s.substring_char(0, end);
    let rest = s.substring_char(end, n);
    assert(rest@ =~= s@.skip(end as int));
    Ok((num, trim(rest)))
}

/// Executable number-character test.
fn char_is_digit_or_dot(c: char) -> (r: bool)
    ensures
        r == is_num_char(c),
{
    char_is_digit(c) || c == '.'
}

/// Every character of the number part is a number character.
proof fn lemma_num_chars(s: Seq<char>)
    ensures
        num_prefix_len(s) <= s.len(),
        forall|i: int| 0 <= i < num_prefix_len(s) ==> is_num_char(#[trigger] s[i]),
    decreases s.len(),
{
    if s.len() > 0 && is_num_char(s[0]) {
        lemma_num_chars(s.drop_first());
        assert forall|i: int| 0 <= i < num_prefix_len(s) implies is_num_char(#[trigger] s[i]) by {
            if i > 0 {
                assert(s[i] == s.drop_first()[i - 1]);
            }
        }
    }
}






/// Validity test and split of a number into whole and fractional digits.
fn number_parts<'a>(num: &'a str) -> (r: Option<(&'a str, &'a str)>)
    requires
        forall|i: int| 0 <= i < num@.len() ==> is_num_char(#[trigger] num@[i]),
    ensures
        r is Some <==> valid_number(num@),
        r matches Some((a, b)) ==> a@ == int_part(num@) && b@ == frac_part(num@),
{
    let (dp, dots) = number_shape(num);
    let n = num.unicode_len();
    if dots > 1 || n <= dots {
        return None;
    }
    let a = num.substring_char(0, dp);
    let b = if dp < n { num.substring_char(dp + 1, n) } else { num.substring_char(n, n) };
    proof {
        assert(b@ =~= frac_part(num@));
    }
    Some((a, b))
}

/// Split a size such as `"2 MiB"`, `"512 KiB"`, `"1024"`, `"1MB"` into its
/// decimal number and the bytes per unit (1, 1024, 1024², 1024³). Turning the
/// number into a count of bytes is floating-point arithmetic and is left to
/// the caller.
pub fn size_parts<'a>(input: &'a str) -> (r: Result<(&'a str, u64), String>)
    ensures
        match r {
            Ok((num, m)) => spec_size_parts(input@) == Ok::<(Seq<char>, nat), Seq<char>>((num@, m as nat)),
            Err(e) => spec_size_parts(input@) == Err::<(Seq<char>, nat), Seq<char>>(e@),
        },
{
    let s = trim(input);
    if s.unicode_len() == 0 {
        return Err(String::from_str("empty size"));
    }
    let (num, unit) = match split_num_unit(s) {
        Ok(p) => p,
        Err(e) => return Err(e),
    };
    proof {
        lemma_num_chars(s@);
        assert forall|i: int| 0 <= i < num@.len() implies is_num_char(#[trigger] num@[i]) by {
            assert(num@[i] == s@[i]);
        }
    }
    if number_parts(num).is_none() {
        let mut e = String::from_str("invalid size number: ");
        e.append(num);
        return Err(e);
    }
    let mult: u64 = if str_eq(unit, "") || str_eq(unit, "b") || str_eq(unit, "B") {
        1
    } else if str_eq(unit, "k") || str_eq(unit, "K") || str_eq(unit, "kb") || str_eq(unit, "KB")
        || str_eq(unit, "KiB") {
        1024
    } else if str_eq(unit, "m") || str_eq(unit, "M") || str_eq(unit, "mb") || str_eq(unit, "MB")
        || str_eq(unit, "MiB") {
        1048576
    } else if str_eq(unit, "g") || str_eq(unit, "G") || str_eq(unit, "gb") || str_eq(unit, "GB")
        || str_eq(unit, "GiB") {
        1073741824
    } else {
        let mut e = String::from_str("unknown size unit: ");
        e.append(unit);
        return Err(e);
    };
    Ok((num, mult))
}

/// Split a duration such as `"30s"`, `"5m"`, `"1h"`, `"500ms"` into its decimal
/// number and its unit. Turning them into a `Duration` is floating-point
/// arithmetic and is left to the caller.
pub fn duration_parts<'a>(input: &'a str) -> (r: Result<(&'a str, DurationUnit), String>)
    ensures
        match r {
            Ok((num, u)) => spec_duration_parts(input@) == Ok::<(Seq<char>, DurationUnit), Seq<char>>((num@, u)),
            Err(e) => spec_duration_parts(input@) == Err::<(Seq<char>, DurationUnit), Seq<char>>(e@),
        },
{
    let s = trim(input);
    if s.unicode_len() == 0 {
        return Err(String::from_str("empty duration"));
    }
    let (num, unit) = match split_num_unit(s) {
        Ok(p) => p,
        Err(e) => return Err(e),
    };
    proof {
        lemma_num_chars(s@);
        assert forall|i: int| 0 <= i < num@.len() implies is_num_char(#[trigger] num@[i]) by {
            assert(num@[i] == s@[i]);
        }
    }
    if number_parts(num).is_none() {
        let mut e = String::from_str("invalid duration number: ");
        e.append(num);
        return Err(e);
    }
    let u = if str_eq(unit, "") || str_eq(unit, "s") || str_eq(unit, "sec") || str_eq(unit, "secs")
        || str_eq(unit, "second") || str_eq(unit, "seconds") {
        DurationUnit::Seconds
    } else if str_eq(unit, "ms") || str_eq(unit, "millis") || str_eq(unit, "millisecond") || str_eq(
        unit,
        "milliseconds",
    ) {
        DurationUnit::Millis
    } else if str_eq(unit, "m") || str_eq(unit, "min") || str_eq(unit, "mins") || str_eq(unit, "minute")
        || str_eq(unit, "minutes") {
        DurationUnit::Minutes
    } else if str_eq(unit, "h") || str_eq(unit, "hr") || str_eq(unit, "hour") || str_eq(unit, "hours") {
        DurationUnit::Hours
    } else {
        let mut e = String::from_str("unknown duration unit: ");
        e.append(unit);
        return Err(e);
    };
    Ok((num, u))
}

/// `usize::from_str`: an optional `+`, then decimal digits only, with a value
/// that fits `usize`.
pub open spec fn spec_parse_usize(s: Seq<char>) -> Option<nat> {
    let d = if s.len() > 0 && s[0] == '+' { s.drop_first() } else { s };
    if d.len() == 0 || !all_digits(d) || digits_value(d) > usize::MAX {
        None
    } else {
        Some(digits_value(d))
    }
}

/// Parse a `usize` the way `str::parse::<usize>` does.
pub fn parse_usize(s: &str) -> (r: Option<usize>)
    ensures
        match r {
            Some(n) => spec_parse_usize(s@) == Some(n as nat),
            None => spec_parse_usize(s@) is None,
        },
{
    let n = s.unicode_len();
    let start: usize = if n > 0 && s.get_char(0) == '+' { 1 } else { 0 };
    let ghost d = if s@.len() > 0 && s@[0] == '+' { s@.drop_first() } else { s@ };
    assert(d =~= s@.subrange(start as int, n as int));
    if start == n {
        return None;
    }
    let mut acc: usize = 0;
    let mut i: usize = start;
    assert(d.take(0) =~= Seq::<char>::empty());
    while i < n
        invariant
            n == s@.len(),
            start <= i <= n,
            d =~= s@.subrange(start as int, n as int),
            d == (if s@.len() > 0 && s@[0] == '+' { s@.drop_first() } else { s@ }),
            all_digits(d.take(i - start)),
            acc as nat == digits_value(d.take(i - start)),
        decreases n - i,
    {
        let c = s.get_char(i);
        let ghost k = i - start;
        assert(d[k] == c);
        assert(d.take(k + 1).drop_last() =~= d.take(k));
        if !(c >= '0' && c <= '9') {
            assert(!all_digits(d));
            return None;
        }
        let dv = (c as u32 - '0' as u32) as usize;
        assert(digits_value(d.take(k + 1)) == digits_value(d.take(k)) * 10 + dv);
        if acc > (usize::MAX - dv) / 10 {
            proof {
                assert(digits_value(d.take(k + 1)) > usize::MAX) by (nonlinear_arith)
                    requires acc > (usize::MAX - dv) / 10, digits_value(d.take(k + 1)) == acc * 10 + dv, dv <= 9;
                if all_digits(d) {
                    lemma_digits_concat(d.take(k + 1), d.skip(k + 1));
                    assert(d.take(k + 1) + d.skip(k + 1) =~= d);
                    lemma_pow10_pos(d.skip(k + 1).len());
                    assert(digits_value(d) >= digits_value(d.take(k + 1))) by (nonlinear_arith)
                        requires digits_value(d) == digits_value(d.take(k + 1)) * pow10(d.skip(k + 1).len()) + digits_value(d.skip(k + 1)),
                            pow10(d.skip(k + 1).len()) >= 1;
                }
            }
            return None;
        }
        assert(acc * 10 + dv <= usize::MAX) by (nonlinear_arith)
            requires acc <= (usize::MAX - dv) / 10, dv <= 9;
        acc = acc * 10 + dv;
        assert(all_digits(d.take(k + 1))) by {
            assert forall|j: int| 0 <= j < k + 1 implies is_digit(#[trigger] d.take(k + 1)[j]) by {
                if j < k {
                    assert(d.take(k + 1)[j] == d.take(k)[j]);
                }
            }
        }
        i = i + 1;
    }
    assert(d.take(n - start) =~= d);
    Some(acc)
}

/// The words that name each duration unit.
pub open spec fn duration_unit_words(u: DurationUnit) -> Seq<Seq<char>> {
    match u {
        DurationUnit::Seconds => seq![""@, "s"@, "sec"@, "secs"@, "second"@, "seconds"@],
        DurationUnit::Millis => seq!["ms"@, "millis"@, "millisecond"@, "milliseconds"@],
        DurationUnit::Minutes => seq!["m"@, "min"@, "mins"@, "minute"@, "minutes"@],
        DurationUnit::Hours => seq!["h"@, "hr"@, "hour"@, "hours"@],
    }
}

/// A duration suffix names a unit exactly when it is one of that unit's words
/// (`h`, `hr`, `hour`, `hours` are hours; `m`, `min`, ... minutes; and so
/// on), so no word names two units; any other suffix names none.
pub proof fn law_duration_unit_words(unit: Seq<char>, u: DurationUnit)
    ensures
        (duration_unit_of(unit) == Some(u)) == duration_unit_words(u).contains(unit),
        duration_unit_of(unit) is None == (forall|v: DurationUnit| !#[trigger] duration_unit_words(v).contains(unit)),
{
    reveal_strlit("");
    reveal_strlit("s");
    reveal_strlit("sec");
    reveal_strlit("secs");
    reveal_strlit("second");
    reveal_strlit("seconds");
    reveal_strlit("ms");
    reveal_strlit("millis");
    reveal_strlit("millisecond");
    reveal_strlit("milliseconds");
    reveal_strlit("m");
    reveal_strlit("min");
    reveal_strlit("mins");
    reveal_strlit("minute");
    reveal_strlit("minutes");
    reveal_strlit("h");
    reveal_strlit("hr");
    reveal_strlit("hour");
    reveal_strlit("hours");
    let ws = duration_unit_words(DurationUnit::Seconds);
    let wm = duration_unit_words(DurationUnit::Millis);
    let wn = duration_unit_words(DurationUnit::Minutes);
    let wh = duration_unit_words(DurationUnit::Hours);
    assert(ws.contains(unit) == (unit == ws[0] || unit == ws[1] || unit == ws[2] || unit == ws[3] || unit == ws[4] || unit == ws[5]));
    assert(wm.contains(unit) == (unit == wm[0] || unit == wm[1] || unit == wm[2] || unit == wm[3]));
    assert(wn.contains(unit) == (unit == wn[0] || unit == wn[1] || unit == wn[2] || unit == wn[3] || unit == wn[4]));
    assert(wh.contains(unit) == (unit == wh[0] || unit == wh[1] || unit == wh[2] || unit == wh[3]));
    assert(ws[0] == ""@ && ws[1] == "s"@ && ws[2] == "sec"@ && ws[3] == "secs"@ && ws[4] == "second"@ && ws[5] == "seconds"@);
    assert(wm[0] == "ms"@ && wm[1] == "millis"@ && wm[2] == "millisecond"@ && wm[3] == "milliseconds"@);
    assert(wn[0] == "m"@ && wn[1] == "min"@ && wn[2] == "mins"@ && wn[3] == "minute"@ && wn[4] == "minutes"@);
    assert(wh[0] == "h"@ && wh[1] == "hr"@ && wh[2] == "hour"@ && wh[3] == "hours"@);
    if unit.len() > 0 {
        assert(unit[0] == unit[0] && unit[unit.len() - 1] == unit[unit.len() - 1]);
    }
    assert("s"@[0] == 's' && "s"@[0] == 's');
    assert("sec"@[0] == 's' && "sec"@[2] == 'c');
    assert("secs"@[0] == 's' && "secs"@[3] == 's');
    assert("second"@[0] == 's' && "second"@[5] == 'd');
    assert("seconds"@[0] == 's' && "seconds"@[6] == 's');
    assert("ms"@[0] == 'm' && "ms"@[1] == 's');
    assert("millis"@[0] == 'm' && "millis"@[5] == 's');
    assert("millisecond"@[0] == 'm' && "millisecond"@[10] == 'd');
    assert("milliseconds"@[0] == 'm' && "milliseconds"@[11] == 's');
    assert("m"@[0] == 'm' && "m"@[0] == 'm');
    assert("min"@[0] == 'm' && "min"@[2] == 'n');
    assert("mins"@[0] == 'm' && "mins"@[3] == 's');
    assert("minute"@[0] == 'm' && "minute"@[5] == 'e');
    assert("minutes"@[0] == 'm' && "minutes"@[6] == 's');
    assert("h"@[0] == 'h' && "h"@[0] == 'h');
    assert("hr"@[0] == 'h' && "hr"@[1] == 'r');
    assert("hour"@[0] == 'h' && "hour"@[3] == 'r');
    assert("hours"@[0] == 'h' && "hours"@[4] == 's');
    if ws.contains(unit) {
        assert(!wm.contains(unit) && !wn.contains(unit) && !wh.contains(unit));
    }
    if wm.contains(unit) {
        assert(!wn.contains(unit) && !wh.contains(unit));
    }
    if wn.contains(unit) {
        assert(!wh.contains(unit));
    }
    if duration_unit_of(unit) is None {
        assert forall|v: DurationUnit| !#[trigger] duration_unit_words(v).contains(unit) by {
            match v {
                DurationUnit::Seconds => {},
                DurationUnit::Millis => {},
                DurationUnit::Minutes => {},
                DurationUnit::Hours => {},
            }
        }
    } else {
        let v = duration_unit_of(unit)->Some_0;
        assert(duration_unit_words(v).contains(unit));
    }
}

/// The words that name each size unit, by the bytes it stands for.
pub open spec fn size_unit_words(bytes: nat) -> Seq<Seq<char>> {
    if bytes == 1 {
        seq![""@, "b"@, "B"@]
    } else if bytes == 1024 {
        seq!["k"@, "K"@, "kb"@, "KB"@, "KiB"@]
    } else if bytes == 1048576 {
        seq!["m"@, "M"@, "mb"@, "MB"@, "MiB"@]
    } else if bytes == 1073741824 {
        seq!["g"@, "G"@, "gb"@, "GB"@, "GiB"@]
    } else {
        Seq::empty()
    }
}

/// A size suffix stands for `bytes` per unit exactly when it is one of the
/// words of that unit (bytes; KiB = 1024; MiB = 1024²; GiB = 1024³); any
/// other suffix is no unit.
pub proof fn law_size_unit_words(unit: Seq<char>, bytes: nat)
    ensures
        (size_multiplier(unit) == Some(bytes)) == size_unit_words(bytes).contains(unit),
        size_multiplier(unit) is None == (forall|n: nat| !#[trigger] size_unit_words(n).contains(unit)),
{
    reveal_strlit("");
    reveal_strlit("b");
    reveal_strlit("B");
    reveal_strlit("k");
    reveal_strlit("K");
    reveal_strlit("kb");
    reveal_strlit("KB");
    reveal_strlit("KiB");
    reveal_strlit("m");
    reveal_strlit("M");
    reveal_strlit("mb");
    reveal_strlit("MB");
    reveal_strlit("MiB");
    reveal_strlit("g");
    reveal_strlit("G");
    reveal_strlit("gb");
    reveal_strlit("GB");
    reveal_strlit("GiB");
    if unit.len() > 0 {
        assert(unit[0] == unit[0] && unit[unit.len() - 1] == unit[unit.len() - 1]);
    }
    assert("b"@[0] == 'b' && "b"@[0] == 'b');
    assert("B"@[0] == 'B' && "B"@[0] == 'B');
    assert("k"@[0] == 'k' && "k"@[0] == 'k');
    assert("K"@[0] == 'K' && "K"@[0] == 'K');
    assert("kb"@[0] == 'k' && "kb"@[1] == 'b');
    assert("KB"@[0] == 'K' && "KB"@[1] == 'B');
    assert("KiB"@[0] == 'K' && "KiB"@[2] == 'B');
    assert("m"@[0] == 'm' && "m"@[0] == 'm');
    assert("M"@[0] == 'M' && "M"@[0] == 'M');
    assert("mb"@[0] == 'm' && "mb"@[1] == 'b');
    assert("MB"@[0] == 'M' && "MB"@[1] == 'B');
    assert("MiB"@[0] == 'M' && "MiB"@[2] == 'B');
    assert("g"@[0] == 'g' && "g"@[0] == 'g');
    assert("G"@[0] == 'G' && "G"@[0] == 'G');
    assert("gb"@[0] == 'g' && "gb"@[1] == 'b');
    assert("GB"@[0] == 'G' && "GB"@[1] == 'B');
    assert("GiB"@[0] == 'G' && "GiB"@[2] == 'B');
    let w1 = size_unit_words(1);
    let wk = size_unit_words(1024);
    let wm = size_unit_words(1048576);
    let wg = size_unit_words(1073741824);
    assert(w1.contains(unit) == (unit == w1[0] || unit == w1[1] || unit == w1[2]));
    assert(wk.contains(unit) == (unit == wk[0] || unit == wk[1] || unit == wk[2] || unit == wk[3] || unit == wk[4]));
    assert(wm.contains(unit) == (unit == wm[0] || unit == wm[1] || unit == wm[2] || unit == wm[3] || unit == wm[4]));
    assert(wg.contains(unit) == (unit == wg[0] || unit == wg[1] || unit == wg[2] || unit == wg[3] || unit == wg[4]));
    if w1.contains(unit) {
        assert(!wk.contains(unit) && !wm.contains(unit) && !wg.contains(unit));
    }
    if wk.contains(unit) {
        assert(!wm.contains(unit) && !wg.contains(unit));
    }
    if wm.contains(unit) {
        assert(!wg.contains(unit));
    }
    assert(Seq::<Seq<char>>::empty().contains(unit) == false);
    if size_multiplier(unit) is None {
        assert forall|n: nat| !#[trigger] size_unit_words(n).contains(unit) by {
            if n != 1 && n != 1024 && n != 1048576 && n != 1073741824 {
                assert(size_unit_words(n) =~= Seq::<Seq<char>>::empty());
            }
        }
    } else {
        let n = size_multiplier(unit)->Some_0;
        assert(size_unit_words(n).contains(unit));
    }
}

} // verus!
