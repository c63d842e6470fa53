//! Editing parsed TOML documents: taking, setting and appending entries, with
//! each edit stated over the documents' mathematical form.

use vstd::prelude::*;
use vstd::string::*;
use crate::config::{entries_view, items_view, table_get, value_view, ConfigValue, TomlView};
use crate::manifest::strs_view;
use crate::text::str_eq;

verus! {

/// The value under `key` in a table's entries (a later entry wins).
pub open spec fn view_get(t: Seq<(Seq<char>, TomlView)>, key: Seq<char>) -> Option<TomlView>
    decreases t.len(),
{
    if t.len() == 0 {
        None
    } else if t.last().0 == key {
        Some(t.last().1)
    } else {
        view_get(t.drop_last(), key)
    }
}

/// The entries other than those under `key`, in order.
pub open spec fn view_without(t: Seq<(Seq<char>, TomlView)>, key: Seq<char>) -> Seq<(Seq<char>, TomlView)>
    decreases t.len(),
{
    if t.len() == 0 {
        Seq::empty()
    } else if t.last().0 == key {
        view_without(t.drop_last(), key)
    } else {
        view_without(t.drop_last(), key).push(t.last())
    }
}

/// The entries with `key` set to `v`: earlier entries under `key` dropped and
/// the new one last.
pub open spec fn view_put(t: Seq<(Seq<char>, TomlView)>, key: Seq<char>, v: TomlView) -> Seq<(Seq<char>, TomlView)> {
    view_without(t, key).push((key, v))
}

/// String values for texts.
pub open spec fn str_values(fs: Seq<Seq<char>>) -> Seq<TomlView> {
    fs.map_values(|f: Seq<char>| TomlView::Str(f))
}

/// Looking a key up commutes with taking the mathematical form.
pub proof fn lemma_get_view(t: Seq<(String, ConfigValue)>, key: Seq<char>)
    ensures
        view_get(entries_view(t), key) == match table_get(t, key) {
            Some(v) => Some(value_view(v)),
            None => None::<TomlView>,
        },
    decreases t.len(),
{
    if t.len() > 0 {
        lemma_get_view(t.drop_last(), key);
        assert(entries_view(t).drop_last() =~= entries_view(t.drop_last()));
    }
}

/// The form of a table with one more entry.
pub proof fn lemma_entries_push(t: Seq<(String, ConfigValue)>, e: (String, ConfigValue))
    ensures
        entries_view(t.push(e)) == entries_view(t).push((e.0@, value_view(e.1))),
{
    assert(t.push(e).drop_last() =~= t);
}

/// The form of an array with one more item.
proof fn lemma_items_push(a: Seq<ConfigValue>, x: ConfigValue)
    ensures
        items_view(a.push(x)) == items_view(a).push(value_view(x)),
{
    assert(a.push(x).drop_last() =~= a);
}

/// Split a table's entries into those not under `key` and the value under it
/// (the later entry wins).
pub fn take_entry(t: Vec<(String, ConfigValue)>, key: &str) -> (r: (Vec<(String, ConfigValue)>, Option<ConfigValue>))
    ensures
        entries_view(r.0@) == view_without(entries_view(t@), key@),
        r.1 == table_get(t@, key@),
{
    let ghost orig = t@;
    let mut t = t;
    let mut rest: Vec<(String, ConfigValue)> = Vec::new();
    let mut found: Option<ConfigValue> = None;
    let ghost mut i: int = 0;
    assert(orig.take(0) =~= Seq::<(String, ConfigValue)>::empty());
    assert(orig.skip(0) =~= orig);
    while t.len() > 0
        invariant
            0 <= i <= orig.len(),
            t@ == orig.skip(i),
            entries_view(rest@) == view_without(entries_view(orig.take(i)), key@),
            found == table_get(orig.take(i), key@),
        decreases t@.len(),
    {
        let ghost pre = orig.take(i);
        let ghost rest_before = rest@;
        let (k, v) = t.remove(0);
        proof {
            assert(orig.take(i + 1).drop_last() =~= pre);
            assert(orig.take(i + 1).last() == (k, v));
            assert(orig.skip(i + 1) =~= orig.skip(i).subrange(1, orig.skip(i).len() as int));
            lemma_entries_push(pre, (k, v));
            assert(pre.push((k, v)) =~= orig.take(i + 1));
            assert(entries_view(pre).push((k@, value_view(v))).drop_last() =~= entries_view(pre));
        }
        if str_eq(k.as_str(), key) {
            found = Some(v);
        } else {
            proof {
                lemma_entries_push(rest_before, (k, v));
            }
            rest.push((k, v));
        }
        proof {
            i = i + 1;
        }
    }
    assert(orig.take(orig.len() as int) =~= orig);
    (rest, found)
}

/// Set `key` to `v` in a table's entries.
pub fn set_entry(t: Vec<(String, ConfigValue)>, key: &str, v: ConfigValue) -> (r: Vec<(String, ConfigValue)>)
    ensures
        entries_view(r@) == view_put(entries_view(t@), key@, value_view(v)),
{
    let (mut rest, _) = take_entry(t, key);
    let k = String::from_str(key);
    proof {
        lemma_entries_push(rest@, (k, v));
    }
    rest.push((k, v));
    rest
}

/// Append a string value for each text of `add`.
pub fn push_strs(a: Vec<ConfigValue>, add: &Vec<&str>) -> (r: Vec<ConfigValue>)
    ensures
        items_view(r@) == items_view(a@) + str_values(strs_view(add@)),
{
    let ghost fs = strs_view(add@);
    let mut out = a;
    let ghost base = items_view(out@);
    let mut i: usize = 0;
    assert(str_values(fs.take(0)) =~= Seq::<TomlView>::empty());
    assert(base + str_values(fs.take(0)) =~= base);
    while i < add.len()
        invariant
            fs == strs_view(add@),
            i <= add@.len(),
            items_view(out@) == base + str_values(fs.take(i as int)),
        decreases add@.len() - i,
    {
        let x = ConfigValue::Str(String::from_str(add[i]));
        proof {
            lemma_items_push(out@, x);
            assert(str_values(fs.take(i + 1)) =~= str_values(fs.take(i as int)).push(TomlView::Str(add@[i as int]@)));
            assert(value_view(x) == TomlView::Str(add@[i as int]@));
        }
        out.push(x);
        proof {
            assert(base + str_values(fs.take(i + 1)) =~= (base + str_values(fs.take(i as int))).push(TomlView::Str(add@[i as int]@)));
        }
        i = i + 1;
    }
    assert(fs.take(add@.len() as int) =~= fs);
    out
}

/// How many times `x` occurs in `s`.
pub open spec fn count_in<A>(s: Seq<A>, x: A) -> nat
    decreases s.len(),
{
    if s.len() == 0 {
        0
    } else {
        count_in(s.drop_last(), x) + if s.last() == x {
            1nat
        } else {
            0nat
        }
    }
}

/// Counting over a concatenation adds the counts.
pub proof fn lemma_count_concat<A>(s: Seq<A>, t: Seq<A>, x: A)
    ensures
        count_in(s + t, x) == count_in(s, x) + count_in(t, x),
    decreases t.len(),
{
    if t.len() > 0 {
        lemma_count_concat(s, t.drop_last(), x);
        assert((s + t).drop_last() =~= s + t.drop_last());
    }
}

/// An element counted zero times does not occur, and conversely.
pub proof fn lemma_count_zero<A>(s: Seq<A>, x: A)
    ensures
        (count_in(s, x) == 0) == !s.contains(x),
    decreases s.len(),
{
    if s.len() > 0 {
        lemma_count_zero(s.drop_last(), x);
        if s.drop_last().contains(x) {
            let k = choose|k: int| 0 <= k < s.drop_last().len() && s.drop_last()[k] == x;
            assert(s[k] == x);
        }
        if s.contains(x) && s.last() != x {
            let k = choose|k: int| 0 <= k < s.len() && s[k] == x;
            assert(s.drop_last()[k] == x);
        }
    }
}

/// String values count as their texts do.
pub proof fn lemma_count_str_values(fs: Seq<Seq<char>>, f: Seq<char>)
    ensures
        count_in(str_values(fs), TomlView::Str(f)) == count_in(fs, f),
    decreases fs.len(),
{
    if fs.len() > 0 {
        lemma_count_str_values(fs.drop_last(), f);
        assert(str_values(fs).drop_last() =~= str_values(fs.drop_last()));
    }
}

/// Entries without `key` hold nothing under it and keep every other key.
pub proof fn lemma_without_get(t: Seq<(Seq<char>, TomlView)>, key: Seq<char>, k: Seq<char>)
    ensures
        view_get(view_without(t, key), k) == if k == key {
            None::<TomlView>
        } else {
            view_get(t, k)
        },
    decreases t.len(),
{
    if t.len() > 0 {
        lemma_without_get(t.drop_last(), key, k);
        if t.last().0 != key {
            assert(view_without(t, key).drop_last() =~= view_without(t.drop_last(), key));
        }
    }
}

/// After setting `key` to `v`, looking `key` up gives `v` and every other key
/// gives what it gave before.
pub proof fn law_put_get(t: Seq<(Seq<char>, TomlView)>, key: Seq<char>, v: TomlView, k: Seq<char>)
    ensures
        view_get(view_put(t, key, v), k) == if k == key {
            Some(v)
        } else {
            view_get(t, k)
        },
{
    lemma_without_get(t, key, k);
    assert(view_put(t, key, v).drop_last() =~= view_without(t, key));
}

/// An array's form has its length, item for item.
pub proof fn lemma_items_index(s: Seq<ConfigValue>)
    ensures
        items_view(s).len() == s.len(),
        forall|i: int| 0 <= i < s.len() ==> #[trigger] items_view(s)[i] == value_view(s[i]),
    decreases s.len(),
{
    if s.len() > 0 {
        lemma_items_index(s.drop_last());
    }
}

} // verus!
