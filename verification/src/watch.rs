//! Which changed files make `cargo sovax dev` rebuild.

use vstd::prelude::*;
use vstd::string::*;
use crate::text::{
    eq_ignore_ascii_case, is_prefix, is_suffix, str_ends_with, str_eq, str_eq_ignore_ascii_case,
    str_starts_with,
};
use crate::path::{lemma_segments_nonempty, segments};
use crate::util::{file_name_bounds, kept_component, last_kept, spec_file_name};

verus! {

/// `Path::extension` of a file name is `rs`: a final `.rs` that is not the
/// whole name (a name that starts with its only `.` has no extension).
pub open spec fn has_rs_extension(name: Seq<char>) -> bool {
    name.len() > 3 && is_suffix(".rs"@, name)
}

/// The file names that trigger a rebuild.
pub open spec fn relevant_name(name: Seq<char>) -> bool {
    name == "Cargo.toml"@ || name == "Cargo.lock"@ || eq_ignore_ascii_case(name, "sova.toml"@)
        || name == ".env"@ || is_prefix(".env."@, name) || has_rs_extension(name)
}

/// Whether a change to `path` should trigger a rebuild: manifests, `sova.toml`
/// (any case), `.env` / `.env.*` and Rust sources; never a path without a file name.
pub open spec fn spec_path_relevant(path: Seq<char>) -> bool {
    match spec_file_name(path) {
        Some(name) => relevant_name(name),
        None => false,
    }
}

/// Whether a change to `path` should trigger a rebuild.
pub fn path_relevant(path: &str) -> (r: bool)
    ensures
        r == spec_path_relevant(path@),
{
    let name = match file_name_bounds(path) {
        Some((a, b)) => path.substring_char(a, b),
        None => {
            return false;
        },
    };
    if str_eq(name, "Cargo.toml") || str_eq(name, "Cargo.lock") {
        return true;
    }
    if str_eq_ignore_ascii_case(name, "sova.toml") {
        return true;
    }
    if str_eq(name, ".env") || str_starts_with(name, ".env.") {
        return true;
    }
    name.unicode_len() > 3 && str_ends_with(name, ".rs")
}

/// Appending a name without `/` extends the last segment.
proof fn lemma_segments_append_name(p: Seq<char>, name: Seq<char>)
    requires
        !name.contains('/'),
    ensures
        segments(p + name).len() == segments(p).len(),
        segments(p + name).drop_last() == segments(p).drop_last(),
        segments(p + name).last() == segments(p).last() + name,
    decreases name.len(),
{
    lemma_segments_nonempty(p);
    if name.len() == 0 {
        assert(p + name =~= p);
        assert(segments(p).last() + name =~= segments(p).last());
    } else {
        let n1 = name.drop_last();
        assert(!n1.contains('/')) by {
            if n1.contains('/') {
                let k = choose|k: int| 0 <= k < n1.len() && n1[k] == '/';
                assert(name[k] == '/');
            }
        }
        lemma_segments_append_name(p, n1);
        let c = name.last();
        assert(c != '/') by {
            assert(name[name.len() - 1] == c);
        }
        assert((p + name).drop_last() =~= p + n1);
        assert((p + name).last() == c);
        lemma_segments_nonempty(p + n1);
        let prev = segments(p + n1);
        assert(segments(p + name) == prev.update(prev.len() - 1, prev.last().push(c)));
        assert(segments(p + name).drop_last() =~= prev.drop_last());
        assert(segments(p).last() + n1.push(c) =~= (segments(p).last() + n1).push(c));
        assert(n1.push(c) =~= name);
    }
}

/// A change to a Rust source file `dir/name.rs` always triggers a rebuild.
pub proof fn law_rust_sources_are_relevant(dir: Seq<char>, name: Seq<char>)
    requires
        !name.contains('/'),
        has_rs_extension(name),
    ensures
        spec_path_relevant(dir + "/"@ + name),
{
    reveal_strlit("/");
    reveal_strlit(".");
    reveal_strlit("..");
    let d = dir + "/"@;
    assert(d.last() == '/');
    assert(d.drop_last() =~= dir);
    assert(segments(d) == segments(dir).push(Seq::<char>::empty()));
    lemma_segments_append_name(d, name);
    let segs = segments(d + name);
    assert(segs.last() =~= name);
    assert(kept_component(name)) by {
        assert(name.len() != seq!['.'].len());
    }
    assert(segs.drop_last().push(segs.last()) =~= segs);
    assert(last_kept(segs) == Some(name));
    assert(name != seq!['.', '.']) by {
        assert(name.len() != 2);
    }
}

/// The kinds of file-system events the watcher reports.
#[derive(Clone, Copy, Debug, PartialEq, Eq, Structural)]
pub enum ChangeKind {
    Modify,
    Create,
    Remove,
    /// Access, metadata-only and other events.
    Other,
}

/// An event triggers a rebuild: a modification, creation or removal of some
/// relevant path.
pub open spec fn spec_event_relevant(kind: ChangeKind, paths: Seq<Seq<char>>) -> bool {
    kind != ChangeKind::Other && exists|i: int| 0 <= i < paths.len() && spec_path_relevant(#[trigger] paths[i])
}

/// Whether a file-system event should trigger a rebuild.
pub fn event_relevant(kind: ChangeKind, paths: &Vec<String>) -> (r: bool)
    ensures
        r == spec_event_relevant(kind, crate::text::strings_view(paths@)),
{
    let ghost ps = crate::text::strings_view(paths@);
    if kind == ChangeKind::Other {
        return false;
    }
    let mut i: usize = 0;
    while i < paths.len()
        invariant
            ps == crate::text::strings_view(paths@),
            kind != ChangeKind::Other,
            i <= paths@.len(),
            forall|k: int| 0 <= k < i ==> !spec_path_relevant(#[trigger] ps[k]),
        decreases paths@.len() - i,
    {
        if path_relevant(paths[i].as_str()) {
            assert(spec_path_relevant(ps[i as int]));
            return true;
        }
        i = i + 1;
    }
    false
}

/// Milliseconds a change waits for quiet before the rebuild.
pub const DEBOUNCE_MS: u64 = 300;

/// One tick of the debounce: a relevant event (re)starts the wait; once the
/// last one is `DEBOUNCE_MS` old, fire and clear. Times are milliseconds.
pub open spec fn spec_debounce(pending: Option<u64>, relevant_event: bool, now: u64) -> (Option<u64>, bool) {
    let p = if relevant_event { Some(now) } else { pending };
    match p {
        Some(t) => if now >= t && now - t >= DEBOUNCE_MS {
            (None, true)
        } else {
            (p, false)
        },
        None => (None, false),
    }
}

/// Advance the debounce: the new pending time and whether to rebuild now.
pub fn debounce_step(pending: Option<u64>, relevant_event: bool, now: u64) -> (r: (Option<u64>, bool))
    ensures
        r == spec_debounce(pending, relevant_event, now),
{
    let p = if relevant_event { Some(now) } else { pending };
    match p {
        Some(t) => if now >= t && now - t >= DEBOUNCE_MS {
            (None, true)
        } else {
            (p, false)
        },
        None => (None, false),
    }
}

/// A rebuild never fires in the tick of the event that asked for it, and
/// fires at most once per wait: after firing nothing is pending.
pub proof fn law_debounce_waits(pending: Option<u64>, relevant_event: bool, now: u64)
    ensures
        relevant_event ==> !spec_debounce(pending, relevant_event, now).1,
        spec_debounce(pending, relevant_event, now).1 ==> spec_debounce(pending, relevant_event, now).0 is None,
        pending is None && !relevant_event ==> !spec_debounce(pending, relevant_event, now).1,
{
}

} // verus!
