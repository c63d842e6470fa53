//! Names under which an uploaded file may be saved.

use vstd::prelude::*;
use vstd::string::*;
use crate::text::{
    lemma_split_on_nonempty, split_char, split_on, starts_with_char, str_eq, str_starts_with_char,
};

verus! {

/// Some `/`-separated piece of `p` is `..`.
pub open spec fn has_parent_segment(p: Seq<char>) -> bool {
    exists|i: int| 0 <= i < split_on(p, '/').len() && #[trigger] split_on(p, '/')[i] == ".."@
}

/// Whether some piece of `p` is `..`.
pub fn has_parent_dir(p: &str) -> (r: bool)
    ensures
        r == has_parent_segment(p@),
{
    let segs = split_char(p, '/');
    let mut i: usize = 0;
    while i < segs.len()
        invariant
            segs@.len() == split_on(p@, '/').len(),
            forall|k: int| 0 <= k < segs@.len() ==> (#[trigger] segs@[k])@ == split_on(p@, '/')[k],
            i <= segs@.len(),
            forall|k: int| 0 <= k < i ==> split_on(p@, '/')[k] != ".."@,
        decreases segs@.len() - i,
    {
        if str_eq(segs[i].as_str(), "..") {
            assert(split_on(p@, '/')[i as int] == ".."@);
            return true;
        }
        i = i + 1;
    }
    false
}

/// `Path::components` of `p` are all plain names: `p` is non-empty, relative,
/// does not start with `.` as a component, and has no `..` (empty and inner `.`
/// pieces are not components).
pub open spec fn spec_upload_name_safe(p: Seq<char>) -> bool {
    p.len() > 0 && !starts_with_char(p, '/') && split_on(p, '/')[0] != "."@ && !has_parent_segment(p)
}

/// Whether an upload file name is a safe relative path (no root, `.` or `..`).
pub fn is_safe_relative(path: &str) -> (r: bool)
    ensures
        r == spec_upload_name_safe(path@),
{
    if path.unicode_len() == 0 || str_starts_with_char(path, '/') {
        return false;
    }
    let segs = split_char(path, '/');
    proof {
        lemma_split_on_nonempty(path@, '/');
    }
    if str_eq(segs[0].as_str(), ".") {
        return false;
    }
    !has_parent_dir(path)
}

/// Preferred download name of an upload: the client's file name when it gave
/// a non-empty one, else the form field's name.
pub fn suggested_name<'a>(filename: Option<&'a str>, field: &'a str) -> (r: &'a str)
    ensures
        r@ == match filename {
            Some(f) => if f@.len() > 0 {
                f@
            } else {
                field@
            },
            None => field@,
        },
{
    match filename {
        Some(f) => if f.unicode_len() > 0 {
            f
        } else {
            field
        },
        None => field,
    }
}

} // verus!
