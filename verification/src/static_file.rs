//! Relative paths that a static-file response may serve.

use vstd::prelude::*;
use vstd::string::*;
use crate::text::{starts_with_char, str_starts_with_char};
use crate::upload::{has_parent_dir, has_parent_segment, spec_upload_name_safe};

verus! {

/// `Path::components` of `p` are all names or `.`: `p` is relative and has no `..`.
pub open spec fn spec_served_path_safe(p: Seq<char>) -> bool {
    !starts_with_char(p, '/') && !has_parent_segment(p)
}

/// Whether a requested file path stays inside the served directory (no root, no `..`).
pub fn is_safe_relative(path: &str) -> (r: bool)
    ensures
        r == spec_served_path_safe(path@),
{
    !str_starts_with_char(path, '/') && !has_parent_dir(path)
}

/// A name accepted for saving an upload is also accepted for serving it.
pub proof fn law_upload_names_are_servable(p: Seq<char>)
    requires
        spec_upload_name_safe(p),
    ensures
        spec_served_path_safe(p),
{
}

} // verus!
