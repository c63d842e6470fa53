//! Typed route values: the `Needs<T>` declaration that application state must
//! hold a `T` before a route is served.

use vstd::prelude::*;
use vstd::string::*;

verus! {

/// Declares that application state must contain `T` before serving.
pub struct Needs<T> {
    marker: std::marker::PhantomData<T>,
}

/// What the startup check of `Needs<T>` reports for the route at
/// `route_path`: nothing when the state holds a `T`, else which state it
/// misses.
pub open spec fn spec_needs_check(present: bool, route_path: Seq<char>, needed: Seq<char>) -> Result<(), Seq<char>> {
    if present {
        Ok(())
    } else {
        Err("route "@ + route_path + " needs state `"@ + needed + "` (missing in App::state)"@)
    }
}

impl<T> Needs<T> {
    pub fn new() -> Self {
        Needs { marker: std::marker::PhantomData }
    }

    /// The startup check: `present` tells whether the state holds a `T`, and
    /// `needed` is `T`'s name.
    pub fn check(&self, present: bool, route_path: &str, needed: &str) -> (r: Result<(), String>)
        ensures
            match r {
                Ok(()) => spec_needs_check(present, route_path@, needed@) is Ok,
                Err(e) => spec_needs_check(present, route_path@, needed@) == Err::<(), Seq<char>>(e@),
            },
    {
        if present {
            Ok(())
        } else {
            let mut e = String::from_str("route ");
            e.append(route_path);
            e.append(" needs state `");
            e.append(needed);
            e.append("` (missing in App::state)");
            Err(e)
        }
    }

    /// The label `explain` shows: `Needs<` and `T`'s name.
    pub fn label(&self, needed: &str) -> (r: String)
        ensures
            r@ == "Needs<"@ + needed@ + ">"@,
    {
        let mut out = String::from_str("Needs<");
        out.append(needed);
        out.append(">");
        out
    }
}

} // verus!
