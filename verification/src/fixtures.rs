//! Routes of the framework comparison stand and the fixture each one serves.

use vstd::prelude::*;
use vstd::string::*;
use crate::text::str_eq;

verus! {

/// `Content-Type` of the HTML fixtures.
pub const CONTENT_TYPE_HTML: &'static str = "text/html; charset=utf-8";

/// `Content-Type` of the JSON fixture.
pub const CONTENT_TYPE_JSON: &'static str = "application/json";

/// The fixture bodies every implementation of the stand returns.
#[derive(Clone, Copy, Debug, PartialEq, Eq, Structural)]
pub enum Fixture {
    Home,
    About,
    Blog,
    PostHello,
    Contact,
    HealthJson,
}

/// The content type and fixture of a stand route.
pub open spec fn spec_body_for(path: Seq<char>) -> Option<(Seq<char>, Fixture)> {
    if path == "/"@ {
        Some((CONTENT_TYPE_HTML@, Fixture::Home))
    } else if path == "/about"@ {
        Some((CONTENT_TYPE_HTML@, Fixture::About))
    } else if path == "/blog"@ {
        Some((CONTENT_TYPE_HTML@, Fixture::Blog))
    } else if path == "/blog/hello"@ {
        Some((CONTENT_TYPE_HTML@, Fixture::PostHello))
    } else if path == "/contact"@ {
        Some((CONTENT_TYPE_HTML@, Fixture::Contact))
    } else if path == "/api/health"@ {
        Some((CONTENT_TYPE_JSON@, Fixture::HealthJson))
    } else {
        None
    }
}

/// Content type and fixture for a stand route; `None` for any other path.
pub fn body_for(path: &str) -> (r: Option<(&'static str, Fixture)>)
    ensures
        match r {
            Some((ct, f)) => spec_body_for(path@) == Some((ct@, f)),
            None => spec_body_for(path@) is None,
        },
{
    if str_eq(path, "/") {
        Some((CONTENT_TYPE_HTML, Fixture::Home))
    } else if str_eq(path, "/about") {
        Some((CONTENT_TYPE_HTML, Fixture::About))
    } else if str_eq(path, "/blog") {
        Some((CONTENT_TYPE_HTML, Fixture::Blog))
    } else if str_eq(path, "/blog/hello") {
        Some((CONTENT_TYPE_HTML, Fixture::PostHello))
    } else if str_eq(path, "/contact") {
        Some((CONTENT_TYPE_HTML, Fixture::Contact))
    } else if str_eq(path, "/api/health") {
        Some((CONTENT_TYPE_JSON, Fixture::HealthJson))
    } else {
        None
    }
}

} // verus!
