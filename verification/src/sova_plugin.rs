//! Sources of a new Sova plugin crate (`generate plugin`): its manifest,
//! library and README, and the display name shown in them.

use vstd::prelude::*;
use vstd::string::*;
use crate::text::{push_char, trim, trim_ws};

verus! {

/// Name for what `char::is_uppercase` returns for `c` (the Unicode
/// `Uppercase` property).
pub uninterp spec fn is_uppercase_char(c: char) -> bool;

/// Wraps `char::is_uppercase`.
///
/// Trusted: the result is named `is_uppercase_char(c)`; nothing more is claimed.
#[verifier::external_body]
fn char_is_uppercase(c: char) -> (r: bool)
    ensures
        r == is_uppercase_char(c),
{
    c.is_uppercase()
}

/// `ty` with a space before every uppercase character.
pub open spec fn spaced_words(ty: Seq<char>) -> Seq<char>
    decreases ty.len(),
{
    if ty.len() == 0 {
        Seq::empty()
    } else {
        let prev = spaced_words(ty.drop_last());
        if is_uppercase_char(ty.last()) {
            prev.push(' ').push(ty.last())
        } else {
            prev.push(ty.last())
        }
    }
}

/// The human name of a plugin type: `RateLimit` → `Rate Limit`.
pub open spec fn spec_plugin_display_name(ty: Seq<char>) -> Seq<char> {
    trim_ws(spaced_words(ty))
}

/// Split a `PascalCase` type name into words for display.
pub fn plugin_display_name(ty: &str) -> (r: String)
    ensures
        r@ == spec_plugin_display_name(ty@),
{
    let n = ty.unicode_len();
    let mut out = String::new();
    let mut i: usize = 0;
    assert(ty@.take(0) =~= Seq::<char>::empty());
    while i < n
        invariant
            n == ty@.len(),
            i <= n,
            out@ == spaced_words(ty@.take(i as int)),
        decreases n - i,
    {
        let c = ty.get_char(i);
        assert(ty@.take(i + 1).drop_last() =~= ty@.take(i as int));
        assert(ty@.take(i + 1).last() == c);
        if char_is_uppercase(c) {
            push_char(&mut out, ' ');
        }
        push_char(&mut out, c);
        i = i + 1;
    }
    assert(ty@.take(n as int) =~= ty@);
    String::from_str(trim(out.as_str()))
}

/// Fixed text of the plugin's `Cargo.toml`, part 1.
pub const PLUGIN_MANIFEST_1: &'static str = r#"[package]
name = "sova-"#;

/// Fixed text of the plugin's `Cargo.toml`, part 2.
pub const PLUGIN_MANIFEST_2: &'static str = r#""
version = "0.1.0"
edition = "2021"
description = ""#;

/// Fixed text of the plugin's `Cargo.toml`, part 3.
pub const PLUGIN_MANIFEST_3: &'static str = r#" plugin for Sova"
license = "MIT"
repository = "https://github.com/s00d/sova"
homepage = "https://s00d.github.io/sova/"
keywords = ["sova", "plugin", ""#;

/// Fixed text of the plugin's `Cargo.toml`, part 4.
pub const PLUGIN_MANIFEST_4: &'static str = r#""]

[dependencies]
sova-core = { version = "0.1.0", path = "../../crates/sova-core" }
"#;

/// The `Cargo.toml` of plugin `sova-<name>` as the contracts see it.
pub open spec fn spec_render_plugin_manifest(name: Seq<char>, display: Seq<char>) -> Seq<char> {
    PLUGIN_MANIFEST_1@ + name + PLUGIN_MANIFEST_2@ + display + PLUGIN_MANIFEST_3@ + name
        + PLUGIN_MANIFEST_4@
}

/// Render the `Cargo.toml` of plugin `sova-<name>`.
pub fn render_plugin_manifest(name: &str, display: &str) -> (r: String)
    ensures
        r@ == spec_render_plugin_manifest(name@, display@),
{
    let mut out = String::from_str(PLUGIN_MANIFEST_1);
    out.append(name);
    out.append(PLUGIN_MANIFEST_2);
    out.append(display);
    out.append(PLUGIN_MANIFEST_3);
    out.append(name);
    out.append(PLUGIN_MANIFEST_4);
    out
}

/// Fixed text of the plugin's `src/lib.rs`, part 1.
pub const PLUGIN_LIB_1: &'static str = r#" — Sova plugin.
//!
//! ```ignore
//! use sova_"#;

/// Fixed text of the plugin's `src/lib.rs`, part 2.
pub const PLUGIN_LIB_2: &'static str = r#";
//!
//! app.install("#;

/// Fixed text of the plugin's `src/lib.rs`, part 3.
pub const PLUGIN_LIB_3: &'static str = r#"::new());
//! ```

use sova_core::extend::with_leaked;
use sova_core::{App, Plugin, PluginMeta, Request, Response};

/// "#;

/// Fixed text of the plugin's `src/lib.rs`, part 4.
pub const PLUGIN_LIB_4: &'static str = r#" plugin.
///
/// Demo install: adds an `x-sova-"#;

/// Fixed text of the plugin's `src/lib.rs`, part 5.
pub const PLUGIN_LIB_5: &'static str = r#"` response header and stores config in app state.
pub struct "#;

/// Fixed text of the plugin's `src/lib.rs`, part 6.
pub const PLUGIN_LIB_6: &'static str = r#" {
    /// Value written to the `x-sova-"#;

/// Fixed text of the plugin's `src/lib.rs`, part 7.
pub const PLUGIN_LIB_7: &'static str = r#"` header.
    header_value: String,
}

impl "#;

/// Fixed text of the plugin's `src/lib.rs`, part 8.
pub const PLUGIN_LIB_8: &'static str = r#" {
    pub fn new() -> Self {
        Self {
            header_value: "1".into(),
        }
    }

    pub fn header_value(mut self, value: impl Into<String>) -> Self {
        self.header_value = value.into();
        self
    }
}

impl Default for "#;

/// Fixed text of the plugin's `src/lib.rs`, part 9.
pub const PLUGIN_LIB_9: &'static str = r#" {
    fn default() -> Self {
        Self::new()
    }
}

impl Plugin for "#;

/// Fixed text of the plugin's `src/lib.rs`, part 10.
pub const PLUGIN_LIB_10: &'static str = r#" {
    fn id(&self) -> &'static str {
        ""#;

/// Fixed text of the plugin's `src/lib.rs`, part 11.
pub const PLUGIN_LIB_11: &'static str = r#""
    }

    // fn requires(&self) -> &'static [&'static str] {
    //     &["cookies"] // install those plugins first
    // }

    fn meta(&self) -> PluginMeta {
        PluginMeta::new(""#;

/// Fixed text of the plugin's `src/lib.rs`, part 12.
pub const PLUGIN_LIB_12: &'static str = r#"")
            .description("Example plugin generated by cargo sovax generate plugin")
            .version(env!("CARGO_PKG_VERSION"))
            // .sdk(sova_core::PLUGIN_SDK_VERSION) // default; pin only if you need an older SDK
    }

    fn install(self, app: &mut App) {
        app.state("#;

/// Fixed text of the plugin's `src/lib.rs`, part 13.
pub const PLUGIN_LIB_13: &'static str = r#"Config {
            header_value: self.header_value.clone(),
        });

        app.use_middleware(with_leaked(self, |plugin, req: Request, next| async move {
            let mut res: Response = next(req).await;
            res = res.header("x-sova-"#;

/// Fixed text of the plugin's `src/lib.rs`, part 14.
pub const PLUGIN_LIB_14: &'static str = r#"", &plugin.header_value);
            res
        }));

        // Routes (optional):
        // app.get("/"#;

/// Fixed text of the plugin's `src/lib.rs`, part 15.
pub const PLUGIN_LIB_15: &'static str = r#"/ping", || async { Response::text("pong") });
    }
}

/// Shared config inserted by [`"#;

/// Fixed text of the plugin's `src/lib.rs`, part 16.
pub const PLUGIN_LIB_16: &'static str = r#"::install`].
#[derive(Clone, Debug)]
pub struct "#;

/// Fixed text of the plugin's `src/lib.rs`, part 17.
pub const PLUGIN_LIB_17: &'static str = r#"Config {
    pub header_value: String,
}
"#;

/// The `src/lib.rs` of plugin `sova-<name>` as the contracts see it.
pub open spec fn spec_render_plugin_lib(name: Seq<char>, ty: Seq<char>, display: Seq<char>) -> Seq<char> {
    "//! "@ + display + PLUGIN_LIB_1@ + name + "::"@ + ty + PLUGIN_LIB_2@ + ty + PLUGIN_LIB_3@
        + display + PLUGIN_LIB_4@ + name + PLUGIN_LIB_5@ + ty + PLUGIN_LIB_6@ + name
        + PLUGIN_LIB_7@ + ty + PLUGIN_LIB_8@ + ty + PLUGIN_LIB_9@ + ty + PLUGIN_LIB_10@ + name
        + PLUGIN_LIB_11@ + display + PLUGIN_LIB_12@ + ty + PLUGIN_LIB_13@ + name
        + PLUGIN_LIB_14@ + name + PLUGIN_LIB_15@ + ty + PLUGIN_LIB_16@ + ty + PLUGIN_LIB_17@
}

/// Render the `src/lib.rs` of plugin `sova-<name>`: a demo plugin that sets an `x-sova-<name>` header.
pub fn render_plugin_lib(name: &str, ty: &str, display: &str) -> (r: String)
    ensures
        r@ == spec_render_plugin_lib(name@, ty@, display@),
{
    let mut out = String::from_str("//! ");
    out.append(display);
    out.append(PLUGIN_LIB_1);
    out.append(name);
    out.append("::");
    out.append(ty);
    out.append(PLUGIN_LIB_2);
    out.append(ty);
    out.append(PLUGIN_LIB_3);
    out.append(display);
    out.append(PLUGIN_LIB_4);
    out.append(name);
    out.append(PLUGIN_LIB_5);
    out.append(ty);
    out.append(PLUGIN_LIB_6);
    out.append(name);
    out.append(PLUGIN_LIB_7);
    out.append(ty);
    out.append(PLUGIN_LIB_8);
    out.append(ty);
    out.append(PLUGIN_LIB_9);
    out.append(ty);
    out.append(PLUGIN_LIB_10);
    out.append(name);
    out.append(PLUGIN_LIB_11);
    out.append(display);
    out.append(PLUGIN_LIB_12);
    out.append(ty);
    out.append(PLUGIN_LIB_13);
    out.append(name);
    out.append(PLUGIN_LIB_14);
    out.append(name);
    out.append(PLUGIN_LIB_15);
    out.append(ty);
    out.append(PLUGIN_LIB_16);
    out.append(ty);
    out.append(PLUGIN_LIB_17);
    out
}

/// Fixed text of the plugin's `README.md`, part 1.
pub const PLUGIN_README_1: &'static str = r#"

"#;

/// Fixed text of the plugin's `README.md`, part 2.
pub const PLUGIN_README_2: &'static str = r#" plugin for [Sova](../../README.md).

## Usage

```rust
use sova_"#;

/// Fixed text of the plugin's `README.md`, part 3.
pub const PLUGIN_README_3: &'static str = r#";

let mut app = sova_core::App::new();
app.install("#;

/// Fixed text of the plugin's `README.md`, part 4.
pub const PLUGIN_README_4: &'static str = r#"::new());
```

Declares Plugin SDK via `PluginMeta` (see `sova_core::PLUGIN_SDK_VERSION`).
Workspace members `plugins/*` pick this crate up automatically.
"#;

/// The `README.md` of plugin `sova-<name>` as the contracts see it.
pub open spec fn spec_render_plugin_readme(name: Seq<char>, ty: Seq<char>, display: Seq<char>) -> Seq<char> {
    "# sova-"@ + name + PLUGIN_README_1@ + display + PLUGIN_README_2@ + name + "::"@ + ty
        + PLUGIN_README_3@ + ty + PLUGIN_README_4@
}

/// Render the `README.md` of plugin `sova-<name>`.
pub fn render_plugin_readme(name: &str, ty: &str, display: &str) -> (r: String)
    ensures
        r@ == spec_render_plugin_readme(name@, ty@, display@),
{
    let mut out = String::from_str("# sova-");
    out.append(name);
    out.append(PLUGIN_README_1);
    out.append(display);
    out.append(PLUGIN_README_2);
    out.append(name);
    out.append("::");
    out.append(ty);
    out.append(PLUGIN_README_3);
    out.append(ty);
    out.append(PLUGIN_README_4);
    out
}

} // verus!
