//! The Cargo package a command works on and its optional `[frontend]`
//! (Vite / npm) settings. Probing the file system is the caller's part: the
//! functions here take what was found as plain values.

use vstd::prelude::*;
use vstd::string::*;
use crate::config::{parse_toml, table_get, table_lookup, toml_parsed, value_get, value_lookup, ConfigValue};
use crate::text::{contains, contains_seq, starts_with_char, str_ends_with_char, str_eq, str_starts_with_char};

verus! {

/// `PathBuf::join` on `/`-separated paths: an absolute `p` replaces `base`;
/// otherwise `p` is appended after a separator when `base` needs one.
pub open spec fn spec_join_path(base: Seq<char>, p: Seq<char>) -> Seq<char> {
    if starts_with_char(p, '/') {
        p
    } else if base.len() == 0 {
        p
    } else if base.last() == '/' {
        base + p
    } else {
        base + seq!['/'] + p
    }
}

/// `PathBuf::join` on `/`-separated paths.
pub fn join_path(base: &str, p: &str) -> (r: String)
    ensures
        r@ == spec_join_path(base@, p@),
{
    if str_starts_with_char(p, '/') || base.unicode_len() == 0 {
        return String::from_str(p);
    }
    let mut out = String::from_str(base);
    if !str_ends_with_char(base, '/') {
        out.append("/");
        proof {
            reveal_strlit("/");
        }
    }
    out.append(p);
    out
}

/// The resolved package of a command.
#[derive(Debug)]
pub struct Project {
    /// Directory that contains the package `Cargo.toml`.
    pub package_dir: String,
    /// Workspace / project root (where `cargo` should run).
    pub workspace_dir: String,
    pub package_name: String,
    /// Binary name for `target/release/<bin>`.
    pub bin_name: String,
    pub frontend: Option<FrontendConfig>,
}

/// How to build and serve the frontend.
#[derive(Debug)]
pub struct FrontendConfig {
    pub dir: String,
    pub dev: String,
    pub build: String,
    pub out: String,
    pub package_manager: String,
}

/// The `[frontend]` table of `ruvo.toml`.
#[derive(Debug)]
pub struct FrontendSection {
    pub enabled: Option<bool>,
    pub dir: Option<String>,
    pub dev: Option<String>,
    pub build: Option<String>,
    pub out: Option<String>,
    pub package_manager: Option<String>,
}

/// Common options for `dev` / `build` / `serve`.
#[derive(Debug)]
pub struct ProjectOpts {
    pub package: Option<String>,
    pub manifest_path: Option<String>,
}

/// Which lock files the frontend directory holds.
#[derive(Debug)]
pub struct LockFiles {
    pub pnpm_lock: bool,
    pub yarn_lock: bool,
    pub bun_lockb: bool,
    pub bun_lock: bool,
}

impl Project {
    /// `target/release/<bin>` under the workspace (without the Windows `.exe`).
    pub fn release_bin(&self) -> (r: String)
        ensures
            r@ == spec_join_path(
                spec_join_path(spec_join_path(self.workspace_dir@, "target"@), "release"@),
                self.bin_name@,
            ),
    {
        let t = join_path(self.workspace_dir.as_str(), "target");
        let rel = join_path(t.as_str(), "release");
        join_path(rel.as_str(), self.bin_name.as_str())
    }
}

/// The package manager a lock file points to: pnpm, yarn, bun, else npm.
pub open spec fn spec_package_manager(locks: LockFiles) -> Seq<char> {
    if locks.pnpm_lock {
        "pnpm"@
    } else if locks.yarn_lock {
        "yarn"@
    } else if locks.bun_lockb || locks.bun_lock {
        "bun"@
    } else {
        "npm"@
    }
}

/// Pick the package manager from the lock files present.
pub fn detect_package_manager(locks: &LockFiles) -> (r: String)
    ensures
        r@ == spec_package_manager(*locks),
{
    if locks.pnpm_lock {
        String::from_str("pnpm")
    } else if locks.yarn_lock {
        String::from_str("yarn")
    } else if locks.bun_lockb || locks.bun_lock {
        String::from_str("bun")
    } else {
        String::from_str("npm")
    }
}

/// A `package.json` that names Vite.
pub open spec fn looks_like_vite(text: Option<Seq<char>>) -> bool {
    match text {
        Some(t) => contains_seq(t, "\"vite\""@) || contains_seq(t, "'vite'"@),
        None => false,
    }
}

/// Whether the package's `package.json` (its text, when readable) names Vite.
pub fn package_json_looks_like_vite(text: Option<&str>) -> (r: bool)
    ensures
        r == looks_like_vite(
            match text {
                Some(t) => Some(t@),
                None => None,
            },
        ),
{
    match text {
        Some(t) => contains(t, "\"vite\"") || contains(t, "'vite'"),
        None => false,
    }
}

/// The command line that runs a `package.json` script with the package manager.
pub open spec fn spec_run_script(pm: Seq<char>, script: Seq<char>) -> Seq<char> {
    if pm == "pnpm"@ {
        "pnpm run "@ + script
    } else if pm == "yarn"@ {
        "yarn "@ + script
    } else if pm == "bun"@ {
        "bun run "@ + script
    } else {
        "npm run "@ + script
    }
}

/// Command line for a `package.json` script (`npm run dev`, `yarn build`, ...).
pub fn run_script(pm: &str, script: &str) -> (r: String)
    ensures
        r@ == spec_run_script(pm@, script@),
{
    let mut out = if str_eq(pm, "pnpm") {
        String::from_str("pnpm run ")
    } else if str_eq(pm, "yarn") {
        String::from_str("yarn ")
    } else if str_eq(pm, "bun") {
        String::from_str("bun run ")
    } else {
        String::from_str("npm run ")
    };
    out.append(script);
    out
}

/// The contents of an optional owned string.
pub open spec fn opt_str(s: Option<String>) -> Option<Seq<char>> {
    match s {
        Some(x) => Some(x@),
        None => None,
    }
}

/// The frontend directory: `frontend.dir` (relative to the package), else
/// `frontend/` when it has a `package.json`, else the package itself when its
/// `package.json` names Vite. `Ok(None)` when the frontend is off: disabled
/// explicitly, or not enabled and nothing found.
pub open spec fn spec_frontend_dir(
    section: Option<(Option<bool>, Option<Seq<char>>)>,
    package_dir: Seq<char>,
    has_frontend_subdir: bool,
    package_json_is_vite: bool,
) -> Result<Option<Seq<char>>, Seq<char>> {
    let enabled = match section {
        Some(s) => s.0,
        None => None,
    };
    let configured = match section {
        Some(s) => match s.1 {
            Some(d) => Some(spec_join_path(package_dir, d)),
            None => None,
        },
        None => None,
    };
    let auto = if has_frontend_subdir {
        Some(spec_join_path(package_dir, "frontend"@))
    } else if package_json_is_vite {
        Some(package_dir)
    } else {
        None
    };
    let dir = match configured {
        Some(d) => Some(d),
        None => auto,
    };
    if enabled == Some(false) {
        Ok(None)
    } else if enabled is None && dir is None {
        Ok(None)
    } else {
        match dir {
            Some(d) => Ok(Some(d)),
            None => Err("[frontend] enabled but no dir / package.json found (set frontend.dir)"@),
        }
    }
}

/// The parts of a `[frontend]` section that choose its directory.
pub open spec fn section_dir_view(section: Option<&FrontendSection>) -> Option<(Option<bool>, Option<Seq<char>>)> {
    match section {
        Some(s) => Some((s.enabled, opt_str(s.dir))),
        None => None,
    }
}

/// Choose the frontend directory from the `[frontend]` section and what the
/// package directory holds (`frontend/package.json`; a Vite `package.json`).
pub fn frontend_dir(
    section: Option<&FrontendSection>,
    package_dir: &str,
    has_frontend_subdir: bool,
    package_json_is_vite: bool,
) -> (r: Result<Option<String>, String>)
    ensures
        match r {
            Ok(Some(d)) => spec_frontend_dir(section_dir_view(section), package_dir@, has_frontend_subdir, package_json_is_vite)
                == Ok::<Option<Seq<char>>, Seq<char>>(Some(d@)),
            Ok(None) => spec_frontend_dir(section_dir_view(section), package_dir@, has_frontend_subdir, package_json_is_vite)
                == Ok::<Option<Seq<char>>, Seq<char>>(None),
            Err(e) => spec_frontend_dir(section_dir_view(section), package_dir@, has_frontend_subdir, package_json_is_vite)
                == Err::<Option<Seq<char>>, Seq<char>>(e@),
        },
{
    let enabled: Option<bool> = match section {
        Some(s) => s.enabled,
        None => None,
    };
    if enabled == Some(false) {
        return Ok(None);
    }
    let configured: Option<String> = match section {
        Some(s) => match &s.dir {
            Some(d) => Some(join_path(package_dir, d.as_str())),
            None => None,
        },
        None => None,
    };
    let dir: Option<String> = match configured {
        Some(d) => Some(d),
        None => if has_frontend_subdir {
            Some(join_path(package_dir, "frontend"))
        } else if package_json_is_vite {
            Some(String::from_str(package_dir))
        } else {
            None
        },
    };
    if enabled.is_none() && dir.is_none() {
        return Ok(None);
    }
    match dir {
        Some(d) => Ok(Some(d)),
        None => Err(String::from_str("[frontend] enabled but no dir / package.json found (set frontend.dir)")),
    }
}

/// The frontend configuration for directory `dir`: the section's commands and
/// output directory, or the package manager's `dev` / `build` scripts and
/// `public/build` under the package.
pub open spec fn spec_frontend_config(
    section: Option<&FrontendSection>,
    package_dir: Seq<char>,
    dir: Seq<char>,
    dir_has_package_json: bool,
    locks: LockFiles,
) -> Result<(Seq<char>, Seq<char>, Seq<char>, Seq<char>, Seq<char>), Seq<char>> {
    if !dir_has_package_json {
        Err("frontend dir "@ + dir + " has no package.json"@)
    } else {
        let pm = match section {
            Some(s) => match s.package_manager {
                Some(p) => p@,
                None => spec_package_manager(locks),
            },
            None => spec_package_manager(locks),
        };
        let dev = match section {
            Some(s) => match s.dev {
                Some(d) => d@,
                None => spec_run_script(pm, "dev"@),
            },
            None => spec_run_script(pm, "dev"@),
        };
        let build = match section {
            Some(s) => match s.build {
                Some(b) => b@,
                None => spec_run_script(pm, "build"@),
            },
            None => spec_run_script(pm, "build"@),
        };
        let out = match section {
            Some(s) => match s.out {
                Some(o) => spec_join_path(package_dir, o@),
                None => spec_join_path(spec_join_path(package_dir, "public"@), "build"@),
            },
            None => spec_join_path(spec_join_path(package_dir, "public"@), "build"@),
        };
        Ok((dir, dev, build, out, pm))
    }
}

/// The fields of a frontend configuration, as the contracts see them.
pub open spec fn frontend_view(c: FrontendConfig) -> (Seq<char>, Seq<char>, Seq<char>, Seq<char>, Seq<char>) {
    (c.dir@, c.dev@, c.build@, c.out@, c.package_manager@)
}

/// Build the frontend configuration for the chosen directory.
pub fn frontend_config(
    section: Option<&FrontendSection>,
    package_dir: &str,
    dir: &str,
    dir_has_package_json: bool,
    locks: &LockFiles,
) -> (r: Result<FrontendConfig, String>)
    ensures
        match r {
            Ok(c) => spec_frontend_config(section, package_dir@, dir@, dir_has_package_json, *locks)
                == Ok::<(Seq<char>, Seq<char>, Seq<char>, Seq<char>, Seq<char>), Seq<char>>(frontend_view(c)),
            Err(e) => spec_frontend_config(section, package_dir@, dir@, dir_has_package_json, *locks)
                == Err::<(Seq<char>, Seq<char>, Seq<char>, Seq<char>, Seq<char>), Seq<char>>(e@),
        },
{
    if !dir_has_package_json {
        let mut e = String::from_str("frontend dir ");
        e.append(dir);
        e.append(" has no package.json");
        return Err(e);
    }
    let pm: String = match section {
        Some(s) => match &s.package_manager {
            Some(p) => p.clone(),
            None => detect_package_manager(locks),
        },
        None => detect_package_manager(locks),
    };
    let dev: String = match section {
        Some(s) => match &s.dev {
            Some(d) => d.clone(),
            None => run_script(pm.as_str(), "dev"),
        },
        None => run_script(pm.as_str(), "dev"),
    };
    let build: String = match section {
        Some(s) => match &s.build {
            Some(b) => b.clone(),
            None => run_script(pm.as_str(), "build"),
        },
        None => run_script(pm.as_str(), "build"),
    };
    let out: String = match section {
        Some(s) => match &s.out {
            Some(o) => join_path(package_dir, o.as_str()),
            None => {
                let p = join_path(package_dir, "public");
                join_path(p.as_str(), "build")
            },
        },
        None => {
            let p = join_path(package_dir, "public");
            join_path(p.as_str(), "build")
        },
    };
    Ok(FrontendConfig { dir: String::from_str(dir), dev, build, out, package_manager: pm })
}

/// The `[package].name` of a parsed manifest.
pub open spec fn spec_package_name(doc: ConfigValue) -> Option<String> {
    match value_get(doc, "package"@) {
        Some(p) => match value_get(p, "name"@) {
            Some(ConfigValue::Str(s)) => Some(s),
            _ => None,
        },
        None => None,
    }
}

/// `[package].name` of a parsed `Cargo.toml`.
pub fn package_name_of(doc: &ConfigValue) -> (r: Result<String, String>)
    ensures
        match r {
            Ok(s) => spec_package_name(*doc) == Some(s),
            Err(e) => spec_package_name(*doc) is None && e@ == "Cargo.toml missing [package].name"@,
        },
{
    match value_lookup(doc, "package") {
        Some(p) => match value_lookup(p, "name") {
            Some(ConfigValue::Str(s)) => Ok(s.clone()),
            _ => Err(String::from_str("Cargo.toml missing [package].name")),
        },
        None => Err(String::from_str("Cargo.toml missing [package].name")),
    }
}

/// The `name` of the first `[[bin]]` of a parsed manifest.
pub open spec fn spec_bin_name(doc: ConfigValue) -> Option<String> {
    match value_get(doc, "bin"@) {
        Some(ConfigValue::Array(bins)) => if bins@.len() > 0 {
            match value_get(bins@[0], "name"@) {
                Some(ConfigValue::Str(s)) => Some(s),
                _ => None,
            }
        } else {
            None
        },
        _ => None,
    }
}

/// Name of the first `[[bin]]` target of a parsed `Cargo.toml`, if it has one.
pub fn bin_name_of(doc: &ConfigValue) -> (r: Option<String>)
    ensures
        r == spec_bin_name(*doc),
{
    match value_lookup(doc, "bin") {
        Some(ConfigValue::Array(bins)) => {
            if bins.len() > 0 {
                match value_lookup(&bins[0], "name") {
                    Some(ConfigValue::Str(s)) => Some(s.clone()),
                    _ => None,
                }
            } else {
                None
            }
        },
        _ => None,
    }
}

/// What `parse_package_name` gives for a manifest's text: the parse error's
/// text, or `[package].name` (or the missing-name error).
pub open spec fn spec_parse_package_name(text: Seq<char>) -> Result<Seq<char>, Seq<char>> {
    match toml_parsed(text) {
        Err(m) => Err(m),
        Ok(doc) => match spec_package_name(doc) {
            Some(n) => Ok(n@),
            None => Err("Cargo.toml missing [package].name"@),
        },
    }
}

/// `[package].name` of a `Cargo.toml`'s text.
pub fn parse_package_name(text: &str) -> (r: Result<String, String>)
    ensures
        match r {
            Ok(n) => spec_parse_package_name(text@) == Ok::<Seq<char>, Seq<char>>(n@),
            Err(e) => spec_parse_package_name(text@) == Err::<Seq<char>, Seq<char>>(e@),
        },
{
    match parse_toml(text) {
        Ok(doc) => package_name_of(&doc),
        Err(m) => Err(m),
    }
}

/// The first `[[bin]]` name of a manifest's text; none when it does not parse.
pub open spec fn spec_parse_bin_name(text: Seq<char>) -> Option<Seq<char>> {
    match toml_parsed(text) {
        Err(_) => None,
        Ok(doc) => match spec_bin_name(doc) {
            Some(n) => Some(n@),
            None => None,
        },
    }
}

/// Name of the first `[[bin]]` target of a `Cargo.toml`'s text, if any.
pub fn parse_bin_name(text: &str) -> (r: Option<String>)
    ensures
        spec_parse_bin_name(text@) == match r {
            Some(n) => Some(n@),
            None => None::<Seq<char>>,
        },
{
    match parse_toml(text) {
        Ok(doc) => bin_name_of(&doc),
        Err(_) => None,
    }
}

/// The directories searched for a workspace member, in order.
pub open spec fn spec_workspace_search_roots(workspace: Seq<char>) -> Seq<Seq<char>> {
    seq![
        spec_join_path(workspace, "examples"@),
        spec_join_path(workspace, "crates"@),
        spec_join_path(workspace, "plugins"@),
        workspace,
    ]
}

/// Where to look for a member package: `examples`, `crates`, `plugins`, then
/// the workspace root itself.
pub fn workspace_search_roots(workspace: &str) -> (r: Vec<String>)
    ensures
        r@.len() == 4,
        forall|i: int| 0 <= i < 4 ==> (#[trigger] r@[i])@ == spec_workspace_search_roots(workspace@)[i],
{
    let mut out: Vec<String> = Vec::new();
    out.push(join_path(workspace, "examples"));
    out.push(join_path(workspace, "crates"));
    out.push(join_path(workspace, "plugins"));
    out.push(String::from_str(workspace));
    out
}

/// Directories the member search does not descend into.
pub open spec fn skipped_dir(name: Seq<char>) -> bool {
    name == "target"@ || name == "node_modules"@ || starts_with_char(name, '.')
}

/// Whether the member search skips a directory with this name.
pub fn skip_dir(name: &str) -> (r: bool)
    ensures
        r == skipped_dir(name@),
{
    str_eq(name, "target") || str_eq(name, "node_modules") || str_starts_with_char(name, '.')
}

/// The error when `-p <want>` names another package than the one resolved.
pub open spec fn spec_check_requested_package(want: Option<Seq<char>>, package_name: Seq<char>) -> Result<(), Seq<char>> {
    match want {
        Some(w) => if w != package_name {
            Err("resolved package `"@ + package_name + "` but `-p "@ + w + "` was requested"@)
        } else {
            Ok(())
        },
        None => Ok(()),
    }
}

/// Check the resolved package against the one `-p` asked for.
pub fn check_requested_package(want: Option<&str>, package_name: &str) -> (r: Result<(), String>)
    ensures
        match r {
            Ok(()) => spec_check_requested_package(
                match want {
                    Some(w) => Some(w@),
                    None => None,
                },
                package_name@,
            ) == Ok::<(), Seq<char>>(()),
            Err(e) => spec_check_requested_package(
                match want {
                    Some(w) => Some(w@),
                    None => None,
                },
                package_name@,
            ) == Err::<(), Seq<char>>(e@),
        },
{
    match want {
        Some(w) => {
            if !str_eq(w, package_name) {
                let mut e = String::from_str("resolved package `");
                e.append(package_name);
                e.append("` but `-p ");
                e.append(w);
                e.append("` was requested");
                return Err(e);
            }
            Ok(())
        },
        None => Ok(()),
    }
}

/// What a `Cargo.toml` found while walking up tells the package search.
#[derive(Clone, Copy, Debug, PartialEq, Eq, Structural)]
pub enum ManifestStep {
    /// This manifest is the package.
    Found,
    /// A workspace root: look for the requested member under it.
    SearchWorkspace,
    /// Keep walking up.
    KeepLooking,
}

/// The step for a manifest: with `-p name`, a workspace root is searched and a
/// package of that name is taken; without it, any `[package]` is taken.
pub open spec fn spec_manifest_step(text: Seq<char>, package_name: Option<Seq<char>>, requested: Option<Seq<char>>) -> ManifestStep {
    match requested {
        Some(name) => if contains_seq(text, "[workspace]"@) {
            ManifestStep::SearchWorkspace
        } else if package_name == Some(name) {
            ManifestStep::Found
        } else {
            ManifestStep::KeepLooking
        },
        None => if contains_seq(text, "[package]"@) {
            ManifestStep::Found
        } else {
            ManifestStep::KeepLooking
        },
    }
}

/// Decide what a found manifest means for the package search (`package_name`:
/// its `[package].name`, when it parses).
pub fn manifest_step(text: &str, package_name: Option<&str>, requested: Option<&str>) -> (r: ManifestStep)
    ensures
        r == spec_manifest_step(
            text@,
            match package_name {
                Some(p) => Some(p@),
                None => None,
            },
            match requested {
                Some(p) => Some(p@),
                None => None,
            },
        ),
{
    match requested {
        Some(name) => {
            if contains(text, "[workspace]") {
                ManifestStep::SearchWorkspace
            } else {
                match package_name {
                    Some(p) => if str_eq(p, name) {
                        ManifestStep::Found
                    } else {
                        ManifestStep::KeepLooking
                    },
                    None => ManifestStep::KeepLooking,
                }
            }
        },
        None => if contains(text, "[package]") {
            ManifestStep::Found
        } else {
            ManifestStep::KeepLooking
        },
    }
}

/// A string key of a table: `Some(None)` when absent, `Some(Some(text))` for
/// a string, `None` for a value of another type.
pub open spec fn text_entry(t: Seq<(String, ConfigValue)>, key: Seq<char>) -> Option<Option<Seq<char>>> {
    match table_get(t, key) {
        None => Some(None),
        Some(ConfigValue::Str(s)) => Some(Some(s@)),
        Some(_) => None,
    }
}

/// A `[frontend]` section as the contracts see it.
pub open spec fn section_view(s: FrontendSection) -> (Option<bool>, Seq<Option<Seq<char>>>) {
    (
        s.enabled,
        seq![opt_view(s.dir), opt_view(s.dev), opt_view(s.build), opt_view(s.out), opt_view(s.package_manager)],
    )
}

/// The text of an optional string.
pub open spec fn opt_view(s: Option<String>) -> Option<Seq<char>> {
    match s {
        Some(x) => Some(x@),
        None => None,
    }
}

/// The `[frontend]` section a table gives, or `None` when a key has the wrong
/// type (`enabled` a boolean; `dir`, `dev`, `build`, `out`, `package_manager`
/// strings; other keys are ignored).
pub open spec fn spec_typed_section(t: Seq<(String, ConfigValue)>) -> Option<(Option<bool>, Seq<Option<Seq<char>>>)> {
    let enabled = match table_get(t, "enabled"@) {
        None => Some(None::<bool>),
        Some(ConfigValue::Bool(b)) => Some(Some(b)),
        Some(_) => None,
    };
    let keys = seq!["dir"@, "dev"@, "build"@, "out"@, "package_manager"@];
    if enabled is Some && (forall|i: int| 0 <= i < 5 ==> #[trigger] text_entry(t, keys[i]) is Some) {
        Some((enabled->Some_0, Seq::new(5, |i: int| text_entry(t, keys[i])->Some_0)))
    } else {
        None
    }
}

/// What a `ruvo.toml` text gives for `[frontend]`: `None` when it does not
/// read as such a file (no TOML, `frontend` not a table, or a key of the wrong
/// type), `Some(None)` when it has no `frontend` key, else the section.
pub open spec fn spec_frontend_section(text: Seq<char>) -> Option<Option<(Option<bool>, Seq<Option<Seq<char>>>)>> {
    match toml_parsed(text) {
        Err(_) => None,
        Ok(doc) => match value_get(doc, "frontend"@) {
            None => Some(None),
            Some(ConfigValue::Table(t)) => match spec_typed_section(t@) {
                Some(s) => Some(Some(s)),
                None => None,
            },
            Some(_) => None,
        },
    }
}

/// Read a string key of a table.
fn text_key(t: &Vec<(String, ConfigValue)>, key: &str) -> (r: Option<Option<String>>)
    ensures
        match r {
            Some(x) => text_entry(t@, key@) == Some(opt_view(x)),
            None => text_entry(t@, key@) is None,
        },
{
    match table_lookup(t, key) {
        None => Some(None),
        Some(ConfigValue::Str(s)) => Some(Some(s.clone())),
        Some(_) => None,
    }
}

/// Read the `[frontend]` section of a `ruvo.toml` text.
pub fn frontend_section(text: &str) -> (r: Option<Option<FrontendSection>>)
    ensures
        match r {
            None => spec_frontend_section(text@) is None,
            Some(None) => spec_frontend_section(text@) == Some(None::<(Option<bool>, Seq<Option<Seq<char>>>)>),
            Some(Some(s)) => spec_frontend_section(text@) == Some(Some(section_view(s))),
        },
{
    let doc = match parse_toml(text) {
        Ok(d) => d,
        Err(_) => return None,
    };
    let t = match value_lookup(&doc, "frontend") {
        None => return Some(None),
        Some(ConfigValue::Table(t)) => t,
        Some(_) => return None,
    };
    let ghost keys = seq!["dir"@, "dev"@, "build"@, "out"@, "package_manager"@];
    let enabled = match table_lookup(t, "enabled") {
        None => None,
        Some(ConfigValue::Bool(b)) => Some(*b),
        Some(_) => return None,
    };
    let dir = match text_key(t, "dir") { Some(x) => x, None => { assert(text_entry(t@, keys[0]) is None); return None; } };
    let dev = match text_key(t, "dev") { Some(x) => x, None => { assert(text_entry(t@, keys[1]) is None); return None; } };
    let build = match text_key(t, "build") { Some(x) => x, None => { assert(text_entry(t@, keys[2]) is None); return None; } };
    let out = match text_key(t, "out") { Some(x) => x, None => { assert(text_entry(t@, keys[3]) is None); return None; } };
    let package_manager = match text_key(t, "package_manager") {
        Some(x) => x,
        None => {
            assert(text_entry(t@, keys[4]) is None);
            return None;
        },
    };
    let section = FrontendSection { enabled, dir, dev, build, out, package_manager };
    proof {
        assert(forall|i: int| 0 <= i < 5 ==> #[trigger] text_entry(t@, keys[i]) is Some);
        assert(Seq::new(5, |i: int| text_entry(t@, keys[i])->Some_0) =~= section_view(section).1);
    }
    Some(Some(section))
}

} // verus!
