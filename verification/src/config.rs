//! `ruvo.toml`: the document as the library reads it, profile selection, and
//! the server settings resolved from the canonical and legacy layouts.
//!
//! Active profile: `RUVO_PROFILE`, else `RUVO_ENV`, else `development` (debug
//! builds) / `production` (release); `debug` and `release` are aliases.

use vstd::prelude::*;
use vstd::string::*;
use crate::human::{
    duration_parts, parse_usize, size_parts, spec_duration_parts, spec_parse_usize, spec_size_parts,
    DurationUnit,
};
use crate::text::{
    eq_ignore_ascii_case, lemma_trim_ws_idempotent, str_eq, str_eq_ignore_ascii_case, trim, trim_ws,
};

verus! {

/// A TOML value as the configuration logic reads it.
#[derive(Debug)]
pub enum ConfigValue {
    Str(String),
    Int(i64),
    Bool(bool),
    Array(Vec<ConfigValue>),
    Table(Vec<(String, ConfigValue)>),
    /// A float, by the shortest decimal text that reads back as its value
    /// (`inf`, `-inf` and `NaN` for the special values).
    Float(String),
    Datetime(TomlDatetime),
}

/// A TOML date-time, field for field: a date, a time of day, and an offset
/// (`None`: local; `Some(None)`: `Z`; `Some(Some(m))`: `m` minutes from UTC).
#[derive(Debug, Clone, Copy)]
pub struct TomlDatetime {
    pub date: Option<(u16, u8, u8)>,
    pub time: Option<(u8, u8, u8, u32)>,
    pub offset: Option<Option<i16>>,
}

/// A TOML value as a mathematical object: what a `ConfigValue` holds, with
/// its texts as character sequences.
pub enum TomlView {
    Str(Seq<char>),
    Int(i64),
    Bool(bool),
    Array(Seq<TomlView>),
    Table(Seq<(Seq<char>, TomlView)>),
    Float(Seq<char>),
    Datetime(TomlDatetime),
}

/// The mathematical form of a value.
pub open spec fn value_view(v: ConfigValue) -> TomlView
    decreases v,
{
    match v {
        ConfigValue::Str(s) => TomlView::Str(s@),
        ConfigValue::Int(i) => TomlView::Int(i),
        ConfigValue::Bool(b) => TomlView::Bool(b),
        ConfigValue::Array(a) => {
            proof {
                assert(decreases_to!(a => a@));
            }
            TomlView::Array(items_view(a@))
        },
        ConfigValue::Table(t) => {
            proof {
                assert(decreases_to!(t => t@));
            }
            TomlView::Table(entries_view(t@))
        },
        ConfigValue::Float(f) => TomlView::Float(f@),
        ConfigValue::Datetime(d) => TomlView::Datetime(d),
    }
}

/// The mathematical form of each item of an array.
pub open spec fn items_view(s: Seq<ConfigValue>) -> Seq<TomlView>
    decreases s,
{
    if s.len() == 0 {
        Seq::empty()
    } else {
        items_view(s.drop_last()).push(value_view(s.last()))
    }
}

/// The mathematical form of each entry of a table.
pub open spec fn entries_view(t: Seq<(String, ConfigValue)>) -> Seq<(Seq<char>, TomlView)>
    decreases t,
{
    if t.len() == 0 {
        Seq::empty()
    } else {
        entries_view(t.drop_last()).push((t.last().0@, value_view(t.last().1)))
    }
}

impl View for ConfigValue {
    type V = TomlView;

    open spec fn view(&self) -> TomlView {
        value_view(*self)
    }
}

/// The value under `key` in a table's entries (a later entry wins, as in a map).
pub open spec fn table_get(t: Seq<(String, ConfigValue)>, key: Seq<char>) -> Option<ConfigValue>
    decreases t.len(),
{
    if t.len() == 0 {
        None
    } else if t.last().0@ == key {
        Some(t.last().1)
    } else {
        table_get(t.drop_last(), key)
    }
}

/// The value under `key` when `v` is a table.
pub open spec fn value_get(v: ConfigValue, key: Seq<char>) -> Option<ConfigValue> {
    match v {
        ConfigValue::Table(t) => table_get(t@, key),
        _ => None,
    }
}

/// The entries of `v` when it is a table.
pub open spec fn as_table(v: Option<ConfigValue>) -> Option<Seq<(String, ConfigValue)>> {
    match v {
        Some(ConfigValue::Table(t)) => Some(t@),
        _ => None,
    }
}

/// Look `key` up in a table's entries.
pub fn table_lookup<'a>(t: &'a Vec<(String, ConfigValue)>, key: &str) -> (r: Option<&'a ConfigValue>)
    ensures
        match r {
            Some(v) => table_get(t@, key@) == Some(*v),
            None => table_get(t@, key@) is None,
        },
{
    let mut i = t.len();
    assert(t@.take(i as int) =~= t@);
    while i > 0
        invariant
            i <= t@.len(),
            table_get(t@, key@) == table_get(t@.take(i as int), key@),
        decreases i,
    {
        assert(t@.take(i as int).drop_last() =~= t@.take(i - 1));
        if str_eq(t[i - 1].0.as_str(), key) {
            return Some(&t[i - 1].1);
        }
        i = i - 1;
    }
    None
}

/// Look `key` up when `v` is a table.
pub fn value_lookup<'a>(v: &'a ConfigValue, key: &str) -> (r: Option<&'a ConfigValue>)
    ensures
        match r {
            Some(x) => value_get(*v, key@) == Some(*x),
            None => value_get(*v, key@) is None,
        },
{
    match v {
        ConfigValue::Table(t) => table_lookup(t, key),
        _ => None,
    }
}

/// The `[server]` keys of `ruvo.toml`; `None` where a layer leaves a key unset.
#[derive(Debug, Default)]
pub struct ServerProfile {
    pub max_body: Option<String>,
    pub max_connections: Option<usize>,
    pub max_upgraded_connections: Option<usize>,
    pub max_concurrent_streams: Option<usize>,
    pub max_headers: Option<usize>,
    pub max_buf_size: Option<String>,
    pub request_timeout: Option<String>,
    pub header_read_timeout: Option<String>,
    pub idle_timeout: Option<String>,
    pub drain_timeout: Option<String>,
    pub keep_alive: Option<bool>,
    pub trust_proxy: Option<bool>,
}

/// A profile that sets nothing.
pub open spec fn empty_profile() -> ServerProfile {
    ServerProfile {
        max_body: None,
        max_connections: None,
        max_upgraded_connections: None,
        max_concurrent_streams: None,
        max_headers: None,
        max_buf_size: None,
        request_timeout: None,
        header_read_timeout: None,
        idle_timeout: None,
        drain_timeout: None,
        keep_alive: None,
        trust_proxy: None,
    }
}

/// A profile that sets nothing.
pub fn unset_profile() -> (r: ServerProfile)
    ensures
        r == empty_profile(),
{
    ServerProfile {
        max_body: None,
        max_connections: None,
        max_upgraded_connections: None,
        max_concurrent_streams: None,
        max_headers: None,
        max_buf_size: None,
        request_timeout: None,
        header_read_timeout: None,
        idle_timeout: None,
        drain_timeout: None,
        keep_alive: None,
        trust_proxy: None,
    }
}

/// `over`'s value where it has one, else `base`'s (`Option::or`).
pub open spec fn or_else<T>(over: Option<T>, base: Option<T>) -> Option<T> {
    match over {
        Some(x) => Some(x),
        None => base,
    }
}

/// Overlay `over` on `base`, key by key.
pub open spec fn spec_merge_server(base: ServerProfile, over: ServerProfile) -> ServerProfile {
    ServerProfile {
        max_body: or_else(over.max_body, base.max_body),
        max_connections: or_else(over.max_connections, base.max_connections),
        max_upgraded_connections: or_else(over.max_upgraded_connections, base.max_upgraded_connections),
        max_concurrent_streams: or_else(over.max_concurrent_streams, base.max_concurrent_streams),
        max_headers: or_else(over.max_headers, base.max_headers),
        max_buf_size: or_else(over.max_buf_size, base.max_buf_size),
        request_timeout: or_else(over.request_timeout, base.request_timeout),
        header_read_timeout: or_else(over.header_read_timeout, base.header_read_timeout),
        idle_timeout: or_else(over.idle_timeout, base.idle_timeout),
        drain_timeout: or_else(over.drain_timeout, base.drain_timeout),
        keep_alive: or_else(over.keep_alive, base.keep_alive),
        trust_proxy: or_else(over.trust_proxy, base.trust_proxy),
    }
}

/// `Option::or` on owned values.
fn pick<T>(over: Option<T>, base: Option<T>) -> (r: Option<T>)
    ensures
        r == or_else(over, base),
{
    match over {
        Some(x) => Some(x),
        None => base,
    }
}

/// Overlay a later layer on an earlier one: each key set in `over` wins.
pub fn merge_server(base: ServerProfile, over: ServerProfile) -> (r: ServerProfile)
    ensures
        r == spec_merge_server(base, over),
{
    ServerProfile {
        max_body: pick(over.max_body, base.max_body),
        max_connections: pick(over.max_connections, base.max_connections),
        max_upgraded_connections: pick(over.max_upgraded_connections, base.max_upgraded_connections),
        max_concurrent_streams: pick(over.max_concurrent_streams, base.max_concurrent_streams),
        max_headers: pick(over.max_headers, base.max_headers),
        max_buf_size: pick(over.max_buf_size, base.max_buf_size),
        request_timeout: pick(over.request_timeout, base.request_timeout),
        header_read_timeout: pick(over.header_read_timeout, base.header_read_timeout),
        idle_timeout: pick(over.idle_timeout, base.idle_timeout),
        drain_timeout: pick(over.drain_timeout, base.drain_timeout),
        keep_alive: pick(over.keep_alive, base.keep_alive),
        trust_proxy: pick(over.trust_proxy, base.trust_proxy),
    }
}

/// Overlaying an empty layer, or overlaying on an empty base, changes nothing.
pub proof fn law_merge_server_identity(p: ServerProfile)
    ensures
        spec_merge_server(empty_profile(), p) == p,
        spec_merge_server(p, empty_profile()) == p,
{
}

/// Overlays compose: applying `b` then `c` on `a` is applying `c`-over-`b` on `a`.
pub proof fn law_merge_server_assoc(a: ServerProfile, b: ServerProfile, c: ServerProfile)
    ensures
        spec_merge_server(spec_merge_server(a, b), c) == spec_merge_server(a, spec_merge_server(b, c)),
{
}

/// A key set by the overlay wins; a key it leaves unset keeps the base value.
pub proof fn law_merge_server_overlay_wins(base: ServerProfile, over: ServerProfile)
    ensures
        over.max_body is Some ==> spec_merge_server(base, over).max_body == over.max_body,
        over.max_body is None ==> spec_merge_server(base, over).max_body == base.max_body,
        over.max_connections is Some ==> spec_merge_server(base, over).max_connections == over.max_connections,
        over.max_connections is None ==> spec_merge_server(base, over).max_connections == base.max_connections,
        over.request_timeout is Some ==> spec_merge_server(base, over).request_timeout == over.request_timeout,
        over.request_timeout is None ==> spec_merge_server(base, over).request_timeout == base.request_timeout,
        over.trust_proxy is Some ==> spec_merge_server(base, over).trust_proxy == over.trust_proxy,
        over.trust_proxy is None ==> spec_merge_server(base, over).trust_proxy == base.trust_proxy,
{
}

/// A profile name with the legacy aliases mapped to the modern ones.
pub open spec fn spec_normalize_profile_name(raw: Seq<char>) -> Seq<char> {
    let t = trim_ws(raw);
    if t == "debug"@ {
        "development"@
    } else if t == "release"@ {
        "production"@
    } else {
        t
    }
}

/// Trim a profile name and map `debug` → `development`, `release` → `production`.
pub fn normalize_profile_name(raw: &str) -> (r: String)
    ensures
        r@ == spec_normalize_profile_name(raw@),
{
    let t = trim(raw);
    if str_eq(t, "debug") {
        String::from_str("development")
    } else if str_eq(t, "release") {
        String::from_str("production")
    } else {
        String::from_str(t)
    }
}

/// Normalizing a profile name twice gives the same name as once.
pub proof fn law_normalize_profile_idempotent(raw: Seq<char>)
    ensures
        spec_normalize_profile_name(spec_normalize_profile_name(raw)) == spec_normalize_profile_name(raw),
{
    reveal_strlit("development");
    reveal_strlit("production");
    reveal_strlit("debug");
    reveal_strlit("release");
    let t = trim_ws(raw);
    lemma_trim_ws_idempotent(raw);
    let d = "development"@;
    let p = "production"@;
    assert(crate::text::strip_leading_ws(d) == d);
    assert(crate::text::strip_trailing_ws(d) == d);
    assert(crate::text::strip_leading_ws(p) == p);
    assert(crate::text::strip_trailing_ws(p) == p);
}

/// The legacy table names merged besides the active profile.
pub open spec fn spec_profile_aliases(profile: Seq<char>) -> Seq<Seq<char>> {
    if profile == "development"@ {
        seq!["debug"@]
    } else if profile == "production"@ {
        seq!["release"@]
    } else {
        Seq::empty()
    }
}

/// Legacy profile tables to merge as well: `debug` for `development`,
/// `release` for `production`, none otherwise.
pub fn profile_aliases_for_merge(profile: &str) -> (r: Vec<&'static str>)
    ensures
        r@.len() == spec_profile_aliases(profile@).len(),
        forall|i: int| 0 <= i < r@.len() ==> (#[trigger] r@[i])@ == spec_profile_aliases(profile@)[i],
{
    let mut out: Vec<&'static str> = Vec::new();
    if str_eq(profile, "development") {
        out.push("debug");
    } else if str_eq(profile, "production") {
        out.push("release");
    }
    out
}

/// The active profile from `RUVO_PROFILE`, else `RUVO_ENV` (each normalized),
/// else the build's default.
pub open spec fn spec_active_profile(profile_var: Option<Seq<char>>, env_var: Option<Seq<char>>, debug_build: bool) -> Seq<char> {
    match profile_var {
        Some(p) => spec_normalize_profile_name(p),
        None => match env_var {
            Some(p) => spec_normalize_profile_name(p),
            None => if debug_build {
                "development"@
            } else {
                "production"@
            },
        },
    }
}

/// Pick the active profile from the values of `RUVO_PROFILE` and `RUVO_ENV`
/// (when set) and whether this is a debug build.
pub fn active_profile(profile_var: Option<&str>, env_var: Option<&str>, debug_build: bool) -> (r: String)
    ensures
        r@ == spec_active_profile(
            match profile_var {
                Some(p) => Some(p@),
                None => None,
            },
            match env_var {
                Some(p) => Some(p@),
                None => None,
            },
            debug_build,
        ),
{
    match profile_var {
        Some(p) => normalize_profile_name(p),
        None => match env_var {
            Some(p) => normalize_profile_name(p),
            None => if debug_build {
                String::from_str("development")
            } else {
                String::from_str("production")
            },
        },
    }
}

/// A string setting: unset, a string, or (`None`) a value of another type.
pub open spec fn str_setting(t: Seq<(String, ConfigValue)>, key: Seq<char>) -> Option<Option<String>> {
    match table_get(t, key) {
        None => Some(None),
        Some(ConfigValue::Str(s)) => Some(Some(s)),
        Some(_) => None,
    }
}

/// A count setting: unset, an integer that fits `usize`, or (`None`) anything else.
pub open spec fn count_setting(t: Seq<(String, ConfigValue)>, key: Seq<char>) -> Option<Option<usize>> {
    match table_get(t, key) {
        None => Some(None),
        Some(ConfigValue::Int(n)) => if 0 <= n && n <= usize::MAX {
            Some(Some(n as usize))
        } else {
            None
        },
        Some(_) => None,
    }
}

/// A switch setting: unset, a boolean, or (`None`) a value of another type.
pub open spec fn flag_setting(t: Seq<(String, ConfigValue)>, key: Seq<char>) -> Option<Option<bool>> {
    match table_get(t, key) {
        None => Some(None),
        Some(ConfigValue::Bool(b)) => Some(Some(b)),
        Some(_) => None,
    }
}

/// Every server key of the table has the type its setting takes.
pub open spec fn server_keys_typed(t: Seq<(String, ConfigValue)>) -> bool {
    &&& str_setting(t, "max_body"@) is Some
    &&& count_setting(t, "max_connections"@) is Some
    &&& count_setting(t, "max_upgraded_connections"@) is Some
    &&& count_setting(t, "max_concurrent_streams"@) is Some
    &&& count_setting(t, "max_headers"@) is Some
    &&& str_setting(t, "max_buf_size"@) is Some
    &&& str_setting(t, "request_timeout"@) is Some
    &&& str_setting(t, "header_read_timeout"@) is Some
    &&& str_setting(t, "idle_timeout"@) is Some
    &&& str_setting(t, "drain_timeout"@) is Some
    &&& flag_setting(t, "keep_alive"@) is Some
    &&& flag_setting(t, "trust_proxy"@) is Some
}

/// The server keys of a table as one layer; other keys are ignored, and a key
/// of the wrong type makes the whole layer empty (the typed read fails).
pub open spec fn spec_table_to_server(t: Seq<(String, ConfigValue)>) -> ServerProfile {
    if server_keys_typed(t) {
        ServerProfile {
            max_body: str_setting(t, "max_body"@)->0,
            max_connections: count_setting(t, "max_connections"@)->0,
            max_upgraded_connections: count_setting(t, "max_upgraded_connections"@)->0,
            max_concurrent_streams: count_setting(t, "max_concurrent_streams"@)->0,
            max_headers: count_setting(t, "max_headers"@)->0,
            max_buf_size: str_setting(t, "max_buf_size"@)->0,
            request_timeout: str_setting(t, "request_timeout"@)->0,
            header_read_timeout: str_setting(t, "header_read_timeout"@)->0,
            idle_timeout: str_setting(t, "idle_timeout"@)->0,
            drain_timeout: str_setting(t, "drain_timeout"@)->0,
            keep_alive: flag_setting(t, "keep_alive"@)->0,
            trust_proxy: flag_setting(t, "trust_proxy"@)->0,
        }
    } else {
        empty_profile()
    }
}

/// Read a string setting.
fn read_str(t: &Vec<(String, ConfigValue)>, key: &str) -> (r: Option<Option<String>>)
    ensures
        r == str_setting(t@, key@),
{
    match table_lookup(t, key) {
        None => Some(None),
        Some(ConfigValue::Str(s)) => Some(Some(s.clone())),
        Some(_) => None,
    }
}

/// Read a count setting.
fn read_count(t: &Vec<(String, ConfigValue)>, key: &str) -> (r: Option<Option<usize>>)
    ensures
        r == count_setting(t@, key@),
{
    match table_lookup(t, key) {
        None => Some(None),
        Some(ConfigValue::Int(n)) => {
            let n: i64 = *n;
            if n < 0 {
                None
            } else if (n as u64) as u128 > usize::MAX as u128 {
                None
            } else {
                Some(Some(n as usize))
            }
        },
        Some(_) => None,
    }
}

/// Read a switch setting.
fn read_flag(t: &Vec<(String, ConfigValue)>, key: &str) -> (r: Option<Option<bool>>)
    ensures
        r == flag_setting(t@, key@),
{
    match table_lookup(t, key) {
        None => Some(None),
        Some(ConfigValue::Bool(b)) => Some(Some(*b)),
        Some(_) => None,
    }
}

/// The server layer a table describes.
pub fn table_to_server(table: &Vec<(String, ConfigValue)>) -> (r: ServerProfile)
    ensures
        r == spec_table_to_server(table@),
{
    let max_body = read_str(table, "max_body");
    let max_connections = read_count(table, "max_connections");
    let max_upgraded_connections = read_count(table, "max_upgraded_connections");
    let max_concurrent_streams = read_count(table, "max_concurrent_streams");
    let max_headers = read_count(table, "max_headers");
    let max_buf_size = read_str(table, "max_buf_size");
    let request_timeout = read_str(table, "request_timeout");
    let header_read_timeout = read_str(table, "header_read_timeout");
    let idle_timeout = read_str(table, "idle_timeout");
    let drain_timeout = read_str(table, "drain_timeout");
    let keep_alive = read_flag(table, "keep_alive");
    let trust_proxy = read_flag(table, "trust_proxy");
    match (
        max_body,
        max_connections,
        max_upgraded_connections,
        max_concurrent_streams,
        max_headers,
        max_buf_size,
        request_timeout,
        header_read_timeout,
        idle_timeout,
        drain_timeout,
        keep_alive,
        trust_proxy,
    ) {
        (
            Some(a),
            Some(b),
            Some(c),
            Some(d),
            Some(e),
            Some(f),
            Some(g),
            Some(h),
            Some(i),
            Some(j),
            Some(k),
            Some(l),
        ) => ServerProfile {
            max_body: a,
            max_connections: b,
            max_upgraded_connections: c,
            max_concurrent_streams: d,
            max_headers: e,
            max_buf_size: f,
            request_timeout: g,
            header_read_timeout: h,
            idle_timeout: i,
            drain_timeout: j,
            keep_alive: k,
            trust_proxy: l,
        },
        _ => unset_profile(),
    }
}

/// The layer a profile table adds: its `server` subtable, or its own keys
/// when it has none (the legacy flat layout).
pub open spec fn profile_layer(prof: Seq<(String, ConfigValue)>) -> ServerProfile {
    match as_table(table_get(prof, "server"@)) {
        Some(server) => spec_table_to_server(server),
        None => spec_table_to_server(prof),
    }
}

/// `merged` with the layer of profile table `name`, when the root has one.
pub open spec fn overlay_profile(merged: ServerProfile, root: ConfigValue, name: Seq<char>) -> ServerProfile {
    match as_table(value_get(root, name)) {
        Some(prof) => spec_merge_server(merged, profile_layer(prof)),
        None => merged,
    }
}

/// `merged` with the layers of the named profile tables, in order.
pub open spec fn overlay_profiles(merged: ServerProfile, root: ConfigValue, names: Seq<Seq<char>>) -> ServerProfile
    decreases names.len(),
{
    if names.len() == 0 {
        merged
    } else {
        overlay_profile(overlay_profiles(merged, root, names.drop_last()), root, names.last())
    }
}

/// The server settings of a document: `[server]`, then `[default]` (its
/// `server` subtable or flat keys), then the active profile and its legacy
/// alias, each later layer winning key by key.
pub open spec fn spec_resolve_server(root: ConfigValue, profile: Seq<char>) -> ServerProfile {
    let canon = match as_table(value_get(root, "server"@)) {
        Some(t) => spec_merge_server(empty_profile(), spec_table_to_server(t)),
        None => empty_profile(),
    };
    let with_default = overlay_profile(canon, root, "default"@);
    overlay_profiles(with_default, root, seq![profile] + spec_profile_aliases(profile))
}

/// `merged` with the layer of profile table `name`, when the root has one.
fn overlay_profile_exec(merged: ServerProfile, root: &ConfigValue, name: &str) -> (r: ServerProfile)
    ensures
        r == overlay_profile(merged, *root, name@),
{
    match value_lookup(root, name) {
        Some(ConfigValue::Table(prof)) => {
            let layer = match table_lookup(prof, "server") {
                Some(ConfigValue::Table(server)) => table_to_server(server),
                _ => table_to_server(prof),
            };
            merge_server(merged, layer)
        },
        _ => merged,
    }
}

/// Resolve the server settings of a document for the active profile.
pub fn resolve_server(root: &ConfigValue, profile: &str) -> (r: ServerProfile)
    ensures
        r == spec_resolve_server(*root, profile@),
{
    let mut merged = unset_profile();
    match value_lookup(root, "server") {
        Some(ConfigValue::Table(t)) => {
            merged = merge_server(merged, table_to_server(t));
        },
        _ => {},
    }
    merged = overlay_profile_exec(merged, root, "default");
    let ghost names = seq![profile@] + spec_profile_aliases(profile@);
    let ghost start = merged;
    merged = overlay_profile_exec(merged, root, profile);
    proof {
        assert(names.take(1).drop_last() =~= Seq::<Seq<char>>::empty());
        assert(names.take(1).last() == profile@);
        assert(overlay_profiles(start, *root, names.take(1).drop_last()) == start);
        assert(overlay_profiles(start, *root, names.take(1)) == merged);
    }
    let aliases = profile_aliases_for_merge(profile);
    let mut i: usize = 0;
    while i < aliases.len()
        invariant
            names == seq![profile@] + spec_profile_aliases(profile@),
            aliases@.len() == spec_profile_aliases(profile@).len(),
            forall|k: int| 0 <= k < aliases@.len() ==> (#[trigger] aliases@[k])@ == spec_profile_aliases(profile@)[k],
            i <= aliases@.len(),
            merged == overlay_profiles(start, *root, names.take(i + 1)),
        decreases aliases@.len() - i,
    {
        proof {
            assert(names.take(i + 2).drop_last() =~= names.take(i + 1));
            assert(names.take(i + 2).last() == aliases@[i as int]@);
        }
        merged = overlay_profile_exec(merged, root, aliases[i]);
        i = i + 1;
    }
    assert(names.take(aliases@.len() + 1 as int) =~= names);
    merged
}

/// The settings a layer of configuration applies to the server; `None` leaves
/// a setting as it was. Sizes and durations are kept as their checked text
/// (see `human::size_parts` / `human::duration_parts`): their values are
/// floating-point arithmetic, done where the settings are applied.
/// `request_timeout` is `Some(None)` for `off` / `none`.
#[derive(Debug)]
pub struct ServerSettings {
    pub max_body_size: Option<String>,
    pub max_connections: Option<usize>,
    pub max_upgraded_connections: Option<usize>,
    pub max_concurrent_streams: Option<usize>,
    pub max_headers: Option<usize>,
    pub max_buf_size: Option<String>,
    pub request_timeout: Option<Option<String>>,
    pub header_read_timeout: Option<String>,
    pub idle_timeout: Option<String>,
    pub drain_timeout: Option<String>,
    pub keep_alive: Option<bool>,
    pub trust_proxy: Option<bool>,
}

/// A size setting, checked: kept when it is a valid size, else its error.
pub open spec fn bytes_setting(s: Option<String>) -> Result<Option<String>, Seq<char>> {
    match s {
        None => Ok(None),
        Some(x) => match spec_size_parts(x@) {
            Ok(_) => Ok(Some(x)),
            Err(e) => Err(e),
        },
    }
}

/// A duration setting, checked: kept when it is a valid duration, else its error.
pub open spec fn duration_setting(s: Option<String>) -> Result<Option<String>, Seq<char>> {
    match s {
        None => Ok(None),
        Some(x) => match spec_duration_parts(x@) {
            Ok(_) => Ok(Some(x)),
            Err(e) => Err(e),
        },
    }
}

/// `off` / `none` in any ASCII case.
pub open spec fn is_off(s: Seq<char>) -> bool {
    eq_ignore_ascii_case(s, "off"@) || eq_ignore_ascii_case(s, "none"@)
}

/// What `parse_timeout_env` gives: no timeout for `off` / `none`, else the
/// duration's number and unit, or its error.
pub open spec fn spec_parse_timeout(s: Seq<char>) -> Result<Option<(Seq<char>, DurationUnit)>, Seq<char>> {
    if is_off(s) {
        Ok(None)
    } else {
        match spec_duration_parts(s) {
            Ok(p) => Ok(Some(p)),
            Err(e) => Err(e),
        }
    }
}

/// A request-timeout setting, checked: `Some(None)` when off.
pub open spec fn timeout_setting(s: Option<String>) -> Result<Option<Option<String>>, Seq<char>> {
    match s {
        None => Ok(None),
        Some(x) => if is_off(x@) {
            Ok(Some(None))
        } else {
            match spec_duration_parts(x@) {
                Ok(_) => Ok(Some(Some(x))),
                Err(e) => Err(e),
            }
        },
    }
}

/// Read a timeout value: `off` / `none` (any ASCII case) disable it; otherwise
/// its number and unit.
pub fn parse_timeout_env(s: &str) -> (r: Result<Option<(&str, DurationUnit)>, String>)
    ensures
        match r {
            Ok(None) => spec_parse_timeout(s@) == Ok::<Option<(Seq<char>, DurationUnit)>, Seq<char>>(None),
            Ok(Some((n, u))) => spec_parse_timeout(s@) == Ok::<Option<(Seq<char>, DurationUnit)>, Seq<char>>(
                Some((n@, u)),
            ),
            Err(e) => spec_parse_timeout(s@) == Err::<Option<(Seq<char>, DurationUnit)>, Seq<char>>(e@),
        },
{
    if str_eq_ignore_ascii_case(s, "off") || str_eq_ignore_ascii_case(s, "none") {
        Ok(None)
    } else {
        match duration_parts(s) {
            Ok(p) => Ok(Some(p)),
            Err(e) => Err(e),
        }
    }
}

/// The settings of a resolved profile: sizes and durations checked in the
/// order `max_body`, `max_buf_size`, `request_timeout`, `header_read_timeout`,
/// `idle_timeout`, `drain_timeout`; the first one refused is the error.
pub open spec fn spec_server_settings(p: ServerProfile) -> Result<ServerSettings, Seq<char>> {
    match bytes_setting(p.max_body) {
        Err(e) => Err(e),
        Ok(max_body_size) => match bytes_setting(p.max_buf_size) {
            Err(e) => Err(e),
            Ok(max_buf_size) => match timeout_setting(p.request_timeout) {
                Err(e) => Err(e),
                Ok(request_timeout) => match duration_setting(p.header_read_timeout) {
                    Err(e) => Err(e),
                    Ok(header_read_timeout) => match duration_setting(p.idle_timeout) {
                        Err(e) => Err(e),
                        Ok(idle_timeout) => match duration_setting(p.drain_timeout) {
                            Err(e) => Err(e),
                            Ok(drain_timeout) => Ok(
                                ServerSettings {
                                    max_body_size,
                                    max_connections: p.max_connections,
                                    max_upgraded_connections: p.max_upgraded_connections,
                                    max_concurrent_streams: p.max_concurrent_streams,
                                    max_headers: p.max_headers,
                                    max_buf_size,
                                    request_timeout,
                                    header_read_timeout,
                                    idle_timeout,
                                    drain_timeout,
                                    keep_alive: p.keep_alive,
                                    trust_proxy: p.trust_proxy,
                                },
                            ),
                        },
                    },
                },
            },
        },
    }
}

/// Check an optional size.
fn read_bytes(s: &Option<String>) -> (r: Result<Option<String>, String>)
    ensures
        match r {
            Ok(v) => bytes_setting(*s) == Ok::<Option<String>, Seq<char>>(v),
            Err(e) => bytes_setting(*s) == Err::<Option<String>, Seq<char>>(e@),
        },
{
    match s {
        None => Ok(None),
        Some(x) => match size_parts(x.as_str()) {
            Ok(_) => Ok(Some(x.clone())),
            Err(e) => Err(e),
        },
    }
}

/// Check an optional duration.
fn read_duration(s: &Option<String>) -> (r: Result<Option<String>, String>)
    ensures
        match r {
            Ok(v) => duration_setting(*s) == Ok::<Option<String>, Seq<char>>(v),
            Err(e) => duration_setting(*s) == Err::<Option<String>, Seq<char>>(e@),
        },
{
    match s {
        None => Ok(None),
        Some(x) => match duration_parts(x.as_str()) {
            Ok(_) => Ok(Some(x.clone())),
            Err(e) => Err(e),
        },
    }
}

/// Check an optional request timeout.
fn read_timeout(s: &Option<String>) -> (r: Result<Option<Option<String>>, String>)
    ensures
        match r {
            Ok(v) => timeout_setting(*s) == Ok::<Option<Option<String>>, Seq<char>>(v),
            Err(e) => timeout_setting(*s) == Err::<Option<Option<String>>, Seq<char>>(e@),
        },
{
    match s {
        None => Ok(None),
        Some(x) => match parse_timeout_env(x.as_str()) {
            Ok(None) => Ok(Some(None)),
            Ok(Some(_)) => Ok(Some(Some(x.clone()))),
            Err(e) => Err(e),
        },
    }
}

/// Turn a resolved profile into the settings to apply.
pub fn server_settings(p: &ServerProfile) -> (r: Result<ServerSettings, String>)
    ensures
        match r {
            Ok(s) => spec_server_settings(*p) == Ok::<ServerSettings, Seq<char>>(s),
            Err(e) => spec_server_settings(*p) == Err::<ServerSettings, Seq<char>>(e@),
        },
{
    let max_body_size = match read_bytes(&p.max_body) {
        Ok(v) => v,
        Err(e) => return Err(e),
    };
    let max_buf_size = match read_bytes(&p.max_buf_size) {
        Ok(v) => v,
        Err(e) => return Err(e),
    };
    let request_timeout = match read_timeout(&p.request_timeout) {
        Ok(v) => v,
        Err(e) => return Err(e),
    };
    let header_read_timeout = match read_duration(&p.header_read_timeout) {
        Ok(v) => v,
        Err(e) => return Err(e),
    };
    let idle_timeout = match read_duration(&p.idle_timeout) {
        Ok(v) => v,
        Err(e) => return Err(e),
    };
    let drain_timeout = match read_duration(&p.drain_timeout) {
        Ok(v) => v,
        Err(e) => return Err(e),
    };
    Ok(
        ServerSettings {
            max_body_size,
            max_connections: p.max_connections,
            max_upgraded_connections: p.max_upgraded_connections,
            max_concurrent_streams: p.max_concurrent_streams,
            max_headers: p.max_headers,
            max_buf_size,
            request_timeout,
            header_read_timeout,
            idle_timeout,
            drain_timeout,
            keep_alive: p.keep_alive,
            trust_proxy: p.trust_proxy,
        },
    )
}

/// The values of the `RUVO_*` override variables that are set.
#[derive(Debug)]
pub struct EnvOverrides {
    pub max_body: Option<String>,
    pub max_connections: Option<String>,
    pub max_upgraded_connections: Option<String>,
    pub max_concurrent_streams: Option<String>,
    pub max_headers: Option<String>,
    pub max_buf_size: Option<String>,
    pub request_timeout: Option<String>,
    pub header_read_timeout: Option<String>,
    pub idle_timeout: Option<String>,
    pub drain_timeout: Option<String>,
    pub keep_alive: Option<String>,
    pub trust_proxy: Option<String>,
}

/// A count variable, parsed; the error names the variable and its value.
pub open spec fn count_env(s: Option<String>, var: Seq<char>) -> Result<Option<usize>, Seq<char>> {
    match s {
        None => Ok(None),
        Some(x) => match spec_parse_usize(x@) {
            Some(n) => Ok(Some(n as usize)),
            None => Err(var + ": "@ + x@),
        },
    }
}

/// A switch variable: on for `1`, `true`, `TRUE` or `yes`, off for anything else.
pub open spec fn flag_env(s: Option<String>) -> Option<bool> {
    match s {
        None => None,
        Some(x) => Some(x@ == "1"@ || x@ == "true"@ || x@ == "TRUE"@ || x@ == "yes"@),
    }
}

/// The settings the override variables apply, read in the order of the
/// fields of `EnvOverrides`; the first value refused is the error.
pub open spec fn spec_env_settings(v: EnvOverrides) -> Result<ServerSettings, Seq<char>> {
    match bytes_setting(v.max_body) {
        Err(e) => Err(e),
        Ok(max_body_size) => match count_env(v.max_connections, "RUVO_MAX_CONNECTIONS"@) {
            Err(e) => Err(e),
            Ok(max_connections) => match count_env(v.max_upgraded_connections, "RUVO_MAX_UPGRADED_CONNECTIONS"@) {
                Err(e) => Err(e),
                Ok(max_upgraded_connections) => match count_env(v.max_concurrent_streams, "RUVO_MAX_CONCURRENT_STREAMS"@) {
                    Err(e) => Err(e),
                    Ok(max_concurrent_streams) => match count_env(v.max_headers, "RUVO_MAX_HEADERS"@) {
                        Err(e) => Err(e),
                        Ok(max_headers) => match bytes_setting(v.max_buf_size) {
                            Err(e) => Err(e),
                            Ok(max_buf_size) => match timeout_setting(v.request_timeout) {
                                Err(e) => Err(e),
                                Ok(request_timeout) => match duration_setting(v.header_read_timeout) {
                                    Err(e) => Err(e),
                                    Ok(header_read_timeout) => match duration_setting(v.idle_timeout) {
                                        Err(e) => Err(e),
                                        Ok(idle_timeout) => match duration_setting(v.drain_timeout) {
                                            Err(e) => Err(e),
                                            Ok(drain_timeout) => Ok(
                                                ServerSettings {
                                                    max_body_size,
                                                    max_connections,
                                                    max_upgraded_connections,
                                                    max_concurrent_streams,
                                                    max_headers,
                                                    max_buf_size,
                                                    request_timeout,
                                                    header_read_timeout,
                                                    idle_timeout,
                                                    drain_timeout,
                                                    keep_alive: flag_env(v.keep_alive),
                                                    trust_proxy: flag_env(v.trust_proxy),
                                                },
                                            ),
                                        },
                                    },
                                },
                            },
                        },
                    },
                },
            },
        },
    }
}

/// Parse an optional count variable.
fn read_count_env(s: &Option<String>, var: &str) -> (r: Result<Option<usize>, String>)
    ensures
        match r {
            Ok(v) => count_env(*s, var@) == Ok::<Option<usize>, Seq<char>>(v),
            Err(e) => count_env(*s, var@) == Err::<Option<usize>, Seq<char>>(e@),
        },
{
    match s {
        None => Ok(None),
        Some(x) => match parse_usize(x.as_str()) {
            Some(n) => Ok(Some(n)),
            None => {
                let mut e = String::from_str(var);
                e.append(": ");
                e.append(x.as_str());
                Err(e)
            },
        },
    }
}

/// Read an optional switch variable.
fn read_flag_env(s: &Option<String>) -> (r: Option<bool>)
    ensures
        r == flag_env(*s),
{
    match s {
        None => None,
        Some(x) => {
            let t = x.as_str();
            Some(str_eq(t, "1") || str_eq(t, "true") || str_eq(t, "TRUE") || str_eq(t, "yes"))
        },
    }
}

/// The settings that the `RUVO_*` variables override.
pub fn env_settings(v: &EnvOverrides) -> (r: Result<ServerSettings, String>)
    ensures
        match r {
            Ok(s) => spec_env_settings(*v) == Ok::<ServerSettings, Seq<char>>(s),
            Err(e) => spec_env_settings(*v) == Err::<ServerSettings, Seq<char>>(e@),
        },
{
    let max_body_size = match read_bytes(&v.max_body) {
        Ok(x) => x,
        Err(e) => return Err(e),
    };
    let max_connections = match read_count_env(&v.max_connections, "RUVO_MAX_CONNECTIONS") {
        Ok(x) => x,
        Err(e) => return Err(e),
    };
    let max_upgraded_connections = match read_count_env(
        &v.max_upgraded_connections,
        "RUVO_MAX_UPGRADED_CONNECTIONS",
    ) {
        Ok(x) => x,
        Err(e) => return Err(e),
    };
    let max_concurrent_streams = match read_count_env(&v.max_concurrent_streams, "RUVO_MAX_CONCURRENT_STREAMS") {
        Ok(x) => x,
        Err(e) => return Err(e),
    };
    let max_headers = match read_count_env(&v.max_headers, "RUVO_MAX_HEADERS") {
        Ok(x) => x,
        Err(e) => return Err(e),
    };
    let max_buf_size = match read_bytes(&v.max_buf_size) {
        Ok(x) => x,
        Err(e) => return Err(e),
    };
    let request_timeout = match read_timeout(&v.request_timeout) {
        Ok(x) => x,
        Err(e) => return Err(e),
    };
    let header_read_timeout = match read_duration(&v.header_read_timeout) {
        Ok(x) => x,
        Err(e) => return Err(e),
    };
    let idle_timeout = match read_duration(&v.idle_timeout) {
        Ok(x) => x,
        Err(e) => return Err(e),
    };
    let drain_timeout = match read_duration(&v.drain_timeout) {
        Ok(x) => x,
        Err(e) => return Err(e),
    };
    Ok(
        ServerSettings {
            max_body_size,
            max_connections,
            max_upgraded_connections,
            max_concurrent_streams,
            max_headers,
            max_buf_size,
            request_timeout,
            header_read_timeout,
            idle_timeout,
            drain_timeout,
            keep_alive: read_flag_env(&v.keep_alive),
            trust_proxy: read_flag_env(&v.trust_proxy),
        },
    )
}

/// A parsed `ruvo.toml` and the active profile, kept for plugins.
#[derive(Debug)]
pub struct ConfigDoc {
    /// The root table (`server`, `mail`, profile names, ...).
    pub root: ConfigValue,
    /// The active profile (`development` / `production` / `test` / custom).
    pub profile: String,
}

/// A table's entries as a map (a later entry for a key wins).
pub open spec fn table_map(t: Seq<(String, ConfigValue)>) -> Map<Seq<char>, ConfigValue>
    decreases t.len(),
{
    if t.len() == 0 {
        Map::empty()
    } else {
        table_map(t.drop_last()).insert(t.last().0@, t.last().1)
    }
}

/// Borrowed entries as a map (a later entry for a key wins).
pub open spec fn entries_map(s: Seq<(&str, &ConfigValue)>) -> Map<Seq<char>, ConfigValue>
    decreases s.len(),
{
    if s.len() == 0 {
        Map::empty()
    } else {
        entries_map(s.drop_last()).insert(s.last().0@, *s.last().1)
    }
}

/// No key occurs twice.
pub open spec fn distinct_keys(s: Seq<(&str, &ConfigValue)>) -> bool {
    forall|i: int, j: int| 0 <= i < j < s.len() ==> (#[trigger] s[i]).0@ != (#[trigger] s[j]).0@
}

/// Replacing the value of a key that occurs once updates the map at that key.
proof fn lemma_entries_map_update(s: Seq<(&str, &ConfigValue)>, j: int, e: (&str, &ConfigValue))
    requires
        distinct_keys(s),
        0 <= j < s.len(),
        s[j].0@ == e.0@,
    ensures
        entries_map(s.update(j, e)) == entries_map(s).insert(e.0@, *e.1),
    decreases s.len(),
{
    let u = s.update(j, e);
    if j == s.len() - 1 {
        assert(u.drop_last() =~= s.drop_last());
        assert(entries_map(u) =~= entries_map(s).insert(e.0@, *e.1));
    } else {
        assert(u.drop_last() =~= s.drop_last().update(j, e));
        assert(distinct_keys(s.drop_last()));
        lemma_entries_map_update(s.drop_last(), j, e);
        assert(s.last().0@ != e.0@) by {
            assert(s[j].0@ != s[s.len() - 1].0@);
        }
        assert(entries_map(u) =~= entries_map(s).insert(e.0@, *e.1));
    }
}

/// A key that occurs in the entries is in the map.
proof fn lemma_entries_map_has(s: Seq<(&str, &ConfigValue)>, j: int)
    requires
        0 <= j < s.len(),
    ensures
        entries_map(s).contains_key(s[j].0@),
    decreases s.len(),
{
    if j < s.len() - 1 {
        lemma_entries_map_has(s.drop_last(), j);
    }
}

/// A key that occurs nowhere in the entries is not in the map.
proof fn lemma_entries_map_lacks(s: Seq<(&str, &ConfigValue)>, k: Seq<char>)
    requires
        forall|j: int| 0 <= j < s.len() ==> (#[trigger] s[j]).0@ != k,
    ensures
        !entries_map(s).contains_key(k),
    decreases s.len(),
{
    if s.len() > 0 {
        lemma_entries_map_lacks(s.drop_last(), k);
    }
}

/// Position of `key` among the entries.
fn entry_index(out: &Vec<(&str, &ConfigValue)>, key: &str) -> (r: Option<usize>)
    ensures
        match r {
            Some(j) => j < out@.len() && out@[j as int].0@ == key@,
            None => forall|j: int| 0 <= j < out@.len() ==> (#[trigger] out@[j]).0@ != key@,
        },
{
    let mut j: usize = 0;
    while j < out.len()
        invariant
            j <= out@.len(),
            forall|k: int| 0 <= k < j ==> (#[trigger] out@[k]).0@ != key@,
        decreases out@.len() - j,
    {
        if str_eq(out[j].0, key) {
            return Some(j);
        }
        j = j + 1;
    }
    None
}

/// Put one entry: replace the value of its key, or add the key at the end.
fn put_entry<'a>(out: &mut Vec<(&'a str, &'a ConfigValue)>, key: &'a str, value: &'a ConfigValue)
    requires
        distinct_keys(old(out)@),
    ensures
        distinct_keys(final(out)@),
        entries_map(final(out)@) == entries_map(old(out)@).insert(key@, *value),
{
    match entry_index(out, key) {
        Some(j) => {
            proof {
                lemma_entries_map_update(out@, j as int, (key, value));
            }
            out.set(j, (key, value));
            assert(distinct_keys(out@)) by {
                assert forall|a: int, b: int| 0 <= a < b < out@.len() implies (#[trigger] out@[a]).0@ != (#[trigger] out@[b]).0@ by {
                    if a == j as int {
                        assert(old(out)@[b].0@ != old(out)@[a].0@);
                    } else if b == j as int {
                        assert(old(out)@[b].0@ != old(out)@[a].0@);
                    } else {
                        assert(old(out)@[a] == out@[a]);
                    }
                }
            }
        },
        None => {
            let ghost before = out@;
            out.push((key, value));
            assert(out@.drop_last() =~= before);
            assert(distinct_keys(out@)) by {
                assert forall|a: int, b: int| 0 <= a < b < out@.len() implies (#[trigger] out@[a]).0@ != (#[trigger] out@[b]).0@ by {
                    if b == out@.len() - 1 {
                        assert(before[a].0@ != key@);
                    } else {
                        assert(before[a] == out@[a] && before[b] == out@[b]);
                    }
                }
            }
        },
    }
}

/// Overlay a table's entries on `out`, key by key (`Map::extend`).
fn extend_entries<'a>(out: &mut Vec<(&'a str, &'a ConfigValue)>, t: &'a Vec<(String, ConfigValue)>)
    requires
        distinct_keys(old(out)@),
    ensures
        distinct_keys(final(out)@),
        entries_map(final(out)@) == entries_map(old(out)@).union_prefer_right(table_map(t@)),
{
    let ghost start = entries_map(out@);
    let mut i: usize = 0;
    assert(t@.take(0) =~= Seq::<(String, ConfigValue)>::empty());
    assert(entries_map(out@) =~= start.union_prefer_right(table_map(t@.take(0))));
    while i < t.len()
        invariant
            i <= t@.len(),
            distinct_keys(out@),
            entries_map(out@) == start.union_prefer_right(table_map(t@.take(i as int))),
        decreases t@.len() - i,
    {
        put_entry(out, t[i].0.as_str(), &t[i].1);
        proof {
            assert(t@.take(i + 1).drop_last() =~= t@.take(i as int));
            assert(entries_map(out@) =~= start.union_prefer_right(table_map(t@.take(i + 1))));
        }
        i = i + 1;
    }
    assert(t@.take(t@.len() as int) =~= t@);
}

/// The entries of subtable `section` of the root's table `name`, as a map.
pub open spec fn nested_layer(root: ConfigValue, name: Seq<char>, section: Seq<char>) -> Map<Seq<char>, ConfigValue> {
    match value_get(root, name) {
        Some(d) => match as_table(value_get(d, section)) {
            Some(t) => table_map(t),
            None => Map::empty(),
        },
        None => Map::empty(),
    }
}

/// `m` overlaid with the `section` subtables of the named profile tables, in order.
pub open spec fn alias_layers(m: Map<Seq<char>, ConfigValue>, root: ConfigValue, names: Seq<Seq<char>>, section: Seq<char>) -> Map<Seq<char>, ConfigValue>
    decreases names.len(),
{
    if names.len() == 0 {
        m
    } else {
        alias_layers(m, root, names.drop_last(), section).union_prefer_right(
            nested_layer(root, names.last(), section),
        )
    }
}

/// The merged section: `[section]` (except for `http`), then `[default.section]`,
/// then `[<profile>.section]`, then the legacy alias's, later keys winning.
pub open spec fn spec_section_map(root: ConfigValue, profile: Seq<char>, section: Seq<char>) -> Map<Seq<char>, ConfigValue> {
    let top = if section != "http"@ {
        match as_table(value_get(root, section)) {
            Some(t) => table_map(t),
            None => Map::empty(),
        }
    } else {
        Map::empty()
    };
    alias_layers(
        top.union_prefer_right(nested_layer(root, "default"@, section)).union_prefer_right(
            nested_layer(root, profile, section),
        ),
        root,
        spec_profile_aliases(profile),
        section,
    )
}

/// Overlay the `section` subtable of the root's table `name` on `out`.
fn extend_nested<'a>(out: &mut Vec<(&'a str, &'a ConfigValue)>, root: &'a ConfigValue, name: &str, section: &str)
    requires
        distinct_keys(old(out)@),
    ensures
        distinct_keys(final(out)@),
        entries_map(final(out)@) == entries_map(old(out)@).union_prefer_right(nested_layer(*root, name@, section@)),
{
    match value_lookup(root, name) {
        Some(d) => match value_lookup(d, section) {
            Some(ConfigValue::Table(t)) => extend_entries(out, t),
            _ => {
                assert(entries_map(out@) =~= entries_map(out@).union_prefer_right(Map::empty()));
            },
        },
        None => {
            assert(entries_map(out@) =~= entries_map(out@).union_prefer_right(Map::empty()));
        },
    }
}

impl ConfigDoc {
    /// Merge `[section]` + `[default.section]` + `[<profile>.section]` (shallow);
    /// `None` when no layer sets any key. The entries borrow from the document.
    pub fn section<'a>(&'a self, section: &str) -> (r: Option<Vec<(&'a str, &'a ConfigValue)>>)
        ensures
            match r {
                Some(v) => distinct_keys(v@) && entries_map(v@) == spec_section_map(self.root, self.profile@, section@)
                    && v@.len() > 0,
                None => spec_section_map(self.root, self.profile@, section@) == Map::<Seq<char>, ConfigValue>::empty(),
            },
    {
        let mut out: Vec<(&'a str, &'a ConfigValue)> = Vec::new();
        if !str_eq(section, "http") {
            match value_lookup(&self.root, section) {
                Some(ConfigValue::Table(t)) => extend_entries(&mut out, t),
                _ => {},
            }
        }
        assert(entries_map(out@) =~= (if section@ != "http"@ {
            match as_table(value_get(self.root, section@)) {
                Some(t) => table_map(t),
                None => Map::empty(),
            }
        } else {
            Map::empty()
        }));
        extend_nested(&mut out, &self.root, "default", section);
        extend_nested(&mut out, &self.root, self.profile.as_str(), section);
        let ghost base = entries_map(out@);
        let aliases = profile_aliases_for_merge(self.profile.as_str());
        let ghost names = spec_profile_aliases(self.profile@);
        let mut i: usize = 0;
        assert(names.take(0) =~= Seq::<Seq<char>>::empty());
        while i < aliases.len()
            invariant
                names == spec_profile_aliases(self.profile@),
                aliases@.len() == names.len(),
                forall|k: int| 0 <= k < aliases@.len() ==> (#[trigger] aliases@[k])@ == names[k],
                i <= aliases@.len(),
                distinct_keys(out@),
                entries_map(out@) == alias_layers(base, self.root, names.take(i as int), section@),
            decreases aliases@.len() - i,
        {
            extend_nested(&mut out, &self.root, aliases[i], section);
            proof {
                assert(names.take(i + 1).drop_last() =~= names.take(i as int));
            }
            i = i + 1;
        }
        assert(names.take(aliases@.len() as int) =~= names);
        if out.len() == 0 {
            assert(entries_map(out@) =~= Map::<Seq<char>, ConfigValue>::empty());
            None
        } else {
            Some(out)
        }
    }
}

/// Named client tables, merged: each client's keys, later layers winning.
pub open spec fn merge_clients(dest: Map<Seq<char>, Map<Seq<char>, ConfigValue>>, h: Seq<(String, ConfigValue)>) -> Map<Seq<char>, Map<Seq<char>, ConfigValue>>
    decreases h.len(),
{
    if h.len() == 0 {
        dest
    } else {
        let d = merge_clients(dest, h.drop_last());
        let k = h.last().0@;
        match h.last().1 {
            ConfigValue::Table(t) => d.insert(
                k,
                (if d.contains_key(k) {
                    d[k]
                } else {
                    Map::empty()
                }).union_prefer_right(table_map(t@)),
            ),
            _ => d,
        }
    }
}

/// The `http` subtable of the root's table `name`.
pub open spec fn nested_http(root: ConfigValue, name: Seq<char>) -> Seq<(String, ConfigValue)> {
    match value_get(root, name) {
        Some(d) => match as_table(value_get(d, "http"@)) {
            Some(t) => t,
            None => Seq::empty(),
        },
        None => Seq::empty(),
    }
}

/// Clients merged from the `http` tables of the named profiles, in order.
pub open spec fn alias_clients(c: Map<Seq<char>, Map<Seq<char>, ConfigValue>>, root: ConfigValue, names: Seq<Seq<char>>) -> Map<Seq<char>, Map<Seq<char>, ConfigValue>>
    decreases names.len(),
{
    if names.len() == 0 {
        c
    } else {
        merge_clients(alias_clients(c, root, names.drop_last()), nested_http(root, names.last()))
    }
}

/// The named clients: `[http.<name>]`, then `[default.http.<name>]`, then the
/// active profile's and its legacy alias's, later keys winning per client.
pub open spec fn spec_http_clients(root: ConfigValue, profile: Seq<char>) -> Map<Seq<char>, Map<Seq<char>, ConfigValue>> {
    let top = match as_table(value_get(root, "http"@)) {
        Some(t) => t,
        None => Seq::empty(),
    };
    alias_clients(
        merge_clients(
            merge_clients(merge_clients(Map::empty(), top), nested_http(root, "default"@)),
            nested_http(root, profile),
        ),
        root,
        spec_profile_aliases(profile),
    )
}

/// Borrowed clients as a map from name to merged keys.
pub open spec fn clients_map(s: Seq<(&str, Vec<(&str, &ConfigValue)>)>) -> Map<Seq<char>, Map<Seq<char>, ConfigValue>>
    decreases s.len(),
{
    if s.len() == 0 {
        Map::empty()
    } else {
        clients_map(s.drop_last()).insert(s.last().0@, entries_map(s.last().1@))
    }
}

/// Client names are distinct and each client's keys are distinct.
pub open spec fn clients_wf(s: Seq<(&str, Vec<(&str, &ConfigValue)>)>) -> bool {
    &&& forall|i: int, j: int| 0 <= i < j < s.len() ==> (#[trigger] s[i]).0@ != (#[trigger] s[j]).0@
    &&& forall|i: int| 0 <= i < s.len() ==> distinct_keys((#[trigger] s[i]).1@)
}

/// Replacing the entries of a client that occurs once updates the map there.
proof fn lemma_clients_map_update(s: Seq<(&str, Vec<(&str, &ConfigValue)>)>, j: int, e: (&str, Vec<(&str, &ConfigValue)>))
    requires
        clients_wf(s),
        0 <= j < s.len(),
        s[j].0@ == e.0@,
    ensures
        clients_map(s.update(j, e)) == clients_map(s).insert(e.0@, entries_map(e.1@)),
    decreases s.len(),
{
    let u = s.update(j, e);
    if j == s.len() - 1 {
        assert(u.drop_last() =~= s.drop_last());
        assert(clients_map(u) =~= clients_map(s).insert(e.0@, entries_map(e.1@)));
    } else {
        assert(u.drop_last() =~= s.drop_last().update(j, e));
        assert(clients_wf(s.drop_last()));
        lemma_clients_map_update(s.drop_last(), j, e);
        assert(s[j].0@ != s[s.len() - 1].0@);
        assert(clients_map(u) =~= clients_map(s).insert(e.0@, entries_map(e.1@)));
    }
}

/// The map entry of a client that occurs once is its merged keys.
proof fn lemma_clients_map_at(s: Seq<(&str, Vec<(&str, &ConfigValue)>)>, j: int)
    requires
        clients_wf(s),
        0 <= j < s.len(),
    ensures
        clients_map(s).contains_key(s[j].0@),
        clients_map(s)[s[j].0@] == entries_map(s[j].1@),
    decreases s.len(),
{
    if j < s.len() - 1 {
        assert(clients_wf(s.drop_last()));
        lemma_clients_map_at(s.drop_last(), j);
        assert(s[j].0@ != s[s.len() - 1].0@);
    }
}

/// A client that occurs nowhere is not in the map.
proof fn lemma_clients_map_lacks(s: Seq<(&str, Vec<(&str, &ConfigValue)>)>, k: Seq<char>)
    requires
        forall|j: int| 0 <= j < s.len() ==> (#[trigger] s[j]).0@ != k,
    ensures
        !clients_map(s).contains_key(k),
    decreases s.len(),
{
    if s.len() > 0 {
        lemma_clients_map_lacks(s.drop_last(), k);
    }
}

/// Position of client `name`.
fn client_index(dest: &Vec<(&str, Vec<(&str, &ConfigValue)>)>, name: &str) -> (r: Option<usize>)
    ensures
        match r {
            Some(j) => j < dest@.len() && dest@[j as int].0@ == name@,
            None => forall|j: int| 0 <= j < dest@.len() ==> (#[trigger] dest@[j]).0@ != name@,
        },
{
    let mut j: usize = 0;
    while j < dest.len()
        invariant
            j <= dest@.len(),
            forall|k: int| 0 <= k < j ==> (#[trigger] dest@[k]).0@ != name@,
        decreases dest@.len() - j,
    {
        if str_eq(dest[j].0, name) {
            return Some(j);
        }
        j = j + 1;
    }
    None
}

/// A copy of borrowed entries.
fn copy_entries<'a>(v: &Vec<(&'a str, &'a ConfigValue)>) -> (r: Vec<(&'a str, &'a ConfigValue)>)
    ensures
        r@ == v@,
{
    let mut out: Vec<(&'a str, &'a ConfigValue)> = Vec::new();
    let mut i: usize = 0;
    while i < v.len()
        invariant
            i <= v@.len(),
            out@ == v@.take(i as int),
        decreases v@.len() - i,
    {
        out.push(v[i]);
        assert(out@ =~= v@.take(i + 1));
        i = i + 1;
    }
    assert(v@.take(v@.len() as int) =~= v@);
    out
}

/// Merge the client tables of one `http` table into `dest`.
fn merge_client_layer<'a>(dest: &mut Vec<(&'a str, Vec<(&'a str, &'a ConfigValue)>)>, h: &'a Vec<(String, ConfigValue)>)
    requires
        clients_wf(old(dest)@),
    ensures
        clients_wf(final(dest)@),
        clients_map(final(dest)@) == merge_clients(clients_map(old(dest)@), h@),
{
    let ghost start = clients_map(dest@);
    let mut i: usize = 0;
    assert(h@.take(0) =~= Seq::<(String, ConfigValue)>::empty());
    while i < h.len()
        invariant
            i <= h@.len(),
            clients_wf(dest@),
            clients_map(dest@) == merge_clients(start, h@.take(i as int)),
        decreases h@.len() - i,
    {
        proof {
            assert(h@.take(i + 1).drop_last() =~= h@.take(i as int));
        }
        let name = h[i].0.as_str();
        match &h[i].1 {
            ConfigValue::Table(t) => {
                match client_index(dest, name) {
                    Some(j) => {
                        let mut inner = copy_entries(&dest[j].1);
                        proof {
                            lemma_clients_map_at(dest@, j as int);
                        }
                        extend_entries(&mut inner, t);
                        proof {
                            lemma_clients_map_update(dest@, j as int, (name, inner));
                        }
                        let ghost before = dest@;
                        dest.set(j, (name, inner));
                        assert(clients_wf(dest@)) by {
                            assert forall|a: int, b: int| 0 <= a < b < dest@.len() implies (#[trigger] dest@[a]).0@ != (#[trigger] dest@[b]).0@ by {
                                assert(before[a].0@ != before[b].0@);
                            }
                            assert forall|a: int| 0 <= a < dest@.len() implies distinct_keys((#[trigger] dest@[a]).1@) by {
                                if a != j as int {
                                    assert(dest@[a] == before[a]);
                                }
                            }
                        }
                    },
                    None => {
                        let mut inner: Vec<(&'a str, &'a ConfigValue)> = Vec::new();
                        proof {
                            lemma_clients_map_lacks(dest@, name@);
                        }
                        assert(entries_map(inner@) =~= Map::<Seq<char>, ConfigValue>::empty());
                        extend_entries(&mut inner, t);
                        let ghost before = dest@;
                        dest.push((name, inner));
                        assert(dest@.drop_last() =~= before);
                        assert(clients_wf(dest@)) by {
                            assert forall|a: int, b: int| 0 <= a < b < dest@.len() implies (#[trigger] dest@[a]).0@ != (#[trigger] dest@[b]).0@ by {
                                if b == dest@.len() - 1 {
                                    assert(before[a].0@ != name@);
                                } else {
                                    assert(before[a] == dest@[a] && before[b] == dest@[b]);
                                }
                            }
                            assert forall|a: int| 0 <= a < dest@.len() implies distinct_keys((#[trigger] dest@[a]).1@) by {
                                if a < dest@.len() - 1 {
                                    assert(dest@[a] == before[a]);
                                }
                            }
                        }
                        assert(clients_map(dest@) =~= merge_clients(start, h@.take(i + 1)));
                    },
                }
            },
            _ => {},
        }
        i = i + 1;
    }
    assert(h@.take(h@.len() as int) =~= h@);
}

/// Merge the clients of the `http` subtable of the root's table `name`.
fn merge_nested_clients<'a>(dest: &mut Vec<(&'a str, Vec<(&'a str, &'a ConfigValue)>)>, root: &'a ConfigValue, name: &str)
    requires
        clients_wf(old(dest)@),
    ensures
        clients_wf(final(dest)@),
        clients_map(final(dest)@) == merge_clients(clients_map(old(dest)@), nested_http(*root, name@)),
{
    match value_lookup(root, name) {
        Some(d) => match value_lookup(d, "http") {
            Some(ConfigValue::Table(h)) => merge_client_layer(dest, h),
            _ => {},
        },
        None => {},
    }
}

impl ConfigDoc {
    /// Named client tables under `http` (`[http.payments]`, `[default.http.payments]`,
    /// the profile's), merged per client. The entries borrow from the document.
    pub fn http_clients<'a>(&'a self) -> (r: Vec<(&'a str, Vec<(&'a str, &'a ConfigValue)>)>)
        ensures
            clients_wf(r@),
            clients_map(r@) == spec_http_clients(self.root, self.profile@),
    {
        let mut out: Vec<(&'a str, Vec<(&'a str, &'a ConfigValue)>)> = Vec::new();
        assert(clients_map(out@) =~= Map::<Seq<char>, Map<Seq<char>, ConfigValue>>::empty());
        match value_lookup(&self.root, "http") {
            Some(ConfigValue::Table(h)) => merge_client_layer(&mut out, h),
            _ => {},
        }
        merge_nested_clients(&mut out, &self.root, "default");
        merge_nested_clients(&mut out, &self.root, self.profile.as_str());
        let ghost base = clients_map(out@);
        let aliases = profile_aliases_for_merge(self.profile.as_str());
        let ghost names = spec_profile_aliases(self.profile@);
        let mut i: usize = 0;
        assert(names.take(0) =~= Seq::<Seq<char>>::empty());
        while i < aliases.len()
            invariant
                names == spec_profile_aliases(self.profile@),
                aliases@.len() == names.len(),
                forall|k: int| 0 <= k < aliases@.len() ==> (#[trigger] aliases@[k])@ == names[k],
                i <= aliases@.len(),
                clients_wf(out@),
                clients_map(out@) == alias_clients(base, self.root, names.take(i as int)),
            decreases aliases@.len() - i,
        {
            merge_nested_clients(&mut out, &self.root, aliases[i]);
            proof {
                assert(names.take(i + 1).drop_last() =~= names.take(i as int));
            }
            i = i + 1;
        }
        assert(names.take(aliases@.len() as int) =~= names);
        out
    }
}

/// Layers that do not set a key leave its merged value alone.
proof fn lemma_alias_layers_keep(m: Map<Seq<char>, ConfigValue>, root: ConfigValue, names: Seq<Seq<char>>, section: Seq<char>, k: Seq<char>)
    requires
        forall|i: int| 0 <= i < names.len() ==> !(#[trigger] nested_layer(root, names[i], section)).contains_key(k),
    ensures
        alias_layers(m, root, names, section).contains_key(k) == m.contains_key(k),
        m.contains_key(k) ==> alias_layers(m, root, names, section)[k] == m[k],
    decreases names.len(),
{
    if names.len() > 0 {
        assert forall|i: int| 0 <= i < names.drop_last().len() implies !(#[trigger] nested_layer(
            root,
            names.drop_last()[i],
            section,
        )).contains_key(k) by {
            assert(names.drop_last()[i] == names[i]);
        }
        lemma_alias_layers_keep(m, root, names.drop_last(), section, k);
        assert(!nested_layer(root, names[names.len() - 1], section).contains_key(k));
    }
}

/// A key that the active profile's `[<profile>.section]` sets is what the
/// merged section holds, unless its legacy alias sets the key again.
pub proof fn law_section_profile_wins(root: ConfigValue, profile: Seq<char>, section: Seq<char>, k: Seq<char>)
    requires
        nested_layer(root, profile, section).contains_key(k),
        forall|i: int| 0 <= i < spec_profile_aliases(profile).len() ==> !(#[trigger] nested_layer(
            root,
            spec_profile_aliases(profile)[i],
            section,
        )).contains_key(k),
    ensures
        spec_section_map(root, profile, section).contains_key(k),
        spec_section_map(root, profile, section)[k] == nested_layer(root, profile, section)[k],
{
    let top = if section != "http"@ {
        match as_table(value_get(root, section)) {
            Some(t) => table_map(t),
            None => Map::empty(),
        }
    } else {
        Map::empty()
    };
    let m = top.union_prefer_right(nested_layer(root, "default"@, section)).union_prefer_right(
        nested_layer(root, profile, section),
    );
    lemma_alias_layers_keep(m, root, spec_profile_aliases(profile), section, k);
}

/// Overlaying profile tables that do not set `trust_proxy` keeps it.
proof fn lemma_overlays_keep_trust_proxy(m: ServerProfile, root: ConfigValue, names: Seq<Seq<char>>)
    requires
        forall|i: int| 0 <= i < names.len() ==> match as_table(value_get(root, #[trigger] names[i])) {
            Some(t) => profile_layer(t).trust_proxy is None,
            None => true,
        },
    ensures
        overlay_profiles(m, root, names).trust_proxy == m.trust_proxy,
    decreases names.len(),
{
    if names.len() > 0 {
        assert forall|i: int| 0 <= i < names.drop_last().len() implies match as_table(value_get(root, #[trigger] names.drop_last()[i])) {
            Some(t) => profile_layer(t).trust_proxy is None,
            None => true,
        } by {
            assert(names.drop_last()[i] == names[i]);
        }
        lemma_overlays_keep_trust_proxy(m, root, names.drop_last());
        let last = names[names.len() - 1];
        assert(last == names.last());
    }
}

/// The active profile's `trust_proxy` decides the resolved setting, whatever
/// `[server]` and `[default]` say, unless its legacy alias table sets it again.
pub proof fn law_profile_server_layer_wins(root: ConfigValue, profile: Seq<char>)
    requires
        as_table(value_get(root, profile)) is Some,
        profile_layer(as_table(value_get(root, profile))->0).trust_proxy is Some,
        forall|i: int| 0 <= i < spec_profile_aliases(profile).len() ==> match as_table(
            value_get(root, #[trigger] spec_profile_aliases(profile)[i]),
        ) {
            Some(t) => profile_layer(t).trust_proxy is None,
            None => true,
        },
    ensures
        spec_resolve_server(root, profile).trust_proxy == profile_layer(as_table(value_get(root, profile))->0).trust_proxy,
{
    let canon = match as_table(value_get(root, "server"@)) {
        Some(t) => spec_merge_server(empty_profile(), spec_table_to_server(t)),
        None => empty_profile(),
    };
    let with_default = overlay_profile(canon, root, "default"@);
    let aliases = spec_profile_aliases(profile);
    let names = seq![profile] + aliases;
    let first = overlay_profile(with_default, root, profile);
    lemma_overlay_split(with_default, root, profile, aliases);
    lemma_overlays_keep_trust_proxy(first, root, aliases);
}

/// Overlaying `[p] + rest` is overlaying `p`, then `rest`.
proof fn lemma_overlay_split(m: ServerProfile, root: ConfigValue, p: Seq<char>, rest: Seq<Seq<char>>)
    ensures
        overlay_profiles(m, root, seq![p] + rest) == overlay_profiles(overlay_profile(m, root, p), root, rest),
    decreases rest.len(),
{
    if rest.len() == 0 {
        assert(seq![p] + rest =~= seq![p]);
        assert(seq![p].drop_last() =~= Seq::<Seq<char>>::empty());
        assert(overlay_profiles(m, root, seq![p].drop_last()) == m);
        assert(seq![p].last() == p);
        assert(overlay_profiles(m, root, seq![p]) == overlay_profile(m, root, p));
    } else {
        lemma_overlay_split(m, root, p, rest.drop_last());
        assert((seq![p] + rest).drop_last() =~= seq![p] + rest.drop_last());
        assert((seq![p] + rest).last() == rest.last());
    }
}

/// Settings applied one layer after another: each setting of `later` replaces
/// the one of `earlier` (the file's settings, then the environment's).
pub open spec fn spec_settings_then(earlier: ServerSettings, later: ServerSettings) -> ServerSettings {
    ServerSettings {
        max_body_size: or_else(later.max_body_size, earlier.max_body_size),
        max_connections: or_else(later.max_connections, earlier.max_connections),
        max_upgraded_connections: or_else(later.max_upgraded_connections, earlier.max_upgraded_connections),
        max_concurrent_streams: or_else(later.max_concurrent_streams, earlier.max_concurrent_streams),
        max_headers: or_else(later.max_headers, earlier.max_headers),
        max_buf_size: or_else(later.max_buf_size, earlier.max_buf_size),
        request_timeout: or_else(later.request_timeout, earlier.request_timeout),
        header_read_timeout: or_else(later.header_read_timeout, earlier.header_read_timeout),
        idle_timeout: or_else(later.idle_timeout, earlier.idle_timeout),
        drain_timeout: or_else(later.drain_timeout, earlier.drain_timeout),
        keep_alive: or_else(later.keep_alive, earlier.keep_alive),
        trust_proxy: or_else(later.trust_proxy, earlier.trust_proxy),
    }
}

/// The settings in effect after applying `earlier`, then `later`.
pub fn settings_then(earlier: ServerSettings, later: ServerSettings) -> (r: ServerSettings)
    ensures
        r == spec_settings_then(earlier, later),
{
    ServerSettings {
        max_body_size: pick(later.max_body_size, earlier.max_body_size),
        max_connections: pick(later.max_connections, earlier.max_connections),
        max_upgraded_connections: pick(later.max_upgraded_connections, earlier.max_upgraded_connections),
        max_concurrent_streams: pick(later.max_concurrent_streams, earlier.max_concurrent_streams),
        max_headers: pick(later.max_headers, earlier.max_headers),
        max_buf_size: pick(later.max_buf_size, earlier.max_buf_size),
        request_timeout: pick(later.request_timeout, earlier.request_timeout),
        header_read_timeout: pick(later.header_read_timeout, earlier.header_read_timeout),
        idle_timeout: pick(later.idle_timeout, earlier.idle_timeout),
        drain_timeout: pick(later.drain_timeout, earlier.drain_timeout),
        keep_alive: pick(later.keep_alive, earlier.keep_alive),
        trust_proxy: pick(later.trust_proxy, earlier.trust_proxy),
    }
}

/// A `RUVO_*` variable that parses overrides `ruvo.toml`: the result of
/// loading a file and an environment is the environment's value wherever it
/// sets one, the file's elsewhere.
pub proof fn law_env_overrides_file(text_settings: ServerSettings, env: EnvOverrides)
    requires
        spec_env_settings(env) is Ok,
    ensures
        env.max_connections is Some ==> spec_settings_then(text_settings, spec_env_settings(env)->Ok_0).max_connections
            == spec_env_settings(env)->Ok_0.max_connections,
        env.max_connections is None ==> spec_settings_then(text_settings, spec_env_settings(env)->Ok_0).max_connections
            == text_settings.max_connections,
        env.keep_alive is Some ==> spec_settings_then(text_settings, spec_env_settings(env)->Ok_0).keep_alive
            == flag_env(env.keep_alive),
        env.request_timeout is None ==> spec_settings_then(text_settings, spec_env_settings(env)->Ok_0).request_timeout
            == text_settings.request_timeout,
{
}

/// A parsed TOML document of the `toml` crate.
#[verifier::external_type_specification]
#[verifier::external_body]
pub struct ExTomlValue(toml::Value);

/// Name for what `toml::from_str::<toml::Value>` gives for `text`: the
/// document as a `ConfigValue`, or the text of its error.
pub uninterp spec fn toml_parsed(text: Seq<char>) -> Result<ConfigValue, Seq<char>>;

/// A TOML date-time of the `toml` crate.
#[verifier::external_type_specification]
#[verifier::external_body]
pub struct ExTomlDatetime(toml::value::Datetime);

/// The library's form of a date-time: its parts, field for field.
#[verifier::external_body]
fn datetime_parts(d: &toml::value::Datetime) -> TomlDatetime {
    TomlDatetime {
        date: d.date.map(|x| (x.year, x.month, x.day)),
        time: d.time.map(|x| (x.hour, x.minute, x.second, x.nanosecond)),
        offset: d.offset.map(|o| match o {
            toml::value::Offset::Z => None,
            toml::value::Offset::Custom { minutes } => Some(minutes),
        }),
    }
}

/// The `toml` crate's date-time with the given parts.
#[verifier::external_body]
fn datetime_of(d: &TomlDatetime) -> toml::value::Datetime {
    toml::value::Datetime {
        date: d.date.map(|(year, month, day)| toml::value::Date { year, month, day }),
        time: d.time.map(|(hour, minute, second, nanosecond)| toml::value::Time { hour, minute, second, nanosecond }),
        offset: d.offset.map(|o| match o {
            None => toml::value::Offset::Z,
            Some(minutes) => toml::value::Offset::Custom { minutes },
        }),
    }
}

/// The library's form of a parsed TOML value: strings, integers, booleans,
/// arrays and tables one for one (tables in the crate's key order), floats by
/// their shortest decimal text and date-times by their parts.
#[verifier::external_body]
fn config_value_of(v: &toml::Value) -> ConfigValue {
    match v {
        toml::Value::String(s) => ConfigValue::Str(s.clone()),
        toml::Value::Integer(i) => ConfigValue::Int(*i),
        toml::Value::Boolean(b) => ConfigValue::Bool(*b),
        toml::Value::Float(f) => ConfigValue::Float(f.to_string()),
        toml::Value::Datetime(d) => ConfigValue::Datetime(datetime_parts(d)),
        toml::Value::Array(a) => ConfigValue::Array(a.iter().map(config_value_of).collect()),
        toml::Value::Table(t) => ConfigValue::Table(t.iter().map(|(k, v)| (k.clone(), config_value_of(v))).collect()),
    }
}

/// The `toml` crate's value for a `ConfigValue`, one for one (a table's later
/// entry for a key wins, as in `table_get`; a float's text reads back as the
/// value it was written from, and a text that is no float reads as zero).
#[verifier::external_body]
fn toml_value_of(v: &ConfigValue) -> toml::Value {
    match v {
        ConfigValue::Str(s) => toml::Value::String(s.clone()),
        ConfigValue::Int(i) => toml::Value::Integer(*i),
        ConfigValue::Bool(b) => toml::Value::Boolean(*b),
        ConfigValue::Float(f) => toml::Value::Float(f.parse().unwrap_or_default()),
        ConfigValue::Datetime(d) => toml::Value::Datetime(datetime_of(d)),
        ConfigValue::Array(a) => toml::Value::Array(a.iter().map(toml_value_of).collect()),
        ConfigValue::Table(t) => toml::Value::Table(t.iter().map(|(k, v)| (k.clone(), toml_value_of(v))).collect()),
    }
}

/// Parse TOML text: wraps `toml::from_str::<toml::Value>`, giving the
/// library's form of the document, or the error's text.
///
/// Trusted: both are named `toml_parsed(text)`; nothing else is claimed.
#[verifier::external_body]
pub(crate) fn parse_toml(text: &str) -> (r: Result<ConfigValue, String>)
    ensures
        match r {
            Ok(v) => toml_parsed(text@) == Ok::<ConfigValue, Seq<char>>(v),
            Err(e) => toml_parsed(text@) == Err::<ConfigValue, Seq<char>>(e@),
        },
{
    match toml::from_str::<toml::Value>(text) {
        Ok(v) => Ok(config_value_of(&v)),
        Err(e) => Err(e.to_string()),
    }
}

/// Name for what `toml::to_string_pretty` gives for the document whose form
/// is `v`: its text, or the text of its error.
pub uninterp spec fn toml_rendered(v: TomlView) -> Result<Seq<char>, Seq<char>>;

/// Render a document as TOML text: wraps `toml::to_string_pretty` on the
/// `toml` crate's value for `v`.
///
/// Trusted: the text, or the error's text, is named `toml_rendered(v@)`;
/// nothing else is claimed of it.
#[verifier::external_body]
pub(crate) fn render_toml(v: &ConfigValue) -> (r: Result<String, String>)
    ensures
        match r {
            Ok(t) => toml_rendered(v@) == Ok::<Seq<char>, Seq<char>>(t@),
            Err(e) => toml_rendered(v@) == Err::<Seq<char>, Seq<char>>(e@),
        },
{
    toml::to_string_pretty(&toml_value_of(v)).map_err(|e| e.to_string())
}

/// What `configure_from_str` gives: the parsed root and the settings of its
/// `[server]` layers for `profile` with the override variables applied after,
/// or the first error (`ruvo.toml: <parse error>`, a file setting, a variable).
pub open spec fn spec_configure(text: Seq<char>, profile: Seq<char>, env: EnvOverrides) -> Result<(ConfigValue, ServerSettings), Seq<char>> {
    match toml_parsed(text) {
        Err(m) => Err("ruvo.toml: "@ + m),
        Ok(root) => match spec_server_settings(spec_resolve_server(root, profile)) {
            Err(e) => Err(e),
            Ok(file) => match spec_env_settings(env) {
                Err(e) => Err(e),
                Ok(vars) => Ok((root, spec_settings_then(file, vars))),
            },
        },
    }
}

/// Read `ruvo.toml` text for the active `profile` (see `active_profile`): the
/// document, kept for plugins, and the server settings of its canonical and
/// legacy layers with the `RUVO_*` overrides applied after them.
pub fn configure_from_str(text: &str, profile: &str, env: &EnvOverrides) -> (r: Result<(ConfigDoc, ServerSettings), String>)
    ensures
        match r {
            Ok((d, st)) => d.profile@ == profile@ && spec_configure(text@, profile@, *env) == Ok::<
                (ConfigValue, ServerSettings),
                Seq<char>,
            >((d.root, st)),
            Err(e) => spec_configure(text@, profile@, *env) == Err::<(ConfigValue, ServerSettings), Seq<char>>(e@),
        },
{
    let root = match parse_toml(text) {
        Ok(v) => v,
        Err(m) => {
            let mut e = String::from_str("ruvo.toml: ");
            e.append(m.as_str());
            return Err(e);
        },
    };
    let server = resolve_server(&root, profile);
    let file = match server_settings(&server) {
        Ok(s) => s,
        Err(e) => return Err(e),
    };
    let vars = match env_settings(env) {
        Ok(s) => s,
        Err(e) => return Err(e),
    };
    let settings = settings_then(file, vars);
    Ok((ConfigDoc { root, profile: String::from_str(profile) }, settings))
}

/// The values that turn a switch variable on.
pub open spec fn switch_on(x: Seq<char>) -> bool {
    x == "1"@ || x == "true"@ || x == "TRUE"@ || x == "yes"@
}

/// `RUVO_KEEP_ALIVE` and `RUVO_TRUST_PROXY` turn their setting on when set to
/// `1`, `true`, `TRUE` or `yes`, off when set to anything else, and leave it
/// to the file when unset; a switch never makes the overrides fail.
pub proof fn law_switch_variables(v: EnvOverrides)
    ensures
        spec_env_settings(v) is Ok ==> {
            let st = spec_env_settings(v)->Ok_0;
            &&& st.keep_alive == match v.keep_alive {
                Some(x) => Some(switch_on(x@)),
                None => None::<bool>,
            }
            &&& st.trust_proxy == match v.trust_proxy {
                Some(x) => Some(switch_on(x@)),
                None => None::<bool>,
            }
        },
        (forall|x: String| switch_on(x@) ==> flag_env(Some(x)) == Some(true)),
        (forall|x: String| !switch_on(x@) ==> flag_env(Some(x)) == Some(false)),
        spec_env_settings(v) is Ok == spec_env_settings((EnvOverrides { keep_alive: None, trust_proxy: None, ..v })) is Ok,
{
}

/// The legacy profile names are aliases of the modern ones: `debug` reads as
/// `development` and `release` as `production`, and each modern profile
/// merges exactly its own legacy table.
pub proof fn law_profile_aliases_round_trip()
    ensures
        spec_normalize_profile_name("debug"@) == "development"@,
        spec_normalize_profile_name("release"@) == "production"@,
        spec_profile_aliases(spec_normalize_profile_name("debug"@)) == seq!["debug"@],
        spec_profile_aliases(spec_normalize_profile_name("release"@)) == seq!["release"@],
{
    reveal_strlit("development");
    reveal_strlit("production");
    reveal_strlit("debug");
    reveal_strlit("release");
    assert("debug"@[0] == 'd' && "release"@[0] == 'r');
    assert("development"@[0] == 'd' && "production"@[0] == 'p');
    let d = "debug"@;
    let r = "release"@;
    assert(crate::text::strip_leading_ws(d) == d);
    assert(crate::text::strip_trailing_ws(d) == d);
    assert(crate::text::strip_leading_ws(r) == r);
    assert(crate::text::strip_trailing_ws(r) == r);
}

} // verus!
