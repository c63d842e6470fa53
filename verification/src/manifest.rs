//! What a generated stack needs in the consumer's `Cargo.toml` and `src/main.rs`:
//! `sova` features, dependencies, SeaORM features and `main.rs` wiring.

use vstd::prelude::*;
use vstd::string::*;
use crate::config::{
    as_table, entries_view, items_view, parse_toml, render_toml, table_get, table_lookup, toml_parsed, toml_rendered,
    value_get, value_lookup, value_view, ConfigValue, TomlView,
};
use crate::doc_edit::{
    count_in, law_put_get, lemma_items_index, lemma_count_concat, lemma_count_str_values, lemma_count_zero, lemma_entries_push,
    lemma_get_view, push_strs, set_entry, str_values, take_entry, view_get, view_put,
};
use crate::fields::{fields_view, FieldSpec, FieldSpecView, FieldType};
use crate::text::{contains, contains_seq, str_eq};

verus! {

/// The edits a stack makes, applied in this order: `sova` features, missing
/// dependencies, features of the SeaORM crates, `main.rs` wiring.
#[derive(Debug)]
pub struct StackPlan {
    /// Features added to the `sova` dependency.
    pub sova_features: Vec<&'static str>,
    /// Dependencies added when missing: name and TOML right-hand side.
    pub deps: Vec<(&'static str, &'static str)>,
    /// Features added to `sea-orm` and `sea-orm-migration` (when any).
    pub orm_features: Vec<&'static str>,
    /// Wire entities, migrations and the database into `src/main.rs`.
    pub db_in_main: bool,
    /// Modules declared in `src/main.rs`.
    pub mods_in_main: Vec<&'static str>,
    /// Warn when `src/main.rs` does not use the web preset.
    pub warn_if_not_web: bool,
}

/// The texts of a list of borrowed strings.
pub open spec fn strs_view(v: Seq<&str>) -> Seq<Seq<char>> {
    v.map_values(|s: &str| s@)
}

/// The names and right-hand sides of a dependency list.
pub open spec fn deps_view(v: Seq<(&str, &str)>) -> Seq<(Seq<char>, Seq<char>)> {
    v.map_values(|d: (&str, &str)| (d.0@, d.1@))
}

/// Some column has type `ty`.
pub open spec fn any_field_of(fields: Option<Seq<FieldSpecView>>, ty: FieldType) -> bool {
    match fields {
        Some(fs) => exists|i: int| 0 <= i < fs.len() && (#[trigger] fs[i]).ty == ty,
        None => false,
    }
}

/// Whether some given column has type `ty`.
fn has_field_of(fields: Option<&[FieldSpec]>, ty: FieldType) -> (r: bool)
    ensures
        r == any_field_of(
            match fields {
                Some(f) => Some(fields_view(f@)),
                None => None,
            },
            ty,
        ),
{
    match fields {
        None => false,
        Some(fs) => {
            let mut i: usize = 0;
            while i < fs.len()
                invariant
                    fields == Some(fs),
                    i <= fs@.len(),
                    forall|k: int| 0 <= k < i ==> (#[trigger] fs@[k]).ty != ty,
                decreases fs@.len() - i,
            {
                if fs[i].ty == ty {
                    assert(fields_view(fs@)[i as int] == fs@[i as int]@);
                    return true;
                }
                i = i + 1;
            }
            assert forall|k: int| 0 <= k < fields_view(fs@).len() implies (#[trigger] fields_view(fs@)[k]).ty != ty by {
                assert(fields_view(fs@)[k] == fs@[k]@);
            }
            false
        },
    }
}

/// Whether the columns need the `uuid` crate.
pub fn fields_need_uuid(fields: Option<&[FieldSpec]>) -> (r: bool)
    ensures
        r == any_field_of(
            match fields {
                Some(f) => Some(fields_view(f@)),
                None => None,
            },
            FieldType::Uuid,
        ),
{
    has_field_of(fields, FieldType::Uuid)
}

/// Whether the columns need the `chrono` crate.
pub fn fields_need_chrono(fields: Option<&[FieldSpec]>) -> (r: bool)
    ensures
        r == any_field_of(
            match fields {
                Some(f) => Some(fields_view(f@)),
                None => None,
            },
            FieldType::DateTime,
        ),
{
    has_field_of(fields, FieldType::DateTime)
}

/// `sova` features of a resource stack: the database, validation and env
/// features, plus OpenAPI for JSON modules or forms, CSRF and templates for HTML.
pub open spec fn spec_resource_features(api: bool) -> Seq<Seq<char>> {
    seq!["db-sqlite"@, "vld"@, "env"@] + if api {
        seq!["openapi"@, "vld-openapi"@]
    } else {
        seq!["vld-form"@, "vld-flash"@, "csrf"@, "templates"@]
    }
}

/// Dependency of the `serde` crate with derives.
pub const SERDE_DEP: &'static str = r#"{ version = "1", features = ["derive"] }"#;

/// Dependency of the `serde_json` crate.
pub const SERDE_JSON_DEP: &'static str = r#""1""#;

/// Dependency of the `sea-orm` crate on SQLite.
pub const SEA_ORM_DEP: &'static str = r#"{ version = "2.0", default-features = false, features = ["runtime-tokio-rustls", "macros", "sqlx-sqlite"] }"#;

/// Dependency of the `sea-orm-migration` crate on SQLite.
pub const SEA_ORM_MIGRATION_DEP: &'static str = r#"{ version = "2.0", default-features = false, features = ["runtime-tokio-rustls", "sqlx-sqlite"] }"#;

/// Dependency of the `async-trait` crate.
pub const ASYNC_TRAIT_DEP: &'static str = r#""0.1""#;

/// Dependency of the `uuid` crate.
pub const UUID_DEP: &'static str = r#"{ version = "1", features = ["v4", "serde"] }"#;

/// Dependency of the `chrono` crate.
pub const CHRONO_DEP: &'static str = r#"{ version = "0.4", default-features = false, features = ["clock", "std", "serde"] }"#;

/// Dependencies of a resource stack, with `uuid` / `chrono` when a column needs them.
pub open spec fn spec_resource_deps(uuid: bool, chrono: bool) -> Seq<(Seq<char>, Seq<char>)> {
    seq![
        ("serde"@, SERDE_DEP@),
        ("serde_json"@, SERDE_JSON_DEP@),
        ("sea-orm"@, SEA_ORM_DEP@),
        ("sea-orm-migration"@, SEA_ORM_MIGRATION_DEP@),
        ("async-trait"@, ASYNC_TRAIT_DEP@),
    ] + (if uuid {
        seq![("uuid"@, UUID_DEP@)]
    } else {
        Seq::empty()
    }) + (if chrono {
        seq![("chrono"@, CHRONO_DEP@)]
    } else {
        Seq::empty()
    })
}

/// SeaORM features a resource stack needs for its columns.
pub open spec fn spec_orm_features(uuid: bool, chrono: bool) -> Seq<Seq<char>> {
    (if uuid {
        seq!["with-uuid"@]
    } else {
        Seq::empty()
    }) + (if chrono {
        seq!["with-chrono"@]
    } else {
        Seq::empty()
    })
}

/// What `ensure_resource_stack_with_fields` plans.
pub open spec fn resource_plan_ok(r: StackPlan, api: bool, uuid: bool, chrono: bool) -> bool {
    &&& strs_view(r.sova_features@) == spec_resource_features(api)
    &&& deps_view(r.deps@) == spec_resource_deps(uuid, chrono)
    &&& strs_view(r.orm_features@) == spec_orm_features(uuid, chrono)
    &&& r.db_in_main
    &&& r.mods_in_main@.len() == 0
    &&& r.warn_if_not_web == !api
}

/// The edits for `generate resource` / model / migration / seed.
pub fn ensure_resource_stack(api: bool) -> (r: StackPlan)
    ensures
        resource_plan_ok(r, api, false, false),
{
    ensure_resource_stack_with_fields(api, None)
}

/// The edits for a resource stack whose model has the given columns.
pub fn ensure_resource_stack_with_fields(api: bool, fields: Option<&[FieldSpec]>) -> (r: StackPlan)
    ensures
        resource_plan_ok(
            r,
            api,
            any_field_of(
                match fields {
                    Some(f) => Some(fields_view(f@)),
                    None => None,
                },
                FieldType::Uuid,
            ),
            any_field_of(
                match fields {
                    Some(f) => Some(fields_view(f@)),
                    None => None,
                },
                FieldType::DateTime,
            ),
        ),
{
    let mut feats: Vec<&'static str> = Vec::new();
    feats.push("db-sqlite");
    feats.push("vld");
    feats.push("env");
    if api {
        feats.push("openapi");
        feats.push("vld-openapi");
    } else {
        feats.push("vld-form");
        feats.push("vld-flash");
        feats.push("csrf");
        feats.push("templates");
    }
    let mut deps: Vec<(&'static str, &'static str)> = Vec::new();
    deps.push(("serde", SERDE_DEP));
    deps.push(("serde_json", SERDE_JSON_DEP));
    deps.push(("sea-orm", SEA_ORM_DEP));
    deps.push(("sea-orm-migration", SEA_ORM_MIGRATION_DEP));
    deps.push(("async-trait", ASYNC_TRAIT_DEP));
    let mut orm: Vec<&'static str> = Vec::new();
    let uuid = fields_need_uuid(fields);
    let chrono = fields_need_chrono(fields);
    if uuid {
        orm.push("with-uuid");
        deps.push(("uuid", UUID_DEP));
    }
    if chrono {
        orm.push("with-chrono");
        deps.push(("chrono", CHRONO_DEP));
    }
    let r = StackPlan {
        sova_features: feats,
        deps,
        orm_features: orm,
        db_in_main: true,
        mods_in_main: Vec::new(),
        warn_if_not_web: !api,
    };
    assert(strs_view(r.sova_features@) =~= spec_resource_features(api));
    assert(deps_view(r.deps@) =~= spec_resource_deps(uuid, chrono));
    assert(strs_view(r.orm_features@) =~= spec_orm_features(uuid, chrono));
    r
}

/// The edits for `generate mailer`: mail templates, `serde_json`, `mod mailers`.
pub fn ensure_mail_stack() -> (r: StackPlan)
    ensures
        strs_view(r.sova_features@) == seq!["mail-templates"@, "templates"@],
        deps_view(r.deps@) == seq![("serde_json"@, SERDE_JSON_DEP@)],
        r.orm_features@.len() == 0,
        !r.db_in_main,
        strs_view(r.mods_in_main@) == seq!["mailers"@],
        !r.warn_if_not_web,
{
    let mut feats: Vec<&'static str> = Vec::new();
    feats.push("mail-templates");
    feats.push("templates");
    let mut deps: Vec<(&'static str, &'static str)> = Vec::new();
    deps.push(("serde_json", SERDE_JSON_DEP));
    let mut mods: Vec<&'static str> = Vec::new();
    mods.push("mailers");
    let r = StackPlan {
        sova_features: feats,
        deps,
        orm_features: Vec::new(),
        db_in_main: false,
        mods_in_main: mods,
        warn_if_not_web: false,
    };
    assert(strs_view(r.sova_features@) =~= seq!["mail-templates"@, "templates"@]);
    assert(deps_view(r.deps@) =~= seq![("serde_json"@, SERDE_JSON_DEP@)]);
    assert(strs_view(r.mods_in_main@) =~= seq!["mailers"@]);
    r
}

/// The edits for `generate job`: the `tasks` feature and `mod jobs`.
pub fn ensure_tasks_stack() -> (r: StackPlan)
    ensures
        strs_view(r.sova_features@) == seq!["tasks"@],
        r.deps@.len() == 0,
        r.orm_features@.len() == 0,
        !r.db_in_main,
        strs_view(r.mods_in_main@) == seq!["jobs"@],
        !r.warn_if_not_web,
{
    let mut feats: Vec<&'static str> = Vec::new();
    feats.push("tasks");
    let mut mods: Vec<&'static str> = Vec::new();
    mods.push("jobs");
    let r = StackPlan {
        sova_features: feats,
        deps: Vec::new(),
        orm_features: Vec::new(),
        db_in_main: false,
        mods_in_main: mods,
        warn_if_not_web: false,
    };
    assert(strs_view(r.sova_features@) =~= seq!["tasks"@]);
    assert(strs_view(r.mods_in_main@) =~= seq!["jobs"@]);
    r
}

/// The `dependencies` table of a parsed manifest.
pub open spec fn deps_of(doc: ConfigValue) -> Option<Seq<(String, ConfigValue)>> {
    as_table(value_get(doc, "dependencies"@))
}

/// Where the `sova` features live: `Ok(None)` when the key is absent (an empty
/// array is created), the array when present, or the error the edit stops with.
pub open spec fn spec_sova_features_slot(doc: ConfigValue) -> Result<Option<Seq<ConfigValue>>, Seq<char>> {
    match deps_of(doc) {
        None => Err("Cargo.toml missing [dependencies]"@),
        Some(deps) => match table_get(deps, "sova"@) {
            None => Err("Cargo.toml missing sova dependency"@),
            Some(ConfigValue::Table(t)) => match table_get(t@, "features"@) {
                None => Ok(None),
                Some(ConfigValue::Array(a)) => Ok(Some(a@)),
                Some(_) => Err("sova.features must be an array"@),
            },
            Some(_) => Err("sova dependency must be a table"@),
        },
    }
}

/// The `dependencies` table of a parsed manifest, or the error.
pub fn dependencies_table(doc: &ConfigValue) -> (r: Result<&Vec<(String, ConfigValue)>, String>)
    ensures
        match r {
            Ok(t) => deps_of(*doc) == Some(t@),
            Err(e) => deps_of(*doc) is None && e@ == "Cargo.toml missing [dependencies]"@,
        },
{
    match value_lookup(doc, "dependencies") {
        Some(ConfigValue::Table(t)) => Ok(t),
        _ => Err(String::from_str("Cargo.toml missing [dependencies]")),
    }
}

/// Find the features array of the `sova` dependency.
pub fn sova_features_slot(doc: &ConfigValue) -> (r: Result<Option<&Vec<ConfigValue>>, String>)
    ensures
        match r {
            Ok(Some(a)) => spec_sova_features_slot(*doc) == Ok::<Option<Seq<ConfigValue>>, Seq<char>>(Some(a@)),
            Ok(None) => spec_sova_features_slot(*doc) == Ok::<Option<Seq<ConfigValue>>, Seq<char>>(None),
            Err(e) => spec_sova_features_slot(*doc) == Err::<Option<Seq<ConfigValue>>, Seq<char>>(e@),
        },
{
    let deps = match dependencies_table(doc) {
        Ok(t) => t,
        Err(e) => return Err(e),
    };
    match table_lookup(deps, "sova") {
        None => Err(String::from_str("Cargo.toml missing sova dependency")),
        Some(ConfigValue::Table(t)) => match table_lookup(t, "features") {
            None => Ok(None),
            Some(ConfigValue::Array(a)) => Ok(Some(a)),
            Some(_) => Err(String::from_str("sova.features must be an array")),
        },
        Some(_) => Err(String::from_str("sova dependency must be a table")),
    }
}

/// The value is the string `f`.
pub open spec fn str_is(v: ConfigValue, f: Seq<char>) -> bool {
    match v {
        ConfigValue::Str(x) => x@ == f,
        _ => false,
    }
}

/// Some element of the array is the string `f`.
pub open spec fn has_str(arr: Seq<ConfigValue>, f: Seq<char>) -> bool {
    exists|i: int| 0 <= i < arr.len() && str_is(#[trigger] arr[i], f)
}

/// The features of `need` to append, in order: those not in the array and not
/// appended already.
pub open spec fn spec_missing_features(arr: Seq<ConfigValue>, need: Seq<Seq<char>>) -> Seq<Seq<char>>
    decreases need.len(),
{
    if need.len() == 0 {
        Seq::empty()
    } else {
        let prev = spec_missing_features(arr, need.drop_last());
        let f = need.last();
        if has_str(arr, f) || prev.contains(f) {
            prev
        } else {
            prev.push(f)
        }
    }
}

/// Whether the array holds the string `f`.
fn array_has_str(arr: &Vec<ConfigValue>, f: &str) -> (r: bool)
    ensures
        r == has_str(arr@, f@),
{
    let mut i: usize = 0;
    while i < arr.len()
        invariant
            i <= arr@.len(),
            forall|k: int| 0 <= k < i ==> !str_is(#[trigger] arr@[k], f@),
        decreases arr@.len() - i,
    {
        match &arr[i] {
            ConfigValue::Str(x) => {
                if str_eq(x.as_str(), f) {
                    assert(str_is(arr@[i as int], f@));
                    return true;
                }
            },
            _ => {},
        }
        i = i + 1;
    }
    false
}

/// Whether `f` is among the borrowed strings.
fn strs_contain(v: &Vec<&str>, f: &str) -> (r: bool)
    ensures
        r == strs_view(v@).contains(f@),
{
    let mut i: usize = 0;
    while i < v.len()
        invariant
            i <= v@.len(),
            forall|k: int| 0 <= k < i ==> (#[trigger] v@[k])@ != f@,
        decreases v@.len() - i,
    {
        if str_eq(v[i], f) {
            assert(strs_view(v@)[i as int] == f@);
            return true;
        }
        i = i + 1;
    }
    proof {
        if strs_view(v@).contains(f@) {
            let k = choose|k: int| 0 <= k < strs_view(v@).len() && strs_view(v@)[k] == f@;
            assert(v@[k]@ == f@);
        }
    }
    false
}

/// The features to append to an array (absent: an empty one) so that it holds
/// every feature of `need`.
pub fn missing_features<'a>(existing: Option<&Vec<ConfigValue>>, need: &Vec<&'a str>) -> (r: Vec<&'a str>)
    ensures
        strs_view(r@) == spec_missing_features(
            match existing {
                Some(a) => a@,
                None => Seq::empty(),
            },
            strs_view(need@),
        ),
{
    let empty: Vec<ConfigValue> = Vec::new();
    let arr: &Vec<ConfigValue> = match existing {
        Some(a) => a,
        None => &empty,
    };
    let ghost nv = strs_view(need@);
    let mut out: Vec<&'a str> = Vec::new();
    let mut i: usize = 0;
    assert(nv.take(0) =~= Seq::<Seq<char>>::empty());
    assert(strs_view(out@) =~= Seq::<Seq<char>>::empty());
    while i < need.len()
        invariant
            nv == strs_view(need@),
            arr@ == (match existing {
                Some(a) => a@,
                None => Seq::<ConfigValue>::empty(),
            }),
            i <= need@.len(),
            strs_view(out@) == spec_missing_features(arr@, nv.take(i as int)),
        decreases need@.len() - i,
    {
        let f = need[i];
        assert(nv.take(i + 1).drop_last() =~= nv.take(i as int));
        assert(nv.take(i + 1).last() == f@);
        if !array_has_str(arr, f) && !strs_contain(&out, f) {
            let ghost before = out@;
            out.push(f);
            assert(strs_view(out@) =~= strs_view(before).push(f@));
        }
        i = i + 1;
    }
    assert(nv.take(need@.len() as int) =~= nv);
    out
}

/// Whether `Cargo.toml` already names the dependency (`name =` or `name={`).
pub open spec fn spec_dep_listed(raw: Seq<char>, name: Seq<char>) -> bool {
    contains_seq(raw, name + " ="@) || contains_seq(raw, name + "={"@)
}

/// Whether the manifest text already lists dependency `name`.
pub fn dep_listed(raw: &str, name: &str) -> (r: bool)
    ensures
        r == spec_dep_listed(raw@, name@),
{
    let mut a = String::from_str(name);
    a.append(" =");
    let mut b = String::from_str(name);
    b.append("={");
    contains(raw, a.as_str()) || contains(raw, b.as_str())
}

/// The TOML line that declares a dependency.
pub fn dep_fragment(name: &str, rhs: &str) -> (r: String)
    ensures
        r@ == name@ + " = "@ + rhs@,
{
    let mut out = String::from_str(name);
    out.append(" = ");
    out.append(rhs);
    out
}

/// The value a parsed dependency line gives its name.
pub fn fragment_value<'a>(parsed: &'a ConfigValue, name: &str) -> (r: Result<&'a ConfigValue, String>)
    ensures
        match r {
            Ok(v) => value_get(*parsed, name@) == Some(*v),
            Err(e) => (parsed is Table && value_get(*parsed, name@) is None && e@ == "internal: missing key"@)
                || (!(parsed is Table) && e@ == "internal: expected table"@),
        },
{
    match parsed {
        ConfigValue::Table(t) => match table_lookup(t, name) {
            Some(v) => Ok(v),
            None => Err(String::from_str("internal: missing key")),
        },
        _ => Err(String::from_str("internal: expected table")),
    }
}

/// Where the features of dependency `name` live.
#[derive(Debug)]
pub enum DepFeaturesSlot<'a> {
    /// The dependency is absent or not a table: nothing to change.
    Skip,
    /// Its features array (`None`: absent, an empty one is created).
    Features(Option<&'a Vec<ConfigValue>>),
}

/// Where the features of dependency `name` live, as the contracts see it.
pub open spec fn spec_dep_features_slot(doc: ConfigValue, name: Seq<char>) -> Result<Option<Option<Seq<ConfigValue>>>, Seq<char>> {
    match deps_of(doc) {
        None => Err("Cargo.toml missing [dependencies]"@),
        Some(deps) => match table_get(deps, name) {
            Some(ConfigValue::Table(t)) => match table_get(t@, "features"@) {
                None => Ok(Some(None)),
                Some(ConfigValue::Array(a)) => Ok(Some(Some(a@))),
                Some(_) => Err(name + ".features must be an array"@),
            },
            _ => Ok(None),
        },
    }
}

/// Find the features array of dependency `name` (for merging SeaORM features).
pub fn dep_features_slot<'a>(doc: &'a ConfigValue, name: &str) -> (r: Result<DepFeaturesSlot<'a>, String>)
    ensures
        match r {
            Ok(DepFeaturesSlot::Skip) => spec_dep_features_slot(*doc, name@) == Ok::<Option<Option<Seq<ConfigValue>>>, Seq<char>>(None),
            Ok(DepFeaturesSlot::Features(None)) => spec_dep_features_slot(*doc, name@)
                == Ok::<Option<Option<Seq<ConfigValue>>>, Seq<char>>(Some(None)),
            Ok(DepFeaturesSlot::Features(Some(a))) => spec_dep_features_slot(*doc, name@)
                == Ok::<Option<Option<Seq<ConfigValue>>>, Seq<char>>(Some(Some(a@))),
            Err(e) => spec_dep_features_slot(*doc, name@) == Err::<Option<Option<Seq<ConfigValue>>>, Seq<char>>(e@),
        },
{
    let deps = match dependencies_table(doc) {
        Ok(t) => t,
        Err(e) => return Err(e),
    };
    match table_lookup(deps, name) {
        Some(ConfigValue::Table(t)) => match table_lookup(t, "features") {
            None => Ok(DepFeaturesSlot::Features(None)),
            Some(ConfigValue::Array(a)) => Ok(DepFeaturesSlot::Features(Some(a))),
            Some(_) => {
                let mut e = String::from_str(name);
                e.append(".features must be an array");
                Err(e)
            },
        },
        _ => Ok(DepFeaturesSlot::Skip),
    }
}

/// `src/entities/mod.rs` before any model exists.
pub const ENTITIES_STUB: &'static str = "// Entity modules appear here after `cargo sovax generate model`.\n";

/// `src/migrations/mod.rs` before any migration exists.
pub const MIGRATIONS_STUB: &'static str = r#"pub use sea_orm_migration::prelude::*;

pub struct Migrator;

#[async_trait::async_trait]
impl MigratorTrait for Migrator {
    fn migrations() -> Vec<Box<dyn MigrationTrait>> {
        vec![]
    }
}
"#;

/// Render the empty entity list.
pub fn render_entities_stub() -> (r: String)
    ensures
        r@ == ENTITIES_STUB@,
{
    String::from_str(ENTITIES_STUB)
}

/// Render the empty migration registry.
pub fn render_migrations_stub() -> (r: String)
    ensures
        r@ == MIGRATIONS_STUB@,
{
    String::from_str(MIGRATIONS_STUB)
}

/// Whether an HTML resource should warn that `src/main.rs` does not build
/// the web preset (`App::web()`).
pub fn needs_web_preset_warning(main_rs: &str) -> (r: bool)
    ensures
        r == !contains_seq(main_rs@, "App::web()"@),
{
    !contains(main_rs, "App::web()")
}

/// What `sova_features_edit` decides for a manifest's text: the features to
/// append to the `sova` dependency, or the error (`Cargo.toml: <parse error>`
/// first).
pub open spec fn spec_sova_features_edit(raw: Seq<char>, need: Seq<Seq<char>>) -> Result<Seq<Seq<char>>, Seq<char>> {
    match toml_parsed(raw) {
        Err(m) => Err("Cargo.toml: "@ + m),
        Ok(doc) => match spec_sova_features_slot(doc) {
            Err(e) => Err(e),
            Ok(slot) => Ok(
                spec_missing_features(
                    match slot {
                        Some(a) => a,
                        None => Seq::empty(),
                    },
                    need,
                ),
            ),
        },
    }
}

/// What `dep_edit` decides: `false` when the text already names the
/// dependency, `true` when `name = rhs` is to be inserted, or the error.
pub open spec fn spec_dep_edit(raw: Seq<char>, name: Seq<char>, rhs: Seq<char>) -> Result<bool, Seq<char>> {
    if spec_dep_listed(raw, name) {
        Ok(false)
    } else {
        match toml_parsed(raw) {
            Err(m) => Err("Cargo.toml: "@ + m),
            Ok(doc) => if deps_of(doc) is None {
                Err("Cargo.toml missing [dependencies]"@)
            } else {
                match toml_parsed(name + " = "@ + rhs) {
                    Err(m) => Err("bad dep `"@ + name + "`: "@ + m),
                    Ok(frag) => if !(frag is Table) {
                        Err("internal: expected table"@)
                    } else if value_get(frag, name) is None {
                        Err("internal: missing key"@)
                    } else {
                        Ok(true)
                    },
                }
            },
        }
    }
}

/// What `dep_features_edit` decides: `None` when the dependency is absent or
/// not a table, else the features to append, or the error.
pub open spec fn spec_dep_features_edit(raw: Seq<char>, name: Seq<char>, need: Seq<Seq<char>>) -> Result<Option<Seq<Seq<char>>>, Seq<char>> {
    match toml_parsed(raw) {
        Err(m) => Err("Cargo.toml: "@ + m),
        Ok(doc) => match spec_dep_features_slot(doc, name) {
            Err(e) => Err(e),
            Ok(None) => Ok(None),
            Ok(Some(slot)) => Ok(
                Some(
                    spec_missing_features(
                        match slot {
                            Some(a) => a,
                            None => Seq::empty(),
                        },
                        need,
                    ),
                ),
            ),
        },
    }
}

/// The entries of a document's `dependencies` table (none when it has no
/// such table).
pub open spec fn view_deps(doc: TomlView) -> Seq<(Seq<char>, TomlView)> {
    match doc {
        TomlView::Table(es) => match view_get(es, "dependencies"@) {
            Some(TomlView::Table(d)) => d,
            _ => Seq::empty(),
        },
        _ => Seq::empty(),
    }
}

/// A dependency table with `add` appended to its `features` array (an empty
/// one is created when absent).
pub open spec fn with_features(dep: TomlView, add: Seq<Seq<char>>) -> TomlView {
    match dep {
        TomlView::Table(t) => {
            let old = match view_get(t, "features"@) {
                Some(TomlView::Array(a)) => a,
                _ => Seq::empty(),
            };
            TomlView::Table(view_put(t, "features"@, TomlView::Array(old + str_values(add))))
        },
        _ => dep,
    }
}

/// The document with dependency `name` set to `v` (every other entry kept).
pub open spec fn with_dep(doc: TomlView, name: Seq<char>, v: TomlView) -> TomlView {
    match doc {
        TomlView::Table(es) => TomlView::Table(
            view_put(es, "dependencies"@, TomlView::Table(view_put(view_deps(doc), name, v))),
        ),
        _ => doc,
    }
}

/// The document with `add` appended to the features of dependency `name`.
pub open spec fn with_dep_features(doc: TomlView, name: Seq<char>, add: Seq<Seq<char>>) -> TomlView {
    match view_get(view_deps(doc), name) {
        Some(dep) => with_dep(doc, name, with_features(dep, add)),
        None => doc,
    }
}

/// The text written back for an edited manifest, or the error.
pub open spec fn manifest_text(doc: TomlView) -> Result<Seq<char>, Seq<char>> {
    match toml_rendered(doc) {
        Ok(t) => Ok(t),
        Err(m) => Err("serialize Cargo.toml: "@ + m),
    }
}

/// What `sova_features_text` gives for a manifest's text: the manifest with
/// the missing `sova` features appended, as TOML text, or the error.
pub open spec fn spec_sova_features_text(raw: Seq<char>, need: Seq<Seq<char>>) -> Result<Seq<char>, Seq<char>> {
    match spec_sova_features_edit(raw, need) {
        Err(e) => Err(e),
        Ok(add) => manifest_text(with_dep_features(value_view(toml_parsed(raw)->Ok_0), "sova"@, add)),
    }
}

/// What `dep_insert_text` gives: `None` when the text already names the
/// dependency, else the manifest with `name` set to the value of the parsed
/// line `name = rhs`, as TOML text; or the error.
pub open spec fn spec_dep_insert_text(raw: Seq<char>, name: Seq<char>, rhs: Seq<char>) -> Result<Option<Seq<char>>, Seq<char>> {
    match spec_dep_edit(raw, name, rhs) {
        Err(e) => Err(e),
        Ok(false) => Ok(None),
        Ok(true) => {
            let value = value_get(toml_parsed(name + " = "@ + rhs)->Ok_0, name)->Some_0;
            match manifest_text(with_dep(value_view(toml_parsed(raw)->Ok_0), name, value_view(value))) {
                Ok(t) => Ok(Some(t)),
                Err(e) => Err(e),
            }
        },
    }
}

/// What `dep_features_text` gives: `None` when dependency `name` is absent or
/// not a table, else the manifest with its missing features appended, as TOML
/// text; or the error.
pub open spec fn spec_dep_features_text(raw: Seq<char>, name: Seq<char>, need: Seq<Seq<char>>) -> Result<Option<Seq<char>>, Seq<char>> {
    match spec_dep_features_edit(raw, name, need) {
        Err(e) => Err(e),
        Ok(None) => Ok(None),
        Ok(Some(add)) => match manifest_text(with_dep_features(value_view(toml_parsed(raw)->Ok_0), name, add)) {
            Ok(t) => Ok(Some(t)),
            Err(e) => Err(e),
        },
    }
}

/// A table's entries with `(key, v)` added last.
fn push_entry(t: Vec<(String, ConfigValue)>, key: &str, v: ConfigValue) -> (r: Vec<(String, ConfigValue)>)
    ensures
        entries_view(r@) == entries_view(t@).push((key@, value_view(v))),
{
    let k = String::from_str(key);
    proof {
        lemma_entries_push(t@, (k, v));
    }
    let mut t = t;
    t.push((k, v));
    t
}

/// A dependency with `add` appended to its features.
fn dep_with_features(dep: ConfigValue, add: &Vec<&str>) -> (r: ConfigValue)
    ensures
        r@ == with_features(dep@, strs_view(add@)),
{
    match dep {
        ConfigValue::Table(t) => {
            proof {
                lemma_get_view(t@, "features"@);
            }
            let (rest, old) = take_entry(t, "features");
            let a = match old {
                Some(ConfigValue::Array(a)) => a,
                _ => Vec::new(),
            };
            let a2 = push_strs(a, add);
            ConfigValue::Table(push_entry(rest, "features", ConfigValue::Array(a2)))
        },
        other => other,
    }
}

/// The document with dependency `name` set to `v`.
fn doc_with_dep(doc: ConfigValue, name: &str, v: ConfigValue) -> (r: ConfigValue)
    requires
        doc is Table,
    ensures
        r@ == with_dep(doc@, name@, v@),
{
    match doc {
        ConfigValue::Table(es) => {
            proof {
                lemma_get_view(es@, "dependencies"@);
            }
            let (rest, deps) = take_entry(es, "dependencies");
            let d = match deps {
                Some(ConfigValue::Table(d)) => d,
                _ => Vec::new(),
            };
            let d2 = set_entry(d, name, v);
            ConfigValue::Table(push_entry(rest, "dependencies", ConfigValue::Table(d2)))
        },
        other => other,
    }
}

/// The document with `add` appended to the features of dependency `name`,
/// which it has.
fn doc_with_dep_features(doc: ConfigValue, name: &str, add: &Vec<&str>) -> (r: ConfigValue)
    requires
        doc is Table,
        view_get(view_deps(doc@), name@) is Some,
    ensures
        r@ == with_dep_features(doc@, name@, strs_view(add@)),
{
    match doc {
        ConfigValue::Table(es) => {
            proof {
                lemma_get_view(es@, "dependencies"@);
            }
            let (rest, deps) = take_entry(es, "dependencies");
            let d = match deps {
                Some(ConfigValue::Table(d)) => d,
                _ => Vec::new(),
            };
            proof {
                lemma_get_view(d@, name@);
            }
            let (drest, dep) = take_entry(d, name);
            let dep2 = match dep {
                Some(x) => dep_with_features(x, add),
                // Not reached: the precondition says the dependency is there.
                None => ConfigValue::Bool(false),
            };
            let d2 = push_entry(drest, name, dep2);
            ConfigValue::Table(push_entry(rest, "dependencies", ConfigValue::Table(d2)))
        },
        other => other,
    }
}

/// The manifest's text for an edited document.
fn manifest_text_of(doc: &ConfigValue) -> (r: Result<String, String>)
    ensures
        match r {
            Ok(t) => manifest_text(doc@) == Ok::<Seq<char>, Seq<char>>(t@),
            Err(e) => manifest_text(doc@) == Err::<Seq<char>, Seq<char>>(e@),
        },
{
    match render_toml(doc) {
        Ok(t) => Ok(t),
        Err(m) => {
            let mut e = String::from_str("serialize Cargo.toml: ");
            e.append(m.as_str());
            Err(e)
        },
    }
}

/// New text of a `Cargo.toml` whose `sova` dependency is to list every feature
/// of `need`: the missing ones are appended, in order, and the document is
/// written out again.
pub fn sova_features_text(raw: &str, need: &Vec<&str>) -> (r: Result<String, String>)
    ensures
        match r {
            Ok(t) => spec_sova_features_text(raw@, strs_view(need@)) == Ok::<Seq<char>, Seq<char>>(t@),
            Err(e) => spec_sova_features_text(raw@, strs_view(need@)) == Err::<Seq<char>, Seq<char>>(e@),
        },
{
    let model = match parse_toml(raw) {
        Ok(v) => v,
        Err(m) => {
            let mut e = String::from_str("Cargo.toml: ");
            e.append(m.as_str());
            return Err(e);
        },
    };
    let add = match sova_features_slot(&model) {
        Ok(slot) => missing_features(slot, need),
        Err(e) => return Err(e),
    };
    proof {
        let es = model->Table_0@;
        lemma_get_view(es, "dependencies"@);
        lemma_get_view(deps_of(model)->Some_0, "sova"@);
    }
    let edited = doc_with_dep_features(model, "sova", &add);
    manifest_text_of(&edited)
}

/// New text of a `Cargo.toml` with dependency `name = rhs` inserted, or `None`
/// when the text already names it.
pub fn dep_insert_text(raw: &str, name: &str, rhs: &str) -> (r: Result<Option<String>, String>)
    ensures
        match r {
            Ok(Some(t)) => spec_dep_insert_text(raw@, name@, rhs@) == Ok::<Option<Seq<char>>, Seq<char>>(Some(t@)),
            Ok(None) => spec_dep_insert_text(raw@, name@, rhs@) == Ok::<Option<Seq<char>>, Seq<char>>(None),
            Err(e) => spec_dep_insert_text(raw@, name@, rhs@) == Err::<Option<Seq<char>>, Seq<char>>(e@),
        },
{
    if dep_listed(raw, name) {
        return Ok(None);
    }
    let model = match parse_toml(raw) {
        Ok(v) => v,
        Err(m) => {
            let mut e = String::from_str("Cargo.toml: ");
            e.append(m.as_str());
            return Err(e);
        },
    };
    match dependencies_table(&model) {
        Ok(_) => {},
        Err(e) => return Err(e),
    }
    let line = dep_fragment(name, rhs);
    let frag = match parse_toml(line.as_str()) {
        Ok(v) => v,
        Err(m) => {
            let mut e = String::from_str("bad dep `");
            e.append(name);
            e.append("`: ");
            e.append(m.as_str());
            return Err(e);
        },
    };
    match fragment_value(&frag, name) {
        Ok(_) => {},
        Err(e) => return Err(e),
    }
    let value = match frag {
        ConfigValue::Table(t) => take_entry(t, name).1,
        _ => None,
    };
    let value = match value {
        Some(v) => v,
        None => return Err(String::from_str("internal: missing key")),
    };
    let edited = doc_with_dep(model, name, value);
    match manifest_text_of(&edited) {
        Ok(t) => Ok(Some(t)),
        Err(e) => Err(e),
    }
}

/// New text of a `Cargo.toml` with the missing features of `need` appended to
/// dependency `name`, or `None` when it is absent or not a table.
pub fn dep_features_text(raw: &str, name: &str, need: &Vec<&str>) -> (r: Result<Option<String>, String>)
    ensures
        match r {
            Ok(Some(t)) => spec_dep_features_text(raw@, name@, strs_view(need@)) == Ok::<Option<Seq<char>>, Seq<char>>(
                Some(t@),
            ),
            Ok(None) => spec_dep_features_text(raw@, name@, strs_view(need@)) == Ok::<Option<Seq<char>>, Seq<char>>(None),
            Err(e) => spec_dep_features_text(raw@, name@, strs_view(need@)) == Err::<Option<Seq<char>>, Seq<char>>(e@),
        },
{
    let model = match parse_toml(raw) {
        Ok(v) => v,
        Err(m) => {
            let mut e = String::from_str("Cargo.toml: ");
            e.append(m.as_str());
            return Err(e);
        },
    };
    let add = match dep_features_slot(&model, name) {
        Ok(DepFeaturesSlot::Skip) => return Ok(None),
        Ok(DepFeaturesSlot::Features(slot)) => missing_features(slot, need),
        Err(e) => return Err(e),
    };
    proof {
        let es = model->Table_0@;
        lemma_get_view(es, "dependencies"@);
        lemma_get_view(deps_of(model)->Some_0, name@);
    }
    let edited = doc_with_dep_features(model, name, &add);
    match manifest_text_of(&edited) {
        Ok(t) => Ok(Some(t)),
        Err(e) => Err(e),
    }
}

/// The features array of dependency `name` in a document's form.
pub open spec fn features_of(doc: TomlView, name: Seq<char>) -> Option<Seq<TomlView>> {
    match view_get(view_deps(doc), name) {
        Some(TomlView::Table(t)) => match view_get(t, "features"@) {
            Some(TomlView::Array(a)) => Some(a),
            _ => None,
        },
        _ => None,
    }
}

/// An array holds the string `f` exactly when its form holds it.
proof fn lemma_has_str_view(arr: Seq<ConfigValue>, f: Seq<char>)
    ensures
        has_str(arr, f) == items_view(arr).contains(TomlView::Str(f)),
    decreases arr.len(),
{
    lemma_items_index(arr);
    if arr.len() > 0 {
        let p = arr.drop_last();
        lemma_has_str_view(p, f);
        lemma_items_index(p);
        assert(items_view(arr).drop_last() =~= items_view(p));
        if has_str(arr, f) {
            let k = choose|k: int| 0 <= k < arr.len() && str_is(#[trigger] arr[k], f);
            if k < p.len() {
                assert(str_is(p[k], f));
            } else {
                assert(items_view(arr)[k] == TomlView::Str(f));
            }
        }
        if items_view(arr).contains(TomlView::Str(f)) {
            let k = choose|k: int| 0 <= k < items_view(arr).len() && items_view(arr)[k] == TomlView::Str(f);
            if k < p.len() {
                assert(items_view(p)[k] == TomlView::Str(f));
            } else {
                assert(str_is(arr[k], f));
            }
        }
        if has_str(p, f) {
            let k = choose|k: int| 0 <= k < p.len() && str_is(#[trigger] p[k], f);
            assert(str_is(arr[k], f));
        }
    }
}

/// The features chosen to append: each at most once, none the array holds
/// already, and with the array they cover every feature asked for.
proof fn lemma_missing(arr: Seq<ConfigValue>, need: Seq<Seq<char>>, f: Seq<char>)
    ensures
        count_in(spec_missing_features(arr, need), f) <= 1,
        has_str(arr, f) ==> !spec_missing_features(arr, need).contains(f),
        need.contains(f) ==> has_str(arr, f) || spec_missing_features(arr, need).contains(f),
    decreases need.len(),
{
    if need.len() > 0 {
        let pn = need.drop_last();
        let prev = spec_missing_features(arr, pn);
        lemma_missing(arr, pn, f);
        lemma_count_zero(prev, f);
        let g = need.last();
        if !(has_str(arr, g) || prev.contains(g)) {
            assert(prev.push(g).drop_last() =~= prev);
            if prev.push(g).contains(f) && g != f {
                let k = choose|k: int| 0 <= k < prev.push(g).len() && prev.push(g)[k] == f;
                assert(prev[k] == f);
            }
            assert(prev.push(g)[prev.len() as int] == g);
            if prev.contains(f) {
                let k = choose|k: int| 0 <= k < prev.len() && prev[k] == f;
                assert(prev.push(g)[k] == f);
            }
        }
        if need.contains(f) && g != f {
            let k = choose|k: int| 0 <= k < need.len() && need[k] == f;
            assert(pn[k] == f);
        }
    }
}

/// Appending features to dependency `name`: its features array then starts
/// with the features it had, holds every feature asked for, and holds a
/// feature it lacked exactly once; every other dependency, and every entry of
/// the manifest besides `dependencies`, keeps its value.
pub proof fn law_dep_features_edit(doc: ConfigValue, name: Seq<char>, need: Seq<Seq<char>>, f: Seq<char>, k: Seq<char>)
    requires
        spec_dep_features_slot(doc, name) matches Ok(Some(_)),
    ensures
        ({
            let old = match spec_dep_features_slot(doc, name) {
                Ok(Some(Some(a))) => a,
                _ => Seq::empty(),
            };
            let new = with_dep_features(doc@, name, spec_missing_features(old, need));
            let a = features_of(new, name)->Some_0;
            &&& features_of(new, name) == Some(items_view(old) + str_values(spec_missing_features(old, need)))
            &&& need.contains(f) ==> a.contains(TomlView::Str(f))
            &&& need.contains(f) && !has_str(old, f) ==> count_in(a, TomlView::Str(f)) == 1
            &&& k != name ==> view_get(view_deps(new), k) == view_get(view_deps(doc@), k)
            &&& k != "dependencies"@ ==> view_get(new->Table_0, k) == view_get(doc@->Table_0, k)
        }),
{
    let old = match spec_dep_features_slot(doc, name) {
        Ok(Some(Some(a))) => a,
        _ => Seq::empty(),
    };
    let add = spec_missing_features(old, need);
    let es = doc->Table_0@;
    lemma_get_view(es, "dependencies"@);
    let deps = deps_of(doc)->Some_0;
    lemma_get_view(deps, name);
    let t = table_get(deps, name)->Some_0->Table_0@;
    lemma_get_view(t, "features"@);
    let dv = view_deps(doc@);
    let dep = view_get(dv, name)->Some_0;
    let nf = with_features(dep, add);
    let nd = view_put(dv, name, nf);
    let new = with_dep_features(doc@, name, add);
    let esv = entries_view(es);
    let olda = match view_get(entries_view(t), "features"@) {
        Some(TomlView::Array(x)) => x,
        _ => Seq::empty(),
    };
    assert(olda == items_view(old));
    law_put_get(esv, "dependencies"@, TomlView::Table(nd), k);
    law_put_get(esv, "dependencies"@, TomlView::Table(nd), "dependencies"@);
    law_put_get(dv, name, nf, k);
    law_put_get(dv, name, nf, name);
    law_put_get(entries_view(t), "features"@, TomlView::Array(olda + str_values(add)), "features"@);
    let arr = olda + str_values(add);
    let sf = TomlView::Str(f);
    lemma_has_str_view(old, f);
    lemma_missing(old, need, f);
    lemma_count_concat(items_view(old), str_values(add), sf);
    lemma_count_str_values(add, f);
    lemma_count_zero(items_view(old), sf);
    lemma_count_zero(add, f);
    lemma_count_zero(arr, sf);
}

/// Appending `sova` features: the law above, for the `sova` dependency of a
/// manifest whose `sova` features can be edited.
pub proof fn law_sova_features_edit(doc: ConfigValue, need: Seq<Seq<char>>, f: Seq<char>, k: Seq<char>)
    requires
        spec_sova_features_slot(doc) is Ok,
    ensures
        spec_dep_features_slot(doc, "sova"@) == Ok::<Option<Option<Seq<ConfigValue>>>, Seq<char>>(
            Some(spec_sova_features_slot(doc)->Ok_0),
        ),
        ({
            let old = match spec_sova_features_slot(doc) {
                Ok(Some(a)) => a,
                _ => Seq::empty(),
            };
            let new = with_dep_features(doc@, "sova"@, spec_missing_features(old, need));
            let a = features_of(new, "sova"@)->Some_0;
            &&& features_of(new, "sova"@) == Some(items_view(old) + str_values(spec_missing_features(old, need)))
            &&& need.contains(f) ==> a.contains(TomlView::Str(f))
            &&& need.contains(f) && !has_str(old, f) ==> count_in(a, TomlView::Str(f)) == 1
            &&& k != "sova"@ ==> view_get(view_deps(new), k) == view_get(view_deps(doc@), k)
            &&& k != "dependencies"@ ==> view_get(new->Table_0, k) == view_get(doc@->Table_0, k)
        }),
{
    law_dep_features_edit(doc, "sova"@, need, f, k);
}

/// Inserting dependency `name`: the manifest then has it with value `v`, and
/// every other dependency, and every entry besides `dependencies`, keeps its
/// value.
pub proof fn law_dep_insert(doc: ConfigValue, name: Seq<char>, v: TomlView, k: Seq<char>)
    requires
        deps_of(doc) is Some,
    ensures
        view_get(view_deps(with_dep(doc@, name, v)), name) == Some(v),
        k != name ==> view_get(view_deps(with_dep(doc@, name, v)), k) == view_get(view_deps(doc@), k),
        k != "dependencies"@ ==> view_get(with_dep(doc@, name, v)->Table_0, k) == view_get(doc@->Table_0, k),
{
    let es = entries_view(doc->Table_0@);
    lemma_get_view(doc->Table_0@, "dependencies"@);
    let nd = view_put(view_deps(doc@), name, v);
    law_put_get(es, "dependencies"@, TomlView::Table(nd), k);
    law_put_get(es, "dependencies"@, TomlView::Table(nd), "dependencies"@);
    law_put_get(view_deps(doc@), name, v, k);
    law_put_get(view_deps(doc@), name, v, name);
}

} // verus!
