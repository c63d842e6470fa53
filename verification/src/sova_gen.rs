//! Sources that `cargo sova generate` writes: JSON modules, DTOs, migrations,
//! seeds, mailers and jobs, and the registries that list seeds and jobs.

use vstd::prelude::*;
use vstd::string::*;
use crate::fields::{
    concat_lines, copy_field, fields_view, lemma_concat_lines_step, FieldSpec, FieldSpecView,
    FieldType,
};
use crate::text::{
    concat_map, contains_str, ends_with_char, is_ascii_alnum, is_prefix, is_ws, lemma_concat_map_step,
    lemma_split_on_concat, lemma_split_on_first_piece, split_char, split_on, str_ends_with_char,
    str_ends_with, str_starts_with, str_trim_end_matches, strings_view, strip_leading_ws,
    strip_trailing_ws, trim, trim_end_matches, trim_ws, is_suffix,
};
use crate::util::{ident_ok, spec_to_snake_case, spec_to_type_name, to_snake_case, to_type_name};

pub use crate::fields::{
    migration_col_helper, parse_field_type, parse_fields, pluralize, render_entity, render_migration,
    rust_type,
};

verus! {

/// A migration with empty `up` and `down`.
pub const BLANK_MIGRATION: &'static str = r#"use sea_orm_migration::prelude::*;

#[derive(DeriveMigrationName)]
pub struct Migration;

#[async_trait::async_trait]
impl MigrationTrait for Migration {
    async fn up(&self, manager: &SchemaManager) -> Result<(), DbErr> {
        let _ = manager;
        Ok(())
    }

    async fn down(&self, manager: &SchemaManager) -> Result<(), DbErr> {
        let _ = manager;
        Ok(())
    }
}
"#;

/// Render a migration with empty `up` / `down`.
pub fn render_blank_migration() -> (r: String)
    ensures
        r@ == BLANK_MIGRATION@,
{
    String::from_str(BLANK_MIGRATION)
}

/// A seed module whose `run` only fetches the pool.
pub const SEED_SOURCE: &'static str = r#"use sova::Error;
use std::sync::Arc;

pub async fn run(state: Arc<sova::extend::StateMap>) -> Result<(), Error> {
    let _pool = state
        .get::<sova::DbPool>()
        .ok_or_else(|| Error::Internal("DbPool missing".into()))?;
    // seed rows here
    Ok(())
}
"#;

/// Render a seed module; every seed starts from the same body, so `snake` is unused.
pub fn render_seed(snake: &str) -> (r: String)
    ensures
        r@ == SEED_SOURCE@,
{
    let _ = snake;
    String::from_str(SEED_SOURCE)
}

/// The module named by one line of a registry `mod.rs`: `pub mod name;`,
/// surrounding blanks ignored.
pub open spec fn registry_entry(line: Seq<char>) -> Option<Seq<char>> {
    let t = trim_ws(line);
    if is_prefix("pub mod "@, t) {
        let rest = t.subrange(8, t.len() as int);
        if ends_with_char(rest, ';') {
            let name = trim_ws(rest.drop_last());
            if name.len() > 0 {
                Some(name)
            } else {
                None
            }
        } else {
            None
        }
    } else {
        None
    }
}

/// The modules a registry's lines declare, first occurrence first, without repeats.
pub open spec fn registry_entries(lines: Seq<Seq<char>>) -> Seq<Seq<char>>
    decreases lines.len(),
{
    if lines.len() == 0 {
        Seq::empty()
    } else {
        let prev = registry_entries(lines.drop_last());
        match registry_entry(lines.last()) {
            Some(name) => if prev.contains(name) {
                prev
            } else {
                prev.push(name)
            },
            None => prev,
        }
    }
}

/// The modules an existing registry file declares (none when there is no file).
///
/// The file is cut at `\n`; `str::lines` would also drop a `\r` before it and the
/// empty piece after a final `\n`, and trimming and the `pub mod ` test drop both.
pub open spec fn registry_modules(existing: Option<Seq<char>>) -> Seq<Seq<char>> {
    match existing {
        Some(text) => registry_entries(split_on(text, '\n')),
        None => Seq::empty(),
    }
}

/// The module a registry line declares, if any.
fn registry_line_entry(line: &str) -> (r: Option<String>)
    ensures
        match r {
            Some(s) => registry_entry(line@) == Some(s@),
            None => registry_entry(line@) is None,
        },
{
    let t = trim(line);
    proof {
        reveal_strlit("pub mod ");
    }
    if !str_starts_with(t, "pub mod ") {
        return None;
    }
    let n = t.unicode_len();
    let rest = t.substring_char(8, n);
    if !str_ends_with_char(rest, ';') {
        return None;
    }
    let m = rest.unicode_len();
    let name = trim(rest.substring_char(0, m - 1));
    assert(rest@.subrange(0, m - 1) =~= rest@.drop_last());
    if name.unicode_len() == 0 {
        return None;
    }
    Some(name.to_owned())
}

/// The modules declared by an existing registry file, in order, without repeats.
pub fn registry_module_names(existing: Option<&str>) -> (r: Vec<String>)
    ensures
        strings_view(r@) == registry_modules(
            match existing {
                Some(t) => Some(t@),
                None => None,
            },
        ),
{
    let mut mods: Vec<String> = Vec::new();
    match existing {
        None => {
            assert(strings_view(mods@) =~= Seq::<Seq<char>>::empty());
            mods
        },
        Some(text) => {
            let lines = split_char(text, '\n');
            let ghost ls = split_on(text@, '\n');
            let mut i: usize = 0;
            assert(ls.take(0) =~= Seq::<Seq<char>>::empty());
            assert(strings_view(mods@) =~= Seq::<Seq<char>>::empty());
            while i < lines.len()
                invariant
                    ls == split_on(text@, '\n'),
                    lines@.len() == ls.len(),
                    forall|k: int| 0 <= k < lines@.len() ==> (#[trigger] lines@[k])@ == ls[k],
                    i <= lines@.len(),
                    strings_view(mods@) == registry_entries(ls.take(i as int)),
                decreases lines@.len() - i,
            {
                let entry = registry_line_entry(lines[i].as_str());
                proof {
                    assert(ls.take(i + 1).drop_last() =~= ls.take(i as int));
                    assert(ls.take(i + 1).last() == ls[i as int]);
                }
                match entry {
                    Some(name) => {
                        if !contains_str(&mods, name.as_str()) {
                            let ghost before = mods@;
                            mods.push(name);
                            assert(strings_view(mods@) =~= strings_view(before).push(name@));
                        }
                    },
                    None => {},
                }
                i = i + 1;
            }
            assert(ls.take(lines@.len() as int) =~= ls);
            mods
        },
    }
}

/// Append `text` and one piece per module to `out`.
fn push_module_lines(out: &mut String, mods: &Vec<String>, before: &str, after: &str)
    ensures
        final(out)@ == old(out)@ + concat_map(strings_view(mods@), |m: Seq<char>| before@ + m + after@),
{
    let ghost ms = strings_view(mods@);
    let ghost f = |m: Seq<char>| before@ + m + after@;
    let ghost start = out@;
    let mut i: usize = 0;
    assert(ms.take(0) =~= Seq::<Seq<char>>::empty());
    assert(out@ =~= start + concat_map(ms.take(0), f));
    while i < mods.len()
        invariant
            ms == strings_view(mods@),
            f == (|m: Seq<char>| before@ + m + after@),
            i <= mods@.len(),
            out@ == start + concat_map(ms.take(i as int), f),
        decreases mods@.len() - i,
    {
        let ghost prev = out@;
        out.append(before);
        out.append(mods[i].as_str());
        out.append(after);
        proof {
            lemma_concat_map_step(ms, f, i as int);
            assert(out@ =~= prev + f(ms[i as int]));
        }
        i = i + 1;
    }
    assert(ms.take(mods@.len() as int) =~= ms);
}

/// `src/seeds/mod.rs` declaring `mods` and calling each one's `run` in order.
pub open spec fn spec_seeds_registry_source(mods: Seq<Seq<char>>) -> Seq<char> {
    concat_map(mods, |m: Seq<char>| "pub mod "@ + m + ";\n"@) + SEEDS_REGISTRY_RUN@
        + concat_map(mods, |m: Seq<char>| "    "@ + m + "::run(state.clone()).await?;\n"@)
        + "    Ok(())\n}\n"@
}

/// What `seeds_registry` returns for the current file contents and a new seed.
pub open spec fn spec_seeds_registry(existing: Option<Seq<char>>, snake: Seq<char>) -> Result<Seq<char>, Seq<char>> {
    let mods = registry_modules(existing);
    if mods.contains(snake) {
        Err("seed `"@ + snake + "` already registered in src/seeds/mod.rs"@)
    } else {
        Ok(spec_seeds_registry_source(mods.push(snake)))
    }
}

/// `src/seeds/mod.rs` between the `pub mod` lines and the calls of `run`.
pub const SEEDS_REGISTRY_RUN: &'static str = r#"
use sova::Error;
use std::sync::Arc;

/// Wire with `Db::from_env().seed(crate::seeds::run)`.
pub async fn run(state: Arc<sova::extend::StateMap>) -> Result<(), Error> {
"#;

/// New contents of `src/seeds/mod.rs` after registering seed `snake`
/// (`existing` is the current file, if there is one).
pub fn seeds_registry(existing: Option<&str>, snake: &str) -> (r: Result<String, String>)
    ensures
        match r {
            Ok(s) => spec_seeds_registry(
                match existing {
                    Some(t) => Some(t@),
                    None => None,
                },
                snake@,
            ) == Ok::<Seq<char>, Seq<char>>(s@),
            Err(e) => spec_seeds_registry(
                match existing {
                    Some(t) => Some(t@),
                    None => None,
                },
                snake@,
            ) == Err::<Seq<char>, Seq<char>>(e@),
        },
{
    let mut mods = registry_module_names(existing);
    if contains_str(&mods, snake) {
        let mut e = String::from_str("seed `");
        e.append(snake);
        e.append("` already registered in src/seeds/mod.rs");
        return Err(e);
    }
    let ghost before = mods@;
    mods.push(snake.to_owned());
    assert(strings_view(mods@) =~= strings_view(before).push(snake@));
    let mut out = String::new();
    push_module_lines(&mut out, &mods, "pub mod ", ";\n");
    out.append(SEEDS_REGISTRY_RUN);
    push_module_lines(&mut out, &mods, "    ", "::run(state.clone()).await?;\n");
    out.append("    Ok(())\n}\n");
    Ok(out)
}

/// `src/jobs/mod.rs` between the `pub mod` lines and the `.job(..)` chain.
pub const JOBS_REGISTRY_INSTALL: &'static str = r#"
use sova::Tasks;

pub fn install(tasks: Tasks) -> Tasks {
    tasks"#;

/// `src/jobs/mod.rs` declaring `mods` and chaining each one's `job()` onto `tasks`.
pub open spec fn spec_jobs_registry_source(mods: Seq<Seq<char>>) -> Seq<char> {
    concat_map(mods, |m: Seq<char>| "pub mod "@ + m + ";\n"@) + JOBS_REGISTRY_INSTALL@
        + concat_map(mods, |m: Seq<char>| "\n        .job("@ + m + "::job())"@) + "\n}\n"@
}

/// What `jobs_registry` returns for the current file contents and a new job.
pub open spec fn spec_jobs_registry(existing: Option<Seq<char>>, snake: Seq<char>) -> Result<Seq<char>, Seq<char>> {
    let mods = registry_modules(existing);
    if mods.contains(snake) {
        Err("job `"@ + snake + "` already registered in src/jobs/mod.rs"@)
    } else {
        Ok(spec_jobs_registry_source(mods.push(snake)))
    }
}

/// New contents of `src/jobs/mod.rs` after registering job `snake`.
pub fn jobs_registry(existing: Option<&str>, snake: &str) -> (r: Result<String, String>)
    ensures
        match r {
            Ok(s) => spec_jobs_registry(
                match existing {
                    Some(t) => Some(t@),
                    None => None,
                },
                snake@,
            ) == Ok::<Seq<char>, Seq<char>>(s@),
            Err(e) => spec_jobs_registry(
                match existing {
                    Some(t) => Some(t@),
                    None => None,
                },
                snake@,
            ) == Err::<Seq<char>, Seq<char>>(e@),
        },
{
    let mut mods = registry_module_names(existing);
    if contains_str(&mods, snake) {
        let mut e = String::from_str("job `");
        e.append(snake);
        e.append("` already registered in src/jobs/mod.rs");
        return Err(e);
    }
    let ghost before = mods@;
    mods.push(snake.to_owned());
    assert(strings_view(mods@) =~= strings_view(before).push(snake@));
    let mut out = String::new();
    push_module_lines(&mut out, &mods, "pub mod ", ";\n");
    out.append(JOBS_REGISTRY_INSTALL);
    push_module_lines(&mut out, &mods, "\n        .job(", "::job())");
    out.append("\n}\n");
    Ok(out)
}

/// `mod.rs` of a generated module up to the mount path.
pub const MODULE_MOD_HEAD: &'static str = r#"mod dto;
mod handlers;
mod routes;

use sova::App;

pub fn register(app: &mut App) {
    app.mount("/"#;

/// `mod.rs` of a generated module between the mount path and the entity name.
pub const MODULE_MOD_MID: &'static str = r#"", routes::routes());
}

// entity: crate::entities::"#;

/// The `mod.rs` of a module mounted at `/plural` for entity `name`.
pub open spec fn spec_module_mod(name: Seq<char>, plural: Seq<char>) -> Seq<char> {
    MODULE_MOD_HEAD@ + plural + MODULE_MOD_MID@ + name + "\n"@
}

/// Render `mod.rs` of a JSON module: declares `dto` / `handlers` / `routes` and mounts them.
pub fn render_crud_mod(name: &str, plural: &str) -> (r: String)
    ensures
        r@ == spec_module_mod(name@, plural@),
{
    let mut out = String::from_str(MODULE_MOD_HEAD);
    out.append(plural);
    out.append(MODULE_MOD_MID);
    out.append(name);
    out.append("\n");
    out
}

/// The column used when none is given: a required `name` string.
pub open spec fn default_field() -> FieldSpecView {
    FieldSpecView { name: "name"@, ty: FieldType::String, nullable: false, unique: false }
}

/// The columns of an optional slice, as the contracts see them.
pub open spec fn opt_fields_view(fields: Option<&[FieldSpec]>) -> Option<Seq<FieldSpecView>> {
    match fields {
        Some(f) => Some(fields_view(f@)),
        None => None,
    }
}

/// The columns a DTO is generated for: the given ones, or the default column.
pub open spec fn spec_dto_fields(fields: Option<Seq<FieldSpecView>>) -> Seq<FieldSpecView> {
    match fields {
        Some(f) => if f.len() > 0 {
            f
        } else {
            seq![default_field()]
        },
        None => seq![default_field()],
    }
}

/// Columns for a DTO: the given ones, or a single `name: String` when none are given.
pub fn dto_fields(fields: Option<&[FieldSpec]>) -> (r: Vec<FieldSpec>)
    ensures
        fields_view(r@) == spec_dto_fields(opt_fields_view(fields)),
{
    match fields {
        Some(f) => {
            if f.len() > 0 {
                let mut out: Vec<FieldSpec> = Vec::new();
                let mut i: usize = 0;
                while i < f.len()
                    invariant
                        i <= f@.len(),
                        fields_view(out@) == fields_view(f@).take(i as int),
                    decreases f@.len() - i,
                {
                    let c = copy_field(&f[i]);
                    let ghost before = out@;
                    let ghost cv = c@;
                    out.push(c);
                    assert(fields_view(out@) =~= fields_view(before).push(cv));
                    assert(fields_view(f@).take(i + 1) =~= fields_view(f@).take(i as int).push(f@[i as int]@));
                    assert(fields_view(out@) =~= fields_view(f@).take(i + 1));
                    i = i + 1;
                }
                assert(fields_view(f@).take(f@.len() as int) =~= fields_view(f@));
                return out;
            }
        },
        None => {},
    }
    let mut out: Vec<FieldSpec> = Vec::new();
    out.push(FieldSpec { name: String::from_str("name"), ty: FieldType::String, nullable: false, unique: false });
    assert(fields_view(out@) =~= seq![default_field()]);
    out
}

/// The `vld` validator of a DTO column.
pub open spec fn spec_vld_expr(f: FieldSpecView) -> Seq<char> {
    let base = match f.ty {
        FieldType::String | FieldType::Uuid => "vld::string().min(1)"@,
        FieldType::Text => "vld::string()"@,
        FieldType::Int | FieldType::BigInt => "vld::number().int()"@,
        FieldType::Float => "vld::number()"@,
        FieldType::Bool => "vld::boolean()"@,
        FieldType::DateTime => "vld::string().min(1)"@,
    };
    if f.nullable {
        base + ".optional()"@
    } else {
        base
    }
}

/// `vld` validator expression for a column (`.optional()` when nullable).
pub fn vld_expr(spec: &FieldSpec) -> (r: String)
    ensures
        r@ == spec_vld_expr(spec@),
{
    let base = match spec.ty {
        FieldType::String | FieldType::Uuid => "vld::string().min(1)",
        FieldType::Text => "vld::string()",
        FieldType::Int | FieldType::BigInt => "vld::number().int()",
        FieldType::Float => "vld::number()",
        FieldType::Bool => "vld::boolean()",
        FieldType::DateTime => "vld::string().min(1)",
    };
    let mut out = String::from_str(base);
    if spec.nullable {
        out.append(".optional()");
    }
    out
}

/// The Rust type of a DTO column: strings for text, ids and times; `i64` for integers.
pub open spec fn spec_dto_rust_type(f: FieldSpecView) -> Seq<char> {
    match f.ty {
        FieldType::String | FieldType::Text | FieldType::Uuid | FieldType::DateTime => if f.nullable {
            "Option<String>"@
        } else {
            "String"@
        },
        FieldType::Int | FieldType::BigInt => if f.nullable {
            "Option<i64>"@
        } else {
            "i64"@
        },
        FieldType::Float => if f.nullable {
            "Option<f64>"@
        } else {
            "f64"@
        },
        FieldType::Bool => if f.nullable {
            "Option<bool>"@
        } else {
            "bool"@
        },
    }
}

/// Rust type of a DTO column.
pub fn dto_rust_type(spec: &FieldSpec) -> (r: String)
    ensures
        r@ == spec_dto_rust_type(spec@),
{
    match spec.ty {
        FieldType::String | FieldType::Text | FieldType::Uuid | FieldType::DateTime => {
            if spec.nullable {
                String::from_str("Option<String>")
            } else {
                String::from_str("String")
            }
        },
        FieldType::Int | FieldType::BigInt => {
            if spec.nullable {
                String::from_str("Option<i64>")
            } else {
                String::from_str("i64")
            }
        },
        FieldType::Float => {
            if spec.nullable {
                String::from_str("Option<f64>")
            } else {
                String::from_str("f64")
            }
        },
        FieldType::Bool => {
            if spec.nullable {
                String::from_str("Option<bool>")
            } else {
                String::from_str("bool")
            }
        },
    }
}

/// The `Set(..)` expression that stores DTO field `from.name` in an active model.
pub open spec fn spec_set_expr(f: FieldSpecView, from: Seq<char>) -> Seq<char> {
    match f.ty {
        FieldType::Int => if f.nullable {
            "Set("@ + from + "."@ + f.name + ".map(|v| v as i32))"@
        } else {
            "Set("@ + from + "."@ + f.name + " as i32)"@
        },
        FieldType::Uuid | FieldType::DateTime => if f.nullable {
            "Set(match "@ + from + "."@ + f.name
                + " { Some(s) => Some(s.parse().map_err(|_| Error::BadRequest(\"invalid "@ + f.name
                + "\".into()))?), None => None })"@
        } else {
            "Set("@ + from + "."@ + f.name + ".parse().map_err(|_| Error::BadRequest(\"invalid "@
                + f.name + "\".into()))?)"@
        },
        _ => "Set("@ + from + "."@ + f.name + ")"@,
    }
}

/// `Set(..)` expression converting a DTO field into the entity column type.
pub fn set_expr(spec: &FieldSpec, from: &str) -> (r: String)
    ensures
        r@ == spec_set_expr(spec@, from@),
{
    let name = spec.name.as_str();
    match spec.ty {
        FieldType::Int => {
            if spec.nullable {
                let mut out = String::from_str("Set(");
                out.append(from);
                out.append(".");
                out.append(name);
                out.append(".map(|v| v as i32))");
                out
            } else {
                let mut out = String::from_str("Set(");
                out.append(from);
                out.append(".");
                out.append(name);
                out.append(" as i32)");
                out
            }
        },
        FieldType::Uuid | FieldType::DateTime => {
            if spec.nullable {
                let mut out = String::from_str("Set(match ");
                out.append(from);
                out.append(".");
                out.append(name);
                out.append(" { Some(s) => Some(s.parse().map_err(|_| Error::BadRequest(\"invalid ");
                out.append(name);
                out.append("\".into()))?), None => None })");
                out
            } else {
                let mut out = String::from_str("Set(");
                out.append(from);
                out.append(".");
                out.append(name);
                out.append(".parse().map_err(|_| Error::BadRequest(\"invalid ");
                out.append(name);
                out.append("\".into()))?)");
                out
            }
        },
        _ => {
            let mut out = String::from_str("Set(");
            out.append(from);
            out.append(".");
            out.append(name);
            out.append(")");
            out
        },
    }
}

/// `dto.rs` of a JSON module up to the `Create` fields.
pub const DTO_CREATE_OPEN: &'static str = r#"use sova::doc_schema;

vld::schema! {
    #[derive(Debug, Clone, serde::Serialize)]
    pub struct Create {
"#;

/// `dto.rs` of a JSON module between the `Create` and `Update` fields.
pub const DTO_UPDATE_OPEN: &'static str = r#"    }
}

vld::schema! {
    #[derive(Debug, Clone, serde::Serialize)]
    pub struct Update {
"#;

/// `dto.rs` of a JSON module after the `Update` fields.
pub const DTO_TAIL: &'static str = r#"    }
}

vld::schema! {
    #[derive(Debug, Clone)]
    pub struct IdParams {
        pub id: String => vld::string().min(1),
    }
}

doc_schema!(Create, Update, IdParams);
"#;

/// One field of a JSON DTO: name, Rust type and validator.
pub open spec fn dto_line(f: FieldSpecView) -> Seq<char> {
    "        pub "@ + f.name + ": "@ + spec_dto_rust_type(f) + " => "@ + spec_vld_expr(f) + ",\n"@
}

/// Append one DTO field line per column.
fn push_dto_lines(out: &mut String, fields: &Vec<FieldSpec>)
    ensures
        final(out)@ == old(out)@ + concat_lines(fields_view(fields@), |f: FieldSpecView| dto_line(f)),
{
    let ghost fs = fields_view(fields@);
    let ghost line = |f: FieldSpecView| dto_line(f);
    let ghost start = out@;
    let mut i: usize = 0;
    assert(fs.take(0) =~= Seq::<FieldSpecView>::empty());
    assert(out@ =~= start + concat_lines(fs.take(0), line));
    while i < fields.len()
        invariant
            fs == fields_view(fields@),
            line == (|f: FieldSpecView| dto_line(f)),
            i <= fields@.len(),
            out@ == start + concat_lines(fs.take(i as int), line),
        decreases fields@.len() - i,
    {
        let f = &fields[i];
        let ghost prev = out@;
        out.append("        pub ");
        out.append(f.name.as_str());
        out.append(": ");
        let t = dto_rust_type(f);
        out.append(t.as_str());
        out.append(" => ");
        let v = vld_expr(f);
        out.append(v.as_str());
        out.append(",\n");
        proof {
            lemma_concat_lines_step(fs, line, i as int);
            assert(out@ =~= prev + dto_line(fs[i as int]));
        }
        i = i + 1;
    }
    assert(fs.take(fields@.len() as int) =~= fs);
}

/// The `dto.rs` of a JSON module: `Create` and `Update` with the same columns, and `IdParams`.
pub open spec fn spec_render_crud_dto(fields: Option<Seq<FieldSpecView>>) -> Seq<char> {
    let fs = spec_dto_fields(fields);
    DTO_CREATE_OPEN@ + concat_lines(fs, |f: FieldSpecView| dto_line(f)) + DTO_UPDATE_OPEN@
        + concat_lines(fs, |f: FieldSpecView| dto_line(f)) + DTO_TAIL@
}

/// Render `dto.rs` of a JSON module.
pub fn render_crud_dto(fields: Option<&[FieldSpec]>) -> (r: String)
    ensures
        r@ == spec_render_crud_dto(opt_fields_view(fields)),
{
    let fs = dto_fields(fields);
    let mut out = String::from_str(DTO_CREATE_OPEN);
    push_dto_lines(&mut out, &fs);
    out.append(DTO_UPDATE_OPEN);
    push_dto_lines(&mut out, &fs);
    out.append(DTO_TAIL);
    out
}

/// One column of the `create` handler's active model.
pub open spec fn create_set_line(f: FieldSpecView) -> Seq<char> {
    "        "@ + f.name + ": "@ + spec_set_expr(f, "body"@) + ",\n"@
}

/// One assignment of the `update` handler.
pub open spec fn update_set_line(f: FieldSpecView) -> Seq<char> {
    "    am."@ + f.name + " = "@ + spec_set_expr(f, "body"@) + ";\n"@
}

/// Append the `create` (`in_update` false) or `update` lines for every column.
fn push_set_lines(out: &mut String, fields: &Vec<FieldSpec>, in_update: bool)
    ensures
        final(out)@ == old(out)@ + (if in_update {
            concat_lines(fields_view(fields@), |f: FieldSpecView| update_set_line(f))
        } else {
            concat_lines(fields_view(fields@), |f: FieldSpecView| create_set_line(f))
        }),
{
    let ghost fs = fields_view(fields@);
    let ghost line = if in_update {
        |f: FieldSpecView| update_set_line(f)
    } else {
        |f: FieldSpecView| create_set_line(f)
    };
    let ghost start = out@;
    let mut i: usize = 0;
    assert(fs.take(0) =~= Seq::<FieldSpecView>::empty());
    assert(out@ =~= start + concat_lines(fs.take(0), line));
    while i < fields.len()
        invariant
            fs == fields_view(fields@),
            line == (if in_update {
                |f: FieldSpecView| update_set_line(f)
            } else {
                |f: FieldSpecView| create_set_line(f)
            }),
            i <= fields@.len(),
            out@ == start + concat_lines(fs.take(i as int), line),
        decreases fields@.len() - i,
    {
        let f = &fields[i];
        let ghost prev = out@;
        let e = set_expr(f, "body");
        if in_update {
            out.append("    am.");
            out.append(f.name.as_str());
            out.append(" = ");
            out.append(e.as_str());
            out.append(";\n");
        } else {
            out.append("        ");
            out.append(f.name.as_str());
            out.append(": ");
            out.append(e.as_str());
            out.append(",\n");
        }
        proof {
            lemma_concat_lines_step(fs, line, i as int);
            assert(out@ =~= prev + line(fs[i as int]));
        }
        i = i + 1;
    }
    assert(fs.take(fields@.len() as int) =~= fs);
}

/// First line of a JSON module's `handlers.rs`.
pub const API_HANDLERS_IMPORTS: &'static str = r#"use super::dto::{Create, IdParams, Update};
"#;

/// `handlers.rs` of a JSON module from the crate imports to the `create` fields.
pub const API_HANDLERS_CREATE: &'static str = r#"use sova::{
    ActiveModelTrait, DbError, DbExt, Error, Json, Request, Response, Result, Set, ValidationExt,
};
use sea_orm::EntityTrait;

pub async fn list(req: Request) -> Result<Json<Vec<entity::Model>>> {
    let rows = entity::Entity::find()
        .all(req.db())
        .await
        .map_err(DbError::from)?;
    Ok(Json(rows))
}

pub async fn create(mut req: Request) -> Result<(u16, Json<entity::Model>)> {
    let body: Create = req.validate().await?;
    let row = entity::ActiveModel {
"#;

/// `handlers.rs` of a JSON module from the end of `create` to the `update` assignments.
pub const API_HANDLERS_UPDATE: &'static str = r#"        ..Default::default()
    }
    .insert(req.db())
    .await
    .map_err(DbError::from)?;
    Ok((201, Json(row)))
}

pub async fn show(req: Request) -> Result<Json<entity::Model>> {
    let params: IdParams = req.validate_params()?;
    let id: i32 = params
        .id
        .parse()
        .map_err(|_| Error::BadRequest("invalid id".into()))?;
    let row = entity::Entity::find_by_id(id)
        .one(req.db())
        .await
        .map_err(DbError::from)?
        .ok_or(Error::NotFound)?;
    Ok(Json(row))
}

pub async fn update(mut req: Request) -> Result<Json<entity::Model>> {
    let params: IdParams = req.validate_params()?;
    let id: i32 = params
        .id
        .parse()
        .map_err(|_| Error::BadRequest("invalid id".into()))?;
    let body: Update = req.validate().await?;
    let row = entity::Entity::find_by_id(id)
        .one(req.db())
        .await
        .map_err(DbError::from)?
        .ok_or(Error::NotFound)?;
    let mut am: entity::ActiveModel = row.into();
"#;

/// `handlers.rs` of a JSON module after the `update` assignments.
pub const API_HANDLERS_TAIL: &'static str = r#"    Ok(Json(am.update(req.db()).await.map_err(DbError::from)?))
}

pub async fn destroy(req: Request) -> Result<Response> {
    let params: IdParams = req.validate_params()?;
    let id: i32 = params
        .id
        .parse()
        .map_err(|_| Error::BadRequest("invalid id".into()))?;
    let row = entity::Entity::find_by_id(id)
        .one(req.db())
        .await
        .map_err(DbError::from)?
        .ok_or(Error::NotFound)?;
    let am: entity::ActiveModel = row.into();
    am.delete(req.db()).await.map_err(DbError::from)?;
    Ok(Response::empty().status(204))
}
"#;

/// The `handlers.rs` of a JSON module over entity `name`.
pub open spec fn spec_render_crud_handlers(name: Seq<char>, fields: Option<Seq<FieldSpecView>>) -> Seq<char> {
    let fs = spec_dto_fields(fields);
    API_HANDLERS_IMPORTS@ + "use crate::entities::"@ + name + " as entity;\n"@
        + API_HANDLERS_CREATE@ + concat_lines(fs, |f: FieldSpecView| create_set_line(f))
        + API_HANDLERS_UPDATE@ + concat_lines(fs, |f: FieldSpecView| update_set_line(f))
        + API_HANDLERS_TAIL@
}

/// Render `handlers.rs` of a JSON module: list / create / show / update / destroy.
pub fn render_crud_handlers(name: &str, fields: Option<&[FieldSpec]>) -> (r: String)
    ensures
        r@ == spec_render_crud_handlers(name@, opt_fields_view(fields)),
{
    let fs = dto_fields(fields);
    let mut out = String::from_str(API_HANDLERS_IMPORTS);
    out.append("use crate::entities::");
    out.append(name);
    out.append(" as entity;\n");
    out.append(API_HANDLERS_CREATE);
    push_set_lines(&mut out, &fs, false);
    out.append(API_HANDLERS_UPDATE);
    push_set_lines(&mut out, &fs, true);
    out.append(API_HANDLERS_TAIL);
    out
}

/// The `routes.rs` of a JSON module.
pub const API_ROUTES: &'static str = r#"use super::dto::{Create, IdParams, Update};
use super::handlers;
use sova::{Doc, DocVldExt, OpenApiDocExt, Router};

pub fn routes() -> Router {
    let mut r = Router::new();
    r.get("/", handlers::list).doc(Doc::new());
    r.post("/", handlers::create)
        .doc(Doc::new().body::<Create>().created_schema(serde_json::json!({ "type": "object" })));
    r.get("/:id", handlers::show)
        .doc(Doc::new().params::<IdParams>());
    r.put("/:id", handlers::update)
        .doc(Doc::new().params::<IdParams>().body::<Update>());
    r.delete("/:id", handlers::destroy)
        .doc(Doc::new().params::<IdParams>());
    r
}
"#;

/// Render `routes.rs` of a JSON module; the mount path lives in `mod.rs`.
pub fn render_crud_routes(_plural: &str) -> (r: String)
    ensures
        r@ == API_ROUTES@,
{
    String::from_str(API_ROUTES)
}

/// Mailer source up to the type name.
pub const MAILER_OPEN: &'static str = r#"use sova::{Content, Envelope, Mailable};
use serde_json::json;

pub struct "#;

/// Mailer source between the struct and the `impl` type name.
pub const MAILER_IMPL: &'static str = r#" {
    pub name: String,
}

impl Mailable for "#;

/// Mailer source up to the subject.
pub const MAILER_SUBJECT: &'static str = r#" {
    fn envelope(&self) -> Envelope {
        Envelope::new(""#;

/// Mailer source between the subject and the view name.
pub const MAILER_VIEW: &'static str = r#"")
    }

    fn content(&self) -> Content {
        Content::view(
            "mail/"#;

/// Mailer source after the view name.
pub const MAILER_TAIL: &'static str = r#".html",
            json!({ "name": self.name }),
        )
    }
}
"#;

/// A mailer type `ty` whose subject is `ty` without its trailing `Mail`s and
/// whose body is the view `mail/snake.html`.
pub open spec fn spec_render_mailer(ty: Seq<char>, snake: Seq<char>) -> Seq<char> {
    MAILER_OPEN@ + ty + MAILER_IMPL@ + ty + MAILER_SUBJECT@ + trim_end_matches(ty, "Mail"@)
        + MAILER_VIEW@ + snake + MAILER_TAIL@
}

/// Render a mailer module.
pub fn render_mailer(ty: &str, snake: &str) -> (r: String)
    ensures
        r@ == spec_render_mailer(ty@, snake@),
{
    proof {
        reveal_strlit("Mail");
    }
    let title = str_trim_end_matches(ty, "Mail");
    let mut out = String::from_str(MAILER_OPEN);
    out.append(ty);
    out.append(MAILER_IMPL);
    out.append(ty);
    out.append(MAILER_SUBJECT);
    out.append(title);
    out.append(MAILER_VIEW);
    out.append(snake);
    out.append(MAILER_TAIL);
    out
}

/// Mail view up to its title.
pub const MAIL_VIEW_OPEN: &'static str = r#"{% extends "mail/layout.html" %}
{% block title %}"#;

/// Mail view after its title.
pub const MAIL_VIEW_TAIL: &'static str = r#"{% endblock %}
{% block content %}
<p>Hello {{ name }}!</p>
{% endblock %}
"#;

/// Render a mail view extending the mail layout, titled `title`.
pub fn render_mail_view(title: &str, _snake: &str) -> (r: String)
    ensures
        r@ == MAIL_VIEW_OPEN@ + title@ + MAIL_VIEW_TAIL@,
{
    let mut out = String::from_str(MAIL_VIEW_OPEN);
    out.append(title);
    out.append(MAIL_VIEW_TAIL);
    out
}

/// `views/mail/layout.html`.
pub const MAIL_LAYOUT: &'static str = r#"<!DOCTYPE html>
<html>
<head>
  <meta charset="utf-8">
  <title>{% block title %}Sova{% endblock %}</title>
</head>
<body style="font-family: system-ui, sans-serif; line-height: 1.5; color: #111;">
  {% block content %}{% endblock %}
</body>
</html>
"#;

/// Render the shared mail layout.
pub fn render_mail_layout() -> (r: String)
    ensures
        r@ == MAIL_LAYOUT@,
{
    String::from_str(MAIL_LAYOUT)
}

/// Job source up to the job name.
pub const JOB_OPEN: &'static str = r#"use sova::Job;

pub fn job() -> Job {
    Job::new(""#;

/// Job source after the job name.
pub const JOB_TAIL: &'static str = r#"", |task| async move {
        let _payload = task.payload;
        Ok(())
    })
}
"#;

/// Render a job module whose job is registered under `snake`.
pub fn render_job(snake: &str) -> (r: String)
    ensures
        r@ == JOB_OPEN@ + snake@ + JOB_TAIL@,
{
    let mut out = String::from_str(JOB_OPEN);
    out.append(snake);
    out.append(JOB_TAIL);
    out
}

/// A new module with an empty `register`.
pub const MODULE_SOURCE: &'static str = r#"use sova::App;

pub fn register(app: &mut App) {
    // register module routes here
}
"#;

/// Render a new, empty module (`generate module`).
pub fn render_module() -> (r: String)
    ensures
        r@ == MODULE_SOURCE@,
{
    String::from_str(MODULE_SOURCE)
}

/// A line that declares a module puts it among the registry's modules.
proof fn lemma_entries_contain(lines: Seq<Seq<char>>, k: int, name: Seq<char>)
    requires
        0 <= k < lines.len(),
        registry_entry(lines[k]) == Some(name),
    ensures
        registry_entries(lines).contains(name),
    decreases lines.len(),
{
    let prev = registry_entries(lines.drop_last());
    if k == lines.len() - 1 {
        if !prev.contains(name) {
            assert(registry_entries(lines) == prev.push(name));
            assert(prev.push(name)[prev.len() as int] == name);
        }
    } else {
        assert(lines.drop_last()[k] == lines[k]);
        lemma_entries_contain(lines.drop_last(), k, name);
        let j = choose|j: int| 0 <= j < prev.len() && prev[j] == name;
        match registry_entry(lines.last()) {
            Some(n2) => if !prev.contains(n2) {
                assert(prev.push(n2)[j] == name);
            },
            None => {},
        }
    }
}

/// An identifier has no blank at either end.
proof fn lemma_ident_untrimmed(m: Seq<char>)
    requires
        ident_ok(m),
    ensures
        trim_ws(m) == m,
        !m.contains('\n'),
{
    assert(!is_ws(m[0]));
    assert(is_ascii_alnum(m[m.len() - 1]) || m[m.len() - 1] == '_');
    assert(!is_ws(m.last()));
    assert(strip_leading_ws(m) == m);
    assert(strip_trailing_ws(m) == m);
    if m.contains('\n') {
        let k = choose|k: int| 0 <= k < m.len() && m[k] == '\n';
        assert(is_ascii_alnum(m[k]) || m[k] == '_');
    }
}

/// A registry rendered with `pub mod` lines lists the module of its last line.
proof fn lemma_rendered_registry_lists(mods: Seq<Seq<char>>, snake: Seq<char>, rest: Seq<char>)
    requires
        ident_ok(snake),
    ensures
        registry_modules(Some(concat_map(mods.push(snake), |m: Seq<char>| "pub mod "@ + m + ";\n"@) + rest)).contains(
            snake,
        ),
{
    reveal_strlit("pub mod ");
    reveal_strlit(";\n");
    reveal_strlit(";");
    let f = |m: Seq<char>| "pub mod "@ + m + ";\n"@;
    let all = mods.push(snake);
    let p = concat_map(mods, f);
    assert(all.drop_last() =~= mods);
    assert(concat_map(all, f) == p + f(snake));
    if mods.len() > 0 {
        assert(p == concat_map(mods.drop_last(), f) + f(mods.last()));
        assert(f(mods.last()).last() == '\n');
        assert(p.last() == '\n');
    }
    let l = "pub mod "@ + snake + ";"@;
    lemma_ident_untrimmed(snake);
    assert(!l.contains('\n')) by {
        if l.contains('\n') {
            let k = choose|k: int| 0 <= k < l.len() && l[k] == '\n';
            if 8 <= k < 8 + snake.len() {
                assert(snake[k - 8] == '\n');
            }
        }
    }
    assert(f(snake) =~= l.push('\n'));
    let whole = concat_map(all, f) + rest;
    assert(whole =~= p + (l.push('\n') + rest));
    lemma_split_on_concat(p, l.push('\n') + rest, '\n');
    lemma_split_on_first_piece(l, rest, '\n');
    let lines = split_on(whole, '\n');
    let k = split_on(p, '\n').drop_last().len() as int;
    assert(lines[k] == l);
    assert(l[0] == 'p' && l.last() == ';');
    assert(strip_leading_ws(l) == l);
    assert(strip_trailing_ws(l) == l);
    assert(l.subrange(0, 8) =~= "pub mod "@);
    let rest8 = l.subrange(8, l.len() as int);
    assert(rest8 =~= snake + ";"@);
    assert(rest8.drop_last() =~= snake);
    assert(registry_entry(l) == Some(snake));
    lemma_entries_contain(lines, k, snake);
}

/// Registering a seed twice is refused the second time (for an identifier,
/// which is what the generator passes).
pub proof fn law_seed_registered_twice_refused(existing: Option<Seq<char>>, snake: Seq<char>)
    requires
        ident_ok(snake),
        spec_seeds_registry(existing, snake) is Ok,
    ensures
        spec_seeds_registry(Some(spec_seeds_registry(existing, snake)->Ok_0), snake) is Err,
{
    let mods = registry_modules(existing);
    let all = mods.push(snake);
    let rest = SEEDS_REGISTRY_RUN@ + concat_map(all, |m: Seq<char>| "    "@ + m + "::run(state.clone()).await?;\n"@)
        + "    Ok(())\n}\n"@;
    assert(spec_seeds_registry_source(all) =~= concat_map(all, |m: Seq<char>| "pub mod "@ + m + ";\n"@) + rest);
    lemma_rendered_registry_lists(mods, snake, rest);
}

/// Registering a job twice is refused the second time (for an identifier,
/// which is what the generator passes).
pub proof fn law_job_registered_twice_refused(existing: Option<Seq<char>>, snake: Seq<char>)
    requires
        ident_ok(snake),
        spec_jobs_registry(existing, snake) is Ok,
    ensures
        spec_jobs_registry(Some(spec_jobs_registry(existing, snake)->Ok_0), snake) is Err,
{
    let mods = registry_modules(existing);
    let all = mods.push(snake);
    let rest = JOBS_REGISTRY_INSTALL@ + concat_map(all, |m: Seq<char>| "\n        .job("@ + m + "::job())"@) + "\n}\n"@;
    assert(spec_jobs_registry_source(all) =~= concat_map(all, |m: Seq<char>| "pub mod "@ + m + ";\n"@) + rest);
    lemma_rendered_registry_lists(mods, snake, rest);
}

/// The mailer type for a snake-case name: its `PascalCase` form, with `Mail`
/// appended unless it already ends so.
pub open spec fn spec_mailer_type_name(snake: Seq<char>) -> Seq<char> {
    let base = spec_to_type_name(snake);
    if is_suffix("Mail"@, base) {
        base
    } else {
        base + "Mail"@
    }
}

/// Mailer type name from the snake-case mailer name (`welcome` → `WelcomeMail`).
pub fn mailer_type_name(snake: &str) -> (r: String)
    ensures
        r@ == spec_mailer_type_name(snake@),
{
    let mut base = to_type_name(snake);
    if !str_ends_with(base.as_str(), "Mail") {
        base.append("Mail");
    }
    base
}

/// The names of a generated mailer: the type (`Welcome` → `WelcomeMail`) and
/// the snake-case file and module name (`welcome`).
pub fn mailer_names(raw: &str) -> (r: (String, String))
    ensures
        r.1@ == spec_to_snake_case(raw@),
        r.0@ == spec_mailer_type_name(spec_to_snake_case(raw@)),
{
    let snake = to_snake_case(raw);
    let ty = mailer_type_name(snake.as_str());
    (ty, snake)
}

/// The `dto.rs` of a JSON module is the same for no column list, an empty one
/// and the single default column: the `name: String` line, once in `Create`
/// and once in `Update`.
pub proof fn law_crud_dto_default_column()
    ensures
        spec_render_crud_dto(None) == spec_render_crud_dto(Some(Seq::<FieldSpecView>::empty())),
        spec_render_crud_dto(None) == spec_render_crud_dto(Some(seq![default_field()])),
        spec_render_crud_dto(None) == DTO_CREATE_OPEN@ + "        pub name: String => vld::string().min(1),\n"@
            + DTO_UPDATE_OPEN@ + "        pub name: String => vld::string().min(1),\n"@ + DTO_TAIL@,
{
    let line = |f: FieldSpecView| dto_line(f);
    let one = seq![default_field()];
    assert(one.drop_last() =~= Seq::<FieldSpecView>::empty());
    assert(one.last() == default_field());
    assert(concat_lines(one.drop_last(), line) == Seq::<char>::empty());
    assert(line(one.last()) == dto_line(default_field()));
    assert(concat_lines(one, line) =~= dto_line(default_field()));
    reveal_strlit("        pub ");
    reveal_strlit("name");
    reveal_strlit(": ");
    reveal_strlit("String");
    reveal_strlit(" => ");
    reveal_strlit("vld::string().min(1)");
    reveal_strlit(",\n");
    reveal_strlit("        pub name: String => vld::string().min(1),\n");
    assert(dto_line(default_field()) =~= "        pub name: String => vld::string().min(1),\n"@);
}

/// A DTO column's validator checks the value its Rust type holds: `f64`
/// columns take any number (`vld::number()`), `i64` columns whole numbers
/// (`vld::number().int()`), `bool` columns booleans, `String` columns strings
/// (non-empty except for `text`); a nullable column's validator ends in
/// `.optional()` and its type is an `Option`.
pub proof fn law_validator_fits_rust_type(f: FieldSpecView)
    ensures
        ({
            let opt = |base: Seq<char>| if f.nullable {
                base + ".optional()"@
            } else {
                base
            };
            let ty = |base: Seq<char>| if f.nullable {
                "Option<"@ + base + ">"@
            } else {
                base
            };
            &&& f.ty == FieldType::Float ==> spec_vld_expr(f) == opt("vld::number()"@)
                && spec_dto_rust_type(f) == ty("f64"@)
            &&& (f.ty == FieldType::Int || f.ty == FieldType::BigInt) ==> spec_vld_expr(f) == opt("vld::number().int()"@)
                && spec_dto_rust_type(f) == ty("i64"@)
            &&& f.ty == FieldType::Bool ==> spec_vld_expr(f) == opt("vld::boolean()"@)
                && spec_dto_rust_type(f) == ty("bool"@)
            &&& f.ty == FieldType::Text ==> spec_vld_expr(f) == opt("vld::string()"@)
                && spec_dto_rust_type(f) == ty("String"@)
            &&& (f.ty == FieldType::String || f.ty == FieldType::Uuid || f.ty == FieldType::DateTime)
                ==> spec_vld_expr(f) == opt("vld::string().min(1)"@) && spec_dto_rust_type(f) == ty("String"@)
        }),
{
    reveal_strlit("Option<");
    reveal_strlit(">");
    reveal_strlit("f64");
    reveal_strlit("i64");
    reveal_strlit("bool");
    reveal_strlit("String");
    reveal_strlit("Option<f64>");
    reveal_strlit("Option<i64>");
    reveal_strlit("Option<bool>");
    reveal_strlit("Option<String>");
    assert("Option<f64>"@ =~= "Option<"@ + "f64"@ + ">"@);
    assert("Option<i64>"@ =~= "Option<"@ + "i64"@ + ">"@);
    assert("Option<bool>"@ =~= "Option<"@ + "bool"@ + ">"@);
    assert("Option<String>"@ =~= "Option<"@ + "String"@ + ">"@);
}

} // verus!
