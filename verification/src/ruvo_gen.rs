//! Sources of a generated JSON (CRUD) module for a Ruvo application.

use vstd::prelude::*;
use vstd::string::*;
use crate::text::{replace_all, str_replace};
use crate::util::{spec_to_type_name, to_type_name};

pub use crate::fields::{
    migration_col_helper, parse_field_type, parse_fields, pluralize, render_entity, render_migration,
    rust_type, FieldSpec, FieldType,
};

verus! {

/// `mod.rs` of a generated module up to the mount path.
pub const CRUD_MOD_HEAD: &'static str = r#"mod dto;
mod handlers;
mod routes;

use ruvo::App;

pub fn register(app: &mut App) {
    app.mount("/"#;

/// `mod.rs` of a generated module between the mount path and the entity name.
pub const CRUD_MOD_MID: &'static str = r#"", routes::routes());
}

// entity: crate::entities::"#;

/// The `mod.rs` of a module mounted at `/plural` for entity `name`.
pub open spec fn spec_render_crud_mod(name: Seq<char>, plural: Seq<char>) -> Seq<char> {
    CRUD_MOD_HEAD@ + plural + CRUD_MOD_MID@ + name + "\n"@
}

/// Render `mod.rs`: declares `dto` / `handlers` / `routes` and mounts the routes.
pub fn render_crud_mod(name: &str, plural: &str) -> (r: String)
    ensures
        r@ == spec_render_crud_mod(name@, plural@),
{
    let mut out = String::from_str(CRUD_MOD_HEAD);
    out.append(plural);
    out.append(CRUD_MOD_MID);
    out.append(name);
    out.append("\n");
    out
}

/// The `dto.rs` of a generated JSON module: `Create`, `Update`, `IdParams`.
pub const CRUD_DTO: &'static str = r#"use ruvo::doc_schema;

vld::schema! {
    #[derive(Debug, Clone, serde::Serialize)]
    pub struct Create {
        pub name: String => vld::string().min(1),
    }
}

vld::schema! {
    #[derive(Debug, Clone, serde::Serialize)]
    pub struct Update {
        pub name: String => vld::string().min(1),
    }
}

vld::schema! {
    #[derive(Debug, Clone)]
    pub struct IdParams {
        pub id: String => vld::string().min(1),
    }
}

doc_schema!(Create, Update, IdParams);
"#;

/// First line of a generated JSON module's `handlers.rs`.
pub const CRUD_HANDLERS_IMPORTS: &'static str = r#"use super::dto::{Create, IdParams, Update};
"#;

/// Imports after the entity alias, and the five handlers of a JSON module.
pub const CRUD_HANDLERS_BODY: &'static str = r#"use ruvo::{
    ActiveModelTrait, DbError, DbExt, Error, Json, Request, Response, Result, Set, ValidationExt,
};
use sea_orm::EntityTrait;

pub async fn list(req: Request) -> Result<Json<Vec<entity::Model>>> {
    let rows = entity::Entity::find()
        .all(req.db())
        .await
        .map_err(DbError::from)?;
    Ok(Json(rows))
}

pub async fn create(mut req: Request) -> Result<(u16, Json<entity::Model>)> {
    let body: Create = req.validate().await?;
    let row = entity::ActiveModel {
        name: Set(body.name),
        ..Default::default()
    }
    .insert(req.db())
    .await
    .map_err(DbError::from)?;
    Ok((201, Json(row)))
}

pub async fn show(req: Request) -> Result<Json<entity::Model>> {
    let params: IdParams = req.validate_params()?;
    let id: i32 = params
        .id
        .parse()
        .map_err(|_| Error::BadRequest("invalid id".into()))?;
    let row = entity::Entity::find_by_id(id)
        .one(req.db())
        .await
        .map_err(DbError::from)?
        .ok_or(Error::NotFound)?;
    Ok(Json(row))
}

pub async fn update(mut req: Request) -> Result<Json<entity::Model>> {
    let params: IdParams = req.validate_params()?;
    let id: i32 = params
        .id
        .parse()
        .map_err(|_| Error::BadRequest("invalid id".into()))?;
    let body: Update = req.validate().await?;
    let row = entity::Entity::find_by_id(id)
        .one(req.db())
        .await
        .map_err(DbError::from)?
        .ok_or(Error::NotFound)?;
    let mut am: entity::ActiveModel = row.into();
    am.name = Set(body.name);
    Ok(Json(am.update(req.db()).await.map_err(DbError::from)?))
}

pub async fn destroy(req: Request) -> Result<Response> {
    let params: IdParams = req.validate_params()?;
    let id: i32 = params
        .id
        .parse()
        .map_err(|_| Error::BadRequest("invalid id".into()))?;
    let row = entity::Entity::find_by_id(id)
        .one(req.db())
        .await
        .map_err(DbError::from)?
        .ok_or(Error::NotFound)?;
    let am: entity::ActiveModel = row.into();
    am.delete(req.db()).await.map_err(DbError::from)?;
    Ok(Response::empty().status(204))
}
"#;

/// The `routes.rs` of a generated JSON module.
pub const CRUD_ROUTES: &'static str = r#"use super::dto::{Create, IdParams, Update};
use super::handlers;
use ruvo::{Doc, DocVldExt, OpenApiDocExt, Router};

pub fn routes() -> Router {
    let mut r = Router::new();
    r.get("/", handlers::list).doc(Doc::new());
    r.post("/", handlers::create)
        .doc(Doc::new().body::<Create>().created_schema(serde_json::json!({ "type": "object" })));
    r.get("/:id", handlers::show)
        .doc(Doc::new().params::<IdParams>());
    r.put("/:id", handlers::update)
        .doc(Doc::new().params::<IdParams>().body::<Update>());
    r.delete("/:id", handlers::destroy)
        .doc(Doc::new().params::<IdParams>());
    r
}
"#;

/// Render `dto.rs` (a single `name` column).
pub fn render_crud_dto() -> (r: String)
    ensures
        r@ == CRUD_DTO@,
{
    String::from_str(CRUD_DTO)
}

/// The `handlers.rs` of a JSON module over entity `name`.
pub open spec fn spec_render_crud_handlers(name: Seq<char>) -> Seq<char> {
    CRUD_HANDLERS_IMPORTS@ + "use crate::entities::"@ + name + " as entity;\n"@ + CRUD_HANDLERS_BODY@
}

/// Render `handlers.rs`: list / create / show / update / destroy.
pub fn render_crud_handlers(name: &str) -> (r: String)
    ensures
        r@ == spec_render_crud_handlers(name@),
{
    let mut out = String::from_str(CRUD_HANDLERS_IMPORTS);
    out.append("use crate::entities::");
    out.append(name);
    out.append(" as entity;\n");
    out.append(CRUD_HANDLERS_BODY);
    out
}

/// Render `routes.rs`; the mount path lives in `mod.rs`, so `_plural` is unused.
pub fn render_crud_routes(_plural: &str) -> (r: String)
    ensures
        r@ == CRUD_ROUTES@,
{
    String::from_str(CRUD_ROUTES)
}

/// A new module with an empty `register`.
pub const MODULE_SOURCE: &'static str = r#"use ruvo::App;

pub fn register(app: &mut App) {
    // register module routes here
}
"#;

/// Render a new, empty module (`generate module`).
pub fn render_module() -> (r: String)
    ensures
        r@ == MODULE_SOURCE@,
{
    String::from_str(MODULE_SOURCE)
}

/// `Cargo.toml` of plugin `ruvo-name` up to its name.
pub const PLUGIN_MANIFEST_OPEN: &'static str = "[package]\nname = \"ruvo-";

/// `Cargo.toml` of a plugin after its name.
pub const PLUGIN_MANIFEST_TAIL: &'static str = r#""
version = "0.1.0"
edition = "2021"

[dependencies]
ruvo-core = { path = "../../crates/ruvo-core" }
"#;

/// Render the `Cargo.toml` of plugin `ruvo-name`.
pub fn render_plugin_manifest(name: &str) -> (r: String)
    ensures
        r@ == PLUGIN_MANIFEST_OPEN@ + name@ + PLUGIN_MANIFEST_TAIL@,
{
    let mut out = String::from_str(PLUGIN_MANIFEST_OPEN);
    out.append(name);
    out.append(PLUGIN_MANIFEST_TAIL);
    out
}

/// `src/lib.rs` of a plugin up to its type name.
pub const PLUGIN_LIB_OPEN: &'static str = "use ruvo_core::{App, Plugin};\n\npub struct ";

/// `src/lib.rs` of a plugin between the struct and the `impl` type name.
pub const PLUGIN_LIB_IMPL: &'static str = ";\n\nimpl Plugin for ";

/// `src/lib.rs` of a plugin after the `impl` type name.
pub const PLUGIN_LIB_TAIL: &'static str = " {\n    fn install(self, _app: &mut App) {}\n}\n";

/// The plugin type `PascalCase(name)` with an empty `install`.
pub open spec fn spec_render_plugin_lib(name: Seq<char>) -> Seq<char> {
    PLUGIN_LIB_OPEN@ + spec_to_type_name(name) + PLUGIN_LIB_IMPL@ + spec_to_type_name(name) + PLUGIN_LIB_TAIL@
}

/// Render the `src/lib.rs` of plugin `ruvo-name`.
pub fn render_plugin_lib(name: &str) -> (r: String)
    ensures
        r@ == spec_render_plugin_lib(name@),
{
    let ty = to_type_name(name);
    let mut out = String::from_str(PLUGIN_LIB_OPEN);
    out.append(ty.as_str());
    out.append(PLUGIN_LIB_IMPL);
    out.append(ty.as_str());
    out.append(PLUGIN_LIB_TAIL);
    out
}

/// The project templates of `cargo ruvo new`.
#[derive(Clone, Copy, Debug, PartialEq, Eq, Structural)]
pub enum NewTemplate {
    Api,
    Web,
    Minimal,
}

/// The template the flags select: web, else minimal, else the API default;
/// more than one flag is an error.
pub open spec fn spec_choose_template(api: bool, web: bool, minimal: bool) -> Result<NewTemplate, Seq<char>> {
    if (if api { 1int } else { 0 }) + (if web { 1int } else { 0 }) + (if minimal { 1int } else { 0 }) > 1 {
        Err("use only one of --api/--web/--minimal"@)
    } else if web {
        Ok(NewTemplate::Web)
    } else if minimal {
        Ok(NewTemplate::Minimal)
    } else {
        Ok(NewTemplate::Api)
    }
}

/// Pick the project template from `--api` / `--web` / `--minimal`.
pub fn choose_template(api: bool, web: bool, minimal: bool) -> (r: Result<NewTemplate, String>)
    ensures
        match r {
            Ok(t) => spec_choose_template(api, web, minimal) == Ok::<NewTemplate, Seq<char>>(t),
            Err(e) => spec_choose_template(api, web, minimal) == Err::<NewTemplate, Seq<char>>(e@),
        },
{
    let selected: u8 = (if api { 1u8 } else { 0u8 }) + (if web { 1u8 } else { 0u8 }) + (if minimal { 1u8 } else { 0u8 });
    if selected > 1 {
        return Err(String::from_str("use only one of --api/--web/--minimal"));
    }
    if web {
        Ok(NewTemplate::Web)
    } else if minimal {
        Ok(NewTemplate::Minimal)
    } else {
        Ok(NewTemplate::Api)
    }
}

/// A template file with every `{{name}}` replaced by the package name.
pub fn render_template_file(src: &str, app_name: &str) -> (r: String)
    ensures
        r@ == replace_all(src@, "{{name}}"@, app_name@),
{
    proof {
        reveal_strlit("{{name}}");
    }
    str_replace(src, "{{name}}", app_name)
}

/// `src/main.rs` of the API project template.
pub const API_MAIN: &'static str = r#"use ruvo::prelude::*;
use ruvo::{Parser, ServerArgs};

mod modules;

#[tokio::main]
async fn main() -> Result<()> {
    let args = ServerArgs::parse();
    args.init_tracing();

    let mut app = App::api().title("{{name}} API").version("0.1.0");
    modules::register(&mut app);
    app.run().await
}
"#;

/// `src/main.rs` of the web project template.
pub const WEB_MAIN: &'static str = r#"use ruvo::prelude::*;
use ruvo::{Html, Meta, Parser, ServerArgs};

mod modules;

#[tokio::main]
async fn main() -> Result<()> {
    let args = ServerArgs::parse();
    args.init_tracing();

    let mut app = App::web()
        .site("{{name}}")
        .public_url("http://127.0.0.1:3000");
    app.get("/", || async { Html("<h1>{{name}}</h1>".to_string()) })
        .with(
            Meta::page()
                .title("Home")
                .description("Welcome to {{name}}"),
        );
    modules::register(&mut app);
    app.run().await
}
"#;

/// `src/main.rs` of the minimal project template.
pub const MINIMAL_MAIN: &'static str = r#"use ruvo::prelude::*;

mod modules;

#[tokio::main]
async fn main() -> Result<()> {
    let mut app = App::new();
    app.get("/", || async { "ok" });
    modules::register(&mut app);
    app.listen(3000).await
}
"#;

/// The files of a project template, by path, with `{{name}}` still in place.
pub open spec fn spec_template_files(kind: NewTemplate) -> Seq<(Seq<char>, Seq<char>)> {
    let main = match kind {
        NewTemplate::Api => API_MAIN@,
        NewTemplate::Web => WEB_MAIN@,
        NewTemplate::Minimal => MINIMAL_MAIN@,
    };
    seq![("src/main.rs"@, main)]
}

/// The files `new` writes for a template: relative path and text.
pub fn template_files(kind: NewTemplate) -> (r: Vec<(&'static str, &'static str)>)
    ensures
        r@.map_values(|f: (&'static str, &'static str)| (f.0@, f.1@)) == spec_template_files(kind),
{
    let main = match kind {
        NewTemplate::Api => API_MAIN,
        NewTemplate::Web => WEB_MAIN,
        NewTemplate::Minimal => MINIMAL_MAIN,
    };
    let mut out: Vec<(&'static str, &'static str)> = Vec::new();
    out.push(("src/main.rs", main));
    assert(out@.map_values(|f: (&'static str, &'static str)| (f.0@, f.1@)) =~= spec_template_files(kind));
    out
}

} // verus!
