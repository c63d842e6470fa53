//! Sources that `cargo sova generate resource` writes for an HTML module:
//! form DTO, handlers, routes, views and a smoke-test scaffold.

use vstd::prelude::*;
use vstd::string::*;
use crate::fields::{concat_lines, fields_view, lemma_concat_lines_step, FieldSpec, FieldSpecView, FieldType};
use crate::sova_gen::{dto_fields, opt_fields_view, spec_dto_fields, spec_module_mod, MODULE_MOD_HEAD, MODULE_MOD_MID};

verus! {

/// Render `mod.rs` of an HTML module (same layout as a JSON module's).
pub fn render_web_mod(name: &str, plural: &str) -> (r: String)
    ensures
        r@ == spec_module_mod(name@, plural@),
{
    let mut out = String::from_str(MODULE_MOD_HEAD);
    out.append(plural);
    out.append(MODULE_MOD_MID);
    out.append(name);
    out.append("\n");
    out
}

/// `dto.rs` of an HTML module up to the `Form` fields.
pub const WEB_DTO_OPEN: &'static str = r#"use sova::doc_schema;

vld::schema! {
    #[derive(Debug, Clone)]
    pub struct Form {
"#;

/// `dto.rs` of an HTML module after the `Form` fields.
pub const WEB_DTO_TAIL: &'static str = r#"    }
}

vld::schema! {
    #[derive(Debug, Clone)]
    pub struct IdParams {
        pub id: String => vld::string().min(1),
    }
}

doc_schema!(Form, IdParams);
"#;

/// One field of the HTML form DTO: forms submit strings, so every column is a
/// `String` (optional when nullable) and only required non-text, non-bool
/// columns must be non-empty.
pub open spec fn web_dto_line(f: FieldSpecView) -> Seq<char> {
    let ty = if f.nullable { "Option<String>"@ } else { "String"@ };
    let vld = if f.nullable {
        "vld::string().optional()"@
    } else if f.ty == FieldType::Text || f.ty == FieldType::Bool {
        "vld::string()"@
    } else {
        "vld::string().min(1)"@
    };
    "        pub "@ + f.name + ": "@ + ty + " => "@ + vld + ",\n"@
}

/// The `dto.rs` of an HTML module: `Form` and `IdParams`.
pub open spec fn spec_render_web_dto(fields: Option<Seq<FieldSpecView>>) -> Seq<char> {
    WEB_DTO_OPEN@ + concat_lines(spec_dto_fields(fields), |f: FieldSpecView| web_dto_line(f)) + WEB_DTO_TAIL@
}

/// Render `dto.rs` of an HTML module.
pub fn render_web_dto(fields: Option<&[FieldSpec]>) -> (r: String)
    ensures
        r@ == spec_render_web_dto(opt_fields_view(fields)),
{
    let fs = dto_fields(fields);
    let ghost v = fields_view(fs@);
    let ghost line = |f: FieldSpecView| web_dto_line(f);
    let mut out = String::from_str(WEB_DTO_OPEN);
    let ghost start = out@;
    let mut i: usize = 0;
    assert(v.take(0) =~= Seq::<FieldSpecView>::empty());
    assert(out@ =~= start + concat_lines(v.take(0), line));
    while i < fs.len()
        invariant
            v == fields_view(fs@),
            line == (|f: FieldSpecView| web_dto_line(f)),
            i <= fs@.len(),
            out@ == start + concat_lines(v.take(i as int), line),
        decreases fs@.len() - i,
    {
        let f = &fs[i];
        let ghost prev = out@;
        let (ty, vld) = if f.nullable {
            ("Option<String>", "vld::string().optional()")
        } else if f.ty == FieldType::Text || f.ty == FieldType::Bool {
            ("String", "vld::string()")
        } else {
            ("String", "vld::string().min(1)")
        };
        out.append("        pub ");
        out.append(f.name.as_str());
        out.append(": ");
        out.append(ty);
        out.append(" => ");
        out.append(vld);
        out.append(",\n");
        proof {
            lemma_concat_lines_step(v, line, i as int);
            assert(out@ =~= prev + web_dto_line(v[i as int]));
        }
        i = i + 1;
    }
    assert(v.take(fs@.len() as int) =~= v);
    out.append(WEB_DTO_TAIL);
    out
}

/// Parse-or-400 conversion of a required form field.
pub open spec fn parse_or_bad_request(name: Seq<char>) -> Seq<char> {
    "Set(form."@ + name + ".parse().map_err(|_| Error::BadRequest(\"invalid "@ + name + "\".into()))?)"@
}

/// The `Set(..)` expression that stores form field `name` in an active model.
pub open spec fn spec_web_set_from_form(f: FieldSpecView) -> Seq<char> {
    match f.ty {
        FieldType::String | FieldType::Text => "Set(form."@ + f.name + ".clone())"@,
        FieldType::Int => if f.nullable {
            "Set(form."@ + f.name + ".as_ref().and_then(|s| s.parse::<i32>().ok()))"@
        } else {
            parse_or_bad_request(f.name)
        },
        FieldType::BigInt => if f.nullable {
            "Set(form."@ + f.name + ".as_ref().and_then(|s| s.parse::<i64>().ok()))"@
        } else {
            parse_or_bad_request(f.name)
        },
        FieldType::Float => if f.nullable {
            "Set(form."@ + f.name + ".as_ref().and_then(|s| s.parse::<f64>().ok()))"@
        } else {
            parse_or_bad_request(f.name)
        },
        FieldType::Bool => if f.nullable {
            "Set(form."@ + f.name
                + ".as_ref().map(|s| matches!(s.as_str(), \"1\" | \"true\" | \"on\" | \"yes\")))"@
        } else {
            "Set(matches!(form."@ + f.name + ".as_str(), \"1\" | \"true\" | \"on\" | \"yes\"))"@
        },
        FieldType::Uuid | FieldType::DateTime => if f.nullable {
            "Set(match &form."@ + f.name
                + " { Some(s) => Some(s.parse().map_err(|_| Error::BadRequest(\"invalid "@ + f.name
                + "\".into()))?), None => None })"@
        } else {
            parse_or_bad_request(f.name)
        },
    }
}

/// `Set(..)` expression converting a submitted form string into the column type
/// (booleans accept `1`, `true`, `on`, `yes`).
pub fn web_set_from_form(spec: &FieldSpec) -> (r: String)
    ensures
        r@ == spec_web_set_from_form(spec@),
{
    let name = spec.name.as_str();
    match spec.ty {
        FieldType::String | FieldType::Text => around("Set(form.", name, ".clone())"),
        FieldType::Int => if spec.nullable {
            around("Set(form.", name, ".as_ref().and_then(|s| s.parse::<i32>().ok()))")
        } else {
            parse_field_or_400(name)
        },
        FieldType::BigInt => if spec.nullable {
            around("Set(form.", name, ".as_ref().and_then(|s| s.parse::<i64>().ok()))")
        } else {
            parse_field_or_400(name)
        },
        FieldType::Float => if spec.nullable {
            around("Set(form.", name, ".as_ref().and_then(|s| s.parse::<f64>().ok()))")
        } else {
            parse_field_or_400(name)
        },
        FieldType::Bool => if spec.nullable {
            around(
                "Set(form.",
                name,
                ".as_ref().map(|s| matches!(s.as_str(), \"1\" | \"true\" | \"on\" | \"yes\")))",
            )
        } else {
            around("Set(matches!(form.", name, ".as_str(), \"1\" | \"true\" | \"on\" | \"yes\"))")
        },
        FieldType::Uuid | FieldType::DateTime => if spec.nullable {
            let mut out = String::from_str("Set(match &form.");
            out.append(name);
            out.append(" { Some(s) => Some(s.parse().map_err(|_| Error::BadRequest(\"invalid ");
            out.append(name);
            out.append("\".into()))?), None => None })");
            out
        } else {
            parse_field_or_400(name)
        },
    }
}

/// `head`, then `name`, then `tail`.
fn around(head: &str, name: &str, tail: &str) -> (r: String)
    ensures
        r@ == head@ + name@ + tail@,
{
    let mut out = String::from_str(head);
    out.append(name);
    out.append(tail);
    out
}

/// The parse-or-400 conversion of required form field `name`.
fn parse_field_or_400(name: &str) -> (r: String)
    ensures
        r@ == parse_or_bad_request(name@),
{
    let mut out = String::from_str("Set(form.");
    out.append(name);
    out.append(".parse().map_err(|_| Error::BadRequest(\"invalid ");
    out.append(name);
    out.append("\".into()))?)");
    out
}

/// One column of the HTML `create` handler's active model.
pub open spec fn web_create_line(f: FieldSpecView) -> Seq<char> {
    "        "@ + f.name + ": "@ + spec_web_set_from_form(f) + ",\n"@
}

/// One assignment of the HTML `update` handler.
pub open spec fn web_update_line(f: FieldSpecView) -> Seq<char> {
    "    am."@ + f.name + " = "@ + spec_web_set_from_form(f) + ";\n"@
}

/// Append the HTML `create` (`in_update` false) or `update` lines for every column.
fn push_web_set_lines(out: &mut String, fields: &Vec<FieldSpec>, in_update: bool)
    ensures
        final(out)@ == old(out)@ + (if in_update {
            concat_lines(fields_view(fields@), |f: FieldSpecView| web_update_line(f))
        } else {
            concat_lines(fields_view(fields@), |f: FieldSpecView| web_create_line(f))
        }),
{
    let ghost fs = fields_view(fields@);
    let ghost line = if in_update {
        |f: FieldSpecView| web_update_line(f)
    } else {
        |f: FieldSpecView| web_create_line(f)
    };
    let ghost start = out@;
    let mut i: usize = 0;
    assert(fs.take(0) =~= Seq::<FieldSpecView>::empty());
    assert(out@ =~= start + concat_lines(fs.take(0), line));
    while i < fields.len()
        invariant
            fs == fields_view(fields@),
            line == (if in_update {
                |f: FieldSpecView| web_update_line(f)
            } else {
                |f: FieldSpecView| web_create_line(f)
            }),
            i <= fields@.len(),
            out@ == start + concat_lines(fs.take(i as int), line),
        decreases fields@.len() - i,
    {
        let f = &fields[i];
        let ghost prev = out@;
        let e = web_set_from_form(f);
        if in_update {
            out.append("    am.");
            out.append(f.name.as_str());
            out.append(" = ");
            out.append(e.as_str());
            out.append(";\n");
        } else {
            out.append("        ");
            out.append(f.name.as_str());
            out.append(": ");
            out.append(e.as_str());
            out.append(",\n");
        }
        proof {
            lemma_concat_lines_step(fs, line, i as int);
            assert(out@ =~= prev + line(fs[i as int]));
        }
        i = i + 1;
    }
    assert(fs.take(fields@.len() as int) =~= fs);
}

/// First line of an HTML module's `handlers.rs`.
pub const WEB_HANDLERS_IMPORTS: &'static str = r#"use super::dto::{Form, IdParams};
"#;

/// `handlers.rs` of an HTML module from the crate imports into `index`.
pub const WEB_HANDLERS_INDEX: &'static str = r#"use sova::{
    ActiveModelTrait, DbError, DbExt, Error, Redirect, RenderExt, Request, Response, Result,
    Set, ValidationExt,
};
use sea_orm::EntityTrait;
use serde_json::json;

pub async fn index(req: Request) -> Result<Response> {
    let rows = entity::Entity::find()
        .all(req.db())
        .await
        .map_err(DbError::from)?;
"#;

/// `handlers.rs` of an HTML module from the end of `index` into `show`.
pub const WEB_HANDLERS_SHOW: &'static str = r#"}

pub async fn show(req: Request) -> Result<Response> {
    let params: IdParams = req.validate_params()?;
    let id: i32 = params
        .id
        .parse()
        .map_err(|_| Error::BadRequest("invalid id".into()))?;
    let row = entity::Entity::find_by_id(id)
        .one(req.db())
        .await
        .map_err(DbError::from)?
        .ok_or(Error::NotFound)?;
"#;

/// `handlers.rs` of an HTML module from the end of `show` into `new_form`.
pub const WEB_HANDLERS_NEW_FORM: &'static str = r#"}

pub async fn new_form(req: Request) -> Result<Response> {
"#;

/// `handlers.rs` of an HTML module from the end of `new_form` to the `create` fields.
pub const WEB_HANDLERS_CREATE: &'static str = r#"}

pub async fn create(mut req: Request) -> Result<Response> {
    let form: Form = req.validate().await?;
    let row = entity::ActiveModel {
"#;

/// `handlers.rs` of an HTML module after the `create` fields.
pub const WEB_HANDLERS_INSERT: &'static str = r#"        ..Default::default()
    }
    .insert(req.db())
    .await
    .map_err(DbError::from)?;
"#;

/// `handlers.rs` of an HTML module from the end of `create` into `edit_form`.
pub const WEB_HANDLERS_EDIT_FORM: &'static str = r#"}

pub async fn edit_form(req: Request) -> Result<Response> {
    let params: IdParams = req.validate_params()?;
    let id: i32 = params
        .id
        .parse()
        .map_err(|_| Error::BadRequest("invalid id".into()))?;
    let row = entity::Entity::find_by_id(id)
        .one(req.db())
        .await
        .map_err(DbError::from)?
        .ok_or(Error::NotFound)?;
"#;

/// `handlers.rs` of an HTML module from the end of `edit_form` to the `update` assignments.
pub const WEB_HANDLERS_UPDATE: &'static str = r#"}

pub async fn update(mut req: Request) -> Result<Response> {
    let params: IdParams = req.validate_params()?;
    let id: i32 = params
        .id
        .parse()
        .map_err(|_| Error::BadRequest("invalid id".into()))?;
    let form: Form = req.validate().await?;
    let row = entity::Entity::find_by_id(id)
        .one(req.db())
        .await
        .map_err(DbError::from)?
        .ok_or(Error::NotFound)?;
    let mut am: entity::ActiveModel = row.into();
"#;

/// `handlers.rs` of an HTML module after the `update` assignments.
pub const WEB_HANDLERS_SAVE: &'static str = r#"    let row = am.update(req.db()).await.map_err(DbError::from)?;
"#;

/// `handlers.rs` of an HTML module from the end of `update` into `destroy`.
pub const WEB_HANDLERS_DESTROY: &'static str = r#"}

pub async fn destroy(req: Request) -> Result<Response> {
    let params: IdParams = req.validate_params()?;
    let id: i32 = params
        .id
        .parse()
        .map_err(|_| Error::BadRequest("invalid id".into()))?;
    let row = entity::Entity::find_by_id(id)
        .one(req.db())
        .await
        .map_err(DbError::from)?
        .ok_or(Error::NotFound)?;
    let am: entity::ActiveModel = row.into();
    am.delete(req.db()).await.map_err(DbError::from)?;
"#;

/// The end of an HTML module's `handlers.rs`.
pub const WEB_HANDLERS_TAIL: &'static str = r#"}

use sova::IntoResponse;
"#;

/// `Ok(req.render("plural/<view>", json!(<data>))?)` of a handler, split around `plural`.
pub open spec fn render_line(plural: Seq<char>, view_and_data: Seq<char>) -> Seq<char> {
    "    Ok(req.render(\""@ + plural + view_and_data
}

/// Redirect to the saved row's page.
pub open spec fn redirect_to_row(plural: Seq<char>) -> Seq<char> {
    "    Ok(Redirect::see_other(format!(\"/"@ + plural + "/{}\", row.id)).into_response())\n"@
}

/// The `handlers.rs` of an HTML module over entity `name`, mounted at `/plural`.
pub open spec fn spec_render_web_handlers(name: Seq<char>, plural: Seq<char>, fields: Option<Seq<FieldSpecView>>) -> Seq<char> {
    let fs = spec_dto_fields(fields);
    WEB_HANDLERS_IMPORTS@ + "use crate::entities::"@ + name + " as entity;\n"@ + WEB_HANDLERS_INDEX@
        + render_line(plural, "/index.html\", json!({ \"items\": rows }))?)\n"@) + WEB_HANDLERS_SHOW@
        + render_line(plural, "/show.html\", json!({ \"item\": row }))?)\n"@) + WEB_HANDLERS_NEW_FORM@
        + render_line(plural, "/form.html\", json!({ \"item\": serde_json::Value::Null, \"action\": \"/"@)
        + plural + "\" }))?)\n"@ + WEB_HANDLERS_CREATE@
        + concat_lines(fs, |f: FieldSpecView| web_create_line(f)) + WEB_HANDLERS_INSERT@
        + redirect_to_row(plural) + WEB_HANDLERS_EDIT_FORM@
        + render_line(plural, "/form.html\", json!({ \"item\": row, \"action\": format!(\"/"@) + plural
        + "/{}\", id) }))?)\n"@ + WEB_HANDLERS_UPDATE@
        + concat_lines(fs, |f: FieldSpecView| web_update_line(f)) + WEB_HANDLERS_SAVE@
        + redirect_to_row(plural) + WEB_HANDLERS_DESTROY@
        + "    Ok(Redirect::see_other(\"/"@ + plural + "\").into_response())\n"@ + WEB_HANDLERS_TAIL@
}

/// Append `Ok(req.render("plural` to `out`.
fn push_render_open(out: &mut String, plural: &str)
    ensures
        final(out)@ == old(out)@ + "    Ok(req.render(\""@ + plural@,
{
    out.append("    Ok(req.render(\"");
    out.append(plural);
}

/// Append the redirect to the saved row's page.
fn push_redirect_to_row(out: &mut String, plural: &str)
    ensures
        final(out)@ == old(out)@ + redirect_to_row(plural@),
{
    let ghost start = out@;
    out.append("    Ok(Redirect::see_other(format!(\"/");
    out.append(plural);
    out.append("/{}\", row.id)).into_response())\n");
    assert(out@ =~= start + redirect_to_row(plural@));
}

/// Render `handlers.rs` of an HTML module: index / show / new_form / create /
/// edit_form / update / destroy, rendering views under `plural/`.
pub fn render_web_handlers(name: &str, plural: &str, fields: Option<&[FieldSpec]>) -> (r: String)
    ensures
        r@ == spec_render_web_handlers(name@, plural@, opt_fields_view(fields)),
{
    let fs = dto_fields(fields);
    let mut out = String::from_str(WEB_HANDLERS_IMPORTS);
    out.append("use crate::entities::");
    out.append(name);
    out.append(" as entity;\n");
    out.append(WEB_HANDLERS_INDEX);
    let ghost a = out@;
    push_render_open(&mut out, plural);
    out.append("/index.html\", json!({ \"items\": rows }))?)\n");
    assert(out@ =~= a + render_line(plural@, "/index.html\", json!({ \"items\": rows }))?)\n"@));
    out.append(WEB_HANDLERS_SHOW);
    let ghost b = out@;
    push_render_open(&mut out, plural);
    out.append("/show.html\", json!({ \"item\": row }))?)\n");
    assert(out@ =~= b + render_line(plural@, "/show.html\", json!({ \"item\": row }))?)\n"@));
    out.append(WEB_HANDLERS_NEW_FORM);
    let ghost c = out@;
    push_render_open(&mut out, plural);
    out.append("/form.html\", json!({ \"item\": serde_json::Value::Null, \"action\": \"/");
    assert(out@ =~= c + render_line(plural@, "/form.html\", json!({ \"item\": serde_json::Value::Null, \"action\": \"/"@));
    out.append(plural);
    out.append("\" }))?)\n");
    out.append(WEB_HANDLERS_CREATE);
    push_web_set_lines(&mut out, &fs, false);
    out.append(WEB_HANDLERS_INSERT);
    push_redirect_to_row(&mut out, plural);
    out.append(WEB_HANDLERS_EDIT_FORM);
    let ghost d = out@;
    push_render_open(&mut out, plural);
    out.append("/form.html\", json!({ \"item\": row, \"action\": format!(\"/");
    assert(out@ =~= d + render_line(plural@, "/form.html\", json!({ \"item\": row, \"action\": format!(\"/"@));
    out.append(plural);
    out.append("/{}\", id) }))?)\n");
    out.append(WEB_HANDLERS_UPDATE);
    push_web_set_lines(&mut out, &fs, true);
    out.append(WEB_HANDLERS_SAVE);
    push_redirect_to_row(&mut out, plural);
    out.append(WEB_HANDLERS_DESTROY);
    out.append("    Ok(Redirect::see_other(\"/");
    out.append(plural);
    out.append("\").into_response())\n");
    out.append(WEB_HANDLERS_TAIL);
    out
}

/// The `routes.rs` of an HTML module.
pub const WEB_ROUTES: &'static str = r#"use super::dto::{Form, IdParams};
use super::handlers;
use sova::{Doc, DocVldExt, OpenApiDocExt, Router};

pub fn routes() -> Router {
    let mut r = Router::new();
    r.get("/", handlers::index).doc(Doc::new());
    r.get("/new", handlers::new_form).doc(Doc::new());
    r.post("/", handlers::create)
        .doc(Doc::new().body::<Form>());
    r.get("/:id", handlers::show)
        .doc(Doc::new().params::<IdParams>());
    r.get("/:id/edit", handlers::edit_form)
        .doc(Doc::new().params::<IdParams>());
    r.post("/:id", handlers::update)
        .doc(Doc::new().params::<IdParams>().body::<Form>());
    r.post("/:id/delete", handlers::destroy)
        .doc(Doc::new().params::<IdParams>());
    r
}
"#;

/// Render `routes.rs` of an HTML module; the mount path lives in `mod.rs`.
pub fn render_web_routes(_plural: &str) -> (r: String)
    ensures
        r@ == WEB_ROUTES@,
{
    String::from_str(WEB_ROUTES)
}

/// `views/layout.html`.
pub const LAYOUT_STUB: &'static str = r#"<!DOCTYPE html>
<html>
<head>
  <meta charset="utf-8">
  <title>{% block title %}Sova{% endblock %}</title>
</head>
<body>
  {% block content %}{% endblock %}
</body>
</html>
"#;

/// Render the root page layout.
pub fn render_layout_stub() -> (r: String)
    ensures
        r@ == LAYOUT_STUB@,
{
    String::from_str(LAYOUT_STUB)
}

/// Start of a resource view, up to its title.
pub const VIEW_OPEN: &'static str = r#"{% extends "layout.html" %}
{% block title %}"#;

/// Start of a resource view, between its title and its heading.
pub const VIEW_HEADING: &'static str = r#"{% endblock %}
{% block content %}
<h1>"#;

/// Index view between the heading and the `new` link.
pub const INDEX_VIEW_NEW: &'static str = r#"</h1>
<p><a href="/"#;

/// Index view between the `new` link and an item link.
pub const INDEX_VIEW_ITEM: &'static str = r#"/new">New</a></p>
<ul>
{% for item in items %}
  <li><a href="/"#;

/// Index view after the item link.
pub const INDEX_VIEW_TAIL: &'static str = r#"/{{ item.id }}">#{{ item.id }}</a></li>
{% endfor %}
</ul>
{% endblock %}
"#;

/// The list page of a resource: title, a `new` link and a link per item.
pub open spec fn spec_render_web_index_view(plural: Seq<char>, title: Seq<char>) -> Seq<char> {
    VIEW_OPEN@ + title + VIEW_HEADING@ + title + INDEX_VIEW_NEW@ + plural + INDEX_VIEW_ITEM@ + plural
        + INDEX_VIEW_TAIL@
}

/// Render `views/<plural>/index.html`.
pub fn render_web_index_view(plural: &str, title: &str) -> (r: String)
    ensures
        r@ == spec_render_web_index_view(plural@, title@),
{
    let mut out = String::from_str(VIEW_OPEN);
    out.append(title);
    out.append(VIEW_HEADING);
    out.append(title);
    out.append(INDEX_VIEW_NEW);
    out.append(plural);
    out.append(INDEX_VIEW_ITEM);
    out.append(plural);
    out.append(INDEX_VIEW_TAIL);
    out
}

/// Show view between the heading and the back link.
pub const SHOW_VIEW_BACK: &'static str = r#" #{{ item.id }}</h1>
<p><a href="/"#;

/// Show view between the back link and the edit link.
pub const SHOW_VIEW_EDIT: &'static str = r#"">Back</a> · <a href="/"#;

/// Show view between the edit link and the delete form.
pub const SHOW_VIEW_DELETE: &'static str = r#"/{{ item.id }}/edit">Edit</a></p>
<form method="post" action="/"#;

/// Show view after the delete form.
pub const SHOW_VIEW_TAIL: &'static str = r#"/{{ item.id }}/delete">
  <button type="submit">Delete</button>
</form>
{% endblock %}
"#;

/// The page of one item: back and edit links and a delete form.
pub open spec fn spec_render_web_show_view(plural: Seq<char>, title: Seq<char>) -> Seq<char> {
    VIEW_OPEN@ + title + VIEW_HEADING@ + title + SHOW_VIEW_BACK@ + plural + SHOW_VIEW_EDIT@ + plural
        + SHOW_VIEW_DELETE@ + plural + SHOW_VIEW_TAIL@
}

/// Render `views/<plural>/show.html`.
pub fn render_web_show_view(plural: &str, title: &str) -> (r: String)
    ensures
        r@ == spec_render_web_show_view(plural@, title@),
{
    let mut out = String::from_str(VIEW_OPEN);
    out.append(title);
    out.append(VIEW_HEADING);
    out.append(title);
    out.append(SHOW_VIEW_BACK);
    out.append(plural);
    out.append(SHOW_VIEW_EDIT);
    out.append(plural);
    out.append(SHOW_VIEW_DELETE);
    out.append(plural);
    out.append(SHOW_VIEW_TAIL);
    out
}

/// Form view between the heading and the inputs.
pub const FORM_VIEW_FORM: &'static str = r#"</h1>
<form method="post" action="{{ action }}">
"#;

/// Form view between the inputs and the cancel link.
pub const FORM_VIEW_SAVE: &'static str = r#"  <button type="submit">Save</button>
</form>
<p><a href="/"#;

/// Form view after the cancel link.
pub const FORM_VIEW_TAIL: &'static str = r#"">Cancel</a></p>
{% endblock %}
"#;

/// One labelled input of the form view, pre-filled from `item` when editing.
pub open spec fn form_input(f: FieldSpecView) -> Seq<char> {
    "  <p>\n    <label>"@ + f.name + "<br>\n      <input name=\""@ + f.name + "\" value=\"{{ item."@ + f.name
        + " if item else '' }}\">\n    </label>\n  </p>\n"@
}

/// The create / edit form page with one input per column.
pub open spec fn spec_render_web_form_view(plural: Seq<char>, title: Seq<char>, fields: Option<Seq<FieldSpecView>>) -> Seq<char> {
    VIEW_OPEN@ + title + VIEW_HEADING@ + title + FORM_VIEW_FORM@
        + concat_lines(spec_dto_fields(fields), |f: FieldSpecView| form_input(f)) + FORM_VIEW_SAVE@
        + plural + FORM_VIEW_TAIL@
}

/// Render `views/<plural>/form.html`.
pub fn render_web_form_view(plural: &str, title: &str, fields: Option<&[FieldSpec]>) -> (r: String)
    ensures
        r@ == spec_render_web_form_view(plural@, title@, opt_fields_view(fields)),
{
    let fs = dto_fields(fields);
    let ghost v = fields_view(fs@);
    let ghost line = |f: FieldSpecView| form_input(f);
    let mut inputs = String::new();
    let mut i: usize = 0;
    assert(v.take(0) =~= Seq::<FieldSpecView>::empty());
    while i < fs.len()
        invariant
            v == fields_view(fs@),
            line == (|f: FieldSpecView| form_input(f)),
            i <= fs@.len(),
            inputs@ == concat_lines(v.take(i as int), line),
        decreases fs@.len() - i,
    {
        let name = fs[i].name.as_str();
        let ghost prev = inputs@;
        inputs.append("  <p>\n    <label>");
        inputs.append(name);
        inputs.append("<br>\n      <input name=\"");
        inputs.append(name);
        inputs.append("\" value=\"{{ item.");
        inputs.append(name);
        inputs.append(" if item else '' }}\">\n    </label>\n  </p>\n");
        proof {
            lemma_concat_lines_step(v, line, i as int);
            assert(inputs@ =~= prev + form_input(v[i as int]));
        }
        i = i + 1;
    }
    assert(v.take(fs@.len() as int) =~= v);
    let mut out = String::from_str(VIEW_OPEN);
    out.append(title);
    out.append(VIEW_HEADING);
    out.append(title);
    out.append(FORM_VIEW_FORM);
    out.append(inputs.as_str());
    out.append(FORM_VIEW_SAVE);
    out.append(plural);
    out.append(FORM_VIEW_TAIL);
    out
}

/// Smoke-test scaffold up to the resource name.
pub const RESOURCE_TEST_OPEN: &'static str = r#"//! Smoke scaffold for `"#;

/// Smoke-test scaffold between the kind and the test name.
pub const RESOURCE_TEST_FN: &'static str = r#".
//!
//! Wire your App factory (Db / Templates / modules::register), then un-ignore:
//!
//! ```ignore
//! #[tokio::test]
//! #[ignore = "requires app factory + migrations"]
//! async fn "#;

/// Smoke-test scaffold between the test name and the request path.
pub const RESOURCE_TEST_BODY: &'static str = r#"_smoke() {
//!     let app = /* build App */;
//!     let c = sova::TestClient::tracked(app).unwrap();
//!     let res = c.get(""#;

/// Smoke-test scaffold after the request path.
pub const RESOURCE_TEST_TAIL: &'static str = r#"").await;
//!     res.assert_status(200);
//! }
//! ```
"#;

/// A doc-comment smoke-test scaffold for resource `name` (`api` or `resource`)
/// that requests `/plural`.
pub open spec fn spec_render_resource_test(name: Seq<char>, plural: Seq<char>, api: bool) -> Seq<char> {
    let kind = if api { "api"@ } else { "resource"@ };
    RESOURCE_TEST_OPEN@ + name + "` "@ + kind + RESOURCE_TEST_FN@ + name + "_"@ + kind + RESOURCE_TEST_BODY@
        + "/"@ + plural + RESOURCE_TEST_TAIL@
}

/// Render the smoke-test scaffold of a generated resource.
pub fn render_resource_test(name: &str, plural: &str, api: bool) -> (r: String)
    ensures
        r@ == spec_render_resource_test(name@, plural@, api),
{
    let kind = if api { "api" } else { "resource" };
    let mut path = String::from_str("/");
    path.append(plural);
    let mut out = String::from_str(RESOURCE_TEST_OPEN);
    out.append(name);
    out.append("` ");
    out.append(kind);
    out.append(RESOURCE_TEST_FN);
    out.append(name);
    out.append("_");
    out.append(kind);
    out.append(RESOURCE_TEST_BODY);
    let ghost before = out@;
    out.append(path.as_str());
    assert(out@ =~= before + "/"@ + plural@);
    out.append(RESOURCE_TEST_TAIL);
    out
}

} // verus!
