use ruvo::ruvo_gen::{render_template_file, template_files, NewTemplate};
use ruvo::fields::{FieldSpec, FieldType};
use ruvo::{ruvo_gen, sova_gen, sova_web};

fn field(name: &str, ty: FieldType, nullable: bool) -> FieldSpec {
    FieldSpec { name: name.to_string(), ty, nullable, unique: false }
}

#[test]
fn ruvo_crud_module() {
    let m = ruvo_gen::render_crud_mod("post", "posts");
    assert_eq!(
        m,
        "mod dto;\nmod handlers;\nmod routes;\n\nuse ruvo::App;\n\npub fn register(app: &mut App) {\n    app.mount(\"/posts\", routes::routes());\n}\n\n// entity: crate::entities::post\n"
    );
    assert!(ruvo_gen::render_crud_dto().contains("pub struct Create {\n        pub name: String => vld::string().min(1),\n"));
    let h = ruvo_gen::render_crud_handlers("post");
    assert!(h.starts_with("use super::dto::{Create, IdParams, Update};\nuse crate::entities::post as entity;\nuse ruvo::{\n"));
    assert!(ruvo_gen::render_crud_routes("posts").contains("r.delete(\"/:id\", handlers::destroy)"));
}

#[test]
fn ruvo_plugin_and_template() {
    assert!(ruvo_gen::render_plugin_manifest("auth").starts_with("[package]\nname = \"ruvo-auth\"\nversion = \"0.1.0\"\n"));
    assert_eq!(
        ruvo_gen::render_plugin_lib("rate_limit"),
        "use ruvo_core::{App, Plugin};\n\npub struct RateLimit;\n\nimpl Plugin for RateLimit {\n    fn install(self, _app: &mut App) {}\n}\n"
    );
    assert_eq!(ruvo_gen::render_template_file("name = \"{{name}}\" # {{name}}", "cabinet"), "name = \"cabinet\" # cabinet");
    assert_eq!(ruvo_gen::render_template_file("{{nam}}", "x"), "{{nam}}");
    assert!(matches!(ruvo_gen::choose_template(false, false, false), Ok(ruvo_gen::NewTemplate::Api)));
    assert!(matches!(ruvo_gen::choose_template(false, true, false), Ok(ruvo_gen::NewTemplate::Web)));
    assert_eq!(ruvo_gen::choose_template(true, true, false).unwrap_err(), "use only one of --api/--web/--minimal");
    assert!(ruvo_gen::render_module().starts_with("use ruvo::App;"));
}

#[test]
fn sova_dto_expressions() {
    assert_eq!(sova_gen::vld_expr(&field("a", FieldType::Uuid, true)), "vld::string().min(1).optional()");
    assert_eq!(sova_gen::vld_expr(&field("a", FieldType::BigInt, false)), "vld::number().int()");
    assert_eq!(sova_gen::dto_rust_type(&field("a", FieldType::BigInt, true)), "Option<i64>");
    assert_eq!(sova_gen::dto_rust_type(&field("a", FieldType::DateTime, false)), "String");
    assert_eq!(sova_gen::set_expr(&field("n", FieldType::Int, false), "body"), "Set(body.n as i32)");
    assert_eq!(sova_gen::set_expr(&field("n", FieldType::Int, true), "body"), "Set(body.n.map(|v| v as i32))");
    assert_eq!(
        sova_gen::set_expr(&field("id", FieldType::Uuid, false), "body"),
        "Set(body.id.parse().map_err(|_| Error::BadRequest(\"invalid id\".into()))?)"
    );
    assert_eq!(sova_gen::set_expr(&field("t", FieldType::Text, true), "body"), "Set(body.t)");
}

#[test]
fn sova_dto_defaults_to_name_column() {
    let d = sova_gen::dto_fields(None);
    assert_eq!(d.len(), 1);
    assert_eq!(d[0].name, "name");
    assert_eq!(sova_gen::dto_fields(Some(&[])).len(), 1);
    let dto = sova_gen::render_crud_dto(None);
    assert_eq!(dto.matches("        pub name: String => vld::string().min(1),\n").count(), 2);
    let two = [field("a", FieldType::Int, false), field("b", FieldType::Bool, true)];
    let dto2 = sova_gen::render_crud_dto(Some(&two));
    assert!(dto2.contains("        pub a: i64 => vld::number().int(),\n        pub b: Option<bool> => vld::boolean().optional(),\n    }\n}\n\nvld::schema! {\n    #[derive(Debug, Clone, serde::Serialize)]\n    pub struct Update {\n"));
}

#[test]
fn sova_crud_handlers_set_columns() {
    let cols = [field("views", FieldType::Int, false)];
    let h = sova_gen::render_crud_handlers("post", Some(&cols));
    assert!(h.contains("use crate::entities::post as entity;\nuse sova::{\n"));
    assert!(h.contains("        views: Set(body.views as i32),\n        ..Default::default()\n"));
    assert!(h.contains("    am.views = Set(body.views as i32);\n    Ok(Json(am.update("));
    assert_eq!(sova_gen::render_crud_mod("post", "posts"), sova_web::render_web_mod("post", "posts"));
}

#[test]
fn sova_registries() {
    let first = sova_gen::seeds_registry(None, "users").unwrap();
    assert_eq!(
        first,
        "pub mod users;\n\nuse sova::Error;\nuse std::sync::Arc;\n\n/// Wire with `Db::from_env().seed(crate::seeds::run)`.\npub async fn run(state: Arc<sova::extend::StateMap>) -> Result<(), Error> {\n    users::run(state.clone()).await?;\n    Ok(())\n}\n"
    );
    let second = sova_gen::seeds_registry(Some(&first), "posts").unwrap();
    assert!(second.starts_with("pub mod users;\npub mod posts;\n"));
    assert!(second.contains("    users::run(state.clone()).await?;\n    posts::run(state.clone()).await?;\n"));
    assert_eq!(
        sova_gen::seeds_registry(Some(&second), "users").unwrap_err(),
        "seed `users` already registered in src/seeds/mod.rs"
    );
    let jobs = sova_gen::jobs_registry(Some("pub mod a;\n  pub mod a ;\npub mod ;\n"), "b").unwrap();
    assert_eq!(jobs, "pub mod a;\npub mod b;\n\nuse sova::Tasks;\n\npub fn install(tasks: Tasks) -> Tasks {\n    tasks\n        .job(a::job())\n        .job(b::job())\n}\n");
    assert_eq!(sova_gen::jobs_registry(Some(&jobs), "b").unwrap_err(), "job `b` already registered in src/jobs/mod.rs");
    let names = sova_gen::registry_module_names(Some("pub mod x;\r\nfn y() {}\npub mod z;"));
    assert_eq!(names, vec!["x".to_string(), "z".to_string()]);
}

#[test]
fn sova_mail_and_jobs() {
    let m = sova_gen::render_mailer("WelcomeMail", "welcome");
    assert!(m.contains("pub struct WelcomeMail {\n"));
    assert!(m.contains("impl Mailable for WelcomeMail {\n"));
    assert!(m.contains("Envelope::new(\"Welcome\")"));
    assert!(m.contains("\"mail/welcome.html\","));
    assert!(sova_gen::render_mailer("MailMail", "x").contains("Envelope::new(\"\")"));
    assert_eq!(
        sova_gen::render_mail_view("Welcome", "welcome"),
        "{% extends \"mail/layout.html\" %}\n{% block title %}Welcome{% endblock %}\n{% block content %}\n<p>Hello {{ name }}!</p>\n{% endblock %}\n"
    );
    assert!(sova_gen::render_job("cleanup").contains("Job::new(\"cleanup\", |task| async move {"));
    assert!(sova_gen::render_mail_layout().contains("<title>{% block title %}Sova{% endblock %}</title>"));
    assert!(sova_gen::render_blank_migration().contains("let _ = manager;"));
    assert!(sova_gen::render_seed("x").contains("DbPool missing"));
}

#[test]
fn sova_web_sources() {
    assert_eq!(sova_web::web_set_from_form(&field("t", FieldType::Text, true)), "Set(form.t.clone())");
    assert_eq!(
        sova_web::web_set_from_form(&field("n", FieldType::Float, true)),
        "Set(form.n.as_ref().and_then(|s| s.parse::<f64>().ok()))"
    );
    assert_eq!(
        sova_web::web_set_from_form(&field("ok", FieldType::Bool, false)),
        "Set(matches!(form.ok.as_str(), \"1\" | \"true\" | \"on\" | \"yes\"))"
    );
    assert_eq!(
        sova_web::web_set_from_form(&field("at", FieldType::DateTime, true)),
        "Set(match &form.at { Some(s) => Some(s.parse().map_err(|_| Error::BadRequest(\"invalid at\".into()))?), None => None })"
    );
    let dto = sova_web::render_web_dto(Some(&[field("body", FieldType::Text, false), field("n", FieldType::Int, true)]));
    assert!(dto.contains("        pub body: String => vld::string(),\n        pub n: Option<String> => vld::string().optional(),\n"));
    let h = sova_web::render_web_handlers("post", "posts", None);
    assert!(h.contains("    Ok(req.render(\"posts/index.html\", json!({ \"items\": rows }))?)\n"));
    assert!(h.contains("\"action\": \"/posts\" }))?)\n"));
    assert!(h.contains("        name: Set(form.name.clone()),\n"));
    assert!(h.contains("    Ok(Redirect::see_other(format!(\"/posts/{}\", row.id)).into_response())\n"));
    assert!(h.contains("    Ok(Redirect::see_other(\"/posts\").into_response())\n"));
    assert!(h.ends_with("}\n\nuse sova::IntoResponse;\n"));
    assert!(sova_web::render_web_routes("posts").contains("r.post(\"/:id/delete\", handlers::destroy)"));
}

#[test]
fn sova_views_and_scaffold() {
    let idx = sova_web::render_web_index_view("posts", "Post");
    assert!(idx.contains("<h1>Post</h1>\n<p><a href=\"/posts/new\">New</a></p>\n"));
    let show = sova_web::render_web_show_view("posts", "Post");
    assert!(show.contains("<a href=\"/posts\">Back</a> · <a href=\"/posts/{{ item.id }}/edit\">Edit</a>"));
    let form = sova_web::render_web_form_view("posts", "Post", None);
    assert!(form.contains("  <p>\n    <label>name<br>\n      <input name=\"name\" value=\"{{ item.name if item else '' }}\">\n    </label>\n  </p>\n  <button type=\"submit\">Save</button>\n"));
    let t = sova_web::render_resource_test("post", "posts", true);
    assert!(t.starts_with("//! Smoke scaffold for `post` api.\n"));
    assert!(t.contains("async fn post_api_smoke() {"));
    assert!(t.contains("c.get(\"/posts\").await;"));
    assert!(sova_web::render_resource_test("post", "posts", false).contains("post_resource_smoke"));
    assert!(sova_web::render_layout_stub().contains("<body>\n  {% block content %}{% endblock %}\n</body>"));
}

#[test]
fn mailer_type_names() {
    assert_eq!(sova_gen::mailer_type_name("welcome"), "WelcomeMail");
    assert_eq!(sova_gen::mailer_type_name("order_mail"), "OrderMail");
    assert_eq!(sova_gen::mailer_type_name(""), "Mail");
}

#[test]
fn project_templates_are_built_in() {
    let web = template_files(NewTemplate::Web);
    assert_eq!(web.len(), 1);
    assert_eq!(web[0].0, "src/main.rs");
    let main = render_template_file(web[0].1, "shop");
    assert!(main.contains(".site(\"shop\")"));
    assert!(main.contains("Html(\"<h1>shop</h1>\".to_string())"));
    assert!(!main.contains("{{name}}"));
    let api = render_template_file(template_files(NewTemplate::Api)[0].1, "shop");
    assert!(api.contains("App::api().title(\"shop API\")"));
    let min = template_files(NewTemplate::Minimal)[0].1;
    assert!(min.contains("app.listen(3000).await"));
}

#[test]
fn crud_dto_default_column_forms_agree() {
    let none = sova_gen::render_crud_dto(None);
    let empty: Vec<FieldSpec> = Vec::new();
    let one = vec![FieldSpec { name: "name".to_string(), ty: FieldType::String, nullable: false, unique: false }];
    assert_eq!(none, sova_gen::render_crud_dto(Some(&empty[..])));
    assert_eq!(none, sova_gen::render_crud_dto(Some(&one[..])));
    assert_eq!(none.matches("        pub name: String => vld::string().min(1),\n").count(), 2);
}
