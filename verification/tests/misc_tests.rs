use ruvo::bind::{apply_http_mode, Http};
use ruvo::dev::{app_cli_args, instance_id_for, new_instance_id, parse_ready_response, ready_matches, DbCommand, DevArgs};
use ruvo::fields::{FieldSpec, FieldType};
use ruvo::fixtures::{body_for, Fixture};
use ruvo::manifest::{ensure_mail_stack, ensure_resource_stack, ensure_resource_stack_with_fields, ensure_tasks_stack, fields_need_chrono, fields_need_uuid};
use ruvo::middleware::abbreviate_type_name;
use ruvo::request::{is_secure_scheme, media_type, percent_decode, request_url, resolve_scheme_host, split_path_query};
use ruvo::response::{attachment_value, sse_event};
use ruvo::{static_file, upload};

#[test]
fn http_modes() {
    assert_eq!(Http::h1(), Http::H1);
    assert_eq!(Http::h1_h2(), Http::H1H2);
    assert_eq!(Http::all(), Http::All);
    assert_eq!(apply_http_mode(Http::All, Some(8443), None).as_deref(), Some("h3=\":8443\"; ma=86400"));
    assert_eq!(apply_http_mode(Http::All, None, Some("x".to_string())).as_deref(), Some("x"));
    assert_eq!(apply_http_mode(Http::H1H2, Some(80), Some("x".to_string())), None);
}

#[test]
fn stand_routes() {
    assert_eq!(body_for("/"), Some(("text/html; charset=utf-8", Fixture::Home)));
    assert_eq!(body_for("/api/health"), Some(("application/json", Fixture::HealthJson)));
    assert_eq!(body_for("/blog/hello"), Some(("text/html; charset=utf-8", Fixture::PostHello)));
    assert_eq!(body_for("/nope"), None);
}

#[test]
fn safe_relative_paths() {
    assert!(upload::is_safe_relative("a/b.txt"));
    assert!(upload::is_safe_relative("a/./b"));
    assert!(!upload::is_safe_relative(""));
    assert!(!upload::is_safe_relative("./a"));
    assert!(!upload::is_safe_relative("../a"));
    assert!(!upload::is_safe_relative("/etc/passwd"));
    assert!(static_file::is_safe_relative("./a/b"));
    assert!(static_file::is_safe_relative(""));
    assert!(!static_file::is_safe_relative("a/../b"));
    assert!(!static_file::is_safe_relative("/a"));
}

#[test]
fn dev_decisions() {
    let mut a = DevArgs { package: None, manifest_path: None, no_frontend: false, graceful: false, no_graceful: false, drain_timeout: 20 };
    assert!(a.graceful_enabled(true));
    assert!(!a.graceful_enabled(false));
    a.graceful = true;
    assert!(a.graceful_enabled(false));
    a.no_graceful = true;
    assert!(!a.graceful_enabled(true));
    assert_eq!(instance_id_for(1234), "dev-1234");
    assert!(new_instance_id().starts_with("dev-"));
}

#[test]
fn ready_probe() {
    let text = "HTTP/1.1 200 OK\r\nContent-Length: 2\r\nX-Sova-Instance:  Dev-42 \r\n\r\nok";
    let (code, inst) = parse_ready_response(text).unwrap();
    assert_eq!(code, 200);
    assert_eq!(inst.as_deref(), Some("dev-42"));
    assert!(ready_matches(code, inst.as_deref(), "dev-42"));
    assert!(!ready_matches(503, Some("dev-42"), "dev-42"));
    assert!(!ready_matches(200, None, "dev-42"));
    assert_eq!(parse_ready_response(""), None);
    assert_eq!(parse_ready_response("HTTP/1.1\r\n"), None);
    assert_eq!(parse_ready_response("HTTP/1.1 99999 X\r\n"), None);
    assert_eq!(parse_ready_response("HTTP/1.1 404 Not Found\n"), Some((404, None)));
}

#[test]
fn db_cli() {
    let m = DbCommand::Migrate { package: None, manifest_path: None, args: vec!["up".to_string(), "2".to_string()] };
    assert_eq!(app_cli_args(&m), vec!["migrate", "up", "2"]);
    let d = DbCommand::Down { package: None, manifest_path: None, steps: Some(3) };
    assert_eq!(app_cli_args(&d), vec!["migrate", "down", "3"]);
    let d1 = DbCommand::Down { package: None, manifest_path: None, steps: None };
    assert_eq!(app_cli_args(&d1), vec!["migrate", "down"]);
    assert_eq!(app_cli_args(&DbCommand::Status { package: None, manifest_path: None }), vec!["migrate", "status"]);
    assert_eq!(app_cli_args(&DbCommand::Seed { package: None, manifest_path: None }), vec!["seed"]);
}

#[test]
fn stacks() {
    let web = ensure_resource_stack(false);
    assert_eq!(web.sova_features, vec!["db-sqlite", "vld", "env", "vld-form", "vld-flash", "csrf", "templates"]);
    assert_eq!(web.deps.len(), 5);
    assert!(web.orm_features.is_empty());
    assert!(web.db_in_main && web.warn_if_not_web);
    let cols = [
        FieldSpec { name: "id".into(), ty: FieldType::Uuid, nullable: false, unique: true },
        FieldSpec { name: "at".into(), ty: FieldType::DateTime, nullable: false, unique: false },
    ];
    assert!(fields_need_uuid(Some(&cols)) && fields_need_chrono(Some(&cols)));
    assert!(!fields_need_uuid(None));
    let api = ensure_resource_stack_with_fields(true, Some(&cols));
    assert_eq!(api.sova_features, vec!["db-sqlite", "vld", "env", "openapi", "vld-openapi"]);
    assert_eq!(api.orm_features, vec!["with-uuid", "with-chrono"]);
    assert_eq!(api.deps[5].0, "uuid");
    assert_eq!(api.deps[6].0, "chrono");
    assert!(!api.warn_if_not_web);
    let mail = ensure_mail_stack();
    assert_eq!(mail.sova_features, vec!["mail-templates", "templates"]);
    assert_eq!(mail.mods_in_main, vec!["mailers"]);
    assert_eq!(ensure_tasks_stack().mods_in_main, vec!["jobs"]);
}

#[test]
fn request_text() {
    assert_eq!(percent_decode("a%20b%2Fc"), "a b/c");
    assert_eq!(percent_decode("100%"), "100%");
    assert_eq!(percent_decode("%ff"), "\u{fffd}");
    assert_eq!(percent_decode("plain"), "plain");
    assert_eq!(media_type("text/html; charset=utf-8"), "text/html");
    assert_eq!(media_type(" application/json "), "application/json");
    assert!(is_secure_scheme("HTTPS"));
    assert!(!is_secure_scheme("http"));
    assert_eq!(request_url("http", "h", "/p"), "http://h/p");
    let (path, _query) = split_path_query("/a?x=1");
    assert_eq!(request_url("http", "localhost", &path), "http://localhost/a");
    assert_eq!(split_path_query("/q?q=1?2"), ("/q".to_string(), Some("q=1?2".to_string())));
    assert_eq!(split_path_query("/q"), ("/q".to_string(), None));
}

#[test]
fn proxy_scheme_host() {
    assert_eq!(resolve_scheme_host(None, Some("https"), None, None, false), ("http".to_string(), "localhost".to_string()));
    assert_eq!(
        resolve_scheme_host(Some("in:80"), Some(" https , http"), Some("ex.com"), Some("http"), true),
        ("https".to_string(), "ex.com".to_string())
    );
    assert_eq!(
        resolve_scheme_host(Some("in:80"), Some(" , http"), None, Some("http"), true),
        ("http".to_string(), "in:80".to_string())
    );
}

#[test]
fn response_text() {
    assert_eq!(sse_event("one"), "data: one\n\n");
    assert_eq!(sse_event("two\nlines"), "data: two\ndata: lines\n\n");
    assert_eq!(attachment_value("a\"b\\c.txt"), "attachment; filename=\"a_b_c.txt\"");
}

#[test]
fn middleware_labels() {
    assert_eq!(abbreviate_type_name("app::auth::require_login"), "require_login");
    assert_eq!(abbreviate_type_name("{{closure}}"), "closure");
    assert_eq!(abbreviate_type_name("a::b<c>::{{closure}}"), "b<c");
    assert_eq!(abbreviate_type_name("plain"), "plain");
}

#[test]
fn sse_streams_events() {
    let text = format!("{}{}", sse_event("one"), sse_event("two\nlines"));
    assert!(text.contains("data: one\n\n"));
    assert!(text.contains("data: two\n"));
    assert!(text.contains("data: lines\n"));
}

#[test]
fn http_all_adds_alt_svc_header() {
    let port: u16 = 41234;
    let header = apply_http_mode(Http::all(), Some(port), None).unwrap();
    let expected = format!("h3=\":{}\"; ma=86400", port);
    assert_eq!(header, expected, "response must contain Alt-Svc");
}

#[test]
fn port_from_env() {
    assert_eq!(ruvo::dev::port_or_default(Some("9876"), 3000), 9876);
}

#[test]
fn query_plus_is_space() {
    let (_, q) = split_path_query("/q?q=hello+world");
    let params = ruvo::request::parse_query(&q.unwrap());
    assert_eq!(params, vec![("q".to_string(), "hello world".to_string())]);
}

#[test]
fn query_pairs_last_wins() {
    let params = ruvo::request::parse_query("a=1&&b=x%20y&a=2&c&d=e=f");
    assert_eq!(
        params,
        vec![
            ("a".to_string(), "2".to_string()),
            ("b".to_string(), "x y".to_string()),
            ("c".to_string(), String::new()),
            ("d".to_string(), "e=f".to_string()),
        ]
    );
    assert!(ruvo::request::parse_query("").is_empty());
}

#[test]
fn cookie_jar_round_trip() {
    let pair = ruvo::request::set_cookie_pair("sid=abc123; Path=/; HttpOnly").unwrap();
    assert_eq!(pair, ("sid".to_string(), "abc123".to_string()));
    let header = ruvo::request::cookie_header(&vec![pair]).unwrap();
    assert_eq!(header, "sid=abc123");
}

#[test]
fn cookie_edge_cases() {
    assert_eq!(ruvo::request::set_cookie_pair("flag; Secure"), None);
    assert_eq!(
        ruvo::request::set_cookie_pair(" a = b=c ;x"),
        Some(("a".to_string(), "b=c".to_string()))
    );
    assert_eq!(ruvo::request::cookie_header(&vec![]), None);
    assert_eq!(
        ruvo::request::cookie_header(&vec![("a".to_string(), "1".to_string()), ("b".to_string(), "2".to_string())]).unwrap(),
        "a=1; b=2"
    );
}

#[test]
fn needs_reports_the_missing_state() {
    let needs = ruvo::route_value::Needs::<u32>::new();
    assert_eq!(needs.check(true, "/users", "u32"), Ok(()));
    assert_eq!(
        needs.check(false, "/users", "u32"),
        Err("route /users needs state `u32` (missing in App::state)".to_string())
    );
    assert_eq!(needs.label("u32"), "Needs<u32>");
}
