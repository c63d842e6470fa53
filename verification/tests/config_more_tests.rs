use ruvo::human::DurationUnit;
use ruvo::config::{
    configure_from_str,
    active_profile, env_settings, merge_server, parse_timeout_env, profile_aliases_for_merge,
    resolve_server, server_settings, table_to_server, unset_profile, ConfigDoc, ConfigValue,
    EnvOverrides, ServerProfile,
};

fn s(v: &str) -> ConfigValue {
    ConfigValue::Str(v.to_string())
}

fn table(entries: Vec<(&str, ConfigValue)>) -> ConfigValue {
    ConfigValue::Table(entries.into_iter().map(|(k, v)| (k.to_string(), v)).collect())
}

fn entries(v: ConfigValue) -> Vec<(String, ConfigValue)> {
    match v {
        ConfigValue::Table(t) => t,
        _ => panic!("table expected"),
    }
}

#[test]
fn profile_selection() {
    assert_eq!(active_profile(Some(" release "), Some("test"), true), "production");
    assert_eq!(active_profile(None, Some("test"), true), "test");
    assert_eq!(active_profile(None, None, true), "development");
    assert_eq!(active_profile(None, None, false), "production");
    assert_eq!(profile_aliases_for_merge("development"), vec!["debug"]);
    assert_eq!(profile_aliases_for_merge("production"), vec!["release"]);
    assert!(profile_aliases_for_merge("test").is_empty());
}

#[test]
fn merge_layers() {
    let mut base = unset_profile();
    base.max_connections = Some(100);
    base.max_body = Some("2 MiB".to_string());
    let mut over = unset_profile();
    over.max_connections = Some(10);
    let m = merge_server(base, over);
    assert_eq!(m.max_connections, Some(10));
    assert_eq!(m.max_body.as_deref(), Some("2 MiB"));
    let id = merge_server(unset_profile(), m);
    assert_eq!(id.max_connections, Some(10));
}

#[test]
fn typed_server_keys() {
    let t = entries(table(vec![("max_connections", ConfigValue::Int(5)), ("keep_alive", ConfigValue::Bool(true)), ("other", s("x"))]));
    let p = table_to_server(&t);
    assert_eq!(p.max_connections, Some(5));
    assert_eq!(p.keep_alive, Some(true));
    let bad = entries(table(vec![("max_connections", s("5")), ("keep_alive", ConfigValue::Bool(true))]));
    let q = table_to_server(&bad);
    assert_eq!(q.max_connections, None);
    assert_eq!(q.keep_alive, None);
    let neg = entries(table(vec![("max_headers", ConfigValue::Int(-1))]));
    assert_eq!(table_to_server(&neg).max_headers, None);
}

#[test]
fn canon_server_and_overlay_from_values() {
    let root = table(vec![
        ("server", table(vec![("max_body", s("2 MiB")), ("request_timeout", s("30s")), ("max_connections", ConfigValue::Int(100))])),
        ("development", table(vec![("server", table(vec![("max_connections", ConfigValue::Int(10))]))])),
    ]);
    let p: ServerProfile = resolve_server(&root, "development");
    assert_eq!(p.max_connections, Some(10));
    let st = server_settings(&p).unwrap();
    assert_eq!(st.max_body_size.as_deref(), Some("2 MiB"));
    assert_eq!(
        st.request_timeout.map(|t| t.map(|s| duration_of(&s))),
        Some(Some(std::time::Duration::from_secs(30)))
    );
}

#[test]
fn legacy_layers_from_values() {
    let root = table(vec![
        ("default", table(vec![("max_body", s("2 MiB")), ("max_connections", ConfigValue::Int(100))])),
        ("debug", table(vec![("max_connections", ConfigValue::Int(10))])),
    ]);
    let p = resolve_server(&root, "development");
    assert_eq!(p.max_connections, Some(10));
    assert_eq!(p.max_body.as_deref(), Some("2 MiB"));
    assert_eq!(resolve_server(&root, "test").max_connections, Some(100));
}

#[test]
fn sections_from_values() {
    let doc = ConfigDoc {
        root: table(vec![
            ("mail", table(vec![("from", s("base@example.com")), ("host", s("smtp"))])),
            ("production", table(vec![("mail", table(vec![("from", s("prod@example.com"))]))])),
        ]),
        profile: "production".to_string(),
    };
    let mail = doc.section("mail").unwrap();
    let from = mail.iter().find(|(k, _)| *k == "from").map(|(_, v)| *v);
    assert!(matches!(from, Some(ConfigValue::Str(x)) if x == "prod@example.com"));
    assert_eq!(mail.len(), 2);
    assert!(doc.section("storage").is_none());
}

#[test]
fn http_clients_from_values() {
    let doc = ConfigDoc {
        root: table(vec![
            ("http", table(vec![("payments", table(vec![("base_url", s("https://api.stripe.com")), ("timeout", s("10s"))]))])),
            ("development", table(vec![("http", table(vec![("payments", table(vec![("timeout", s("5s"))]))]))])),
        ]),
        profile: "development".to_string(),
    };
    let clients = doc.http_clients();
    assert_eq!(clients.len(), 1);
    assert_eq!(clients[0].0, "payments");
    let get = |k: &str| clients[0].1.iter().find(|(n, _)| *n == k).map(|(_, v)| *v);
    assert!(matches!(get("base_url"), Some(ConfigValue::Str(x)) if x == "https://api.stripe.com"));
    assert!(matches!(get("timeout"), Some(ConfigValue::Str(x)) if x == "5s"));
    assert!(doc.section("http").is_some());
}

#[test]
fn timeouts_and_errors() {
    assert_eq!(parse_timeout_env("OFF").unwrap(), None);
    assert_eq!(parse_timeout_env("none").unwrap(), None);
    assert_eq!(parse_timeout_env("5s").unwrap(), Some(("5", ruvo::human::DurationUnit::Seconds)));
    assert_eq!(parse_timeout_env("5 weeks").unwrap_err(), "unknown duration unit: weeks");
    let mut p = unset_profile();
    p.max_buf_size = Some("lots".to_string());
    p.idle_timeout = Some("1x".to_string());
    assert_eq!(server_settings(&p).err().unwrap(), "missing number in `lots`");
}

#[test]
fn env_overrides() {
    let mut v = EnvOverrides {
        max_body: Some("1k".to_string()),
        max_connections: Some("7".to_string()),
        max_upgraded_connections: None,
        max_concurrent_streams: None,
        max_headers: None,
        max_buf_size: None,
        request_timeout: Some("off".to_string()),
        header_read_timeout: None,
        idle_timeout: Some("2m".to_string()),
        drain_timeout: None,
        keep_alive: Some("yes".to_string()),
        trust_proxy: Some("True".to_string()),
    };
    let st = env_settings(&v).unwrap();
    assert_eq!(st.max_body_size.as_deref(), Some("1k"));
    assert_eq!(st.max_connections, Some(7));
    assert_eq!(st.request_timeout, Some(None));
    assert_eq!(st.idle_timeout.as_deref(), Some("2m"));
    assert_eq!(st.keep_alive, Some(true));
    assert_eq!(st.trust_proxy, Some(false));
    v.max_headers = Some("many".to_string());
    assert_eq!(env_settings(&v).err().unwrap(), "RUVO_MAX_HEADERS: many");
}

fn no_env() -> EnvOverrides {
    EnvOverrides {
        max_body: None,
        max_connections: None,
        max_upgraded_connections: None,
        max_concurrent_streams: None,
        max_headers: None,
        max_buf_size: None,
        request_timeout: None,
        header_read_timeout: None,
        idle_timeout: None,
        drain_timeout: None,
        keep_alive: None,
        trust_proxy: None,
    }
}

// The floating-point step that follows the library's checked split, as the
// application performs it.
fn bytes_of(text: &str) -> usize {
    let (n, m) = ruvo::human::size_parts(text).unwrap();
    (n.parse::<f64>().unwrap() * m as f64) as usize
}

fn duration_of(text: &str) -> std::time::Duration {
    let (n, u) = ruvo::human::duration_parts(text).unwrap();
    let n: f64 = n.parse().unwrap();
    let secs = match u {
        DurationUnit::Seconds => n,
        DurationUnit::Millis => n / 1000.0,
        DurationUnit::Minutes => n * 60.0,
        DurationUnit::Hours => n * 3600.0,
    };
    std::time::Duration::from_secs_f64(secs)
}

#[test]
fn parses_canon_server_and_development_overlay() {
    let (doc, st) = configure_from_str(
        r#"
[server]
max_body = "2 MiB"
request_timeout = "30s"
max_connections = 100

[development.server]
max_connections = 10
"#,
        &active_profile(Some("development"), None, false),
        &no_env(),
    )
    .unwrap();
    assert_eq!(st.max_connections, Some(10));
    assert_eq!(bytes_of(st.max_body_size.as_deref().unwrap()), 2 * 1024 * 1024);
    assert_eq!(
        st.request_timeout.map(|t| t.map(|s| duration_of(&s))),
        Some(Some(std::time::Duration::from_secs(30)))
    );
    assert_eq!(doc.profile, "development");
}

#[test]
fn legacy_default_debug_still_works() {
    let (_, st) = configure_from_str(
        r#"
[default]
max_body = "2 MiB"
request_timeout = "30s"
max_connections = 100

[debug]
max_connections = 10
"#,
        &active_profile(Some("development"), None, false),
        &no_env(),
    )
    .unwrap();
    assert_eq!(st.max_connections, Some(10));
    assert_eq!(bytes_of(st.max_body_size.as_deref().unwrap()), 2 * 1024 * 1024);
}

#[test]
fn section_merges_top_level_and_profile() {
    let (doc, _) = configure_from_str(
        r#"
[mail]
from = "base@example.com"

[production.mail]
from = "prod@example.com"
"#,
        &active_profile(Some("production"), None, true),
        &no_env(),
    )
    .unwrap();
    assert_eq!(doc.profile, "production");
    let mail = doc.section("mail").unwrap();
    let from = mail.iter().find(|(k, _)| *k == "from").map(|(_, v)| *v);
    assert!(matches!(from, Some(ConfigValue::Str(x)) if x == "prod@example.com"));
}

#[test]
fn stores_http_named_clients_in_config_doc() {
    let (doc, _) = configure_from_str(
        r#"
[server]
request_timeout = "30s"

[http.payments]
base_url = "https://api.stripe.com"
timeout = "10s"

[development.http.payments]
timeout = "5s"
"#,
        &active_profile(Some("development"), None, false),
        &no_env(),
    )
    .unwrap();
    let clients = doc.http_clients();
    let p = &clients.iter().find(|(n, _)| *n == "payments").unwrap().1;
    let get = |k: &str| p.iter().find(|(n, _)| *n == k).map(|(_, v)| *v);
    assert!(matches!(get("base_url"), Some(ConfigValue::Str(x)) if x == "https://api.stripe.com"));
    assert!(matches!(get("timeout"), Some(ConfigValue::Str(x)) if x == "5s"));
}

#[test]
fn configure_errors_and_overrides() {
    assert!(configure_from_str("= broken", "development", &no_env()).unwrap_err().starts_with("ruvo.toml: "));
    assert_eq!(
        configure_from_str("[server]\nmax_body = \"lots\"\n", "development", &no_env()).unwrap_err(),
        "missing number in `lots`"
    );
    let mut env = no_env();
    env.max_connections = Some("7".to_string());
    let (_, st) = configure_from_str("[server]\nmax_connections = 100\nkeep_alive = true\n", "test", &env).unwrap();
    assert_eq!(st.max_connections, Some(7));
    assert_eq!(st.keep_alive, Some(true));
    env.max_headers = Some("x".to_string());
    assert_eq!(configure_from_str("", "test", &env).unwrap_err(), "RUVO_MAX_HEADERS: x");
}
