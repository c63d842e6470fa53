use ruvo::cli::{cli_action, normalize_cargo_args, CliAction};
use ruvo::config::ConfigValue;
use ruvo::fields::{migration_module, migration_table, model_migration_module};
use ruvo::manifest::{dep_features_slot, dep_fragment, dep_listed, dependencies_table, fragment_value, missing_features, sova_features_slot, DepFeaturesSlot};
use ruvo::sova_plugin::{plugin_display_name, render_plugin_lib, render_plugin_manifest, render_plugin_readme};

fn args(v: &[&str]) -> Vec<String> {
    v.iter().map(|s| s.to_string()).collect()
}

#[test]
fn cargo_subcommand_args() {
    assert_eq!(normalize_cargo_args(args(&["cargo-ruvo", "ruvo", "new", "x"]), "ruvo"), args(&["cargo-ruvo", "new", "x"]));
    assert_eq!(normalize_cargo_args(args(&["cargo-ruvo", "new", "x"]), "ruvo"), args(&["cargo-ruvo", "new", "x"]));
    assert_eq!(normalize_cargo_args(args(&["cargo-sova", "sova"]), "sova"), args(&["cargo-sova"]));
}

#[test]
fn app_cli_actions() {
    assert!(matches!(cli_action(&args(&[]), false), CliAction::NotACommand));
    assert!(matches!(cli_action(&args(&["check"]), true), CliAction::Custom));
    assert!(matches!(cli_action(&args(&["check"]), false), CliAction::Check));
    assert!(matches!(cli_action(&args(&["routes"]), false), CliAction::Routes));
    assert!(matches!(cli_action(&args(&["plugins"]), false), CliAction::Plugins));
    match cli_action(&args(&["openapi", "--out", "doc.json"]), false) {
        CliAction::OpenApi(p) => assert_eq!(p, "doc.json"),
        _ => panic!("expected openapi"),
    }
    assert!(matches!(cli_action(&args(&["openapi", "--out"]), false), CliAction::OpenApiMissingOut));
    assert!(matches!(cli_action(&args(&["openapi"]), false), CliAction::OpenApiMissingOut));
    assert!(matches!(cli_action(&args(&["tasks"]), false), CliAction::Tasks));
    assert!(matches!(cli_action(&args(&["i18n", "missing"]), false), CliAction::I18nMissing));
    assert!(matches!(cli_action(&args(&["i18n"]), false), CliAction::Unknown));
    assert!(matches!(cli_action(&args(&["serve"]), false), CliAction::Unknown));
}

#[test]
fn migration_names() {
    assert_eq!(model_migration_module("20240101_000000", "post"), "m20240101_000000_create_post");
    assert_eq!(migration_module("20240101_000000", "add_x"), "m20240101_000000_add_x");
    assert_eq!(migration_table("create_posts"), "posts");
    assert_eq!(migration_table("add_index"), "add_index");
}

#[test]
fn sova_plugin_sources() {
    assert_eq!(plugin_display_name("RateLimit"), "Rate Limit");
    assert_eq!(plugin_display_name("Auth"), "Auth");
    assert_eq!(plugin_display_name("ÉtéX"), "Été X");
    let m = render_plugin_manifest("rate_limit", "Rate Limit");
    assert!(m.starts_with("[package]\nname = \"sova-rate_limit\"\n"));
    assert!(m.contains("description = \"Rate Limit plugin for Sova\"\n"));
    assert!(m.contains("keywords = [\"sova\", \"plugin\", \"rate_limit\"]\n"));
    let l = render_plugin_lib("rate_limit", "RateLimit", "Rate Limit");
    assert!(l.starts_with("//! Rate Limit — Sova plugin.\n"));
    assert!(l.contains("pub struct RateLimit {\n"));
    assert!(l.contains("res = res.header(\"x-sova-rate_limit\", &plugin.header_value);"));
    assert!(l.ends_with("pub struct RateLimitConfig {\n    pub header_value: String,\n}\n"));
    let r = render_plugin_readme("rate_limit", "RateLimit", "Rate Limit");
    assert!(r.starts_with("# sova-rate_limit\n\nRate Limit plugin for [Sova](../../README.md).\n"));
    assert!(r.contains("use sova_rate_limit::RateLimit;\n"));
}

fn t(entries: Vec<(&str, ConfigValue)>) -> ConfigValue {
    ConfigValue::Table(entries.into_iter().map(|(k, v)| (k.to_string(), v)).collect())
}

fn st(s: &str) -> ConfigValue {
    ConfigValue::Str(s.to_string())
}

#[test]
fn manifest_feature_edits() {
    let doc = t(vec![("dependencies", t(vec![("sova", t(vec![("version", st("0.1")), ("features", ConfigValue::Array(vec![st("web")]))]))]))]);
    let slot = sova_features_slot(&doc).unwrap();
    let need = vec!["web", "db-sqlite", "vld", "db-sqlite"];
    assert_eq!(missing_features(slot, &need), vec!["db-sqlite", "vld"]);
    let no_features = t(vec![("dependencies", t(vec![("sova", t(vec![]))]))]);
    assert!(sova_features_slot(&no_features).unwrap().is_none());
    assert_eq!(missing_features(None, &vec!["a"]), vec!["a"]);
    assert_eq!(sova_features_slot(&t(vec![])).unwrap_err(), "Cargo.toml missing [dependencies]");
    assert_eq!(sova_features_slot(&t(vec![("dependencies", t(vec![]))])).unwrap_err(), "Cargo.toml missing sova dependency");
    assert_eq!(
        sova_features_slot(&t(vec![("dependencies", t(vec![("sova", st("0.1"))]))])).unwrap_err(),
        "sova dependency must be a table"
    );
    assert_eq!(
        sova_features_slot(&t(vec![("dependencies", t(vec![("sova", t(vec![("features", st("x"))]))]))])).unwrap_err(),
        "sova.features must be an array"
    );
}

#[test]
fn manifest_dep_edits() {
    assert!(dep_listed("[dependencies]\nserde = \"1\"\n", "serde"));
    assert!(dep_listed("serde={ version = \"1\" }", "serde"));
    assert!(!dep_listed("serde_json = \"1\"", "serde"));
    assert_eq!(dep_fragment("uuid", "\"1\""), "uuid = \"1\"");
    let parsed = t(vec![("uuid", st("1"))]);
    assert!(matches!(fragment_value(&parsed, "uuid"), Ok(ConfigValue::Str(v)) if v == "1"));
    assert_eq!(fragment_value(&parsed, "x").unwrap_err(), "internal: missing key");
    assert_eq!(fragment_value(&st("1"), "x").unwrap_err(), "internal: expected table");
    let doc = t(vec![("dependencies", t(vec![("sea-orm", t(vec![("features", ConfigValue::Array(vec![]))])), ("serde", st("1"))]))]);
    assert_eq!(dependencies_table(&doc).unwrap().len(), 2);
    assert!(matches!(dep_features_slot(&doc, "sea-orm"), Ok(DepFeaturesSlot::Features(Some(a))) if a.is_empty()));
    assert!(matches!(dep_features_slot(&doc, "serde"), Ok(DepFeaturesSlot::Skip)));
    assert!(matches!(dep_features_slot(&doc, "absent"), Ok(DepFeaturesSlot::Skip)));
    let bad = t(vec![("dependencies", t(vec![("sea-orm", t(vec![("features", st("x"))]))]))]);
    assert_eq!(dep_features_slot(&bad, "sea-orm").err().unwrap(), "sea-orm.features must be an array");
}
