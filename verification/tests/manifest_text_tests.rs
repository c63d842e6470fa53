use ruvo::manifest::{dep_features_text, dep_insert_text, ensure_resource_stack, sova_features_text, StackPlan};
use ruvo::registry::{db_in_main, db_in_main_fits, mod_in_main};

const CARGO: &str = r#"[package]
name = "t"
version = "0.1.0"
edition = "2021"

[dependencies]
sova = { version = "0.1", features = ["web"] }
tokio = { version = "1", features = ["rt-multi-thread", "macros"] }
"#;

const MAIN: &str = r#"use sova::prelude::*;
use sova::{Html, Meta, Parser, ServerArgs};

mod modules;

#[tokio::main]
async fn main() -> Result<()> {
    let args = ServerArgs::parse();
    args.init_tracing();
    let mut app = App::web().site("t").public_url("http://127.0.0.1:3000");
    modules::register(&mut app);
    app.run().await
}
"#;

/// The plan's manifest and `main.rs` edits, on texts.
fn apply_to_texts(plan: &StackPlan, cargo: &str, main: &str) -> (String, String) {
    let mut cargo = sova_features_text(cargo, &plan.sova_features).unwrap();
    for (name, rhs) in &plan.deps {
        if let Some(next) = dep_insert_text(&cargo, name, rhs).unwrap() {
            cargo = next;
        }
    }
    if !plan.orm_features.is_empty() {
        for dep in ["sea-orm", "sea-orm-migration"] {
            if let Some(next) = dep_features_text(&cargo, dep, &plan.orm_features).unwrap() {
                cargo = next;
            }
        }
    }
    let mut main = main.to_string();
    if plan.db_in_main {
        assert!(db_in_main_fits(&main));
        main = db_in_main(&main).unwrap();
    }
    for m in &plan.mods_in_main {
        main = mod_in_main(&main, m);
    }
    (cargo, main)
}

fn features_of(doc: &toml::Value, dep: &str) -> Vec<String> {
    doc["dependencies"][dep]["features"]
        .as_array()
        .unwrap()
        .iter()
        .map(|v| v.as_str().unwrap().to_string())
        .collect()
}

#[test]
fn merges_sova_features_and_deps() {
    let (toml, main) = apply_to_texts(&ensure_resource_stack(false), CARGO, MAIN);
    assert!(toml.contains("db-sqlite"), "{toml}");
    assert!(toml.contains("vld-form"), "{toml}");
    assert!(toml.contains("csrf"), "{toml}");
    assert!(toml.contains("templates"), "{toml}");
    assert!(toml.contains("sea-orm"), "{toml}");
    assert!(toml.contains("serde_json"), "{toml}");
    assert!(main.contains("mod entities;"), "{main}");
    assert!(main.contains("mod migrations;"), "{main}");
    assert!(main.contains("Db::from_env().migrations::<migrations::Migrator>()"), "{main}");
}

#[test]
fn stack_edits_keep_the_rest_of_the_manifest() {
    let (toml, _) = apply_to_texts(&ensure_resource_stack(false), CARGO, MAIN);
    let doc: toml::Value = toml::from_str(&toml).unwrap();
    assert_eq!(doc["package"]["name"].as_str(), Some("t"));
    assert_eq!(doc["package"]["edition"].as_str(), Some("2021"));
    assert_eq!(features_of(&doc, "tokio"), vec!["rt-multi-thread", "macros"]);
    let sova = features_of(&doc, "sova");
    assert_eq!(sova[0], "web");
    for f in ["db-sqlite", "vld-form", "csrf", "templates"] {
        assert_eq!(sova.iter().filter(|x| x.as_str() == f).count(), 1, "{f} in {sova:?}");
    }
}

#[test]
fn features_are_added_once() {
    let once = sova_features_text(CARGO, &vec!["tasks", "tasks"]).unwrap();
    let twice = sova_features_text(&once, &vec!["tasks"]).unwrap();
    let doc: toml::Value = toml::from_str(&twice).unwrap();
    assert_eq!(features_of(&doc, "sova"), vec!["web", "tasks"]);
    assert_eq!(once, twice);
}

#[test]
fn dep_insertion_and_its_refusals() {
    let with_uuid = dep_insert_text(CARGO, "uuid", "{ version = \"1\", features = [\"v4\"] }").unwrap().unwrap();
    let doc: toml::Value = toml::from_str(&with_uuid).unwrap();
    assert_eq!(features_of(&doc, "uuid"), vec!["v4"]);
    assert_eq!(doc["dependencies"]["uuid"]["version"].as_str(), Some("1"));
    assert!(doc["dependencies"].get("tokio").is_some());
    assert!(doc["dependencies"].get("sova").is_some());
    let with_serde = dep_insert_text(CARGO, "serde_json", "\"1\"").unwrap().unwrap();
    assert!(with_serde.contains("serde_json = \"1\""));
    assert_eq!(dep_insert_text(&with_serde, "serde_json", "\"2\"").unwrap(), None);
    assert_eq!(
        dep_insert_text("[package]\nname = \"t\"\n", "uuid", "\"1\"").unwrap_err(),
        "Cargo.toml missing [dependencies]"
    );
    assert!(dep_insert_text(CARGO, "uuid", "{ broken").unwrap_err().starts_with("bad dep `uuid`: "));
    assert!(dep_insert_text("[dependencies\n", "uuid", "\"1\"").unwrap_err().starts_with("Cargo.toml: "));
}

#[test]
fn dep_features_merge_or_skip() {
    let cargo = "[dependencies]\nsea-orm = { version = \"1\", features = [\"macros\"] }\nserde = \"1\"\n";
    let merged = dep_features_text(cargo, "sea-orm", &vec!["with-uuid", "macros"]).unwrap().unwrap();
    let doc: toml::Value = toml::from_str(&merged).unwrap();
    assert_eq!(features_of(&doc, "sea-orm"), vec!["macros", "with-uuid"]);
    assert_eq!(dep_features_text(cargo, "serde", &vec!["x"]).unwrap(), None);
    assert_eq!(dep_features_text(cargo, "absent", &vec!["x"]).unwrap(), None);
    assert_eq!(
        dep_features_text("[dependencies]\nsea-orm = { features = \"x\" }\n", "sea-orm", &vec!["y"]).unwrap_err(),
        "sea-orm.features must be an array"
    );
}

#[test]
fn floats_and_dates_survive_an_edit() {
    let cargo = "[dependencies]\nsova = { version = \"0.1\" }\n\n[package.metadata]\nratio = 1.5\nbig = 1e300\nwhen = 1979-05-27T07:32:00Z\nday = 1979-05-27\nat = 07:32:00.5\n";
    let out = sova_features_text(cargo, &vec!["web"]).unwrap();
    let before: toml::Value = toml::from_str(cargo).unwrap();
    let after: toml::Value = toml::from_str(&out).unwrap();
    assert_eq!(before["package"], after["package"]);
    assert_eq!(features_of(&after, "sova"), vec!["web"]);
}
