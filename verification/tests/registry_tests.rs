use ruvo::registry::{
    db_in_main, migration_registry_source, mod_in_main, module_registry_source, pub_mod_source,
    refuse_workspace_root, seed_in_main, SeedWiring,
};

#[test]
fn pub_mod_lists() {
    assert_eq!(pub_mod_source(None, "src/entities/mod.rs", "post").unwrap(), "pub mod post;\n");
    assert_eq!(pub_mod_source(Some("pub mod a;"), "p", "b").unwrap(), "pub mod a;\npub mod b;\n");
    assert_eq!(pub_mod_source(Some(""), "p", "b").unwrap(), "pub mod b;\n");
    let once = pub_mod_source(Some("// list\n"), "src/entities/mod.rs", "post").unwrap();
    assert_eq!(once, "// list\npub mod post;\n");
    assert_eq!(
        pub_mod_source(Some(&once), "src/entities/mod.rs", "post").unwrap_err(),
        "`post` already in src/entities/mod.rs"
    );
}

#[test]
fn migration_registry() {
    let fresh = migration_registry_source(None, "m1").unwrap();
    assert_eq!(
        fresh,
        "pub use sea_orm_migration::prelude::*;\n\nmod m1;\n\npub struct Migrator;\n\n#[async_trait::async_trait]\nimpl MigratorTrait for Migrator {\n    fn migrations() -> Vec<Box<dyn MigrationTrait>> {\n        vec![\n            Box::new(m1::Migration),\n        ]\n    }\n}\n"
    );
    let next = migration_registry_source(Some(&fresh), "m2").unwrap();
    assert!(next.starts_with("pub use sea_orm_migration::prelude::*;\n\nmod m2;\n\nmod m1;\n"));
    assert!(next.contains("vec![\n            Box::new(m2::Migration),\n            Box::new(m1::Migration),\n"));
    assert_eq!(migration_registry_source(Some(&next), "m1").unwrap_err(), "migration `m1` already registered");
    let bare = migration_registry_source(Some("// nothing\n"), "m3").unwrap();
    assert!(bare.starts_with("mod m3;\n// nothing\n\npub use sea_orm_migration::prelude::*;\n"));
}

#[test]
fn module_registry() {
    let first = module_registry_source(None, "blog", "sova").unwrap();
    assert_eq!(first, "pub mod blog;\nuse sova::App;\n\npub fn register(app: &mut App) {\n    blog::register(app);\n}\n");
    let second = module_registry_source(Some(&first), "shop", "sova").unwrap();
    assert_eq!(
        second,
        "pub mod shop;\npub mod blog;\nuse sova::App;\n\npub fn register(app: &mut App) {\n    shop::register(app);\n    blog::register(app);\n}\n"
    );
    assert_eq!(
        module_registry_source(Some(&second), "blog", "sova").unwrap_err(),
        "module `blog` is already registered in src/modules/mod.rs"
    );
    let other = module_registry_source(Some("// empty\n"), "x", "ruvo").unwrap();
    assert_eq!(other, "pub mod x;\n// empty\n\nuse ruvo::App;\n\npub fn register(app: &mut App) {\n    x::register(app);\n}\n");
}

#[test]
fn main_rs_mods() {
    let src = "use sova::prelude::*;\n\nmod modules;\n\n#[tokio::main]\nasync fn main() {}\n";
    let once = mod_in_main(src, "jobs");
    assert_eq!(once, "use sova::prelude::*;\n\nmod jobs;\nmod modules;\n\n#[tokio::main]\nasync fn main() {}\n");
    assert_eq!(mod_in_main(&once, "jobs"), once);
    assert_eq!(mod_in_main("#[tokio::main]\nfn main() {}\n", "seeds"), "mod seeds;\n\n#[tokio::main]\nfn main() {}\n");
    assert_eq!(mod_in_main("fn main() {}\n", "seeds"), "mod seeds;\nfn main() {}\n");
}

#[test]
fn main_rs_db() {
    let src = "use sova::prelude::*;\nuse sova::{Html, Meta};\n\nmod modules;\n\n#[tokio::main]\nasync fn main() -> Result<()> {\n    let mut app = App::web();\n    modules::register(&mut app);\n    app.run().await\n}\n";
    let out = db_in_main(src).unwrap();
    assert!(out.contains("mod entities;\nmod migrations;\nmod modules;\n"));
    assert!(out.contains("use sova::{Html, Meta, Db};"));
    assert!(out.contains("app.install(Db::from_env().migrations::<migrations::Migrator>());\n    modules::register(&mut app);"));
    assert_eq!(db_in_main(&out).unwrap(), out);
    assert_eq!(
        db_in_main("fn main() {}\n").unwrap_err(),
        "could not find insertion point for mod entities in src/main.rs"
    );
    assert_eq!(
        db_in_main("mod modules;\nfn main() {}\n").unwrap_err(),
        "could not find place to install Db in src/main.rs"
    );
    let prelude_only = db_in_main("use sova::prelude::*;\nmod modules;\nfn main() { app.run() }\n").unwrap();
    assert!(prelude_only.starts_with("use sova::prelude::*;\nuse sova::Db;\nmod entities;\n"));
}

#[test]
fn main_rs_seed() {
    let wired = "x.seed(crate::seeds::run)";
    assert!(matches!(seed_in_main(wired), SeedWiring::AlreadyWired));
    match seed_in_main("app.install(Db::from_env().migrations::<migrations::Migrator>());") {
        SeedWiring::Wired(s) => assert_eq!(
            s,
            "app.install(Db::from_env().migrations::<migrations::Migrator>().seed(crate::seeds::run));"
        ),
        _ => panic!("expected wiring"),
    }
    assert!(matches!(seed_in_main("fn main() {}"), SeedWiring::MissingDbChain));
}

#[test]
fn workspace_root_refusal() {
    assert!(refuse_workspace_root("[workspace]\nmembers = []\n").is_err());
    assert!(refuse_workspace_root("[workspace]\n[package]\nname = \"x\"\n").is_ok());
    assert!(refuse_workspace_root("[package]\n").is_ok());
    assert_eq!(
        refuse_workspace_root("[workspace]").unwrap_err(),
        "refusing to generate in a Cargo workspace root — cd into an app package first"
    );
}
