use ruvo::project::frontend_section;
use ruvo::config::ConfigValue;
use ruvo::project::{
    parse_bin_name, parse_package_name,
    check_requested_package, detect_package_manager, frontend_config, frontend_dir,
    join_path, package_json_looks_like_vite, package_name_of, run_script, skip_dir,
    workspace_search_roots, FrontendSection, LockFiles, Project,
};

fn no_locks() -> LockFiles {
    LockFiles { pnpm_lock: false, yarn_lock: false, bun_lockb: false, bun_lock: false }
}

fn section() -> FrontendSection {
    FrontendSection { enabled: None, dir: None, dev: None, build: None, out: None, package_manager: None }
}

#[test]
fn paths_join() {
    assert_eq!(join_path("/app", "web"), "/app/web");
    assert_eq!(join_path("/app/", "web"), "/app/web");
    assert_eq!(join_path("/app", "/abs"), "/abs");
    assert_eq!(join_path("", "web"), "web");
    let p = Project { package_dir: "/w/app".into(), workspace_dir: "/w".into(), package_name: "app".into(), bin_name: "app".into(), frontend: None };
    assert_eq!(p.release_bin(), "/w/target/release/app");
}

#[test]
fn package_managers() {
    assert_eq!(detect_package_manager(&no_locks()), "npm");
    assert_eq!(detect_package_manager(&LockFiles { pnpm_lock: true, yarn_lock: true, bun_lockb: false, bun_lock: false }), "pnpm");
    assert_eq!(detect_package_manager(&LockFiles { pnpm_lock: false, yarn_lock: false, bun_lockb: false, bun_lock: true }), "bun");
    assert_eq!(run_script("yarn", "dev"), "yarn dev");
    assert_eq!(run_script("pnpm", "build"), "pnpm run build");
    assert_eq!(run_script("other", "dev"), "npm run dev");
    assert!(package_json_looks_like_vite(Some("{\"devDependencies\": {\"vite\": \"5\"}}")));
    assert!(!package_json_looks_like_vite(Some("{}")));
    assert!(!package_json_looks_like_vite(None));
}

#[test]
fn frontend_directory_choice() {
    assert_eq!(frontend_dir(None, "/app", true, false).unwrap(), Some("/app/frontend".to_string()));
    assert_eq!(frontend_dir(None, "/app", false, true).unwrap(), Some("/app".to_string()));
    assert_eq!(frontend_dir(None, "/app", false, false).unwrap(), None);
    let mut off = section();
    off.enabled = Some(false);
    assert_eq!(frontend_dir(Some(&off), "/app", true, true).unwrap(), None);
    let mut on = section();
    on.enabled = Some(true);
    assert_eq!(
        frontend_dir(Some(&on), "/app", false, false).unwrap_err(),
        "[frontend] enabled but no dir / package.json found (set frontend.dir)"
    );
    let mut dir = section();
    dir.dir = Some("ui".to_string());
    assert_eq!(frontend_dir(Some(&dir), "/app", true, false).unwrap(), Some("/app/ui".to_string()));
}

#[test]
fn frontend_configuration() {
    let c = frontend_config(None, "/app", "/app/frontend", true, &LockFiles { pnpm_lock: false, yarn_lock: true, bun_lockb: false, bun_lock: false }).unwrap();
    assert_eq!(c.package_manager, "yarn");
    assert_eq!(c.dev, "yarn dev");
    assert_eq!(c.build, "yarn build");
    assert_eq!(c.out, "/app/public/build");
    let mut s = section();
    s.dev = Some("vite".to_string());
    s.out = Some("dist".to_string());
    s.package_manager = Some("bun".to_string());
    let d = frontend_config(Some(&s), "/app", "/app", true, &no_locks()).unwrap();
    assert_eq!(d.dev, "vite");
    assert_eq!(d.build, "bun run build");
    assert_eq!(d.out, "/app/dist");
    assert_eq!(
        frontend_config(None, "/app", "/x", false, &no_locks()).err().unwrap(),
        "frontend dir /x has no package.json"
    );
}

#[test]
fn parse_name() {
    let m = r#"
[package]
name = "cabinet"
version = "0.1.0"
"#;
    assert_eq!(parse_package_name(m).unwrap(), "cabinet");
}

#[test]
fn manifest_names() {
    assert_eq!(package_name_of(&ConfigValue::Table(vec![])).unwrap_err(), "Cargo.toml missing [package].name");
    assert_eq!(parse_bin_name("[package]\nname = \"a\"\n"), None);
    assert_eq!(parse_bin_name("[[bin]]\nname = \"srv\"\n[[bin]]\nname = \"other\"\n"), Some("srv".to_string()));
    assert_eq!(parse_bin_name("not toml ="), None);
    assert!(parse_package_name("[package]\nversion = \"1\"").unwrap_err().contains("missing [package].name"));
    assert!(parse_package_name("= broken").is_err());
}

#[test]
fn workspace_search() {
    assert_eq!(workspace_search_roots("/w"), vec!["/w/examples", "/w/crates", "/w/plugins", "/w"]);
    assert!(skip_dir("target") && skip_dir("node_modules") && skip_dir(".git"));
    assert!(!skip_dir("crates"));
    assert!(check_requested_package(Some("a"), "a").is_ok());
    assert!(check_requested_package(None, "a").is_ok());
    assert_eq!(
        check_requested_package(Some("b"), "a").unwrap_err(),
        "resolved package `a` but `-p b` was requested"
    );
}

#[test]
fn frontend_section_of_ruvo_toml() {
    let s = frontend_section("[frontend]\nenabled = true\ndir = \"web\"\ndev = \"npm run dev\"\nother = 1\n")
        .unwrap()
        .unwrap();
    assert_eq!(s.enabled, Some(true));
    assert_eq!(s.dir.as_deref(), Some("web"));
    assert_eq!(s.dev.as_deref(), Some("npm run dev"));
    assert_eq!(s.build, None);
    assert!(matches!(frontend_section("[server]\nmax_connections = 1\n"), Some(None)));
    assert!(frontend_section("[frontend]\ndir = 3\n").is_none());
    assert!(frontend_section("frontend = \"x\"\n").is_none());
    assert!(frontend_section("[frontend\n").is_none());
}
