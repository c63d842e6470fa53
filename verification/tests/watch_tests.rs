use ruvo::middleware::abbreviate_type_name;
use ruvo::watch::path_relevant;

#[test]
fn path_relevant_env_and_toml() {
    assert!(path_relevant("/app/.env"));
    assert!(path_relevant("/app/.env.local"));
    assert!(path_relevant("/app/.env.development"));
    assert!(path_relevant("/app/sova.toml"));
    assert!(path_relevant("/app/Sova.toml"));
    assert!(path_relevant("/app/src/main.rs"));
    assert!(!path_relevant("/app/views/home.html"));
    assert!(!path_relevant("/app/.envrc"));
}

#[test]
fn abbreviate_closure() {
    let n = abbreviate_type_name("foo::bar::{{closure}}");
    assert_eq!(n, "bar");
}
