use ruvo::path::{join_paths, normalize_path, normalize_prefix, to_brace_path, to_matchit_path};

#[test]
fn brace_path_params() {
    assert_eq!(to_brace_path("/users/:id").as_deref(), Some("/users/{id}"));
    assert_eq!(to_brace_path("/").as_deref(), Some("/"));
}

#[test]
fn brace_path_rejects_wildcard() {
    assert!(to_brace_path("/files/*path").is_none());
}

#[test]
fn normalize_and_join() {
    assert_eq!(normalize_path(""), "/");
    assert_eq!(normalize_path("users"), "/users");
    assert_eq!(normalize_prefix("/"), "");
    assert_eq!(normalize_prefix("api/"), "/api");
    assert_eq!(join_paths("/api", "/users"), "/api/users");
    assert_eq!(join_paths("", "/users"), "/users");
    assert_eq!(join_paths("/api", "/"), "/api");
}

#[test]
fn matchit_forms() {
    assert_eq!(to_matchit_path("/users/:id"), "/users/{id}");
    assert_eq!(to_matchit_path("/files/*path"), "/files/{*path}");
    assert_eq!(to_matchit_path("/files/*"), "/files/{*path}");
}
