use ruvo::config::{
    env_settings, merge_server, normalize_profile_name, server_settings, settings_then, unset_profile,
    EnvOverrides,
};
use ruvo::path::{join_paths, normalize_path, normalize_prefix};

#[test]
fn nested_mounts_join_like_one_mount() {
    let inner = join_paths(&normalize_prefix("/v1"), "/users");
    let outer = join_paths(&normalize_prefix("/api"), &inner);
    let once = join_paths(&normalize_prefix(&join_paths(&normalize_prefix("/api"), "/v1")), "/users");
    assert_eq!(outer, "/api/v1/users");
    assert_eq!(outer, once);
}

#[test]
fn normalizing_twice_changes_nothing() {
    for p in ["", "/", "users", "/a/b/"] {
        let once = normalize_path(p);
        assert_eq!(normalize_path(&once), once);
    }
    for raw in [" debug ", "release", "staging", "  "] {
        let once = normalize_profile_name(raw);
        assert_eq!(normalize_profile_name(&once), once);
    }
}

#[test]
fn merge_layers_compose() {
    let mk = |conns: Option<usize>, body: Option<&str>, trust: Option<bool>| {
        let mut p = unset_profile();
        p.max_connections = conns;
        p.max_body = body.map(|s| s.to_string());
        p.trust_proxy = trust;
        p
    };
    let left = merge_server(merge_server(mk(Some(1), Some("1k"), None), mk(Some(2), None, None)), mk(None, None, Some(true)));
    let right = merge_server(mk(Some(1), Some("1k"), None), merge_server(mk(Some(2), None, None), mk(None, None, Some(true))));
    assert_eq!(left.max_connections, right.max_connections);
    assert_eq!(left.max_body, right.max_body);
    assert_eq!(left.trust_proxy, right.trust_proxy);
    assert_eq!(left.max_connections, Some(2));
    assert_eq!(left.max_body.as_deref(), Some("1k"));
    assert_eq!(left.trust_proxy, Some(true));
}

#[test]
fn env_overrides_file_settings() {
    let mut p = unset_profile();
    p.max_connections = Some(100);
    p.keep_alive = Some(false);
    p.request_timeout = Some("30s".to_string());
    let file = server_settings(&p).unwrap();
    let env = EnvOverrides {
        max_body: None,
        max_connections: Some("7".to_string()),
        max_upgraded_connections: None,
        max_concurrent_streams: None,
        max_headers: None,
        max_buf_size: None,
        request_timeout: None,
        header_read_timeout: None,
        idle_timeout: None,
        drain_timeout: None,
        keep_alive: Some("1".to_string()),
        trust_proxy: None,
    };
    let all = settings_then(file, env_settings(&env).unwrap());
    assert_eq!(all.max_connections, Some(7));
    assert_eq!(all.keep_alive, Some(true));
    assert_eq!(all.request_timeout, Some(Some("30s".to_string())));
    assert_eq!(all.trust_proxy, None);
}
