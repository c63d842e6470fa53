use ruvo::config::normalize_profile_name;

#[test]
fn debug_alias_normalizes_to_development() {
    assert_eq!(normalize_profile_name("debug"), "development");
    assert_eq!(normalize_profile_name("release"), "production");
}
