use ruvo::util::{civil_from_unix, format_ymdhms, sanitize_crate_name, to_type_name, utc_ymdhms, validate_ident};

#[test]
fn validate_ident_ok() {
    validate_ident("users").unwrap();
    validate_ident("_x").unwrap();
}

#[test]
fn validate_ident_rejects() {
    assert!(validate_ident("").is_err());
    assert!(validate_ident("1bad").is_err());
    assert!(validate_ident("has-dash").is_err());
}

#[test]
fn sanitize_and_type_name() {
    assert_eq!(sanitize_crate_name("my-app").unwrap(), "my-app");
    assert_eq!(to_type_name("blog_post"), "BlogPost");
}

#[test]
fn validate_ident_error_messages() {
    assert_eq!(validate_ident("").unwrap_err(), "name must not be empty");
    assert_eq!(validate_ident("1bad").unwrap_err(), "invalid name `1bad`");
    assert_eq!(validate_ident("a b").unwrap_err(), "invalid name `a b`");
}

#[test]
fn sanitize_uses_last_path_component() {
    assert_eq!(sanitize_crate_name("path/to/my app").unwrap(), "my_app");
    assert_eq!(sanitize_crate_name("./x/").unwrap(), "x");
    assert_eq!(sanitize_crate_name("__123abc__").unwrap(), "abc");
}

#[test]
fn sanitize_errors() {
    assert_eq!(
        sanitize_crate_name("123").unwrap_err(),
        "invalid package name derived from `123`"
    );
    assert_eq!(
        sanitize_crate_name("-x").unwrap_err(),
        "invalid package name `-x` from `-x`"
    );
}

#[test]
fn type_names_from_kebab_and_snake() {
    assert_eq!(to_type_name("my-cool_app"), "MyCoolApp");
    assert_eq!(to_type_name("__a"), "A");
    assert_eq!(to_type_name(""), "");
}

#[test]
fn civil_dates() {
    assert_eq!(civil_from_unix(0), (1970, 1, 1, 0, 0, 0));
    assert_eq!(civil_from_unix(951_782_400), (2000, 2, 29, 0, 0, 0));
    assert_eq!(civil_from_unix(1_700_000_000), (2023, 11, 14, 22, 13, 20));
    assert_eq!(format_ymdhms(1_700_000_000), "20231114_221320");
}

#[test]
fn utc_stamp_shape() {
    let s = utc_ymdhms();
    assert_eq!(s.chars().count(), 15);
    assert_eq!(s.chars().nth(8), Some('_'));
}

#[test]
fn snake_case_and_mailer_names() {
    assert_eq!(ruvo::util::to_snake_case("Welcome"), "welcome");
    assert_eq!(ruvo::util::to_snake_case("UserCreated"), "user_created");
    assert_eq!(ruvo::util::to_snake_case("send_digest"), "send_digest");
    assert_eq!(ruvo::util::to_snake_case("Order2Shipped"), "order2_shipped");
    assert_eq!(
        ruvo::sova_gen::mailer_names("Welcome"),
        ("WelcomeMail".to_string(), "welcome".to_string())
    );
    assert_eq!(
        ruvo::sova_gen::mailer_names("password_reset_mail"),
        ("PasswordResetMail".to_string(), "password_reset_mail".to_string())
    );
}
