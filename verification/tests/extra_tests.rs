use ruvo::server::{body_too_large, extra_headers, h2_header_fix, is_hop_by_hop, H2HeaderFix};
use ruvo::dev::port_or_default;
use ruvo::manifest::{needs_web_preset_warning, render_entities_stub, render_migrations_stub};
use ruvo::project::{manifest_step, ManifestStep};
use ruvo::upload::suggested_name;
use ruvo::watch::{debounce_step, event_relevant, ChangeKind, DEBOUNCE_MS};

#[test]
fn watcher_events() {
    let paths = vec!["/app/README.md".to_string(), "/app/src/lib.rs".to_string()];
    assert!(event_relevant(ChangeKind::Modify, &paths));
    assert!(event_relevant(ChangeKind::Remove, &paths));
    assert!(!event_relevant(ChangeKind::Other, &paths));
    assert!(!event_relevant(ChangeKind::Create, &vec!["/app/a.txt".to_string()]));
}

#[test]
fn debounce_waits_for_quiet() {
    let (p, fire) = debounce_step(None, true, 1000);
    assert_eq!((p, fire), (Some(1000), false));
    assert_eq!(debounce_step(p, false, 1000 + DEBOUNCE_MS - 1), (Some(1000), false));
    assert_eq!(debounce_step(p, true, 1200), (Some(1200), false));
    assert_eq!(debounce_step(Some(1200), false, 1500), (None, true));
    assert_eq!(debounce_step(None, false, 9999), (None, false));
}

#[test]
fn package_search_steps() {
    assert_eq!(manifest_step("[workspace]\nmembers=[]", None, Some("app")), ManifestStep::SearchWorkspace);
    assert_eq!(manifest_step("[package]\nname=\"app\"", Some("app"), Some("app")), ManifestStep::Found);
    assert_eq!(manifest_step("[package]\nname=\"other\"", Some("other"), Some("app")), ManifestStep::KeepLooking);
    assert_eq!(manifest_step("[package]", None, None), ManifestStep::Found);
    assert_eq!(manifest_step("[workspace]", None, None), ManifestStep::KeepLooking);
}

#[test]
fn ports_and_stubs() {
    assert_eq!(port_or_default(Some("9876"), 3000), 9876);
    assert_eq!(port_or_default(Some("70000"), 3000), 3000);
    assert_eq!(port_or_default(Some("x"), 3000), 3000);
    assert_eq!(port_or_default(None, 3000), 3000);
    assert!(render_entities_stub().starts_with("// Entity modules appear here"));
    assert!(render_migrations_stub().contains("        vec![]\n"));
    assert!(needs_web_preset_warning("let app = App::new();"));
    assert!(!needs_web_preset_warning("let app = App::web().site(\"t\");"));
    assert_eq!(suggested_name(Some("a.txt"), "file"), "a.txt");
    assert_eq!(suggested_name(Some(""), "file"), "file");
    assert_eq!(suggested_name(None, "file"), "file");
}

#[test]
fn server_decisions() {
    assert!(body_too_large(Some("2048"), 1024));
    assert!(!body_too_large(Some("1024"), 1024));
    assert!(!body_too_large(Some("lots"), 1));
    assert!(!body_too_large(None, 0));
    assert!(is_hop_by_hop("transfer-encoding") && is_hop_by_hop("upgrade"));
    assert!(!is_hop_by_hop("content-type"));
    assert_eq!(h2_header_fix(true, 426, true), H2HeaderFix::StripHopByHop);
    assert_eq!(h2_header_fix(true, 200, true), H2HeaderFix::InternalError);
    assert_eq!(h2_header_fix(false, 200, true), H2HeaderFix::Keep);
    assert_eq!(h2_header_fix(true, 200, false), H2HeaderFix::Keep);
    assert_eq!(
        extra_headers(true, Some("h3=\":443\"; ma=86400")),
        vec![
            ("strict-transport-security".to_string(), "max-age=31536000".to_string()),
            ("alt-svc".to_string(), "h3=\":443\"; ma=86400".to_string()),
        ]
    );
    assert!(extra_headers(false, None).is_empty());
}
