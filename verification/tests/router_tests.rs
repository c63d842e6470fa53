use ruvo::router::{allow_header, dispatch_choice, find_method, Dispatch, sort_codes, sorted_labels, RouteLine, RouterSummary};

fn strs(v: &[&str]) -> Vec<String> {
    v.iter().map(|s| s.to_string()).collect()
}

#[test]
fn allow_lists_each_method_once() {
    assert_eq!(allow_header(&strs(&["GET", "POST", "GET"])), "GET, HEAD, OPTIONS, POST");
    assert_eq!(allow_header(&strs(&["DELETE"])), "DELETE, OPTIONS");
    assert_eq!(allow_header(&strs(&[])), "OPTIONS");
    assert_eq!(allow_header(&strs(&["PUT", "HEAD", "GET"])), "GET, HEAD, OPTIONS, PUT");
}

#[test]
fn sorting_helpers() {
    assert_eq!(sort_codes(&vec![500, 404, 418, 404]), vec![404, 404, 418, 500]);
    assert_eq!(sorted_labels(&strs(&["b", "a", "c", "a"])), strs(&["a", "a", "b", "c"]));
}

#[test]
fn explain_listing() {
    let s = RouterSummary {
        root_middleware: strs(&["logger", "cors"]),
        has_error_handler: false,
        catcher_codes: vec![500, 404],
        scoped_catchers: vec![("/api".to_string(), vec![401]), (String::new(), vec![])],
        default_labels: strs(&["z", "auth"]),
        routes: vec![
            RouteLine { method: "GET".into(), path: "/".into(), middleware: vec![], labels: vec![] },
            RouteLine { method: "POST".into(), path: "/u".into(), middleware: strs(&["auth"]), labels: strs(&["rate", "csrf"]) },
        ],
        raw_paths: strs(&["/ws"]),
    };
    assert_eq!(
        s.explain(),
        "root_middleware: [logger, cors]\nerror_handler: false\ncatchers: [/ → [404, 500]; /api → [401]; / → []]\ndefaults: [auth z]\nGET / mw=[]\nPOST /u mw=[auth] csrf rate\nRAW /ws mw=[]\n"
    );
    let empty = RouterSummary {
        root_middleware: vec![],
        has_error_handler: true,
        catcher_codes: vec![],
        scoped_catchers: vec![],
        default_labels: vec![],
        routes: vec![],
        raw_paths: vec![],
    };
    assert_eq!(empty.explain(), "root_middleware: []\nerror_handler: true\ncatchers: []\n");
}

#[test]
fn dispatch_options_head_and_405() {
    let ms = strs(&["POST", "GET", "POST"]);
    match dispatch_choice("OPTIONS", &ms) {
        Dispatch::Options(a) => assert_eq!(a, "GET, HEAD, OPTIONS, POST"),
        _ => panic!("OPTIONS must be answered with Allow"),
    }
    assert!(matches!(dispatch_choice("HEAD", &ms), Dispatch::HeadViaGet(1)));
    assert!(matches!(dispatch_choice("POST", &ms), Dispatch::Handler(0)));
    assert!(matches!(dispatch_choice("GET", &ms), Dispatch::Handler(1)));
    match dispatch_choice("DELETE", &ms) {
        Dispatch::NotAllowed(a) => assert_eq!(a, "GET, HEAD, OPTIONS, POST"),
        _ => panic!("DELETE must be refused"),
    }
    let only_post = strs(&["POST"]);
    match dispatch_choice("HEAD", &only_post) {
        Dispatch::NotAllowed(a) => assert_eq!(a, "OPTIONS, POST"),
        _ => panic!("HEAD without GET must be refused"),
    }
    let with_head = strs(&["HEAD", "GET"]);
    assert!(matches!(dispatch_choice("HEAD", &with_head), Dispatch::HeadViaGet(1)));
    assert_eq!(find_method(&ms, "POST"), Some(0));
    assert_eq!(find_method(&ms, "PUT"), None);
}
