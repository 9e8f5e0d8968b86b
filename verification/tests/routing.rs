use static_server::routes::{is_served_path, resolve};

#[test]
fn root_resolves_to_index() {
    let (path, permitted) = resolve("web", "/");
    assert_eq!(path, "web/index.html");
    assert!(permitted);
}

#[test]
fn root_with_query_resolves_to_index() {
    let (path, permitted) = resolve("web", "/?loglvl_base=debug");
    assert_eq!(path, "web/index.html");
    assert!(permitted);
}

#[test]
fn listed_path_is_permitted() {
    let (path, permitted) = resolve("web", "/new-api/pkg/new_api.js");
    assert_eq!(path, "web/new-api/pkg/new_api.js");
    assert!(permitted);
}

#[test]
fn unlisted_path_is_rejected() {
    let (path, permitted) = resolve("web", "/secret.txt");
    assert_eq!(path, "web/secret.txt");
    assert!(!permitted);
}

#[test]
fn traversal_path_is_rejected() {
    let (_, permitted) = resolve("web", "/../etc/passwd");
    assert!(!permitted);
}

#[test]
fn query_string_ignored_for_routing() {
    let with_query = resolve("web", "/index.html?x=1");
    let without_query = resolve("web", "/index.html");
    assert_eq!(with_query.0, without_query.0);
    assert_eq!(with_query.1, without_query.1);
}

#[test]
fn base_with_trailing_slash_joins_cleanly() {
    let (path, permitted) = resolve("web/", "/index.html");
    assert_eq!(path, "web/index.html");
    assert!(permitted);
}

#[test]
fn empty_base_keeps_relative_path() {
    let (path, permitted) = resolve("", "/index.html");
    assert_eq!(path, "index.html");
    assert!(permitted);
}

#[test]
fn doubled_slash_is_not_an_entry() {
    let (path, permitted) = resolve("web", "//index.html");
    assert_eq!(path, "web//index.html");
    assert!(!permitted);
}

#[test]
fn allow_list_membership_is_exact() {
    assert!(is_served_path("index.html"));
    assert!(is_served_path("new-api/pkg/new_api_bg.wasm"));
    assert!(is_served_path("new-api/pkg/new_api_bg.wasm.d.ts"));
    assert!(is_served_path("new-api/pkg/new_api.d.ts"));
    assert!(is_served_path("new-api/pkg/new_api.js"));
    assert!(!is_served_path("index.htm"));
    assert!(!is_served_path("Index.html"));
    assert!(!is_served_path("new-api/pkg/new_api.wasm"));
    assert!(!is_served_path(""));
}
