use static_server::mime::get_mime_type;

#[test]
fn table_entries_classify_exactly() {
    assert_eq!(get_mime_type("web/index.html"), "text/html");
    assert_eq!(get_mime_type("style.css"), "text/css");
    assert_eq!(get_mime_type("app.js"), "application/javascript");
    assert_eq!(get_mime_type("data.json"), "application/json");
    assert_eq!(get_mime_type("web/new-api/pkg/new_api_bg.wasm"), "application/wasm");
    assert_eq!(get_mime_type("logo.png"), "image/png");
    assert_eq!(get_mime_type("photo.jpg"), "image/jpeg");
    assert_eq!(get_mime_type("photo.jpeg"), "image/jpeg");
    assert_eq!(get_mime_type("anim.gif"), "image/gif");
    assert_eq!(get_mime_type("icon.svg"), "image/svg+xml");
}

#[test]
fn unknown_extension_falls_back_to_binary() {
    assert_eq!(get_mime_type("notes.txt"), "application/octet-stream");
    assert_eq!(get_mime_type("new_api_bg.wasm.d.ts"), "application/octet-stream");
}

#[test]
fn missing_extension_falls_back_to_binary() {
    assert_eq!(get_mime_type("Makefile"), "application/octet-stream");
    assert_eq!(get_mime_type(""), "application/octet-stream");
}

#[test]
fn dotfile_has_no_extension() {
    assert_eq!(get_mime_type(".gitignore"), "application/octet-stream");
    assert_eq!(get_mime_type("web/.html"), "application/octet-stream");
}

#[test]
fn trailing_dot_gives_empty_extension() {
    assert_eq!(get_mime_type("file."), "application/octet-stream");
}

#[test]
fn extension_is_case_sensitive() {
    assert_eq!(get_mime_type("INDEX.HTML"), "application/octet-stream");
}

#[test]
fn only_final_component_counts() {
    assert_eq!(get_mime_type("assets.d/readme"), "application/octet-stream");
    assert_eq!(get_mime_type("a.css/b.html"), "text/html");
}

#[test]
fn last_dot_decides_the_extension() {
    assert_eq!(get_mime_type("app.min.js"), "application/javascript");
    assert_eq!(get_mime_type("bundle.tar.gz"), "application/octet-stream");
}

#[test]
fn classification_is_idempotent() {
    let first = get_mime_type("web/index.html");
    let second = get_mime_type("web/index.html");
    assert_eq!(first, second);
}
