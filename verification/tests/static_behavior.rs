use fileserve::content_type::content_type_for;
use fileserve::static_files::{resolve_request, respond_static, static_path};

#[test]
fn mapped_extensions_get_their_content_type() {
    assert_eq!(content_type_for("page.html"), "text/html");
    assert_eq!(content_type_for("style.css"), "text/css");
    assert_eq!(content_type_for("app.js"), "application/javascript");
    assert_eq!(content_type_for("icon.png"), "image/png");
    assert_eq!(content_type_for("photo.jpg"), "image/jpeg");
    assert_eq!(content_type_for("photo.jpeg"), "image/jpeg");
    assert_eq!(content_type_for("anim.gif"), "image/gif");
    assert_eq!(content_type_for("logo.svg"), "image/svg+xml");
}

#[test]
fn unmapped_or_missing_extension_is_octet_stream() {
    assert_eq!(content_type_for("archive.tar"), "application/octet-stream");
    assert_eq!(content_type_for("README"), "application/octet-stream");
    assert_eq!(content_type_for("noext."), "application/octet-stream");
    assert_eq!(content_type_for(""), "application/octet-stream");
}

#[test]
fn extension_is_taken_after_the_last_dot() {
    assert_eq!(content_type_for("bundle.min.js"), "application/javascript");
    assert_eq!(content_type_for("a.b.c.png"), "image/png");
}

#[test]
fn root_resolves_like_index_html() {
    let via_root = resolve_request("/").expect("root must resolve");
    let via_name = resolve_request("/index.html").expect("index must resolve");
    assert_eq!(via_root, "index.html");
    assert_eq!(via_name, "index.html");

    let bytes = b"<html></html>".to_vec();
    let a = respond_static(&via_root, Some(bytes.clone()));
    let b = respond_static(&via_name, Some(bytes));
    assert_eq!(a.status, b.status);
    assert_eq!(a.content_type, b.content_type);
    assert_eq!(a.body, b.body);
}

#[test]
fn leading_slash_is_stripped() {
    assert_eq!(resolve_request("/style.css").unwrap(), "style.css");
    assert_eq!(resolve_request("logo.svg").unwrap(), "logo.svg");
}

#[test]
fn traversal_paths_are_rejected() {
    assert!(resolve_request("/../secret.txt").is_none());
    assert!(resolve_request("..").is_none());
    assert!(resolve_request("a/../b").is_none());
    assert!(resolve_request("//etc/hosts").is_none());
}

#[test]
fn missing_style_css_is_404_file_not_found() {
    let name = resolve_request("/style.css").unwrap();
    let r = respond_static(&name, None);
    assert_eq!(r.status, 404);
    assert_eq!(r.body, b"File not found".to_vec());
}

#[test]
fn present_logo_svg_is_200_with_svg_type_and_exact_bytes() {
    let name = resolve_request("/logo.svg").unwrap();
    let bytes = b"<svg xmlns='http://www.w3.org/2000/svg'/>".to_vec();
    let r = respond_static(&name, Some(bytes.clone()));
    assert_eq!(r.status, 200);
    assert_eq!(r.content_type, "image/svg+xml");
    assert_eq!(r.body, bytes);
}

#[test]
fn no_file_content_rides_on_a_404() {
    let r = respond_static("logo.svg", None);
    assert_eq!(r.status, 404);
    assert_eq!(r.body, b"File not found".to_vec());
    let ok = respond_static("logo.svg", Some(b"real content".to_vec()));
    assert_eq!(ok.status, 200);
}

#[test]
fn static_paths_join_under_the_static_root() {
    assert_eq!(static_path("index.html"), "static/index.html");
    assert_eq!(static_path("logo.svg"), "static/logo.svg");
}
