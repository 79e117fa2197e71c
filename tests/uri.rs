use hyper::Uri;
use zerg::{join_path, parse_with_path, UriExt};

#[test]
fn join_path_drops_one_leading_separator() {
    assert_eq!(join_path("http://a:1/", "/x/y"), "http://a:1/x/y");
    assert_eq!(join_path("http://a:1/", "x"), "http://a:1/x");
    assert_eq!(join_path("http://a:1/", "//x"), "http://a:1//x");
    assert_eq!(join_path("http://a:1/", ""), "http://a:1/");
}

#[test]
fn with_path_builds_a_new_uri() {
    let base: Uri = "http://localhost:3000/".parse().unwrap();
    let u = base.with_path("/api/items").unwrap();
    assert_eq!(u.to_string(), "http://localhost:3000/api/items");
    assert_eq!(u.path(), "/api/items");
    let v = base.with_path("health").unwrap();
    assert_eq!(v.path(), "/health");
}

#[test]
fn with_path_rejects_text_that_is_no_uri() {
    let base: Uri = "http://localhost:3000/".parse().unwrap();
    assert!(base.with_path("a b").is_err());
    assert!(parse_with_path("http://h/", "a b").is_err());
    assert_eq!(parse_with_path("http://h/", "/ok").unwrap().path(), "/ok");
}

#[test]
fn with_path_ignores_one_leading_separator() {
    let base = Uri::from_static("http://localhost:8080/");
    let a = base.with_path("/api/users").unwrap();
    let b = base.with_path("api/users").unwrap();
    assert_eq!(a.to_string(), "http://localhost:8080/api/users");
    assert_eq!(b.to_string(), "http://localhost:8080/api/users");
    assert_eq!(a, b);
    assert_eq!(base.with_path("//x").unwrap().to_string(), "http://localhost:8080//x");
}
