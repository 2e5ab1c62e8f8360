//! End-to-end request/response scenarios through `handle_request`.

use greeter::response::ContentType;
use greeter::router::handle_request;

#[test]
fn get_root_returns_prompt_form() {
    let r = handle_request("GET", "/", b"");
    assert_eq!(r.status, 200);
    assert_eq!(r.content_type, ContentType::Html);
    assert!(r.body.contains("<form"));
    assert!(r.body.contains("/greet"));
    assert!(r.body.contains("name=\"name\""));
}

#[test]
fn get_root_ignores_body_content() {
    let with_body = handle_request("GET", "/", b"name=ignored");
    let without = handle_request("GET", "/", b"");
    assert_eq!(with_body.status, 200);
    assert_eq!(with_body.body, without.body);
}

#[test]
fn post_greet_with_name_greets() {
    let r = handle_request("POST", "/greet", b"name=World");
    assert_eq!(r.status, 200);
    assert_eq!(r.content_type, ContentType::Html);
    assert!(r.body.contains("World"));
    assert!(r.body.contains("Hello, World!"));
}

#[test]
fn post_greet_with_empty_name_greets_nobody() {
    let r = handle_request("POST", "/greet", b"name=");
    assert_eq!(r.status, 200);
    assert_eq!(r.content_type, ContentType::Html);
    assert!(r.body.contains("Hello, !"));
}

#[test]
fn post_greet_without_name_is_bad_request() {
    let r = handle_request("POST", "/greet", b"");
    assert_eq!(r.status, 400);
    let r2 = handle_request("POST", "/greet", b"other=x");
    assert_eq!(r2.status, 400);
}

#[test]
fn post_greet_escapes_markup_in_name() {
    let r = handle_request("POST", "/greet", b"name=%3Cb%3EAl%3C%2Fb%3E");
    assert_eq!(r.status, 200);
    assert!(r.body.contains("&lt;b&gt;Al&lt;/b&gt;"));
    assert!(!r.body.contains("<b>"));
}

#[test]
fn undefined_routes_get_default_responses() {
    let r = handle_request("GET", "/greet", b"");
    assert_eq!(r.status, 405);
    let r2 = handle_request("POST", "/", b"name=World");
    assert_eq!(r2.status, 405);
    let r3 = handle_request("DELETE", "/", b"");
    assert_eq!(r3.status, 405);
    let r4 = handle_request("GET", "/nope", b"");
    assert_eq!(r4.status, 404);
    let r5 = handle_request("PUT", "/elsewhere", b"stuff");
    assert_eq!(r5.status, 404);
}
