//! Rendering and response adaptation: the two views, idempotence, and the
//! failure arm of the adapter.

use greeter::handlers::greet;
use greeter::handlers::prompt;
use greeter::forms;
use greeter::response::respond;
use greeter::response::ContentType;
use greeter::templates::Greet;
use greeter::templates::Prompt;
use greeter::templates::RenderError;
use greeter::templates::Template;

#[test]
fn prompt_renders_the_static_page() {
    let page = Prompt.render().unwrap();
    assert!(page.contains("<form action=\"/greet\" method=\"post\">"));
    assert!(page.contains("name=\"name\""));
}

#[test]
fn greet_renders_the_name_into_the_page() {
    let page = Greet { name: String::from("World") }.render().unwrap();
    assert_eq!(
        page,
        "<!DOCTYPE html><html><head><title>Greeting</title></head><body><p>Hello, World!</p></body></html>"
    );
}

#[test]
fn greet_escapes_every_special_character() {
    let page = Greet { name: String::from("a&b<c>d\"e'f") }.render().unwrap();
    assert!(page.contains("a&amp;b&lt;c&gt;d&quot;e&#x27;f"));
}

#[test]
fn rendering_twice_is_byte_identical() {
    let view = Greet { name: String::from("R\u{e9}mi <the> greeted") };
    let once = view.render().unwrap();
    let twice = view.render().unwrap();
    assert_eq!(once.as_bytes(), twice.as_bytes());
    let p1 = Prompt.render().unwrap();
    let p2 = Prompt.render().unwrap();
    assert_eq!(p1.as_bytes(), p2.as_bytes());
}

#[test]
fn render_failure_becomes_diagnostic_500() {
    let outcome = Err(RenderError { detail: String::from("template not found: greet.html") });
    let r = respond(outcome);
    assert_eq!(r.status, 500);
    assert_eq!(r.content_type, ContentType::PlainText);
    assert!(r.body.starts_with("Failed to render template:"));
    assert_eq!(r.body, "Failed to render template: template not found: greet.html");
}

#[test]
fn handlers_wrap_their_views() {
    let p = prompt().into_response();
    assert_eq!(p.status, 200);
    assert_eq!(p.content_type, ContentType::Html);
    let g = greet(forms::Greet { name: String::from("World") }).into_response();
    assert_eq!(g.status, 200);
    assert!(g.body.contains("World"));
}
