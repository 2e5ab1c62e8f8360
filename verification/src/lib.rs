//! A small greeting web library: a static prompt page, a greeting page that
//! HTML-escapes a submitted name, URL-encoded form decoding, routing, and the
//! adaptation of a render outcome into an HTTP response.

pub mod forms;
pub mod handlers;
pub mod response;
pub mod router;
pub mod templates;
