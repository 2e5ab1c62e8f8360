//! Adaptation of a render outcome into an HTTP response: a rendered page
//! becomes a 200 HTML response, a render failure becomes a 500 response
//! with a diagnostic body.

use vstd::prelude::*;

use crate::templates::RenderError;
use crate::templates::Template;

verus! {

/// The content type of a response body.
#[derive(Debug, Clone, Copy, PartialEq, Eq, Structural)]
pub enum ContentType {
    Html,
    PlainText,
}

/// An HTTP response as plain values: a status code, a content type and a
/// body.
#[derive(Debug)]
pub struct HttpResponse {
    pub status: u16,
    pub content_type: ContentType,
    pub body: String,
}

/// The diagnostic body of a response to a failed render.
pub open spec fn render_failure_body(detail: Seq<char>) -> Seq<char> {
    "Failed to render template: "@ + detail
}

/// Turns a render outcome into a response: a page becomes 200 with an HTML
/// body, a render error becomes 500 with a diagnostic plain-text body.
pub fn respond(outcome: Result<String, RenderError>) -> (r: HttpResponse)
    ensures
        match outcome {
            Ok(html) => r.status == 200 && r.content_type is Html && r.body@ == html@,
            Err(e) => r.status == 500 && r.content_type is PlainText && r.body@
                == render_failure_body(e.detail@),
        },
{
    match outcome {
        Ok(html) => HttpResponse { status: 200, content_type: ContentType::Html, body: html },
        Err(error) => {
            let mut message = String::from_str("Failed to render template: ");
            message.append(error.detail.as_str());
            HttpResponse { status: 500, content_type: ContentType::PlainText, body: message }
        },
    }
}

/// A renderable view wrapped so it can be turned into an HTTP response.
#[derive(Debug)]
pub struct Html<T>(pub T);

impl<T: Template> Html<T> {
    /// Renders the wrapped view and adapts the outcome into a response.
    /// These views always render, so the response is always the page.
    pub fn into_response(self) -> (r: HttpResponse)
        ensures
            r.status == 200,
            r.content_type is Html,
            r.body@ == self.0.rendered(),
    {
        let rendered = self.0.render();
        respond(rendered)
    }
}

} // verus!
