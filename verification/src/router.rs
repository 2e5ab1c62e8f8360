//! Routing and the whole request-to-response mapping: two bound routes,
//! the router's default responses for every other request, and the
//! composition of decoding, rendering and response adaptation.

use vstd::prelude::*;
use vstd::utf8::decode_utf8;
use vstd::utf8::valid_utf8;

use crate::forms::form_name;
use crate::forms::parse_form;
use crate::handlers;
use crate::response::ContentType;
use crate::response::HttpResponse;
use crate::templates::greet_page;
use crate::templates::prompt_page;

verus! {

/// Where the router sends a request: one of the two bound handlers, or a
/// default response for a known path under another method, or none.
#[derive(Debug, Clone, Copy, PartialEq, Eq, Structural)]
pub enum RouteMatch {
    /// `GET /`: the prompt handler.
    Prompt,
    /// `POST /greet`: the greet handler.
    Greet,
    /// A bound path under a method it is not bound for.
    MethodNotAllowed,
    /// A path no route is bound for.
    NotFound,
}

/// The routing table: `GET /` prompts, `POST /greet` greets, a known path
/// under any other method is refused as a method mismatch, anything else
/// is unknown.
pub open spec fn spec_route(method: Seq<char>, path: Seq<char>) -> RouteMatch {
    if path == "/"@ {
        if method == "GET"@ {
            RouteMatch::Prompt
        } else {
            RouteMatch::MethodNotAllowed
        }
    } else if path == "/greet"@ {
        if method == "POST"@ {
            RouteMatch::Greet
        } else {
            RouteMatch::MethodNotAllowed
        }
    } else {
        RouteMatch::NotFound
    }
}

/// Character-for-character string equality.
fn str_eq(a: &str, b: &str) -> (r: bool)
    ensures
        r == (a@ == b@),
{
    let n: usize = a.unicode_len();
    let m: usize = b.unicode_len();
    if n != m {
        return false;
    }
    let mut i: usize = 0;
    while i < n
        invariant
            n == a@.len(),
            n == b@.len(),
            i <= n,
            forall|j: int| 0 <= j < i ==> a@[j] == b@[j],
        decreases n - i,
    {
        if a.get_char(i) != b.get_char(i) {
            return false;
        }
        i = i + 1;
    }
    proof {
        assert(a@ =~= b@);
    }
    true
}

/// Dispatches a method and path through the routing table.
pub fn route(method: &str, path: &str) -> (r: RouteMatch)
    ensures
        r == spec_route(method@, path@),
{
    if str_eq(path, "/") {
        if str_eq(method, "GET") {
            RouteMatch::Prompt
        } else {
            RouteMatch::MethodNotAllowed
        }
    } else if str_eq(path, "/greet") {
        if str_eq(method, "POST") {
            RouteMatch::Greet
        } else {
            RouteMatch::MethodNotAllowed
        }
    } else {
        RouteMatch::NotFound
    }
}

/// The whole request-to-response mapping. `GET /` always renders the
/// prompt page; `POST /greet` decodes the body and renders the greeting
/// page for the submitted name, or answers 400 when the body carries no
/// usable `name`; a bound path under another method answers 405 and an
/// unknown path 404, both with an empty body.
pub fn handle_request(method: &str, path: &str, body: &[u8]) -> (r: HttpResponse)
    ensures
        spec_route(method@, path@) is Prompt ==> r.status == 200 && r.content_type is Html
            && r.body@ == prompt_page(),
        spec_route(method@, path@) is Greet ==> match form_name(body@) {
            Some(vb) => {
                if valid_utf8(vb) {
                    r.status == 200 && r.content_type is Html && r.body@ == greet_page(
                        decode_utf8(vb),
                    )
                } else {
                    r.status == 400 && r.content_type is PlainText && r.body@ == Seq::<
                        char,
                    >::empty()
                }
            },
            None => r.status == 400 && r.content_type is PlainText && r.body@ == Seq::<
                char,
            >::empty(),
        },
        spec_route(method@, path@) is MethodNotAllowed ==> r.status == 405 && r.content_type
            is PlainText && r.body@ == Seq::<char>::empty(),
        spec_route(method@, path@) is NotFound ==> r.status == 404 && r.content_type is PlainText
            && r.body@ == Seq::<char>::empty(),
{
    match route(method, path) {
        RouteMatch::Prompt => handlers::prompt().into_response(),
        RouteMatch::Greet => match parse_form(body) {
            Ok(form) => handlers::greet(form).into_response(),
            Err(_) => HttpResponse {
                status: 400,
                content_type: ContentType::PlainText,
                body: String::new(),
            },
        },
        RouteMatch::MethodNotAllowed => HttpResponse {
            status: 405,
            content_type: ContentType::PlainText,
            body: String::new(),
        },
        RouteMatch::NotFound => HttpResponse {
            status: 404,
            content_type: ContentType::PlainText,
            body: String::new(),
        },
    }
}

} // verus!
