//! The two request handlers: each turns its input into a view and wraps it
//! for response adaptation.

use vstd::prelude::*;

use crate::forms;
use crate::response::Html;
use crate::templates::greet_page;
use crate::templates::prompt_page;
use crate::templates::Greet;
use crate::templates::Prompt;
use crate::templates::Template;

verus! {

/// The prompt handler: no input, the static prompt view.
pub fn prompt() -> (r: Html<Prompt>)
    ensures
        r.0.rendered() == prompt_page(),
{
    Html(Prompt)
}

/// The greet handler: copies the decoded form's name into a greeting view.
pub fn greet(form: forms::Greet) -> (r: Html<Greet>)
    ensures
        r.0.rendered() == greet_page(form.name@),
{
    Html(Greet { name: form.name })
}

} // verus!
