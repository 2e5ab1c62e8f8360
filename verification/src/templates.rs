//! Template rendering: a static prompt page and a greeting page with one
//! substitution point, whose value is HTML-escaped.

use vstd::prelude::*;

verus! {

/// The replacement for one character under HTML escaping: the five
/// characters that could be read as markup become entities, every other
/// character stands unchanged.
pub open spec fn escape_char(c: char) -> Seq<char> {
    if c == '&' {
        "&amp;"@
    } else if c == '<' {
        "&lt;"@
    } else if c == '>' {
        "&gt;"@
    } else if c == '"' {
        "&quot;"@
    } else if c == '\'' {
        "&#x27;"@
    } else {
        seq![c]
    }
}

/// HTML escaping of a whole string: each character replaced by
/// `escape_char`, in order.
pub open spec fn escaped(s: Seq<char>) -> Seq<char>
    decreases s.len(),
{
    if s.len() == 0 {
        Seq::empty()
    } else {
        escaped(s.drop_last()) + escape_char(s.last())
    }
}

/// The markup of the static prompt page: a form that posts `name` to `/greet`.
pub open spec fn prompt_page() -> Seq<char> {
    "<!DOCTYPE html><html><head><title>Greeter</title></head><body><form action=\"/greet\" method=\"post\"><label for=\"name\">Name:</label> <input type=\"text\" id=\"name\" name=\"name\"> <button type=\"submit\">Greet</button></form></body></html>"@
}

/// The markup of the greeting page for a given (already escaped) name.
pub open spec fn greet_page(name: Seq<char>) -> Seq<char> {
    "<!DOCTYPE html><html><head><title>Greeting</title></head><body><p>Hello, "@
        + escaped(name)
        + "!</p></body></html>"@
}

/// An error produced when a view cannot be rendered, carrying a detail
/// message for the diagnostic response body.
#[derive(Debug)]
pub struct RenderError {
    pub detail: String,
}

/// A view that renders itself to HTML. `rendered` is the page the view
/// stands for; `render` produces exactly that page. Rendering of these
/// embedded templates cannot fail; the error arm of the result exists so
/// that a render outcome can be adapted into a response uniformly.
pub trait Template {
    /// The HTML this view renders to.
    spec fn rendered(&self) -> Seq<char>;

    /// Renders the view.
    fn render(&self) -> (r: Result<String, RenderError>)
        ensures
            r is Ok,
            r->Ok_0@ == self.rendered(),
    ;
}

/// The view of the static prompt page.
#[derive(Debug)]
pub struct Prompt;

/// The view of the greeting page: one attribute, the name to greet.
#[derive(Debug)]
pub struct Greet {
    pub name: String,
}

impl Template for Prompt {
    open spec fn rendered(&self) -> Seq<char> {
        prompt_page()
    }

    fn render(&self) -> (r: Result<String, RenderError>) {
        Ok(String::from_str(
            "<!DOCTYPE html><html><head><title>Greeter</title></head><body><form action=\"/greet\" method=\"post\"><label for=\"name\">Name:</label> <input type=\"text\" id=\"name\" name=\"name\"> <button type=\"submit\">Greet</button></form></body></html>",
        ))
    }
}

impl Template for Greet {
    open spec fn rendered(&self) -> Seq<char> {
        greet_page(self.name@)
    }

    fn render(&self) -> (r: Result<String, RenderError>) {
        let mut out = String::from_str(
            "<!DOCTYPE html><html><head><title>Greeting</title></head><body><p>Hello, ",
        );
        escape_into(self.name.as_str(), &mut out);
        out.append("!</p></body></html>");
        proof {
            assert(out@ =~= self.rendered());
        }
        Ok(out)
    }
}

/// Relies on String::push: appends the given character to the end of the string.
#[verifier::external_body]
fn push_char(s: &mut String, c: char)
    ensures
        final(s)@ == old(s)@ + seq![c],
{
    s.push(c);
}

/// Appends the HTML-escaped form of `s` onto `out`.
fn escape_into(s: &str, out: &mut String)
    ensures
        final(out)@ == old(out)@ + escaped(s@),
{
    let n: usize = s.unicode_len();
    let mut i: usize = 0;
    while i < n
        invariant
            n == s@.len(),
            i <= n,
            out@ == old(out)@ + escaped(s@.take(i as int)),
        decreases n - i,
    {
        let c = s.get_char(i);
        if c == '&' {
            out.append("&amp;");
        } else if c == '<' {
            out.append("&lt;");
        } else if c == '>' {
            out.append("&gt;");
        } else if c == '"' {
            out.append("&quot;");
        } else if c == '\'' {
            out.append("&#x27;");
        } else {
            push_char(out, c);
        }
        proof {
            assert(s@.take(i as int + 1).drop_last() =~= s@.take(i as int));
            assert(s@.take(i as int + 1).last() == s@[i as int]);
            assert(escaped(s@.take(i as int + 1)) == escaped(s@.take(i as int)) + escape_char(
                s@[i as int],
            ));
            assert(out@ =~= old(out)@ + escaped(s@.take(i as int + 1)));
        }
        i = i + 1;
    }
    proof {
        assert(s@.take(n as int) =~= s@);
    }
}

/// Escaped output never holds a raw `<` or `>`: whatever name is
/// substituted into the greeting page, it cannot introduce markup.
pub proof fn lemma_escaped_no_markup(s: Seq<char>)
    ensures
        forall|i: int|
            0 <= i < escaped(s).len() ==> escaped(s)[i] != '<' && escaped(s)[i] != '>',
    decreases s.len(),
{
    reveal_strlit("&amp;");
    reveal_strlit("&lt;");
    reveal_strlit("&gt;");
    reveal_strlit("&quot;");
    reveal_strlit("&#x27;");
    if s.len() == 0 {
    } else {
        lemma_escaped_no_markup(s.drop_last());
        let c = s.last();
        let head = escaped(s.drop_last());
        let tail = escape_char(c);
        assert(escaped(s) == head + tail);
        assert forall|i: int| 0 <= i < tail.len() implies tail[i] != '<' && tail[i] != '>' by {
            if c != '&' && c != '<' && c != '>' && c != '"' && c != '\'' {
                assert(tail == seq![c]);
            }
        }
        assert forall|i: int|
            0 <= i < escaped(s).len() implies escaped(s)[i] != '<' && escaped(s)[i] != '>' by {
            if i < head.len() {
                assert(escaped(s)[i] == head[i]);
            } else {
                assert(escaped(s)[i] == tail[i - head.len()]);
            }
        }
    }
}

/// Rendering is a function of the view alone: two greeting views with the
/// same name render to the same page, so rendering twice is idempotent.
pub proof fn lemma_greet_render_deterministic(a: &Greet, b: &Greet)
    requires
        a.name@ == b.name@,
    ensures
        a.rendered() == b.rendered(),
{
}

} // verus!
