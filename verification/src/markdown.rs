use vstd::prelude::*;

verus! {

/// The HTML that the markdown renderer produces for the given markdown
/// text. The rendering is a fixed function of the text alone; its exact
/// value is not specified here.
pub uninterp spec fn html_of(md: Seq<char>) -> Seq<char>;

/// Relies on pulldown-cmark (`Parser::new_ext` with every extension
/// enabled, then `html::push_html`): the rendered HTML depends on the
/// markdown text alone, and embedded HTML passes through unescaped.
#[verifier::external_body]
pub fn markdown_to_html(md: &str) -> (r: String)
    ensures
        r@ == html_of(md@),
{
    let mut out = String::new();
    let parser = pulldown_cmark::Parser::new_ext(md, pulldown_cmark::Options::all());
    pulldown_cmark::html::push_html(&mut out, parser);
    out
}

} // verus!
