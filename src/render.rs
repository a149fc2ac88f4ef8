use vstd::prelude::*;

use pulldown_cmark as md;

verus! {

/// The HTML that a Markdown text renders to, with tables, footnotes,
/// strikethrough, task lists, smart punctuation, GitHub blockquote tags,
/// definition lists, superscript and subscript enabled.
pub uninterp spec fn markdown_html(s: Seq<char>) -> Seq<char>;

/// Relies on pulldown_cmark's `Parser::new_ext` and `html::push_html` to
/// render Markdown to HTML with those extensions.
#[verifier::external_body]
fn markdown_to_html(value: &str) -> (r: String)
    ensures
        r@ == markdown_html(value@),
{
    let options = md::Options::ENABLE_TABLES | md::Options::ENABLE_FOOTNOTES
        | md::Options::ENABLE_STRIKETHROUGH | md::Options::ENABLE_TASKLISTS
        | md::Options::ENABLE_SMART_PUNCTUATION | md::Options::ENABLE_GFM
        | md::Options::ENABLE_DEFINITION_LIST | md::Options::ENABLE_SUPERSCRIPT
        | md::Options::ENABLE_SUBSCRIPT;
    let mut output = String::new();
    md::html::push_html(&mut output, md::Parser::new_ext(value, options));
    output
}

/// Renders a Markdown document to HTML.
pub fn render_md(value: &str) -> (r: String)
    ensures
        r@ == markdown_html(value@),
{
    markdown_to_html(value)
}

} // verus!
