//! Small helpers of the pages that show the catalog.

use pulldown_cmark::{html, Options, Parser};
use vstd::prelude::*;
use vstd::string::*;

verus! {

/// What can go wrong on a page.
#[derive(Debug, Clone, PartialEq, Eq)]
pub enum FrontErr {
    Message(String),
}

impl FrontErr {
    /// The failure in words.
    pub fn message(&self) -> (r: String)
        ensures
            self matches FrontErr::Message(m) && r@ == "Error: "@ + m@,
    {
        match self {
            FrontErr::Message(m) => {
                let mut r = String::from_str("Error: ");
                r.append(m.as_str());
                r
            },
        }
    }
}

/// The style that puts the image `image_name` behind an element.
pub fn background(image_name: &str) -> (r: String)
    ensures
        r@ == "background-image: url(/static/"@ + image_name@ + ")"@,
{
    let mut r = String::from_str("background-image: url(/static/");
    r.append(image_name);
    r.append(")");
    r
}

/// The HTML that the markdown renderer makes of a text, with strikethrough
/// enabled and no other extension.
pub uninterp spec fn rendered_html(markdown: Seq<char>) -> Seq<char>;

/// Renders markdown as HTML.
///
/// Calls `pulldown_cmark::html::push_html` on a `pulldown_cmark::Parser` made
/// by `Parser::new_ext` with the option `ENABLE_STRIKETHROUGH`. Nothing is
/// proved of it. What is taken on trust is that the HTML depends on the text
/// alone, which is all that `rendered_html` says.
#[verifier::external_body]
pub fn markdown_to_html(markdown_str: &str) -> (html_output: String)
    ensures
        html_output@ == rendered_html(markdown_str@),
{
    let mut options = Options::empty();
    options.insert(Options::ENABLE_STRIKETHROUGH);
    let parser = Parser::new_ext(markdown_str, options);
    let mut html_output: String = String::new();
    html::push_html(&mut html_output, parser);
    html_output
}

} // verus!
