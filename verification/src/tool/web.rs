//! The web tool: what it fetches, and the text it takes from a page.

use vstd::prelude::*;
use crate::util::text::{join, joined, texts};

verus! {

/// Fetches a page and answers with the text of its body.
#[derive(Debug, Clone, Copy, Default)]
pub struct WebFetchTool;

/// What the web tool does with its arguments.
#[derive(Debug)]
pub enum WebPlan {
    /// Nothing to fetch: answer with this text.
    Usage(String),
    /// Fetch the page under this address.
    Fetch { url: String },
}

/// The texts of the text nodes below the first element of a page that a
/// selector matches, in document order, as `scraper` finds them; nothing
/// where the selector is malformed or matches no element.
pub uninterp spec fn selected_texts(html: Seq<char>, selector: Seq<char>) -> Option<Seq<Seq<char>>>;

/// `scraper`: `Html::parse_document` reads the page, `Selector::parse` the
/// selector, `Html::select` finds the elements that match, and
/// `ElementRef::text` walks the text nodes below the first of them. The
/// result is a function of the page and the selector alone.
#[verifier::external_body]
fn select_texts(html: &str, selector: &str) -> (r: Option<Vec<String>>)
    ensures
        match r {
            Some(pieces) => selected_texts(html@, selector@) == Some(texts(pieces@)),
            None => selected_texts(html@, selector@) is None,
        },
{
    let document = scraper::Html::parse_document(html);
    let parsed = scraper::Selector::parse(selector).ok()?;
    let element = document.select(&parsed).next()?;
    Some(element.text().map(|piece| piece.to_string()).collect())
}

impl WebFetchTool {
    /// The tool's name.
    pub fn name(&self) -> (r: &'static str)
        ensures
            r@ == "web_fetch"@,
    {
        "web_fetch"
    }

    /// A sentence on what the tool does.
    pub fn description(&self) -> (r: &'static str)
        ensures
            r@ == "Fetches the content of a URL and returns the text content of the body."@,
    {
        "Fetches the content of a URL and returns the text content of the body."
    }

    /// What to do with the arguments: fetch the page that the one argument
    /// names; with any other number of arguments, answer with the usage
    /// line.
    pub fn plan(&self, args: &[String]) -> (r: WebPlan)
        ensures
            match r {
                WebPlan::Usage(text) => args@.len() != 1 && text@ == "Usage: web_fetch <url>"@,
                WebPlan::Fetch { url } => args@.len() == 1 && url@ == args@[0]@,
            },
    {
        if args.len() != 1 {
            return WebPlan::Usage("Usage: web_fetch <url>".to_owned());
        }
        WebPlan::Fetch { url: args[0].clone() }
    }

    /// The text of a page from the texts found in its body: the texts, a
    /// line break between them.
    pub fn body_text(&self, pieces: &[String]) -> (r: String)
        ensures
            r@ == joined(texts(pieces@), "\n"@),
    {
        join(pieces, "\n")
    }

    /// The text of a fetched page: the text nodes of its body, a line
    /// break between them; nothing where the page has no body.
    pub fn render(&self, html: &str) -> (r: Option<String>)
        ensures
            match selected_texts(html@, "body"@) {
                Some(pieces) => r matches Some(text) && text@ == joined(pieces, "\n"@),
                None => r is None,
            },
    {
        match select_texts(html, "body") {
            Some(pieces) => Some(self.body_text(pieces.as_slice())),
            None => None,
        }
    }
}

} // verus!
