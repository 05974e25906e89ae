//! `get_page_by_url`: deciding how to fetch the page a pasted URL names.

use vstd::prelude::*;
use crate::text::{starts_with, chars_of, string_of, extend_str, has_prefix};
use crate::outside::opt_view;
use crate::confluence_core::url_parse::{parse_confluence_url, parse_url_text};
use crate::server::format::PageInfo;
use crate::server::handler::{title_not_found, title_not_found_spec};
use crate::server::tools::get_page::format_spec;

verus! {

broadcast use vstd::string::group_string_axioms;

/// How to fetch the page a URL names.
#[derive(Debug)]
pub enum UrlResolution {
    /// By page id.
    ById(String),
    /// By space key and exact title.
    BySpaceTitle { space: String, title: String },
    /// A tiny link (`/x/...`), which needs the server to resolve; holds the URL.
    TinyUrl(String),
    /// Nothing recognisable.
    Unparseable,
}

/// The mathematical content of a [`UrlResolution`].
pub enum UrlResolutionView {
    ById(Seq<char>),
    BySpaceTitle { space: Seq<char>, title: Seq<char> },
    TinyUrl(Seq<char>),
    Unparseable,
}

impl View for UrlResolution {
    type V = UrlResolutionView;

    open spec fn view(&self) -> UrlResolutionView {
        match self {
            UrlResolution::ById(s) => UrlResolutionView::ById(s@),
            UrlResolution::BySpaceTitle { space, title } => UrlResolutionView::BySpaceTitle {
                space: space@,
                title: title@,
            },
            UrlResolution::TinyUrl(s) => UrlResolutionView::TinyUrl(s@),
            UrlResolution::Unparseable => UrlResolutionView::Unparseable,
        }
    }
}

/// A recognised page id wins (a `tinyurl:` id means a tiny link); otherwise a space key
/// with a title; otherwise nothing.
pub open spec fn resolve_spec(url: Seq<char>) -> UrlResolutionView {
    let p = parse_url_text(url);
    match p.page_id {
        Some(id) => if starts_with(id, "tinyurl:"@) {
            UrlResolutionView::TinyUrl(url)
        } else {
            UrlResolutionView::ById(id)
        },
        None => match (p.space_key, p.title) {
            (Some(s), Some(t)) => UrlResolutionView::BySpaceTitle { space: s, title: t },
            _ => UrlResolutionView::Unparseable,
        },
    }
}

/// Decides how to fetch the page a URL names (see [`resolve_spec`]).
pub fn resolve(url: &str) -> (r: UrlResolution)
    ensures
        r@ == resolve_spec(url@),
{
    let p = parse_confluence_url(url);
    if let Some(id) = p.page_id {
        let c = chars_of(id.as_str());
        let tiny = chars_of("tinyurl:");
        if has_prefix(&c, &tiny) {
            return UrlResolution::TinyUrl(url.to_string());
        }
        return UrlResolution::ById(id);
    }
    match (p.space_key, p.title) {
        (Some(s), Some(t)) => UrlResolution::BySpaceTitle { space: s, title: t },
        _ => UrlResolution::Unparseable,
    }
}

/// The notice for a URL of no supported shape.
pub open spec fn unparseable_spec(url: Seq<char>) -> Seq<char> {
    "❌ Could not parse the Confluence URL: "@ + url
        + "\n\nSupported formats:\n- http://confluence/pages/viewpage.action?pageId=12345\n- http://confluence/display/SPACEKEY/Page+Title\n- http://confluence/spaces/SPACEKEY/pages/12345/Title\n\nTry using get_page(page_id) or get_page_by_title(space_key, title) directly."@
}

/// Renders the notice for a URL of no supported shape (see [`unparseable_spec`]).
pub fn format_unparseable(url: &str) -> (r: String)
    ensures
        r@ == unparseable_spec(url@),
{
    let mut out = chars_of("❌ Could not parse the Confluence URL: ");
    extend_str(&mut out, url);
    extend_str(
        &mut out,
        "\n\nSupported formats:\n- http://confluence/pages/viewpage.action?pageId=12345\n- http://confluence/display/SPACEKEY/Page+Title\n- http://confluence/spaces/SPACEKEY/pages/12345/Title\n\nTry using get_page(page_id) or get_page_by_title(space_key, title) directly.",
    );
    string_of(&out)
}

/// The notice for a tiny link.
pub open spec fn tiny_url_spec() -> Seq<char> {
    "❌ Tiny URLs (/x/...) need server-side resolution.\nTry opening the link in a browser first to get the full URL, then paste that instead."@
}

/// Renders the notice for a tiny link.
pub fn format_tiny_url() -> (r: String)
    ensures
        r@ == tiny_url_spec(),
{
    "❌ Tiny URLs (/x/...) need server-side resolution.\nTry opening the link in a browser first to get the full URL, then paste that instead.".to_string()
}

/// The answer to a lookup by space and title: the first page found, with its body, or
/// the notice that the space has no page with that title.
pub fn format_title_lookup(
    pages: &Vec<PageInfo>,
    space: &str,
    title: &str,
    body_format: &str,
    fallback_base: &str,
    max_len: usize,
) -> (r: String)
    ensures
        r@ == if pages@.len() == 0 {
            title_not_found_spec(space@, title@)
        } else {
            format_spec(pages@[0], body_format@, true, fallback_base@, max_len as nat)
        },
{
    if pages.len() == 0 {
        title_not_found(space, title)
    } else {
        crate::server::tools::get_page::format(&pages[0], body_format, true, fallback_base, max_len)
    }
}

} // verus!
