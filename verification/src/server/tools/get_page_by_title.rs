//! `get_page_by_title`: a page found by its exact title within a space.

use vstd::prelude::*;
use crate::text::{chars_of, string_of, extend, extend_str};
use crate::server::format::{
    PageInfo, or_text, or_number, or_text_exec, or_number_exec, labels_spec, labels_string,
    ancestors_spec, ancestors_string, page_url_spec, page_url,
};
use crate::confluence_core::format::{truncate, truncate_spec};

verus! {

broadcast use vstd::string::group_string_axioms;

/// The notice when no page has that title, with a search to try instead.
pub open spec fn not_found_spec(space_key: Seq<char>, title: Seq<char>) -> Seq<char> {
    "No page titled '"@ + title + "' found in space "@ + space_key
        + ".\nTip: titles are case-sensitive and must be exact. Try search_confluence with: title~\""@
        + title + "\" AND space="@ + space_key
}

/// Renders the not-found notice (see [`not_found_spec`]).
pub fn format_not_found(space_key: &str, title: &str) -> (r: String)
    ensures
        r@ == not_found_spec(space_key@, title@),
{
    let mut out = chars_of("No page titled '");
    extend_str(&mut out, title);
    extend_str(&mut out, "' found in space ");
    extend_str(&mut out, space_key);
    extend_str(
        &mut out,
        ".\nTip: titles are case-sensitive and must be exact. Try search_confluence with: title~\"",
    );
    extend_str(&mut out, title);
    extend_str(&mut out, "\" AND space=");
    extend_str(&mut out, space_key);
    string_of(&out)
}

/// The found page: a header with title, id, space and version, labels, breadcrumb and
/// link when present, then a rule and the storage body capped at `max_len` characters.
pub open spec fn found_spec(
    page: PageInfo,
    space_key: Seq<char>,
    fallback_base: Seq<char>,
    max_len: nat,
) -> Seq<char> {
    let title = or_text(page.title, "?"@);
    let h = "# "@ + title + "\n"@ + "ID: "@ + or_text(page.id, "?"@) + " | Space: "@ + or_text(
        page.space_name,
        seq![],
    ) + " ("@ + space_key + ") | Version: "@ + or_number(page.version, seq![]) + "\n"@;
    let labels = labels_spec(page);
    let h2 = if labels.len() > 0 {
        h + "Labels: "@ + labels + "\n"@
    } else {
        h
    };
    let ancestors = ancestors_spec(page);
    let h3 = if ancestors.len() > 0 {
        h2 + "Path: "@ + ancestors + " → "@ + title + "\n"@
    } else {
        h2
    };
    let url = page_url_spec(page, fallback_base);
    let h4 = if url.len() > 0 {
        h3 + "URL: "@ + url + "\n"@
    } else {
        h3
    };
    h4 + "\n---\n\n"@ + truncate_spec(or_text(page.body, seq![]), max_len)
}

/// Renders the found page (see [`found_spec`]); the page's body is its storage
/// representation.
pub fn format_found(page: &PageInfo, space_key: &str, fallback_base: &str, max_len: usize) -> (r:
    String)
    ensures
        r@ == found_spec(*page, space_key@, fallback_base@, max_len as nat),
{
    let title = or_text_exec(&page.title, "?");
    let mut h = chars_of("# ");
    extend(&mut h, &title);
    extend_str(&mut h, "\n");
    extend_str(&mut h, "ID: ");
    extend(&mut h, &or_text_exec(&page.id, "?"));
    extend_str(&mut h, " | Space: ");
    extend(&mut h, &crate::server::format::or_empty_exec(&page.space_name));
    extend_str(&mut h, " (");
    extend_str(&mut h, space_key);
    extend_str(&mut h, ") | Version: ");
    let version = match page.version {
        Some(n) => crate::text::dec_u64(n),
        None => Vec::new(),
    };
    extend(&mut h, &version);
    extend_str(&mut h, "\n");
    let labels = chars_of(labels_string(page).as_str());
    if labels.len() > 0 {
        extend_str(&mut h, "Labels: ");
        extend(&mut h, &labels);
        extend_str(&mut h, "\n");
    }
    let ancestors = chars_of(ancestors_string(page).as_str());
    if ancestors.len() > 0 {
        extend_str(&mut h, "Path: ");
        extend(&mut h, &ancestors);
        extend_str(&mut h, " → ");
        extend(&mut h, &title);
        extend_str(&mut h, "\n");
    }
    let url = chars_of(page_url(page, fallback_base).as_str());
    if url.len() > 0 {
        extend_str(&mut h, "URL: ");
        extend(&mut h, &url);
        extend_str(&mut h, "\n");
    }
    let body = match &page.body {
        Some(b) => b.clone(),
        None => String::new(),
    };
    let capped = truncate(body.as_str(), max_len);
    extend_str(&mut h, "\n---\n\n");
    extend_str(&mut h, capped.as_str());
    string_of(&h)
}

} // verus!
