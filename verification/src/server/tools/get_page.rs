//! `get_page`: one page, with its metadata header and (optionally) its body.

use vstd::prelude::*;
use crate::text::{chars_of, string_of, extend, extend_str, str_eq, dec};
use crate::server::format::{
    PageInfo, or_text, or_number, or_text_exec, or_number_exec, labels_spec, labels_string,
    ancestors_spec, ancestors_string, page_url_spec, page_url,
};
use crate::confluence_core::format::{strip_html, strip_html_spec, truncate, truncate_spec};

verus! {

broadcast use vstd::string::group_string_axioms;

/// The header: title, space and version, then labels, breadcrumb and link when present.
pub open spec fn header_spec(page: PageInfo, fallback_base: Seq<char>) -> Seq<char> {
    let title = or_text(page.title, "?"@);
    let h = "# "@ + title + "\n"@ + "Space: "@ + or_text(page.space_name, seq![]) + " ("@
        + or_text(page.space_key, seq![]) + ") | Version: "@ + or_number(page.version, seq![])
        + "\n"@;
    let labels = labels_spec(page);
    let h2 = if labels.len() > 0 {
        h + "Labels: "@ + labels + "\n"@
    } else {
        h
    };
    let ancestors = ancestors_spec(page);
    let h3 = if ancestors.len() > 0 {
        h2 + "Path: "@ + ancestors + " → "@ + title + "\n"@
    } else {
        h2
    };
    let url = page_url_spec(page, fallback_base);
    if url.len() > 0 {
        h3 + "URL: "@ + url + "\n"@
    } else {
        h3
    }
}

/// The page: the header alone, or the header, a rule and the body (markup stripped for
/// the `view` representation), capped at `max_len` characters.
pub open spec fn format_spec(
    page: PageInfo,
    body_format: Seq<char>,
    include_body: bool,
    fallback_base: Seq<char>,
    max_len: nat,
) -> Seq<char> {
    let header = header_spec(page, fallback_base);
    if !include_body {
        header
    } else {
        let raw = or_text(page.body, seq![]);
        let body = if body_format == "view"@ {
            strip_html_spec(raw)
        } else {
            raw
        };
        header + "\n---\n\n"@ + truncate_spec(body, max_len)
    }
}

/// Renders the page header (see [`header_spec`]).
pub fn header(page: &PageInfo, fallback_base: &str) -> (r: Vec<char>)
    ensures
        r@ == header_spec(*page, fallback_base@),
{
    let title = or_text_exec(&page.title, "?");
    let mut h = chars_of("# ");
    extend(&mut h, &title);
    extend_str(&mut h, "\n");
    extend_str(&mut h, "Space: ");
    extend(&mut h, &crate::server::format::or_empty_exec(&page.space_name));
    extend_str(&mut h, " (");
    extend(&mut h, &crate::server::format::or_empty_exec(&page.space_key));
    extend_str(&mut h, ") | Version: ");
    let version = match page.version {
        Some(n) => crate::text::dec_u64(n),
        None => Vec::new(),
    };
    extend(&mut h, &version);
    extend_str(&mut h, "\n");
    let labels = chars_of(labels_string(page).as_str());
    if labels.len() > 0 {
        extend_str(&mut h, "Labels: ");
        extend(&mut h, &labels);
        extend_str(&mut h, "\n");
    }
    let ancestors = chars_of(ancestors_string(page).as_str());
    if ancestors.len() > 0 {
        extend_str(&mut h, "Path: ");
        extend(&mut h, &ancestors);
        extend_str(&mut h, " → ");
        extend(&mut h, &title);
        extend_str(&mut h, "\n");
    }
    let url = chars_of(page_url(page, fallback_base).as_str());
    if url.len() > 0 {
        extend_str(&mut h, "URL: ");
        extend(&mut h, &url);
        extend_str(&mut h, "\n");
    }
    h
}

/// Renders a page (see [`format_spec`]).
pub fn format(
    page: &PageInfo,
    body_format: &str,
    include_body: bool,
    fallback_base: &str,
    max_len: usize,
) -> (r: String)
    ensures
        r@ == format_spec(*page, body_format@, include_body, fallback_base@, max_len as nat),
{
    let mut out = header(page, fallback_base);
    if !include_body {
        return string_of(&out);
    }
    let raw = match &page.body {
        Some(b) => b.clone(),
        None => String::new(),
    };
    let body = if str_eq(body_format, "view") {
        strip_html(raw.as_str())
    } else {
        raw
    };
    let capped = truncate(body.as_str(), max_len);
    extend_str(&mut out, "\n---\n\n");
    extend_str(&mut out, capped.as_str());
    string_of(&out)
}

/// A page rendered with its body is the header, the rule, then the body capped at
/// `max_len` characters: the whole body when it fits; otherwise its first `max_len`
/// characters followed by `\n\n... [truncated — N chars total]`, `N` being the body's
/// full length.
pub proof fn law_body_is_capped(
    page: PageInfo,
    body_format: Seq<char>,
    fallback_base: Seq<char>,
    max_len: nat,
)
    ensures
        ({
            let r = format_spec(page, body_format, true, fallback_base, max_len);
            let lead = header_spec(page, fallback_base) + "\n---\n\n"@;
            let raw = or_text(page.body, seq![]);
            let body = if body_format == "view"@ {
                strip_html_spec(raw)
            } else {
                raw
            };
            &&& lead.len() <= r.len()
            &&& r.take(lead.len() as int) == lead
            &&& body.len() <= max_len ==> r.skip(lead.len() as int) == body
            &&& body.len() > max_len ==> r.skip(lead.len() as int) == body.take(max_len as int)
                + "\n\n... [truncated — "@ + dec(body.len()) + " chars total]"@
        }),
{
    let r = format_spec(page, body_format, true, fallback_base, max_len);
    let lead = header_spec(page, fallback_base) + "\n---\n\n"@;
    let raw = or_text(page.body, seq![]);
    let body = if body_format == "view"@ {
        strip_html_spec(raw)
    } else {
        raw
    };
    let capped = truncate_spec(body, max_len);
    assert(r == lead + capped);
    assert(r.take(lead.len() as int) =~= lead);
    assert(r.skip(lead.len() as int) =~= capped);
    if body.len() > max_len {
        assert(capped =~= body.take(max_len as int) + ("\n\n... [truncated — "@ + dec(body.len())
            + " chars total]"@));
        assert(body.take(max_len as int) + ("\n\n... [truncated — "@ + dec(body.len())
            + " chars total]"@) =~= body.take(max_len as int) + "\n\n... [truncated — "@ + dec(
            body.len(),
        ) + " chars total]"@);
    }
}

} // verus!
