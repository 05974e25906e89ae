//! Pieces shared by the tool renderers: page labels, breadcrumb, link and error text.

use vstd::prelude::*;
use crate::text::{join, chars_of, string_of, extend, extend_str, lemma_join_push};
use crate::outside::opt_view;
use crate::confluence_core::error::{ConfluenceError, error_text};

verus! {

broadcast use vstd::string::group_string_axioms;

/// The fields of a page (as returned by `/rest/api/content`) that the renderers read.
/// Each field is `None` when the answer lacks it or holds something other than the
/// expected kind of value.
#[derive(Debug, Default)]
pub struct PageInfo {
    pub id: Option<String>,
    pub title: Option<String>,
    pub space_name: Option<String>,
    pub space_key: Option<String>,
    pub version: Option<u64>,
    /// One entry per element of `metadata.labels.results`: its `name`, when a string.
    pub label_names: Vec<Option<String>>,
    /// One entry per element of `ancestors`: its `title`, when a string.
    pub ancestor_titles: Vec<Option<String>>,
    /// `_links.base`
    pub link_base: Option<String>,
    /// `_links.webui`
    pub link_webui: Option<String>,
    /// The body's `value` in the representation that was asked for.
    pub body: Option<String>,
}

/// The present entries of a list of optional strings, in order.
pub open spec fn present_names(names: Seq<Option<String>>) -> Seq<Seq<char>>
    decreases names.len(),
{
    if names.len() == 0 {
        seq![]
    } else {
        let p = present_names(names.drop_last());
        match names.last() {
            Some(s) => p.push(s@),
            None => p,
        }
    }
}

/// The value of an optional string, or a default.
pub open spec fn or_text(o: Option<String>, d: Seq<char>) -> Seq<char> {
    match o {
        Some(s) => s@,
        None => d,
    }
}

/// The decimal text of an optional number, or a default.
pub open spec fn or_number(o: Option<u64>, d: Seq<char>) -> Seq<char> {
    match o {
        Some(n) => crate::text::dec(n as nat),
        None => d,
    }
}

/// The label names, comma separated.
pub open spec fn labels_spec(page: PageInfo) -> Seq<char> {
    join(present_names(page.label_names@), ", "@)
}

/// The ancestor titles, joined by arrows.
pub open spec fn ancestors_spec(page: PageInfo) -> Seq<char> {
    join(present_names(page.ancestor_titles@), " → "@)
}

/// The page's web link: its `_links.base` (or the fallback) followed by `_links.webui`;
/// empty without a `webui` link.
pub open spec fn page_url_spec(page: PageInfo, fallback_base: Seq<char>) -> Seq<char> {
    let webui = or_text(page.link_webui, seq![]);
    if webui.len() == 0 {
        seq![]
    } else {
        or_text(page.link_base, fallback_base) + webui
    }
}

/// The value of an optional string, or a default.
pub fn or_text_exec(o: &Option<String>, d: &str) -> (r: Vec<char>)
    ensures
        r@ == or_text(*o, d@),
{
    match o {
        Some(s) => chars_of(s.as_str()),
        None => chars_of(d),
    }
}

/// The value of an optional string, or nothing.
pub fn or_empty_exec(o: &Option<String>) -> (r: Vec<char>)
    ensures
        r@ == or_text(*o, seq![]),
{
    match o {
        Some(s) => chars_of(s.as_str()),
        None => Vec::new(),
    }
}

/// The decimal text of an optional number, or a default.
pub fn or_number_exec(o: Option<u64>, d: &str) -> (r: Vec<char>)
    ensures
        r@ == or_number(o, d@),
{
    match o {
        Some(n) => crate::text::dec_u64(n),
        None => chars_of(d),
    }
}

/// The present names joined by `sep`.
pub fn join_present(names: &Vec<Option<String>>, sep: &str) -> (r: Vec<char>)
    ensures
        r@ == join(present_names(names@), sep@),
{
    let mut out: Vec<char> = Vec::new();
    let ghost mut acc: Seq<Seq<char>> = seq![];
    let mut any = false;
    let n = names.len();
    for i in 0..n
        invariant
            n == names@.len(),
            any == (acc.len() > 0),
            acc == present_names(names@.take(i as int)),
            out@ == join(acc, sep@),
    {
        assert(names@.take(i + 1).drop_last() =~= names@.take(i as int));
        match &names[i] {
            Some(s) => {
                proof {
                    lemma_join_push(acc, sep@, s@);
                }
                if any {
                    extend_str(&mut out, sep);
                }
                extend_str(&mut out, s.as_str());
                any = true;
                proof {
                    acc = acc.push(s@);
                }
            },
            None => {},
        }
    }
    assert(names@.take(n as int) =~= names@);
    out
}

/// The page's label names, comma separated.
pub fn labels_string(page: &PageInfo) -> (r: String)
    ensures
        r@ == labels_spec(*page),
{
    string_of(&join_present(&page.label_names, ", "))
}

/// The page's ancestor titles, joined by ` → `.
pub fn ancestors_string(page: &PageInfo) -> (r: String)
    ensures
        r@ == ancestors_spec(*page),
{
    string_of(&join_present(&page.ancestor_titles, " → "))
}

/// The page's web link (see [`page_url_spec`]).
pub fn page_url(page: &PageInfo, fallback_base: &str) -> (r: String)
    ensures
        r@ == page_url_spec(*page, fallback_base@),
{
    let webui = or_text_exec(&page.link_webui, "");
    proof {
        reveal_strlit("");
        assert(""@ =~= Seq::<char>::empty());
    }
    if webui.len() == 0 {
        return String::new();
    }
    let mut out = or_text_exec(&page.link_base, fallback_base);
    extend(&mut out, &webui);
    string_of(&out)
}

/// The tool answer for a failed call: a cross mark and the error's text.
pub open spec fn error_response_spec(err: ConfluenceError) -> Seq<char> {
    "❌ "@ + error_text(err)
}

/// The tool answer for a failed call, such as
/// `❌ Confluence API error (HTTP 404): Not found`.
pub fn error_response(err: &ConfluenceError) -> (r: String)
    ensures
        r@ == error_response_spec(*err),
{
    let mut out = chars_of("❌ ");
    let t = err.to_message();
    extend_str(&mut out, t.as_str());
    string_of(&out)
}

} // verus!
