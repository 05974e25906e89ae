//! Recognising the page a Confluence URL points at.
//!
//! Supported shapes (after an optional `/wiki` or `/confluence` context prefix):
//! `?pageId=N`, `/display/SPACE/Title`, `/spaces/SPACE/pages/N[/Title]`, `/x/TINY`,
//! `/pages/N`, and, as a fallback, any `/NNNN...` segment of four or more digits.

use vstd::prelude::*;
use crate::text::{
    starts_with, has_char, replace_all, trim, is_digit, chars_of, string_of, extend, slice,
    has_prefix, has_char_exec, str_eq, replace_all_exec, trim_exec, find_from, find_from_exec,
    lemma_find_from_bound, is_ws, lemma_trim_clean_ends,
};
use crate::outside::{
    UrlParts, opt_view, pair_view, percent_decoded, percent_decode, url_parses, url_path,
    url_query_pairs, parse_url,
};

verus! {

broadcast use vstd::string::group_string_axioms;

/// What a URL says about the page it names.
#[derive(Debug, Default, PartialEq, Eq)]
pub struct ParsedUrl {
    pub page_id: Option<String>,
    pub space_key: Option<String>,
    pub title: Option<String>,
}

/// The mathematical content of a [`ParsedUrl`].
pub struct ParsedUrlView {
    pub page_id: Option<Seq<char>>,
    pub space_key: Option<Seq<char>>,
    pub title: Option<Seq<char>>,
}

impl View for ParsedUrl {
    type V = ParsedUrlView;

    open spec fn view(&self) -> ParsedUrlView {
        ParsedUrlView {
            page_id: opt_view(self.page_id),
            space_key: opt_view(self.space_key),
            title: opt_view(self.title),
        }
    }
}

/// The empty answer: nothing recognised.
pub open spec fn nothing() -> ParsedUrlView {
    ParsedUrlView { page_id: None, space_key: None, title: None }
}

/// Character classes used by the path patterns.
pub enum CharClass {
    /// Anything but `/`.
    NonSlash,
    /// An ASCII decimal digit (paths of parsed URLs are ASCII, so this is also `\d`).
    Digit,
    /// A letter, digit, `_` or `-` of a tiny-link id.
    TinyId,
}

pub open spec fn in_class(c: char, class: CharClass) -> bool {
    match class {
        CharClass::NonSlash => c != '/',
        CharClass::Digit => is_digit(c),
        CharClass::TinyId => ('a' <= c && c <= 'z') || ('A' <= c && c <= 'Z') || is_digit(c)
            || c == '_' || c == '-',
    }
}

/// End of the longest run of `class` characters starting at `i`.
pub open spec fn run_end(s: Seq<char>, i: int, class: CharClass) -> int
    decreases s.len() - i,
{
    if 0 <= i < s.len() && in_class(s[i], class) {
        run_end(s, i + 1, class)
    } else {
        i
    }
}

/// The value of the first pair whose key is `key`.
pub open spec fn first_value(pairs: Seq<(Seq<char>, Seq<char>)>, key: Seq<char>) -> Option<
    Seq<char>,
>
    decreases pairs.len(),
{
    if pairs.len() == 0 {
        None
    } else if pairs[0].0 == key {
        Some(pairs[0].1)
    } else {
        first_value(pairs.drop_first(), key)
    }
}

/// The path with a leading `/wiki`, then a leading `/confluence`, removed.
pub open spec fn strip_context(path: Seq<char>) -> Seq<char> {
    let p1 = if starts_with(path, "/wiki"@) {
        path.skip("/wiki"@.len() as int)
    } else {
        path
    };
    if starts_with(p1, "/confluence"@) {
        p1.skip("/confluence"@.len() as int)
    } else {
        p1
    }
}

/// `^/display/([^/]+)/(.+?)(?:\?.*)?$`: the space key and the raw title.
pub open spec fn match_display(p: Seq<char>) -> Option<(Seq<char>, Seq<char>)> {
    let pre = "/display/"@;
    if !starts_with(p, pre) {
        None
    } else {
        let e = run_end(p, pre.len() as int, CharClass::NonSlash);
        if e == pre.len() || e >= p.len() {
            None
        } else {
            let rest = p.skip(e + 1);
            if rest.len() == 0 || has_char(rest, '\n') {
                None
            } else {
                Some((p.subrange(pre.len() as int, e), rest.take(find_from(rest, 1, '?'))))
            }
        }
    }
}

/// `^/spaces/([^/]+)/pages/(\d+)(?:/(.+))?$`: space key, page id and optional raw title.
pub open spec fn match_spaces(p: Seq<char>) -> Option<(Seq<char>, Seq<char>, Option<Seq<char>>)> {
    let pre = "/spaces/"@;
    let mid = "/pages/"@;
    if !starts_with(p, pre) {
        None
    } else {
        let e = run_end(p, pre.len() as int, CharClass::NonSlash);
        if e == pre.len() || !starts_with(p.skip(e), mid) {
            None
        } else {
            let d0 = e + mid.len();
            let d1 = run_end(p, d0, CharClass::Digit);
            let space = p.subrange(pre.len() as int, e);
            let id = p.subrange(d0, d1);
            if d1 == d0 {
                None
            } else if d1 == p.len() {
                Some((space, id, None))
            } else if p[d1] == '/' && d1 + 1 < p.len() && !has_char(p.skip(d1 + 1), '\n') {
                Some((space, id, Some(p.skip(d1 + 1))))
            } else {
                None
            }
        }
    }
}

/// `^/x/([A-Za-z0-9_-]+)`: the tiny-link id.
pub open spec fn match_tiny(p: Seq<char>) -> Option<Seq<char>> {
    let pre = "/x/"@;
    if !starts_with(p, pre) {
        None
    } else {
        let t = run_end(p, pre.len() as int, CharClass::TinyId);
        if t == pre.len() {
            None
        } else {
            Some(p.subrange(pre.len() as int, t))
        }
    }
}

/// `^/pages/(\d+)`: the page id.
pub open spec fn match_pages(p: Seq<char>) -> Option<Seq<char>> {
    let pre = "/pages/"@;
    if !starts_with(p, pre) {
        None
    } else {
        let d = run_end(p, pre.len() as int, CharClass::Digit);
        if d == pre.len() {
            None
        } else {
            Some(p.subrange(pre.len() as int, d))
        }
    }
}

/// The leftmost `/(\d{4,})` at or after `i`: the digits.
pub open spec fn match_numeric_from(p: Seq<char>, i: int) -> Option<Seq<char>>
    decreases p.len() - i,
{
    if i < 0 || i >= p.len() {
        None
    } else if p[i] == '/' && run_end(p, i + 1, CharClass::Digit) >= i + 5 {
        Some(p.subrange(i + 1, run_end(p, i + 1, CharClass::Digit)))
    } else {
        match_numeric_from(p, i + 1)
    }
}

/// `+` turned into space, then percent-decoded; the undecoded text when decoding fails.
pub open spec fn decode_title(raw: Seq<char>) -> Seq<char> {
    let with_spaces = replace_all(raw, "+"@, " "@);
    match percent_decoded(with_spaces) {
        Some(d) => d,
        None => with_spaces,
    }
}

/// What a URL with the given path and query pairs says about its page.
pub open spec fn parse_parts(path: Seq<char>, pairs: Seq<(Seq<char>, Seq<char>)>) -> ParsedUrlView {
    match first_value(pairs, "pageId"@) {
        Some(v) => ParsedUrlView { page_id: Some(v), space_key: None, title: None },
        None => {
            let p = strip_context(path);
            match match_display(p) {
                Some((space, raw)) => ParsedUrlView {
                    page_id: None,
                    space_key: Some(space),
                    title: Some(decode_title(raw)),
                },
                None => match match_spaces(p) {
                    Some((space, id, raw)) => ParsedUrlView {
                        page_id: Some(id),
                        space_key: Some(space),
                        title: match raw {
                            Some(r) => Some(decode_title(r)),
                            None => None,
                        },
                    },
                    None => match match_tiny(p) {
                        Some(id) => ParsedUrlView {
                            page_id: Some("tinyurl:"@ + id),
                            space_key: None,
                            title: None,
                        },
                        None => match match_pages(p) {
                            Some(id) => ParsedUrlView {
                                page_id: Some(id),
                                space_key: None,
                                title: None,
                            },
                            None => match match_numeric_from(p, 0) {
                                Some(id) => ParsedUrlView {
                                    page_id: Some(id),
                                    space_key: None,
                                    title: None,
                                },
                                None => nothing(),
                            },
                        },
                    },
                },
            }
        },
    }
}

/// What the URL text (trimmed; a bare path is read against a dummy host) says.
pub open spec fn parse_url_text(input: Seq<char>) -> ParsedUrlView {
    let t = trim(input);
    let alt = "http://dummy"@ + t;
    if url_parses(t) {
        parse_parts(url_path(t), url_query_pairs(t))
    } else if url_parses(alt) {
        parse_parts(url_path(alt), url_query_pairs(alt))
    } else {
        nothing()
    }
}

// ---------------------------------------------------------------------------
// Executable matching
// ---------------------------------------------------------------------------

proof fn lemma_run_end(s: Seq<char>, i: int, class: CharClass)
    requires
        0 <= i <= s.len(),
    ensures
        i <= run_end(s, i, class) <= s.len(),
        forall|k: int| i <= k < run_end(s, i, class) ==> in_class(#[trigger] s[k], class),
        run_end(s, i, class) < s.len() ==> !in_class(s[run_end(s, i, class)], class),
    decreases s.len() - i,
{
    if i < s.len() && in_class(s[i], class) {
        lemma_run_end(s, i + 1, class);
    }
}

fn class_has(c: char, class: &CharClass) -> (b: bool)
    ensures
        b == in_class(c, *class),
{
    match class {
        CharClass::NonSlash => c != '/',
        CharClass::Digit => '0' <= c && c <= '9',
        CharClass::TinyId => ('a' <= c && c <= 'z') || ('A' <= c && c <= 'Z') || ('0' <= c && c
            <= '9') || c == '_' || c == '-',
    }
}

fn run_end_exec(s: &Vec<char>, i: usize, class: CharClass) -> (r: usize)
    requires
        i <= s@.len(),
    ensures
        r as int == run_end(s@, i as int, class),
{
    let mut j = i;
    let n = s.len();
    while j < n && class_has(s[j], &class)
        invariant
            i <= j <= n,
            n == s@.len(),
            run_end(s@, i as int, class) == run_end(s@, j as int, class),
        decreases n - j,
    {
        j = j + 1;
    }
    j
}

fn first_value_exec(pairs: &Vec<(String, String)>, key: &str) -> (r: Option<String>)
    ensures
        opt_view(r) == first_value(pairs@.map_values(|p: (String, String)| pair_view(p)), key@),
{
    let ghost m = pairs@.map_values(|p: (String, String)| pair_view(p));
    let n = pairs.len();
    assert(m.skip(0) =~= m);
    for i in 0..n
        invariant
            n == pairs@.len(),
            m == pairs@.map_values(|p: (String, String)| pair_view(p)),
            first_value(m, key@) == first_value(m.skip(i as int), key@),
    {
        let ghost rest = m.skip(i as int);
        assert(rest[0] == pair_view(pairs@[i as int]));
        assert(rest.drop_first() =~= m.skip(i + 1));
        if str_eq(pairs[i].0.as_str(), key) {
            return Some(pairs[i].1.clone());
        }
    }
    assert(m.skip(n as int) =~= Seq::<(Seq<char>, Seq<char>)>::empty());
    None
}

fn strip_context_exec(path: &Vec<char>) -> (r: Vec<char>)
    ensures
        r@ == strip_context(path@),
{
    let wiki = chars_of("/wiki");
    let conf = chars_of("/confluence");
    let p1 = if has_prefix(path, &wiki) {
        slice(path, wiki.len(), path.len())
    } else {
        slice(path, 0, path.len())
    };
    assert(path@.subrange(0, path@.len() as int) =~= path@);
    assert(path@.subrange(wiki@.len() as int, path@.len() as int) =~= path@.skip(
        wiki@.len() as int,
    ));
    if has_prefix(&p1, &conf) {
        assert(p1@.subrange(conf@.len() as int, p1@.len() as int) =~= p1@.skip(
            conf@.len() as int,
        ));
        slice(&p1, conf.len(), p1.len())
    } else {
        p1
    }
}

fn match_display_exec(p: &Vec<char>) -> (r: Option<(Vec<char>, Vec<char>)>)
    ensures
        match r {
            Some((a, b)) => match_display(p@) == Some((a@, b@)),
            None => match_display(p@) is None,
        },
{
    let pre = chars_of("/display/");
    if !has_prefix(p, &pre) {
        return None;
    }
    let e = run_end_exec(p, pre.len(), CharClass::NonSlash);
    proof {
        lemma_run_end(p@, pre@.len() as int, CharClass::NonSlash);
    }
    if e == pre.len() || e >= p.len() {
        return None;
    }
    let rest = slice(p, e + 1, p.len());
    assert(rest@ =~= p@.skip(e + 1));
    if rest.len() == 0 || has_char_exec(&rest, '\n') {
        return None;
    }
    let q = find_from_exec(&rest, 1, '?');
    proof {
        assert(find_from(rest@, 1, '?') <= rest@.len()) by {
            lemma_find_from_bound(rest@, 1, '?');
        }
    }
    let space = slice(p, pre.len(), e);
    let title = slice(&rest, 0, q);
    assert(title@ =~= rest@.take(q as int));
    Some((space, title))
}

fn match_spaces_exec(p: &Vec<char>) -> (r: Option<(Vec<char>, Vec<char>, Option<Vec<char>>)>)
    ensures
        match r {
            Some((a, b, Some(c))) => match_spaces(p@) == Some((a@, b@, Some(c@))),
            Some((a, b, None)) => match_spaces(p@) == Some((a@, b@, None::<Seq<char>>)),
            None => match_spaces(p@) is None,
        },
{
    let pre = chars_of("/spaces/");
    let mid = chars_of("/pages/");
    if !has_prefix(p, &pre) {
        return None;
    }
    let e = run_end_exec(p, pre.len(), CharClass::NonSlash);
    proof {
        lemma_run_end(p@, pre@.len() as int, CharClass::NonSlash);
    }
    if e == pre.len() {
        return None;
    }
    let tail = slice(p, e, p.len());
    assert(tail@ =~= p@.skip(e as int));
    if !has_prefix(&tail, &mid) {
        return None;
    }
    let d0 = e + mid.len();
    let d1 = run_end_exec(p, d0, CharClass::Digit);
    proof {
        lemma_run_end(p@, d0 as int, CharClass::Digit);
    }
    if d1 == d0 {
        return None;
    }
    let space = slice(p, pre.len(), e);
    let id = slice(p, d0, d1);
    if d1 == p.len() {
        return Some((space, id, None));
    }
    if p[d1] == '/' && d1 + 1 < p.len() {
        let title = slice(p, d1 + 1, p.len());
        assert(title@ =~= p@.skip(d1 + 1));
        if !has_char_exec(&title, '\n') {
            return Some((space, id, Some(title)));
        }
    }
    None
}

fn match_tiny_exec(p: &Vec<char>) -> (r: Option<Vec<char>>)
    ensures
        match r {
            Some(a) => match_tiny(p@) == Some(a@),
            None => match_tiny(p@) is None,
        },
{
    let pre = chars_of("/x/");
    if !has_prefix(p, &pre) {
        return None;
    }
    let t = run_end_exec(p, pre.len(), CharClass::TinyId);
    proof {
        lemma_run_end(p@, pre@.len() as int, CharClass::TinyId);
    }
    if t == pre.len() {
        return None;
    }
    Some(slice(p, pre.len(), t))
}

fn match_pages_exec(p: &Vec<char>) -> (r: Option<Vec<char>>)
    ensures
        match r {
            Some(a) => match_pages(p@) == Some(a@),
            None => match_pages(p@) is None,
        },
{
    let pre = chars_of("/pages/");
    if !has_prefix(p, &pre) {
        return None;
    }
    let d = run_end_exec(p, pre.len(), CharClass::Digit);
    proof {
        lemma_run_end(p@, pre@.len() as int, CharClass::Digit);
    }
    if d == pre.len() {
        return None;
    }
    Some(slice(p, pre.len(), d))
}

fn match_numeric_exec(p: &Vec<char>) -> (r: Option<Vec<char>>)
    ensures
        match r {
            Some(a) => match_numeric_from(p@, 0) == Some(a@),
            None => match_numeric_from(p@, 0) is None,
        },
{
    let n = p.len();
    for i in 0..n
        invariant
            n == p@.len(),
            match_numeric_from(p@, 0) == match_numeric_from(p@, i as int),
    {
        if p[i] == '/' {
            let d = run_end_exec(p, i + 1, CharClass::Digit);
            proof {
                lemma_run_end(p@, i + 1, CharClass::Digit);
            }
            if d - i >= 5 {
                return Some(slice(p, i + 1, d));
            }
        }
    }
    None
}

/// `+` turned into space, then percent-decoded (the undecoded text when the decoded
/// bytes are not UTF-8).
pub fn decode_title_exec(raw: &Vec<char>) -> (r: String)
    ensures
        r@ == decode_title(raw@),
{
    let plus = chars_of("+");
    let space = chars_of(" ");
    proof {
        reveal_strlit("+");
    }
    let with_spaces = replace_all_exec(raw, &plus, &space);
    let s = string_of(&with_spaces);
    match percent_decode(s.as_str()) {
        Some(d) => d,
        None => s,
    }
}

/// What a parsed URL says about its page: a `pageId` query parameter wins; otherwise the
/// path (without a `/wiki` or `/confluence` context prefix) is matched against the
/// supported shapes in order.
pub fn parse_inner(parsed: &UrlParts) -> (out: ParsedUrl)
    ensures
        out@ == parse_parts(
            parsed.path@,
            parsed.query_pairs@.map_values(|p: (String, String)| pair_view(p)),
        ),
{
    if let Some(v) = first_value_exec(&parsed.query_pairs, "pageId") {
        return ParsedUrl { page_id: Some(v), space_key: None, title: None };
    }
    let path = chars_of(parsed.path.as_str());
    let p = strip_context_exec(&path);
    if let Some((space, raw)) = match_display_exec(&p) {
        return ParsedUrl {
            page_id: None,
            space_key: Some(string_of(&space)),
            title: Some(decode_title_exec(&raw)),
        };
    }
    if let Some((space, id, raw)) = match_spaces_exec(&p) {
        let title = match raw {
            Some(r) => Some(decode_title_exec(&r)),
            None => None,
        };
        return ParsedUrl { page_id: Some(string_of(&id)), space_key: Some(string_of(&space)), title };
    }
    if let Some(id) = match_tiny_exec(&p) {
        let mut full = chars_of("tinyurl:");
        extend(&mut full, &id);
        return ParsedUrl { page_id: Some(string_of(&full)), space_key: None, title: None };
    }
    if let Some(id) = match_pages_exec(&p) {
        return ParsedUrl { page_id: Some(string_of(&id)), space_key: None, title: None };
    }
    if let Some(id) = match_numeric_exec(&p) {
        return ParsedUrl { page_id: Some(string_of(&id)), space_key: None, title: None };
    }
    ParsedUrl { page_id: None, space_key: None, title: None }
}

/// Reads a Confluence page URL (full, or a bare path such as `/display/DEV/Page`) and
/// says which page it names. Text that is no URL at all gives the empty answer.
pub fn parse_confluence_url(input: &str) -> (out: ParsedUrl)
    ensures
        out@ == parse_url_text(input@),
{
    let chars = chars_of(input);
    let t = trim_exec(&chars);
    let ts = string_of(&t);
    if let Some(parts) = parse_url(ts.as_str()) {
        return parse_inner(&parts);
    }
    let mut alt = chars_of("http://dummy");
    extend(&mut alt, &t);
    let alts = string_of(&alt);
    if let Some(parts) = parse_url(alts.as_str()) {
        return parse_inner(&parts);
    }
    ParsedUrl { page_id: None, space_key: None, title: None }
}

// ---------------------------------------------------------------------------
// Laws
// ---------------------------------------------------------------------------

proof fn lemma_prefix_concat(a: Seq<char>, q: Seq<char>)
    ensures
        starts_with(a + q, a),
        (a + q).skip(a.len() as int) == q,
{
    assert((a + q).take(a.len() as int) =~= a);
    assert((a + q).skip(a.len() as int) =~= q);
}

/// A `/wiki` context prefix in front of a path does not change what the URL names.
pub proof fn law_wiki_prefix_ignored(q: Seq<char>, pairs: Seq<(Seq<char>, Seq<char>)>)
    requires
        !starts_with(q, "/wiki"@),
    ensures
        parse_parts("/wiki"@ + q, pairs) == parse_parts(q, pairs),
{
    lemma_prefix_concat("/wiki"@, q);
    assert(strip_context("/wiki"@ + q) == strip_context(q));
}

/// A `/confluence` context prefix in front of a path does not change what the URL names.
pub proof fn law_confluence_prefix_ignored(q: Seq<char>, pairs: Seq<(Seq<char>, Seq<char>)>)
    requires
        !starts_with(q, "/wiki"@),
        !starts_with(q, "/confluence"@),
    ensures
        parse_parts("/confluence"@ + q, pairs) == parse_parts(q, pairs),
{
    reveal_strlit("/wiki");
    reveal_strlit("/confluence");
    lemma_prefix_concat("/confluence"@, q);
    let c = "/confluence"@ + q;
    assert(c[1] == 'c');
    assert(!starts_with(c, "/wiki"@)) by {
        if starts_with(c, "/wiki"@) {
            assert(c.take(5)[1] == "/wiki"@[1]);
        }
    }
    assert(strip_context(c) == strip_context(q));
}

/// A `pageId` query parameter decides the answer whatever the path says.
pub proof fn law_page_id_query_wins(
    path: Seq<char>,
    pairs: Seq<(Seq<char>, Seq<char>)>,
    v: Seq<char>,
)
    requires
        first_value(pairs, "pageId"@) == Some(v),
    ensures
        parse_parts(path, pairs) == (ParsedUrlView { page_id: Some(v), space_key: None, title: None }),
{
}

/// A bare path names the page that the same path names on a host: for a path `p`
/// (starting with `/`, without surrounding white space) that is no URL by itself, reading
/// `p` gives what reading `http://dummy` followed by `p` gives, whenever that is a URL.
pub proof fn law_bare_path_read_on_a_host(p: Seq<char>)
    requires
        p.len() > 0,
        p[0] == '/',
        !is_ws(p.last()),
        !url_parses(p),
        url_parses("http://dummy"@ + p),
    ensures
        parse_url_text(p) == parse_url_text("http://dummy"@ + p),
{
    reveal_strlit("http://dummy");
    lemma_trim_clean_ends(p);
    let x = "http://dummy"@ + p;
    assert(x[0] == 'h');
    assert(x.last() == p.last());
    lemma_trim_clean_ends(x);
}

} // verus!
