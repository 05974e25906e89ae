//! PAC (Proxy Auto-Config) / WPAD: recognising a PAC URL, and choosing a proxy from the
//! list a PAC script answers.
//!
//! Evaluating the script is the operating system's job and lives with the application;
//! this module holds the decisions around it.

use vstd::prelude::*;
use crate::text::{
    starts_with, ends_with, has_char, trim, split, Separator, ascii_lower_seq,
    eq_ignore_ascii_case, chars_of, string_of, extend, slice, trim_exec, has_prefix,
    has_suffix, has_char_exec, split_exec, ascii_lower_vec, same_chars,
    eq_ignore_ascii_case_exec,
};
use crate::outside::{UrlParts, opt_view, pair_view, url_parses, url_scheme, url_path, url_host,
    url_port, url_query_pairs, parse_url};
use crate::confluence_core::system_proxy::{ensure_scheme_spec, ensure_scheme, opt_vec_view};

verus! {

broadcast use vstd::string::group_string_axioms;

/// Sentinel proxy value: resolve the proxy by WPAD (Web Proxy Auto-Discovery) instead of
/// a fixed PAC URL.
pub const WPAD_SENTINEL: &'static str = "__wpad__";

/// The text names a PAC script or asks for WPAD: the sentinel, or an `http`, `https` or
/// `file` URL whose path (ignoring ASCII case) ends in `.pac` or `wpad.dat`.
pub open spec fn looks_like_pac_url_spec(raw: Seq<char>) -> bool {
    let s = trim(raw);
    if s.len() == 0 {
        false
    } else if s == "__wpad__"@ {
        true
    } else if !url_parses(s) {
        false
    } else if !(url_scheme(s) == "http"@ || url_scheme(s) == "https"@ || url_scheme(s)
        == "file"@) {
        false
    } else {
        let path = ascii_lower_seq(url_path(s));
        ends_with(path, ".pac"@) || ends_with(path, "/wpad.dat"@) || ends_with(path, "wpad.dat"@)
    }
}

/// Heuristic: does this look like a PAC/WPAD URL rather than a static proxy? A static
/// proxy is `http://host:port` with no path; a PAC URL names a `.pac` file or the WPAD
/// standard `wpad.dat`.
pub fn looks_like_pac_url(raw: &str) -> (b: bool)
    ensures
        b == looks_like_pac_url_spec(raw@),
{
    let chars = chars_of(raw);
    let s = trim_exec(&chars);
    if s.len() == 0 {
        return false;
    }
    let sentinel = chars_of(WPAD_SENTINEL);
    proof {
        reveal_strlit("__wpad__");
    }
    if same_chars(&s, &sentinel) {
        return true;
    }
    let text = string_of(&s);
    let parts = match parse_url(text.as_str()) {
        Some(p) => p,
        None => return false,
    };
    let scheme = chars_of(parts.scheme.as_str());
    let http = chars_of("http");
    let https = chars_of("https");
    let file = chars_of("file");
    if !(same_chars(&scheme, &http) || same_chars(&scheme, &https) || same_chars(&scheme, &file)) {
        return false;
    }
    let raw_path = chars_of(parts.path.as_str());
    let path = ascii_lower_vec(&raw_path);
    let pac = chars_of(".pac");
    let wpad1 = chars_of("/wpad.dat");
    let wpad2 = chars_of("wpad.dat");
    has_suffix(&path, &pac) || has_suffix(&path, &wpad1) || has_suffix(&path, &wpad2)
}

/// The first `https=`, `http=` and plain (no `=`) entries among the pieces, skipping
/// empty pieces; the scheme values are trimmed after the `=`.
pub open spec fn pac_entries(segs: Seq<Seq<char>>) -> (
    Option<Seq<char>>,
    Option<Seq<char>>,
    Option<Seq<char>>,
)
    decreases segs.len(),
{
    if segs.len() == 0 {
        (None, None, None)
    } else {
        let prev = pac_entries(segs.drop_last());
        let s = trim(segs.last());
        if s.len() == 0 {
            prev
        } else if starts_with(s, "https="@) {
            (
                if prev.0 is None {
                    Some(trim(s.skip("https="@.len() as int)))
                } else {
                    prev.0
                },
                prev.1,
                prev.2,
            )
        } else if starts_with(s, "http="@) {
            (
                prev.0,
                if prev.1 is None {
                    Some(trim(s.skip("http="@.len() as int)))
                } else {
                    prev.1
                },
                prev.2,
            )
        } else if !has_char(s, '=') && prev.2 is None {
            (prev.0, prev.1, Some(s))
        } else {
            prev
        }
    }
}

/// The entry a PAC answer list offers for a target scheme: for `https` (any ASCII case)
/// the `https=` entry, else the plain one, else `http=`; for other schemes `http=`, else
/// plain, else `https=`.
pub open spec fn pac_choice(list: Seq<char>, target_scheme: Seq<char>) -> Option<Seq<char>> {
    let e = pac_entries(split(list, Separator::SemicolonOrSpace));
    if eq_ignore_ascii_case(target_scheme, "https"@) {
        if e.0 is Some {
            e.0
        } else if e.2 is Some {
            e.2
        } else {
            e.1
        }
    } else {
        if e.1 is Some {
            e.1
        } else if e.2 is Some {
            e.2
        } else {
            e.0
        }
    }
}

fn pac_entry_kind(s: &Vec<char>) -> (r: (Option<Vec<char>>, Option<Vec<char>>, bool))
    ensures
        s@.len() > 0 && starts_with(s@, "https="@) ==> opt_vec_view(r.0) == Some(
            trim(s@.skip("https="@.len() as int)),
        ) && r.1 is None && !r.2,
        s@.len() > 0 && !starts_with(s@, "https="@) && starts_with(s@, "http="@) ==> r.0 is None
            && opt_vec_view(r.1) == Some(trim(s@.skip("http="@.len() as int))) && !r.2,
        s@.len() > 0 && !starts_with(s@, "https="@) && !starts_with(s@, "http="@) ==> r.0 is None
            && r.1 is None && r.2 == !has_char(s@, '='),
        s@.len() == 0 ==> r.0 is None && r.1 is None && !r.2,
{
    if s.len() == 0 {
        return (None, None, false);
    }
    let https = chars_of("https=");
    let http = chars_of("http=");
    if has_prefix(s, &https) {
        let rest = slice(s, https.len(), s.len());
        assert(rest@ =~= s@.skip(https@.len() as int));
        return (Some(trim_exec(&rest)), None, false);
    }
    if has_prefix(s, &http) {
        let rest = slice(s, http.len(), s.len());
        assert(rest@ =~= s@.skip(http@.len() as int));
        return (None, Some(trim_exec(&rest)), false);
    }
    (None, None, !has_char_exec(s, '='))
}

fn choice_exec(list: &Vec<char>, target_scheme: &str) -> (r: Option<Vec<char>>)
    ensures
        opt_vec_view(r) == pac_choice(list@, target_scheme@),
{
    let segs = split_exec(list, Separator::SemicolonOrSpace);
    let ghost sv = segs@.map_values(|p: Vec<char>| p@);
    let mut https_val: Option<Vec<char>> = None;
    let mut http_val: Option<Vec<char>> = None;
    let mut plain: Option<Vec<char>> = None;
    let n = segs.len();
    for i in 0..n
        invariant
            n == segs@.len(),
            sv == segs@.map_values(|p: Vec<char>| p@),
            pac_entries(sv.take(i as int)) == (
                opt_vec_view(https_val),
                opt_vec_view(http_val),
                opt_vec_view(plain),
            ),
    {
        let s = trim_exec(&segs[i]);
        assert(sv.take(i + 1).drop_last() =~= sv.take(i as int));
        assert(sv.take(i + 1).last() == segs@[i as int]@);
        let (a, b, is_plain) = pac_entry_kind(&s);
        if a.is_some() {
            if https_val.is_none() {
                https_val = a;
            }
        } else if b.is_some() {
            if http_val.is_none() {
                http_val = b;
            }
        } else if is_plain && plain.is_none() {
            plain = Some(s);
        }
    }
    assert(sv.take(n as int) =~= sv);
    let scheme = chars_of(target_scheme);
    let https = chars_of("https");
    if eq_ignore_ascii_case_exec(&scheme, &https) {
        if https_val.is_some() {
            https_val
        } else if plain.is_some() {
            plain
        } else {
            http_val
        }
    } else {
        if http_val.is_some() {
            http_val
        } else if plain.is_some() {
            plain
        } else {
            https_val
        }
    }
}

/// Picks the proxy for a target from a PAC answer list such as `proxy.corp:3128`,
/// `a:80; b:80` (a fallback chain: the first is preferred) or `http=a:80;https=b:443`
/// (per scheme). Entries are separated by `;` or white space. The chosen `host:port`
/// gets `http://` unless it already has an HTTP(S) scheme, and is parsed as a URL; the
/// result is that URL's text and parts, `None` when no entry fits or the text is no URL.
pub fn choose_proxy(list: &str, target_scheme: &str) -> (r: Option<(String, UrlParts)>)
    ensures
        r is Some <==> (pac_choice(list@, target_scheme@) matches Some(c) && url_parses(
            ensure_scheme_spec(c),
        )),
        r matches Some((text, p)) ==> ({
            let u = ensure_scheme_spec(pac_choice(list@, target_scheme@)->0);
            &&& text@ == u
            &&& p.scheme@ == url_scheme(u)
            &&& opt_view(p.host) == url_host(u)
            &&& p.port == url_port(u)
            &&& p.path@ == url_path(u)
            &&& p.query_pairs@.map_values(|q: (String, String)| pair_view(q)) == url_query_pairs(
                u,
            )
        }),
{
    let chars = chars_of(list);
    let chosen = match choice_exec(&chars, target_scheme) {
        Some(c) => c,
        None => return None,
    };
    let url = string_of(&ensure_scheme(&chosen));
    match parse_url(url.as_str()) {
        Some(parts) => Some((url, parts)),
        None => None,
    }
}

} // verus!
