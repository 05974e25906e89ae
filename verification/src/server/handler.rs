//! The decisions of the tool handlers: default arguments, which fields a request
//! expands, what is recorded of a call, and the proxy the server falls back to. The
//! handlers themselves (awaiting requests, writing the record) live with the
//! application.

use vstd::prelude::*;
use crate::text::{dec, is_blank, join, chars_of, string_of, extend, extend_str, dec_u64, slice,
    is_blank_exec, str_eq, join_exec};
use crate::outside::opt_view;
use crate::confluence_core::config::Config;

verus! {

broadcast use vstd::string::group_string_axioms;

/// The status recorded for a failed call: the HTTP status, or `error` when there is none.
pub open spec fn error_status_spec(code: u16) -> Seq<char> {
    if code > 0 {
        dec(code as nat)
    } else {
        "error"@
    }
}

/// The status recorded for a failed call (see [`error_status_spec`]).
pub fn error_status(code: u16) -> (s: String)
    ensures
        s@ == error_status_spec(code),
{
    if code > 0 {
        string_of(&dec_u64(code as u64))
    } else {
        "error".to_string()
    }
}

/// Characters of a tool's answer and the estimated tokens (a quarter of them).
pub fn output_size(text: &str) -> (r: (usize, usize))
    ensures
        r.0 == text@.len(),
        r.1 == text@.len() / 4,
{
    let c = chars_of(text);
    (c.len(), c.len() / 4)
}

/// The first 300 characters of an error message, as recorded.
pub fn error_snippet(message: &str) -> (s: String)
    ensures
        s@ == if message@.len() <= 300 {
            message@
        } else {
            message@.take(300)
        },
{
    let c = chars_of(message);
    if c.len() <= 300 {
        return string_of(&c);
    }
    let t = slice(&c, 0, 300);
    assert(c@.subrange(0, 300) =~= c@.take(300));
    string_of(&t)
}

/// A tool's optional limit, or its default.
pub fn limit_or(limit: Option<u32>, default: u32) -> (n: u32)
    ensures
        n == match limit {
            Some(l) => l,
            None => default,
        },
{
    match limit {
        Some(l) => l,
        None => default,
    }
}

/// The search limit: 10 by default, kept within 1..=50.
pub fn search_limit(limit: Option<u32>) -> (n: u32)
    ensures
        ({
            let l = match limit {
                Some(l) => l,
                None => 10,
            };
            n == if l < 1 {
                1
            } else if l > 50 {
                50
            } else {
                l
            }
        }),
{
    let l = limit_or(limit, 10);
    if l < 1 {
        1
    } else if l > 50 {
        50
    } else {
        l
    }
}

/// The `type` filter of `list_spaces`: none for `all` or when absent.
pub fn space_type_filter(space_type: Option<String>) -> (r: Option<String>)
    ensures
        opt_view(r) == match space_type {
            Some(t) => if t@ == "all"@ {
                None
            } else {
                Some(t@)
            },
            None => None,
        },
{
    match space_type {
        Some(t) => if str_eq(t.as_str(), "all") {
            None
        } else {
            Some(t)
        },
        None => None,
    }
}

/// The body representation asked for: `storage` by default.
pub fn body_format_or_default(format: Option<String>) -> (f: String)
    ensures
        f@ == match format {
            Some(s) => s@,
            None => "storage"@,
        },
{
    match format {
        Some(s) => s,
        None => "storage".to_string(),
    }
}

/// The `expand` of `get_page`: version, space, labels and ancestors, and the body in the
/// asked representation when it is wanted.
pub open spec fn get_page_expand_spec(body_format: Seq<char>, include_body: bool) -> Seq<char> {
    if include_body {
        "version,space,metadata.labels,ancestors,body."@ + body_format
    } else {
        "version,space,metadata.labels,ancestors"@
    }
}

/// The `expand` of `get_page` (see [`get_page_expand_spec`]).
pub fn get_page_expand(body_format: &str, include_body: bool) -> (e: String)
    ensures
        e@ == get_page_expand_spec(body_format@, include_body),
{
    let mut v = chars_of("version,space,metadata.labels,ancestors");
    if include_body {
        extend_str(&mut v, ",body.");
        extend_str(&mut v, body_format);
        assert(v@ =~= "version,space,metadata.labels,ancestors"@ + ",body."@ + body_format@);
        proof {
            reveal_strlit("version,space,metadata.labels,ancestors");
            reveal_strlit(",body.");
            reveal_strlit("version,space,metadata.labels,ancestors,body.");
            assert("version,space,metadata.labels,ancestors"@ + ",body."@
                =~= "version,space,metadata.labels,ancestors,body."@);
        }
    }
    string_of(&v)
}

/// The `expand` of `get_page_by_url`: the body in the asked representation, version,
/// space, labels and ancestors.
pub fn page_by_url_expand(body_format: &str) -> (e: String)
    ensures
        e@ == "body."@ + body_format@ + ",version,space,metadata.labels,ancestors"@,
{
    let mut v = chars_of("body.");
    extend_str(&mut v, body_format);
    extend_str(&mut v, ",version,space,metadata.labels,ancestors");
    string_of(&v)
}

/// The notice of `get_page_by_url` when the URL's space has no page with its title.
pub open spec fn title_not_found_spec(space: Seq<char>, title: Seq<char>) -> Seq<char> {
    "No page titled '"@ + title + "' found in space "@ + space
        + ".\nTip: Try search_confluence with: title~\""@ + title + "\" AND space="@ + space
}

/// Renders that notice (see [`title_not_found_spec`]).
pub fn title_not_found(space: &str, title: &str) -> (r: String)
    ensures
        r@ == title_not_found_spec(space@, title@),
{
    let mut out = chars_of("No page titled '");
    extend_str(&mut out, title);
    extend_str(&mut out, "' found in space ");
    extend_str(&mut out, space);
    extend_str(&mut out, ".\nTip: Try search_confluence with: title~\"");
    extend_str(&mut out, title);
    extend_str(&mut out, "\" AND space=");
    extend_str(&mut out, space);
    string_of(&out)
}

/// The server's configuration: when no proxy is configured (unset or blank), the system
/// proxy the browser uses, if any, is taken.
pub fn with_system_proxy(config: Config, system_proxy: Option<String>) -> (c: Config)
    ensures
        c.confluence_url == config.confluence_url,
        c.token == config.token,
        c.username == config.username,
        c.password == config.password,
        c.ssl_verify == config.ssl_verify,
        c.timeout_secs == config.timeout_secs,
        c.rate_limit == config.rate_limit,
        c.max_content_length == config.max_content_length,
        c.ca_bundle == config.ca_bundle,
        c.default_search_limit == config.default_search_limit,
        c.log_level == config.log_level,
        (match config.proxy_url {
            Some(p) => is_blank(p@),
            None => true,
        }) && system_proxy is Some ==> c.proxy_url == system_proxy,
        !((match config.proxy_url {
            Some(p) => is_blank(p@),
            None => true,
        }) && system_proxy is Some) ==> c.proxy_url == config.proxy_url,
{
    let unset = match &config.proxy_url {
        Some(p) => {
            let c = chars_of(p.as_str());
            is_blank_exec(&c)
        },
        None => true,
    };
    if unset && system_proxy.is_some() {
        let mut c = config;
        c.proxy_url = system_proxy;
        c
    } else {
        config
    }
}

} // verus!
