//! What the configurator's commands decide: the texts they answer with, the settings
//! they build from the wizard's fields, and the checks they make. Reading files, talking
//! to Confluence, walking processes and the clipboard are the application's part.

use vstd::prelude::*;
use crate::text::{
    contains, occurs_at, has_char, replace_all, trim, ascii_lower_seq, join, chars_of, string_of,
    extend, extend_str, has_infix, has_char_exec, replace_all_exec, trim_exec, ascii_lower_vec,
    same_chars, join_exec, starts_with, has_prefix,
};
use crate::outside::{lowercase_of, to_lowercase, parse_url, opt_view, path_parent, ends_in_component,
    plain_path, parent_text};
use crate::text::{is_blank, trim_end_char, dec, dec_int, utf8_len, eq_ignore_ascii_case, is_blank_exec,
    trim_end_char_exec, dec_u64, dec_i64, utf8_len_exec, eq_ignore_ascii_case_exec};
use crate::configurator::stats::{HistoryRow, ErrorRow};
use crate::confluence_core::config::Config;
use crate::confluence_core::system_proxy::{Detected, display_spec};
use crate::configurator::claude_config::{ConfluenceEntry, ExistingConfig};

verus! {

broadcast use vstd::string::group_string_axioms;

// ---------------------------------------------------------------------------
// Markdown escaping
// ---------------------------------------------------------------------------

/// The text with each `|` escaped as `\|`, so that it cannot break a Markdown table.
pub open spec fn esc_md_spec(s: Seq<char>) -> Seq<char> {
    replace_all(s, seq!['|'], seq!['\\', '|'])
}

/// Escapes `|` for a Markdown table cell (see [`esc_md_spec`]).
pub fn esc_md(s: &str) -> (r: String)
    ensures
        r@ == esc_md_spec(s@),
{
    let c = chars_of(s);
    let from = vec!['|'];
    let to = vec!['\\', '|'];
    let out = replace_all_exec(&c, &from, &to);
    assert(from@ =~= seq!['|']);
    assert(to@ =~= seq!['\\', '|']);
    string_of(&out)
}

/// Every `|` of the text is directly preceded by a `\`.
pub open spec fn pipes_escaped(t: Seq<char>) -> bool {
    forall|i: int| 0 <= i < t.len() && #[trigger] t[i] == '|' ==> i > 0 && t[i - 1] == '\\'
}

/// Escaping leaves no bare `|`, so a cell can never split a Markdown table row.
pub proof fn law_esc_md_no_bare_pipe(s: Seq<char>)
    ensures
        pipes_escaped(esc_md_spec(s)),
    decreases s.len(),
{
    let from = seq!['|'];
    let to = seq!['\\', '|'];
    let out = esc_md_spec(s);
    if s.len() >= 1 {
        law_esc_md_no_bare_pipe(s.skip(1));
        let x = esc_md_spec(s.skip(1));
        if s.take(1) == from {
            assert(out == to + x);
            assert forall|i: int| 0 <= i < out.len() && #[trigger] out[i] == '|' implies i > 0
                && out[i - 1] == '\\' by {
                if i >= 2 {
                    assert(out[i] == x[i - 2]);
                    if i >= 3 {
                        assert(out[i - 1] == x[i - 3]);
                    }
                }
            }
        } else {
            assert(s[0] != '|') by {
                if s[0] == '|' {
                    assert(s.take(1) =~= from);
                }
            }
            assert(out == seq![s[0]] + x);
            assert forall|i: int| 0 <= i < out.len() && #[trigger] out[i] == '|' implies i > 0
                && out[i - 1] == '\\' by {
                if i >= 1 {
                    assert(out[i] == x[i - 1]);
                    if i >= 2 {
                        assert(out[i - 1] == x[i - 2]);
                    }
                }
            }
        }
    }
}

// ---------------------------------------------------------------------------
// Hosts that an outward proxy cannot reach
// ---------------------------------------------------------------------------

/// An IP address, as std's parser reads it from a host name.
#[derive(Debug, Clone, Copy, PartialEq, Eq, Structural)]
pub enum IpAddress {
    V4(u8, u8, u8, u8),
    V6(u16, u16, u16, u16, u16, u16, u16, u16),
}

/// Private (10/8, 172.16/12, 192.168/16), loopback (127/8), link-local (169.254/16) or
/// unspecified IPv4; loopback (`::1`) or unspecified (`::`) IPv6.
pub open spec fn ip_is_private_or_local(ip: IpAddress) -> bool {
    match ip {
        IpAddress::V4(a, b, c, d) => {
            ||| a == 10
            ||| (a == 172 && 16 <= b < 32)
            ||| (a == 192 && b == 168)
            ||| a == 127
            ||| (a == 169 && b == 254)
            ||| (a == 0 && b == 0 && c == 0 && d == 0)
        },
        IpAddress::V6(a, b, c, d, e, f, g, h) => {
            &&& a == 0 && b == 0 && c == 0 && d == 0 && e == 0 && f == 0 && g == 0
            &&& (h == 0 || h == 1)
        },
    }
}

/// A host that outward-facing HTTP proxies usually cannot route to: a private or local
/// address when the host is an IP address, else `localhost` or a name without a dot.
pub open spec fn host_is_private_or_local(host: Seq<char>, ip: Option<IpAddress>) -> bool {
    match ip {
        Some(a) => ip_is_private_or_local(a),
        None => {
            let h = ascii_lower_seq(host);
            h == "localhost"@ || !has_char(h, '.')
        },
    }
}

/// Whether a host is private or local (see [`host_is_private_or_local`]). `ip` is the
/// host read as an IP address, when it is one; the caller parses it.
pub fn is_private_or_local_host(host: &str, ip: Option<IpAddress>) -> (r: bool)
    ensures
        r == host_is_private_or_local(host@, ip),
{
    match ip {
        Some(IpAddress::V4(a, b, c, d)) => {
            a == 10 || (a == 172 && 16 <= b && b < 32) || (a == 192 && b == 168) || a == 127 || (
            a == 169 && b == 254) || (a == 0 && b == 0 && c == 0 && d == 0)
        },
        Some(IpAddress::V6(a, b, c, d, e, f, g, h)) => {
            a == 0 && b == 0 && c == 0 && d == 0 && e == 0 && f == 0 && g == 0 && (h == 0 || h
                == 1)
        },
        None => {
            let h = ascii_lower_vec(&chars_of(host));
            let local = chars_of("localhost");
            proof {
                reveal_strlit("localhost");
            }
            same_chars(&h, &local) || !has_char_exec(&h, '.')
        },
    }
}

/// The host of a URL, as `url::Url` reads the trimmed text; `None` when it does not parse
/// or has no host.
pub open spec fn url_host_spec(s: Seq<char>) -> Option<Seq<char>> {
    if crate::outside::url_parses(trim(s)) {
        crate::outside::url_host(trim(s))
    } else {
        None
    }
}

/// The host of a URL (see [`url_host_spec`]).
pub fn url_host(s: &str) -> (r: Option<String>)
    ensures
        crate::outside::opt_view(r) == url_host_spec(s@),
{
    let t = string_of(&trim_exec(&chars_of(s)));
    match parse_url(t.as_str()) {
        Some(p) => p.host,
        None => None,
    }
}

// ---------------------------------------------------------------------------
// Opening links
// ---------------------------------------------------------------------------

/// Only `http://` and `https://` links may be opened; any other is refused with a message.
pub open spec fn external_url_check(url: Seq<char>) -> Result<(), Seq<char>> {
    if starts_with(url, "http://"@) || starts_with(url, "https://"@) {
        Ok(())
    } else {
        Err("Refusing to open non-http(s) URL: "@ + url)
    }
}

/// Checks that a link may be opened (see [`external_url_check`]).
pub fn check_external_url(url: &str) -> (r: Result<(), String>)
    ensures
        match r {
            Ok(()) => external_url_check(url@) == Ok::<(), Seq<char>>(()),
            Err(m) => external_url_check(url@) == Err::<(), Seq<char>>(m@),
        },
{
    let c = chars_of(url);
    if has_prefix(&c, &chars_of("http://")) || has_prefix(&c, &chars_of("https://")) {
        Ok(())
    } else {
        let mut m = chars_of("Refusing to open non-http(s) URL: ");
        extend(&mut m, &c);
        Err(string_of(&m))
    }
}

// ---------------------------------------------------------------------------
// Error chains
// ---------------------------------------------------------------------------

/// The messages of an error and its sources, each source's message dropped when the
/// message kept before it already contains it.
pub open spec fn chain_parts(top: Seq<char>, sources: Seq<Seq<char>>) -> Seq<Seq<char>>
    decreases sources.len(),
{
    if sources.len() == 0 {
        seq![top]
    } else {
        let prev = chain_parts(top, sources.drop_last());
        if contains(prev.last(), sources.last()) {
            prev
        } else {
            prev.push(sources.last())
        }
    }
}

/// The hints that the lower-cased chain text calls for, in order.
pub open spec fn chain_hints(lower: Seq<char>) -> Seq<Seq<char>> {
    let timeout: Seq<Seq<char>> = if contains(lower, "timed out"@) || contains(lower, "timeout"@) {
        seq![
            "Connection timed out — check the URL and that you're on VPN if the server is internal."@
        ]
    } else {
        seq![]
    };
    let cert: Seq<Seq<char>> = if contains(lower, "invalid"@) && contains(lower, "certificate"@) {
        seq!["CA bundle invalid — re-check the path, and confirm the file is PEM-encoded."@]
    } else {
        seq![]
    };
    let dns: Seq<Seq<char>> = if contains(lower, "dns error"@) || contains(lower, "failed to lookup"@) {
        seq!["DNS lookup failed — the hostname isn't resolving. Check spelling and DNS/VPN."@]
    } else {
        seq![]
    };
    timeout + cert + dns
}

/// The chain joined with ` → `, followed by its hints when there are any.
pub open spec fn error_chain_spec(top: Seq<char>, sources: Seq<Seq<char>>) -> Seq<char> {
    let base = join(chain_parts(top, sources), " → "@);
    let hints = chain_hints(lowercase_of(base));
    if hints.len() == 0 {
        base
    } else {
        base + "\n\nHint:\n- "@ + join(hints, "\n- "@)
    }
}

/// Renders an error with the messages of its sources, so that the real cause shows,
/// and adds hints for time-outs, certificates and name lookups (see
/// [`error_chain_spec`]). `sources` are the messages of the error's sources, nearest
/// first.
pub fn format_error_chain(top: &str, sources: &Vec<String>) -> (r: String)
    ensures
        r@ == error_chain_spec(top@, sources@.map_values(|s: String| s@)),
{
    let ghost sv = sources@.map_values(|s: String| s@);
    let mut parts: Vec<Vec<char>> = Vec::new();
    parts.push(chars_of(top));
    let n = sources.len();
    assert(parts@.map_values(|p: Vec<char>| p@) =~= chain_parts(top@, sv.take(0)));
    for i in 0..n
        invariant
            n == sources@.len(),
            sv == sources@.map_values(|s: String| s@),
            parts@.len() >= 1,
            parts@.map_values(|p: Vec<char>| p@) == chain_parts(top@, sv.take(i as int)),
    {
        let m = chars_of(sources[i].as_str());
        let last = parts.len() - 1;
        let keep = has_infix(&parts[last], &m);
        proof {
            assert(sv.take(i + 1).drop_last() =~= sv.take(i as int));
            assert(sv.take(i + 1).last() == m@);
        }
        if !keep {
            let ghost before = parts@.map_values(|p: Vec<char>| p@);
            parts.push(m);
            assert(parts@.map_values(|p: Vec<char>| p@) =~= before.push(m@));
        }
    }
    assert(sv.take(n as int) =~= sv);
    let base = join_exec(&parts, " → ");
    let base_s = string_of(&base);
    let lower = chars_of(to_lowercase(base_s.as_str()).as_str());
    let mut hints: Vec<Vec<char>> = Vec::new();
    let ghost lw = lower@;
    if has_infix(&lower, &chars_of("timed out")) || has_infix(&lower, &chars_of("timeout")) {
        hints.push(
            chars_of(
                "Connection timed out — check the URL and that you're on VPN if the server is internal.",
            ),
        );
    }
    if has_infix(&lower, &chars_of("invalid")) && has_infix(&lower, &chars_of("certificate")) {
        hints.push(
            chars_of("CA bundle invalid — re-check the path, and confirm the file is PEM-encoded."),
        );
    }
    if has_infix(&lower, &chars_of("dns error")) || has_infix(&lower, &chars_of("failed to lookup")) {
        hints.push(
            chars_of("DNS lookup failed — the hostname isn't resolving. Check spelling and DNS/VPN."),
        );
    }
    assert(hints@.map_values(|p: Vec<char>| p@) =~= chain_hints(lw));
    if hints.len() == 0 {
        base_s
    } else {
        let mut out = base;
        extend_str(&mut out, "\n\nHint:\n- ");
        let hs = join_exec(&hints, "\n- ");
        extend(&mut out, &hs);
        string_of(&out)
    }
}

proof fn lemma_occurs_left(a: Seq<char>, b: Seq<char>, p: Seq<char>, i: int)
    requires
        occurs_at(a, p, i),
    ensures
        occurs_at(a + b, p, i),
{
    assert((a + b).subrange(i, i + p.len()) =~= a.subrange(i, i + p.len()));
}

proof fn lemma_occurs_right(a: Seq<char>, b: Seq<char>, p: Seq<char>, i: int)
    requires
        occurs_at(b, p, i),
    ensures
        occurs_at(a + b, p, i + a.len()),
{
    assert((a + b).subrange(i + a.len(), i + a.len() + p.len()) =~= b.subrange(i, i + p.len()));
}

proof fn lemma_contains_trans(a: Seq<char>, b: Seq<char>, c: Seq<char>)
    requires
        contains(a, b),
        contains(b, c),
    ensures
        contains(a, c),
{
    let i = choose|i: int| occurs_at(a, b, i);
    let j = choose|j: int| occurs_at(b, c, j);
    assert(a.subrange(i + j, i + j + c.len()) =~= b.subrange(j, j + c.len()));
    assert(occurs_at(a, c, i + j));
}

proof fn lemma_contains_self(a: Seq<char>)
    ensures
        contains(a, a),
{
    assert(a.subrange(0, a.len() as int) =~= a);
    assert(occurs_at(a, a, 0));
}

proof fn lemma_join_contains(list: Seq<Seq<char>>, sep: Seq<char>, k: int)
    requires
        0 <= k < list.len(),
    ensures
        contains(join(list, sep), list[k]),
    decreases list.len(),
{
    if list.len() == 1 {
        lemma_contains_self(list[0]);
    } else {
        let init = list.drop_last();
        let j = join(init, sep);
        assert(join(list, sep) == j + sep + list.last());
        if k < list.len() - 1 {
            lemma_join_contains(init, sep, k);
            assert(init[k] == list[k]);
            let i = choose|i: int| occurs_at(j, list[k], i);
            lemma_occurs_left(j, sep, list[k], i);
            lemma_occurs_left(j + sep, list.last(), list[k], i);
        } else {
            lemma_contains_self(list.last());
            let i = choose|i: int| occurs_at(list.last(), list.last(), i);
            lemma_occurs_right(j + sep, list.last(), list.last(), i);
        }
    }
}

/// Some piece of `parts` contains `x`.
spec fn covered(parts: Seq<Seq<char>>, x: Seq<char>) -> bool {
    exists|k: int| 0 <= k < parts.len() && contains(#[trigger] parts[k], x)
}

proof fn lemma_chain_parts_cover(top: Seq<char>, sources: Seq<Seq<char>>)
    ensures
        chain_parts(top, sources).len() >= 1,
        chain_parts(top, sources)[0] == top,
        forall|i: int| 0 <= i < sources.len() ==> covered(chain_parts(top, sources), #[trigger] sources[i]),
    decreases sources.len(),
{
    if sources.len() > 0 {
        let init = sources.drop_last();
        lemma_chain_parts_cover(top, init);
        let prev = chain_parts(top, init);
        let parts = chain_parts(top, sources);
        assert forall|i: int| 0 <= i < sources.len() implies covered(parts, #[trigger] sources[i]) by {
            if i < sources.len() - 1 {
                assert(init[i] == sources[i]);
                assert(covered(prev, init[i]));
                let k = choose|k: int| 0 <= k < prev.len() && contains(#[trigger] prev[k], init[i]);
                assert(parts[k] == prev[k]);
            } else if contains(prev.last(), sources.last()) {
                assert(parts[prev.len() - 1] == prev.last());
            } else {
                lemma_contains_self(sources.last());
                assert(parts[prev.len() as int] == sources.last());
            }
        }
    }
}

/// The rendered chain shows the error's own message and the message of every one of its
/// sources (a source is left out only where the message before it already contains it).
pub proof fn law_error_chain_shows_every_cause(top: Seq<char>, sources: Seq<Seq<char>>)
    ensures
        contains(error_chain_spec(top, sources), top),
        forall|i: int| 0 <= i < sources.len() ==> contains(error_chain_spec(top, sources), #[trigger] sources[i]),
{
    lemma_chain_parts_cover(top, sources);
    let parts = chain_parts(top, sources);
    let base = join(parts, " → "@);
    let out = error_chain_spec(top, sources);
    let hints = chain_hints(lowercase_of(base));
    let tail: Seq<char> = if hints.len() == 0 {
        seq![]
    } else {
        "\n\nHint:\n- "@ + join(hints, "\n- "@)
    };
    assert(out =~= base + tail);
    assert forall|x: Seq<char>| #[trigger] contains(base, x) implies contains(out, x) by {
        let i = choose|i: int| occurs_at(base, x, i);
        lemma_occurs_left(base, tail, x, i);
    }
    lemma_join_contains(parts, " → "@, 0);
    assert forall|i: int| 0 <= i < sources.len() implies contains(out, #[trigger] sources[i]) by {
        assert(covered(parts, sources[i]));
        let k = choose|k: int| 0 <= k < parts.len() && contains(#[trigger] parts[k], sources[i]);
        lemma_join_contains(parts, " → "@, k);
        lemma_contains_trans(base, parts[k], sources[i]);
    }
}

// ---------------------------------------------------------------------------
// Loading the wizard
// ---------------------------------------------------------------------------

/// What the wizard shows when it opens.
#[derive(Debug)]
pub struct LoadedConfig {
    pub config_exists: bool,
    pub confluence_configured: bool,
    pub url: String,
    pub username: String,
    pub password: String,
    pub token: String,
    pub ssl_verify: bool,
    pub install_dir: String,
    pub proxy_url: String,
    /// Proxy text to pre-fill (a static proxy, a PAC URL, or the WPAD sentinel).
    pub detected_proxy_url: String,
    /// Which kind of proxy was detected: `static`, `pac`, `wpad` or empty.
    pub detected_proxy_kind: String,
}

/// An optional text, or the empty text.
pub open spec fn text_or_empty(o: Option<Seq<char>>) -> Seq<char> {
    match o {
        Some(s) => s,
        None => seq![],
    }
}

fn string_or_empty(o: &Option<String>) -> (r: String)
    ensures
        r@ == text_or_empty(opt_view(*o)),
{
    match o {
        Some(s) => s.clone(),
        None => String::new(),
    }
}

/// The folder that holds the installed server, read from the entry's command: the
/// command's parent path, when it has one (always, for a command that ends in a
/// component; see [`ends_in_component`]); for a plain path, the path without its last
/// component (see [`parent_text`]).
pub fn install_dir_of(command: &str) -> (r: Option<String>)
    ensures
        r matches Some(d) ==> d@.len() <= command@.len() && d@ == command@.take(d@.len() as int),
        ends_in_component(command@) ==> r is Some,
        plain_path(command@) ==> opt_view(r) == Some(parent_text(command@)),
{
    path_parent(command)
}

/// The kind of the detected proxy: a PAC script first, then a static proxy, then WPAD.
pub open spec fn proxy_kind_spec(d: Detected) -> Seq<char> {
    if d.pac_url is Some {
        "pac"@
    } else if d.static_proxy is Some {
        "static"@
    } else if d.auto_detect {
        "wpad"@
    } else {
        seq![]
    }
}

/// The kind of the detected proxy (see [`proxy_kind_spec`]).
pub fn detected_proxy_kind(d: &Detected) -> (r: String)
    ensures
        r@ == proxy_kind_spec(*d),
{
    if d.pac_url.is_some() {
        "pac".to_string()
    } else if d.static_proxy.is_some() {
        "static".to_string()
    } else if d.auto_detect {
        "wpad".to_string()
    } else {
        proof {
            reveal_strlit("");
        }
        "".to_string()
    }
}

/// What the wizard shows: the saved entry's fields (empty when absent, TLS verification on
/// when there is no entry), the install folder given, and the detected proxy.
pub fn loaded_config(existing: &ExistingConfig, install_dir: String, detected: &Detected) -> (r:
    LoadedConfig)
    ensures
        r.config_exists == existing.path_exists,
        r.confluence_configured == existing.confluence is Some,
        r.install_dir@ == install_dir@,
        r.detected_proxy_url@ == text_or_empty(display_spec(*detected)),
        r.detected_proxy_kind@ == proxy_kind_spec(*detected),
        match existing.confluence {
            Some(c) => {
                &&& r.url@ == c.url@
                &&& r.username@ == text_or_empty(opt_view(c.username))
                &&& r.password@ == text_or_empty(opt_view(c.password))
                &&& r.token@ == text_or_empty(opt_view(c.token))
                &&& r.ssl_verify == c.ssl_verify
                &&& r.proxy_url@ == text_or_empty(opt_view(c.proxy_url))
            },
            None => {
                &&& r.url@ == Seq::<char>::empty()
                &&& r.username@ == Seq::<char>::empty()
                &&& r.password@ == Seq::<char>::empty()
                &&& r.token@ == Seq::<char>::empty()
                &&& r.ssl_verify
                &&& r.proxy_url@ == Seq::<char>::empty()
            },
        },
{
    let shown = detected.display();
    let detected_proxy_url = string_or_empty(&shown);
    let detected_proxy_kind = detected_proxy_kind(detected);
    match &existing.confluence {
        Some(c) => LoadedConfig {
            config_exists: existing.path_exists,
            confluence_configured: true,
            url: c.url.clone(),
            username: string_or_empty(&c.username),
            password: string_or_empty(&c.password),
            token: string_or_empty(&c.token),
            ssl_verify: c.ssl_verify,
            install_dir,
            proxy_url: string_or_empty(&c.proxy_url),
            detected_proxy_url,
            detected_proxy_kind,
        },
        None => LoadedConfig {
            config_exists: existing.path_exists,
            confluence_configured: false,
            url: String::new(),
            username: String::new(),
            password: String::new(),
            token: String::new(),
            ssl_verify: true,
            install_dir,
            proxy_url: String::new(),
            detected_proxy_url,
            detected_proxy_kind,
        },
    }
}

// ---------------------------------------------------------------------------
// Testing a connection from the wizard
// ---------------------------------------------------------------------------

/// The wizard's fields for a connection test.
#[derive(Debug)]
pub struct TestConnectionArgs {
    pub url: String,
    pub username: String,
    pub password: String,
    pub token: String,
    pub ssl_verify: bool,
    pub proxy_url: String,
}

/// The outcome of a connection test, as the wizard shows it.
#[derive(Debug)]
pub struct TestConnectionResult {
    pub success: bool,
    pub message: String,
}

/// A text when it is not empty.
pub open spec fn nonempty(s: Seq<char>) -> Option<Seq<char>> {
    if s.len() > 0 {
        Some(s)
    } else {
        None
    }
}

/// A proxy field, trimmed, when it is not blank.
pub open spec fn proxy_field(s: Seq<char>) -> Option<Seq<char>> {
    if is_blank(s) {
        None
    } else {
        Some(trim(s))
    }
}

fn nonempty_exec(s: &String) -> (r: Option<String>)
    ensures
        opt_view(r) == nonempty(s@),
{
    if !s.as_str().is_empty() {
        Some(s.clone())
    } else {
        None
    }
}

fn proxy_field_exec(s: &str) -> (r: Option<String>)
    ensures
        opt_view(r) == proxy_field(s@),
{
    let c = chars_of(s);
    if is_blank_exec(&c) {
        None
    } else {
        Some(string_of(&trim_exec(&c)))
    }
}

/// Why the fields cannot be tested yet: no URL, or neither a token nor both username and
/// password.
pub open spec fn precheck_spec(a: TestConnectionArgs) -> Option<Seq<char>> {
    if is_blank(a.url@) {
        Some("Please enter the Confluence URL."@)
    } else if a.token@.len() == 0 && (a.username@.len() == 0 || a.password@.len() == 0) {
        Some("Please enter either a Personal Access Token or both Username and Password."@)
    } else {
        None
    }
}

/// The failed outcome when the fields cannot be tested yet, `None` when they can (see
/// [`precheck_spec`]).
pub fn connection_precheck(args: &TestConnectionArgs) -> (r: Option<TestConnectionResult>)
    ensures
        match r {
            Some(t) => !t.success && precheck_spec(*args) == Some(t.message@),
            None => precheck_spec(*args) is None,
        },
{
    if is_blank_exec(&chars_of(args.url.as_str())) {
        return Some(
            TestConnectionResult {
                success: false,
                message: "Please enter the Confluence URL.".to_string(),
            },
        );
    }
    if args.token.as_str().is_empty() && (args.username.as_str().is_empty()
        || args.password.as_str().is_empty()) {
        return Some(
            TestConnectionResult {
                success: false,
                message: "Please enter either a Personal Access Token or both Username and Password.".to_string(),
            },
        );
    }
    None
}

/// The settings a connection test uses: the URL without trailing slashes, each credential
/// when given, the trimmed proxy when not blank, a 15-second time-out, five requests at
/// once, 50000 characters of content, ten search results, and `WARN` logging.
pub fn config_for_test(args: &TestConnectionArgs) -> (c: Config)
    ensures
        c.confluence_url@ == trim_end_char(args.url@, '/'),
        opt_view(c.username) == nonempty(args.username@),
        opt_view(c.password) == nonempty(args.password@),
        opt_view(c.token) == nonempty(args.token@),
        c.ssl_verify == args.ssl_verify,
        c.ca_bundle is None,
        opt_view(c.proxy_url) == proxy_field(args.proxy_url@),
        c.timeout_secs == 15,
        c.rate_limit == 5,
        c.max_content_length == 50000,
        c.default_search_limit == 10,
        c.log_level@ == "WARN"@,
{
    Config {
        confluence_url: string_of(&trim_end_char_exec(&chars_of(args.url.as_str()), '/')),
        username: nonempty_exec(&args.username),
        password: nonempty_exec(&args.password),
        token: nonempty_exec(&args.token),
        ssl_verify: args.ssl_verify,
        ca_bundle: None,
        proxy_url: proxy_field_exec(args.proxy_url.as_str()),
        timeout_secs: 15,
        rate_limit: 5,
        max_content_length: 50000,
        default_search_limit: 10,
        log_level: "WARN".to_string(),
    }
}

/// The message of a successful test that found `count` spaces.
pub open spec fn connected_spec(count: nat) -> Seq<char> {
    "Connected! Found "@ + dec(count) + " space(s)."@
}

/// The successful outcome of a test that found `count` spaces.
pub fn connected(count: usize) -> (r: TestConnectionResult)
    ensures
        r.success,
        r.message@ == connected_spec(count as nat),
{
    let mut m = chars_of("Connected! Found ");
    extend(&mut m, &dec_u64(count as u64));
    extend_str(&mut m, " space(s).");
    TestConnectionResult { success: true, message: string_of(&m) }
}

/// The hint added when the target is internal and a proxy is set.
pub open spec fn proxy_hint() -> Seq<char> {
    "- The proxy can route to this address — corporate HTTP proxies often refuse internal IPs (10.x / 192.168.x / internal hostnames). Try clearing the Proxy field if the Confluence server is on your internal network."@
}

/// The checks listed when the server cannot be reached; the proxy hint is added when the
/// URL's host is private or local and a proxy is set.
pub open spec fn unreachable_hints(a: TestConnectionArgs, ip: Option<IpAddress>) -> Seq<char> {
    let base = "- The URL is correct\n- You are connected to VPN (if required)\n- The server is running"@;
    let private = match url_host_spec(a.url@) {
        Some(h) => host_is_private_or_local(h, ip),
        None => false,
    };
    if private && !is_blank(a.proxy_url@) {
        base + "\n"@ + proxy_hint()
    } else {
        base
    }
}

/// The message of a failed test, by the error's status: 401, 403 with a CAPTCHA, other
/// 403s, no answer (0), and any other status.
pub open spec fn failure_spec(a: TestConnectionArgs, status: u16, detail: Seq<char>, ip: Option<
    IpAddress,
>) -> Seq<char> {
    if status == 401 {
        "Authentication failed. Check your username/password or token.\n\n"@ + detail
    } else if status == 403 && contains(detail, "CAPTCHA_CHALLENGE"@) {
        "Confluence is requiring CAPTCHA for your account. Open Confluence in a browser, sign in, solve the CAPTCHA, then retry here.\n\n"@
            + detail
    } else if status == 403 {
        "Confluence refused the request (403). This is usually CAPTCHA, account lockout, or a WAF rule.\n\n"@
            + detail
    } else if status == 0 {
        "Cannot reach the server. Please check:\n"@ + unreachable_hints(a, ip) + "\n\n"@ + detail
    } else {
        "Error (HTTP "@ + dec(status as nat) + "): "@ + detail
    }
}

/// The failed outcome of a test whose request failed with `status` (0 when no HTTP answer
/// came) and the rendered error chain `detail` (see [`failure_spec`]). `host_ip` is the
/// URL's host read as an IP address, when it is one.
pub fn connection_failure(
    args: &TestConnectionArgs,
    status: u16,
    detail: &str,
    host_ip: Option<IpAddress>,
) -> (r: TestConnectionResult)
    ensures
        !r.success,
        r.message@ == failure_spec(*args, status, detail@, host_ip),
{
    let d = chars_of(detail);
    let mut m: Vec<char>;
    if status == 401 {
        m = chars_of("Authentication failed. Check your username/password or token.\n\n");
    } else if status == 403 && has_infix(&d, &chars_of("CAPTCHA_CHALLENGE")) {
        m = chars_of(
            "Confluence is requiring CAPTCHA for your account. Open Confluence in a browser, sign in, solve the CAPTCHA, then retry here.\n\n",
        );
    } else if status == 403 {
        m = chars_of(
            "Confluence refused the request (403). This is usually CAPTCHA, account lockout, or a WAF rule.\n\n",
        );
    } else if status == 0 {
        m = chars_of("Cannot reach the server. Please check:\n");
        extend_str(
            &mut m,
            "- The URL is correct\n- You are connected to VPN (if required)\n- The server is running",
        );
        let private = match url_host(args.url.as_str()) {
            Some(h) => is_private_or_local_host(h.as_str(), host_ip),
            None => false,
        };
        if private && !is_blank_exec(&chars_of(args.proxy_url.as_str())) {
            extend_str(&mut m, "\n");
            extend_str(
                &mut m,
                "- The proxy can route to this address — corporate HTTP proxies often refuse internal IPs (10.x / 192.168.x / internal hostnames). Try clearing the Proxy field if the Confluence server is on your internal network.",
            );
        }
        extend_str(&mut m, "\n\n");
    } else {
        m = chars_of("Error (HTTP ");
        extend(&mut m, &dec_u64(status as u64));
        extend_str(&mut m, "): ");
    }
    extend(&mut m, &d);
    TestConnectionResult { success: false, message: string_of(&m) }
}

// ---------------------------------------------------------------------------
// Saving and removing the configuration
// ---------------------------------------------------------------------------

/// The wizard's fields for saving.
#[derive(Debug)]
pub struct SaveConfigArgs {
    pub url: String,
    pub username: String,
    pub password: String,
    pub token: String,
    pub ssl_verify: bool,
    pub install_dir: String,
    pub proxy_url: String,
}

/// The outcome of saving, as the wizard shows it.
#[derive(Debug)]
pub struct SaveConfigResult {
    pub success: bool,
    pub message: String,
    pub config_path: String,
    pub server_path: String,
}

/// The entry written for the fields and the extracted server: the server's path with
/// forward slashes as the command, each credential when given, the trimmed proxy when not
/// blank.
pub fn entry_for_save(args: &SaveConfigArgs, server_path: &str) -> (e: ConfluenceEntry)
    ensures
        e.command@ == replace_all(server_path@, seq!['\\'], seq!['/']),
        e.url@ == args.url@,
        opt_view(e.username) == nonempty(args.username@),
        opt_view(e.password) == nonempty(args.password@),
        opt_view(e.token) == nonempty(args.token@),
        e.ssl_verify == args.ssl_verify,
        opt_view(e.proxy_url) == proxy_field(args.proxy_url@),
{
    let from = vec!['\\'];
    let to = vec!['/'];
    let command = replace_all_exec(&chars_of(server_path), &from, &to);
    assert(from@ =~= seq!['\\']);
    assert(to@ =~= seq!['/']);
    ConfluenceEntry {
        command: string_of(&command),
        url: args.url.clone(),
        username: nonempty_exec(&args.username),
        password: nonempty_exec(&args.password),
        token: nonempty_exec(&args.token),
        ssl_verify: args.ssl_verify,
        proxy_url: proxy_field_exec(args.proxy_url.as_str()),
    }
}

/// Where saving stopped.
#[derive(Debug)]
pub enum SaveFailure {
    /// The install folder is not writable.
    Probe { dir: String, error: String },
    /// The server could not be written; `raw_os_error` is the OS error code, when any.
    Extract { raw_os_error: Option<i32>, error: String },
    /// The assistant's configuration could not be written.
    WriteConfig { error: String, config_path: String, server_path: String },
}

/// The message when the server could not be written: error 32 (a sharing violation)
/// means the running server holds the file.
pub open spec fn extract_failure_spec(raw_os_error: Option<i32>, error: Seq<char>) -> Seq<char> {
    if raw_os_error == Some(32i32) {
        "Failed to extract server binary: the previous server is still running and has the file locked. Quit the desktop assistant completely (check the system tray) and try Save again. ("@
            + error + ")"@
    } else {
        "Failed to extract server binary: "@ + error
            + ". Your antivirus may be blocking this — add an exception or choose a different folder."@
    }
}

/// The outcome of saving: `Ok` with the configuration's and the server's paths, or where
/// it stopped.
pub fn save_result(outcome: Result<(String, String), SaveFailure>) -> (r: SaveConfigResult)
    ensures
        r.success == outcome is Ok,
        match outcome {
            Ok((config_path, server_path)) => {
                &&& r.message@ == "Configuration saved! Restart the desktop assistant to activate."@
                &&& r.config_path@ == config_path@
                &&& r.server_path@ == server_path@
            },
            Err(SaveFailure::Probe { dir, error }) => {
                &&& r.message@ == "Cannot write to "@ + dir@ + ": "@ + error@
                    + ". Pick a different folder."@
                &&& r.config_path@.len() == 0
                &&& r.server_path@.len() == 0
            },
            Err(SaveFailure::Extract { raw_os_error, error }) => {
                &&& r.message@ == extract_failure_spec(raw_os_error, error@)
                &&& r.config_path@.len() == 0
                &&& r.server_path@.len() == 0
            },
            Err(SaveFailure::WriteConfig { error, config_path, server_path }) => {
                &&& r.message@ == "Cannot write the desktop assistant's config: "@ + error@
                    + ". Try running as Administrator."@
                &&& r.config_path@ == config_path@
                &&& r.server_path@ == server_path@
            },
        },
{
    match outcome {
        Ok((config_path, server_path)) => SaveConfigResult {
            success: true,
            message: "Configuration saved! Restart the desktop assistant to activate.".to_string(),
            config_path,
            server_path,
        },
        Err(SaveFailure::Probe { dir, error }) => {
            let mut m = chars_of("Cannot write to ");
            extend_str(&mut m, dir.as_str());
            extend_str(&mut m, ": ");
            extend_str(&mut m, error.as_str());
            extend_str(&mut m, ". Pick a different folder.");
            SaveConfigResult {
                success: false,
                message: string_of(&m),
                config_path: String::new(),
                server_path: String::new(),
            }
        },
        Err(SaveFailure::Extract { raw_os_error, error }) => {
            let mut m: Vec<char>;
            if raw_os_error == Some(32i32) {
                m = chars_of(
                    "Failed to extract server binary: the previous server is still running and has the file locked. Quit the desktop assistant completely (check the system tray) and try Save again. (",
                );
                extend_str(&mut m, error.as_str());
                extend_str(&mut m, ")");
            } else {
                m = chars_of("Failed to extract server binary: ");
                extend_str(&mut m, error.as_str());
                extend_str(
                    &mut m,
                    ". Your antivirus may be blocking this — add an exception or choose a different folder.",
                );
            }
            SaveConfigResult {
                success: false,
                message: string_of(&m),
                config_path: String::new(),
                server_path: String::new(),
            }
        },
        Err(SaveFailure::WriteConfig { error, config_path, server_path }) => {
            let mut m = chars_of("Cannot write the desktop assistant's config: ");
            extend_str(&mut m, error.as_str());
            extend_str(&mut m, ". Try running as Administrator.");
            SaveConfigResult { success: false, message: string_of(&m), config_path, server_path }
        },
    }
}

/// The outcome of removing the configuration.
#[derive(Debug)]
pub struct RemoveResult {
    pub success: bool,
    pub message: String,
}

/// The outcome of removing: the error of updating the configuration, when there was one.
pub fn remove_result(error: Option<String>) -> (r: RemoveResult)
    ensures
        r.success == error is None,
        match error {
            Some(e) => r.message@ == "Failed to update config: "@ + e@,
            None => r.message@ == "Confluence MCP removed. Restart the desktop assistant to apply."@,
        },
{
    match error {
        Some(e) => {
            let mut m = chars_of("Failed to update config: ");
            extend_str(&mut m, e.as_str());
            RemoveResult { success: false, message: string_of(&m) }
        },
        None => RemoveResult {
            success: true,
            message: "Confluence MCP removed. Restart the desktop assistant to apply.".to_string(),
        },
    }
}

// ---------------------------------------------------------------------------
// The running server
// ---------------------------------------------------------------------------

/// A process as the system lists it.
#[derive(Debug)]
pub struct ProcessInfo {
    pub name: String,
    pub pid: u32,
    /// Resident memory, in bytes.
    pub memory: u64,
}

/// Whether the server is running, and how large it is.
#[derive(Debug)]
pub struct ServerStatus {
    pub running: bool,
    pub pid: Option<u32>,
    pub memory_mb: Option<u64>,
    pub configured: bool,
}

/// A process is the server when its name equals the server's binary name, ignoring ASCII
/// case.
pub fn is_server_process(name: &str, target: &str) -> (r: bool)
    ensures
        r == eq_ignore_ascii_case(name@, target@),
{
    eq_ignore_ascii_case_exec(&chars_of(name), &chars_of(target))
}

/// The status from the process list, in the order it was walked: the first process that
/// is the server, with its memory in whole mebibytes.
pub fn server_status_from(configured: bool, processes: &Vec<ProcessInfo>, target: &str) -> (r:
    ServerStatus)
    ensures
        r.configured == configured,
        r.running <==> exists|i: int|
            0 <= i < processes@.len() && eq_ignore_ascii_case(
                #[trigger] processes@[i].name@,
                target@,
            ),
        r.running ==> exists|i: int|
            {
                &&& 0 <= i < processes@.len()
                &&& eq_ignore_ascii_case(#[trigger] processes@[i].name@, target@)
                &&& forall|j: int|
                    0 <= j < i ==> !eq_ignore_ascii_case(#[trigger] processes@[j].name@, target@)
                &&& r.pid == Some(processes@[i].pid)
                &&& r.memory_mb == Some(processes@[i].memory / 1048576)
            },
        !r.running ==> r.pid is None && r.memory_mb is None,
{
    let n = processes.len();
    for i in 0..n
        invariant
            n == processes@.len(),
            forall|j: int| 0 <= j < i ==> !eq_ignore_ascii_case(#[trigger] processes@[j].name@, target@),
    {
        if is_server_process(processes[i].name.as_str(), target) {
            let p = &processes[i];
            assert(eq_ignore_ascii_case(processes@[i as int].name@, target@));
            return ServerStatus {
                running: true,
                pid: Some(p.pid),
                memory_mb: Some(p.memory / 1024 / 1024),
                configured,
            };
        }
    }
    ServerStatus { running: false, pid: None, memory_mb: None, configured }
}

/// The outcome of stopping the server.
#[derive(Debug)]
pub struct StopResult {
    pub success: bool,
    pub message: String,
    pub killed: u32,
}

/// The outcome of stopping, from the number of server processes stopped.
pub fn stop_result(killed: u32) -> (r: StopResult)
    ensures
        r.success == (killed > 0),
        r.killed == killed,
        killed == 0 ==> r.message@ == "Server is not running."@,
        killed > 0 ==> r.message@ == "Stopped "@ + dec(killed as nat)
            + " server process(es). The desktop assistant may relaunch it automatically; use Remove below to unregister it permanently."@,
{
    if killed == 0 {
        StopResult { success: false, message: "Server is not running.".to_string(), killed }
    } else {
        let mut m = chars_of("Stopped ");
        extend(&mut m, &dec_u64(killed as u64));
        extend_str(
            &mut m,
            " server process(es). The desktop assistant may relaunch it automatically; use Remove below to unregister it permanently.",
        );
        StopResult { success: true, message: string_of(&m), killed }
    }
}

// ---------------------------------------------------------------------------
// The monitor's live test
// ---------------------------------------------------------------------------

/// The outcome of the monitor's live test.
#[derive(Debug)]
pub struct LiveTestResult {
    pub success: bool,
    pub message: String,
    pub latency_ms: u64,
    pub space_count: usize,
}

/// The settings of the saved entry: its URL without trailing slashes, its credentials,
/// TLS setting and proxy, the time-out given, five requests at once, 50000 characters of
/// content, ten search results, and `WARN` logging.
pub fn config_from_entry(entry: &ConfluenceEntry, timeout_secs: u64) -> (c: Config)
    ensures
        c.confluence_url@ == trim_end_char(entry.url@, '/'),
        c.username == entry.username,
        c.password == entry.password,
        c.token == entry.token,
        c.ssl_verify == entry.ssl_verify,
        c.ca_bundle is None,
        c.proxy_url == entry.proxy_url,
        c.timeout_secs == timeout_secs,
        c.rate_limit == 5,
        c.max_content_length == 50000,
        c.default_search_limit == 10,
        c.log_level@ == "WARN"@,
{
    Config {
        confluence_url: string_of(&trim_end_char_exec(&chars_of(entry.url.as_str()), '/')),
        username: crate::configurator::stats::clone_opt_exact(&entry.username),
        password: crate::configurator::stats::clone_opt_exact(&entry.password),
        token: crate::configurator::stats::clone_opt_exact(&entry.token),
        ssl_verify: entry.ssl_verify,
        ca_bundle: None,
        proxy_url: crate::configurator::stats::clone_opt_exact(&entry.proxy_url),
        timeout_secs,
        rate_limit: 5,
        max_content_length: 50000,
        default_search_limit: 10,
        log_level: "WARN".to_string(),
    }
}

/// The outcome of the live test: `Ok` with the number of spaces listed, or the rendered
/// error chain; `latency_ms` is how long the request took.
pub fn live_test_result(outcome: Result<usize, String>, latency_ms: u64) -> (r: LiveTestResult)
    ensures
        r.success == outcome is Ok,
        r.latency_ms == latency_ms,
        match outcome {
            Ok(count) => {
                &&& r.space_count == count
                &&& r.message@ == "OK · "@ + dec(count as nat) + " space(s) · "@ + dec(
                    latency_ms as nat,
                ) + " ms"@
            },
            Err(detail) => r.space_count == 0 && r.message@ == detail@,
        },
{
    match outcome {
        Ok(count) => {
            let mut m = chars_of("OK · ");
            extend(&mut m, &dec_u64(count as u64));
            extend_str(&mut m, " space(s) · ");
            extend(&mut m, &dec_u64(latency_ms));
            extend_str(&mut m, " ms");
            LiveTestResult {
                success: true,
                message: string_of(&m),
                latency_ms,
                space_count: count,
            }
        },
        Err(detail) => LiveTestResult { success: false, message: detail, latency_ms, space_count: 0 },
    }
}

// ---------------------------------------------------------------------------
// Diagnostics for the clipboard
// ---------------------------------------------------------------------------

/// One table row of a recorded call: time, tool, arguments, estimated tokens and status,
/// each text escaped for Markdown.
pub open spec fn history_line(r: HistoryRow) -> Seq<char> {
    "| "@ + dec_int(r.ts as int) + " | "@ + esc_md_spec(r.tool@) + " | "@ + esc_md_spec(r.args_json@)
        + " | "@ + dec(r.tokens_est as nat) + " | "@ + esc_md_spec(r.status@) + " |\n"@
}

/// The table rows of the calls, in order.
pub open spec fn history_lines(rows: Seq<HistoryRow>) -> Seq<char>
    decreases rows.len(),
{
    if rows.len() == 0 {
        seq![]
    } else {
        history_lines(rows.drop_last()) + history_line(rows.last())
    }
}

/// One list item of a recorded error.
pub open spec fn error_line(e: ErrorRow) -> Seq<char> {
    "- `"@ + dec_int(e.ts as int) + "` · **"@ + e.tool@ + "** · "@ + e.status@ + ": "@ + e.message@
        + "\n"@
}

/// The list items of the errors, in order.
pub open spec fn error_lines(rows: Seq<ErrorRow>) -> Seq<char>
    decreases rows.len(),
{
    if rows.len() == 0 {
        seq![]
    } else {
        error_lines(rows.drop_last()) + error_line(rows.last())
    }
}

/// The closing request to the assistant.
pub open spec fn diagnostics_footer() -> Seq<char> {
    "\n---\nPlease analyze usage patterns and suggest ways to reduce token usage, avoid repeated fetches, or narrow my CQL queries. Any error patterns I should fix?\n"@
}

/// The diagnostics report: a table of the last 100 calls (oldest of them first), then
/// the first 20 errors, then a request to the assistant.
pub open spec fn diagnostics_spec(history: Seq<HistoryRow>, errors: Seq<ErrorRow>) -> Seq<char> {
    let shown: int = if history.len() <= 100 {
        history.len() as int
    } else {
        100
    };
    let listed: int = if errors.len() <= 20 {
        errors.len() as int
    } else {
        20
    };
    "# Confluence Connect — diagnostics\n\n## Recent tool calls ("@ + dec(shown as nat)
        + " rows, newest last)\n\n| ts | tool | args | tokens | status |\n|---|---|---|---|---|\n"@
        + history_lines(history.skip(history.len() - shown)) + "\n## Recent errors\n\n"@
        + error_lines(errors.take(listed)) + diagnostics_footer()
}

fn history_line_exec(r: &HistoryRow) -> (out: Vec<char>)
    ensures
        out@ == history_line(*r),
{
    let mut m = chars_of("| ");
    extend(&mut m, &dec_i64(r.ts));
    extend_str(&mut m, " | ");
    extend_str(&mut m, esc_md(r.tool.as_str()).as_str());
    extend_str(&mut m, " | ");
    extend_str(&mut m, esc_md(r.args_json.as_str()).as_str());
    extend_str(&mut m, " | ");
    extend(&mut m, &dec_u64(r.tokens_est as u64));
    extend_str(&mut m, " | ");
    extend_str(&mut m, esc_md(r.status.as_str()).as_str());
    extend_str(&mut m, " |\n");
    m
}

fn error_line_exec(e: &ErrorRow) -> (out: Vec<char>)
    ensures
        out@ == error_line(*e),
{
    let mut m = chars_of("- `");
    extend(&mut m, &dec_i64(e.ts));
    extend_str(&mut m, "` · **");
    extend_str(&mut m, e.tool.as_str());
    extend_str(&mut m, "** · ");
    extend_str(&mut m, e.status.as_str());
    extend_str(&mut m, ": ");
    extend_str(&mut m, e.message.as_str());
    extend_str(&mut m, "\n");
    m
}

/// Renders the diagnostics report (see [`diagnostics_spec`]).
pub fn diagnostics_markdown(history: &Vec<HistoryRow>, errors: &Vec<ErrorRow>) -> (r: String)
    ensures
        r@ == diagnostics_spec(history@, errors@),
{
    let n = history.len();
    let shown: usize = if n <= 100 {
        n
    } else {
        100
    };
    let start = n - shown;
    let mut md = chars_of("# Confluence Connect — diagnostics\n\n## Recent tool calls (");
    extend(&mut md, &dec_u64(shown as u64));
    extend_str(
        &mut md,
        " rows, newest last)\n\n| ts | tool | args | tokens | status |\n|---|---|---|---|---|\n",
    );
    let ghost head = md@;
    assert(history@.subrange(start as int, start as int) =~= Seq::<HistoryRow>::empty());
    let mut i = start;
    while i < n
        invariant
            n == history@.len(),
            start <= i <= n,
            md@ == head + history_lines(history@.subrange(start as int, i as int)),
        decreases n - i,
    {
        let line = history_line_exec(&history[i]);
        proof {
            let s = history@.subrange(start as int, i + 1);
            assert(s.drop_last() =~= history@.subrange(start as int, i as int));
            assert(s.last() == history@[i as int]);
        }
        extend(&mut md, &line);
        i = i + 1;
    }
    assert(history@.subrange(start as int, n as int) =~= history@.skip(n - shown));
    extend_str(&mut md, "\n## Recent errors\n\n");
    let ghost mid = md@;
    let m = errors.len();
    let listed: usize = if m <= 20 {
        m
    } else {
        20
    };
    assert(errors@.take(0) =~= Seq::<ErrorRow>::empty());
    for j in 0..listed
        invariant
            m == errors@.len(),
            listed <= m,
            md@ == mid + error_lines(errors@.take(j as int)),
    {
        let line = error_line_exec(&errors[j]);
        proof {
            let s = errors@.take(j + 1);
            assert(s.drop_last() =~= errors@.take(j as int));
            assert(s.last() == errors@[j as int]);
        }
        extend(&mut md, &line);
    }
    extend_str(
        &mut md,
        "\n---\nPlease analyze usage patterns and suggest ways to reduce token usage, avoid repeated fetches, or narrow my CQL queries. Any error patterns I should fix?\n",
    );
    string_of(&md)
}

/// The notice after copying the report: its length in UTF-8 bytes.
pub fn copied_message(md: &str) -> (r: String)
    requires
        vstd::utf8::encode_utf8(md@).len() <= usize::MAX,
    ensures
        r@ == "Copied "@ + dec(vstd::utf8::encode_utf8(md@).len()) + " chars to clipboard — paste into the desktop assistant."@,
{
    let bytes = md.len();
    let mut m = chars_of("Copied ");
    extend(&mut m, &dec_u64(bytes as u64));
    extend_str(&mut m, " chars to clipboard — paste into the desktop assistant.");
    string_of(&m)
}

} // verus!
