//! The system proxy settings as the user's browser sees them, and the value the setup
//! wizard pre-fills from them.
//!
//! The operating-system query itself lives with the application; this module holds what
//! is decided from its answer.

use vstd::prelude::*;
use crate::text::{
    starts_with, has_char, trim, is_blank, split, Separator, chars_of, string_of, extend_str,
    extend, slice, trim_exec, has_prefix, has_char_exec, split_exec, is_blank_exec,
};
use crate::outside::opt_view;

verus! {

broadcast use vstd::string::group_string_axioms;

/// What the system proxy settings say.
#[derive(Debug, Default, Clone)]
pub struct Detected {
    /// A `http://host:port` URL derived from a static proxy setting.
    pub static_proxy: Option<String>,
    /// A `.pac` script URL configured as "Use setup script".
    pub pac_url: Option<String>,
    /// "Automatically detect settings" (WPAD) is enabled.
    pub auto_detect: bool,
}

/// A proxy entry with `http://` in front unless it already names `http://` or `https://`.
pub open spec fn ensure_scheme_spec(s: Seq<char>) -> Seq<char> {
    if starts_with(s, "http://"@) || starts_with(s, "https://"@) {
        s
    } else {
        "http://"@ + s
    }
}

/// The last `https=`, `http=` and plain (no `=`) entries among the pieces, in that order
/// of the triple; each trimmed, the scheme values trimmed again after the `=`. A scheme
/// entry whose value is blank names no proxy and is passed over.
pub open spec fn ie_entries(segs: Seq<Seq<char>>) -> (
    Option<Seq<char>>,
    Option<Seq<char>>,
    Option<Seq<char>>,
)
    decreases segs.len(),
{
    if segs.len() == 0 {
        (None, None, None)
    } else {
        let prev = ie_entries(segs.drop_last());
        let e = ie_entry_of(trim(segs.last()));
        (
            if e.0 is Some { e.0 } else { prev.0 },
            if e.1 is Some { e.1 } else { prev.1 },
            if e.2 is Some { e.2 } else { prev.2 },
        )
    }
}

/// What one trimmed piece contributes: a non-blank `https=` value, a non-blank `http=`
/// value, or a plain entry (non-empty, without `=`).
pub open spec fn ie_entry_of(s: Seq<char>) -> (
    Option<Seq<char>>,
    Option<Seq<char>>,
    Option<Seq<char>>,
) {
    if starts_with(s, "https="@) {
        let v = trim(s.skip("https="@.len() as int));
        if v.len() > 0 {
            (Some(v), None, None)
        } else {
            (None, None, None)
        }
    } else if starts_with(s, "http="@) {
        let v = trim(s.skip("http="@.len() as int));
        if v.len() > 0 {
            (None, Some(v), None)
        } else {
            (None, None, None)
        }
    } else if s.len() > 0 && !has_char(s, '=') {
        (None, None, Some(s))
    } else {
        (None, None, None)
    }
}

/// The first present of three options.
pub open spec fn first_some(
    a: Option<Seq<char>>,
    b: Option<Seq<char>>,
    c: Option<Seq<char>>,
) -> Option<Seq<char>> {
    if a is Some {
        a
    } else if b is Some {
        b
    } else {
        c
    }
}

/// The proxy URL of an Internet-Options proxy string (`host:port`, or per-scheme
/// `http=a:80;https=b:443`): the `https=` entry wins, then `http=`, then a plain entry
/// (an entry with a blank value does not count); the chosen entry gets an `http://`
/// scheme when it has none.
pub open spec fn normalize_ie_proxy_spec(raw: Seq<char>) -> Option<Seq<char>> {
    let r = trim(raw);
    if r.len() == 0 {
        None
    } else {
        let e = ie_entries(split(r, Separator::Char(';')));
        match first_some(e.0, e.1, e.2) {
            Some(chosen) => if chosen.len() == 0 {
                None
            } else {
                Some(ensure_scheme_spec(chosen))
            },
            None => None,
        }
    }
}

/// The proxy value to pre-fill: the PAC script over the static proxy; nothing for
/// auto-detection alone.
pub open spec fn display_spec(d: Detected) -> Option<Seq<char>> {
    match d.pac_url {
        Some(p) => Some(p@),
        None => opt_view(d.static_proxy),
    }
}

/// Clones an optional string.
pub fn clone_opt(o: &Option<String>) -> (r: Option<String>)
    ensures
        opt_view(r) == opt_view(*o),
{
    match o {
        Some(s) => Some(s.clone()),
        None => None,
    }
}

impl Detected {
    /// The value pre-filled into the proxy input. PAC takes precedence over the static
    /// proxy (a user who has both usually wants PAC); a WPAD-only setting has no
    /// user-friendly value and gives `None`.
    pub fn display(&self) -> (r: Option<String>)
        ensures
            opt_view(r) == display_spec(*self),
    {
        match &self.pac_url {
            Some(p) => Some(p.clone()),
            None => clone_opt(&self.static_proxy),
        }
    }
}

/// A proxy entry with `http://` in front unless it already has an HTTP(S) scheme.
pub fn ensure_scheme(s: &Vec<char>) -> (r: Vec<char>)
    ensures
        r@ == ensure_scheme_spec(s@),
{
    let http = chars_of("http://");
    let https = chars_of("https://");
    if has_prefix(s, &http) || has_prefix(s, &https) {
        slice(s, 0, s.len())
    } else {
        let mut r = http;
        extend(&mut r, s);
        r
    }
}

proof fn lemma_slice_all(s: Seq<char>)
    ensures
        s.subrange(0, s.len() as int) == s,
{
    assert(s.subrange(0, s.len() as int) =~= s);
}

fn ie_entry_kind(s: &Vec<char>) -> (r: (Option<Vec<char>>, Option<Vec<char>>, Option<Vec<char>>))
    ensures
        (opt_vec_view(r.0), opt_vec_view(r.1), opt_vec_view(r.2)) == ie_entry_of(s@),
{
    let https = chars_of("https=");
    let http = chars_of("http=");
    if has_prefix(s, &https) {
        let rest = slice(s, https.len(), s.len());
        assert(rest@ =~= s@.skip(https@.len() as int));
        let v = trim_exec(&rest);
        if v.len() == 0 {
            return (None, None, None);
        }
        return (Some(v), None, None);
    }
    if has_prefix(s, &http) {
        let rest = slice(s, http.len(), s.len());
        assert(rest@ =~= s@.skip(http@.len() as int));
        let v = trim_exec(&rest);
        if v.len() == 0 {
            return (None, None, None);
        }
        return (None, Some(v), None);
    }
    if s.len() > 0 && !has_char_exec(s, '=') {
        proof {
            lemma_slice_all(s@);
        }
        return (None, None, Some(slice(s, 0, s.len())));
    }
    (None, None, None)
}

/// The proxy URL of an Internet-Options proxy string (see [`normalize_ie_proxy_spec`]).
pub fn normalize_ie_proxy(raw: &str) -> (r: Option<String>)
    ensures
        opt_view(r) == normalize_ie_proxy_spec(raw@),
{
    let chars = chars_of(raw);
    let t = trim_exec(&chars);
    if t.len() == 0 {
        return None;
    }
    let segs = split_exec(&t, Separator::Char(';'));
    let ghost sv = segs@.map_values(|p: Vec<char>| p@);
    let mut https_val: Option<Vec<char>> = None;
    let mut http_val: Option<Vec<char>> = None;
    let mut plain: Option<Vec<char>> = None;
    let n = segs.len();
    for i in 0..n
        invariant
            n == segs@.len(),
            sv == segs@.map_values(|p: Vec<char>| p@),
            ie_entries(sv.take(i as int)) == (
                opt_vec_view(https_val),
                opt_vec_view(http_val),
                opt_vec_view(plain),
            ),
    {
        let s = trim_exec(&segs[i]);
        assert(sv.take(i + 1).drop_last() =~= sv.take(i as int));
        assert(sv.take(i + 1).last() == segs@[i as int]@);
        let (a, b, c) = ie_entry_kind(&s);
        if a.is_some() {
            https_val = a;
        } else if b.is_some() {
            http_val = b;
        } else if c.is_some() {
            plain = c;
        }
    }
    assert(sv.take(n as int) =~= sv);
    let chosen = if https_val.is_some() {
        https_val
    } else if http_val.is_some() {
        http_val
    } else {
        plain
    };
    match chosen {
        Some(c) => {
            if c.len() == 0 {
                None
            } else {
                Some(string_of(&ensure_scheme(&c)))
            }
        },
        None => None,
    }
}

/// The view of an optional character vector.
pub open spec fn opt_vec_view(o: Option<Vec<char>>) -> Option<Seq<char>> {
    match o {
        Some(v) => Some(v@),
        None => None,
    }
}

/// What the system proxy settings say, from the three values of the current user's
/// Internet-Options proxy configuration: the auto-detect flag, the setup-script URL and
/// the proxy string. A blank script URL counts as none; the proxy string is normalised
/// by [`normalize_ie_proxy`].
pub fn detected_from_ie_config(
    auto_detect: bool,
    auto_config_url: Option<String>,
    proxy: Option<String>,
) -> (d: Detected)
    ensures
        d.auto_detect == auto_detect,
        opt_view(d.pac_url) == (match auto_config_url {
            Some(u) => if is_blank(u@) {
                None
            } else {
                Some(u@)
            },
            None => None,
        }),
        opt_view(d.static_proxy) == (match proxy {
            Some(p) => normalize_ie_proxy_spec(p@),
            None => None,
        }),
{
    let pac_url = match auto_config_url {
        Some(u) => {
            let c = chars_of(u.as_str());
            if is_blank_exec(&c) {
                None
            } else {
                Some(u)
            }
        },
        None => None,
    };
    let static_proxy = match proxy {
        Some(p) => normalize_ie_proxy(p.as_str()),
        None => None,
    };
    Detected { static_proxy, pac_url, auto_detect }
}

/// The system proxy settings where the operating system keeps none for the library to
/// read: nothing configured.
pub fn detect() -> (d: Detected)
    ensures
        d.static_proxy is None,
        d.pac_url is None,
        !d.auto_detect,
{
    Detected { static_proxy: None, pac_url: None, auto_detect: false }
}


// ---------------------------------------------------------------------------
// Laws
// ---------------------------------------------------------------------------

/// A proxy read from the Internet Options setting always names a web scheme: it starts
/// with `http://` or `https://`.
pub proof fn law_ie_proxy_is_web_url(raw: Seq<char>)
    ensures
        normalize_ie_proxy_spec(raw) matches Some(p) ==> (starts_with(p, "http://"@)
            || starts_with(p, "https://"@)),
{
    reveal_strlit("http://");
    reveal_strlit("https://");
    if let Some(p) = normalize_ie_proxy_spec(raw) {
        let r = trim(raw);
        let e = ie_entries(split(r, Separator::Char(';')));
        let chosen = first_some(e.0, e.1, e.2)->Some_0;
        assert(chosen.len() > 0);
        if starts_with(chosen, "http://"@) || starts_with(chosen, "https://"@) {
            assert(p == chosen);
        } else {
            assert(p == "http://"@ + chosen);
            assert(p.take(7) =~= "http://"@);
        }
    }
}

} // verus!
