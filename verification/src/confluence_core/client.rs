//! The rules of the Confluence REST client: how it authenticates and which proxy it
//! uses, which request each operation sends, when a response is retried, and how a
//! failed response becomes an error. Sending requests is the application's part.

use vstd::prelude::*;
use crate::text::{
    dec, trim, is_blank, join, lemma_encode_utf8_len, chars_of, string_of, extend, extend_str, dec_u64, trim_exec,
    slice, is_blank_exec,
};
use crate::outside::{
    opt_view, pair_view, base64_standard, base64_encode, reason_phrase_of, canonical_reason,
    header_text_ok, header_value_check, invalid_header_text,
};
use crate::confluence_core::config::{Config, config_valid, config_message, validation_message};
use crate::confluence_core::error::ConfluenceError;
use crate::confluence_core::pac::{looks_like_pac_url, looks_like_pac_url_spec};

verus! {

broadcast use vstd::string::group_string_axioms;

/// How requests reach the server.
#[derive(Debug)]
pub enum ProxySetting {
    /// Straight to the server.
    Direct,
    /// Through the proxy chosen per request by a PAC script (or WPAD).
    Pac(String),
    /// Through one fixed proxy.
    Fixed(String),
}

/// Everything the application needs to build the HTTP client.
#[derive(Debug)]
pub struct ClientSettings {
    pub base_url: String,
    /// Value of the `Authorization` header.
    pub authorization: Option<String>,
    pub accept_invalid_certs: bool,
    pub timeout_secs: u64,
    pub ca_bundle: Option<String>,
    pub proxy: ProxySetting,
    /// Requests allowed in flight at once.
    pub max_in_flight: u32,
}

/// The `Authorization` header: a token wins (`Bearer <token>`); otherwise username and
/// password, base64-encoded as `user:password` (`Basic <...>`); otherwise none.
pub open spec fn authorization_spec(c: Config) -> Option<Seq<char>> {
    match c.token {
        Some(t) => Some("Bearer "@ + t@),
        None => match (c.username, c.password) {
            (Some(u), Some(p)) => Some(
                "Basic "@ + base64_standard(vstd::utf8::encode_utf8(u@ + ":"@ + p@)),
            ),
            _ => None,
        },
    }
}

/// The proxy a configuration asks for: none when unset or blank; a PAC script when the
/// trimmed value looks like one; a fixed proxy otherwise.
pub open spec fn proxy_spec(c: Config) -> ProxySettingView {
    match c.proxy_url {
        Some(p) => if is_blank(p@) {
            ProxySettingView::Direct
        } else if looks_like_pac_url_spec(trim(p@)) {
            ProxySettingView::Pac(trim(p@))
        } else {
            ProxySettingView::Fixed(trim(p@))
        },
        None => ProxySettingView::Direct,
    }
}

/// The mathematical content of a [`ProxySetting`].
pub enum ProxySettingView {
    Direct,
    Pac(Seq<char>),
    Fixed(Seq<char>),
}

impl View for ProxySetting {
    type V = ProxySettingView;

    open spec fn view(&self) -> ProxySettingView {
        match self {
            ProxySetting::Direct => ProxySettingView::Direct,
            ProxySetting::Pac(s) => ProxySettingView::Pac(s@),
            ProxySetting::Fixed(s) => ProxySettingView::Fixed(s@),
        }
    }
}

/// Username and password are short enough to encode (a machine limit).
pub open spec fn credentials_fit(c: Config) -> bool {
    match (c.username, c.password) {
        (Some(u), Some(p)) => u@.len() + p@.len() < 0x100_0000_0000,
        _ => true,
    }
}

/// The `Authorization` header value for a configuration (see [`authorization_spec`]).
pub fn authorization_value(config: &Config) -> (r: Option<String>)
    requires
        credentials_fit(*config),
    ensures
        opt_view(r) == authorization_spec(*config),
{
    if let Some(t) = &config.token {
        let mut v = chars_of("Bearer ");
        extend_str(&mut v, t.as_str());
        return Some(string_of(&v));
    }
    match (&config.username, &config.password) {
        (Some(u), Some(p)) => {
            let mut creds = chars_of(u.as_str());
            extend_str(&mut creds, ":");
            extend_str(&mut creds, p.as_str());
            let text = string_of(&creds);
            let text_str = text.as_str();
            let bytes = text_str.as_bytes();
            proof {
                reveal_strlit(":");
                lemma_encode_utf8_len(creds@);
                assert(text_str@ == creds@);
                assert(bytes@ == vstd::utf8::encode_utf8(creds@));
            }
            let encoded = base64_encode(bytes);
            let mut v = chars_of("Basic ");
            extend_str(&mut v, encoded.as_str());
            Some(string_of(&v))
        },
        _ => None,
    }
}

/// The proxy a configuration asks for (see [`proxy_spec`]).
pub fn proxy_setting(config: &Config) -> (r: ProxySetting)
    ensures
        r@ == proxy_spec(*config),
{
    match &config.proxy_url {
        Some(p) => {
            let c = chars_of(p.as_str());
            let t = trim_exec(&c);
            if t.len() == 0 {
                return ProxySetting::Direct;
            }
            let ts = string_of(&t);
            if looks_like_pac_url(ts.as_str()) {
                ProxySetting::Pac(ts)
            } else {
                ProxySetting::Fixed(ts)
            }
        },
        None => ProxySetting::Direct,
    }
}

/// Whether the HTTP library takes the `Authorization` value as a header value.
pub open spec fn header_accepts(c: Config) -> bool {
    match authorization_spec(c) {
        Some(a) => header_text_ok(a),
        None => true,
    }
}

/// The error when the HTTP library refuses the `Authorization` value: the credential's
/// kind, then the library's error text.
pub open spec fn header_message(c: Config) -> Seq<char> {
    if c.token is Some {
        "invalid token: "@ + invalid_header_text()
    } else {
        "invalid basic auth: "@ + invalid_header_text()
    }
}

/// The settings of the HTTP client for a configuration. The configuration must be
/// usable (see [`Config::validate`]), whose error is returned otherwise, and the HTTP
/// library must take its `Authorization` value (see [`header_accepts`]), else the error
/// names the token or the basic credentials.
pub fn client_settings(config: &Config) -> (r: Result<ClientSettings, ConfluenceError>)
    requires
        credentials_fit(*config),
    ensures
        r is Ok <==> config_valid(*config) && header_accepts(*config),
        r matches Err(e) ==> config_message(e) == Some(
            if !config_valid(*config) {
                validation_message(*config)
            } else {
                header_message(*config)
            },
        ),
        r matches Ok(s) ==> {
            &&& s.base_url@ == config.confluence_url@
            &&& opt_view(s.authorization) == authorization_spec(*config)
            &&& s.accept_invalid_certs == !config.ssl_verify
            &&& s.timeout_secs == config.timeout_secs
            &&& opt_view(s.ca_bundle) == opt_view(config.ca_bundle)
            &&& s.proxy@ == proxy_spec(*config)
            &&& s.max_in_flight == config.rate_limit
        },
{
    match config.validate() {
        Err(e) => return Err(e),
        Ok(()) => {},
    }
    let authorization = authorization_value(config);
    if let Some(a) = &authorization {
        if let Err(reason) = header_value_check(a.as_str()) {
            let mut m = if config.token.is_some() {
                chars_of("invalid token: ")
            } else {
                chars_of("invalid basic auth: ")
            };
            extend_str(&mut m, reason.as_str());
            return Err(ConfluenceError::Config(string_of(&m)));
        }
    }
    let ca_bundle = match &config.ca_bundle {
        Some(b) => Some(b.clone()),
        None => None,
    };
    Ok(
        ClientSettings {
            base_url: config.confluence_url.clone(),
            authorization,
            accept_invalid_certs: !config.ssl_verify,
            timeout_secs: config.timeout_secs,
            ca_bundle,
            proxy: proxy_setting(config),
            max_in_flight: config.rate_limit,
        },
    )
}

/// A GET request of the REST API: a path under the base URL and query parameters.
#[derive(Debug)]
pub struct ApiRequest {
    pub path: String,
    pub query: Vec<(String, String)>,
}

/// The view of a query list.
pub open spec fn query_view(q: Seq<(String, String)>) -> Seq<(Seq<char>, Seq<char>)> {
    q.map_values(|p: (String, String)| pair_view(p))
}

/// `("expand", expand)` unless `expand` is empty.
pub open spec fn expand_param(expand: Seq<char>) -> Seq<(Seq<char>, Seq<char>)> {
    if expand.len() == 0 {
        seq![]
    } else {
        seq![("expand"@, expand)]
    }
}

fn pair(k: &str, v: &str) -> (p: (String, String))
    ensures
        pair_view(p) == (k@, v@),
{
    (k.to_string(), v.to_string())
}

fn push_expand(q: &mut Vec<(String, String)>, expand: &str)
    ensures
        query_view(final(q)@) == query_view(old(q)@) + expand_param(expand@),
{
    let ghost before = query_view(q@);
    let e = chars_of(expand);
    if e.len() > 0 {
        q.push(pair("expand", expand));
        assert(query_view(q@) =~= before + expand_param(expand@));
    } else {
        assert(query_view(q@) =~= before + expand_param(expand@));
    }
}

fn limit_text(limit: u32) -> (s: String)
    ensures
        s@ == dec(limit as nat),
{
    let d = dec_u64(limit as u64);
    string_of(&d)
}

/// `GET /rest/api/space` with `limit`, an optional `type` and an optional `expand`.
pub fn list_spaces_request(space_type: Option<&str>, limit: u32, expand: &str) -> (r: ApiRequest)
    ensures
        r.path@ == "/rest/api/space"@,
        query_view(r.query@) == seq![("limit"@, dec(limit as nat))] + (match space_type {
            Some(t) => seq![("type"@, t@)],
            None => seq![],
        }) + expand_param(expand@),
{
    let mut q: Vec<(String, String)> = Vec::new();
    let l = limit_text(limit);
    q.push(("limit".to_string(), l));
    let ghost q1 = query_view(q@);
    assert(q1 =~= seq![("limit"@, dec(limit as nat))]);
    if let Some(t) = space_type {
        q.push(pair("type", t));
    }
    let ghost q2 = query_view(q@);
    assert(q2 =~= q1 + (match space_type {
        Some(t) => seq![("type"@, t@)],
        None => seq![],
    }));
    push_expand(&mut q, expand);
    ApiRequest { path: "/rest/api/space".to_string(), query: q }
}

/// `GET /rest/api/content/search` with `cql`, `limit` and an optional `expand`.
pub fn search_request(cql: &str, limit: u32, expand: &str) -> (r: ApiRequest)
    ensures
        r.path@ == "/rest/api/content/search"@,
        query_view(r.query@) == seq![("cql"@, cql@), ("limit"@, dec(limit as nat))]
            + expand_param(expand@),
{
    let mut q: Vec<(String, String)> = Vec::new();
    q.push(pair("cql", cql));
    let l = limit_text(limit);
    q.push(("limit".to_string(), l));
    assert(query_view(q@) =~= seq![("cql"@, cql@), ("limit"@, dec(limit as nat))]);
    push_expand(&mut q, expand);
    ApiRequest { path: "/rest/api/content/search".to_string(), query: q }
}

/// `GET /rest/api/content/<page_id>` with an optional `expand`.
pub fn page_request(page_id: &str, expand: &str) -> (r: ApiRequest)
    ensures
        r.path@ == "/rest/api/content/"@ + page_id@,
        query_view(r.query@) == expand_param(expand@),
{
    let mut path = chars_of("/rest/api/content/");
    extend_str(&mut path, page_id);
    let mut q: Vec<(String, String)> = Vec::new();
    assert(query_view(q@) =~= Seq::<(Seq<char>, Seq<char>)>::empty());
    push_expand(&mut q, expand);
    assert(query_view(q@) =~= expand_param(expand@));
    ApiRequest { path: string_of(&path), query: q }
}

/// `GET /rest/api/content` with `spaceKey`, `title` and an optional `expand`.
pub fn page_by_title_request(space_key: &str, title: &str, expand: &str) -> (r: ApiRequest)
    ensures
        r.path@ == "/rest/api/content"@,
        query_view(r.query@) == seq![("spaceKey"@, space_key@), ("title"@, title@)]
            + expand_param(expand@),
{
    let mut q: Vec<(String, String)> = Vec::new();
    q.push(pair("spaceKey", space_key));
    q.push(pair("title", title));
    assert(query_view(q@) =~= seq![("spaceKey"@, space_key@), ("title"@, title@)]);
    push_expand(&mut q, expand);
    ApiRequest { path: "/rest/api/content".to_string(), query: q }
}

/// `GET /rest/api/content/<page_id>/child/<child_type>` with `limit` and an optional
/// `expand`.
pub fn child_request(page_id: &str, child_type: &str, expand: &str, limit: u32) -> (r: ApiRequest)
    ensures
        r.path@ == "/rest/api/content/"@ + page_id@ + "/child/"@ + child_type@,
        query_view(r.query@) == seq![("limit"@, dec(limit as nat))] + expand_param(expand@),
{
    let mut path = chars_of("/rest/api/content/");
    extend_str(&mut path, page_id);
    extend_str(&mut path, "/child/");
    extend_str(&mut path, child_type);
    let mut q: Vec<(String, String)> = Vec::new();
    let l = limit_text(limit);
    q.push(("limit".to_string(), l));
    assert(query_view(q@) =~= seq![("limit"@, dec(limit as nat))]);
    push_expand(&mut q, expand);
    ApiRequest { path: string_of(&path), query: q }
}

/// The full URL of a request path.
pub fn request_url(base_url: &str, path: &str) -> (u: String)
    ensures
        u@ == base_url@ + path@,
{
    let mut v = chars_of(base_url);
    extend_str(&mut v, path);
    string_of(&v)
}

/// What to do with a response.
#[derive(Debug, PartialEq, Eq)]
pub enum ResponseStep {
    /// 2xx: read the JSON body.
    Success,
    /// Rate-limited or unavailable: wait, then send the request again.
    Retry { backoff_ms: u64 },
    /// Turn the response into an error.
    Fail,
}

/// The wait before retry number `attempt + 1`: one second, doubling.
pub open spec fn backoff_ms(attempt: nat) -> nat
    decreases attempt,
{
    if attempt == 0 {
        1000
    } else {
        2 * backoff_ms((attempt - 1) as nat)
    }
}

/// Maximum number of retries.
pub const MAX_RETRIES: u32 = 3;

/// Success for 2xx; for 429 and 503 a retry after 1 s, 2 s, 4 s while fewer than three
/// retries were made; failure otherwise.
pub open spec fn response_step_spec(status: u16, attempt: u32) -> ResponseStep {
    if 200 <= status <= 299 {
        ResponseStep::Success
    } else if (status == 429 || status == 503) && attempt < 3 {
        ResponseStep::Retry { backoff_ms: backoff_ms(attempt as nat) as u64 }
    } else {
        ResponseStep::Fail
    }
}

/// Decides on a response with status `status` after `attempt` retries (see
/// [`response_step_spec`]).
pub fn response_step(status: u16, attempt: u32) -> (r: ResponseStep)
    ensures
        r == response_step_spec(status, attempt),
{
    if 200 <= status && status <= 299 {
        return ResponseStep::Success;
    }
    if (status == 429 || status == 503) && attempt < MAX_RETRIES {
        let ms: u64 = if attempt == 0 {
            1000
        } else if attempt == 1 {
            2000
        } else {
            4000
        };
        proof {
            reveal_with_fuel(backoff_ms, 3);
        }
        return ResponseStep::Retry { backoff_ms: ms };
    }
    ResponseStep::Fail
}

/// The message of a failed response: the `X-Seraph-LoginReason` and `X-AUSERNAME`
/// headers in brackets when present, then the first 300 characters of the body, or the
/// status's reason phrase when that part of the body is blank.
pub open spec fn http_error_message_spec(
    status: u16,
    seraph: Option<Seq<char>>,
    auser: Option<Seq<char>>,
    body: Seq<char>,
) -> Seq<char> {
    let parts: Seq<Seq<char>> = (match seraph {
        Some(s) => seq!["X-Seraph-LoginReason="@ + s],
        None => seq![],
    }) + (match auser {
        Some(a) => seq!["X-AUSERNAME="@ + a],
        None => seq![],
    });
    let prefix = if parts.len() == 0 {
        seq![]
    } else {
        "["@ + join(parts, ", "@) + "] "@
    };
    let snippet = if body.len() <= 300 {
        body
    } else {
        body.take(300)
    };
    if is_blank(snippet) {
        prefix + match reason_phrase_of(status) {
            Some(r) => r,
            None => seq![],
        }
    } else {
        prefix + snippet
    }
}

/// The error for a failed response (see [`http_error_message_spec`]).
pub fn http_error(status: u16, seraph: Option<String>, auser: Option<String>, body: &str) -> (e:
    ConfluenceError)
    ensures
        e matches ConfluenceError::Http { status: s, message: m } && s == status && m@
            == http_error_message_spec(status, opt_view(seraph), opt_view(auser), body@),
{
    let mut parts: Vec<Vec<char>> = Vec::new();
    if let Some(s) = &seraph {
        let mut v = chars_of("X-Seraph-LoginReason=");
        extend_str(&mut v, s.as_str());
        parts.push(v);
    }
    if let Some(a) = &auser {
        let mut v = chars_of("X-AUSERNAME=");
        extend_str(&mut v, a.as_str());
        parts.push(v);
    }
    let ghost pv = parts@.map_values(|p: Vec<char>| p@);
    let ghost expected: Seq<Seq<char>> = (match opt_view(seraph) {
        Some(s) => seq!["X-Seraph-LoginReason="@ + s],
        None => seq![],
    }) + (match opt_view(auser) {
        Some(a) => seq!["X-AUSERNAME="@ + a],
        None => seq![],
    });
    assert(pv =~= expected);
    let mut msg: Vec<char> = Vec::new();
    if parts.len() > 0 {
        extend_str(&mut msg, "[");
        extend(&mut msg, &parts[0]);
        if parts.len() > 1 {
            extend_str(&mut msg, ", ");
            extend(&mut msg, &parts[1]);
        }
        extend_str(&mut msg, "] ");
        proof {
            if pv.len() == 1 {
                assert(join(pv, ", "@) == pv[0]);
            } else {
                assert(pv.drop_last() =~= seq![pv[0]]);
                assert(join(pv.drop_last(), ", "@) == pv[0]);
            }
        }
    }
    let chars = chars_of(body);
    let snippet = if chars.len() <= 300 {
        slice(&chars, 0, chars.len())
    } else {
        slice(&chars, 0, 300)
    };
    assert(chars@.subrange(0, chars@.len() as int) =~= chars@);
    assert(chars@.subrange(0, 300) =~= chars@.take(300));
    if is_blank_exec(&snippet) {
        if let Some(r) = canonical_reason(status) {
            extend_str(&mut msg, r.as_str());
        }
    } else {
        extend(&mut msg, &snippet);
    }
    ConfluenceError::Http { status, message: string_of(&msg) }
}

// ---------------------------------------------------------------------------
// Laws
// ---------------------------------------------------------------------------

/// A usable configuration always authenticates.
pub proof fn law_valid_config_authenticates(c: Config)
    requires
        config_valid(c),
    ensures
        authorization_spec(c) is Some,
{
}

/// A token takes priority over username and password.
pub proof fn law_token_priority(c: Config)
    requires
        c.token is Some,
    ensures
        authorization_spec(c) == Some("Bearer "@ + c.token->0@),
{
}

/// A request is sent at most four times: only the first three failures with 429 or 503
/// are retried, after waiting 1 s, 2 s and 4 s.
pub proof fn law_retry_budget(status: u16, attempt: u32)
    ensures
        response_step_spec(status, attempt) matches ResponseStep::Retry { backoff_ms: ms } ==> attempt < 3
            && ms <= 4000,
        backoff_ms(0) + backoff_ms(1) + backoff_ms(2) == 7000,
{
    reveal_with_fuel(backoff_ms, 3);
}

} // verus!
