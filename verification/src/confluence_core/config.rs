//! Connection settings, read from `CONFLUENCE_*` environment variables.

use vstd::prelude::*;
use crate::text::{
    trim_end_char, parse_u32, parse_usize, chars_of, string_of, trim_end_char_exec, str_eq,
    parse_u32_exec, parse_usize_exec,
};
use crate::outside::{opt_view, pair_view, lowercase_of, to_lowercase};
use crate::confluence_core::url_parse::first_value;
use crate::confluence_core::error::ConfluenceError;

verus! {

broadcast use vstd::string::group_string_axioms;

/// How the server reaches Confluence.
#[derive(Debug, Clone)]
pub struct Config {
    pub confluence_url: String,
    pub username: Option<String>,
    pub password: Option<String>,
    pub token: Option<String>,
    pub ssl_verify: bool,
    pub ca_bundle: Option<String>,
    pub proxy_url: Option<String>,
    /// Request timeout, in seconds.
    pub timeout_secs: u64,
    /// Requests allowed in flight at once.
    pub rate_limit: u32,
    pub max_content_length: usize,
    pub default_search_limit: u32,
    pub log_level: String,
}

/// The view of an environment listing.
pub open spec fn vars_view(vars: Seq<(String, String)>) -> Seq<(Seq<char>, Seq<char>)> {
    vars.map_values(|p: (String, String)| pair_view(p))
}

/// The value of a variable when it is set and non-empty.
pub open spec fn env_value(vars: Seq<(Seq<char>, Seq<char>)>, key: Seq<char>) -> Option<Seq<char>> {
    match first_value(vars, key) {
        Some(v) => if v.len() > 0 {
            Some(v)
        } else {
            None
        },
        None => None,
    }
}

/// A boolean variable: false when its lower-case value is `false`, `0` or `no`, true for
/// any other value, `default` when unset.
pub open spec fn env_bool(vars: Seq<(Seq<char>, Seq<char>)>, key: Seq<char>, default: bool) -> bool {
    match env_value(vars, key) {
        Some(v) => {
            let l = lowercase_of(v);
            !(l == "false"@ || l == "0"@ || l == "no"@)
        },
        None => default,
    }
}

/// A `u32` variable; `default` when unset or not a number.
pub open spec fn env_u32(vars: Seq<(Seq<char>, Seq<char>)>, key: Seq<char>, default: u32) -> u32 {
    match env_value(vars, key) {
        Some(v) => match parse_u32(v) {
            Some(n) => n,
            None => default,
        },
        None => default,
    }
}

/// A `usize` variable; `default` when unset or not a number.
pub open spec fn env_usize(vars: Seq<(Seq<char>, Seq<char>)>, key: Seq<char>, default: usize) -> usize {
    match env_value(vars, key) {
        Some(v) => match parse_usize(v) {
            Some(n) => n,
            None => default,
        },
        None => default,
    }
}

/// The settings that an environment listing gives.
pub open spec fn config_from_vars(c: Config, vars: Seq<(Seq<char>, Seq<char>)>) -> bool {
    &&& c.confluence_url@ == trim_end_char(
        match env_value(vars, "CONFLUENCE_URL"@) {
            Some(v) => v,
            None => seq![],
        },
        '/',
    )
    &&& opt_view(c.username) == env_value(vars, "CONFLUENCE_USERNAME"@)
    &&& opt_view(c.password) == env_value(vars, "CONFLUENCE_PASSWORD"@)
    &&& opt_view(c.token) == env_value(vars, "CONFLUENCE_TOKEN"@)
    &&& c.ssl_verify == env_bool(vars, "CONFLUENCE_SSL_VERIFY"@, true)
    &&& opt_view(c.ca_bundle) == env_value(vars, "CONFLUENCE_CA_BUNDLE"@)
    &&& opt_view(c.proxy_url) == env_value(vars, "CONFLUENCE_PROXY_URL"@)
    &&& c.timeout_secs == env_u32(vars, "CONFLUENCE_TIMEOUT"@, 30) as u64
    &&& c.rate_limit == env_u32(vars, "CONFLUENCE_RATE_LIMIT"@, 10)
    &&& c.max_content_length == env_usize(vars, "MAX_CONTENT_LENGTH"@, 50000)
    &&& c.default_search_limit == env_u32(vars, "DEFAULT_SEARCH_LIMIT"@, 10)
    &&& c.log_level@ == match env_value(vars, "LOG_LEVEL"@) {
        Some(v) => v,
        None => "INFO"@,
    }
}

/// The configuration is usable: a URL, and a token or both username and password.
pub open spec fn config_valid(c: Config) -> bool {
    c.confluence_url@.len() > 0 && (c.token is Some || (c.username is Some && c.password is Some))
}

/// Why a configuration is unusable.
pub open spec fn validation_message(c: Config) -> Seq<char> {
    if c.confluence_url@.len() == 0 {
        "CONFLUENCE_URL is required"@
    } else {
        "Either CONFLUENCE_TOKEN or both CONFLUENCE_USERNAME and CONFLUENCE_PASSWORD are required"@
    }
}

/// The message of a configuration error.
pub open spec fn config_message(e: ConfluenceError) -> Option<Seq<char>> {
    match e {
        ConfluenceError::Config(m) => Some(m@),
        _ => None,
    }
}

fn env_value_exec(vars: &Vec<(String, String)>, key: &str) -> (r: Option<String>)
    ensures
        opt_view(r) == env_value(vars_view(vars@), key@),
{
    let ghost m = vars_view(vars@);
    let n = vars.len();
    assert(m.skip(0) =~= m);
    for i in 0..n
        invariant
            n == vars@.len(),
            m == vars_view(vars@),
            first_value(m, key@) == first_value(m.skip(i as int), key@),
    {
        let ghost rest = m.skip(i as int);
        assert(rest[0] == pair_view(vars@[i as int]));
        assert(rest.drop_first() =~= m.skip(i + 1));
        if str_eq(vars[i].0.as_str(), key) {
            let v = &vars[i].1;
            let c = chars_of(v.as_str());
            if c.len() > 0 {
                return Some(v.clone());
            } else {
                return None;
            }
        }
    }
    assert(m.skip(n as int) =~= Seq::<(Seq<char>, Seq<char>)>::empty());
    None
}

fn env_bool_exec(vars: &Vec<(String, String)>, key: &str, default: bool) -> (b: bool)
    ensures
        b == env_bool(vars_view(vars@), key@, default),
{
    match env_value_exec(vars, key) {
        Some(v) => {
            let l = to_lowercase(v.as_str());
            !(str_eq(l.as_str(), "false") || str_eq(l.as_str(), "0") || str_eq(l.as_str(), "no"))
        },
        None => default,
    }
}

fn env_u32_exec(vars: &Vec<(String, String)>, key: &str, default: u32) -> (n: u32)
    ensures
        n == env_u32(vars_view(vars@), key@, default),
{
    match env_value_exec(vars, key) {
        Some(v) => {
            let c = chars_of(v.as_str());
            match parse_u32_exec(&c) {
                Some(n) => n,
                None => default,
            }
        },
        None => default,
    }
}

fn env_usize_exec(vars: &Vec<(String, String)>, key: &str, default: usize) -> (n: usize)
    ensures
        n == env_usize(vars_view(vars@), key@, default),
{
    match env_value_exec(vars, key) {
        Some(v) => {
            let c = chars_of(v.as_str());
            match parse_usize_exec(&c) {
                Some(n) => n,
                None => default,
            }
        },
        None => default,
    }
}

impl Config {
    /// The settings given by an environment listing (name/value pairs, as the process
    /// environment holds them). Unset and empty variables count as absent; numbers that
    /// do not parse fall back to their defaults (timeout 30 s, rate limit 10, content
    /// length 50 000, search limit 10); the URL loses its trailing slashes.
    pub fn from_vars(vars: &Vec<(String, String)>) -> (c: Config)
        ensures
            config_from_vars(c, vars_view(vars@)),
    {
        let url = match env_value_exec(vars, "CONFLUENCE_URL") {
            Some(v) => chars_of(v.as_str()),
            None => Vec::new(),
        };
        let url = trim_end_char_exec(&url, '/');
        let log_level = match env_value_exec(vars, "LOG_LEVEL") {
            Some(v) => v,
            None => "INFO".to_string(),
        };
        let c = Config {
            confluence_url: string_of(&url),
            username: env_value_exec(vars, "CONFLUENCE_USERNAME"),
            password: env_value_exec(vars, "CONFLUENCE_PASSWORD"),
            token: env_value_exec(vars, "CONFLUENCE_TOKEN"),
            ssl_verify: env_bool_exec(vars, "CONFLUENCE_SSL_VERIFY", true),
            ca_bundle: env_value_exec(vars, "CONFLUENCE_CA_BUNDLE"),
            proxy_url: env_value_exec(vars, "CONFLUENCE_PROXY_URL"),
            timeout_secs: env_u32_exec(vars, "CONFLUENCE_TIMEOUT", 30) as u64,
            rate_limit: env_u32_exec(vars, "CONFLUENCE_RATE_LIMIT", 10),
            max_content_length: env_usize_exec(vars, "MAX_CONTENT_LENGTH", 50000),
            default_search_limit: env_u32_exec(vars, "DEFAULT_SEARCH_LIMIT", 10),
            log_level,
        };
        assert(Seq::<char>::empty() =~= seq![]);
        c
    }

    /// Checks that the URL is set, and a token or both username and password.
    pub fn validate(&self) -> (r: Result<(), ConfluenceError>)
        ensures
            r is Ok <==> config_valid(*self),
            r matches Err(e) ==> config_message(e) == Some(validation_message(*self)),
    {
        let url = chars_of(self.confluence_url.as_str());
        if url.len() == 0 {
            return Err(ConfluenceError::Config("CONFLUENCE_URL is required".to_string()));
        }
        if self.token.is_none() && (self.username.is_none() || self.password.is_none()) {
            return Err(
                ConfluenceError::Config(
                    "Either CONFLUENCE_TOKEN or both CONFLUENCE_USERNAME and CONFLUENCE_PASSWORD are required".to_string(),
                ),
            );
        }
        Ok(())
    }

    /// `bearer token` when a token is set, `basic auth` otherwise.
    pub fn auth_method(&self) -> (m: &'static str)
        ensures
            m@ == if self.token is Some {
                "bearer token"@
            } else {
                "basic auth"@
            },
    {
        if self.token.is_some() {
            "bearer token"
        } else {
            "basic auth"
        }
    }
}

} // verus!
