//! The library's error type.

use vstd::prelude::*;
use crate::text::{dec, chars_of, string_of, extend, extend_str, dec_u64};

verus! {

broadcast use vstd::string::group_string_axioms;

/// What can go wrong talking to Confluence. Network and JSON failures carry the text of
/// the underlying error.
#[derive(Debug)]
pub enum ConfluenceError {
    Http { status: u16, message: String },
    Network(String),
    Config(String),
    Json(String),
}

/// The display text of an error.
pub open spec fn error_text(e: ConfluenceError) -> Seq<char> {
    match e {
        ConfluenceError::Http { status, message } => "Confluence API error (HTTP "@ + dec(
            status as nat,
        ) + "): "@ + message@,
        ConfluenceError::Network(t) => "Network error: "@ + t@,
        ConfluenceError::Config(t) => "Configuration error: "@ + t@,
        ConfluenceError::Json(t) => "JSON error: "@ + t@,
    }
}

impl ConfluenceError {
    /// The HTTP status of an API error; 0 for every other error.
    pub fn status_code(&self) -> (s: u16)
        ensures
            s == (match *self {
                ConfluenceError::Http { status, .. } => status,
                _ => 0,
            }),
    {
        match self {
            ConfluenceError::Http { status, .. } => *status,
            _ => 0,
        }
    }

    /// The display text: `Confluence API error (HTTP 404): Not found`,
    /// `Network error: ...`, `Configuration error: ...` or `JSON error: ...`.
    pub fn to_message(&self) -> (t: String)
        ensures
            t@ == error_text(*self),
    {
        let mut out: Vec<char> = Vec::new();
        match self {
            ConfluenceError::Http { status, message } => {
                extend_str(&mut out, "Confluence API error (HTTP ");
                let d = dec_u64(*status as u64);
                extend(&mut out, &d);
                extend_str(&mut out, "): ");
                extend_str(&mut out, message.as_str());
            },
            ConfluenceError::Network(t) => {
                extend_str(&mut out, "Network error: ");
                extend_str(&mut out, t.as_str());
            },
            ConfluenceError::Config(t) => {
                extend_str(&mut out, "Configuration error: ");
                extend_str(&mut out, t.as_str());
            },
            ConfluenceError::Json(t) => {
                extend_str(&mut out, "JSON error: ");
                extend_str(&mut out, t.as_str());
            },
        }
        string_of(&out)
    }
}

} // verus!
