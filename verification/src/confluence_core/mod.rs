//! Shared core: configuration, errors, URL parsing, proxy selection, text helpers and
//! the request/response rules of the REST client.

pub mod url_parse;
pub mod format;
pub mod system_proxy;
pub mod pac;
pub mod error;
pub mod config;
pub mod client;
