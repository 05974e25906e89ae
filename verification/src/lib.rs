//! A verified library for reading Confluence Server / Data Center content on behalf of
//! an assistant: parsing page URLs, choosing proxies, building REST requests and
//! rendering their answers, and the bookkeeping of the desktop configurator.

use vstd::prelude::*;

pub mod text;
pub mod outside;
pub mod confluence_core;
pub mod configurator;
pub mod server;

verus! {
} // verus!
