//! The proxy to pre-fill in the wizard, from the user's Internet Options proxy setting.
//! Reading that setting is the application's part (and only happens on Windows).

use vstd::prelude::*;
use crate::outside::opt_view;
use crate::confluence_core::system_proxy::{normalize_ie_proxy, normalize_ie_proxy_spec};

verus! {

/// The proxy URL to pre-fill, from the raw Internet Options proxy setting when there is
/// one: `https=` entries preferred, then `http=`, then a plain `host:port`, with
/// `http://` put in front when no scheme is given.
pub fn detect(ie_proxy: Option<String>) -> (r: Option<String>)
    ensures
        opt_view(r) == match opt_view(ie_proxy) {
            Some(s) => normalize_ie_proxy_spec(s),
            None => None,
        },
{
    match ie_proxy {
        Some(s) => normalize_ie_proxy(s.as_str()),
        None => None,
    }
}

} // verus!
