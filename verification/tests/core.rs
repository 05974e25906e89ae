use confluence_connect::confluence_core::client::{
    client_settings, list_spaces_request, page_by_title_request, page_request, response_step,
    search_request, child_request, request_url, http_error, ProxySetting, ResponseStep,
};
use confluence_connect::confluence_core::config::Config;
use confluence_connect::confluence_core::error::ConfluenceError;
use confluence_connect::confluence_core::format::{strip_html, truncate};
use confluence_connect::confluence_core::pac::{choose_proxy, looks_like_pac_url, WPAD_SENTINEL};
use confluence_connect::confluence_core::system_proxy::{normalize_ie_proxy, Detected};
use confluence_connect::confluence_core::url_parse::{parse_confluence_url, ParsedUrl};
use confluence_connect::configurator::system_proxy::detect as configurator_detect;

fn vars(pairs: &[(&str, &str)]) -> Vec<(String, String)> {
    pairs.iter().map(|(k, v)| (k.to_string(), v.to_string())).collect()
}

fn host_port(list: &str, scheme: &str) -> (String, u16) {
    let (text, u) = choose_proxy(list, scheme).unwrap();
    assert!(text.starts_with("http://"));
    (u.host.unwrap(), u.port.unwrap())
}

// ----- URL parsing -----

#[test]
fn format_1_page_id_query_param() {
    let r = parse_confluence_url("http://wiki/pages/viewpage.action?pageId=12345");
    assert_eq!(r.page_id.as_deref(), Some("12345"));
    assert_eq!(r.space_key, None);
    assert_eq!(r.title, None);
}

#[test]
fn format_2_display_space_title() {
    let r = parse_confluence_url("http://wiki/display/DEV/My+Page");
    assert_eq!(r.space_key.as_deref(), Some("DEV"));
    assert_eq!(r.title.as_deref(), Some("My Page"));
    assert_eq!(r.page_id, None);
}

#[test]
fn format_3_display_with_query() {
    let r = parse_confluence_url("http://wiki/display/DEV/My+Page?src=foo");
    assert_eq!(r.space_key.as_deref(), Some("DEV"));
    assert_eq!(r.title.as_deref(), Some("My Page"));
}

#[test]
fn format_4_spaces_pages() {
    let r = parse_confluence_url("http://wiki/spaces/DEV/pages/999/My+Page");
    assert_eq!(r.space_key.as_deref(), Some("DEV"));
    assert_eq!(r.page_id.as_deref(), Some("999"));
    assert_eq!(r.title.as_deref(), Some("My Page"));
}

#[test]
fn format_5_tiny_url() {
    let r = parse_confluence_url("http://wiki/x/abc-123_DEF");
    assert_eq!(r.page_id.as_deref(), Some("tinyurl:abc-123_DEF"));
}

#[test]
fn format_6_pages_id_only() {
    let r = parse_confluence_url("http://wiki/pages/55555");
    assert_eq!(r.page_id.as_deref(), Some("55555"));
}

#[test]
fn format_7_wiki_context_prefix_stripped() {
    let r = parse_confluence_url("http://wiki/wiki/display/HR/On+Call");
    assert_eq!(r.space_key.as_deref(), Some("HR"));
    assert_eq!(r.title.as_deref(), Some("On Call"));
}

#[test]
fn format_8_confluence_context_prefix_stripped() {
    let r = parse_confluence_url("http://wiki/confluence/display/OPS/Runbook");
    assert_eq!(r.space_key.as_deref(), Some("OPS"));
    assert_eq!(r.title.as_deref(), Some("Runbook"));
}

#[test]
fn fallback_numeric_segment() {
    let r = parse_confluence_url("http://wiki/somewhere/123456/extra");
    assert_eq!(r.page_id.as_deref(), Some("123456"));
}

#[test]
fn unparseable_returns_empty() {
    let r = parse_confluence_url("not a url at all!!!");
    assert_eq!(r, ParsedUrl::default());
}

#[test]
fn page_id_query_wins_over_path_shapes() {
    let r = parse_confluence_url("http://wiki/display/DEV/Page?pageId=77");
    assert_eq!(r.page_id.as_deref(), Some("77"));
}

#[test]
fn percent_encoded_title_is_decoded() {
    let r = parse_confluence_url("http://wiki/display/DEV/A%20B%2BC");
    assert_eq!(r.title.as_deref(), Some("A B+C"));
}

// ----- Configuration -----

#[test]
fn validate_requires_url() {
    let cfg = Config::from_vars(&vars(&[]));
    assert!(matches!(cfg.validate(), Err(ConfluenceError::Config(_))));
}

#[test]
fn validate_requires_auth() {
    let cfg = Config::from_vars(&vars(&[("CONFLUENCE_URL", "https://wiki.example.com")]));
    assert!(matches!(cfg.validate(), Err(ConfluenceError::Config(_))));
}

#[test]
fn validate_accepts_token_auth() {
    let cfg = Config::from_vars(&vars(&[
        ("CONFLUENCE_URL", "https://wiki.example.com/"),
        ("CONFLUENCE_TOKEN", "abc123"),
    ]));
    assert_eq!(cfg.confluence_url, "https://wiki.example.com");
    assert!(cfg.validate().is_ok());
    assert_eq!(cfg.auth_method(), "bearer token");
}

#[test]
fn ssl_verify_defaults_true_and_honors_false() {
    let cfg = Config::from_vars(&vars(&[]));
    assert!(cfg.ssl_verify);
    let cfg = Config::from_vars(&vars(&[("CONFLUENCE_SSL_VERIFY", "false")]));
    assert!(!cfg.ssl_verify);
}

#[test]
fn config_defaults_and_numbers() {
    let cfg = Config::from_vars(&vars(&[
        ("CONFLUENCE_URL", "https://w//"),
        ("CONFLUENCE_TIMEOUT", "12"),
        ("CONFLUENCE_RATE_LIMIT", "x"),
        ("CONFLUENCE_SSL_VERIFY", "NO"),
        ("CONFLUENCE_USERNAME", ""),
    ]));
    assert_eq!(cfg.confluence_url, "https://w");
    assert_eq!(cfg.timeout_secs, 12);
    assert_eq!(cfg.rate_limit, 10);
    assert_eq!(cfg.max_content_length, 50_000);
    assert_eq!(cfg.default_search_limit, 10);
    assert_eq!(cfg.log_level, "INFO");
    assert!(!cfg.ssl_verify);
    assert_eq!(cfg.username, None);
}

#[test]
fn validation_messages_name_the_missing_settings() {
    let cfg = Config::from_vars(&vars(&[]));
    match cfg.validate() {
        Err(e) => assert_eq!(e.to_message(), "Configuration error: CONFLUENCE_URL is required"),
        Ok(()) => panic!("expected an error"),
    }
    let cfg = Config::from_vars(&vars(&[
        ("CONFLUENCE_URL", "https://w"),
        ("CONFLUENCE_USERNAME", "u"),
    ]));
    assert_eq!(cfg.auth_method(), "basic auth");
    match cfg.validate() {
        Err(ConfluenceError::Config(m)) => assert_eq!(
            m,
            "Either CONFLUENCE_TOKEN or both CONFLUENCE_USERNAME and CONFLUENCE_PASSWORD are required"
        ),
        _ => panic!("expected a configuration error"),
    }
}

// ----- Errors -----

#[test]
fn http_error_formats_status_and_message() {
    let err = ConfluenceError::Http { status: 404, message: "Not found".into() };
    assert_eq!(err.to_message(), "Confluence API error (HTTP 404): Not found");
    assert_eq!(err.status_code(), 404);
}

#[test]
fn non_http_error_status_is_zero() {
    let err = ConfluenceError::Config("no url".into());
    assert_eq!(err.status_code(), 0);
}

#[test]
fn other_error_messages() {
    assert_eq!(ConfluenceError::Network("boom".into()).to_message(), "Network error: boom");
    assert_eq!(ConfluenceError::Json("bad".into()).to_message(), "JSON error: bad");
    assert_eq!(ConfluenceError::Json("bad".into()).status_code(), 0);
}

// ----- PAC -----

#[test]
fn picks_first_of_semicolon_list() {
    assert_eq!(host_port("a:3128; b:3128", "http"), ("a".into(), 3128));
}

#[test]
fn per_scheme_https_for_https_target() {
    assert_eq!(host_port("http=a:80;https=b:443", "https"), ("b".into(), 443));
}

#[test]
fn per_scheme_http_for_http_target() {
    assert_eq!(host_port("http=a:80;https=b:443", "http"), ("a".into(), 80));
}

#[test]
fn handles_whitespace_delimited_list() {
    assert_eq!(host_port("a:3128 b:3128", "http"), ("a".into(), 3128));
}

#[test]
fn pac_list_without_usable_entry_gives_none() {
    assert!(choose_proxy("", "http").is_none());
    assert!(choose_proxy("ftp=x:1", "https").is_none());
}

#[test]
fn detects_dot_pac_suffix() {
    assert!(looks_like_pac_url("http://proxy.corp/proxy.pac"));
    assert!(looks_like_pac_url("HTTPS://pac.corp/SCRIPT.PAC"));
}

#[test]
fn detects_wpad_dat() {
    assert!(looks_like_pac_url("http://wpad.corp/wpad.dat"));
}

#[test]
fn regular_proxy_is_not_pac() {
    assert!(!looks_like_pac_url("http://proxy.corp:3128"));
    assert!(!looks_like_pac_url("http://proxy.corp:3128/"));
}

#[test]
fn empty_or_garbage_is_not_pac() {
    assert!(!looks_like_pac_url(""));
    assert!(!looks_like_pac_url("not a url"));
}

#[test]
fn wpad_sentinel_is_pac() {
    assert!(looks_like_pac_url(WPAD_SENTINEL));
}

#[test]
fn pac_needs_a_web_or_file_scheme() {
    assert!(!looks_like_pac_url("ftp://proxy.corp/proxy.pac"));
    assert!(looks_like_pac_url("  file:///etc/proxy.pac  "));
}

// ----- System proxy -----

#[test]
fn system_proxy_plain_host_port_gets_http_scheme() {
    assert_eq!(normalize_ie_proxy("proxy.corp:3128"), Some("http://proxy.corp:3128".into()));
    assert_eq!(
        configurator_detect(Some("proxy.corp:3128".into())),
        Some("http://proxy.corp:3128".into())
    );
}

#[test]
fn system_proxy_per_scheme_prefers_https() {
    assert_eq!(normalize_ie_proxy("http=a:80;https=b:443"), Some("http://b:443".into()));
    assert_eq!(normalize_ie_proxy("https=;http=a:80"), Some("http://a:80".into()));
    assert_eq!(configurator_detect(Some("http=a:80;https=b:443".into())), Some("http://b:443".into()));
}

#[test]
fn system_proxy_per_scheme_falls_back_to_http() {
    assert_eq!(normalize_ie_proxy("http=a:80"), Some("http://a:80".into()));
    assert_eq!(configurator_detect(Some("http=a:80".into())), Some("http://a:80".into()));
}

#[test]
fn system_proxy_blank_returns_none() {
    assert_eq!(normalize_ie_proxy("   "), None);
    assert_eq!(configurator_detect(Some("   ".into())), None);
    assert_eq!(configurator_detect(None), None);
}

#[test]
fn system_proxy_already_has_scheme_preserved() {
    assert_eq!(normalize_ie_proxy("http://p.corp:3128"), Some("http://p.corp:3128".into()));
    assert_eq!(
        configurator_detect(Some("http://p.corp:3128".into())),
        Some("http://p.corp:3128".into())
    );
}

#[test]
fn display_prefers_pac_over_static() {
    let d = Detected {
        static_proxy: Some("http://old-static:3128".into()),
        pac_url: Some("http://proxy.corp/proxy.pac".into()),
        auto_detect: false,
    };
    assert_eq!(d.display().as_deref(), Some("http://proxy.corp/proxy.pac"));
}

#[test]
fn display_falls_back_to_static_but_not_wpad_only() {
    let d = Detected {
        static_proxy: Some("http://proxy:3128".into()),
        pac_url: None,
        auto_detect: true,
    };
    assert_eq!(d.display().as_deref(), Some("http://proxy:3128"));
    let d = Detected { static_proxy: None, pac_url: None, auto_detect: true };
    assert_eq!(d.display(), None);
}

// ----- Text formatting -----

#[test]
fn strip_html_removes_tags() {
    assert_eq!(strip_html("<p>Hello <b>world</b></p>"), "Hello world");
}

#[test]
fn strip_html_handles_br_as_newline() {
    assert_eq!(strip_html("a<br>b<br/>c"), "a\nb\nc");
}

#[test]
fn strip_html_decodes_entities_in_place() {
    // Each entity becomes one character where it stands; the space from `&nbsp;` ends
    // the text here and is trimmed.
    assert_eq!(strip_html("&amp;&lt;&gt;&nbsp;"), "&<>");
    assert_eq!(strip_html("&amp;&lt;&gt;&nbsp;x"), "&<> x");
    assert_eq!(strip_html("a&amp;lt;b"), "a<b");
}

#[test]
fn strip_html_collapses_triple_newlines() {
    assert_eq!(strip_html("a\n\n\n\nb"), "a\n\nb");
}

#[test]
fn strip_html_block_ends_become_newlines() {
    assert_eq!(strip_html("<h2>T</h2><li>x</LI><BR />y"), "T\nx\n\ny");
}

#[test]
fn truncate_leaves_short_text_alone() {
    assert_eq!(truncate("hello", 100), "hello");
}

#[test]
fn truncate_appends_marker_when_long() {
    let r = truncate("abcdefghij", 5);
    assert!(r.starts_with("abcde"));
    assert!(r.contains("truncated"));
    assert!(r.contains("10 chars"));
}

#[test]
fn truncate_exact_marker() {
    assert_eq!(truncate("abcdefghij", 5), "abcde\n\n... [truncated — 10 chars total]");
    assert_eq!(truncate("héllo", 5), "héllo");
}

// ----- Client -----

#[test]
fn bearer_token_sets_authorization() {
    let mut cfg = Config::from_vars(&vars(&[
        ("CONFLUENCE_URL", "https://w"),
        ("CONFLUENCE_TOKEN", "secret-token"),
    ]));
    cfg.proxy_url = None;
    let s = client_settings(&cfg).unwrap();
    assert_eq!(s.authorization.as_deref(), Some("Bearer secret-token"));
    assert!(matches!(s.proxy, ProxySetting::Direct));
}

#[test]
fn basic_auth_encodes_user_and_password() {
    let cfg = Config::from_vars(&vars(&[
        ("CONFLUENCE_URL", "https://w"),
        ("CONFLUENCE_USERNAME", "alice"),
        ("CONFLUENCE_PASSWORD", "s3cret"),
    ]));
    let s = client_settings(&cfg).unwrap();
    assert_eq!(s.authorization.as_deref(), Some("Basic YWxpY2U6czNjcmV0"));
}

#[test]
fn proxy_settings_by_kind() {
    let pac = Config::from_vars(&vars(&[
        ("CONFLUENCE_URL", "https://w"),
        ("CONFLUENCE_TOKEN", "t"),
        ("CONFLUENCE_PROXY_URL", "http://p/proxy.pac"),
    ]));
    assert!(matches!(client_settings(&pac).unwrap().proxy, ProxySetting::Pac(ref u) if u == "http://p/proxy.pac"));
    let fixed = Config::from_vars(&vars(&[
        ("CONFLUENCE_URL", "https://w"),
        ("CONFLUENCE_TOKEN", "t"),
        ("CONFLUENCE_PROXY_URL", " http://p:3128 "),
    ]));
    assert!(matches!(client_settings(&fixed).unwrap().proxy, ProxySetting::Fixed(ref u) if u == "http://p:3128"));
}

#[test]
fn request_paths_and_queries() {
    let r = search_request("type=page", 5, "");
    assert_eq!(r.path, "/rest/api/content/search");
    assert!(r.query.contains(&("cql".to_string(), "type=page".to_string())));
    assert!(r.query.contains(&("limit".to_string(), "5".to_string())));
    let r = page_request("12345", "body.storage");
    assert_eq!(r.path, "/rest/api/content/12345");
    assert!(r.query.contains(&("expand".to_string(), "body.storage".to_string())));
    let r = page_by_title_request("DEV", "My Page", "");
    assert_eq!(r.path, "/rest/api/content");
    assert!(r.query.contains(&("spaceKey".to_string(), "DEV".to_string())));
    assert!(r.query.contains(&("title".to_string(), "My Page".to_string())));
    let r = child_request("99", "comment", "", 25);
    assert_eq!(r.path, "/rest/api/content/99/child/comment");
    let r = list_spaces_request(None, 10, "");
    assert_eq!(r.path, "/rest/api/space");
    assert_eq!(request_url("https://w", "/rest/api/space"), "https://w/rest/api/space");
}

#[test]
fn retries_back_off_then_give_up() {
    assert_eq!(response_step(200, 0), ResponseStep::Success);
    assert_eq!(response_step(429, 0), ResponseStep::Retry { backoff_ms: 1000 });
    assert_eq!(response_step(503, 2), ResponseStep::Retry { backoff_ms: 4000 });
    assert_eq!(response_step(429, 3), ResponseStep::Fail);
    assert_eq!(response_step(401, 0), ResponseStep::Fail);
}

#[test]
fn maps_401_to_http_error() {
    match http_error(401, None, None, "Unauthorized") {
        ConfluenceError::Http { status, message } => {
            assert_eq!(status, 401);
            assert_eq!(message, "Unauthorized");
        }
        _ => panic!("expected an HTTP error"),
    }
    match http_error(403, Some("AUTHENTICATION_DENIED".into()), None, "  ") {
        ConfluenceError::Http { message, .. } => {
            assert_eq!(message, "[X-Seraph-LoginReason=AUTHENTICATION_DENIED] Forbidden")
        }
        _ => panic!("expected an HTTP error"),
    }
}

#[test]
fn token_with_control_character_is_refused_as_header() {
    let cfg = Config::from_vars(&vars(&[("CONFLUENCE_URL", "https://w"), ("CONFLUENCE_TOKEN", "a\nb")]));
    match client_settings(&cfg) {
        Err(ConfluenceError::Config(m)) => assert_eq!(m, "invalid token: failed to parse header value"),
        other => panic!("unexpected: {other:?}"),
    }
    let tab = Config::from_vars(&vars(&[("CONFLUENCE_URL", "https://w"), ("CONFLUENCE_TOKEN", "a\tb")]));
    assert!(client_settings(&tab).is_ok());
}
