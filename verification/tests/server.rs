use confluence_connect::confluence_core::error::ConfluenceError;
use confluence_connect::server::format::{
    ancestors_string, error_response, labels_string, page_url, PageInfo,
};
use confluence_connect::server::handler::{
    body_format_or_default, error_snippet, error_status, get_page_expand, limit_or, output_size,
    page_by_url_expand, search_limit, space_type_filter, title_not_found,
};
use confluence_connect::server::recorder::{lines_to_keep, startup_cut, truncation_due, Recorder};
use confluence_connect::server::tools::get_attachments::{self, AttachmentInfo};
use confluence_connect::server::tools::get_comments::{self, CommentInfo};
use confluence_connect::server::tools::get_page;
use confluence_connect::server::tools::get_page_by_title::{format_found, format_not_found};
use confluence_connect::server::tools::get_page_by_url::{
    format_tiny_url, format_title_lookup, format_unparseable, resolve, UrlResolution,
};
use confluence_connect::server::tools::list_spaces::{self, SpaceInfo};
use confluence_connect::server::tools::search_confluence;

fn s(x: &str) -> Option<String> {
    Some(x.to_string())
}

fn page(title: &str, name: &str, key: &str, version: u64, body: Option<&str>) -> PageInfo {
    PageInfo {
        id: s("1"),
        title: s(title),
        space_name: s(name),
        space_key: s(key),
        version: Some(version),
        body: body.map(String::from),
        ..Default::default()
    }
}

// ----- get_page_by_url -----

#[test]
fn resolves_page_id() {
    let r = resolve("http://wiki/pages/12345");
    assert!(matches!(r, UrlResolution::ById(id) if id == "12345"));
}

#[test]
fn resolves_space_title() {
    let r = resolve("http://wiki/display/DEV/My+Page");
    assert!(
        matches!(r, UrlResolution::BySpaceTitle { space, title } if space == "DEV" && title == "My Page")
    );
}

#[test]
fn resolves_tiny_url() {
    let r = resolve("http://wiki/x/abc");
    assert!(matches!(r, UrlResolution::TinyUrl(_)));
}

#[test]
fn unparseable_url_returns_variant() {
    let r = resolve("not a url");
    assert!(matches!(r, UrlResolution::Unparseable));
}

#[test]
fn url_notices_name_the_supported_shapes() {
    let r = format_unparseable("xyz");
    assert!(r.starts_with("❌ Could not parse the Confluence URL: xyz\n\nSupported formats:"));
    assert!(r.contains("get_page_by_title(space_key, title)"));
    assert!(format_tiny_url().starts_with("❌ Tiny URLs (/x/...) need server-side resolution."));
}

// ----- get_page_by_title -----

#[test]
fn not_found_message_mentions_search() {
    let r = format_not_found("DEV", "Runbook");
    assert!(r.contains("No page titled 'Runbook'"));
    assert!(r.contains("search_confluence"));
}

#[test]
fn found_includes_body() {
    let p = page("R", "Dev", "DEV", 1, Some("<p>content</p>"));
    let r = format_found(&p, "DEV", "http://wiki", 50_000);
    assert!(r.contains("# R"));
    assert!(r.contains("<p>content</p>"));
}

// ----- get_page -----

#[test]
fn header_includes_title_space_version() {
    let p = page("My Page", "Dev", "DEV", 3, None);
    let r = get_page::format(&p, "storage", false, "http://wiki", 50_000);
    assert!(r.contains("# My Page"));
    assert!(r.contains("Space: Dev (DEV)"));
    assert!(r.contains("Version: 3"));
}

#[test]
fn body_included_when_requested() {
    let p = page("T", "S", "S", 1, Some("<p>hello</p>"));
    let r = get_page::format(&p, "storage", true, "http://wiki", 50_000);
    assert!(r.contains("<p>hello</p>"));
}

#[test]
fn view_format_strips_html() {
    let p = page("T", "S", "S", 1, Some("<p>hello</p>"));
    let r = get_page::format(&p, "view", true, "http://wiki", 50_000);
    assert!(r.contains("hello"));
    assert!(!r.contains("<p>"));
}

#[test]
fn page_links_labels_and_ancestors() {
    let p = PageInfo {
        label_names: vec![s("a"), None, s("b")],
        ancestor_titles: vec![s("Root"), s("Child")],
        link_base: s("https://w"),
        link_webui: s("/pages/1"),
        ..Default::default()
    };
    assert_eq!(labels_string(&p), "a, b");
    assert_eq!(ancestors_string(&p), "Root → Child");
    assert_eq!(page_url(&p, "http://fallback"), "https://w/pages/1");
    let q = PageInfo { link_webui: s("/x"), ..Default::default() };
    assert_eq!(page_url(&q, "http://fallback"), "http://fallback/x");
}

// ----- list_spaces -----

#[test]
fn list_spaces_empty_results_returns_placeholder() {
    assert_eq!(list_spaces::format(&vec![]), "No spaces found.");
}

#[test]
fn lists_spaces_with_names_and_keys() {
    let spaces = vec![
        SpaceInfo { name: s("Dev"), key: s("DEV"), space_type: s("global"), description: None },
        SpaceInfo { name: s("HR"), key: s("HR"), space_type: s("global"), description: None },
    ];
    let r = list_spaces::format(&spaces);
    assert!(r.contains("Dev"));
    assert!(r.contains("DEV"));
    assert!(r.contains("HR"));
}

#[test]
fn truncates_long_descriptions() {
    let long = "x".repeat(100);
    let spaces = vec![SpaceInfo {
        name: s("A"),
        key: s("A"),
        space_type: s("global"),
        description: Some(long),
    }];
    assert!(list_spaces::format(&spaces).contains("…"));
}

#[test]
fn list_spaces_format_includes_global_and_personal() {
    let spaces = vec![
        SpaceInfo { name: s("Team"), key: s("TEAM"), space_type: s("global"), description: None },
        SpaceInfo { name: s("Me"), key: s("~me"), space_type: s("personal"), description: None },
    ];
    let r = list_spaces::format(&spaces);
    assert!(r.contains("TEAM"));
    assert!(r.contains("~me"));
}

// ----- search_confluence -----

#[test]
fn search_confluence_empty_results_returns_placeholder() {
    let r = search_confluence::format(&vec![], Some(0), "http://wiki");
    assert!(r.contains("No results found"));
}

#[test]
fn includes_total_and_numbering() {
    let a = PageInfo { id: s("1"), title: s("A"), space_key: s("S"), version: Some(1), ..Default::default() };
    let b = PageInfo { id: s("2"), title: s("B"), space_key: s("S"), version: Some(2), ..Default::default() };
    let r = search_confluence::format(&vec![a, b], Some(2), "http://wiki");
    assert!(r.contains("Found 2 result"));
    assert!(r.contains("1. **A**"));
    assert!(r.contains("2. **B**"));
}

// ----- get_comments -----

#[test]
fn get_comments_empty_results_returns_placeholder() {
    assert_eq!(get_comments::format(&vec![]), "No comments on this page.");
}

#[test]
fn renders_author_location_body() {
    let c = CommentInfo {
        author: s("Alice"),
        when: s("2026-04-01"),
        location: s("inline"),
        body_view: s("<p>hi</p>"),
    };
    let r = get_comments::format(&vec![c]);
    assert!(r.contains("**Alice** (inline)"));
    assert!(r.contains("hi"));
    assert!(r.contains("2026-04-01"));
}

// ----- get_attachments -----

#[test]
fn get_attachments_empty_results_returns_placeholder() {
    assert_eq!(get_attachments::format(&vec![], "http://wiki"), "No attachments on this page.");
}

#[test]
fn renders_title_type_download() {
    let a = AttachmentInfo {
        title: s("spec.pdf"),
        media_type: s("application/pdf"),
        download: s("/download/attachments/1/spec.pdf"),
        version: Some(2),
    };
    let r = get_attachments::format(&vec![a], "http://wiki");
    assert!(r.contains("spec.pdf"));
    assert!(r.contains("application/pdf"));
    assert!(r.contains("http://wiki/download/attachments/1/spec.pdf"));
}

// ----- handler -----

#[test]
fn status_encoding_http_vs_client_error() {
    let http_err = ConfluenceError::Http { status: 403, message: "denied".into() };
    assert_eq!(http_err.status_code(), 403);
    assert_eq!(error_status(http_err.status_code()), "403");
    let cfg_err = ConfluenceError::Config("bad config".into());
    assert_eq!(cfg_err.status_code(), 0);
    assert_eq!(error_status(cfg_err.status_code()), "error");
}

#[test]
fn error_response_prefixes_cross() {
    let e = ConfluenceError::Http { status: 404, message: "Not found".into() };
    assert_eq!(error_response(&e), "❌ Confluence API error (HTTP 404): Not found");
}

#[test]
fn tool_argument_defaults() {
    assert_eq!(limit_or(None, 50), 50);
    assert_eq!(limit_or(Some(7), 50), 7);
    assert_eq!(search_limit(None), 10);
    assert_eq!(search_limit(Some(0)), 1);
    assert_eq!(search_limit(Some(500)), 50);
    assert_eq!(space_type_filter(Some("all".into())), None);
    assert_eq!(space_type_filter(None), None);
    assert_eq!(space_type_filter(Some("personal".into())), Some("personal".into()));
    assert_eq!(body_format_or_default(None), "storage");
    assert_eq!(get_page_expand("view", true), "version,space,metadata.labels,ancestors,body.view");
    assert_eq!(get_page_expand("view", false), "version,space,metadata.labels,ancestors");
    assert_eq!(page_by_url_expand("storage"), "body.storage,version,space,metadata.labels,ancestors");
    assert_eq!(
        title_not_found("DEV", "X"),
        "No page titled 'X' found in space DEV.\nTip: Try search_confluence with: title~\"X\" AND space=DEV"
    );
}

#[test]
fn output_size_and_snippet() {
    assert_eq!(output_size("abcdéfgh"), (8, 2));
    let long = "y".repeat(400);
    assert_eq!(error_snippet(&long).chars().count(), 300);
    assert_eq!(error_snippet("short"), "short");
}

// ----- recorder -----

#[test]
fn truncation_every_hundredth_write() {
    assert!(!truncation_due(0));
    assert!(truncation_due(99));
    assert!(!truncation_due(100));
    assert!(truncation_due(199));
    let mut r = Recorder::new("/tmp/x".to_string());
    let mut due = 0;
    for _ in 0..250 {
        if r.maybe_truncate_history() {
            due += 1;
        }
    }
    assert_eq!(due, 2);
    assert_eq!(r.dir(), "/tmp/x");
}

#[test]
fn truncate_keeps_last_lines() {
    let lines: Vec<String> = (0..5).map(|i| format!("l{i}")).collect();
    assert_eq!(lines_to_keep(&lines, 10), None);
    assert_eq!(lines_to_keep(&lines, 2), Some(vec!["l3".to_string(), "l4".to_string()]));
}

#[test]
fn startup_cuts_long_files_to_their_last_lines() {
    let history: Vec<String> = (0..1005).map(|i| format!("h{i}")).collect();
    let errors: Vec<String> = (0..5).map(|i| format!("e{i}")).collect();
    let (h, e) = startup_cut(&history, &errors);
    let h = h.unwrap();
    assert_eq!(h.len(), 1000);
    assert_eq!(h[0], "h5");
    assert_eq!(h[999], "h1004");
    assert!(e.is_none());
    let errors: Vec<String> = (0..25).map(|i| format!("e{i}")).collect();
    let (h, e) = startup_cut(&vec![], &errors);
    assert!(h.is_none());
    let e = e.unwrap();
    assert_eq!(e.len(), 20);
    assert_eq!(e[0], "e5");
}

#[test]
fn title_lookup_renders_first_page_or_notice() {
    let none = format_title_lookup(&vec![], "DEV", "Home", "storage", "http://w", 100);
    assert_eq!(none, title_not_found("DEV", "Home"));
    let pages = vec![page("Home", "Dev", "DEV", 3, Some("hello")), page("Other", "Dev", "DEV", 1, None)];
    let text = format_title_lookup(&pages, "DEV", "Home", "storage", "http://w", 100);
    assert_eq!(text, get_page::format(&pages[0], "storage", true, "http://w", 100));
    assert!(text.contains("hello"));
    assert!(!text.contains("Other"));
}
