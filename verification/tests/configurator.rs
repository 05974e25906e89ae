use confluence_connect::confluence_core::error::ConfluenceError;
use confluence_connect::confluence_core::system_proxy::Detected;
use confluence_connect::configurator::analyzer::analyze;
use confluence_connect::configurator::claude_config::{
    confluence_env_entries, ConfluenceEntry, ExistingConfig, RawServerEntry,
};
use confluence_connect::configurator::config_doc::{
    accepts_entry, config_text_with_entry, config_text_without_entry, config_with_entry,
    config_without_entry, existing_config_of, json_get_exec, read_confluence_entry, Json,
};
use confluence_connect::configurator::commands::{
    check_external_url, config_for_test, config_from_entry, connected, connection_failure,
    connection_precheck, copied_message, detected_proxy_kind, diagnostics_markdown,
    entry_for_save, esc_md, format_error_chain, install_dir_of, is_private_or_local_host,
    is_server_process, live_test_result, loaded_config, remove_result, save_result,
    server_status_from, stop_result, url_host, IpAddress, ProcessInfo, SaveConfigArgs,
    SaveFailure, TestConnectionArgs,
};
use confluence_connect::configurator::installer::{
    default_install_dir, install_dir_candidates, is_sharing_violation, next_write_step, InstallPlatform,
    resolve_install_dir, server_binary_name, WriteStep,
};
use confluence_connect::configurator::stats::{jsonl_records, summarize, ErrorRow, HistoryRow};

fn row(ts: i64, tool: &str, status: &str, tokens: usize, page_id: Option<&str>) -> HistoryRow {
    HistoryRow {
        ts,
        tool: tool.into(),
        args_page_id: page_id.map(String::from),
        args_json: match page_id {
            Some(p) => format!("{{\"page_id\":\"{p}\"}}"),
            None => "{}".to_string(),
        },
        out_chars: tokens * 4,
        tokens_est: tokens,
        status: status.into(),
    }
}

fn err_row(ts: i64, message: &str) -> ErrorRow {
    ErrorRow { ts, tool: "get_page".into(), status: "403".into(), message: message.into() }
}

fn ipv4(a: u8, b: u8, c: u8, d: u8) -> Option<IpAddress> {
    Some(IpAddress::V4(a, b, c, d))
}

fn args(url: &str, user: &str, pass: &str, token: &str, proxy: &str) -> TestConnectionArgs {
    TestConnectionArgs {
        url: url.into(),
        username: user.into(),
        password: pass.into(),
        token: token.into(),
        ssl_verify: true,
        proxy_url: proxy.into(),
    }
}

// ----- analyzer -----

#[test]
fn no_tips_when_empty() {
    assert!(analyze(&vec![], 1_700_000_000).is_empty());
}

#[test]
fn repeated_page_fetch_fires_at_threshold() {
    let now = 1_700_000_000;
    let rows: Vec<HistoryRow> = (0..5).map(|i| row(now - i, "get_page", "ok", 100, Some("42"))).collect();
    assert!(analyze(&rows, now).iter().any(|t| t.id == "repeated_page_fetch"));
}

#[test]
fn repeated_page_fetch_does_not_fire_below_threshold() {
    let now = 1_700_000_000;
    let rows: Vec<HistoryRow> = (0..4).map(|i| row(now - i, "get_page", "ok", 100, Some("42"))).collect();
    assert!(!analyze(&rows, now).iter().any(|t| t.id == "repeated_page_fetch"));
}

#[test]
fn oversized_output_fires_on_large_call() {
    let now = 1_700_000_000;
    let rows = vec![row(now, "search_confluence", "ok", 25_000, None)];
    assert!(analyze(&rows, now).iter().any(|t| t.id == "oversized_output"));
}

#[test]
fn high_error_rate_fires_above_ten_percent() {
    let now = 1_700_000_000;
    let mut rows = Vec::new();
    for i in 0..8 {
        rows.push(row(now - i, "get_page", "ok", 50, Some("1")));
    }
    for i in 0..2 {
        rows.push(row(now - 20 - i, "get_page", "500", 50, Some("1")));
    }
    assert!(analyze(&rows, now).iter().any(|t| t.id == "high_error_rate"));
}

#[test]
fn frequent_403s_fires_on_same_page() {
    let now = 1_700_000_000;
    let rows: Vec<HistoryRow> = (0..3).map(|i| row(now - i, "get_page", "403", 50, Some("99"))).collect();
    assert!(analyze(&rows, now).iter().any(|t| t.id == "frequent_403s"));
}

#[test]
fn old_entries_ignored() {
    let now = 1_700_000_000;
    let eight_days = 8 * 86_400;
    let rows: Vec<HistoryRow> =
        (0..5).map(|i| row(now - eight_days - i, "get_page", "ok", 100, Some("42"))).collect();
    assert!(!analyze(&rows, now).iter().any(|t| t.id == "repeated_page_fetch"));
}

#[test]
fn low_error_rate_does_not_fire() {
    let now = 1_700_000_000;
    let mut rows: Vec<HistoryRow> = (0..19).map(|i| row(now - i, "search_confluence", "ok", 5, None)).collect();
    rows.push(row(now - 30, "search_confluence", "500", 5, None));
    assert!(!analyze(&rows, now).iter().any(|t| t.id == "high_error_rate"));
}

#[test]
fn error_rate_of_exactly_ten_percent_does_not_fire() {
    let now = 1_700_000_000;
    let mut rows: Vec<HistoryRow> =
        (0..9).map(|i| row(now - i, "search_confluence", "ok", 5, None)).collect();
    rows.push(row(now - 30, "search_confluence", "500", 5, None));
    assert!(!analyze(&rows, now).iter().any(|t| t.id == "high_error_rate"));
}

#[test]
fn at_most_three_tips_even_when_all_rules_fire() {
    let now = 1_700_000_000;
    let rows: Vec<HistoryRow> =
        (0..5).map(|i| row(now - i, "get_page", "403", 25_000, Some("7"))).collect();
    let tips = analyze(&rows, now);
    assert_eq!(tips.len(), 3);
    let ids: Vec<&str> = tips.iter().map(|t| t.id.as_str()).collect();
    assert_eq!(ids, vec!["repeated_page_fetch", "oversized_output", "high_error_rate"]);
}

// ----- stats -----

#[test]
fn empty_inputs_produce_seven_zero_days() {
    let s = summarize(&vec![], &vec![], 1_700_000_000).unwrap();
    assert_eq!(s.today_calls, 0);
    assert_eq!(s.today_tokens, 0);
    assert_eq!(s.today_errors, 0);
    assert_eq!(s.seven_day_tokens.len(), 7);
    assert!(s.seven_day_tokens.iter().all(|d| d.tokens == 0));
}

#[test]
fn today_counters_aggregate_correctly() {
    let now = 1_700_000_000;
    let history = vec![row(now - 10, "get_page", "ok", 100, None), row(now - 20, "get_page", "ok", 200, None)];
    let s = summarize(&history, &vec![], now).unwrap();
    assert_eq!(s.today_calls, 2);
    assert_eq!(s.today_tokens, 300);
    assert_eq!(s.last_call_ts, Some(now - 10));
    assert_eq!(s.seven_day_tokens[6].tokens, 300);
    assert_eq!(s.seven_day_tokens[6].calls, 2);
}

#[test]
fn errors_counted_for_today_only() {
    let now = 1_700_000_000;
    let day = 86_400i64;
    let errors = vec![err_row(now, "today"), err_row(now - 2 * day, "two days ago")];
    let s = summarize(&vec![], &errors, now).unwrap();
    assert_eq!(s.today_errors, 1);
}

#[test]
fn recent_errors_sorted_newest_first_truncated_to_20() {
    let base = 1_700_000_000;
    let errors: Vec<ErrorRow> = (0..30).map(|i| err_row(base - i, &format!("err{i}"))).collect();
    let s = summarize(&vec![], &errors, base).unwrap();
    assert_eq!(s.recent_errors.len(), 20);
    assert_eq!(s.recent_errors[0].message, "err0");
    assert_eq!(s.recent_errors[19].message, "err19");
}

#[test]
fn recent_errors_sort_unordered_input() {
    let errors = vec![err_row(5, "a"), err_row(9, "b"), err_row(7, "c")];
    let s = summarize(&vec![], &errors, 1_700_000_000).unwrap();
    let order: Vec<&str> = s.recent_errors.iter().map(|e| e.message.as_str()).collect();
    assert_eq!(order, vec!["b", "c", "a"]);
}

#[test]
fn jsonl_records_skip_blank_lines() {
    let r = jsonl_records("{\"a\":1}\r\n\n   \n{\"b\":2}\nnot json\n");
    assert_eq!(r, vec!["{\"a\":1}".to_string(), "{\"b\":2}".to_string(), "not json".to_string()]);
    assert!(jsonl_records("").is_empty());
}

// ----- assistant configuration -----

#[test]
fn reads_existing_confluence_entry() {
    let raw = RawServerEntry {
        command: Some("C:\\\\app\\\\server.exe".into()),
        url: Some("https://wiki.example.com".into()),
        token: Some("t".into()),
        ..Default::default()
    };
    let existing = ExistingConfig { path_exists: true, confluence: Some(ConfluenceEntry::from_raw(&raw)) };
    assert!(existing.confluence.is_some());
    let c = existing.confluence.unwrap();
    assert_eq!(c.url, "https://wiki.example.com");
    assert_eq!(c.token.as_deref(), Some("t"));
    assert!(c.ssl_verify);
}

#[test]
fn entry_read_defaults() {
    let raw = RawServerEntry {
        ssl_verify: Some("false".into()),
        proxy_url: Some(String::new()),
        ..Default::default()
    };
    let c = ConfluenceEntry::from_raw(&raw);
    assert_eq!(c.command, "");
    assert_eq!(c.url, "");
    assert!(!c.ssl_verify);
    assert_eq!(c.proxy_url, None);
}

#[test]
fn write_then_read_round_trip() {
    let e = ConfluenceEntry {
        command: "/opt/s".into(),
        url: "https://w//".into(),
        username: Some("u".into()),
        password: Some("p".into()),
        token: Some("t".into()),
        ssl_verify: false,
        proxy_url: Some("  http://p:1 ".into()),
    };
    let env = confluence_env_entries(&e);
    let get = |k: &str| env.iter().find(|(a, _)| a == k).map(|(_, v)| v.clone());
    assert_eq!(get("CONFLUENCE_URL").as_deref(), Some("https://w"));
    assert_eq!(get("MCP_TRANSPORT").as_deref(), Some("stdio"));
    assert_eq!(get("CONFLUENCE_TOKEN").as_deref(), Some("t"));
    assert_eq!(get("CONFLUENCE_USERNAME"), None);
    assert_eq!(get("CONFLUENCE_SSL_VERIFY").as_deref(), Some("false"));
    assert_eq!(get("CONFLUENCE_PROXY_URL").as_deref(), Some("http://p:1"));
    let raw = RawServerEntry {
        command: Some(e.command.clone()),
        url: get("CONFLUENCE_URL"),
        username: get("CONFLUENCE_USERNAME"),
        password: get("CONFLUENCE_PASSWORD"),
        token: get("CONFLUENCE_TOKEN"),
        ssl_verify: get("CONFLUENCE_SSL_VERIFY"),
        proxy_url: get("CONFLUENCE_PROXY_URL"),
    };
    let back = ConfluenceEntry::from_raw(&raw);
    assert_eq!(back.url, "https://w");
    assert_eq!(back.token.as_deref(), Some("t"));
    assert!(!back.ssl_verify);
    assert_eq!(back.proxy_url.as_deref(), Some("http://p:1"));
}

// ----- installer -----

#[test]
fn default_install_dir_is_under_known_variable() {
    let candidates = install_dir_candidates(InstallPlatform::Other, &vec!["/home/u".to_string()]);
    let p = default_install_dir(&candidates, &vec![false]);
    assert!(p.ends_with("ConfluenceConnect"), "unexpected path: {p}");
    assert_eq!(p, "/home/u/.local/share/ConfluenceConnect");
    let mac = install_dir_candidates(InstallPlatform::MacOs, &vec!["/Users/u/".to_string()]);
    assert_eq!(mac, vec!["/Users/u/Library/Application Support/ConfluenceConnect".to_string()]);
    let win = install_dir_candidates(InstallPlatform::Windows, &vec!["A".to_string(), "B".to_string()]);
    assert_eq!(win.len(), 2);
    assert!(win.iter().all(|c| c.ends_with("ConfluenceConnect")));
    let fallback = install_dir_candidates(InstallPlatform::Windows, &vec![]);
    let p = default_install_dir(&fallback, &vec![]);
    assert_eq!(p, "ConfluenceConnect");
}

#[test]
fn default_install_dir_takes_first_writable() {
    let c = vec!["A/ConfluenceConnect".to_string(), "B/ConfluenceConnect".to_string()];
    assert_eq!(default_install_dir(&c, &vec![false, true]), "B/ConfluenceConnect");
    assert_eq!(default_install_dir(&c, &vec![true]), "A/ConfluenceConnect");
    assert_eq!(default_install_dir(&c, &vec![false, false]), "A/ConfluenceConnect");
}

#[test]
fn resolve_install_dir_uses_override() {
    assert_eq!(resolve_install_dir(Some("/tmp/x".into())), Some("/tmp/x".to_string()));
    assert_eq!(resolve_install_dir(Some("   ".into())), None);
    assert_eq!(resolve_install_dir(None), None);
}

#[test]
fn binary_name_and_sharing_violation() {
    assert_eq!(server_binary_name(true), "confluence-mcp-server.exe");
    assert_eq!(server_binary_name(false), "confluence-mcp-server");
    assert!(is_sharing_violation(true, Some(32)));
    assert!(!is_sharing_violation(false, Some(32)));
    assert!(!is_sharing_violation(true, Some(5)));
}

#[test]
fn write_retries_back_off_and_end() {
    assert_eq!(next_write_step(0, true, false), WriteStep::Done);
    assert_eq!(next_write_step(0, false, false), WriteStep::Fail);
    assert_eq!(next_write_step(0, false, true), WriteStep::RetryAfter(150));
    assert_eq!(next_write_step(4, false, false), WriteStep::RetryAfter(750));
    assert_eq!(next_write_step(5, false, true), WriteStep::Fail);
}

// ----- commands -----

#[test]
fn private_ipv4_detected() {
    assert!(is_private_or_local_host("10.254.136.35", ipv4(10, 254, 136, 35)));
    assert!(is_private_or_local_host("192.168.1.1", ipv4(192, 168, 1, 1)));
    assert!(is_private_or_local_host("172.16.5.5", ipv4(172, 16, 5, 5)));
    assert!(is_private_or_local_host("127.0.0.1", ipv4(127, 0, 0, 1)));
}

#[test]
fn public_ipv4_not_private() {
    assert!(!is_private_or_local_host("8.8.8.8", ipv4(8, 8, 8, 8)));
    assert!(!is_private_or_local_host("172.15.0.1", ipv4(172, 15, 0, 1)));
}

#[test]
fn bare_hostname_treated_as_local() {
    assert!(is_private_or_local_host("wiki", None));
    assert!(is_private_or_local_host("intranet", None));
    assert!(is_private_or_local_host("localhost", None));
    assert!(is_private_or_local_host("LocalHost", None));
}

#[test]
fn fqdn_is_not_local() {
    assert!(!is_private_or_local_host("wiki.example.com", None));
    assert!(!is_private_or_local_host("confluence.corp.example", None));
}

#[test]
fn ipv6_loopback_is_local() {
    assert!(is_private_or_local_host("::1", Some(IpAddress::V6(0, 0, 0, 0, 0, 0, 0, 1))));
    assert!(!is_private_or_local_host("2001:db8::1", Some(IpAddress::V6(0x2001, 0xdb8, 0, 0, 0, 0, 0, 1))));
}

#[test]
fn esc_md_escapes_pipe() {
    assert_eq!(esc_md("a|b"), "a\\|b");
    assert_eq!(esc_md("no pipes"), "no pipes");
    assert_eq!(esc_md("|||"), "\\|\\|\\|");
}

#[test]
fn format_error_chain_adds_timeout_hint() {
    let err = ConfluenceError::Http { status: 0, message: "request timed out after 15s".into() };
    let out = format_error_chain(&err.to_message(), &vec![]);
    assert!(out.contains("Connection timed out"), "got: {out}");
}

#[test]
fn error_chain_drops_repeated_sources() {
    let out = format_error_chain(
        "Network error: error sending request: dns error",
        &vec!["error sending request".to_string(), "dns error: failed to lookup address".to_string()],
    );
    assert_eq!(
        out,
        "Network error: error sending request: dns error → dns error: failed to lookup address\n\nHint:\n- DNS lookup failed — the hostname isn't resolving. Check spelling and DNS/VPN."
    );
    assert_eq!(format_error_chain("plain", &vec![]), "plain");
}

#[test]
fn url_host_reads_trimmed_url() {
    assert_eq!(url_host("  https://wiki.corp:8443/x ").as_deref(), Some("wiki.corp"));
    assert_eq!(url_host("nonsense"), None);
}

#[test]
fn only_web_links_open() {
    assert!(check_external_url("https://x").is_ok());
    assert_eq!(check_external_url("file:///etc").unwrap_err(), "Refusing to open non-http(s) URL: file:///etc");
}

#[test]
fn wizard_loads_saved_entry() {
    let entry = ConfluenceEntry {
        command: "/opt/cc/server".into(),
        url: "https://w".into(),
        username: None,
        password: None,
        token: Some("t".into()),
        ssl_verify: false,
        proxy_url: None,
    };
    let existing = ExistingConfig { path_exists: true, confluence: Some(entry) };
    let d = Detected { static_proxy: None, pac_url: Some("http://p/x.pac".into()), auto_detect: true };
    let dir = install_dir_of("/opt/cc/server").unwrap();
    assert_eq!(dir, "/opt/cc");
    let l = loaded_config(&existing, dir, &d);
    assert!(l.config_exists && l.confluence_configured);
    assert_eq!(l.token, "t");
    assert_eq!(l.username, "");
    assert!(!l.ssl_verify);
    assert_eq!(l.detected_proxy_url, "http://p/x.pac");
    assert_eq!(l.detected_proxy_kind, "pac");
    let none = ExistingConfig::default();
    let l = loaded_config(&none, "D".into(), &Detected::default());
    assert!(l.ssl_verify && !l.confluence_configured);
    assert_eq!(l.detected_proxy_kind, "");
    let w = Detected { static_proxy: None, pac_url: None, auto_detect: true };
    assert_eq!(detected_proxy_kind(&w), "wpad");
}

#[test]
fn connection_test_prechecks() {
    let r = connection_precheck(&args("  ", "u", "p", "", "")).unwrap();
    assert!(!r.success);
    assert_eq!(r.message, "Please enter the Confluence URL.");
    let r = connection_precheck(&args("https://w", "u", "", "", "")).unwrap();
    assert_eq!(r.message, "Please enter either a Personal Access Token or both Username and Password.");
    assert!(connection_precheck(&args("https://w", "", "", "t", "")).is_none());
}

#[test]
fn connection_test_settings() {
    let c = config_for_test(&args("https://w/", "", "", "t", "  http://p:1 "));
    assert_eq!(c.confluence_url, "https://w");
    assert_eq!(c.token.as_deref(), Some("t"));
    assert_eq!(c.username, None);
    assert_eq!(c.proxy_url.as_deref(), Some("http://p:1"));
    assert_eq!(c.timeout_secs, 15);
    assert_eq!(c.rate_limit, 5);
    assert_eq!(c.log_level, "WARN");
}

#[test]
fn connection_test_messages() {
    assert_eq!(connected(3).message, "Connected! Found 3 space(s).");
    let a = args("http://10.0.0.5/wiki", "", "", "t", "http://proxy:8080");
    let r = connection_failure(&a, 401, "d", None);
    assert_eq!(r.message, "Authentication failed. Check your username/password or token.\n\nd");
    let r = connection_failure(&a, 403, "x CAPTCHA_CHALLENGE y", None);
    assert!(r.message.starts_with("Confluence is requiring CAPTCHA"));
    let r = connection_failure(&a, 403, "d", None);
    assert!(r.message.starts_with("Confluence refused the request (403)."));
    let r = connection_failure(&a, 500, "d", None);
    assert_eq!(r.message, "Error (HTTP 500): d");
    let r = connection_failure(&a, 0, "d", ipv4(10, 0, 0, 5));
    assert!(r.message.contains("- The proxy can route to this address"));
    assert!(r.message.starts_with("Cannot reach the server. Please check:\n- The URL is correct"));
    assert!(r.message.ends_with("\n\nd"));
    let b = args("https://wiki.example.com", "", "", "t", "http://proxy:8080");
    let r = connection_failure(&b, 0, "d", None);
    assert!(!r.message.contains("proxy can route"));
}

#[test]
fn save_entry_and_results() {
    let a = SaveConfigArgs {
        url: "https://w".into(),
        username: "u".into(),
        password: "".into(),
        token: "".into(),
        ssl_verify: true,
        install_dir: "C:\\cc".into(),
        proxy_url: " ".into(),
    };
    let e = entry_for_save(&a, "C:\\cc\\server.exe");
    assert_eq!(e.command, "C:/cc/server.exe");
    assert_eq!(e.username.as_deref(), Some("u"));
    assert_eq!(e.password, None);
    assert_eq!(e.proxy_url, None);
    let r = save_result(Ok(("cfg".into(), "srv".into())));
    assert!(r.success);
    assert_eq!(r.message, "Configuration saved! Restart the desktop assistant to activate.");
    let r = save_result(Err(SaveFailure::Probe { dir: "D".into(), error: "denied".into() }));
    assert_eq!(r.message, "Cannot write to D: denied. Pick a different folder.");
    let r = save_result(Err(SaveFailure::Extract { raw_os_error: Some(32), error: "busy".into() }));
    assert!(r.message.contains("the previous server is still running"));
    assert!(r.message.ends_with("(busy)"));
    let r = save_result(Err(SaveFailure::Extract { raw_os_error: None, error: "x".into() }));
    assert!(r.message.starts_with("Failed to extract server binary: x. Your antivirus"));
    let r = save_result(Err(SaveFailure::WriteConfig {
        error: "ro".into(),
        config_path: "c".into(),
        server_path: "s".into(),
    }));
    assert_eq!(r.message, "Cannot write the desktop assistant's config: ro. Try running as Administrator.");
    assert_eq!(r.server_path, "s");
}

#[test]
fn remove_and_stop_results() {
    assert_eq!(remove_result(None).message, "Confluence MCP removed. Restart the desktop assistant to apply.");
    assert_eq!(remove_result(Some("e".into())).message, "Failed to update config: e");
    let s = stop_result(0);
    assert!(!s.success);
    assert_eq!(s.message, "Server is not running.");
    let s = stop_result(2);
    assert!(s.message.starts_with("Stopped 2 server process(es)."));
}

#[test]
fn server_status_finds_first_match() {
    let procs = vec![
        ProcessInfo { name: "bash".into(), pid: 1, memory: 10 },
        ProcessInfo { name: "Confluence-MCP-Server.EXE".into(), pid: 7, memory: 3 * 1024 * 1024 + 5 },
        ProcessInfo { name: "confluence-mcp-server.exe".into(), pid: 8, memory: 0 },
    ];
    let s = server_status_from(true, &procs, "confluence-mcp-server.exe");
    assert!(s.running);
    assert_eq!(s.pid, Some(7));
    assert_eq!(s.memory_mb, Some(3));
    let s = server_status_from(false, &vec![], "x");
    assert!(!s.running && s.pid.is_none());
    assert!(is_server_process("A.EXE", "a.exe"));
}

#[test]
fn live_test_and_entry_settings() {
    let r = live_test_result(Ok(4), 120);
    assert_eq!(r.message, "OK · 4 space(s) · 120 ms");
    assert_eq!(r.space_count, 4);
    let r = live_test_result(Err("boom".into()), 9);
    assert!(!r.success);
    assert_eq!(r.message, "boom");
    let e = ConfluenceEntry {
        command: "c".into(),
        url: "https://w/".into(),
        username: None,
        password: None,
        token: Some("t".into()),
        ssl_verify: true,
        proxy_url: None,
    };
    let c = config_from_entry(&e, 10);
    assert_eq!(c.confluence_url, "https://w");
    assert_eq!(c.timeout_secs, 10);
    assert_eq!(c.max_content_length, 50_000);
}

#[test]
fn diagnostics_report_layout() {
    let history = vec![row(5, "get|page", "ok", 7, Some("1"))];
    let errors = vec![err_row(6, "denied")];
    let md = diagnostics_markdown(&history, &errors);
    assert!(md.starts_with("# Confluence Connect — diagnostics\n\n## Recent tool calls (1 rows, newest last)\n\n"));
    assert!(md.contains("| 5 | get\\|page | {\"page_id\":\"1\"} | 7 | ok |\n"));
    assert!(md.contains("- `6` · **get_page** · 403: denied\n"));
    assert!(md.ends_with("Any error patterns I should fix?\n"));
    assert_eq!(copied_message("héllo"), "Copied 6 chars to clipboard — paste into the desktop assistant.");
    let many: Vec<HistoryRow> = (0..150).map(|i| row(i, "t", "ok", 1, None)).collect();
    let md = diagnostics_markdown(&many, &vec![]);
    assert!(md.contains("(100 rows, newest last)"));
    assert!(md.contains("| 149 | t |"));
    assert!(!md.contains("| 49 | t |"));
}

#[test]
fn week_buckets_are_dated_days() {
    let s = summarize(&vec![], &vec![], 1_700_000_000).unwrap();
    for b in &s.seven_day_tokens {
        assert_eq!(b.date.len(), 10);
        assert!(b.date.starts_with("2023-11-"), "unexpected date: {}", b.date);
        assert_eq!(&b.date[4..5], "-");
    }
    assert!(s.seven_day_tokens[0].date < s.seven_day_tokens[6].date);
}

#[test]
fn error_chain_hints_ignore_case() {
    let out = format_error_chain("Network error: Invalid peer CERTIFICATE", &vec![]);
    assert!(out.ends_with("\n\nHint:\n- CA bundle invalid — re-check the path, and confirm the file is PEM-encoded."));
    let out = format_error_chain("Request TIMED OUT", &vec![]);
    assert!(out.contains("Connection timed out — check the URL"));
}

#[test]
fn install_dir_of_command_paths() {
    assert_eq!(install_dir_of("server").as_deref(), Some(""));
    assert_eq!(install_dir_of("bin/server").as_deref(), Some("bin"));
    assert_eq!(install_dir_of("/server").as_deref(), Some("/"));
    assert_eq!(install_dir_of(""), None);
}

// ----- the configuration document -----

fn obj(entries: Vec<(&str, Json)>) -> Json {
    Json::Object(entries.into_iter().map(|(k, v)| (k.to_string(), v)).collect())
}

fn text(s: &str) -> Json {
    Json::Str(s.to_string())
}

fn sample_entry() -> ConfluenceEntry {
    ConfluenceEntry {
        command: "/opt/cc/server".into(),
        url: "https://wiki.example.com/".into(),
        username: None,
        password: None,
        token: Some("tok".into()),
        ssl_verify: false,
        proxy_url: None,
    }
}

fn str_at<'a>(v: &'a Json, keys: &[&str]) -> Option<&'a str> {
    let mut cur = v;
    for k in keys {
        cur = json_get_exec(cur, k)?;
    }
    match cur {
        Json::Str(s) => Some(s.as_str()),
        _ => None,
    }
}

#[test]
fn reads_entry_from_document() {
    let doc = obj(vec![(
        "mcpServers",
        obj(vec![(
            "confluence",
            obj(vec![
                ("command", text("/bin/cc")),
                (
                    "env",
                    obj(vec![
                        ("CONFLUENCE_URL", text("https://w.example.com")),
                        ("CONFLUENCE_USERNAME", text("ann")),
                        ("CONFLUENCE_SSL_VERIFY", text("false")),
                        ("CONFLUENCE_PROXY_URL", text("")),
                    ]),
                ),
            ]),
        )]),
    )]);
    let e = read_confluence_entry(&doc).unwrap();
    assert_eq!(e.command, "/bin/cc");
    assert_eq!(e.url, "https://w.example.com");
    assert_eq!(e.username.as_deref(), Some("ann"));
    assert_eq!(e.token, None);
    assert!(!e.ssl_verify);
    assert_eq!(e.proxy_url, None);
    assert!(read_confluence_entry(&obj(vec![("mcpServers", obj(vec![]))])).is_none());
    assert!(read_confluence_entry(&Json::Array(vec![])).is_none());
}

#[test]
fn writing_entry_keeps_other_servers_and_settings() {
    let doc = obj(vec![
        ("theme", text("dark")),
        ("mcpServers", obj(vec![("other", obj(vec![("command", text("x"))]))])),
    ]);
    assert!(accepts_entry(&doc));
    let up = config_with_entry(Some(Some(doc)), &sample_entry());
    assert!(!up.backup_malformed);
    assert!(up.backup_previous);
    assert_eq!(str_at(&up.doc, &["theme"]), Some("dark"));
    assert_eq!(str_at(&up.doc, &["mcpServers", "other", "command"]), Some("x"));
    assert_eq!(str_at(&up.doc, &["mcpServers", "confluence", "command"]), Some("/opt/cc/server"));
    assert_eq!(
        str_at(&up.doc, &["mcpServers", "confluence", "env", "CONFLUENCE_URL"]),
        Some("https://wiki.example.com")
    );
    assert_eq!(str_at(&up.doc, &["mcpServers", "confluence", "env", "MCP_TRANSPORT"]), Some("stdio"));
    assert_eq!(str_at(&up.doc, &["mcpServers", "confluence", "env", "CONFLUENCE_TOKEN"]), Some("tok"));
    assert_eq!(
        str_at(&up.doc, &["mcpServers", "confluence", "env", "CONFLUENCE_SSL_VERIFY"]),
        Some("false")
    );
    let read_back = read_confluence_entry(&up.doc).unwrap();
    assert_eq!(read_back.url, "https://wiki.example.com");
    assert_eq!(read_back.token.as_deref(), Some("tok"));
}

#[test]
fn malformed_file_is_set_aside_and_replaced() {
    let up = config_with_entry(Some(None), &sample_entry());
    assert!(up.backup_malformed);
    assert!(up.backup_previous);
    assert_eq!(str_at(&up.doc, &["mcpServers", "confluence", "command"]), Some("/opt/cc/server"));
    let fresh = config_with_entry(None, &sample_entry());
    assert!(!fresh.backup_malformed);
    assert!(!fresh.backup_previous);
    let no_servers = config_with_entry(Some(Some(obj(vec![("a", Json::Bool(true))]))), &sample_entry());
    assert!(!no_servers.backup_previous);
    assert!(matches!(json_get_exec(&no_servers.doc, "a"), Some(Json::Bool(true))));
}

#[test]
fn documents_that_cannot_take_the_entry() {
    assert!(accepts_entry(&Json::Null));
    assert!(!accepts_entry(&Json::Array(vec![])));
    assert!(!accepts_entry(&obj(vec![("mcpServers", Json::Number("3".into()))])));
    assert!(accepts_entry(&obj(vec![("mcpServers", Json::Null)])));
}

#[test]
fn removing_entry_keeps_other_servers() {
    let doc = obj(vec![
        ("theme", text("dark")),
        (
            "mcpServers",
            obj(vec![
                ("confluence", obj(vec![("command", text("/bin/cc"))])),
                ("other", obj(vec![("command", text("x"))])),
            ]),
        ),
    ]);
    let out = config_without_entry(doc);
    assert!(read_confluence_entry(&out).is_none());
    assert_eq!(str_at(&out, &["theme"]), Some("dark"));
    assert_eq!(str_at(&out, &["mcpServers", "other", "command"]), Some("x"));
    let plain = config_without_entry(obj(vec![("mcpServers", text("odd"))]));
    assert_eq!(str_at(&plain, &["mcpServers"]), Some("odd"));
}

#[test]
fn existing_config_from_file_text() {
    let none = existing_config_of(None);
    assert!(!none.path_exists);
    assert!(none.confluence.is_none());
    let broken = existing_config_of(Some("{not json".to_string()));
    assert!(broken.path_exists);
    assert!(broken.confluence.is_none());
    let text = r#"{"mcpServers":{"confluence":{"command":"/bin/cc","env":{"CONFLUENCE_URL":"https://w","CONFLUENCE_TOKEN":"t"}}}}"#;
    let found = existing_config_of(Some(text.to_string()));
    assert!(found.path_exists);
    let e = found.confluence.unwrap();
    assert_eq!(e.command, "/bin/cc");
    assert_eq!(e.url, "https://w");
    assert_eq!(e.token.as_deref(), Some("t"));
}

#[test]
fn writing_entry_into_file_text() {
    let old = r#"{"theme":"dark","mcpServers":{"other":{"command":"x"}}}"#;
    let w = config_text_with_entry(Some(Some(old.to_string())), &sample_entry()).unwrap();
    assert!(!w.backup_malformed);
    assert!(w.backup_previous);
    assert!(w.text.contains("\n  "), "not pretty: {}", w.text);
    let v: serde_json::Value = serde_json::from_str(&w.text).unwrap();
    assert_eq!(v["theme"], "dark");
    assert_eq!(v["mcpServers"]["other"]["command"], "x");
    assert_eq!(v["mcpServers"]["confluence"]["command"], "/opt/cc/server");
    assert_eq!(v["mcpServers"]["confluence"]["args"], serde_json::Value::Array(vec![]));
    assert_eq!(v["mcpServers"]["confluence"]["env"]["CONFLUENCE_URL"], "https://wiki.example.com");
    let again = existing_config_of(Some(w.text.clone())).confluence.unwrap();
    assert_eq!(again.token.as_deref(), Some("tok"));
    assert!(!again.ssl_verify);

    let malformed = config_text_with_entry(Some(Some("{oops".to_string())), &sample_entry()).unwrap();
    assert!(malformed.backup_malformed && malformed.backup_previous);
    let unreadable = config_text_with_entry(Some(None), &sample_entry()).unwrap();
    assert!(unreadable.backup_malformed);
    let fresh = config_text_with_entry(None, &sample_entry()).unwrap();
    assert!(!fresh.backup_malformed && !fresh.backup_previous);
    assert!(config_text_with_entry(Some(Some("[1, 2]".to_string())), &sample_entry()).is_none());
    assert!(config_text_with_entry(Some(Some(r#"{"mcpServers": 3}"#.to_string())), &sample_entry()).is_none());
}

#[test]
fn removing_entry_from_file_text() {
    let old = r#"{"mcpServers":{"confluence":{"command":"/bin/cc"},"other":{"command":"x"}},"n":1.5}"#;
    let text = config_text_without_entry(old).unwrap();
    let v: serde_json::Value = serde_json::from_str(&text).unwrap();
    assert!(v["mcpServers"].get("confluence").is_none());
    assert_eq!(v["mcpServers"]["other"]["command"], "x");
    assert_eq!(v["n"], 1.5);
    assert!(config_text_without_entry("not json").is_none());
}

#[test]
fn install_dir_is_parent_of_plain_command() {
    assert_eq!(install_dir_of("/opt/cc/server").as_deref(), Some("/opt/cc"));
    assert_eq!(install_dir_of("/opt/../cc/server").as_deref(), Some("/opt/../cc"));
    assert_eq!(install_dir_of("a/b/c").as_deref(), Some("a/b"));
}

#[test]
fn install_candidates_follow_platform_layout() {
    let other = install_dir_candidates(InstallPlatform::Other, &vec!["/home/u".to_string(), "/srv".to_string()]);
    assert_eq!(other, vec!["/home/u/.local/share/ConfluenceConnect".to_string(), "/srv/.local/share/ConfluenceConnect".to_string()]);
    let mac = install_dir_candidates(InstallPlatform::MacOs, &vec!["/Users/u".to_string()]);
    assert_eq!(mac, vec!["/Users/u/Library/Application Support/ConfluenceConnect".to_string()]);
    let win = install_dir_candidates(InstallPlatform::Windows, &vec!["/data".to_string()]);
    assert_eq!(win, vec!["/data/ConfluenceConnect".to_string()]);
}
