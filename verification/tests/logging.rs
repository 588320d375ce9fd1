use grok_desktop::diagnostics::{
    auth_log_appends, format_log_line, injects_runtime_script, js_diagnostic_entry, navigation_entry, page_load_entry, popup_request_entry,
    resource_request_entry, title_change, JsDiagnosticMessage, PageLoad,
};
use grok_desktop::popup::{next_popup_label, PopupCounter};
use grok_desktop::text::clip_for_log;
use grok_desktop::tray::{auth_log_enabled, menu_action, started_at_login, MenuAction};
use grok_desktop::url_parts::UrlParts;

fn url(text: &str) -> UrlParts {
    let url = url::Url::parse(text).unwrap();
    let mut bare = url.clone();
    bare.set_query(None);
    bare.set_fragment(None);
    UrlParts {
        scheme: url.scheme().to_string(),
        host: url.host_str().map(|h| h.to_string()),
        path: url.path().to_string(),
        base: bare.to_string(),
        query_keys: url.query_pairs().map(|pair| pair.0.into_owned()).collect(),
    }
}

fn message(channel: &str, kind: &str) -> JsDiagnosticMessage {
    JsDiagnosticMessage {
        channel: channel.to_string(),
        kind: kind.to_string(),
        location: None,
        title: None,
        detail: None,
        target: None,
    }
}

#[test]
fn clip_collapses_whitespace_and_marks_cuts() {
    assert_eq!(clip_for_log("  hello \t\n  world  ", 20), "hello world");
    assert_eq!(clip_for_log("hello world", 5), "hello...");
    assert_eq!(clip_for_log("hello", 5), "hello");
    assert_eq!(clip_for_log("   ", 5), "");
    assert_eq!(clip_for_log("a\u{2003}b", 5), "a b");
    assert_eq!(clip_for_log("abc", 0), "...");
}

#[test]
fn clipped_text_stays_within_limit() {
    let long = "word ".repeat(100);
    for max in [0usize, 1, 7, 120, 500] {
        assert!(clip_for_log(&long, max).chars().count() <= max + 3);
    }
}

#[test]
fn log_lines_carry_time_scope_and_window() {
    assert_eq!(
        format_log_line(1712345678901, "navigation", Some("main"), "allowed=true url=x"),
        "[1712345678901] [navigation] [main] allowed=true url=x\n"
    );
    assert_eq!(format_log_line(0, "startup", None, "session_start"), "[0] [startup] session_start\n");
}

#[test]
fn diagnostic_messages_on_the_app_channel_are_logged() {
    let mut m = message("grok-auth-diag", "click");
    m.location = Some("https://grok.com/c/1?x=secret".to_string());
    m.title = Some("  Grok \n chat ".to_string());
    m.target = Some("button text=Sign in".to_string());
    let payload = "{}";
    assert_eq!(
        js_diagnostic_entry(&Ok(m), payload),
        Some(
            "event=click location=https://grok.com/c/1?x title=Grok chat target=button text=Sign in"
                .to_string()
        )
    );
    assert_eq!(
        js_diagnostic_entry(&Ok(message("grok-auth-diag", "load")), payload),
        Some("event=load".to_string())
    );
}

#[test]
fn diagnostic_messages_on_other_channels_are_dropped() {
    assert_eq!(js_diagnostic_entry(&Ok(message("other", "click")), "{}"), None);
}

#[test]
fn undecodable_diagnostics_are_logged_with_their_error() {
    assert_eq!(
        js_diagnostic_entry(&Err("expected value at line 1 column 1".to_string()), "nope  nope"),
        Some("failed_to_parse=expected value at line 1 column 1 payload=nope nope".to_string())
    );
}

#[test]
fn sign_in_requests_are_logged_with_method_and_summary() {
    assert_eq!(
        resource_request_entry("https://x.com/i/flow/login?token=abc", "POST"),
        Some("method=POST url=https://x.com/i/flow/login?token".to_string())
    );
    assert_eq!(resource_request_entry("https://grok.com/api/chat", "GET"), None);
}

#[test]
fn navigation_entries_record_the_decision() {
    let (allowed, line) = navigation_entry(&url("https://grok.com/?q=1"));
    assert!(allowed);
    assert_eq!(line, "allowed=true url=https://grok.com/?q");
    let (allowed, line) = navigation_entry(&url("https://example.com/"));
    assert!(!allowed);
    assert_eq!(line, "allowed=false url=https://example.com/");
}

#[test]
fn page_loads_and_popups_are_described() {
    assert_eq!(
        page_load_entry(&PageLoad::Finished, &url("https://grok.com/#top")),
        "event=finished url=https://grok.com/"
    );
    assert_eq!(
        page_load_entry(&PageLoad::Started, &url("about:blank")),
        "event=started url=about:blank"
    );
    assert_eq!(
        popup_request_entry("popup-3", &url("https://accounts.google.com/o?client_id=1")),
        "label=popup-3 url=https://accounts.google.com/o?client_id"
    );
}

#[test]
fn blank_titles_fall_back_to_the_app_name() {
    assert_eq!(title_change(" \t "), ("Grok".to_string(), "title=Grok".to_string()));
    assert_eq!(
        title_change("My  chat"),
        ("My  chat".to_string(), "title=My chat".to_string())
    );
}

#[test]
fn popup_labels_count_up_from_one() {
    let mut counter = PopupCounter::new();
    assert_eq!(next_popup_label(&mut counter), "popup-1");
    assert_eq!(next_popup_label(&mut counter), "popup-2");
    for _ in 0..8 {
        next_popup_label(&mut counter);
    }
    assert_eq!(next_popup_label(&mut counter), "popup-11");
}

#[test]
fn tray_entries_map_to_actions() {
    assert!(matches!(menu_action("open"), MenuAction::ShowMain));
    assert!(matches!(menu_action("startup"), MenuAction::ToggleStartup));
    assert!(matches!(menu_action("open_auth_log"), MenuAction::RevealAuthLog));
    assert!(matches!(menu_action("close"), MenuAction::Quit));
    assert!(matches!(menu_action("test_notification"), MenuAction::SendTestNotification));
    assert!(matches!(menu_action("Close"), MenuAction::Nothing));
}

#[test]
fn whitespace_is_the_unicode_white_space_class() {
    for code in 0u32..=0x10FFFF {
        if let Some(c) = char::from_u32(code) {
            let text = format!("a{}b", c);
            let expected = if c.is_whitespace() { "a b".to_string() } else { text.clone() };
            assert_eq!(clip_for_log(&text, 10), expected, "U+{:04X}", code);
        }
    }
}

#[test]
fn clipped_text_holds_no_tab_or_newline_and_clips_to_itself() {
    assert_eq!(clip_for_log("a\nb", 10), "a b");
    for (text, max) in [("one two  three\tfour\r\nfive", 7), ("ab cd", 3), ("x", 0), ("  ", 4)] {
        let once = clip_for_log(text, max);
        assert!(!once.contains('\n') && !once.contains('\t') && !once.contains("  "));
        assert_eq!(clip_for_log(&once, max), once);
    }
}

#[test]
fn popup_labels_never_repeat_within_a_run() {
    let mut counter = PopupCounter::new();
    let mut seen = std::collections::HashSet::new();
    for _ in 0..5000 {
        assert!(seen.insert(next_popup_label(&mut counter)));
    }
}

#[test]
fn launch_switches_are_read_after_the_program_path() {
    let args = |list: &[&str]| list.iter().map(|a| a.to_string()).collect::<Vec<String>>();
    assert!(started_at_login(&args(&["grok.exe", "--autostart"])));
    assert!(!started_at_login(&args(&["grok.exe"])));
    assert!(!started_at_login(&args(&["--autostart"])));
    assert!(!started_at_login(&args(&[])));
    assert!(auth_log_enabled(&args(&["grok.exe", "--autostart", "--auth-debug-log"])));
    assert!(!auth_log_enabled(&args(&["grok.exe", "--autostart"])));
}

#[test]
fn auth_log_starts_over_at_one_mib() {
    assert!(auth_log_appends(None));
    assert!(auth_log_appends(Some(1_048_575)));
    assert!(!auth_log_appends(Some(1_048_576)));
}

#[test]
fn runtime_script_is_injected_once_the_page_has_loaded() {
    assert!(injects_runtime_script(&PageLoad::Finished));
    assert!(!injects_runtime_script(&PageLoad::Started));
}
