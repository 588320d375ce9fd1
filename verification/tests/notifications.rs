use grok_desktop::notify::{
    notification_log_appends, notify_answer, notify_gate, record_outcome, NotifyDecision,
    NotifyGate, NotifyState,
};
use grok_desktop::url_parts::UrlParts;

const SECOND: u128 = 1_000_000_000;

fn url(scheme: &str, host: Option<&str>) -> UrlParts {
    UrlParts {
        scheme: scheme.to_string(),
        host: host.map(|h| h.to_string()),
        path: "/".to_string(),
        base: String::new(),
        query_keys: Vec::new(),
    }
}

fn grok() -> UrlParts {
    url("https", Some("grok.com"))
}

fn decide(state: &NotifyState, now: u128, body: &str) -> NotifyDecision {
    notify_answer(state, "main", &grok(), false, true, false, now, body)
}

#[test]
fn only_the_main_grok_window_may_notify() {
    let state = NotifyState::new();
    assert!(matches!(notify_gate("main", &grok(), false, true, false), NotifyGate::Proceed));
    for (label, u) in [
        ("popup-1", url("https", Some("grok.com"))),
        ("main", url("http", Some("grok.com"))),
        ("main", url("https", Some("x.com"))),
        ("main", url("https", Some("api.grok.com"))),
        ("main", url("https", None)),
    ] {
        match notify_gate(label, &u, false, false, false) {
            NotifyGate::Reject(message) => assert_eq!(message, "Notification origin rejected"),
            _ => panic!("origin accepted"),
        }
        match notify_answer(&state, label, &u, false, false, false, 0, "done") {
            NotifyDecision::Reject(message) => assert_eq!(message, "Notification origin rejected"),
            _ => panic!("origin accepted"),
        }
    }
}

#[test]
fn a_watched_window_gets_no_notification() {
    let state = NotifyState::new();
    assert!(matches!(notify_gate("main", &grok(), true, true, false), NotifyGate::Ignore));
    assert!(matches!(
        notify_answer(&state, "main", &grok(), true, true, false, 0, "done"),
        NotifyDecision::Ignore
    ));
    assert!(matches!(notify_gate("main", &grok(), true, true, true), NotifyGate::Proceed));
    assert!(matches!(notify_gate("main", &grok(), true, false, false), NotifyGate::Proceed));
}

#[test]
fn notifications_are_rate_limited() {
    let mut state = NotifyState::new();
    let first = decide(&state, 10 * SECOND, "done");
    match &first {
        NotifyDecision::Deliver(text) => assert_eq!(text, "done"),
        _ => panic!("not delivered"),
    }
    record_outcome(&mut state, &first, 10 * SECOND, true);
    assert!(matches!(decide(&state, 10 * SECOND, "done"), NotifyDecision::Ignore));
    assert!(matches!(decide(&state, 13 * SECOND - 1, "done"), NotifyDecision::Ignore));
    assert!(matches!(decide(&state, 5 * SECOND, "done"), NotifyDecision::Ignore));
    assert!(matches!(decide(&state, 13 * SECOND, "done"), NotifyDecision::Deliver(_)));
}

#[test]
fn only_a_successful_send_starts_the_quiet_period() {
    let mut state = NotifyState::new();
    let failed = decide(&state, SECOND, "done");
    record_outcome(&mut state, &failed, SECOND, false);
    assert!(matches!(decide(&state, SECOND, "done"), NotifyDecision::Deliver(_)));
    let ignored = NotifyDecision::Ignore;
    record_outcome(&mut state, &ignored, SECOND, true);
    assert!(matches!(decide(&state, SECOND, "done"), NotifyDecision::Deliver(_)));
    let refused = decide(&state, SECOND, "   ");
    assert!(matches!(refused, NotifyDecision::Reject(_)));
    record_outcome(&mut state, &refused, SECOND, true);
    assert!(matches!(decide(&state, SECOND, "done"), NotifyDecision::Deliver(_)));
}

#[test]
fn notification_text_is_bounded_and_not_blank() {
    let state = NotifyState::new();
    let long = "é".repeat(400);
    match decide(&state, 0, &long) {
        NotifyDecision::Deliver(text) => assert_eq!(text, "é".repeat(300)),
        _ => panic!("not delivered"),
    }
    match decide(&state, 0, " \n\t ") {
        NotifyDecision::Reject(message) => assert_eq!(message, "Empty notification"),
        _ => panic!("blank text accepted"),
    }
    let late = format!("{}visible", " ".repeat(300));
    assert!(matches!(decide(&state, 0, &late), NotifyDecision::Reject(_)));
}

#[test]
fn notification_log_starts_over_at_64_kib() {
    assert!(notification_log_appends(None));
    assert!(notification_log_appends(Some(0)));
    assert!(notification_log_appends(Some(65_535)));
    assert!(!notification_log_appends(Some(65_536)));
    assert!(!notification_log_appends(Some(u64::MAX)));
}
