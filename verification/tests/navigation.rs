use grok_desktop::auth::{is_auth_related_resource, is_auth_related_url};
use grok_desktop::hosts::{is_allowed_host, is_allowed_url, parsed_url_allowed};
use grok_desktop::summary::{summarize_url, summarize_url_text};
use grok_desktop::url_parts::UrlParts;

/// The parts of a URL as `url::Url` reports them.
fn parts(text: &str) -> UrlParts {
    let url = url::Url::parse(text).unwrap();
    let mut bare = url.clone();
    bare.set_query(None);
    bare.set_fragment(None);
    UrlParts {
        scheme: url.scheme().to_string(),
        host: url.host_str().map(|h| h.to_string()),
        path: url.path().to_string(),
        base: bare.to_string(),
        query_keys: url.query_pairs().map(|pair| pair.0.into_owned()).collect(),
    }
}

fn by_hand(scheme: &str, host: Option<&str>, path: &str, base: &str, keys: &[&str]) -> UrlParts {
    UrlParts {
        scheme: scheme.to_string(),
        host: host.map(|h| h.to_string()),
        path: path.to_string(),
        base: base.to_string(),
        query_keys: keys.iter().map(|k| k.to_string()).collect(),
    }
}

#[test]
fn allows_supported_auth_hosts() {
    assert!(is_allowed_host("grok.com"));
    assert!(is_allowed_host("api.x.com"));
    assert!(is_allowed_host("subdomain.microsoftonline.com"));
}

#[test]
fn rejects_unknown_hosts() {
    assert!(!is_allowed_host("example.com"));
    assert!(!is_allowed_host("grok.com.example.com"));
}

#[test]
fn allows_about_blank_and_whitelisted_urls() {
    let grok_callback = parts("https://grok.com/auth/callback");
    let blank = parts("about:blank");
    let blob = parts("blob:https://x.com/12345678-1234-1234-1234-123456789012");
    let blocked = parts("https://example.com/login");

    assert!(is_allowed_url(&grok_callback));
    assert!(is_allowed_url(&blank));
    assert!(is_allowed_url(&blob));
    assert!(!is_allowed_url(&blocked));
}

#[test]
fn redacts_query_values_in_logged_urls() {
    let url = parts("https://x.com/i/flow/login?redirect_after_login=%2Fhome&state=secret#step=email");

    assert_eq!(
        summarize_url(&url),
        "https://x.com/i/flow/login?redirect_after_login,state"
    );
}

#[test]
fn every_listed_site_and_its_subdomains_are_allowed() {
    for site in [
        "grok.com",
        "x.ai",
        "x.com",
        "twitter.com",
        "t.co",
        "google.com",
        "googleusercontent.com",
        "microsoftonline.com",
        "live.com",
        "microsoft.com",
        "onedrive.com",
    ] {
        assert!(is_allowed_host(site));
        assert!(is_allowed_host(&format!("a.b.{}", site)));
    }
}

#[test]
fn rejects_lookalike_hosts() {
    assert!(!is_allowed_host("notgrok.com"));
    assert!(!is_allowed_host("grok.co"));
    assert!(!is_allowed_host("x.com."));
    assert!(!is_allowed_host(""));
    assert!(!is_allowed_host(".com"));
    assert!(!is_allowed_host("GROK.COM"));
}

#[test]
fn refuses_other_schemes_and_pages() {
    assert!(!is_allowed_url(&parts("about:config")));
    assert!(!is_allowed_url(&parts("file:///C:/Windows/win.ini")));
    assert!(!is_allowed_url(&parts("mailto:someone@grok.com")));
    assert!(!is_allowed_url(&parts("data:text/html,hello")));
    assert!(is_allowed_url(&parts("http://accounts.google.com/o/oauth2")));
}

#[test]
fn blob_urls_follow_their_origin() {
    assert!(!is_allowed_url(&parts("blob:https://example.com/1234")));
    assert!(!is_allowed_url(&parts("blob:ftp://x.com/1234")));
    assert!(!is_allowed_url(&parts("blob:null/1234")));
    assert!(is_allowed_url(&by_hand(
        "blob",
        None,
        "http://t.co/abc",
        "blob:http://t.co/abc",
        &[]
    )));
    // The blob's origin is parsed again: an origin that does not parse is refused.
    assert!(!is_allowed_url(&by_hand("blob", None, "https://", "blob:https://", &[])));
}

#[test]
fn parsed_url_allowed_needs_a_parse_and_an_allowed_host() {
    assert!(!parsed_url_allowed(&None));
    assert!(parsed_url_allowed(&Some(parts("https://live.com/"))));
    assert!(!parsed_url_allowed(&Some(parts("https://example.org/"))));
    assert!(!parsed_url_allowed(&Some(parts("about:blank"))));
}

#[test]
fn summary_lists_query_names_once_in_order() {
    let url = by_hand(
        "https",
        Some("grok.com"),
        "/",
        "https://grok.com/",
        &["b", "a", "b", "c", "a"],
    );
    assert_eq!(summarize_url(&url), "https://grok.com/?b,a,c");
    let plain = by_hand("https", Some("grok.com"), "/", "https://grok.com/", &[]);
    assert_eq!(summarize_url(&plain), "https://grok.com/");
}

#[test]
fn summarizes_text_urls_and_clips_other_text() {
    assert_eq!(
        summarize_url_text("https://grok.com/chat?id=1&id=2&token=abc#frag"),
        "https://grok.com/chat?id,token"
    );
    assert_eq!(summarize_url_text("not a url"), "not a url");
    let long = "x".repeat(200);
    assert_eq!(summarize_url_text(&long), format!("{}...", "x".repeat(180)));
}

#[test]
fn recognizes_sign_in_requests() {
    assert!(is_auth_related_resource("https://x.com/i/api/1.1/onboarding/task.json?flow_name=login"));
    assert!(is_auth_related_resource("https://accounts.google.com/O/OAuth2/v2"));
    assert!(is_auth_related_resource("https://grok.com/api?Redirect_After_Login=%2F"));
    assert!(!is_auth_related_resource("https://grok.com/rest/app-chat/conversations"));
    assert!(!is_auth_related_resource("https://example.com/login"));
    assert!(!is_auth_related_resource("login"));
    assert!(!is_auth_related_url(&parts("about:blank")));
}
