//! Which web requests belong to a sign-in flow and are worth logging.

use vstd::prelude::*;
use crate::hosts::{allowed_host, is_allowed_host};
use crate::text::{ascii_lower, chars_of, contains_exec, contains_seq, lower_chars, same_chars};
use crate::url_parts::{parse_url, url_parse, UrlParts, UrlView};

verus! {

/// Words whose presence in the lower-cased path marks a sign-in request.
pub open spec fn auth_path_words() -> Seq<Seq<char>> {
    seq![
        "auth"@,
        "oauth"@,
        "login"@,
        "authorize"@,
        "onboarding"@,
        "challenge"@,
        "session"@,
        "flow"@,
        "task.json"@,
    ]
}

/// Query names (lower-cased) that mark a sign-in request.
pub open spec fn auth_query_names() -> Seq<Seq<char>> {
    seq![
        "flow_name"@,
        "redirect_after_login"@,
        "screen_name"@,
        "login_challenge"@,
    ]
}

/// The lower-cased path holds one of the sign-in words.
pub open spec fn auth_path(path: Seq<char>) -> bool {
    exists|i: int| 0 <= i < auth_path_words().len()
        && contains_seq(ascii_lower(path), #[trigger] auth_path_words()[i])
}

/// One of the query names, lower-cased, is a sign-in name.
pub open spec fn auth_query(keys: Seq<Seq<char>>) -> bool {
    exists|j: int| 0 <= j < keys.len() && auth_query_names().contains(ascii_lower(#[trigger] keys[j]))
}

/// A request to an allowed host whose path or query marks it as part of a
/// sign-in flow.
pub open spec fn auth_related(u: UrlView) -> bool {
    match u.host {
        Some(h) => allowed_host(h) && (auth_path(u.path) || auth_query(u.query_keys)),
        None => false,
    }
}

/// A text that parses as a URL that `auth_related` accepts.
pub open spec fn auth_related_text(text: Seq<char>) -> bool {
    match url_parse(text) {
        Some(v) => auth_related(v),
        None => false,
    }
}

fn path_words() -> (v: Vec<&'static str>)
    ensures
        v@.len() == auth_path_words().len(),
        forall|i: int| 0 <= i < v@.len() ==> (#[trigger] v@[i])@ == auth_path_words()[i],
{
    vec!["auth", "oauth", "login", "authorize", "onboarding", "challenge", "session", "flow", "task.json"]
}

fn query_names() -> (v: Vec<&'static str>)
    ensures
        v@.len() == auth_query_names().len(),
        forall|i: int| 0 <= i < v@.len() ==> (#[trigger] v@[i])@ == auth_query_names()[i],
{
    vec!["flow_name", "redirect_after_login", "screen_name", "login_challenge"]
}

fn path_marks_auth(path: &str) -> (r: bool)
    ensures
        r == auth_path(path@),
{
    let p = chars_of(path);
    let lower = lower_chars(&p);
    let words = path_words();
    let mut i: usize = 0;
    while i < words.len()
        invariant
            i <= words.len(),
            p@ == path@,
            lower@ == ascii_lower(path@),
            words@.len() == auth_path_words().len(),
            forall|k: int| 0 <= k < words@.len() ==> (#[trigger] words@[k])@ == auth_path_words()[k],
            forall|k: int| 0 <= k < i ==> !contains_seq(lower@, #[trigger] auth_path_words()[k]),
        decreases words.len() - i,
    {
        let w = chars_of(words[i]);
        if contains_exec(&lower, &w) {
            proof {
                assert(contains_seq(ascii_lower(path@), auth_path_words()[i as int]));
            }
            return true;
        }
        i = i + 1;
    }
    false
}

fn name_marks_auth(key: &str) -> (r: bool)
    ensures
        r == auth_query_names().contains(ascii_lower(key@)),
{
    let k = chars_of(key);
    let lower = lower_chars(&k);
    let names = query_names();
    let mut i: usize = 0;
    while i < names.len()
        invariant
            i <= names.len(),
            lower@ == ascii_lower(key@),
            names@.len() == auth_query_names().len(),
            forall|m: int| 0 <= m < names@.len() ==> (#[trigger] names@[m])@ == auth_query_names()[m],
            forall|m: int| 0 <= m < i ==> auth_query_names()[m] != lower@,
        decreases names.len() - i,
    {
        let n = chars_of(names[i]);
        if same_chars(&n, &lower) {
            proof {
                assert(auth_query_names()[i as int] == ascii_lower(key@));
            }
            return true;
        }
        i = i + 1;
    }
    false
}

fn query_marks_auth(keys: &Vec<String>) -> (r: bool)
    ensures
        r == auth_query(keys@.map_values(|k: String| k@)),
{
    let ghost kv = keys@.map_values(|k: String| k@);
    let mut j: usize = 0;
    while j < keys.len()
        invariant
            j <= keys.len(),
            kv == keys@.map_values(|k: String| k@),
            forall|m: int| 0 <= m < j ==> !auth_query_names().contains(ascii_lower(#[trigger] kv[m])),
        decreases keys.len() - j,
    {
        if name_marks_auth(keys[j].as_str()) {
            proof {
                assert(kv[j as int] == keys@[j as int]@);
            }
            return true;
        }
        j = j + 1;
    }
    false
}

/// Whether a parsed request URL belongs to a sign-in flow (see
/// `auth_related`).
pub fn is_auth_related_url(url: &UrlParts) -> (r: bool)
    ensures
        r == auth_related(url@),
{
    match &url.host {
        Some(h) => {
            if !is_allowed_host(h.as_str()) {
                return false;
            }
            path_marks_auth(url.path.as_str()) || query_marks_auth(&url.query_keys)
        },
        None => false,
    }
}

/// Whether a request URL, given as text, belongs to a sign-in flow: it must
/// parse, and the parsed URL must pass `is_auth_related_url`.
pub fn is_auth_related_resource(url_text: &str) -> (r: bool)
    ensures
        r == auth_related_text(url_text@),
{
    match parse_url(url_text) {
        Some(url) => is_auth_related_url(&url),
        None => false,
    }
}


/// Which requests are sign-in requests, word by word: a request to an
/// allowed host is one exactly when its lower-cased path contains one of
/// `auth`, `oauth`, `login`, `authorize`, `onboarding`, `challenge`,
/// `session`, `flow`, `task.json`, or one of its query names, lower-cased, is
/// `flow_name`, `redirect_after_login`, `screen_name` or `login_challenge`.
pub proof fn sign_in_words_and_names(u: UrlView)
    ensures
        auth_related(u) <==> (u.host matches Some(h) && allowed_host(h) && ({
            let p = ascii_lower(u.path);
            ||| contains_seq(p, "auth"@)
            ||| contains_seq(p, "oauth"@)
            ||| contains_seq(p, "login"@)
            ||| contains_seq(p, "authorize"@)
            ||| contains_seq(p, "onboarding"@)
            ||| contains_seq(p, "challenge"@)
            ||| contains_seq(p, "session"@)
            ||| contains_seq(p, "flow"@)
            ||| contains_seq(p, "task.json"@)
            ||| exists|j: int|
                0 <= j < u.query_keys.len() && {
                    let k = ascii_lower(#[trigger] u.query_keys[j]);
                    ||| k == "flow_name"@
                    ||| k == "redirect_after_login"@
                    ||| k == "screen_name"@
                    ||| k == "login_challenge"@
                }
        })),
{
    let p = ascii_lower(u.path);
    let w = auth_path_words();
    let n = auth_query_names();
    assert(w[0] == "auth"@ && w[1] == "oauth"@ && w[2] == "login"@ && w[3] == "authorize"@ && w[4]
        == "onboarding"@ && w[5] == "challenge"@ && w[6] == "session"@ && w[7] == "flow"@ && w[8]
        == "task.json"@);
    assert(n[0] == "flow_name"@ && n[1] == "redirect_after_login"@ && n[2] == "screen_name"@ && n[3]
        == "login_challenge"@);
    assert forall|x: Seq<char>| n.contains(x) <==> (x == "flow_name"@ || x == "redirect_after_login"@
        || x == "screen_name"@ || x == "login_challenge"@) by {
        if n.contains(x) {
            let k = choose|k: int| 0 <= k < n.len() && n[k] == x;
            assert(0 <= k < 4);
        }
        if x == "flow_name"@ {
            assert(n[0] == x);
        } else if x == "redirect_after_login"@ {
            assert(n[1] == x);
        } else if x == "screen_name"@ {
            assert(n[2] == x);
        } else if x == "login_challenge"@ {
            assert(n[3] == x);
        }
    }
    if auth_path(u.path) {
        let i = choose|i: int| 0 <= i < w.len() && contains_seq(p, #[trigger] w[i]);
        assert(0 <= i < 9);
    }
    if contains_seq(p, "auth"@) {
        assert(contains_seq(p, w[0]));
    }
    if contains_seq(p, "oauth"@) {
        assert(contains_seq(p, w[1]));
    }
    if contains_seq(p, "login"@) {
        assert(contains_seq(p, w[2]));
    }
    if contains_seq(p, "authorize"@) {
        assert(contains_seq(p, w[3]));
    }
    if contains_seq(p, "onboarding"@) {
        assert(contains_seq(p, w[4]));
    }
    if contains_seq(p, "challenge"@) {
        assert(contains_seq(p, w[5]));
    }
    if contains_seq(p, "session"@) {
        assert(contains_seq(p, w[6]));
    }
    if contains_seq(p, "flow"@) {
        assert(contains_seq(p, w[7]));
    }
    if contains_seq(p, "task.json"@) {
        assert(contains_seq(p, w[8]));
    }
}

/// Only requests to allowed hosts are ever taken for sign-in requests.
pub proof fn auth_requests_go_to_allowed_hosts(u: UrlView)
    requires
        auth_related(u),
    ensures
        u.host matches Some(h) && allowed_host(h),
{
}

} // verus!
