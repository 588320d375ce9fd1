//! The lines of the authentication debug log.

use vstd::prelude::*;
use crate::auth::{auth_related_text, is_auth_related_resource};
use crate::hosts::{allowed_url, is_allowed_url};
use crate::summary::{summarize_url, summarize_url_text, text_summary, url_summary};
use crate::text::{contains_seq, join_contains_later_parts, join_places_every_part, occurs_at, blank, chars_of, clip_chars, clip_spec, decimal, is_blank, join, join_chars,
    push_all, push_decimal, push_str, string_of};
use crate::url_parts::{opt_str, UrlParts};

verus! {

/// One line of the log: `[<milliseconds>] [<scope>]`, then ` [<window>]`
/// when the line concerns a window, then a space, the message and a newline.
pub open spec fn log_line(
    timestamp_ms: nat,
    scope: Seq<char>,
    window_label: Option<Seq<char>>,
    message: Seq<char>,
) -> Seq<char> {
    let window = match window_label {
        Some(l) => " ["@ + l + "]"@,
        None => Seq::empty(),
    };
    "["@ + decimal(timestamp_ms) + "] ["@ + scope + "]"@ + window + " "@ + message + "\n"@
}

/// The view of an optional string slice.
pub open spec fn opt_slice(o: Option<&str>) -> Option<Seq<char>> {
    match o {
        Some(s) => Some(s@),
        None => None,
    }
}

/// Formats one line of the log (see `log_line`).
pub fn format_log_line(
    timestamp_ms: u128,
    scope: &str,
    window_label: Option<&str>,
    message: &str,
) -> (r: String)
    ensures
        r@ == log_line(timestamp_ms as nat, scope@, opt_slice(window_label), message@),
{
    let mut out: Vec<char> = Vec::new();
    push_str(&mut out, "[");
    push_decimal(&mut out, timestamp_ms);
    push_str(&mut out, "] [");
    push_str(&mut out, scope);
    push_str(&mut out, "]");
    let ghost head = out@;
    match window_label {
        Some(label) => {
            push_str(&mut out, " [");
            push_str(&mut out, label);
            push_str(&mut out, "]");
            proof {
                assert(out@ =~= head + (" ["@ + label@ + "]"@));
            }
        },
        None => {
            proof {
                assert(out@ =~= head + Seq::<char>::empty());
            }
        },
    }
    push_str(&mut out, " ");
    push_str(&mut out, message);
    push_str(&mut out, "\n");
    proof {
        let window = match opt_slice(window_label) {
            Some(l) => " ["@ + l + "]"@,
            None => Seq::<char>::empty(),
        };
        assert(out@ =~= "["@ + decimal(timestamp_ms as nat) + "] ["@ + scope@ + "]"@ + window + " "@
            + message@ + "\n"@);
    }
    string_of(out.as_slice())
}

/// The size from which the authentication debug log starts over (1 MiB).
pub open spec fn auth_log_limit() -> nat {
    1_048_576
}

/// Whether a line is appended to the authentication debug log (`true`) or
/// the log starts over with it (`false`): it is appended while the log is
/// below 1 MiB, and when its size is unknown.
pub fn auth_log_appends(existing_len: Option<u64>) -> (r: bool)
    ensures
        r == match existing_len {
            Some(n) => n < auth_log_limit(),
            None => true,
        },
{
    match existing_len {
        Some(n) => n < 1_048_576,
        None => true,
    }
}

/// The size of the authentication debug log after one line of `line_len`
/// bytes is written to a log of `size` bytes, as the app writes it: appended
/// while `auth_log_appends` says so, otherwise written to an emptied log.
pub open spec fn auth_log_size_after(size: nat, line_len: nat) -> nat {
    (if size < auth_log_limit() {
        size
    } else {
        0
    }) + line_len
}

/// The size of the authentication debug log after a run of lines.
pub open spec fn auth_log_size_after_all(size: nat, line_lens: Seq<nat>) -> nat
    decreases line_lens.len(),
{
    if line_lens.len() == 0 {
        size
    } else {
        auth_log_size_after_all(auth_log_size_after(size, line_lens[0]), line_lens.drop_first())
    }
}

/// The authentication debug log stays bounded: once at least one line has
/// been written, whatever its size before, the log is smaller than 1 MiB
/// plus the longest line.
pub proof fn auth_log_stays_bounded(size: nat, line_lens: Seq<nat>, max_line: nat)
    requires
        line_lens.len() > 0,
        forall|i: int| 0 <= i < line_lens.len() ==> #[trigger] line_lens[i] <= max_line,
    ensures
        auth_log_size_after_all(size, line_lens) < auth_log_limit() + max_line,
    decreases line_lens.len(),
{
    let next = auth_log_size_after(size, line_lens[0]);
    let rest = line_lens.drop_first();
    assert(auth_log_size_after_all(size, line_lens) == auth_log_size_after_all(next, rest));
    if rest.len() > 0 {
        assert forall|i: int| 0 <= i < rest.len() implies #[trigger] rest[i] <= max_line by {
            assert(rest[i] == line_lens[i + 1]);
        }
        auth_log_stays_bounded(next, rest, max_line);
    } else {
        assert(line_lens[0] <= max_line);
        assert(auth_log_size_after_all(next, rest) == next);
    }
}

// ---------------------------------------------------------------------------
// Messages posted by the page's diagnostic script

/// The channel on which the page's diagnostic script posts.
pub open spec fn auth_channel() -> Seq<char> {
    "grok-auth-diag"@
}

/// A message posted by the page's diagnostic script, once decoded from JSON.
pub struct JsDiagnosticMessage {
    pub channel: String,
    pub kind: String,
    pub location: Option<String>,
    pub title: Option<String>,
    pub detail: Option<String>,
    pub target: Option<String>,
}

/// `name=value` when the value is present, as a list of zero or one part.
pub open spec fn field_part(name: Seq<char>, value: Option<Seq<char>>, max: nat) -> Seq<Seq<char>> {
    match value {
        Some(v) => seq![name + clip_spec(v, max)],
        None => Seq::empty(),
    }
}

/// The log message for a diagnostic message on the right channel: the
/// event, then the location (summarized as a URL), title, detail and target
/// that are present, each clipped, separated by spaces.
pub open spec fn js_message_text(
    kind: Seq<char>,
    location: Option<Seq<char>>,
    title: Option<Seq<char>>,
    detail: Option<Seq<char>>,
    target: Option<Seq<char>>,
) -> Seq<char> {
    let loc = match location {
        Some(l) => seq!["location="@ + text_summary(l)],
        None => Seq::empty(),
    };
    join(
        seq!["event="@ + clip_spec(kind, 120)] + loc + field_part("title="@, title, 120) + field_part(
            "detail="@,
            detail,
            180,
        ) + field_part("target="@, target, 180),
        " "@,
    )
}

/// A log message for a diagnostic message starts with the event and keeps
/// every field that is present: the location as its URL summary, the title,
/// detail and target clipped, each after a space and its name.
pub proof fn js_message_keeps_every_field(
    kind: Seq<char>,
    location: Option<Seq<char>>,
    title: Option<Seq<char>>,
    detail: Option<Seq<char>>,
    target: Option<Seq<char>>,
)
    ensures
        occurs_at(
            js_message_text(kind, location, title, detail, target),
            0,
            "event="@ + clip_spec(kind, 120),
        ),
        location matches Some(l) ==> contains_seq(
            js_message_text(kind, location, title, detail, target),
            " "@ + "location="@ + text_summary(l),
        ),
        title matches Some(t) ==> contains_seq(
            js_message_text(kind, location, title, detail, target),
            " "@ + "title="@ + clip_spec(t, 120),
        ),
        detail matches Some(d) ==> contains_seq(
            js_message_text(kind, location, title, detail, target),
            " "@ + "detail="@ + clip_spec(d, 180),
        ),
        target matches Some(g) ==> contains_seq(
            js_message_text(kind, location, title, detail, target),
            " "@ + "target="@ + clip_spec(g, 180),
        ),
{
    let loc = match location {
        Some(l) => seq!["location="@ + text_summary(l)],
        None => Seq::<Seq<char>>::empty(),
    };
    let ft = field_part("title="@, title, 120);
    let fd = field_part("detail="@, detail, 180);
    let fg = field_part("target="@, target, 180);
    let parts = seq!["event="@ + clip_spec(kind, 120)] + loc + ft + fd + fg;
    let sep = " "@;
    assert(js_message_text(kind, location, title, detail, target) == join(parts, sep));
    join_places_every_part(parts, sep, 0);
    assert(parts[0] == "event="@ + clip_spec(kind, 120));
    if let Some(l) = location {
        let i = 1nat;
        assert(parts[i as int] == "location="@ + text_summary(l));
        join_contains_later_parts(parts, sep, i);
        assert(sep + parts[i as int] =~= " "@ + "location="@ + text_summary(l));
    }
    if let Some(t) = title {
        let i = (1 + loc.len()) as nat;
        assert(parts[i as int] == "title="@ + clip_spec(t, 120));
        join_contains_later_parts(parts, sep, i);
        assert(sep + parts[i as int] =~= " "@ + "title="@ + clip_spec(t, 120));
    }
    if let Some(d) = detail {
        let i = (1 + loc.len() + ft.len()) as nat;
        assert(parts[i as int] == "detail="@ + clip_spec(d, 180));
        join_contains_later_parts(parts, sep, i);
        assert(sep + parts[i as int] =~= " "@ + "detail="@ + clip_spec(d, 180));
    }
    if let Some(g) = target {
        let i = (1 + loc.len() + ft.len() + fd.len()) as nat;
        assert(parts[i as int] == "target="@ + clip_spec(g, 180));
        join_contains_later_parts(parts, sep, i);
        assert(sep + parts[i as int] =~= " "@ + "target="@ + clip_spec(g, 180));
    }
}

/// The log message for a payload that did not decode.
pub open spec fn js_failure_text(error: Seq<char>, payload: Seq<char>) -> Seq<char> {
    "failed_to_parse="@ + clip_spec(error, 120) + " payload="@ + clip_spec(payload, 220)
}

fn push_field(parts: &mut Vec<Vec<char>>, name: &str, value: &Option<String>, max: usize)
    ensures
        final(parts)@.map_values(|p: Vec<char>| p@) == old(parts)@.map_values(|p: Vec<char>| p@)
            + field_part(name@, opt_str(*value), max as nat),
{
    match value {
        Some(v) => {
            let mut part = chars_of(name);
            let clipped = clip_chars(v.as_str(), max);
            push_all(&mut part, &clipped);
            parts.push(part);
        },
        None => {},
    }
    proof {
        assert(parts@.map_values(|p: Vec<char>| p@) =~= old(parts)@.map_values(|p: Vec<char>| p@)
            + field_part(name@, opt_str(*value), max as nat));
    }
}

/// The log message for a decoded diagnostic message, or `None` when it was
/// posted on another channel than the app's own; a payload that did not
/// decode is logged with its error and a clipped copy of the payload.
pub fn js_diagnostic_entry(
    parsed: &Result<JsDiagnosticMessage, String>,
    message_json: &str,
) -> (r: Option<String>)
    ensures
        match parsed {
            Ok(m) => opt_str(r) == (if m.channel@ == auth_channel() {
                Some(
                    js_message_text(
                        m.kind@,
                        opt_str(m.location),
                        opt_str(m.title),
                        opt_str(m.detail),
                        opt_str(m.target),
                    ),
                )
            } else {
                None
            }),
            Err(e) => opt_str(r) == Some(js_failure_text(e@, message_json@)),
        },
{
    match parsed {
        Ok(m) => {
            if !crate::text::str_eq(m.channel.as_str(), "grok-auth-diag") {
                return None;
            }
            let mut parts: Vec<Vec<char>> = Vec::new();
            let mut first = chars_of("event=");
            let kind = clip_chars(m.kind.as_str(), 120);
            push_all(&mut first, &kind);
            parts.push(first);
            let ghost p0 = parts@.map_values(|p: Vec<char>| p@);
            proof {
                assert(p0 =~= seq!["event="@ + clip_spec(m.kind@, 120)]);
            }
            match &m.location {
                Some(l) => {
                    let mut part = chars_of("location=");
                    let s = summarize_url_text(l.as_str());
                    let sc = chars_of(s.as_str());
                    push_all(&mut part, &sc);
                    parts.push(part);
                },
                None => {},
            }
            proof {
                let loc = match opt_str(m.location) {
                    Some(l) => seq!["location="@ + text_summary(l)],
                    None => Seq::<Seq<char>>::empty(),
                };
                assert(parts@.map_values(|p: Vec<char>| p@) =~= p0 + loc);
            }
            push_field(&mut parts, "title=", &m.title, 120);
            push_field(&mut parts, "detail=", &m.detail, 180);
            push_field(&mut parts, "target=", &m.target, 180);
            let sep = chars_of(" ");
            let line = join_chars(&parts, &sep);
            Some(string_of(line.as_slice()))
        },
        Err(e) => {
            let mut out = chars_of("failed_to_parse=");
            let err = clip_chars(e.as_str(), 120);
            push_all(&mut out, &err);
            push_str(&mut out, " payload=");
            let payload = clip_chars(message_json, 220);
            push_all(&mut out, &payload);
            Some(string_of(out.as_slice()))
        },
    }
}


// ---------------------------------------------------------------------------
// Navigation, page loads, titles and web requests

/// `true` or `false`, as `bool` displays.
pub open spec fn bool_text(b: bool) -> Seq<char> {
    if b {
        "true"@
    } else {
        "false"@
    }
}

/// The log message for a web request: its method, clipped, and its URL,
/// summarized; only requests that belong to a sign-in flow are logged.
pub open spec fn resource_request_text(uri: Seq<char>, method: Seq<char>) -> Option<Seq<char>> {
    if auth_related_text(uri) {
        Some("method="@ + clip_spec(method, 12) + " url="@ + text_summary(uri))
    } else {
        None
    }
}

/// The log message for a web request seen by the webview, or `None` when
/// the request is not part of a sign-in flow (see `resource_request_text`).
pub fn resource_request_entry(uri: &str, method: &str) -> (r: Option<String>)
    ensures
        opt_str(r) == resource_request_text(uri@, method@),
{
    if !is_auth_related_resource(uri) {
        return None;
    }
    let mut out = chars_of("method=");
    let m = clip_chars(method, 12);
    push_all(&mut out, &m);
    push_str(&mut out, " url=");
    let u = summarize_url_text(uri);
    push_str(&mut out, u.as_str());
    Some(string_of(out.as_slice()))
}

/// Decides a navigation: whether the URL may load in the window, and the log
/// message `allowed=<decision> url=<summary>`.
pub fn navigation_entry(url: &UrlParts) -> (r: (bool, String))
    ensures
        r.0 == allowed_url(url@),
        r.1@ == "allowed="@ + bool_text(r.0) + " url="@ + url_summary(url@),
{
    let allowed = is_allowed_url(url);
    let mut out = chars_of("allowed=");
    if allowed {
        push_str(&mut out, "true");
    } else {
        push_str(&mut out, "false");
    }
    push_str(&mut out, " url=");
    let s = summarize_url(url);
    push_str(&mut out, s.as_str());
    (allowed, string_of(out.as_slice()))
}

/// A stage of a page load.
pub enum PageLoad {
    Started,
    Finished,
}

/// The word a page-load stage is logged with.
pub open spec fn page_load_word(event: PageLoad) -> Seq<char> {
    match event {
        PageLoad::Started => "started"@,
        PageLoad::Finished => "finished"@,
    }
}

/// Whether the runtime diagnostic script is injected into the page at this
/// stage: exactly when the load has finished.
pub fn injects_runtime_script(event: &PageLoad) -> (r: bool)
    ensures
        r == (*event is Finished),
{
    match event {
        PageLoad::Started => false,
        PageLoad::Finished => true,
    }
}

/// The log message for a page-load stage: `event=<stage> url=<summary>`.
pub fn page_load_entry(event: &PageLoad, url: &UrlParts) -> (r: String)
    ensures
        r@ == "event="@ + page_load_word(*event) + " url="@ + url_summary(url@),
{
    let mut out = chars_of("event=");
    match event {
        PageLoad::Started => push_str(&mut out, "started"),
        PageLoad::Finished => push_str(&mut out, "finished"),
    }
    push_str(&mut out, " url=");
    let s = summarize_url(url);
    push_str(&mut out, s.as_str());
    string_of(out.as_slice())
}

/// The title the app's windows fall back to.
pub open spec fn default_title() -> Seq<char> {
    "Grok"@
}

/// The title a window takes when its page reports `title`: the page's title,
/// unless it is blank.
pub open spec fn window_title_for(title: Seq<char>) -> Seq<char> {
    if is_blank(title) {
        default_title()
    } else {
        title
    }
}

/// Decides a title change: the title the window takes (see
/// `window_title_for`) and the log message `title=<clipped title>`.
pub fn title_change(title: &str) -> (r: (String, String))
    ensures
        r.0@ == window_title_for(title@),
        r.1@ == "title="@ + clip_spec(window_title_for(title@), 140),
{
    let t = chars_of(title);
    let shown = if blank(&t) {
        string_of(chars_of("Grok").as_slice())
    } else {
        string_of(t.as_slice())
    };
    let mut out = chars_of("title=");
    let clipped = clip_chars(shown.as_str(), 140);
    push_all(&mut out, &clipped);
    (shown, string_of(out.as_slice()))
}

/// The log message for a popup request: `label=<label> url=<summary>`.
pub fn popup_request_entry(label: &str, url: &UrlParts) -> (r: String)
    ensures
        r@ == "label="@ + label@ + " url="@ + url_summary(url@),
{
    let mut out = chars_of("label=");
    push_str(&mut out, label);
    push_str(&mut out, " url=");
    let s = summarize_url(url);
    push_str(&mut out, s.as_str());
    string_of(out.as_slice())
}

} // verus!
