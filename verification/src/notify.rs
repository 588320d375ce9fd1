//! The gates in front of a native "answer finished" notification.

use vstd::prelude::*;
use crate::text::{blank, chars_of, is_blank, str_eq, string_of, take_chars};
use crate::url_parts::{opt_str, UrlParts, UrlView};

verus! {

/// The only page that may ask for a notification: the main window showing
/// `https://grok.com`.
pub open spec fn notify_origin_ok(window_label: Seq<char>, url: UrlView) -> bool {
    window_label == "main"@ && url.scheme == "https"@ && url.host == Some("grok.com"@)
}

/// The origin check reads the window label, the URL's scheme and its host,
/// and nothing else: the main window on scheme `https` and host exactly
/// `grok.com` passes, whatever the URL's path, query or fragment, and every
/// other label, scheme or host fails.
pub proof fn origin_check_reads_label_scheme_and_host(
    window_label: Seq<char>,
    url: UrlView,
    other: UrlView,
)
    ensures
        notify_origin_ok(window_label, url) <==> (window_label == "main"@ && url.scheme == "https"@
            && url.host == Some("grok.com"@)),
        url.scheme == other.scheme && url.host == other.host ==> notify_origin_ok(window_label, url)
            == notify_origin_ok(window_label, other),
{
}

/// The message a request from another origin is refused with.
pub open spec fn origin_rejected_text() -> Seq<char> {
    "Notification origin rejected"@
}

/// The message a blank answer text is refused with.
pub open spec fn empty_notification_text() -> Seq<char> {
    "Empty notification"@
}

/// The first decision on a notification request.
pub enum NotifyGate {
    /// Refuse the request with this message.
    Reject(String),
    /// Accept the request and show nothing.
    Ignore,
    /// Go on to the rate limit and the text.
    Proceed,
}

/// The second decision on a notification request.
pub enum NotifyDecision {
    /// Refuse the request with this message.
    Reject(String),
    /// Accept the request and show nothing.
    Ignore,
    /// Show a notification with this text.
    Deliver(String),
}

/// The user is looking at the window: it is focused, visible and not
/// minimized.
pub open spec fn watched(focused: bool, visible: bool, minimized: bool) -> bool {
    focused && visible && !minimized
}

/// The checks that come before the rate limit: a request from anywhere but
/// the main window on `https://grok.com` is refused; while the window is
/// watched the user sees the answer already, and nothing is shown;
/// otherwise the request goes on.
pub fn notify_gate(
    window_label: &str,
    url: &UrlParts,
    focused: bool,
    visible: bool,
    minimized: bool,
) -> (r: NotifyGate)
    ensures
        !notify_origin_ok(window_label@, url@) ==> (r matches NotifyGate::Reject(m)
            && m@ == origin_rejected_text()),
        notify_origin_ok(window_label@, url@) && watched(focused, visible, minimized) ==> r is Ignore,
        notify_origin_ok(window_label@, url@) && !watched(focused, visible, minimized) ==> r is Proceed,
{
    let host_ok = match &url.host {
        Some(h) => str_eq(h.as_str(), "grok.com"),
        None => false,
    };
    proof {
        assert(host_ok == (opt_str(url.host) == Some("grok.com"@)));
    }
    if !str_eq(window_label, "main") || !str_eq(url.scheme.as_str(), "https") || !host_ok {
        return NotifyGate::Reject(string_of(chars_of("Notification origin rejected").as_slice()));
    }
    if focused && visible && !minimized {
        return NotifyGate::Ignore;
    }
    NotifyGate::Proceed
}

/// How long after a notification was sent another one is held back, in
/// nanoseconds (3 seconds).
pub open spec fn quiet_period_ns() -> nat {
    3_000_000_000
}

/// The most characters of the answer a notification shows.
pub open spec fn max_notification_chars() -> nat {
    300
}

/// The text a notification shows of an answer: its first 300 characters.
pub open spec fn notification_text(body: Seq<char>) -> Seq<char> {
    if body.len() > max_notification_chars() {
        body.take(max_notification_chars() as int)
    } else {
        body
    }
}

/// `now` falls within 3 seconds of the last notification sent, if one was
/// (a clock reading before it counts as within, as `Instant::elapsed`
/// saturates at zero).
pub open spec fn in_quiet_period(last_sent: Option<nat>, now: nat) -> bool {
    last_sent matches Some(t) && now < t + quiet_period_ns()
}

/// The request passes every check and a notification is shown.
pub open spec fn delivers(
    last_sent: Option<nat>,
    window_label: Seq<char>,
    url: UrlView,
    focused: bool,
    visible: bool,
    minimized: bool,
    now: nat,
    body: Seq<char>,
) -> bool {
    &&& notify_origin_ok(window_label, url)
    &&& !watched(focused, visible, minimized)
    &&& !in_quiet_period(last_sent, now)
    &&& !is_blank(notification_text(body))
}

/// What the app remembers between notification requests: when it last sent
/// one, on a clock in nanoseconds.
pub struct NotifyState {
    last_sent_ns: Option<u128>,
}

impl NotifyState {
    /// When a notification was last sent, if one was.
    pub closed spec fn last_sent(&self) -> Option<nat> {
        match self.last_sent_ns {
            Some(t) => Some(t as nat),
            None => None,
        }
    }

    /// The state before any notification.
    pub fn new() -> (s: Self)
        ensures
            s.last_sent() == None::<nat>,
    {
        NotifyState { last_sent_ns: None }
    }
}

/// Decides a request to notify that an answer is finished, at clock reading
/// `now_ns`: refused from another origin; nothing while the window is
/// watched or within 3 seconds of the last notification sent; refused when
/// the first 300 characters of the answer are blank; otherwise a
/// notification with those characters. After sending, `record_outcome`
/// updates the state.
pub fn notify_answer(
    state: &NotifyState,
    window_label: &str,
    url: &UrlParts,
    focused: bool,
    visible: bool,
    minimized: bool,
    now_ns: u128,
    body: &str,
) -> (r: NotifyDecision)
    ensures
        !notify_origin_ok(window_label@, url@) ==> (r matches NotifyDecision::Reject(m)
            && m@ == origin_rejected_text()),
        notify_origin_ok(window_label@, url@) && watched(focused, visible, minimized) ==> r is Ignore,
        notify_origin_ok(window_label@, url@) && !watched(focused, visible, minimized)
            && in_quiet_period(state.last_sent(), now_ns as nat) ==> r is Ignore,
        notify_origin_ok(window_label@, url@) && !watched(focused, visible, minimized)
            && !in_quiet_period(state.last_sent(), now_ns as nat) && is_blank(
            notification_text(body@),
        ) ==> (r matches NotifyDecision::Reject(m) && m@ == empty_notification_text()),
        delivers(
            state.last_sent(),
            window_label@,
            url@,
            focused,
            visible,
            minimized,
            now_ns as nat,
            body@,
        ) ==> (r matches NotifyDecision::Deliver(b) && b@ == notification_text(body@)),
        (r is Deliver) == delivers(
            state.last_sent(),
            window_label@,
            url@,
            focused,
            visible,
            minimized,
            now_ns as nat,
            body@,
        ),
{
    match notify_gate(window_label, url, focused, visible, minimized) {
        NotifyGate::Reject(m) => {
            return NotifyDecision::Reject(m);
        },
        NotifyGate::Ignore => {
            return NotifyDecision::Ignore;
        },
        NotifyGate::Proceed => {},
    }
    match state.last_sent_ns {
        Some(t) => {
            if now_ns < t || now_ns - t < 3_000_000_000 {
                return NotifyDecision::Ignore;
            }
        },
        None => {},
    }
    let chars = chars_of(body);
    let text = take_chars(&chars, 300);
    if blank(&text) {
        return NotifyDecision::Reject(string_of(chars_of("Empty notification").as_slice()));
    }
    NotifyDecision::Deliver(string_of(text.as_slice()))
}

/// Records what became of a decision: when a notification was to be shown
/// and sending it succeeded, it counts as sent at `sent_at_ns`; in every
/// other case the state stays as it was.
pub fn record_outcome(state: &mut NotifyState, decision: &NotifyDecision, sent_at_ns: u128, sent: bool)
    ensures
        final(state).last_sent() == (if decision is Deliver && sent {
            Some(sent_at_ns as nat)
        } else {
            old(state).last_sent()
        }),
{
    if sent {
        if let NotifyDecision::Deliver(_) = decision {
            state.last_sent_ns = Some(sent_at_ns);
        }
    }
}

/// One request to notify, with what became of it: the clock reading at the
/// decision, whether sending succeeded, and the clock reading after it.
pub struct NotifyRequest {
    pub window_label: Seq<char>,
    pub url: UrlView,
    pub focused: bool,
    pub visible: bool,
    pub minimized: bool,
    pub now: nat,
    pub body: Seq<char>,
    pub sent: bool,
    pub sent_at: nat,
}

/// A request that `notify_answer` decides to show and whose sending
/// succeeded.
pub open spec fn shown(last_sent: Option<nat>, q: NotifyRequest) -> bool {
    delivers(last_sent, q.window_label, q.url, q.focused, q.visible, q.minimized, q.now, q.body)
        && q.sent
}

/// The state after a request, as `record_outcome` leaves it.
pub open spec fn state_after(last_sent: Option<nat>, q: NotifyRequest) -> Option<nat> {
    if shown(last_sent, q) {
        Some(q.sent_at)
    } else {
        last_sent
    }
}

/// The times at which notifications were sent over a run of requests.
pub open spec fn sent_times(last_sent: Option<nat>, qs: Seq<NotifyRequest>) -> Seq<nat>
    decreases qs.len(),
{
    if qs.len() == 0 {
        Seq::empty()
    } else {
        let head = if shown(last_sent, qs[0]) {
            seq![qs[0].sent_at]
        } else {
            Seq::empty()
        };
        head + sent_times(state_after(last_sent, qs[0]), qs.drop_first())
    }
}

/// Over a run of requests, each notification is sent at least 3 seconds
/// after the previous one, and after the one sent before the run.
proof fn sent_times_spaced(last_sent: Option<nat>, qs: Seq<NotifyRequest>)
    requires
        forall|i: int| 0 <= i < qs.len() ==> (#[trigger] qs[i]).now <= qs[i].sent_at,
    ensures
        forall|k: int|
            0 <= k < sent_times(last_sent, qs).len() - 1 ==> #[trigger] sent_times(last_sent, qs)[k]
                + quiet_period_ns() <= sent_times(last_sent, qs)[k + 1],
        last_sent matches Some(t) ==> (sent_times(last_sent, qs).len() > 0 ==> t + quiet_period_ns()
            <= sent_times(last_sent, qs)[0]),
    decreases qs.len(),
{
    if qs.len() > 0 {
        let q = qs[0];
        let rest = qs.drop_first();
        assert forall|i: int| 0 <= i < rest.len() implies (#[trigger] rest[i]).now <= rest[i].sent_at by {
            assert(rest[i] == qs[i + 1]);
        }
        let next = state_after(last_sent, q);
        sent_times_spaced(next, rest);
        let tail = sent_times(next, rest);
        let all = sent_times(last_sent, qs);
        if shown(last_sent, q) {
            assert(q == qs[0]);
            assert(all =~= seq![q.sent_at] + tail);
            assert forall|k: int| 0 <= k < all.len() - 1 implies #[trigger] all[k]
                + quiet_period_ns() <= all[k + 1] by {
                if k > 0 {
                    assert(all[k] == tail[k - 1] && all[k + 1] == tail[k]);
                } else {
                    assert(all[1] == tail[0]);
                }
            }
        } else {
            assert(all =~= tail);
        }
    }
}

/// Any two notifications sent one after the other are at least 3 seconds
/// apart: over any run of requests from the start, each decided by
/// `notify_answer` and recorded by `record_outcome`, provided the clock does
/// not stand before the decision when a sending is recorded.
pub proof fn notifications_are_three_seconds_apart(qs: Seq<NotifyRequest>)
    requires
        forall|i: int| 0 <= i < qs.len() ==> (#[trigger] qs[i]).now <= qs[i].sent_at,
    ensures
        forall|k: int|
            0 <= k < sent_times(None, qs).len() - 1 ==> #[trigger] sent_times(None, qs)[k]
                + quiet_period_ns() <= sent_times(None, qs)[k + 1],
{
    sent_times_spaced(None, qs);
}

/// The size from which the notification delivery log starts over.
pub open spec fn notification_log_limit() -> nat {
    65536
}

/// Whether a delivery record is appended to the notification log (`true`)
/// or the log starts over with it (`false`): it is appended while the log is
/// below 64 KiB, and when its size is unknown (as when it does not exist).
pub fn notification_log_appends(existing_len: Option<u64>) -> (r: bool)
    ensures
        r == match existing_len {
            Some(n) => n < notification_log_limit(),
            None => true,
        },
{
    match existing_len {
        Some(n) => n < 65536,
        None => true,
    }
}


/// The delivery log after one record: kept and extended while
/// `notification_log_appends` says so, otherwise replaced by the record.
pub open spec fn notification_log_after(content: Seq<u8>, record: Seq<u8>) -> Seq<u8> {
    if content.len() < notification_log_limit() {
        content + record
    } else {
        record
    }
}

/// The delivery log after a run of records.
pub open spec fn notification_log_after_all(content: Seq<u8>, records: Seq<Seq<u8>>) -> Seq<u8>
    decreases records.len(),
{
    if records.len() == 0 {
        content
    } else {
        notification_log_after_all(notification_log_after(content, records[0]), records.drop_first())
    }
}

/// The notification delivery log stays bounded: once at least one record
/// has been written, whatever the log held before, it is smaller than
/// 64 KiB plus the longest record.
pub proof fn notification_log_stays_bounded(content: Seq<u8>, records: Seq<Seq<u8>>, max_record: nat)
    requires
        records.len() > 0,
        forall|i: int| 0 <= i < records.len() ==> (#[trigger] records[i]).len() <= max_record,
    ensures
        notification_log_after_all(content, records).len() < notification_log_limit() + max_record,
    decreases records.len(),
{
    let next = notification_log_after(content, records[0]);
    let rest = records.drop_first();
    assert(notification_log_after_all(content, records) == notification_log_after_all(next, rest));
    if rest.len() > 0 {
        assert forall|i: int| 0 <= i < rest.len() implies (#[trigger] rest[i]).len() <= max_record by {
            assert(rest[i] == records[i + 1]);
        }
        notification_log_stays_bounded(next, rest, max_record);
    } else {
        assert(records[0].len() <= max_record);
        assert(notification_log_after_all(next, rest) == next);
    }
}

} // verus!
