//! Which hosts and URLs may be loaded inside the app's windows.

use vstd::prelude::*;
use crate::text::{chars_of, ends_with, ends_with_exec, occurs_at, occurs_at_exec, push_all, same_chars, str_eq};
use crate::url_parts::{opt_str, opt_url, parse_url, url_parse, UrlParts, UrlView};


verus! {

/// The sites whose pages, and whose subdomains' pages, may be opened inside
/// the app: Grok itself and the sign-in providers it hands over to.
pub open spec fn allowed_hosts() -> Seq<Seq<char>> {
    seq![
        "grok.com"@,
        "x.ai"@,
        "x.com"@,
        "twitter.com"@,
        "t.co"@,
        "google.com"@,
        "googleusercontent.com"@,
        "microsoftonline.com"@,
        "live.com"@,
        "microsoft.com"@,
        "onedrive.com"@,
    ]
}

/// `host` is `site` or a subdomain of it.
pub open spec fn host_under(host: Seq<char>, site: Seq<char>) -> bool {
    host == site || ends_with(host, seq!['.'] + site)
}

/// `host` is one of the allowed sites or a subdomain of one.
pub open spec fn allowed_host(host: Seq<char>) -> bool {
    exists|i: int| 0 <= i < allowed_hosts().len() && host_under(host, #[trigger] allowed_hosts()[i])
}

/// An optional host that is present and allowed.
pub open spec fn allowed_opt_host(host: Option<Seq<char>>) -> bool {
    match host {
        Some(h) => allowed_host(h),
        None => false,
    }
}

/// The allowed sites, as the code holds them.
fn allowed_host_list() -> (v: Vec<&'static str>)
    ensures
        v@.len() == allowed_hosts().len(),
        forall|i: int| 0 <= i < v@.len() ==> (#[trigger] v@[i])@ == allowed_hosts()[i],
{
    vec![
        "grok.com",
        "x.ai",
        "x.com",
        "twitter.com",
        "t.co",
        "google.com",
        "googleusercontent.com",
        "microsoftonline.com",
        "live.com",
        "microsoft.com",
        "onedrive.com",
    ]
}

/// Whether `hostname` is one of the allowed sites or a subdomain of one.
pub fn is_allowed_host(hostname: &str) -> (r: bool)
    ensures
        r == allowed_host(hostname@),
{
    let host = chars_of(hostname);
    let sites = allowed_host_list();
    let mut i: usize = 0;
    while i < sites.len()
        invariant
            i <= sites.len(),
            host@ == hostname@,
            sites@.len() == allowed_hosts().len(),
            forall|k: int| 0 <= k < sites@.len() ==> (#[trigger] sites@[k])@ == allowed_hosts()[k],
            forall|k: int| 0 <= k < i ==> !host_under(hostname@, #[trigger] allowed_hosts()[k]),
        decreases sites.len() - i,
    {
        let site = chars_of(sites[i]);
        let mut dotted: Vec<char> = vec!['.'];
        push_all(&mut dotted, &site);
        proof {
            assert(site@ == allowed_hosts()[i as int]);
            assert(dotted@ =~= seq!['.'] + allowed_hosts()[i as int]);
        }
        if same_chars(&host, &site) || ends_with_exec(&host, &dotted) {
            proof {
                assert(host_under(hostname@, allowed_hosts()[i as int]));
            }
            return true;
        }
        i = i + 1;
    }
    false
}


/// A `blob:` URL's path names the URL of the blob's origin when it starts
/// with `http:` or `https:`. The path is cut at its first `:`; the part before
/// it must be `http` or `https`, and the two parts joined again with `:` are
/// the path itself, which is then parsed as a URL.
pub open spec fn blob_origin_named(path: Seq<char>) -> bool {
    occurs_at(path, 0, "http:"@) || occurs_at(path, 0, "https:"@)
}

/// A parse result that is a URL with an allowed host.
pub open spec fn parsed_allowed(parsed: Option<UrlView>) -> bool {
    match parsed {
        Some(v) => allowed_opt_host(v.host),
        None => false,
    }
}

/// Which URLs may be loaded in a window of the app: web pages of an allowed
/// host, `about:blank`, and `blob:` URLs whose origin is a web page of an
/// allowed host.
pub open spec fn allowed_url(u: UrlView) -> bool {
    if u.scheme == "http"@ || u.scheme == "https"@ {
        allowed_opt_host(u.host)
    } else if u.scheme == "about"@ {
        u.path == "blank"@
    } else if u.scheme == "blob"@ {
        blob_origin_named(u.path) && parsed_allowed(url_parse(u.path))
    } else {
        false
    }
}

/// Whether a host that may be absent is present and allowed.
fn opt_host_allowed(host: &Option<String>) -> (r: bool)
    ensures
        r == allowed_opt_host(opt_str(*host)),
{
    match host {
        Some(h) => is_allowed_host(h.as_str()),
        None => false,
    }
}

/// Whether the result of parsing a URL is a URL with an allowed host.
pub fn parsed_url_allowed(parsed: &Option<UrlParts>) -> (r: bool)
    ensures
        r == parsed_allowed(opt_url(*parsed)),
{
    match parsed {
        Some(u) => opt_host_allowed(&u.host),
        None => false,
    }
}

/// Whether a URL may be loaded in a window of the app (see `allowed_url`).
pub fn is_allowed_url(url: &UrlParts) -> (r: bool)
    ensures
        r == allowed_url(url@),
{
    let scheme = url.scheme.as_str();
    if str_eq(scheme, "http") || str_eq(scheme, "https") {
        opt_host_allowed(&url.host)
    } else if str_eq(scheme, "about") {
        str_eq(url.path.as_str(), "blank")
    } else if str_eq(scheme, "blob") {
        let path = chars_of(url.path.as_str());
        let http = chars_of("http:");
        let https = chars_of("https:");
        if occurs_at_exec(&path, 0, &http) || occurs_at_exec(&path, 0, &https) {
            let inner = parse_url(url.path.as_str());
            parsed_url_allowed(&inner)
        } else {
            false
        }
    } else {
        false
    }
}


/// A subdomain of an allowed host is allowed: whatever labels are put in
/// front of an allowed host, with a dot between, the result is allowed.
pub proof fn subdomain_of_allowed_is_allowed(prefix: Seq<char>, host: Seq<char>)
    requires
        allowed_host(host),
    ensures
        allowed_host(prefix + seq!['.'] + host),
{
    let i = choose|i: int| 0 <= i < allowed_hosts().len() && host_under(host, #[trigger] allowed_hosts()[i]);
    let site = allowed_hosts()[i];
    let pat = seq!['.'] + site;
    let full = prefix + seq!['.'] + host;
    if host == site {
        assert(full.subrange(full.len() - pat.len(), full.len() as int) =~= pat);
    } else {
        assert(ends_with(host, pat));
        assert(full.subrange(full.len() - pat.len(), full.len() as int) =~= host.subrange(
            host.len() - pat.len(),
            host.len() as int,
        ));
    }
    assert(host_under(full, allowed_hosts()[i]));
}


/// Nothing but web pages, `about:` pages and `blob:` URLs is ever let into a
/// window, and of the `about:` pages only `about:blank`.
pub proof fn allowed_urls_are_web_blank_or_blob(u: UrlView)
    requires
        allowed_url(u),
    ensures
        u.scheme == "http"@ || u.scheme == "https"@ || u.scheme == "blob"@ || (u.scheme == "about"@
            && u.path == "blank"@),
        (u.scheme == "http"@ || u.scheme == "https"@) ==> allowed_opt_host(u.host),
{
}

} // verus!
