//! The parts of a parsed URL that the rules of this library read.

use vstd::prelude::*;

verus! {

/// A URL as the rules see it: the pieces of an absolute URL that the
/// navigation, logging and notification rules read, held as plain strings.
pub struct UrlParts {
    /// The scheme, in lower case and without the `:`.
    pub scheme: String,
    /// The serialized host, where the URL has one.
    pub host: Option<String>,
    /// The serialized path (for an opaque URL such as `blob:`, everything
    /// between the scheme and the query).
    pub path: String,
    /// The serialization of the URL with its query and fragment removed.
    pub base: String,
    /// The percent-decoded names of the query's `name=value` pairs, in
    /// order, repeats kept.
    pub query_keys: Vec<String>,
}

/// The mathematical value of a `UrlParts`.
pub struct UrlView {
    pub scheme: Seq<char>,
    pub host: Option<Seq<char>>,
    pub path: Seq<char>,
    pub base: Seq<char>,
    pub query_keys: Seq<Seq<char>>,
}

/// The view of an optional string.
pub open spec fn opt_str(o: Option<String>) -> Option<Seq<char>> {
    match o {
        Some(s) => Some(s@),
        None => None,
    }
}

impl View for UrlParts {
    type V = UrlView;

    open spec fn view(&self) -> UrlView {
        UrlView {
            scheme: self.scheme@,
            host: opt_str(self.host),
            path: self.path@,
            base: self.base@,
            query_keys: self.query_keys@.map_values(|k: String| k@),
        }
    }
}

/// The view of an optional `UrlParts`.
pub open spec fn opt_url(o: Option<UrlParts>) -> Option<UrlView> {
    match o {
        Some(u) => Some(u@),
        None => None,
    }
}

/// What `url::Url::parse` makes of a text: `None` where it returns an
/// error, otherwise the parts of the URL it returns.
pub uninterp spec fn url_parse(text: Seq<char>) -> Option<UrlView>;

/// Calls `url::Url::parse`, and on success reads the parts of the URL with
/// its accessors (`scheme`, `host_str`, `path`, `query_pairs`) and its
/// serialization once `set_query(None)` and `set_fragment(None)` have removed
/// query and fragment. Claimed: the result is a fixed function of the text
/// (`url_parse`); what the WHATWG parser accepts and how it normalizes is not
/// stated here.
#[verifier::external_body]
pub(crate) fn parse_url(text: &str) -> (r: Option<UrlParts>)
    ensures
        opt_url(r) == url_parse(text@),
{
    let url = match url::Url::parse(text) {
        Ok(url) => url,
        Err(_) => return None,
    };
    let mut bare = url.clone();
    bare.set_query(None);
    bare.set_fragment(None);
    Some(UrlParts {
        scheme: url.scheme().to_string(),
        host: url.host_str().map(|h| h.to_string()),
        path: url.path().to_string(),
        base: bare.to_string(),
        query_keys: url.query_pairs().map(|pair| pair.0.into_owned()).collect(),
    })
}

} // verus!
