//! Verified core of the Grok desktop wrapper: the rules that decide which
//! navigations and popups stay inside the app, the redaction of URLs and
//! free text before they reach the diagnostic log, and the gates in front
//! of native answer notifications.

pub mod text;
pub mod url_parts;
pub mod hosts;
pub mod summary;
pub mod auth;
pub mod diagnostics;
pub mod popup;
pub mod notify;
pub mod tray;
