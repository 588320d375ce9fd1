# grok_desktop

The verified core of a Windows desktop wrapper for Grok (Tauri 2 and
WebView2). The library decides which navigations and popups stay inside the
app's windows, what the authentication debug log keeps of URLs and page
messages, and when an "answer finished" notification is shown. Every function
in `src/` carries a Verus contract.

- `src/text.rs`: whitespace collapsing and clipping, decimal numbers, ASCII
  lower case, substring search, joining.
- `src/url_parts.rs`: the parts of a parsed URL that the rules read, and the
  call into the `url` crate's parser.
- `src/hosts.rs`: the allowed sites and the navigation rule.
- `src/summary.rs`: the redacted form of a URL for the log.
- `src/auth.rs`: which web requests belong to a sign-in flow.
- `src/diagnostics.rs`: the lines of the authentication debug log and its
  size bound.
- `src/popup.rs`: popup window labels.
- `src/notify.rs`: the decision on a native notification and the state
  between requests.
- `src/tray.rs`: the tray menu entries and the launch switches
  (`--autostart`, passed by the login entry, starts the app in the tray;
  `--auth-debug-log` turns the authentication debug log on).

`app/` holds the Tauri program around the library: windows, webview
callbacks, WebView2 event handlers, the tray, files and JSON decoding.
