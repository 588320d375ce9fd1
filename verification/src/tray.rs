//! What the entries of the tray menu do, and the switches the app is
//! started with.

use vstd::prelude::*;
use crate::text::str_eq;

verus! {

/// The effect of choosing a tray menu entry.
pub enum MenuAction {
    /// Show the main window and give it the focus.
    ShowMain,
    /// Switch launching at system startup on or off.
    ToggleStartup,
    /// Reveal the authentication debug log in the file manager.
    RevealAuthLog,
    /// Send a test notification, to check that the system shows them.
    SendTestNotification,
    /// Leave the application.
    Quit,
    /// Nothing (an entry this menu does not have).
    Nothing,
}

/// The effect of the tray menu entry with identifier `id`: `open`,
/// `startup`, `open_auth_log` and `close` are the menu's entries.
pub open spec fn menu_action_spec(id: Seq<char>) -> MenuAction {
    if id == "open"@ {
        MenuAction::ShowMain
    } else if id == "startup"@ {
        MenuAction::ToggleStartup
    } else if id == "open_auth_log"@ {
        MenuAction::RevealAuthLog
    } else if id == "test_notification"@ {
        MenuAction::SendTestNotification
    } else if id == "close"@ {
        MenuAction::Quit
    } else {
        MenuAction::Nothing
    }
}

/// The effect of the tray menu entry with identifier `id`.
pub fn menu_action(id: &str) -> (r: MenuAction)
    ensures
        r == menu_action_spec(id@),
{
    if str_eq(id, "open") {
        MenuAction::ShowMain
    } else if str_eq(id, "startup") {
        MenuAction::ToggleStartup
    } else if str_eq(id, "open_auth_log") {
        MenuAction::RevealAuthLog
    } else if str_eq(id, "test_notification") {
        MenuAction::SendTestNotification
    } else if str_eq(id, "close") {
        MenuAction::Quit
    } else {
        MenuAction::Nothing
    }
}


/// The views of the command-line arguments.
pub open spec fn arg_views(args: Seq<String>) -> Seq<Seq<char>> {
    args.map_values(|a: String| a@)
}

/// One of the arguments after the program's own path is `flag`.
pub open spec fn has_flag(args: Seq<Seq<char>>, flag: Seq<char>) -> bool {
    exists|i: int| 1 <= i < args.len() && args[i] == flag
}

/// Whether one of the arguments after the program's path is `flag`.
fn flag_given(args: &Vec<String>, flag: &str) -> (r: bool)
    ensures
        r == has_flag(arg_views(args@), flag@),
{
    let ghost av = arg_views(args@);
    let mut i: usize = 1;
    while i < args.len()
        invariant
            1 <= i <= args.len() || args.len() == 0,
            av == arg_views(args@),
            forall|k: int| 1 <= k < i && k < args.len() ==> av[k] != flag@,
        decreases args.len() - i,
    {
        if str_eq(args[i].as_str(), flag) {
            proof {
                assert(av[i as int] == flag@);
            }
            return true;
        }
        i = i + 1;
    }
    false
}

/// The switch the system's startup entry passes: the app then starts in the
/// tray, with its window hidden.
pub open spec fn autostart_flag() -> Seq<char> {
    "--autostart"@
}

/// The switch that turns the authentication debug log on; without it no
/// line is written.
pub open spec fn auth_log_flag() -> Seq<char> {
    "--auth-debug-log"@
}

/// Whether the app was started by the system at login (with `--autostart`),
/// rather than by the user; only then does it start hidden in the tray.
pub fn started_at_login(args: &Vec<String>) -> (r: bool)
    ensures
        r == has_flag(arg_views(args@), autostart_flag()),
{
    flag_given(args, "--autostart")
}

/// Whether the authentication debug log is on: it is opt-in, with
/// `--auth-debug-log`.
pub fn auth_log_enabled(args: &Vec<String>) -> (r: bool)
    ensures
        r == has_flag(arg_views(args@), auth_log_flag()),
{
    flag_given(args, "--auth-debug-log")
}

} // verus!
