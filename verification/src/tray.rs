//! The tray menu: which menu entry does what.

use vstd::prelude::*;
use crate::text::str_eq;

verus! {

/// Name of the event that asks the window to refresh the printer list.
pub const TRAY_REFRESH_EVENT: &'static str = "tray-refresh";

/// What a tray menu entry does.
#[derive(Debug, Clone, Copy, PartialEq, Eq, Structural)]
pub enum TrayMenuAction {
    /// Show and focus the main window.
    ShowWindow,
    /// Ask the window to refresh the printer list.
    Refresh,
    /// Quit the program.
    Quit,
    /// Nothing (separator or unknown entry).
    Nothing,
}

/// The action of the tray menu entry with this id.
pub fn tray_menu_action(id: &str) -> (r: TrayMenuAction)
    ensures
        id@ == "show"@ ==> r == TrayMenuAction::ShowWindow,
        id@ == "refresh"@ ==> r == TrayMenuAction::Refresh,
        id@ == "quit"@ ==> r == TrayMenuAction::Quit,
        id@ != "show"@ && id@ != "refresh"@ && id@ != "quit"@ ==> r == TrayMenuAction::Nothing,
{
    proof {
        reveal_strlit("show");
        reveal_strlit("refresh");
        reveal_strlit("quit");
        assert("show"@.len() != "refresh"@.len());
        assert("quit"@.len() != "refresh"@.len());
        assert("show"@[0] != "quit"@[0]);
    }
    if str_eq(id, "show") {
        TrayMenuAction::ShowWindow
    } else if str_eq(id, "refresh") {
        TrayMenuAction::Refresh
    } else if str_eq(id, "quit") {
        TrayMenuAction::Quit
    } else {
        TrayMenuAction::Nothing
    }
}

} // verus!
