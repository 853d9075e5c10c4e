//! The tray menu and the navigation of the main window.
use vstd::prelude::*;
use vstd::string::*;

use crate::text::{join3, same_text};

verus! {

/// What choosing a tray menu item does.
#[derive(Debug, Clone, Copy, PartialEq, Eq, Structural)]
pub enum TrayAction {
    /// Show the window on its files tab.
    ShowFiles,
    /// Show the window on its settings tab.
    ShowSettings,
    /// Leave the app.
    Quit,
    /// Nothing.
    Ignore,
}

/// The action of the menu item with the id `id`.
pub open spec fn action_of(id: Seq<char>) -> TrayAction {
    if id == "open_files"@ {
        TrayAction::ShowFiles
    } else if id == "settings"@ {
        TrayAction::ShowSettings
    } else if id == "quit"@ {
        TrayAction::Quit
    } else {
        TrayAction::Ignore
    }
}

/// The action of the tray menu item with the id `id`.
pub fn menu_action(id: &str) -> (r: TrayAction)
    ensures
        r == action_of(id@),
{
    if same_text(id, "open_files") {
        TrayAction::ShowFiles
    } else if same_text(id, "settings") {
        TrayAction::ShowSettings
    } else if same_text(id, "quit") {
        TrayAction::Quit
    } else {
        TrayAction::Ignore
    }
}

/// The tab that an action shows, if it shows one.
pub open spec fn tab_of(action: TrayAction) -> Option<Seq<char>> {
    match action {
        TrayAction::ShowFiles => Some("files"@),
        TrayAction::ShowSettings => Some("settings"@),
        _ => None,
    }
}

/// The tab that `action` shows, if it shows one.
pub fn action_tab(action: TrayAction) -> (r: Option<&'static str>)
    ensures
        match tab_of(action) {
            Some(tab) => (r matches Some(t) && t@ == tab),
            None => r is None,
        },
{
    match action {
        TrayAction::ShowFiles => Some("files"),
        TrayAction::ShowSettings => Some("settings"),
        _ => None,
    }
}

/// The script that makes the window's page show `tab`.
pub open spec fn navigation_script(tab: Seq<char>) -> Seq<char> {
    "window.__navigateTo && window.__navigateTo('"@ + tab + "')"@
}

/// The script that makes the window's page show `tab`.
pub fn navigate_script(tab: &str) -> (r: String)
    ensures
        r@ == navigation_script(tab@),
{
    join3("window.__navigateTo && window.__navigateTo('", tab, "')")
}

} // verus!
