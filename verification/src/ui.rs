//! Decisions of the launcher's windows and tray menu.
use vstd::prelude::*;
use crate::text::{chars_of, eq_exec, lit};

verus! {

/// What a click on an item of the tray menu does.
pub enum TrayAction {
    /// Show the main window and focus it.
    ShowMain,
    /// Open (or show) the settings window.
    OpenSettings,
    /// Let go of the service and quit.
    Quit,
    /// Nothing.
    Ignore,
}

/// The action of the tray menu item `id`: `open`, `settings` or `quit`.
pub open spec fn spec_tray_action(id: Seq<char>) -> TrayAction {
    if id == "open"@ {
        TrayAction::ShowMain
    } else if id == "settings"@ {
        TrayAction::OpenSettings
    } else if id == "quit"@ {
        TrayAction::Quit
    } else {
        TrayAction::Ignore
    }
}

pub fn tray_action(id: &str) -> (r: TrayAction)
    ensures
        r == spec_tray_action(id@),
{
    let v = chars_of(id);
    if eq_exec(&v, &chars_of("open")) {
        TrayAction::ShowMain
    } else if eq_exec(&v, &chars_of("settings")) {
        TrayAction::OpenSettings
    } else if eq_exec(&v, &chars_of("quit")) {
        TrayAction::Quit
    } else {
        TrayAction::Ignore
    }
}

/// Closing the main or the settings window only hides it.
pub fn hides_on_close(label: &str) -> (r: bool)
    ensures
        r == (label@ == "main"@ || label@ == "settings"@),
{
    let v = chars_of(label);
    eq_exec(&v, &chars_of("main")) || eq_exec(&v, &chars_of("settings"))
}

/// The program that opens a folder on the operating system `os` (as
/// `std::env::consts::OS` names it): none on other systems.
pub open spec fn spec_folder_opener(os: Seq<char>) -> Option<Seq<char>> {
    if os == "windows"@ {
        Some("explorer"@)
    } else if os == "macos"@ {
        Some("open"@)
    } else if os == "linux"@ {
        Some("xdg-open"@)
    } else {
        None
    }
}

pub fn folder_opener(os: &str) -> (r: Option<String>)
    ensures
        match r {
            Some(p) => spec_folder_opener(os@) == Some(p@),
            None => spec_folder_opener(os@) is None,
        },
{
    let v = chars_of(os);
    if eq_exec(&v, &chars_of("windows")) {
        Some(lit("explorer"))
    } else if eq_exec(&v, &chars_of("macos")) {
        Some(lit("open"))
    } else if eq_exec(&v, &chars_of("linux")) {
        Some(lit("xdg-open"))
    } else {
        None
    }
}

} // verus!
