//! The menu of the terminal interface: its items and the shortcut keys.

use vstd::prelude::*;
use crate::text::string_from;

verus! {

/// What a menu item does.
#[derive(Debug, Clone, Copy, PartialEq, Eq, Structural)]
pub enum MenuAction {
    Create,
    Join,
    Leave,
    CopyLink,
    Settings,
    TestSession,
    Quit,
    SettingsInputDevice,
    SettingsOutputDevice,
    SettingsTestSession,
    SettingsBack,
    DeviceSelect(usize),
    DeviceDefault,
    DeviceBack,
}

/// A selectable menu item.
#[derive(Debug, Clone)]
pub struct MenuItem {
    pub label: String,
    pub action: MenuAction,
}

/// Labels and actions of the main menu: with a session, it can also be left.
pub open spec fn main_menu_entries(is_connected: bool) -> Seq<(Seq<char>, MenuAction)> {
    if is_connected {
        seq![
            ("Create Session"@, MenuAction::Create),
            ("Join Session"@, MenuAction::Join),
            ("Leave Session"@, MenuAction::Leave),
            ("Settings"@, MenuAction::Settings),
            ("Quit"@, MenuAction::Quit),
        ]
    } else {
        seq![
            ("Create Session"@, MenuAction::Create),
            ("Join Session"@, MenuAction::Join),
            ("Settings"@, MenuAction::Settings),
            ("Quit"@, MenuAction::Quit),
        ]
    }
}

/// Labels and actions of menu items.
pub open spec fn entries(v: Seq<MenuItem>) -> Seq<(Seq<char>, MenuAction)> {
    v.map_values(|m: MenuItem| (m.label@, m.action))
}

fn item(label: &str, action: MenuAction) -> (m: MenuItem)
    ensures
        m.label@ == label@,
        m.action == action,
{
    MenuItem { label: string_from(label), action }
}

/// The items of the main menu.
pub fn main_menu(is_connected: bool) -> (v: Vec<MenuItem>)
    ensures
        entries(v@) == main_menu_entries(is_connected),
{
    let mut v: Vec<MenuItem> = Vec::new();
    v.push(item("Create Session", MenuAction::Create));
    v.push(item("Join Session", MenuAction::Join));
    if is_connected {
        v.push(item("Leave Session", MenuAction::Leave));
    }
    v.push(item("Settings", MenuAction::Settings));
    v.push(item("Quit", MenuAction::Quit));
    assert(entries(v@) =~= main_menu_entries(is_connected));
    v
}

/// The action of a shortcut key.
pub open spec fn shortcut_action(c: char) -> Option<MenuAction> {
    if c == 'q' {
        Some(MenuAction::Quit)
    } else if c == 'j' {
        Some(MenuAction::Join)
    } else if c == 'l' {
        Some(MenuAction::Leave)
    } else if c == 'c' {
        Some(MenuAction::CopyLink)
    } else if c == 's' {
        Some(MenuAction::Settings)
    } else if c == 't' {
        Some(MenuAction::TestSession)
    } else {
        None
    }
}

/// The action of a shortcut key, if it has one.
pub fn shortcut(c: char) -> (r: Option<MenuAction>)
    ensures
        r == shortcut_action(c),
{
    if c == 'q' {
        Some(MenuAction::Quit)
    } else if c == 'j' {
        Some(MenuAction::Join)
    } else if c == 'l' {
        Some(MenuAction::Leave)
    } else if c == 'c' {
        Some(MenuAction::CopyLink)
    } else if c == 's' {
        Some(MenuAction::Settings)
    } else if c == 't' {
        Some(MenuAction::TestSession)
    } else {
        None
    }
}

} // verus!
