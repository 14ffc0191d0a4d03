//! The state of the terminal interface: the menu shown and its selection, the path of
//! submenus, the text input popup, the notification and the connection link; and the
//! decisions of the settings menus.
//!
//! Drawing, the clipboard and the clock belong to the caller, which passes the time in
//! milliseconds of its monotonic clock.

use vstd::prelude::*;
use crate::app_config::{opt_view, Config};
use crate::audio::{copy_device, AudioDevice};
use crate::menu::{entries, main_menu, main_menu_entries, MenuAction, MenuItem};
use crate::text::{chars_of, push_chars, push_str, slice_chars, string_from, string_of};

verus! {

/// A key of the terminal.
#[derive(Debug, Clone, Copy, PartialEq, Eq, Structural)]
pub enum UiKey {
    Char(char),
    Backspace,
    Delete,
    Left,
    Right,
    Up,
    Down,
    Enter,
    Esc,
    Other,
}

/// A notification shown until its time is up.
#[derive(Debug, Clone)]
pub struct Notification {
    pub message: String,
    /// When it was shown, in milliseconds.
    pub start_ms: u64,
    /// How long it is shown, in milliseconds.
    pub duration_ms: u64,
}

/// A text input popup: its prompt, the text typed, the cursor (a character index) and
/// whether it still takes input.
#[derive(Debug, Clone)]
pub struct TextInput {
    pub prompt: String,
    pub input: String,
    pub cursor_position: usize,
    pub active: bool,
}

/// A text input popup as values.
pub struct TextModel {
    pub prompt: Seq<char>,
    pub input: Seq<char>,
    pub cursor: usize,
    pub active: bool,
}

/// The state of the menus and popups of the terminal interface.
pub struct TerminalUI {
    menu_items: Vec<MenuItem>,
    original_menu_items: Vec<MenuItem>,
    selected: Option<usize>,
    menu_level: usize,
    menu_path: Vec<String>,
    connection_link: Option<String>,
    notification: Option<Notification>,
    text_input: Option<TextInput>,
}

/// The interface as values.
pub struct UiModel {
    /// Labels and actions of the menu shown.
    pub items: Seq<(Seq<char>, MenuAction)>,
    /// Labels and actions of the main menu, to return to.
    pub original: Seq<(Seq<char>, MenuAction)>,
    /// The selected item.
    pub selected: Option<usize>,
    /// 0 for the main menu, 1 for settings, 2 for a device list.
    pub level: usize,
    /// Names of the submenus entered.
    pub path: Seq<Seq<char>>,
    pub link: Option<Seq<char>>,
    /// Message, start and duration of the notification.
    pub notification: Option<(Seq<char>, u64, u64)>,
    pub text: Option<TextModel>,
}

/// The character sequences of strings.
pub open spec fn strings(v: Seq<String>) -> Seq<Seq<char>> {
    v.map_values(|s: String| s@)
}

/// A text input popup as values.
pub open spec fn text_model(t: TextInput) -> TextModel {
    TextModel { prompt: t.prompt@, input: t.input@, cursor: t.cursor_position, active: t.active }
}

impl View for TerminalUI {
    type V = UiModel;

    closed spec fn view(&self) -> UiModel {
        UiModel {
            items: entries(self.menu_items@),
            original: entries(self.original_menu_items@),
            selected: self.selected,
            level: self.menu_level,
            path: strings(self.menu_path@),
            link: opt_view(self.connection_link),
            notification: match self.notification {
                Some(n) => Some((n.message@, n.start_ms, n.duration_ms)),
                None => None,
            },
            text: match self.text_input {
                Some(t) => Some(text_model(t)),
                None => None,
            },
        }
    }
}

/// The items of the settings menu.
pub open spec fn settings_entries() -> Seq<(Seq<char>, MenuAction)> {
    seq![
        ("  Input (microphone)"@, MenuAction::SettingsInputDevice),
        ("  Output (speaker)"@, MenuAction::SettingsOutputDevice),
        ("  Start test session"@, MenuAction::SettingsTestSession),
        ("  Back"@, MenuAction::SettingsBack),
    ]
}

/// The label of a device in the device menu, marked when it is the current one.
pub open spec fn device_label(d: AudioDevice, current: Option<Seq<char>>) -> Seq<char> {
    "    "@ + d.name@ + " "@ + if current == Some(d.id@) {
        "(current)"@
    } else {
        Seq::empty()
    }
}

/// The items of the devices, in order.
pub open spec fn device_items(devices: Seq<AudioDevice>, current: Option<Seq<char>>) -> Seq<
    (Seq<char>, MenuAction),
> {
    Seq::new(
        devices.len(),
        |i: int| (device_label(devices[i], current), MenuAction::DeviceSelect(i as usize)),
    )
}

/// The items of a device menu: the system default, each device, then back.
pub open spec fn device_entries(devices: Seq<AudioDevice>, current: Option<Seq<char>>) -> Seq<
    (Seq<char>, MenuAction),
> {
    seq![("    System Default"@, MenuAction::DeviceDefault)] + device_items(devices, current)
        + seq![("    Back"@, MenuAction::DeviceBack)]
}

/// The name of a device menu in the path.
pub open spec fn device_menu_name(is_input: bool) -> Seq<char> {
    if is_input {
        "Input Devices"@
    } else {
        "Output Devices"@
    }
}

/// The texts joined with `sep` between them.
pub open spec fn joined(v: Seq<Seq<char>>, sep: Seq<char>) -> Seq<char>
    decreases v.len(),
{
    if v.len() == 0 {
        Seq::empty()
    } else if v.len() == 1 {
        v[0]
    } else {
        joined(v.drop_last(), sep) + sep + v.last()
    }
}

/// The path without its last name, if it has one.
pub open spec fn popped(p: Seq<Seq<char>>) -> Seq<Seq<char>> {
    if p.len() > 0 {
        p.drop_last()
    } else {
        p
    }
}

/// The title of the menu: `Menu`, then the submenus entered.
pub open spec fn menu_title_text(path: Seq<Seq<char>>) -> Seq<char> {
    if path.len() == 0 {
        "Menu"@
    } else {
        "Menu > "@ + joined(path, " > "@)
    }
}

/// The interface after entering the settings menu.
pub open spec fn settings_shown(m: UiModel) -> UiModel {
    UiModel {
        items: settings_entries(),
        selected: Some(0usize),
        level: 1,
        path: m.path.push("Settings"@),
        ..m
    }
}

/// The interface after entering the device menu for input or output, the current device
/// being `current` (by identifier).
pub open spec fn devices_shown(
    m: UiModel,
    is_input: bool,
    devices: Seq<AudioDevice>,
    current: Option<Seq<char>>,
) -> UiModel {
    UiModel {
        items: device_entries(devices, current),
        selected: Some(0usize),
        level: 2,
        path: m.path.push(device_menu_name(is_input)),
        ..m
    }
}

/// The interface after going back one menu level: to the main menu from settings, to
/// settings from a device menu; the first item selected when the menu has items. Nothing
/// changes at the main level.
pub open spec fn returned(m: UiModel) -> UiModel {
    if m.level == 0 {
        m
    } else if m.level == 1 {
        UiModel {
            items: m.original,
            level: 0,
            path: popped(m.path),
            selected: if m.original.len() > 0 {
                Some(0usize)
            } else {
                m.selected
            },
            ..m
        }
    } else if m.level == 2 {
        UiModel {
            items: settings_entries(),
            level: 1,
            path: popped(m.path),
            selected: Some(0usize),
            ..m
        }
    } else {
        UiModel {
            level: (m.level - 1) as usize,
            path: popped(m.path),
            selected: if m.items.len() > 0 {
                Some(0usize)
            } else {
                m.selected
            },
            ..m
        }
    }
}

/// From the main menu, entering the settings menu and going back gives the main menu
/// again, its first item selected.
pub proof fn lemma_settings_and_back(m: UiModel)
    requires
        m.level == 0,
        m.items == m.original,
    ensures
        returned(settings_shown(m)) == (UiModel { selected: Some(0usize), ..m }),
{
    assert(popped(m.path.push("Settings"@)) =~= m.path);
}

/// From the settings menu, entering a device menu and going back gives the settings menu
/// again, its first item selected.
pub proof fn lemma_devices_and_back(
    m: UiModel,
    is_input: bool,
    devices: Seq<AudioDevice>,
    current: Option<Seq<char>>,
)
    requires
        m.level == 1,
        m.items == settings_entries(),
    ensures
        returned(devices_shown(m, is_input, devices, current)) == (UiModel {
            selected: Some(0usize),
            ..m
        }),
{
    assert(popped(m.path.push(device_menu_name(is_input))) =~= m.path);
}

/// The keys the text input popup takes.
pub open spec fn text_takes(key: UiKey) -> bool {
    match key {
        UiKey::Char(_) | UiKey::Backspace | UiKey::Delete | UiKey::Left | UiKey::Right
        | UiKey::Enter | UiKey::Esc => true,
        _ => false,
    }
}

/// What a key the popup takes does to it.
pub open spec fn text_edited(t: TextModel, key: UiKey) -> TextModel {
    let i = t.cursor as int;
    match key {
        UiKey::Char(c) => TextModel {
            input: t.input.take(i).push(c) + t.input.skip(i),
            cursor: (t.cursor + 1) as usize,
            ..t
        },
        UiKey::Backspace => if t.cursor > 0 {
            TextModel {
                input: t.input.take(i - 1) + t.input.skip(i),
                cursor: (t.cursor - 1) as usize,
                ..t
            }
        } else {
            t
        },
        UiKey::Delete => if t.cursor < t.input.len() {
            TextModel { input: t.input.take(i) + t.input.skip(i + 1), ..t }
        } else {
            t
        },
        UiKey::Left => if t.cursor > 0 {
            TextModel { cursor: (t.cursor - 1) as usize, ..t }
        } else {
            t
        },
        UiKey::Right => if t.cursor < t.input.len() {
            TextModel { cursor: (t.cursor + 1) as usize, ..t }
        } else {
            t
        },
        UiKey::Enter => TextModel { active: false, ..t },
        UiKey::Esc => TextModel { input: Seq::empty(), cursor: 0, active: false, ..t },
        _ => t,
    }
}

/// Typing a character and deleting it with Backspace gives the popup back as it was.
pub proof fn lemma_type_then_backspace(t: TextModel, c: char)
    requires
        t.cursor <= t.input.len(),
        t.cursor < usize::MAX,
    ensures
        text_edited(text_edited(t, UiKey::Char(c)), UiKey::Backspace) == t,
{
    let i = t.cursor as int;
    let typed = t.input.take(i).push(c) + t.input.skip(i);
    assert(typed.take(i) =~= t.input.take(i));
    assert(typed.skip(i + 1) =~= t.input.skip(i));
    assert(t.input.take(i) + t.input.skip(i) =~= t.input);
}

/// The action of a shortcut key of the menu.
pub open spec fn menu_shortcut(key: UiKey) -> Option<MenuAction> {
    match key {
        UiKey::Char(c) => crate::menu::shortcut_action(c),
        _ => None,
    }
}

/// What a key does to the interface `old`, giving `new` and the action `r`.
pub open spec fn key_event_handled(old: UiModel, new: UiModel, key: UiKey, r: Option<MenuAction>) -> bool {
    let cur = match old.selected {
        Some(i) => i as int,
        None => 0,
    };
    if old.text is Some && text_takes(key) {
        &&& r is None
        &&& new == UiModel { text: Some(text_edited(old.text.unwrap(), key)), ..old }
    } else if key == UiKey::Up {
        &&& r is None
        &&& new == UiModel {
            selected: if cur > 0 {
                Some((cur - 1) as usize)
            } else {
                old.selected
            },
            ..old
        }
    } else if key == UiKey::Down {
        &&& r is None
        &&& new == UiModel {
            selected: if cur < old.items.len() - 1 {
                Some((cur + 1) as usize)
            } else {
                old.selected
            },
            ..old
        }
    } else {
        &&& new == old
        &&& if old.text is Some {
            r is None
        } else if key == UiKey::Enter {
            r == match old.selected {
                Some(i) => Some(old.items[i as int].1),
                None => None::<MenuAction>,
            }
        } else {
            r == menu_shortcut(key)
        }
    }
}

/// The text input popup is well formed: its cursor is within its text.
pub open spec fn text_wf(t: Option<TextModel>) -> bool {
    t matches Some(m) ==> m.cursor <= m.input.len()
}

fn copy_items(v: &Vec<MenuItem>) -> (c: Vec<MenuItem>)
    ensures
        entries(c@) == entries(v@),
{
    let mut c: Vec<MenuItem> = Vec::new();
    let mut i: usize = 0;
    while i < v.len()
        invariant
            i <= v.len(),
            entries(c@) == entries(v@).take(i as int),
        decreases v.len() - i,
    {
        let ghost before = c@;
        c.push(MenuItem { label: v[i].label.clone(), action: v[i].action });
        assert(entries(c@) =~= entries(before).push((v@[i as int].label@, v@[i as int].action)));
        i = i + 1;
        assert(entries(c@) =~= entries(v@).take(i as int));
    }
    assert(entries(v@).take(v.len() as int) =~= entries(v@));
    c
}

fn menu_item(label: &str, action: MenuAction) -> (m: MenuItem)
    ensures
        m.label@ == label@,
        m.action == action,
{
    MenuItem { label: string_from(label), action }
}

impl TerminalUI {
    /// Well-formed: the popup's cursor is within its text.
    pub closed spec fn wf(&self) -> bool {
        text_wf(self@.text)
    }

    /// An interface with no menu yet, the first item selected, at the main level, with no
    /// link, notification or popup.
    pub fn new() -> (u: Self)
        ensures
            u.wf(),
            u@.items.len() == 0,
            u@.original.len() == 0,
            u@.selected == Some(0usize),
            u@.level == 0,
            u@.path.len() == 0,
            u@.link is None,
            u@.notification is None,
            u@.text is None,
    {
        TerminalUI {
            menu_items: Vec::new(),
            original_menu_items: Vec::new(),
            selected: Some(0),
            menu_level: 0,
            menu_path: Vec::new(),
            connection_link: None,
            notification: None,
            text_input: None,
        }
    }

    /// The items of the menu shown.
    pub fn menu_items(&self) -> (r: &Vec<MenuItem>)
        ensures
            entries(r@) == self@.items,
    {
        &self.menu_items
    }

    /// The selected item.
    pub fn selected(&self) -> (r: Option<usize>)
        ensures
            r == self@.selected,
    {
        self.selected
    }

    /// The menu level: 0 for the main menu.
    pub fn menu_level(&self) -> (r: usize)
        ensures
            r == self@.level,
    {
        self.menu_level
    }

    /// Sets the connection link shown.
    pub fn set_connection_link(&mut self, link: Option<String>)
        requires
            old(self).wf(),
        ensures
            final(self).wf(),
            final(self)@ == (UiModel { link: opt_view(link), ..old(self)@ }),
    {
        self.connection_link = link;
    }

    /// The connection link shown.
    pub fn connection_link(&self) -> (r: Option<String>)
        ensures
            opt_view(r) == self@.link,
    {
        match &self.connection_link {
            Some(l) => Some(l.clone()),
            None => None,
        }
    }

    /// Shows `message` from `now` for `duration_ms`.
    pub fn show_notification(&mut self, message: String, duration_ms: u64, now: u64)
        requires
            old(self).wf(),
        ensures
            final(self).wf(),
            final(self)@ == (UiModel {
                notification: Some((message@, now, duration_ms)),
                ..old(self)@
            }),
    {
        self.notification = Some(Notification { message, start_ms: now, duration_ms });
    }

    /// Removes the notification once its time is up at `now` (a `now` before its start
    /// counts as no time elapsed).
    pub fn update_notification(&mut self, now: u64)
        requires
            old(self).wf(),
        ensures
            final(self).wf(),
            match old(self)@.notification {
                Some((m, start, d)) => if (if now >= start {
                    now - start
                } else {
                    0
                }) >= d {
                    final(self)@ == UiModel { notification: None, ..old(self)@ }
                } else {
                    final(self)@ == old(self)@
                },
                None => final(self)@ == old(self)@,
            },
    {
        let expired = match &self.notification {
            Some(n) => {
                let elapsed: u64 = if now >= n.start_ms {
                    now - n.start_ms
                } else {
                    0
                };
                elapsed >= n.duration_ms
            },
            None => false,
        };
        if expired {
            self.notification = None;
        }
    }

    /// The message of the notification shown, if any.
    pub fn notification_message(&self) -> (r: Option<String>)
        ensures
            r matches Some(m) ==> self@.notification matches Some(n) && m@ == n.0,
            r is None ==> self@.notification is None,
    {
        match &self.notification {
            Some(n) => Some(n.message.clone()),
            None => None,
        }
    }

    /// Opens a text input popup with `prompt`, empty and active.
    pub fn show_text_input_popup(&mut self, prompt: &str)
        requires
            old(self).wf(),
        ensures
            final(self).wf(),
            final(self)@ == (UiModel {
                text: Some(TextModel { prompt: prompt@, input: Seq::empty(), cursor: 0, active: true }),
                ..old(self)@
            }),
    {
        self.text_input = Some(
            TextInput {
                prompt: string_from(prompt),
                input: String::new(),
                cursor_position: 0,
                active: true,
            },
        );
    }

    /// Closes the text input popup.
    pub fn close_text_input(&mut self)
        requires
            old(self).wf(),
        ensures
            final(self).wf(),
            final(self)@ == (UiModel { text: None, ..old(self)@ }),
    {
        self.text_input = None;
    }

    /// The text typed in the popup, if one is open.
    pub fn get_input_text(&self) -> (r: Option<String>)
        ensures
            r matches Some(s) ==> self@.text matches Some(t) && s@ == t.input,
            r is None ==> self@.text is None,
    {
        match &self.text_input {
            Some(t) => Some(t.input.clone()),
            None => None,
        }
    }

    /// Whether a popup is open and takes input.
    pub fn is_text_input_active(&self) -> (b: bool)
        ensures
            b == (self@.text matches Some(t) && t.active),
    {
        match &self.text_input {
            Some(t) => t.active,
            None => false,
        }
    }

    /// The title of the menu: `Menu`, then the submenus entered.
    pub fn menu_title(&self) -> (s: String)
        ensures
            s@ == menu_title_text(self@.path),
    {
        if self.menu_path.len() == 0 {
            return string_from("Menu");
        }
        let mut s = string_from("Menu > ");
        let ghost start = s@;
        push_str(&mut s, self.menu_path[0].as_str());
        let mut i: usize = 1;
        while i < self.menu_path.len()
            invariant
                1 <= i <= self.menu_path.len(),
                s@ == start + joined(strings(self.menu_path@).take(i as int), " > "@),
            decreases self.menu_path.len() - i,
        {
            push_str(&mut s, " > ");
            push_str(&mut s, self.menu_path[i].as_str());
            i = i + 1;
            assert(strings(self.menu_path@).take(i as int).drop_last() =~= strings(
                self.menu_path@,
            ).take(i - 1));
            assert(s@ =~= start + joined(strings(self.menu_path@).take(i as int), " > "@));
        }
        assert(strings(self.menu_path@).take(self.menu_path.len() as int) =~= strings(
            self.menu_path@,
        ));
        s
    }

    fn edit_text(t: &mut TextInput, key: UiKey) -> (taken: bool)
        requires
            old(t).cursor_position <= old(t).input@.len(),
        ensures
            taken == text_takes(key),
            taken ==> text_model(*final(t)) == text_edited(text_model(*old(t)), key),
            !taken ==> *final(t) == *old(t),
            final(t).cursor_position <= final(t).input@.len(),
    {
        let ghost m = text_model(*t);
        let cur = t.cursor_position;
        match key {
            UiKey::Char(c) => {
                let v = chars_of(t.input.as_str());
                let mut w = slice_chars(&v, 0, cur);
                w.push(c);
                let next = w.len();
                let rest = slice_chars(&v, cur, v.len());
                let ghost head = w@;
                let mut s = string_of(&w);
                push_chars(&mut s, &rest);
                assert(s@ =~= m.input.take(cur as int).push(c) + m.input.skip(cur as int));
                t.input = s;
                t.cursor_position = next;
                true
            },
            UiKey::Backspace => {
                if cur > 0 {
                    let v = chars_of(t.input.as_str());
                    let w = slice_chars(&v, 0, cur - 1);
                    let rest = slice_chars(&v, cur, v.len());
                    let mut s = string_of(&w);
                    push_chars(&mut s, &rest);
                    assert(s@ =~= m.input.take(cur - 1) + m.input.skip(cur as int));
                    t.input = s;
                    t.cursor_position = cur - 1;
                }
                true
            },
            UiKey::Delete => {
                let v = chars_of(t.input.as_str());
                if cur < v.len() {
                    let w = slice_chars(&v, 0, cur);
                    let rest = slice_chars(&v, cur + 1, v.len());
                    let mut s = string_of(&w);
                    push_chars(&mut s, &rest);
                    assert(s@ =~= m.input.take(cur as int) + m.input.skip(cur + 1));
                    t.input = s;
                }
                true
            },
            UiKey::Left => {
                if cur > 0 {
                    t.cursor_position = cur - 1;
                }
                true
            },
            UiKey::Right => {
                let v = chars_of(t.input.as_str());
                if cur < v.len() {
                    t.cursor_position = cur + 1;
                }
                true
            },
            UiKey::Enter => {
                t.active = false;
                true
            },
            UiKey::Esc => {
                t.input = String::new();
                t.cursor_position = 0;
                t.active = false;
                true
            },
            _ => false,
        }
    }

    /// Handles a key: an open popup takes the keys it edits with; the arrows move the
    /// selection; otherwise, with no popup, Enter gives the selected item's action and a
    /// shortcut key its action.
    pub fn handle_key_event(&mut self, key: UiKey) -> (r: Option<MenuAction>)
        requires
            old(self).wf(),
            key == UiKey::Down ==> old(self)@.items.len() > 0,
            key == UiKey::Enter && old(self)@.text is None ==> (old(self)@.selected matches Some(
                i,
            ) ==> i < old(self)@.items.len()),
        ensures
            final(self).wf(),
            key_event_handled(old(self)@, final(self)@, key, r),
    {
        let mut taken = false;
        match &mut self.text_input {
            Some(t) => {
                taken = Self::edit_text(t, key);
            },
            None => {},
        }
        if taken {
            return None;
        }
        let current: usize = match self.selected {
            Some(i) => i,
            None => 0,
        };
        if key == UiKey::Up {
            if current > 0 {
                self.selected = Some(current - 1);
            }
            return None;
        }
        if key == UiKey::Down {
            if current < self.menu_items.len() - 1 {
                self.selected = Some(current + 1);
            }
            return None;
        }
        if self.text_input.is_some() {
            return None;
        }
        match key {
            UiKey::Enter => match self.selected {
                Some(i) => Some(self.menu_items[i].action),
                None => None,
            },
            UiKey::Char(c) => crate::menu::shortcut(c),
            _ => None,
        }
    }

    /// Handles a menu action the interface deals with itself, at time `now`: never asks to
    /// exit. For `CopyLink`, gives the link to copy; with no link, shows
    /// `No active link to copy` for two seconds.
    pub fn handle_menu_action(&mut self, action: MenuAction, now: u64) -> (r: (bool, Option<String>))
        requires
            old(self).wf(),
        ensures
            final(self).wf(),
            !r.0,
            action == MenuAction::CopyLink && old(self)@.link is Some ==> (r.1 matches Some(l) && l@
                == old(self)@.link.unwrap()) && final(self)@ == old(self)@,
            action == MenuAction::CopyLink && old(self)@.link is None ==> r.1 is None && final(self)@ == (UiModel {
                notification: Some(("No active link to copy"@, now, 2000u64)),
                ..old(self)@
            }),
            action != MenuAction::CopyLink ==> r.1 is None && final(self)@ == old(self)@,
    {
        if action == MenuAction::CopyLink {
            match &self.connection_link {
                Some(l) => {
                    return (false, Some(l.clone()));
                },
                None => {
                    self.show_notification(string_from("No active link to copy"), 2000, now);
                    return (false, None);
                },
            }
        }
        (false, None)
    }

    /// Copying the link ended at `now`: a notification for two seconds says whether it
    /// was copied; gives back whether it was.
    pub fn note_copy(&mut self, copied: bool, now: u64) -> (b: bool)
        requires
            old(self).wf(),
        ensures
            final(self).wf(),
            b == copied,
            final(self)@ == (UiModel {
                notification: Some(
                    (
                        if copied {
                            "Link copied to clipboard!"@
                        } else {
                            "Failed to copy link!"@
                        },
                        now,
                        2000u64,
                    ),
                ),
                ..old(self)@
            }),
    {
        if copied {
            self.show_notification(string_from("Link copied to clipboard!"), 2000, now);
        } else {
            self.show_notification(string_from("Failed to copy link!"), 2000, now);
        }
        copied
    }

    /// Shows the main menu for the connection state; at the main level it is also the menu
    /// to return to. The first item is selected.
    pub fn update_menu_items(&mut self, is_connected: bool)
        requires
            old(self).wf(),
        ensures
            final(self).wf(),
            final(self)@ == (UiModel {
                items: main_menu_entries(is_connected),
                original: if old(self)@.level == 0 {
                    main_menu_entries(is_connected)
                } else {
                    old(self)@.original
                },
                selected: Some(0usize),
                ..old(self)@
            }),
    {
        let items = main_menu(is_connected);
        if self.menu_level == 0 {
            self.original_menu_items = copy_items(&items);
        }
        self.menu_items = items;
        assert(self.menu_items@.len() > 0) by {
            assert(entries(self.menu_items@).len() == self.menu_items@.len());
        }
        self.selected = Some(0);
    }

    /// Enters the settings menu, its first item selected.
    pub fn show_settings_menu(&mut self)
        requires
            old(self).wf(),
        ensures
            final(self).wf(),
            final(self)@ == settings_shown(old(self)@),
    {
        self.menu_path.push(string_from("Settings"));
        self.menu_level = 1;
        let mut items: Vec<MenuItem> = Vec::new();
        items.push(menu_item("  Input (microphone)", MenuAction::SettingsInputDevice));
        items.push(menu_item("  Output (speaker)", MenuAction::SettingsOutputDevice));
        items.push(menu_item("  Start test session", MenuAction::SettingsTestSession));
        items.push(menu_item("  Back", MenuAction::SettingsBack));
        assert(entries(items@) =~= settings_entries());
        self.menu_items = items;
        self.selected = Some(0);
        assert(strings(self.menu_path@) =~= strings(old(self).menu_path@).push("Settings"@));
    }

    /// Enters the device menu for input or output: the system default, each device (the
    /// current one marked), then back; the first item selected.
    pub fn show_device_menu(
        &mut self,
        is_input: bool,
        devices: &Vec<AudioDevice>,
        current_device: Option<&AudioDevice>,
    )
        requires
            old(self).wf(),
        ensures
            final(self).wf(),
            final(self)@ == devices_shown(
                old(self)@,
                is_input,
                devices@,
                match current_device {
                    Some(d) => Some(d.id@),
                    None => None,
                },
            ),
    {
        let ghost cur = match current_device {
            Some(d) => Some(d.id@),
            None => None::<Seq<char>>,
        };
        if is_input {
            self.menu_path.push(string_from("Input Devices"));
        } else {
            self.menu_path.push(string_from("Output Devices"));
        }
        self.menu_level = 2;
        let mut items: Vec<MenuItem> = Vec::new();
        items.push(menu_item("    System Default", MenuAction::DeviceDefault));
        let mut i: usize = 0;
        while i < devices.len()
            invariant
                i <= devices.len(),
                cur == match current_device {
                    Some(d) => Some(d.id@),
                    None => None::<Seq<char>>,
                },
                entries(items@) == seq![("    System Default"@, MenuAction::DeviceDefault)]
                    + device_items(devices@, cur).take(i as int),
            decreases devices.len() - i,
        {
            let d = &devices[i];
            let is_current = match current_device {
                Some(c) => crate::text::chars_eq(&chars_of(c.id.as_str()), &chars_of(d.id.as_str())),
                None => false,
            };
            let mut label = string_from("    ");
            push_str(&mut label, d.name.as_str());
            push_str(&mut label, " ");
            if is_current {
                push_str(&mut label, "(current)");
            } else {
                push_str(&mut label, "");
                proof {
                    reveal_strlit("");
                }
            }
            let ghost before = items@;
            assert(label@ == device_label(devices@[i as int], cur));
            items.push(MenuItem { label, action: MenuAction::DeviceSelect(i) });
            assert(entries(items@) =~= entries(before).push(
                (device_label(devices@[i as int], cur), MenuAction::DeviceSelect(i)),
            ));
            i = i + 1;
            assert(device_items(devices@, cur).take(i as int) =~= device_items(devices@, cur).take(
                i - 1,
            ).push((device_label(devices@[i - 1], cur), MenuAction::DeviceSelect((i - 1) as usize))));
            assert(entries(items@) =~= seq![("    System Default"@, MenuAction::DeviceDefault)]
                + device_items(devices@, cur).take(i as int));
        }
        let ghost before = items@;
        items.push(menu_item("    Back", MenuAction::DeviceBack));
        assert(device_items(devices@, cur).take(devices.len() as int) =~= device_items(devices@, cur));
        assert(entries(items@) =~= device_entries(devices@, cur));
        self.menu_items = items;
        self.selected = Some(0);
        assert(strings(self.menu_path@) =~= strings(old(self).menu_path@).push(
            device_menu_name(is_input),
        ));
    }

    /// Goes back one menu level: to the main menu from settings, to settings from a device
    /// menu; the first item selected when the menu has items. Nothing at the main level.
    pub fn return_to_previous_menu(&mut self)
        requires
            old(self).wf(),
        ensures
            final(self).wf(),
            final(self)@ == returned(old(self)@),
    {
        if self.menu_level > 0 {
            let ghost p = strings(self.menu_path@);
            self.menu_path.pop();
            assert(strings(self.menu_path@) =~= popped(p));
            self.menu_level = self.menu_level - 1;
            if self.menu_level == 0 {
                self.menu_items = copy_items(&self.original_menu_items);
            } else if self.menu_level == 1 {
                self.show_settings_menu();
                let ghost q = strings(self.menu_path@);
                assert(q.drop_last() =~= popped(p));
                self.menu_path.pop();
                assert(strings(self.menu_path@) =~= q.drop_last());
            }
            if self.menu_items.len() > 0 {
                self.selected = Some(0);
            }
            proof {
                assert(entries(self.menu_items@).len() == self.menu_items@.len());
            }
        }
    }
}

/// What the settings menu does next.
#[derive(Debug, Clone, Copy, PartialEq, Eq, Structural)]
pub enum SettingsStep {
    /// Open the input device menu.
    InputDevices,
    /// Open the output device menu.
    OutputDevices,
    /// Start a test session.
    TestSession,
    /// Go back to the previous menu.
    Back,
    /// Keep waiting for keys.
    Stay,
}

/// What the settings menu does with the action a key gave, or with the key itself when it
/// gave none.
pub open spec fn settings_next(action: Option<MenuAction>, key: UiKey) -> SettingsStep {
    match action {
        Some(MenuAction::SettingsInputDevice) => SettingsStep::InputDevices,
        Some(MenuAction::SettingsOutputDevice) => SettingsStep::OutputDevices,
        Some(MenuAction::SettingsTestSession) => SettingsStep::TestSession,
        Some(MenuAction::SettingsBack) | Some(MenuAction::Quit) => SettingsStep::Back,
        Some(_) => SettingsStep::Stay,
        None => if key == UiKey::Esc {
            SettingsStep::Back
        } else {
            SettingsStep::Stay
        },
    }
}

/// What the settings menu does next.
pub fn settings_step(action: Option<MenuAction>, key: UiKey) -> (r: SettingsStep)
    ensures
        r == settings_next(action, key),
{
    match action {
        Some(MenuAction::SettingsInputDevice) => SettingsStep::InputDevices,
        Some(MenuAction::SettingsOutputDevice) => SettingsStep::OutputDevices,
        Some(MenuAction::SettingsTestSession) => SettingsStep::TestSession,
        Some(MenuAction::SettingsBack) | Some(MenuAction::Quit) => SettingsStep::Back,
        Some(_) => SettingsStep::Stay,
        None => if key == UiKey::Esc {
            SettingsStep::Back
        } else {
            SettingsStep::Stay
        },
    }
}

/// What a device menu does next.
#[derive(Debug, Clone, Copy, PartialEq, Eq, Structural)]
pub enum DeviceStep {
    /// Use the first device, then go back.
    Default,
    /// Use the device of this index, then go back.
    Select(usize),
    /// Go back without a change.
    Back,
    /// Keep waiting for keys.
    Stay,
}

/// What a device menu does with the action a key gave, or with the key itself when it gave
/// none.
pub open spec fn device_next(action: Option<MenuAction>, key: UiKey) -> DeviceStep {
    match action {
        Some(MenuAction::DeviceDefault) => DeviceStep::Default,
        Some(MenuAction::DeviceSelect(i)) => DeviceStep::Select(i),
        Some(MenuAction::DeviceBack) | Some(MenuAction::Quit) => DeviceStep::Back,
        Some(_) => DeviceStep::Stay,
        None => if key == UiKey::Esc {
            DeviceStep::Back
        } else {
            DeviceStep::Stay
        },
    }
}

/// What a device menu does next.
pub fn device_step(action: Option<MenuAction>, key: UiKey) -> (r: DeviceStep)
    ensures
        r == device_next(action, key),
{
    match action {
        Some(MenuAction::DeviceDefault) => DeviceStep::Default,
        Some(MenuAction::DeviceSelect(i)) => DeviceStep::Select(i),
        Some(MenuAction::DeviceBack) | Some(MenuAction::Quit) => DeviceStep::Back,
        Some(_) => DeviceStep::Stay,
        None => if key == UiKey::Esc {
            DeviceStep::Back
        } else {
            DeviceStep::Stay
        },
    }
}

/// The device of `index` among `devices`, or the message shown when there is none.
pub fn choose_device(index: usize, devices: &Vec<AudioDevice>) -> (r: Result<AudioDevice, String>)
    ensures
        index < devices@.len() ==> (r matches Ok(d) && d.id@ == devices@[index as int].id@
            && d.name@ == devices@[index as int].name@ && d.is_input
            == devices@[index as int].is_input),
        index >= devices@.len() ==> (r matches Err(m) && m@ == "Invalid device selection"@),
{
    if index < devices.len() {
        Ok(copy_device(&devices[index]))
    } else {
        Err(string_from("Invalid device selection"))
    }
}

/// The first device, or the message shown when there is none.
pub fn default_device(devices: &Vec<AudioDevice>) -> (r: Result<AudioDevice, String>)
    ensures
        devices@.len() > 0 ==> (r matches Ok(d) && d.id@ == devices@[0].id@ && d.name@
            == devices@[0].name@ && d.is_input == devices@[0].is_input),
        devices@.len() == 0 ==> (r matches Err(m) && m@ == "No default device available"@),
{
    if devices.len() > 0 {
        Ok(copy_device(&devices[0]))
    } else {
        Err(string_from("No default device available"))
    }
}

/// `input` or `output`.
pub open spec fn direction_text(is_input: bool) -> Seq<char> {
    if is_input {
        "input"@
    } else {
        "output"@
    }
}

/// The message shown after trying to use a device: set, or the error.
pub fn device_set_message(is_input: bool, name: &str, result: &Result<(), String>) -> (s: String)
    ensures
        result is Ok ==> s@ == "Set "@ + direction_text(is_input) + " device to: "@ + name@,
        result matches Err(e) ==> s@ == "Error setting "@ + direction_text(is_input)
            + " device: "@ + e@,
{
    let dir = if is_input {
        "input"
    } else {
        "output"
    };
    match result {
        Ok(()) => {
            let mut s = string_from("Set ");
            push_str(&mut s, dir);
            push_str(&mut s, " device to: ");
            push_str(&mut s, name);
            s
        },
        Err(e) => {
            let mut s = string_from("Error setting ");
            push_str(&mut s, dir);
            push_str(&mut s, " device: ");
            push_str(&mut s, e.as_str());
            s
        },
    }
}

/// Records the device used, for input or output, in the configuration.
pub fn update_device_config(config: &mut Config, device: &AudioDevice, is_input: bool)
    ensures
        is_input ==> final(config)@.input_device == Some(device.id@) && final(config)@.output_device
            == old(config)@.output_device,
        !is_input ==> final(config)@.output_device == Some(device.id@) && final(config)@.input_device == old(config)@.input_device,
        final(config)@.audio_quality == old(config)@.audio_quality,
        final(config)@.username == old(config)@.username,
{
    if is_input {
        config.input_device = Some(device.id.clone());
    } else {
        config.output_device = Some(device.id.clone());
    }
}

} // verus!
