//! Keyboard and mouse shortcuts of the main list and of the help screen.

use vstd::prelude::*;
use vstd::string::*;
use crate::help::HelpTab;
use crate::state::SidebarMode;

verus! {

/// The named keys the shortcuts react to; every other named key is `Other`.
#[derive(PartialEq, Eq, Structural, Clone, Copy, Debug)]
pub enum NamedKey {
    Escape,
    Tab,
    ArrowUp,
    ArrowDown,
    ArrowLeft,
    ArrowRight,
    PageUp,
    PageDown,
    Enter,
    Space,
    Delete,
    Other,
}

/// A pressed key: a named key, the text a character key produces, or an unidentified key.
pub enum Key {
    Named(NamedKey),
    Character(String),
    Unidentified,
}

/// The modifier keys held.
#[derive(PartialEq, Eq, Structural, Clone, Copy, Debug)]
pub struct Modifiers {
    pub shift: bool,
    pub control: bool,
    pub command: bool,
    pub alt: bool,
}

/// The direction of a vertical mouse-wheel movement.
#[derive(PartialEq, Eq, Structural, Clone, Copy, Debug)]
pub enum ScrollSign {
    Up,
    Down,
    Flat,
}

/// The input events the shortcuts look at.
pub enum InputEvent {
    KeyPressed { key: Key, modifiers: Modifiers },
    ModifiersChanged(Modifiers),
    WheelScrolled(ScrollSign),
    MiddleButtonPressed,
    Other,
}

/// What a shortcut asks the application to do.
#[derive(PartialEq, Eq, Structural, Clone, Copy, Debug)]
pub enum Command {
    ZoomIn,
    ZoomOut,
    ZoomReset,
    EscCaptured,
    TabPressed(bool),
    SubmitTask,
    StartCreateWithDescription,
    OpenSettings,
    ToggleSidebar,
    KeyboardDuplicateTask,
    ToggleSortStandardByPriorityToggle,
    KeyboardDeleteTaskTree,
    SelectNextTask,
    SelectPrevTask,
    EditSelected,
    EditSelectedDescription,
    ToggleActiveSelected,
    StopSelected,
    CancelSelected,
    YankSelected,
    KeyboardLinkChild,
    KeyboardCreateChild,
    KeyboardAddSession,
    KeyboardToggleSessions,
    KeyboardAddDependency,
    KeyboardAddRelation,
    KeyboardOpenContextMenu,
    KeyboardOpenLocations,
    KeyboardOpenUrl,
    FocusInput,
    ToggleHideCompletedToggle,
    CategoryMatchModeToggle,
    MoveSelected,
    KeyboardToggleTreeCollapse,
    CloseWindow,
    ToggleQuickFilter,
    Refresh,
    JumpToRandomTask,
    FocusSearch,
    OpenHelp(HelpTab),
    SidebarModeChanged(SidebarMode),
    ClearAllFilters,
    ChangePrioritySelected(i8),
    DemoteSelected,
    PromoteSelected,
    SelectNextPage,
    SelectPrevPage,
    EnterPressed,
    ToggleTaskShiftSelected,
    ToggleSelected,
    EscapePressed,
    DeleteSelected,
    CloseHelp,
    SwitchHelpTab(bool),
    /// Edit the selected task's tree as Markdown.
    EditTreeSelected,
    /// Keep the yanked task after linking (or stop keeping it).
    ToggleYankLock,
    /// Show the details of the selected task, with its relationships.
    KeyboardToggleDetails,
    /// Right arrow: in the sidebar, isolate the selected calendar or focus the selected
    /// category or location.
    ArrowRight,
}

/// Whether Ctrl or Cmd was held at the last modifier change (mouse events consult it).
pub struct HotkeyState {
    pub cmd_held: bool,
}

/// The lowercase form of a string, as `str::to_lowercase` computes it.
pub uninterp spec fn lowercase_of(s: Seq<char>) -> Seq<char>;

/// The lowercase of an ASCII character: `A`..`Z` become `a`..`z`, the rest stay.
pub open spec fn ascii_lower(c: char) -> char {
    if 'A' <= c <= 'Z' {
        ((c as u32) + 32) as char
    } else {
        c
    }
}

/// The lowercase of a text: its ASCII lowercase when it is ASCII, else what
/// `str::to_lowercase` gives (the two agree on ASCII text).
pub open spec fn key_lower(s: Seq<char>) -> Seq<char> {
    if all_ascii(s) {
        s.map_values(|c: char| ascii_lower(c))
    } else {
        lowercase_of(s)
    }
}

/// Every character of `s` is ASCII.
pub open spec fn all_ascii(s: Seq<char>) -> bool {
    forall|i: int| 0 <= i < s.len() ==> (#[trigger] s[i]) as u32 <= 0x7f
}

/// `str::to_lowercase`: the Unicode lowercase mapping of `s`, which on ASCII text maps
/// each character to its ASCII lowercase.
#[verifier::external_body]
pub(crate) fn to_lowercase(s: &str) -> (r: String)
    ensures
        r@ == lowercase_of(s@),
        all_ascii(s@) ==> r@ == s@.map_values(|c: char| ascii_lower(c)),
{
    s.to_lowercase()
}

/// The single character of `s`, if `s` is one character long.
pub open spec fn single_char(s: Seq<char>) -> Option<char> {
    if s.len() == 1 {
        Some(s[0])
    } else {
        None
    }
}

fn single_char_of(s: &str) -> (r: Option<char>)
    ensures
        r == single_char(s@),
{
    if s.unicode_len() == 1 {
        Some(s.get_char(0))
    } else {
        None
    }
}

/// Letter shortcuts, looked up by the lowercase key text and the Shift state.
pub open spec fn letter_command(c: char, shift: bool) -> Option<Command> {
    match (c, shift) {
        ('j', false) => Some(Command::SelectNextTask),
        ('k', false) => Some(Command::SelectPrevTask),
        ('e', false) => Some(Command::EditSelected),
        ('e', true) => Some(Command::EditSelectedDescription),
        ('s', false) => Some(Command::ToggleActiveSelected),
        ('s', true) => Some(Command::StopSelected),
        ('x', false) => Some(Command::CancelSelected),
        ('y', false) => Some(Command::YankSelected),
        ('y', true) => Some(Command::ToggleYankLock),
        ('c', false) => Some(Command::KeyboardLinkChild),
        ('c', true) => Some(Command::KeyboardCreateChild),
        ('t', false) => Some(Command::KeyboardAddSession),
        ('t', true) => Some(Command::KeyboardToggleSessions),
        ('b', false) => Some(Command::KeyboardAddDependency),
        ('l', false) => Some(Command::KeyboardAddRelation),
        ('l', true) => Some(Command::KeyboardToggleDetails),
        ('g', false) => Some(Command::KeyboardOpenLocations),
        ('o', false) => Some(Command::KeyboardOpenUrl),
        ('a', false) => Some(Command::FocusInput),
        ('h', true) => Some(Command::ToggleHideCompletedToggle),
        ('m', false) => Some(Command::CategoryMatchModeToggle),
        ('m', true) => Some(Command::MoveSelected),
        ('z', false) => Some(Command::KeyboardToggleTreeCollapse),
        ('q', false) => Some(Command::CloseWindow),
        ('w', false) => Some(Command::ToggleQuickFilter),
        ('r', false) => Some(Command::Refresh),
        ('r', true) => Some(Command::JumpToRandomTask),
        ('/', false) => Some(Command::FocusSearch),
        ('/', true) => Some(Command::OpenHelp(HelpTab::Shortcuts)),
        ('?', _) => Some(Command::OpenHelp(HelpTab::Shortcuts)),
        _ => None,
    }
}

fn letter_command_of(c: char, shift: bool) -> (r: Option<Command>)
    ensures
        r == letter_command(c, shift),
{
    match (c, shift) {
        ('j', false) => Some(Command::SelectNextTask),
        ('k', false) => Some(Command::SelectPrevTask),
        ('e', false) => Some(Command::EditSelected),
        ('e', true) => Some(Command::EditSelectedDescription),
        ('s', false) => Some(Command::ToggleActiveSelected),
        ('s', true) => Some(Command::StopSelected),
        ('x', false) => Some(Command::CancelSelected),
        ('y', false) => Some(Command::YankSelected),
        ('y', true) => Some(Command::ToggleYankLock),
        ('c', false) => Some(Command::KeyboardLinkChild),
        ('c', true) => Some(Command::KeyboardCreateChild),
        ('t', false) => Some(Command::KeyboardAddSession),
        ('t', true) => Some(Command::KeyboardToggleSessions),
        ('b', false) => Some(Command::KeyboardAddDependency),
        ('l', false) => Some(Command::KeyboardAddRelation),
        ('l', true) => Some(Command::KeyboardToggleDetails),
        ('g', false) => Some(Command::KeyboardOpenLocations),
        ('o', false) => Some(Command::KeyboardOpenUrl),
        ('a', false) => Some(Command::FocusInput),
        ('h', true) => Some(Command::ToggleHideCompletedToggle),
        ('m', false) => Some(Command::CategoryMatchModeToggle),
        ('m', true) => Some(Command::MoveSelected),
        ('z', false) => Some(Command::KeyboardToggleTreeCollapse),
        ('q', false) => Some(Command::CloseWindow),
        ('w', false) => Some(Command::ToggleQuickFilter),
        ('r', false) => Some(Command::Refresh),
        ('r', true) => Some(Command::JumpToRandomTask),
        ('/', false) => Some(Command::FocusSearch),
        ('/', true) => Some(Command::OpenHelp(HelpTab::Shortcuts)),
        ('?', _) => Some(Command::OpenHelp(HelpTab::Shortcuts)),
        _ => None,
    }
}

/// Digit and symbol shortcuts, looked up by the exact key text.
pub open spec fn symbol_command(c: char) -> Option<Command> {
    match c {
        '1' => Some(Command::SidebarModeChanged(SidebarMode::Calendars)),
        '2' => Some(Command::SidebarModeChanged(SidebarMode::Categories)),
        '3' => Some(Command::SidebarModeChanged(SidebarMode::Locations)),
        '4' => Some(Command::SidebarModeChanged(SidebarMode::Goals)),
        '*' => Some(Command::ClearAllFilters),
        '+' | '=' => Some(Command::ChangePrioritySelected(1i8)),
        '-' => Some(Command::ChangePrioritySelected(-1i8)),
        '.' | '>' => Some(Command::DemoteSelected),
        ',' | '<' => Some(Command::PromoteSelected),
        _ => None,
    }
}

fn symbol_command_of(c: char) -> (r: Option<Command>)
    ensures
        r == symbol_command(c),
{
    match c {
        '1' => Some(Command::SidebarModeChanged(SidebarMode::Calendars)),
        '2' => Some(Command::SidebarModeChanged(SidebarMode::Categories)),
        '3' => Some(Command::SidebarModeChanged(SidebarMode::Locations)),
        '4' => Some(Command::SidebarModeChanged(SidebarMode::Goals)),
        '*' => Some(Command::ClearAllFilters),
        '+' | '=' => Some(Command::ChangePrioritySelected(1i8)),
        '-' => Some(Command::ChangePrioritySelected(-1i8)),
        '.' | '>' => Some(Command::DemoteSelected),
        ',' | '<' => Some(Command::PromoteSelected),
        _ => None,
    }
}

/// Shortcuts with Ctrl or Cmd held, looked up by the exact key text.
pub open spec fn cmd_char_command(c: char) -> Option<Command> {
    match c {
        '+' | '=' => Some(Command::ZoomIn),
        '-' => Some(Command::ZoomOut),
        '0' => Some(Command::ZoomReset),
        'b' => Some(Command::ToggleSidebar),
        'd' => Some(Command::KeyboardDuplicateTask),
        's' => Some(Command::SubmitTask),
        'e' => Some(Command::EditTreeSelected),
        'n' => Some(Command::StartCreateWithDescription),
        ',' => Some(Command::OpenSettings),
        'p' => Some(Command::ToggleSortStandardByPriorityToggle),
        _ => None,
    }
}

fn cmd_char_command_of(c: char) -> (r: Option<Command>)
    ensures
        r == cmd_char_command(c),
{
    match c {
        '+' | '=' => Some(Command::ZoomIn),
        '-' => Some(Command::ZoomOut),
        '0' => Some(Command::ZoomReset),
        'b' => Some(Command::ToggleSidebar),
        'd' => Some(Command::KeyboardDuplicateTask),
        's' => Some(Command::SubmitTask),
        'e' => Some(Command::EditTreeSelected),
        'n' => Some(Command::StartCreateWithDescription),
        ',' => Some(Command::OpenSettings),
        'p' => Some(Command::ToggleSortStandardByPriorityToggle),
        _ => None,
    }
}

/// Shortcuts that still apply while a text field holds the keyboard (Ctrl/Cmd held).
pub open spec fn captured_cmd_command(c: char) -> Option<Command> {
    match c {
        's' => Some(Command::SubmitTask),
        'e' => Some(Command::EditTreeSelected),
        'n' => Some(Command::StartCreateWithDescription),
        ',' => Some(Command::OpenSettings),
        _ => None,
    }
}

/// Named keys of the main list (no Ctrl, Cmd or Alt held).
pub open spec fn named_command(k: NamedKey, shift: bool) -> Option<Command> {
    match k {
        NamedKey::ArrowDown => Some(Command::SelectNextTask),
        NamedKey::ArrowUp => Some(Command::SelectPrevTask),
        NamedKey::PageDown => Some(Command::SelectNextPage),
        NamedKey::PageUp => Some(Command::SelectPrevPage),
        NamedKey::Enter => Some(Command::EnterPressed),
        NamedKey::Space => if shift {
            Some(Command::ToggleTaskShiftSelected)
        } else {
            Some(Command::ToggleSelected)
        },
        NamedKey::Escape => Some(Command::EscapePressed),
        NamedKey::Delete => Some(Command::DeleteSelected),
        NamedKey::Tab => Some(Command::TabPressed(shift)),
        NamedKey::ArrowRight => Some(Command::ArrowRight),
        _ => None,
    }
}

/// The shortcut a key press of the main list gives.
pub open spec fn key_command(key: Key, m: Modifiers, captured: bool) -> Option<Command> {
    let is_cmd = m.control || m.command;
    if captured {
        match key {
            Key::Named(NamedKey::Escape) => Some(Command::EscCaptured),
            Key::Named(NamedKey::Tab) => Some(Command::TabPressed(m.shift)),
            Key::Character(s) => if is_cmd && single_char(s@) is Some {
                captured_cmd_command(single_char(s@).unwrap())
            } else {
                None
            },
            _ => None,
        }
    } else if is_cmd && (match key {
        Key::Character(s) => single_char(s@) is Some && cmd_char_command(single_char(s@).unwrap()) is Some,
        Key::Named(NamedKey::Delete) => true,
        _ => false,
    }) {
        match key {
            Key::Character(s) => cmd_char_command(single_char(s@).unwrap()),
            _ => Some(Command::KeyboardDeleteTaskTree),
        }
    } else if m.command || m.control || m.alt {
        None
    } else {
        match key {
            Key::Character(s) => {
                let lower = key_lower(s@);
                let by_letter = if single_char(lower) is Some {
                    letter_command(single_char(lower).unwrap(), m.shift)
                } else {
                    None
                };
                if by_letter is Some {
                    by_letter
                } else if single_char(s@) is Some {
                    symbol_command(single_char(s@).unwrap())
                } else {
                    None
                }
            },
            Key::Named(k) => named_command(k, m.shift),
            Key::Unidentified => None,
        }
    }
}

/// The shortcut an input event of the main list gives, with `cmd_held` the Ctrl/Cmd state
/// after this event is taken into account and `captured` whether a widget already used it.
pub open spec fn hotkey_command(cmd_held: bool, evt: InputEvent, captured: bool) -> Option<Command> {
    match evt {
        InputEvent::WheelScrolled(sign) => if cmd_held {
            match sign {
                ScrollSign::Up => Some(Command::ZoomIn),
                ScrollSign::Down => Some(Command::ZoomOut),
                ScrollSign::Flat => None,
            }
        } else {
            None
        },
        InputEvent::MiddleButtonPressed => if cmd_held {
            Some(Command::ZoomReset)
        } else {
            None
        },
        InputEvent::KeyPressed { key, modifiers } => key_command(key, modifiers, captured),
        _ => None,
    }
}

/// The Ctrl/Cmd state after an event: a modifier change sets it, other events keep it.
pub open spec fn cmd_held_after(cmd_held: bool, evt: InputEvent) -> bool {
    match evt {
        InputEvent::ModifiersChanged(m) => m.control || m.command,
        _ => cmd_held,
    }
}

/// The shortcut an input event of the help screen gives.
pub open spec fn help_hotkey_command(evt: InputEvent, captured: bool) -> Option<Command> {
    if captured {
        None
    } else {
        match evt {
            InputEvent::KeyPressed { key, modifiers } => match key {
                Key::Named(NamedKey::Escape) => Some(Command::CloseHelp),
                Key::Named(NamedKey::Tab) => Some(Command::SwitchHelpTab(!modifiers.shift)),
                Key::Named(NamedKey::ArrowRight) => Some(Command::SwitchHelpTab(true)),
                Key::Named(NamedKey::ArrowLeft) => Some(Command::SwitchHelpTab(false)),
                Key::Character(s) => match single_char(s@) {
                    Some('q') | Some('?') | Some('/') => Some(Command::CloseHelp),
                    Some('l') => Some(Command::SwitchHelpTab(true)),
                    Some('h') => Some(Command::SwitchHelpTab(false)),
                    _ => None,
                },
                _ => None,
            },
            _ => None,
        }
    }
}

fn key_command_of(key: &Key, m: Modifiers, captured: bool) -> (r: Option<Command>)
    ensures
        r == key_command(*key, m, captured),
{
    let is_cmd = m.control || m.command;
    if captured {
        return match key {
            Key::Named(NamedKey::Escape) => Some(Command::EscCaptured),
            Key::Named(NamedKey::Tab) => Some(Command::TabPressed(m.shift)),
            Key::Character(s) => {
                if is_cmd {
                    match single_char_of(s.as_str()) {
                        Some(c) => match c {
                            's' => Some(Command::SubmitTask),
                            'e' => Some(Command::EditTreeSelected),
                            'n' => Some(Command::StartCreateWithDescription),
                            ',' => Some(Command::OpenSettings),
                            _ => None,
                        },
                        None => None,
                    }
                } else {
                    None
                }
            },
            _ => None,
        };
    }
    if is_cmd {
        match key {
            Key::Character(s) => {
                match single_char_of(s.as_str()) {
                    Some(c) => {
                        let r = cmd_char_command_of(c);
                        if r.is_some() {
                            return r;
                        }
                    },
                    None => {},
                }
            },
            Key::Named(NamedKey::Delete) => {
                return Some(Command::KeyboardDeleteTaskTree);
            },
            _ => {},
        }
    }
    if m.command || m.control || m.alt {
        return None;
    }
    match key {
        Key::Character(s) => {
            let lower = to_lowercase(s.as_str());
            let by_letter = match single_char_of(lower.as_str()) {
                Some(c) => letter_command_of(c, m.shift),
                None => None,
            };
            if by_letter.is_some() {
                by_letter
            } else {
                match single_char_of(s.as_str()) {
                    Some(c) => symbol_command_of(c),
                    None => None,
                }
            }
        },
        Key::Named(k) => match k {
            NamedKey::ArrowDown => Some(Command::SelectNextTask),
            NamedKey::ArrowUp => Some(Command::SelectPrevTask),
            NamedKey::PageDown => Some(Command::SelectNextPage),
            NamedKey::PageUp => Some(Command::SelectPrevPage),
            NamedKey::Enter => Some(Command::EnterPressed),
            NamedKey::Space => if m.shift {
                Some(Command::ToggleTaskShiftSelected)
            } else {
                Some(Command::ToggleSelected)
            },
            NamedKey::Escape => Some(Command::EscapePressed),
            NamedKey::Delete => Some(Command::DeleteSelected),
            NamedKey::Tab => Some(Command::TabPressed(m.shift)),
            NamedKey::ArrowRight => Some(Command::ArrowRight),
            _ => None,
        },
        Key::Unidentified => None,
    }
}

impl HotkeyState {
    /// No modifier held yet.
    pub fn new() -> (s: HotkeyState)
        ensures
            !s.cmd_held,
    {
        HotkeyState { cmd_held: false }
    }

    /// Map an input event of the main list to a shortcut, and track the Ctrl/Cmd state that
    /// mouse shortcuts (Ctrl + wheel zooms, Ctrl + middle click resets the zoom) depend on.
    pub fn handle_hotkey(&mut self, evt: &InputEvent, captured: bool) -> (r: Option<Command>)
        ensures
            final(self).cmd_held == cmd_held_after(old(self).cmd_held, *evt),
            r == hotkey_command(final(self).cmd_held, *evt, captured),
    {
        match evt {
            InputEvent::ModifiersChanged(m) => {
                self.cmd_held = m.control || m.command;
                None
            },
            InputEvent::WheelScrolled(sign) => {
                if self.cmd_held {
                    match sign {
                        ScrollSign::Up => Some(Command::ZoomIn),
                        ScrollSign::Down => Some(Command::ZoomOut),
                        ScrollSign::Flat => None,
                    }
                } else {
                    None
                }
            },
            InputEvent::MiddleButtonPressed => {
                if self.cmd_held {
                    Some(Command::ZoomReset)
                } else {
                    None
                }
            },
            InputEvent::KeyPressed { key, modifiers } => key_command_of(key, *modifiers, captured),
            InputEvent::Other => None,
        }
    }
}

/// Map an input event of the help screen to a shortcut.
pub fn handle_help_hotkey(evt: &InputEvent, captured: bool) -> (r: Option<Command>)
    ensures
        r == help_hotkey_command(*evt, captured),
{
    if captured {
        return None;
    }
    match evt {
        InputEvent::KeyPressed { key, modifiers } => match key {
            Key::Named(NamedKey::Escape) => Some(Command::CloseHelp),
            Key::Named(NamedKey::Tab) => Some(Command::SwitchHelpTab(!modifiers.shift)),
            Key::Named(NamedKey::ArrowRight) => Some(Command::SwitchHelpTab(true)),
            Key::Named(NamedKey::ArrowLeft) => Some(Command::SwitchHelpTab(false)),
            Key::Character(s) => match single_char_of(s.as_str()) {
                Some(c) => match c {
                    'q' | '?' | '/' => Some(Command::CloseHelp),
                    'l' => Some(Command::SwitchHelpTab(true)),
                    'h' => Some(Command::SwitchHelpTab(false)),
                    _ => None,
                },
                None => None,
            },
            _ => None,
        },
        _ => None,
    }
}

} // verus!
