use cfait::state::{open_help, open_help_with, switch_help_screen, SUPPORT_ICON_COUNT};
use cfait::help::{switch_help_tab, HelpTab};
use cfait::hotkeys::{handle_help_hotkey, Command, HotkeyState, InputEvent, Key, Modifiers, NamedKey, ScrollSign};
use cfait::state::{AppState, SidebarMode};

fn mods(shift: bool, control: bool) -> Modifiers {
    Modifiers { shift, control, command: false, alt: false }
}

fn ch(s: &str, shift: bool) -> InputEvent {
    InputEvent::KeyPressed { key: Key::Character(s.to_string()), modifiers: mods(shift, false) }
}

fn ctrl(s: &str) -> InputEvent {
    InputEvent::KeyPressed { key: Key::Character(s.to_string()), modifiers: mods(false, true) }
}

fn named(k: NamedKey, shift: bool) -> InputEvent {
    InputEvent::KeyPressed { key: Key::Named(k), modifiers: mods(shift, false) }
}

#[test]
fn letters_map_to_list_commands() {
    let mut st = HotkeyState::new();
    assert_eq!(st.handle_hotkey(&ch("j", false), false), Some(Command::SelectNextTask));
    assert_eq!(st.handle_hotkey(&ch("k", false), false), Some(Command::SelectPrevTask));
    assert_eq!(st.handle_hotkey(&ch("E", true), false), Some(Command::EditSelectedDescription));
    assert_eq!(st.handle_hotkey(&ch("R", true), false), Some(Command::JumpToRandomTask));
    assert_eq!(st.handle_hotkey(&ch("r", false), false), Some(Command::Refresh));
    assert_eq!(st.handle_hotkey(&ch("?", true), false), Some(Command::OpenHelp(HelpTab::Shortcuts)));
    assert_eq!(st.handle_hotkey(&ch("/", false), false), Some(Command::FocusSearch));
    assert_eq!(st.handle_hotkey(&ch("J", true), false), None);
}

#[test]
fn digits_and_symbols() {
    let mut st = HotkeyState::new();
    assert_eq!(st.handle_hotkey(&ch("2", false), false), Some(Command::SidebarModeChanged(SidebarMode::Categories)));
    assert_eq!(st.handle_hotkey(&ch("+", true), false), Some(Command::ChangePrioritySelected(1)));
    assert_eq!(st.handle_hotkey(&ch("-", false), false), Some(Command::ChangePrioritySelected(-1)));
    assert_eq!(st.handle_hotkey(&ch(">", true), false), Some(Command::DemoteSelected));
    assert_eq!(st.handle_hotkey(&ch("*", true), false), Some(Command::ClearAllFilters));
}

#[test]
fn ctrl_shortcuts_and_ignored_modifiers() {
    let mut st = HotkeyState::new();
    assert_eq!(st.handle_hotkey(&ctrl("="), false), Some(Command::ZoomIn));
    assert_eq!(st.handle_hotkey(&ctrl("s"), false), Some(Command::SubmitTask));
    assert_eq!(st.handle_hotkey(&ctrl("j"), false), None);
    let del = InputEvent::KeyPressed { key: Key::Named(NamedKey::Delete), modifiers: mods(false, true) };
    assert_eq!(st.handle_hotkey(&del, false), Some(Command::KeyboardDeleteTaskTree));
    let alt_j = InputEvent::KeyPressed {
        key: Key::Character("j".to_string()),
        modifiers: Modifiers { shift: false, control: false, command: false, alt: true },
    };
    assert_eq!(st.handle_hotkey(&alt_j, false), None);
}

#[test]
fn named_keys() {
    let mut st = HotkeyState::new();
    assert_eq!(st.handle_hotkey(&named(NamedKey::ArrowDown, false), false), Some(Command::SelectNextTask));
    assert_eq!(st.handle_hotkey(&named(NamedKey::Space, true), false), Some(Command::ToggleTaskShiftSelected));
    assert_eq!(st.handle_hotkey(&named(NamedKey::Space, false), false), Some(Command::ToggleSelected));
    assert_eq!(st.handle_hotkey(&named(NamedKey::Tab, true), false), Some(Command::TabPressed(true)));
    assert_eq!(st.handle_hotkey(&named(NamedKey::Delete, false), false), Some(Command::DeleteSelected));
    assert_eq!(st.handle_hotkey(&named(NamedKey::Other, false), false), None);
}

#[test]
fn captured_events_only_pass_escape_tab_and_save() {
    let mut st = HotkeyState::new();
    assert_eq!(st.handle_hotkey(&named(NamedKey::Escape, false), true), Some(Command::EscCaptured));
    assert_eq!(st.handle_hotkey(&named(NamedKey::Tab, false), true), Some(Command::TabPressed(false)));
    assert_eq!(st.handle_hotkey(&ctrl("s"), true), Some(Command::SubmitTask));
    assert_eq!(st.handle_hotkey(&ctrl(","), true), Some(Command::OpenSettings));
    assert_eq!(st.handle_hotkey(&ctrl("b"), true), None);
    assert_eq!(st.handle_hotkey(&ch("j", false), true), None);
}

#[test]
fn mouse_zoom_needs_ctrl_held() {
    let mut st = HotkeyState::new();
    assert_eq!(st.handle_hotkey(&InputEvent::WheelScrolled(ScrollSign::Up), false), None);
    assert_eq!(st.handle_hotkey(&InputEvent::ModifiersChanged(mods(false, true)), false), None);
    assert!(st.cmd_held);
    assert_eq!(st.handle_hotkey(&InputEvent::WheelScrolled(ScrollSign::Up), false), Some(Command::ZoomIn));
    assert_eq!(st.handle_hotkey(&InputEvent::WheelScrolled(ScrollSign::Down), true), Some(Command::ZoomOut));
    assert_eq!(st.handle_hotkey(&InputEvent::WheelScrolled(ScrollSign::Flat), false), None);
    assert_eq!(st.handle_hotkey(&InputEvent::MiddleButtonPressed, false), Some(Command::ZoomReset));
    st.handle_hotkey(&InputEvent::ModifiersChanged(mods(true, false)), false);
    assert!(!st.cmd_held);
    assert_eq!(st.handle_hotkey(&InputEvent::MiddleButtonPressed, false), None);
}

#[test]
fn help_screen_keys() {
    assert_eq!(handle_help_hotkey(&named(NamedKey::Escape, false), false), Some(Command::CloseHelp));
    assert_eq!(handle_help_hotkey(&named(NamedKey::Tab, true), false), Some(Command::SwitchHelpTab(false)));
    assert_eq!(handle_help_hotkey(&named(NamedKey::ArrowRight, false), false), Some(Command::SwitchHelpTab(true)));
    assert_eq!(handle_help_hotkey(&ch("q", false), false), Some(Command::CloseHelp));
    assert_eq!(handle_help_hotkey(&ch("h", false), false), Some(Command::SwitchHelpTab(false)));
    assert_eq!(handle_help_hotkey(&ch("x", false), false), None);
    assert_eq!(handle_help_hotkey(&named(NamedKey::Escape, false), true), None);
}

#[test]
fn help_tabs_cycle() {
    assert_eq!(switch_help_tab(HelpTab::Syntax, true), HelpTab::Shortcuts);
    assert_eq!(switch_help_tab(HelpTab::About, true), HelpTab::Syntax);
    assert_eq!(switch_help_tab(HelpTab::Syntax, false), HelpTab::About);
    for t in [HelpTab::Syntax, HelpTab::Shortcuts, HelpTab::About] {
        assert_eq!(switch_help_tab(switch_help_tab(t, true), false), t);
    }
    assert_eq!(HelpTab::default(), HelpTab::Syntax);
}

#[test]
fn default_states() {
    assert_eq!(AppState::default(), AppState::Loading);
    assert_eq!(SidebarMode::default(), SidebarMode::Calendars);
}

fn key_events(keys: &str, gui: bool) -> Vec<InputEvent> {
    // The key combinations a cheat-sheet entry names, as key presses.
    let press = |s: &str, shift: bool, control: bool| InputEvent::KeyPressed {
        key: Key::Character(s.to_string()),
        modifiers: mods(shift, control),
    };
    let nk = |k: NamedKey, shift: bool, control: bool| InputEvent::KeyPressed { key: Key::Named(k), modifiers: mods(shift, control) };
    let _ = gui;
    match keys {
        "?" => vec![press("?", true, false)],
        "Tab" => vec![nk(NamedKey::Tab, false, false)],
        "j / k / Dn / Up" => vec![press("j", false, false), press("k", false, false), nk(NamedKey::ArrowDown, false, false), nk(NamedKey::ArrowUp, false, false)],
        "PgDn / PgUp" => vec![nk(NamedKey::PageDown, false, false), nk(NamedKey::PageUp, false, false)],
        "Ctrl + / - / 0" => vec![press("+", false, true), press("-", false, true), press("0", false, true)],
        "z" => vec![press("z", false, false)],
        "Shift + r" => vec![press("R", true, false)],
        "Ctrl + ," => vec![press(",", false, true)],
        "a" => vec![press("a", false, false)],
        "Ctrl + n" => vec![press("n", false, true)],
        "e / E" => vec![press("e", false, false), press("E", true, false)],
        "Ctrl + e" => vec![press("e", false, true)],
        "Space" => vec![nk(NamedKey::Space, false, false)],
        "Shift + Space" => vec![nk(NamedKey::Space, true, false)],
        "s / S" => vec![press("s", false, false), press("S", true, false)],
        "x" => vec![press("x", false, false)],
        "Del" => vec![nk(NamedKey::Delete, false, false)],
        "Ctrl + Del" => vec![nk(NamedKey::Delete, false, true)],
        "Ctrl + d" => vec![press("d", false, true)],
        "t" => vec![press("t", false, false)],
        "Shift + t" => vec![press("T", true, false)],
        "+ / -" => vec![press("+", true, false), press("-", false, false)],
        "M" => vec![press("M", true, false)],
        "g" => vec![press("g", false, false)],
        "o" => vec![press("o", false, false)],
        "y" => vec![press("y", false, false)],
        "b / c / l" => vec![press("b", false, false), press("c", false, false), press("l", false, false)],
        "C" => vec![press("C", true, false)],
        "Y" => vec![press("Y", true, false)],
        "> / <" => vec![press(">", true, false), press("<", true, false)],
        "L" => vec![press("L", true, false)],
        "Enter" => vec![nk(NamedKey::Enter, false, false)],
        "/" => vec![press("/", false, false)],
        "1, 2, 3, 4" => vec![press("1", false, false), press("2", false, false), press("3", false, false), press("4", false, false)],
        "m" => vec![press("m", false, false)],
        "H" => vec![press("H", true, false)],
        "*" => vec![press("*", true, false)],
        "Right" => vec![nk(NamedKey::ArrowRight, false, false)],
        "w" => vec![press("w", false, false)],
        other => panic!("no key events written for {other:?}"),
    }
}

#[test]
fn every_documented_desktop_shortcut_is_bound() {
    let texts: Vec<String> = (0..cfait::help::SHORTCUT_TEXTS).map(|i| format!("t{i}")).collect();
    let sheet = cfait::help::get_shortcuts_help(true, &texts);
    let mut checked = 0;
    for section in &sheet {
        for item in &section.items {
            for evt in key_events(&item.keys, true) {
                let mut st = HotkeyState::new();
                assert!(st.handle_hotkey(&evt, false).is_some(), "{} is not bound", item.keys);
                checked += 1;
            }
        }
    }
    assert!(checked > 40);
}

#[test]
fn newly_bound_shortcuts() {
    let mut st = HotkeyState::new();
    assert_eq!(st.handle_hotkey(&ctrl("n"), false), Some(Command::StartCreateWithDescription));
    assert_eq!(st.handle_hotkey(&ctrl("e"), false), Some(Command::EditTreeSelected));
    assert_eq!(st.handle_hotkey(&ch("Y", true), false), Some(Command::ToggleYankLock));
    assert_eq!(st.handle_hotkey(&ch("L", true), false), Some(Command::KeyboardToggleDetails));
    assert_eq!(st.handle_hotkey(&ch("4", false), false), Some(Command::SidebarModeChanged(SidebarMode::Goals)));
    assert_eq!(st.handle_hotkey(&named(NamedKey::ArrowRight, false), false), Some(Command::ArrowRight));
    assert_eq!(st.handle_hotkey(&ctrl("n"), true), Some(Command::StartCreateWithDescription));
}

#[test]
fn help_screen_state() {
    let h = open_help_with(AppState::Active, HelpTab::Syntax, 3);
    assert_eq!(h, AppState::Help(HelpTab::Syntax, 3));
    assert_eq!(open_help_with(h, HelpTab::About, 5), AppState::Help(HelpTab::About, 3));
    assert_eq!(switch_help_screen(h, true), AppState::Help(HelpTab::Shortcuts, 3));
    assert_eq!(switch_help_screen(switch_help_screen(h, true), false), h);
    assert_eq!(switch_help_screen(AppState::Active, true), AppState::Active);
    match open_help(AppState::Settings, HelpTab::Shortcuts) {
        AppState::Help(t, i) => {
            assert_eq!(t, HelpTab::Shortcuts);
            assert!(i < SUPPORT_ICON_COUNT);
        }
        _ => panic!("help not opened"),
    }
}
