//! What the keyboard shortcuts of the main list do, key by key, and how the shortcut cheat
//! sheet describes them: each documented key gives its command, and each entry of the
//! sheet shows the translated text of the command its keys are bound to.

use vstd::prelude::*;
use crate::help::{HelpSection, HelpTab, SHORTCUT_TEXTS, shortcut_section_0, shortcut_section_1,
    shortcut_section_2, shortcut_section_3};
use crate::hotkeys::{Command, InputEvent, Key, Modifiers, NamedKey, ScrollSign, hotkey_command, key_command,
    letter_command, symbol_command, cmd_char_command, help_hotkey_command};
use crate::state::SidebarMode;

verus! {

/// Pressing the character key `s`, with Shift as given and no other modifier.
pub open spec fn press(s: String, shift: bool) -> InputEvent {
    InputEvent::KeyPressed {
        key: Key::Character(s),
        modifiers: Modifiers { shift, control: false, command: false, alt: false },
    }
}

/// Pressing the named key `k`, with Shift and Ctrl as given.
pub open spec fn press_named(k: NamedKey, shift: bool, control: bool) -> InputEvent {
    InputEvent::KeyPressed {
        key: Key::Named(k),
        modifiers: Modifiers { shift, control, command: false, alt: false },
    }
}

/// The letter keys of the main list, pressed with no text field holding the keyboard:
/// `s` starts or pauses the selected task and Shift+S stops it, `x` cancels it, `e` edits
/// its title and Shift+E its description, `j`/`k` move the selection, `y` yanks and
/// Shift+Y locks the yank, `c`/`b`/`l` link the selected task to the yanked one (Shift+C
/// creates a subtask, Shift+L toggles the details), `t` logs time and Shift+T manages the
/// sessions, `g` opens the locations, `o` the URL, `a` focuses the input, `m` toggles the
/// category matching and Shift+M moves the task, Shift+H hides completed tasks, `z` folds
/// the tree, `q` quits, `w` toggles the quick filter, `r` refreshes and Shift+R jumps to a
/// random task, `/` searches and `?` opens the cheat sheet. Ctrl/Cmd held for the mouse
/// does not change what a key does.
pub proof fn letter_key_bindings(cmd_held: bool, s: String)
    ensures
        s@ == seq!['s'] ==> hotkey_command(cmd_held, press(s, false), false) == Some(Command::ToggleActiveSelected),
        s@ == seq!['S'] ==> hotkey_command(cmd_held, press(s, true), false) == Some(Command::StopSelected),
        s@ == seq!['x'] ==> hotkey_command(cmd_held, press(s, false), false) == Some(Command::CancelSelected),
        s@ == seq!['e'] ==> hotkey_command(cmd_held, press(s, false), false) == Some(Command::EditSelected),
        s@ == seq!['E'] ==> hotkey_command(cmd_held, press(s, true), false) == Some(Command::EditSelectedDescription),
        s@ == seq!['j'] ==> hotkey_command(cmd_held, press(s, false), false) == Some(Command::SelectNextTask),
        s@ == seq!['k'] ==> hotkey_command(cmd_held, press(s, false), false) == Some(Command::SelectPrevTask),
        s@ == seq!['y'] ==> hotkey_command(cmd_held, press(s, false), false) == Some(Command::YankSelected),
        s@ == seq!['Y'] ==> hotkey_command(cmd_held, press(s, true), false) == Some(Command::ToggleYankLock),
        s@ == seq!['c'] ==> hotkey_command(cmd_held, press(s, false), false) == Some(Command::KeyboardLinkChild),
        s@ == seq!['C'] ==> hotkey_command(cmd_held, press(s, true), false) == Some(Command::KeyboardCreateChild),
        s@ == seq!['b'] ==> hotkey_command(cmd_held, press(s, false), false) == Some(Command::KeyboardAddDependency),
        s@ == seq!['l'] ==> hotkey_command(cmd_held, press(s, false), false) == Some(Command::KeyboardAddRelation),
        s@ == seq!['L'] ==> hotkey_command(cmd_held, press(s, true), false) == Some(Command::KeyboardToggleDetails),
        s@ == seq!['t'] ==> hotkey_command(cmd_held, press(s, false), false) == Some(Command::KeyboardAddSession),
        s@ == seq!['T'] ==> hotkey_command(cmd_held, press(s, true), false) == Some(Command::KeyboardToggleSessions),
        s@ == seq!['g'] ==> hotkey_command(cmd_held, press(s, false), false) == Some(Command::KeyboardOpenLocations),
        s@ == seq!['o'] ==> hotkey_command(cmd_held, press(s, false), false) == Some(Command::KeyboardOpenUrl),
        s@ == seq!['a'] ==> hotkey_command(cmd_held, press(s, false), false) == Some(Command::FocusInput),
        s@ == seq!['m'] ==> hotkey_command(cmd_held, press(s, false), false) == Some(Command::CategoryMatchModeToggle),
        s@ == seq!['M'] ==> hotkey_command(cmd_held, press(s, true), false) == Some(Command::MoveSelected),
        s@ == seq!['H'] ==> hotkey_command(cmd_held, press(s, true), false) == Some(Command::ToggleHideCompletedToggle),
        s@ == seq!['z'] ==> hotkey_command(cmd_held, press(s, false), false) == Some(Command::KeyboardToggleTreeCollapse),
        s@ == seq!['q'] ==> hotkey_command(cmd_held, press(s, false), false) == Some(Command::CloseWindow),
        s@ == seq!['w'] ==> hotkey_command(cmd_held, press(s, false), false) == Some(Command::ToggleQuickFilter),
        s@ == seq!['r'] ==> hotkey_command(cmd_held, press(s, false), false) == Some(Command::Refresh),
        s@ == seq!['R'] ==> hotkey_command(cmd_held, press(s, true), false) == Some(Command::JumpToRandomTask),
        s@ == seq!['/'] ==> hotkey_command(cmd_held, press(s, false), false) == Some(Command::FocusSearch),
        s@ == seq!['?'] ==> hotkey_command(cmd_held, press(s, true), false) == Some(Command::OpenHelp(HelpTab::Shortcuts)),
{
}

/// Pressing the character key `s` with Ctrl held (Shift as given).
pub open spec fn press_ctrl(s: String, shift: bool) -> InputEvent {
    InputEvent::KeyPressed {
        key: Key::Character(s),
        modifiers: Modifiers { shift, control: true, command: false, alt: false },
    }
}

/// The named keys of the main list: the arrows and page keys move the selection, Enter
/// opens the action menu, Space completes the selected task and Shift+Space completes it
/// and shifts its schedule, Del deletes it and Ctrl+Del deletes its whole tree, Tab moves
/// the focus (backwards with Shift), Escape goes back, Right acts on the sidebar.
pub proof fn named_key_bindings(cmd_held: bool, shift: bool)
    ensures
        hotkey_command(cmd_held, press_named(NamedKey::Delete, false, false), false) == Some(Command::DeleteSelected),
        hotkey_command(cmd_held, press_named(NamedKey::Delete, shift, true), false) == Some(Command::KeyboardDeleteTaskTree),
        hotkey_command(cmd_held, press_named(NamedKey::Space, false, false), false) == Some(Command::ToggleSelected),
        hotkey_command(cmd_held, press_named(NamedKey::Space, true, false), false) == Some(Command::ToggleTaskShiftSelected),
        hotkey_command(cmd_held, press_named(NamedKey::Enter, shift, false), false) == Some(Command::EnterPressed),
        hotkey_command(cmd_held, press_named(NamedKey::Tab, shift, false), false) == Some(Command::TabPressed(shift)),
        hotkey_command(cmd_held, press_named(NamedKey::ArrowDown, shift, false), false) == Some(Command::SelectNextTask),
        hotkey_command(cmd_held, press_named(NamedKey::ArrowUp, shift, false), false) == Some(Command::SelectPrevTask),
        hotkey_command(cmd_held, press_named(NamedKey::PageDown, shift, false), false) == Some(Command::SelectNextPage),
        hotkey_command(cmd_held, press_named(NamedKey::PageUp, shift, false), false) == Some(Command::SelectPrevPage),
        hotkey_command(cmd_held, press_named(NamedKey::Escape, shift, false), false) == Some(Command::EscapePressed),
        hotkey_command(cmd_held, press_named(NamedKey::ArrowRight, shift, false), false) == Some(Command::ArrowRight),
{
}

/// The digit and symbol keys of the main list: `1` to `4` switch the sidebar to the
/// calendars, categories, locations and goals, `*` clears the filters, `+` (or `=`) and
/// `-` raise and lower the priority, `>` (or `.`) indents and `<` (or `,`) outdents.
pub proof fn symbol_key_bindings(cmd_held: bool, s: String, shift: bool)
    ensures
        s@ == seq!['1'] ==> hotkey_command(cmd_held, press(s, shift), false) == Some(Command::SidebarModeChanged(SidebarMode::Calendars)),
        s@ == seq!['2'] ==> hotkey_command(cmd_held, press(s, shift), false) == Some(Command::SidebarModeChanged(SidebarMode::Categories)),
        s@ == seq!['3'] ==> hotkey_command(cmd_held, press(s, shift), false) == Some(Command::SidebarModeChanged(SidebarMode::Locations)),
        s@ == seq!['4'] ==> hotkey_command(cmd_held, press(s, shift), false) == Some(Command::SidebarModeChanged(SidebarMode::Goals)),
        s@ == seq!['*'] ==> hotkey_command(cmd_held, press(s, shift), false) == Some(Command::ClearAllFilters),
        s@ == seq!['+'] ==> hotkey_command(cmd_held, press(s, shift), false) == Some(Command::ChangePrioritySelected(1i8)),
        s@ == seq!['='] ==> hotkey_command(cmd_held, press(s, shift), false) == Some(Command::ChangePrioritySelected(1i8)),
        s@ == seq!['-'] ==> hotkey_command(cmd_held, press(s, shift), false) == Some(Command::ChangePrioritySelected(-1i8)),
        s@ == seq!['>'] ==> hotkey_command(cmd_held, press(s, shift), false) == Some(Command::DemoteSelected),
        s@ == seq!['.'] ==> hotkey_command(cmd_held, press(s, shift), false) == Some(Command::DemoteSelected),
        s@ == seq!['<'] ==> hotkey_command(cmd_held, press(s, shift), false) == Some(Command::PromoteSelected),
        s@ == seq![','] ==> hotkey_command(cmd_held, press(s, shift), false) == Some(Command::PromoteSelected),
{
}

/// The keys pressed with Ctrl: `+`/`=`, `-` and `0` zoom in, out and back, `b` toggles the
/// sidebar, `d` duplicates the selected task, `s` submits, `e` edits the task tree as
/// Markdown, `n` creates a task with a description, `,` opens the settings and `p` toggles
/// the sort by priority. `s`, `e`, `n` and `,` work even while a text field holds the
/// keyboard.
pub proof fn ctrl_key_bindings(cmd_held: bool, s: String, shift: bool, captured: bool)
    ensures
        s@ == seq!['+'] ==> hotkey_command(cmd_held, press_ctrl(s, shift), false) == Some(Command::ZoomIn),
        s@ == seq!['='] ==> hotkey_command(cmd_held, press_ctrl(s, shift), false) == Some(Command::ZoomIn),
        s@ == seq!['-'] ==> hotkey_command(cmd_held, press_ctrl(s, shift), false) == Some(Command::ZoomOut),
        s@ == seq!['0'] ==> hotkey_command(cmd_held, press_ctrl(s, shift), false) == Some(Command::ZoomReset),
        s@ == seq!['b'] ==> hotkey_command(cmd_held, press_ctrl(s, shift), false) == Some(Command::ToggleSidebar),
        s@ == seq!['d'] ==> hotkey_command(cmd_held, press_ctrl(s, shift), false) == Some(Command::KeyboardDuplicateTask),
        s@ == seq!['p'] ==> hotkey_command(cmd_held, press_ctrl(s, shift), false) == Some(Command::ToggleSortStandardByPriorityToggle),
        s@ == seq!['s'] ==> hotkey_command(cmd_held, press_ctrl(s, shift), captured) == Some(Command::SubmitTask),
        s@ == seq!['e'] ==> hotkey_command(cmd_held, press_ctrl(s, shift), captured) == Some(Command::EditTreeSelected),
        s@ == seq!['n'] ==> hotkey_command(cmd_held, press_ctrl(s, shift), captured) == Some(Command::StartCreateWithDescription),
        s@ == seq![','] ==> hotkey_command(cmd_held, press_ctrl(s, shift), captured) == Some(Command::OpenSettings),
{
}

/// The translation keys of the texts the shortcut cheat sheet is built from, in the order
/// `get_shortcuts_help` takes them: `texts[k]` is the translation of the `k`-th key.
pub open spec fn shortcut_text_keys() -> Seq<Seq<char>> {
    seq![
        "help_about"@,
        "help_keyboard_switch_focus"@,
        "help_keyboard_move_selection"@,
        "help_keyboard_scroll_page"@,
        "help_keyboard_zoom_ui"@,
        "help_keyboard_zoom_note"@,
        "jump_to_random_task"@,
        "settings"@,
        "edit"@,
        "add"@,
        "help_keyboard_create_desc"@,
        "done"@,
        "start_task"@,
        "cancel"@,
        "delete"@,
        "delete_task_tree"@,
        "duplicate_task"@,
        "help_metadata_log_time"@,
        "help_metadata_manage_sessions"@,
        "increase_priority"@,
        "menu_move"@,
        "open_coordinates"@,
        "action_open_locations"@,
        "open_url"@,
        "metadata"@,
        "yank_copy_id"@,
        "search_and_filtering"@,
        "search"@,
        "support_switch_sidebar_tab"@,
        "toggle_matching_logic"@,
        "hide_completed_and_canceled_tasks"@,
        "support_clear_filters"@,
        "support_isolate_calendar"@,
    ]
}

/// The translation key of the text that describes a command on the cheat sheet (empty
/// for a command the sheet describes in words of its own).
pub open spec fn command_text_key(c: Command) -> Seq<char> {
    match c {
        Command::OpenHelp(_) => "help_about"@,
        Command::TabPressed(_) => "help_keyboard_switch_focus"@,
        Command::SelectNextTask | Command::SelectPrevTask => "help_keyboard_move_selection"@,
        Command::SelectNextPage | Command::SelectPrevPage => "help_keyboard_scroll_page"@,
        Command::ZoomIn | Command::ZoomOut | Command::ZoomReset => "help_keyboard_zoom_ui"@,
        Command::JumpToRandomTask => "jump_to_random_task"@,
        Command::OpenSettings => "settings"@,
        Command::FocusInput => "add"@,
        Command::StartCreateWithDescription => "help_keyboard_create_desc"@,
        Command::ToggleSelected => "done"@,
        Command::ToggleActiveSelected | Command::StopSelected => "start_task"@,
        Command::CancelSelected => "cancel"@,
        Command::DeleteSelected => "delete"@,
        Command::KeyboardDeleteTaskTree => "delete_task_tree"@,
        Command::KeyboardDuplicateTask => "duplicate_task"@,
        Command::KeyboardAddSession => "help_metadata_log_time"@,
        Command::KeyboardToggleSessions => "help_metadata_manage_sessions"@,
        Command::ChangePrioritySelected(_) => "increase_priority"@,
        Command::MoveSelected => "menu_move"@,
        Command::KeyboardOpenLocations => "action_open_locations"@,
        Command::KeyboardOpenUrl => "open_url"@,
        Command::YankSelected => "yank_copy_id"@,
        Command::FocusSearch => "search"@,
        Command::SidebarModeChanged(_) => "support_switch_sidebar_tab"@,
        Command::CategoryMatchModeToggle => "toggle_matching_logic"@,
        Command::ToggleHideCompletedToggle => "hide_completed_and_canceled_tasks"@,
        Command::ClearAllFilters => "support_clear_filters"@,
        Command::ArrowRight => "support_isolate_calendar"@,
        _ => Seq::empty(),
    }
}

/// Entry `i` of section `s` has the keys `keys`, and its description is `tx[k]`, the
/// text of the translation key `name`.
pub open spec fn entry_shows(s: HelpSection, i: int, keys: Seq<char>, tx: Seq<Seq<char>>, k: int,
    name: Seq<char>) -> bool {
    &&& 0 <= i < s.items@.len()
    &&& s.items@[i].keys@ == keys
    &&& 0 <= k < shortcut_text_keys().len()
    &&& shortcut_text_keys()[k] == name
    &&& s.items@[i].desc@ == tx[k]
}

/// Section `s` has an entry for `keys` that shows the text of the translation key `name`.
pub open spec fn sheet_shows(s: HelpSection, keys: Seq<char>, tx: Seq<Seq<char>>, name: Seq<char>) -> bool {
    exists|i: int, k: int| #[trigger] entry_shows(s, i, keys, tx, k, name)
}

/// The command a named key gives on the main list, with Ctrl as given.
pub open spec fn named_key_command(k: NamedKey, shift: bool, control: bool) -> Command {
    key_command(Key::Named(k), Modifiers { shift, control, command: false, alt: false }, false).unwrap()
}

/// On the navigation section of the cheat sheet, each key's entry shows the text of the
/// command the key is bound to: `?` the help, Tab switching the focus, `j / k / Dn / Up`
/// moving the selection, `PgDn / PgUp` scrolling a page and Shift+R the random jump; in
/// the desktop application also the Ctrl zoom keys and Ctrl+`,` for the settings.
pub proof fn navigation_sheet_describes_bindings(s: HelpSection, tx: Seq<Seq<char>>, is_gui: bool)
    requires
        tx.len() == SHORTCUT_TEXTS,
        shortcut_section_0(s, tx, is_gui),
    ensures
        sheet_shows(s, "?"@, tx, command_text_key(letter_command('?', true).unwrap())),
        sheet_shows(s, "Tab"@, tx, command_text_key(named_key_command(NamedKey::Tab, false, false))),
        sheet_shows(s, "j / k / Dn / Up"@, tx, command_text_key(letter_command('j', false).unwrap())),
        sheet_shows(s, "j / k / Dn / Up"@, tx, command_text_key(letter_command('k', false).unwrap())),
        sheet_shows(s, "j / k / Dn / Up"@, tx, command_text_key(named_key_command(NamedKey::ArrowDown, false, false))),
        sheet_shows(s, "j / k / Dn / Up"@, tx, command_text_key(named_key_command(NamedKey::ArrowUp, false, false))),
        sheet_shows(s, "PgDn / PgUp"@, tx, command_text_key(named_key_command(NamedKey::PageDown, false, false))),
        sheet_shows(s, "PgDn / PgUp"@, tx, command_text_key(named_key_command(NamedKey::PageUp, false, false))),
        sheet_shows(s, "Shift + r"@, tx, command_text_key(letter_command('r', true).unwrap())),
        is_gui ==> sheet_shows(s, "Ctrl + / - / 0"@, tx, command_text_key(cmd_char_command('+').unwrap())),
        is_gui ==> sheet_shows(s, "Ctrl + / - / 0"@, tx, command_text_key(cmd_char_command('-').unwrap())),
        is_gui ==> sheet_shows(s, "Ctrl + / - / 0"@, tx, command_text_key(cmd_char_command('0').unwrap())),
        is_gui ==> sheet_shows(s, "Ctrl + ,"@, tx, command_text_key(cmd_char_command(',').unwrap())),
{
    let names = shortcut_text_keys();
    assert(entry_shows(s, 0, "?"@, tx, 0, names[0]));
    assert(entry_shows(s, 1, "Tab"@, tx, 1, names[1]));
    assert(entry_shows(s, 2, "j / k / Dn / Up"@, tx, 2, names[2]));
    assert(entry_shows(s, 3, "PgDn / PgUp"@, tx, 3, names[3]));
    if is_gui {
        assert(entry_shows(s, 4, "Ctrl + / - / 0"@, tx, 4, names[4]));
        assert(entry_shows(s, 6, "Shift + r"@, tx, 6, names[6]));
        assert(entry_shows(s, 7, "Ctrl + ,"@, tx, 7, names[7]));
    } else {
        assert(entry_shows(s, 5, "Shift + r"@, tx, 6, names[6]));
    }
}

/// On the editing section of the cheat sheet, each key's entry shows the text of the
/// command the key is bound to: `a` adding a task, Ctrl+`n` creating one with a
/// description, Space completing, `s / S` starting (and stopping), `x` cancelling, Del
/// deleting, Ctrl+Del deleting the tree, Ctrl+`d` duplicating, `t` logging time and
/// Shift+T managing sessions, `+ / -` the priority, `M` moving and `o` opening the URL.
pub proof fn editing_sheet_describes_bindings(s: HelpSection, tx: Seq<Seq<char>>)
    requires
        tx.len() == SHORTCUT_TEXTS,
        shortcut_section_1(s, tx),
    ensures
        sheet_shows(s, "a"@, tx, command_text_key(letter_command('a', false).unwrap())),
        sheet_shows(s, "Ctrl + n"@, tx, command_text_key(cmd_char_command('n').unwrap())),
        sheet_shows(s, "Space"@, tx, command_text_key(named_key_command(NamedKey::Space, false, false))),
        sheet_shows(s, "s / S"@, tx, command_text_key(letter_command('s', false).unwrap())),
        sheet_shows(s, "s / S"@, tx, command_text_key(letter_command('s', true).unwrap())),
        sheet_shows(s, "x"@, tx, command_text_key(letter_command('x', false).unwrap())),
        sheet_shows(s, "Del"@, tx, command_text_key(named_key_command(NamedKey::Delete, false, false))),
        sheet_shows(s, "Ctrl + Del"@, tx, command_text_key(named_key_command(NamedKey::Delete, false, true))),
        sheet_shows(s, "Ctrl + d"@, tx, command_text_key(cmd_char_command('d').unwrap())),
        sheet_shows(s, "t"@, tx, command_text_key(letter_command('t', false).unwrap())),
        sheet_shows(s, "Shift + t"@, tx, command_text_key(letter_command('t', true).unwrap())),
        sheet_shows(s, "+ / -"@, tx, command_text_key(symbol_command('+').unwrap())),
        sheet_shows(s, "+ / -"@, tx, command_text_key(symbol_command('-').unwrap())),
        sheet_shows(s, "M"@, tx, command_text_key(letter_command('m', true).unwrap())),
        sheet_shows(s, "o"@, tx, command_text_key(letter_command('o', false).unwrap())),
{
    let names = shortcut_text_keys();
    assert(entry_shows(s, 0, "a"@, tx, 9, names[9]));
    assert(entry_shows(s, 1, "Ctrl + n"@, tx, 10, names[10]));
    assert(entry_shows(s, 4, "Space"@, tx, 11, names[11]));
    assert(entry_shows(s, 6, "s / S"@, tx, 12, names[12]));
    assert(entry_shows(s, 7, "x"@, tx, 13, names[13]));
    assert(entry_shows(s, 8, "Del"@, tx, 14, names[14]));
    assert(entry_shows(s, 9, "Ctrl + Del"@, tx, 15, names[15]));
    assert(entry_shows(s, 10, "Ctrl + d"@, tx, 16, names[16]));
    assert(entry_shows(s, 11, "t"@, tx, 17, names[17]));
    assert(entry_shows(s, 12, "Shift + t"@, tx, 18, names[18]));
    assert(entry_shows(s, 13, "+ / -"@, tx, 19, names[19]));
    assert(entry_shows(s, 14, "M"@, tx, 20, names[20]));
    assert(entry_shows(s, 16, "o"@, tx, 23, names[23]));
}

/// On the relations section of the cheat sheet, the entry for `y` shows the text of
/// yanking, the command `y` is bound to.
pub proof fn relations_sheet_describes_bindings(s: HelpSection, tx: Seq<Seq<char>>)
    requires
        tx.len() == SHORTCUT_TEXTS,
        shortcut_section_2(s, tx),
    ensures
        sheet_shows(s, "y"@, tx, command_text_key(letter_command('y', false).unwrap())),
{
    assert(entry_shows(s, 0, "y"@, tx, 25, shortcut_text_keys()[25]));
}

/// On the search and filtering section of the cheat sheet, each key's entry shows the
/// text of the command the key is bound to: `/` searching, `1, 2, 3, 4` switching the
/// sidebar, `m` the category matching, `H` hiding completed tasks, `*` clearing the
/// filters and Right isolating a calendar.
pub proof fn filtering_sheet_describes_bindings(s: HelpSection, tx: Seq<Seq<char>>)
    requires
        tx.len() == SHORTCUT_TEXTS,
        shortcut_section_3(s, tx),
    ensures
        sheet_shows(s, "/"@, tx, command_text_key(letter_command('/', false).unwrap())),
        sheet_shows(s, "1, 2, 3, 4"@, tx, command_text_key(symbol_command('1').unwrap())),
        sheet_shows(s, "1, 2, 3, 4"@, tx, command_text_key(symbol_command('4').unwrap())),
        sheet_shows(s, "m"@, tx, command_text_key(letter_command('m', false).unwrap())),
        sheet_shows(s, "H"@, tx, command_text_key(letter_command('h', true).unwrap())),
        sheet_shows(s, "*"@, tx, command_text_key(symbol_command('*').unwrap())),
        sheet_shows(s, "Right"@, tx, command_text_key(named_key_command(NamedKey::ArrowRight, false, false))),
{
    let names = shortcut_text_keys();
    assert(entry_shows(s, 0, "/"@, tx, 27, names[27]));
    assert(entry_shows(s, 1, "1, 2, 3, 4"@, tx, 28, names[28]));
    assert(entry_shows(s, 2, "m"@, tx, 29, names[29]));
    assert(entry_shows(s, 3, "H"@, tx, 30, names[30]));
    assert(entry_shows(s, 4, "*"@, tx, 31, names[31]));
    assert(entry_shows(s, 5, "Right"@, tx, 32, names[32]));
}

/// The mouse on the main list: with Ctrl or Cmd held the wheel zooms in (up) and out
/// (down) and the middle button resets the zoom; without it they do nothing.
pub proof fn mouse_bindings(cmd_held: bool, captured: bool)
    ensures
        hotkey_command(cmd_held, InputEvent::WheelScrolled(ScrollSign::Up), captured)
            == (if cmd_held { Some(Command::ZoomIn) } else { None }),
        hotkey_command(cmd_held, InputEvent::WheelScrolled(ScrollSign::Down), captured)
            == (if cmd_held { Some(Command::ZoomOut) } else { None }),
        hotkey_command(cmd_held, InputEvent::WheelScrolled(ScrollSign::Flat), captured) is None,
        hotkey_command(cmd_held, InputEvent::MiddleButtonPressed, captured)
            == (if cmd_held { Some(Command::ZoomReset) } else { None }),
{
}

/// The keys of the help screen: Escape, `q`, `?` and `/` close it; Tab and Right (or `l`)
/// go to the next tab, Shift+Tab and Left (or `h`) to the previous one; a key a text
/// field already used does nothing.
pub proof fn help_screen_bindings(s: String, shift: bool)
    ensures
        help_hotkey_command(press_named(NamedKey::Escape, shift, false), false) == Some(Command::CloseHelp),
        help_hotkey_command(press_named(NamedKey::Tab, false, false), false) == Some(Command::SwitchHelpTab(true)),
        help_hotkey_command(press_named(NamedKey::Tab, true, false), false) == Some(Command::SwitchHelpTab(false)),
        help_hotkey_command(press_named(NamedKey::ArrowRight, shift, false), false) == Some(Command::SwitchHelpTab(true)),
        help_hotkey_command(press_named(NamedKey::ArrowLeft, shift, false), false) == Some(Command::SwitchHelpTab(false)),
        s@ == seq!['q'] ==> help_hotkey_command(press(s, shift), false) == Some(Command::CloseHelp),
        s@ == seq!['?'] ==> help_hotkey_command(press(s, shift), false) == Some(Command::CloseHelp),
        s@ == seq!['/'] ==> help_hotkey_command(press(s, shift), false) == Some(Command::CloseHelp),
        s@ == seq!['l'] ==> help_hotkey_command(press(s, shift), false) == Some(Command::SwitchHelpTab(true)),
        s@ == seq!['h'] ==> help_hotkey_command(press(s, shift), false) == Some(Command::SwitchHelpTab(false)),
        help_hotkey_command(press(s, shift), true) is None,
{
}

/// The titles of the cheat sheet's sections after the first are the texts of the
/// translation keys `edit`, `metadata` and `search_and_filtering`.
pub proof fn sheet_titles(s1: HelpSection, s2: HelpSection, s3: HelpSection, tx: Seq<Seq<char>>)
    requires
        tx.len() == SHORTCUT_TEXTS,
        shortcut_section_1(s1, tx),
        shortcut_section_2(s2, tx),
        shortcut_section_3(s3, tx),
    ensures
        exists|k: int| 0 <= k < tx.len() && shortcut_text_keys()[k] == "edit"@ && #[trigger] tx[k] == s1.title@,
        exists|k: int| 0 <= k < tx.len() && shortcut_text_keys()[k] == "metadata"@ && #[trigger] tx[k] == s2.title@,
        exists|k: int| 0 <= k < tx.len() && shortcut_text_keys()[k] == "search_and_filtering"@ && #[trigger] tx[k] == s3.title@,
{
    assert(tx[8] == s1.title@);
    assert(tx[24] == s2.title@);
    assert(tx[26] == s3.title@);
}

} // verus!
