//! Screen-level state of the desktop application.

use vstd::prelude::*;
use crate::help::{HelpTab, spec_next_help_tab, switch_help_tab};
use crate::highlight::random_index;

verus! {

/// Which screen the application shows.
#[derive(PartialEq, Eq, Structural, Clone, Copy, Debug)]
pub enum AppState {
    Loading,
    Onboarding,
    Active,
    Settings,
    /// The help screen, on a tab, with the support icon it picked when it opened.
    Help(HelpTab, u8),
}

/// Which list the sidebar shows.
#[derive(PartialEq, Eq, Structural, Clone, Copy, Debug)]
pub enum SidebarMode {
    Calendars,
    Categories,
    Locations,
    Goals,
}

/// The edge or corner a window resize starts from.
#[derive(PartialEq, Eq, Structural, Clone, Copy, Debug)]
pub enum ResizeDirection {
    North,
    South,
    East,
    West,
    NorthEast,
    NorthWest,
    SouthEast,
    SouthWest,
}

impl Default for AppState {
    fn default() -> (s: AppState)
        ensures
            s == AppState::Loading,
    {
        AppState::Loading
    }
}

impl Default for SidebarMode {
    fn default() -> (m: SidebarMode)
        ensures
            m == SidebarMode::Calendars,
    {
        SidebarMode::Calendars
    }
}

/// The kinds of message that leave an open context menu open: the ones that open or close
/// it, and the background ticks, window resizes and cursor moves.
#[derive(PartialEq, Eq, Structural, Clone, Copy, Debug)]
pub enum MessageKind {
    OpenContextMenu,
    CloseContextMenu,
    Tick,
    WindowResized,
    CursorMoved,
    Other,
}

/// Whether an open context menu stays open when a message of this kind arrives: every
/// other message closes it.
pub fn keeps_context_menu(kind: MessageKind) -> (r: bool)
    ensures
        r == (kind != MessageKind::Other),
{
    match kind {
        MessageKind::Other => false,
        _ => true,
    }
}

/// Whether a debounced save or search still has to run: only the latest of the requests
/// made while typing does (its version is the current one).
pub fn debounce_is_current(version: u64, current: u64) -> (r: bool)
    ensures
        r == (version == current),
{
    version == current
}

/// How many support icons the help screen picks from.
pub const SUPPORT_ICON_COUNT: u8 = 7;

/// The screen after switching help tabs: the next (or previous) tab of the help screen,
/// with its icon kept; any other screen stays as it is.
pub open spec fn spec_switch_help_screen(state: AppState, forward: bool) -> AppState {
    match state {
        AppState::Help(tab, icon) => AppState::Help(spec_next_help_tab(tab, forward), icon),
        _ => state,
    }
}

/// Switch the help screen's tab; no other screen is affected.
pub fn switch_help_screen(state: AppState, forward: bool) -> (r: AppState)
    ensures
        r == spec_switch_help_screen(state, forward),
{
    match state {
        AppState::Help(tab, icon) => AppState::Help(switch_help_tab(tab, forward), icon),
        _ => state,
    }
}

/// The help screen opened on `tab`: it keeps its icon when it is already showing, and takes
/// `fresh_icon` otherwise.
pub fn open_help_with(state: AppState, tab: HelpTab, fresh_icon: u8) -> (r: AppState)
    ensures
        r == AppState::Help(tab, match state {
            AppState::Help(_, icon) => icon,
            _ => fresh_icon,
        }),
{
    match state {
        AppState::Help(_, icon) => AppState::Help(tab, icon),
        _ => AppState::Help(tab, fresh_icon),
    }
}

/// Open the help screen on `tab`, with a random support icon unless it is already showing.
pub fn open_help(state: AppState, tab: HelpTab) -> (r: AppState)
    ensures
        match (state, r) {
            (AppState::Help(_, old_icon), AppState::Help(t, icon)) => t == tab && icon == old_icon,
            (_, AppState::Help(t, icon)) => t == tab && icon < SUPPORT_ICON_COUNT,
            _ => false,
        },
{
    let fresh = random_index(SUPPORT_ICON_COUNT as usize);
    open_help_with(state, tab, fresh as u8)
}

/// Switching help tabs forward then back, or three times one way, gives back the screen;
/// the icon never changes, and a screen other than help is never changed.
pub proof fn help_screen_switch_round_trip(state: AppState, forward: bool)
    ensures
        spec_switch_help_screen(spec_switch_help_screen(state, forward), !forward) == state,
        spec_switch_help_screen(spec_switch_help_screen(spec_switch_help_screen(state, forward), forward), forward) == state,
        !(state is Help) ==> spec_switch_help_screen(state, forward) == state,
        state matches AppState::Help(_, icon) ==> (spec_switch_help_screen(state, forward) matches AppState::Help(_, i2) && i2 == icon),
{
}

} // verus!
