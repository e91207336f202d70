//! Verified core of the cfait task manager: the offline action journal and its
//! compaction, keyboard shortcuts, list navigation, the calendar list and its
//! visibility, the settings screen's inputs, the task-list filters, the text
//! structure used by the editors' highlighters and the GPX export of places.

pub mod text;
pub mod journal;
pub mod journal_laws;
pub mod state;
pub mod help;
pub mod hotkeys;
pub mod navigation;
pub mod highlight;
pub mod inline;
pub mod worker;
pub mod language;
pub mod submit;
pub mod calendars;
pub mod calendar_laws;
pub mod settings;
pub mod filters;
pub mod gpx;
pub mod alarms;
pub mod shortcut_laws;
