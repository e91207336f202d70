# cfait core, verified

The decision logic of the cfait task manager's desktop client, written in Verus: each
function states what it returns in `requires`/`ensures`, and Verus proves it.

- `src/journal.rs`, `src/journal_laws.rs`: the offline action journal — queueing,
  compaction (last write wins) and replay over a calendar's tasks. Laws: for a queue whose
  actions all concern one calendar, move no task and create only new tasks, replaying the
  compacted queue gives the same tasks as replaying the queue itself (it can differ
  otherwise, e.g. an update on one calendar followed by one on another); actions for other
  calendars never change a calendar's replay; compaction treats each task on its own.
- `src/calendars.rs`, `src/calendar_laws.rs`: the calendar list, the hidden and disabled
  sets, the active calendar chosen after connecting, and the local calendars.
- `src/navigation.rs`, `src/hotkeys.rs`, `src/help.rs`: keyboard handling and list
  navigation, including what Escape cancels, and the help screen's syntax guide and
  shortcut cheat sheet (built from translated texts the application looks up).
- `src/submit.rs`, `src/settings.rs`, `src/filters.rs`: what happens to submitted text,
  settings inputs, and the task-list filters.
- `src/highlight.rs`, `src/inline.rs`: the text structure that the editors' highlighters
  (as UTF-8 byte ranges) and the task rows colour.
- `src/worker.rs`, `src/alarms.rs`: the background sync worker as a state machine, and
  which ringing alarms stay on screen.
- `src/gpx.rs`, `src/language.rs`: the GPX export of places and language names.

`app/` holds the file-backed parts around the library (the journal file as JSON under a
lock file, files written for other applications, the help texts' translation keys, the
background worker's loop);
Verus does not see it.
