use cfait::journal::{Action, ActionKind, AppContext, Journal, StoredJournal, Task};

fn task(uid: &str, href: &str, etag: &str, summary: &str) -> Task {
    Task {
        uid: uid.to_string(),
        calendar_href: href.to_string(),
        etag: etag.to_string(),
        summary: summary.to_string(),
        details: String::new(),
    }
}

fn journal(actions: Vec<Action>) -> Journal {
    Journal { queue: actions }
}

fn summaries(tasks: &[Task]) -> Vec<(String, String)> {
    let mut v: Vec<(String, String)> = tasks.iter().map(|t| (t.uid.clone(), t.summary.clone())).collect();
    v.sort();
    v
}

fn kinds(j: &Journal) -> Vec<(&'static str, String)> {
    j.queue
        .iter()
        .map(|a| match a {
            Action::Create(t) => ("create", t.summary.clone()),
            Action::Update(t) => ("update", t.summary.clone()),
            Action::Delete(t) => ("delete", t.summary.clone()),
            Action::Move(t, h) => ("move", format!("{}->{}", t.summary, h)),
        })
        .collect()
}

#[test]
fn compact_create_then_updates_becomes_one_create() {
    let mut j = journal(vec![
        Action::Create(task("a", "cal", "", "A")),
        Action::Update(task("a", "cal", "", "A'")),
        Action::Update(task("a", "cal", "", "A''")),
    ]);
    j.compact();
    assert_eq!(kinds(&j), vec![("create", "A''".to_string())]);
}

#[test]
fn compact_create_then_delete_cancels_out() {
    let mut j = journal(vec![Action::Create(task("a", "cal", "", "A")), Action::Delete(task("a", "cal", "", "A"))]);
    j.compact();
    assert!(j.is_empty());
}

#[test]
fn compact_update_then_delete_keeps_delete() {
    let mut j = journal(vec![
        Action::Update(task("a", "cal", "e", "A1")),
        Action::Update(task("a", "cal", "e", "A2")),
        Action::Delete(task("a", "cal", "e", "A3")),
    ]);
    j.compact();
    assert_eq!(kinds(&j), vec![("delete", "A3".to_string())]);
}

#[test]
fn compact_keeps_other_tasks_and_moves_in_order() {
    let mut j = journal(vec![
        Action::Create(task("a", "cal", "", "A")),
        Action::Update(task("b", "cal", "e", "B")),
        Action::Move(task("a", "cal", "", "A"), "other".to_string()),
        Action::Update(task("a", "cal", "", "A2")),
        Action::Update(task("b", "cal", "e", "B2")),
    ]);
    j.compact();
    assert_eq!(
        kinds(&j),
        vec![
            ("create", "A".to_string()),
            ("update", "B2".to_string()),
            ("move", "A->other".to_string()),
            ("update", "A2".to_string()),
        ]
    );
}

#[test]
fn compact_never_grows() {
    let mut j = journal(vec![
        Action::Delete(task("a", "cal", "e", "A")),
        Action::Update(task("a", "cal", "e", "A")),
        Action::Create(task("b", "cal", "", "B")),
    ]);
    let before = j.queue.len();
    j.compact();
    assert!(j.queue.len() <= before);
    assert_eq!(j.queue.len(), 3);
}

#[test]
fn apply_prunes_remote_tasks_without_etag() {
    let mut tasks = vec![task("a", "https://srv/cal", "e1", "A"), task("ghost", "https://srv/cal", "", "G")];
    journal(vec![]).apply_to_tasks(&mut tasks, "https://srv/cal");
    assert_eq!(summaries(&tasks), vec![("a".to_string(), "A".to_string())]);
}

#[test]
fn apply_keeps_local_tasks_without_etag() {
    let mut tasks = vec![task("a", "local://default", "", "A"), task("b", "local://default", "", "B")];
    journal(vec![]).apply_to_tasks(&mut tasks, "local://default");
    assert_eq!(tasks.len(), 2);
    assert_eq!(tasks[0].uid, "a");
    assert_eq!(tasks[1].uid, "b");
}

#[test]
fn apply_protects_pending_creation_from_pruning() {
    let mut tasks = vec![task("new", "cal", "", "old copy")];
    journal(vec![Action::Update(task("new", "cal", "", "N"))]).apply_to_tasks(&mut tasks, "cal");
    assert_eq!(summaries(&tasks), vec![("new".to_string(), "N".to_string())]);
}

#[test]
fn apply_replays_create_update_delete_and_moves() {
    let mut tasks = vec![task("a", "cal", "e", "A"), task("b", "cal", "e", "B"), task("c", "cal", "e", "C")];
    let q = vec![
        Action::Create(task("d", "cal", "", "D")),
        Action::Update(task("a", "cal", "e", "A2")),
        Action::Delete(task("b", "cal", "e", "B")),
        Action::Move(task("c", "cal", "e", "C"), "elsewhere".to_string()),
        Action::Move(task("x", "elsewhere", "e", "X"), "cal".to_string()),
        Action::Create(task("z", "other", "", "Z")),
    ];
    journal(q).apply_to_tasks(&mut tasks, "cal");
    assert_eq!(
        summaries(&tasks),
        vec![
            ("a".to_string(), "A2".to_string()),
            ("d".to_string(), "D".to_string()),
            ("x".to_string(), "X".to_string()),
        ]
    );
    let moved = tasks.iter().find(|t| t.uid == "x").unwrap();
    assert_eq!(moved.calendar_href, "cal");
}

#[test]
fn apply_deduplicates_uids_last_wins() {
    let mut tasks = vec![task("a", "cal", "e", "first"), task("a", "cal", "e", "second")];
    journal(vec![Action::Create(task("n", "cal", "", "N"))]).apply_to_tasks(&mut tasks, "cal");
    assert_eq!(
        summaries(&tasks),
        vec![("a".to_string(), "second".to_string()), ("n".to_string(), "N".to_string())]
    );
}

#[test]
fn push_appends_and_is_empty_reports() {
    let mut j = Journal::new();
    assert!(j.is_empty());
    j.push(Action::Create(task("a", "cal", "", "A")));
    assert!(!j.is_empty());
    assert_eq!(j.queue.len(), 1);
}

#[test]
fn modify_rewrites_the_queue() {
    let mut j = journal(vec![Action::Create(task("a", "cal", "", "A")), Action::Create(task("b", "cal", "", "B"))]);
    j.modify(|mut q| {
        q.remove(0);
        q
    });
    assert_eq!(kinds(&j), vec![("create", "B".to_string())]);
}

#[test]
fn load_uses_the_stored_journal_only_with_a_path() {
    let with_path = AppContext { journal_path: Some("/data/journal.json".to_string()) };
    let without = AppContext { journal_path: None };
    let stored = || StoredJournal::Loaded(journal(vec![Action::Create(task("a", "cal", "", "A"))]));
    assert_eq!(Journal::load_with_ctx(&with_path, stored()).queue.len(), 1);
    assert!(Journal::load_with_ctx(&without, stored()).is_empty());
    assert!(Journal::load_with_ctx(&with_path, StoredJournal::Unreadable).is_empty());
    assert!(Journal::load_with_ctx(&with_path, StoredJournal::Absent).is_empty());
    assert_eq!(Journal::get_path_with_ctx(&with_path), Some("/data/journal.json".to_string()));
    assert_eq!(Journal::get_path_with_ctx(&without), None);
}

#[test]
fn push_with_ctx_appends_to_the_stored_queue() {
    let with_path = AppContext { journal_path: Some("j.json".to_string()) };
    let without = AppContext { journal_path: None };
    let stored = || StoredJournal::Loaded(journal(vec![Action::Create(task("a", "cal", "", "A"))]));
    let j = Journal::push_with_ctx(&with_path, stored(), Action::Delete(task("b", "cal", "e", "B"))).unwrap();
    assert_eq!(kinds(&j), vec![("create", "A".to_string()), ("delete", "B".to_string())]);
    let j = Journal::push_with_ctx(&with_path, StoredJournal::Unreadable, Action::Delete(task("b", "cal", "e", "B"))).unwrap();
    assert_eq!(kinds(&j), vec![("delete", "B".to_string())]);
    assert!(Journal::push_with_ctx(&without, stored(), Action::Delete(task("b", "cal", "e", "B"))).is_none());
}

#[test]
fn modify_with_ctx_rewrites_the_stored_queue() {
    let with_path = AppContext { journal_path: Some("j.json".to_string()) };
    let without = AppContext { journal_path: None };
    let stored = || StoredJournal::Loaded(journal(vec![Action::Create(task("a", "cal", "", "A")), Action::Create(task("b", "cal", "", "B"))]));
    let j = Journal::modify_with_ctx(&with_path, stored(), |mut q| {
        q.pop();
        q
    })
    .unwrap();
    assert_eq!(kinds(&j), vec![("create", "A".to_string())]);
    assert!(Journal::modify_with_ctx(&without, stored(), |q| q).is_none());
    let j = Journal::modify_with_ctx(&with_path, StoredJournal::Absent, |q| q).unwrap();
    assert!(j.is_empty());
}

#[test]
fn apply_with_ctx_loads_then_replays() {
    let ctx = AppContext { journal_path: Some("j.json".to_string()) };
    let mut tasks = vec![task("a", "cal", "e", "A")];
    let stored = StoredJournal::Loaded(journal(vec![Action::Delete(task("a", "cal", "e", "A"))]));
    Journal::apply_to_tasks_with_ctx(&ctx, stored, &mut tasks, "cal");
    assert!(tasks.is_empty());
}

#[test]
fn unsynced_summary_lists_ten_and_shortens() {
    let long = "A very long task summary that goes on and on and on";
    let mut q = vec![Action::Update(task("a", "cal", "e", long)), Action::Move(task("m", "cal", "e", "Mv"), "x".to_string())];
    for i in 0..10 {
        q.push(Action::Create(task(&format!("t{i}"), "cal", "", "short")));
    }
    let s = journal(q).unsynced_summary();
    assert_eq!(s.lines.len(), 10);
    assert_eq!(s.more, 2);
    assert_eq!(s.lines[0].kind, ActionKind::Update);
    assert_eq!(s.lines[0].summary, format!("{}...", &long[..37]));
    assert_eq!(s.lines[1].kind, ActionKind::Move);
    assert_eq!(s.lines[1].summary, "Mv");
    assert_eq!(s.lines[2].kind, ActionKind::Create);
}

#[test]
fn unsynced_summary_keeps_forty_char_summaries() {
    let forty = "x".repeat(40);
    let s = journal(vec![Action::Delete(task("a", "cal", "e", &forty))]).unsynced_summary();
    assert_eq!(s.lines.len(), 1);
    assert_eq!(s.more, 0);
    assert_eq!(s.lines[0].summary, forty);
    assert_eq!(s.lines[0].kind, ActionKind::Delete);
}

#[test]
fn replay_of_compacted_queue_matches_replay_of_queue() {
    let tasks = vec![task("a", "cal", "e", "A"), task("b", "cal", "e", "B"), task("g", "cal", "", "ghost")];
    let q = vec![
        Action::Create(task("n", "cal", "", "N")),
        Action::Update(task("n", "cal", "", "N2")),
        Action::Update(task("a", "cal", "e", "A2")),
        Action::Update(task("b", "cal", "e", "B2")),
        Action::Delete(task("b", "cal", "e", "B2")),
        Action::Create(task("c", "cal", "", "C")),
        Action::Delete(task("c", "cal", "", "C")),
        Action::Update(task("a", "cal", "e", "A3")),
    ];
    let copy = |v: &Vec<Action>| -> Vec<Action> {
        v.iter()
            .map(|a| match a {
                Action::Create(t) => Action::Create(t.clone()),
                Action::Update(t) => Action::Update(t.clone()),
                Action::Delete(t) => Action::Delete(t.clone()),
                Action::Move(t, h) => Action::Move(t.clone(), h.clone()),
            })
            .collect()
    };
    let mut compacted = journal(copy(&q));
    compacted.compact();
    assert_eq!(compacted.queue.len(), 3);
    let mut via_full = tasks.clone();
    journal(q).apply_to_tasks(&mut via_full, "cal");
    let mut via_compact = tasks.clone();
    compacted.apply_to_tasks(&mut via_compact, "cal");
    assert_eq!(summaries(&via_full), summaries(&via_compact));
    assert_eq!(
        summaries(&via_full),
        vec![("a".to_string(), "A3".to_string()), ("n".to_string(), "N2".to_string())]
    );
}

#[test]
fn compaction_treats_each_task_alone() {
    let q = vec![
        Action::Create(task("a", "cal", "", "A1")),
        Action::Update(task("b", "cal", "e", "B1")),
        Action::Update(task("a", "cal", "", "A2")),
        Action::Delete(task("b", "cal", "e", "B1")),
        Action::Update(task("a", "cal", "", "A3")),
    ];
    let mut all = journal(q.iter().map(|a| a.duplicate()).collect());
    all.compact();
    let only_a: Vec<(&str, String)> = kinds(&all).into_iter().filter(|(_, s)| s.starts_with('A')).collect();
    let mut a_alone = journal(q.iter().filter(|a| a.task_uid() == "a").map(|a| a.duplicate()).collect());
    a_alone.compact();
    assert_eq!(only_a, kinds(&a_alone));
    assert_eq!(kinds(&a_alone), vec![("create", "A3".to_string())]);
}

#[test]
fn other_calendars_do_not_change_a_replay() {
    let base = || vec![task("a", "cal", "e", "A"), task("b", "cal", "e", "B")];
    let q = vec![
        Action::Update(task("a", "cal", "e", "A2")),
        Action::Delete(task("b", "other", "e", "B")),
        Action::Update(task("x", "other", "e", "X")),
        Action::Move(task("m", "other", "e", "M"), "cal".to_string()),
    ];
    let mut with_all = base();
    journal(q.iter().map(|a| a.duplicate()).collect()).apply_to_tasks(&mut with_all, "cal");
    let mut concerned = base();
    journal(vec![q[0].duplicate(), q[3].duplicate()]).apply_to_tasks(&mut concerned, "cal");
    assert_eq!(summaries(&with_all), summaries(&concerned));
    assert_eq!(summaries(&with_all), vec![("a".to_string(), "A2".to_string()), ("b".to_string(), "B".to_string()), ("m".to_string(), "M".to_string())]);
}
