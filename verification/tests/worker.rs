use cfait::worker::run_commands;
use cfait::journal::Action;
use cfait::worker::{initial_worker_state, sync_report, worker_step, SyncReport, WorkerAction, WorkerCommand, WorkerEvent, WorkerState};

type Ev = WorkerEvent<u32>;

#[test]
fn batch_persists_and_schedules_sync() {
    let s = initial_worker_state(true);
    let (s, a) = worker_step(s, Ev::Command(Some(WorkerCommand::Batch(Vec::<Action>::new()))));
    assert!(matches!(a, WorkerAction::PersistBatch(ref v) if v.is_empty()));
    assert!(s.sync_pending);
    let (s, a) = worker_step(s, Ev::SyncDebounceElapsed);
    assert!(matches!(a, WorkerAction::Sync));
    assert!(!s.sync_pending);
}

#[test]
fn external_changes_are_debounced() {
    let s = initial_worker_state(true);
    let (s, a) = worker_step(s, Ev::WatchSignal(true));
    assert!(matches!(a, WorkerAction::Idle));
    assert!(s.external_change_pending);
    let (s, a) = worker_step(s, Ev::ExternalDebounceElapsed);
    assert!(matches!(a, WorkerAction::NotifyExternalChange));
    assert!(!s.external_change_pending);
    let (s, _) = worker_step(s, Ev::WatchSignal(false));
    assert!(!s.watching);
}

#[test]
fn other_commands() {
    let s = WorkerState { sync_pending: false, external_change_pending: false, watching: false };
    let (s2, a) = worker_step(s, Ev::Command(Some(WorkerCommand::UpdateClient(Some(7)))));
    assert!(matches!(a, WorkerAction::SetClient(Some(7))));
    assert_eq!(s2, s);
    let (s3, a) = worker_step(s, Ev::Command(Some(WorkerCommand::SyncNow)));
    assert!(matches!(a, WorkerAction::Idle));
    assert!(s3.sync_pending);
    let (_, a) = worker_step(s, Ev::Command(Some(WorkerCommand::FlushAndLoad)));
    assert!(matches!(a, WorkerAction::ReloadFromDisk));
    let (_, a) = worker_step(s, Ev::Command(None));
    assert!(matches!(a, WorkerAction::Stop));
}

#[test]
fn sync_reports() {
    assert_eq!(sync_report(true, false), SyncReport::Completed);
    assert_eq!(sync_report(true, true), SyncReport::CompletedWithConfigReload);
    assert_eq!(sync_report(false, true), SyncReport::Failed);
}

#[test]
fn commands_are_taken_in_order() {
    let s = initial_worker_state(false);
    let cmds: Vec<WorkerCommand<u32>> = vec![
        WorkerCommand::UpdateClient(Some(7)),
        WorkerCommand::Batch(Vec::<Action>::new()),
        WorkerCommand::FlushAndLoad,
        WorkerCommand::SyncNow,
    ];
    let (state, actions) = run_commands(s, cmds);
    assert_eq!(actions.len(), 4);
    assert!(matches!(actions[0], WorkerAction::SetClient(Some(7))));
    assert!(matches!(actions[1], WorkerAction::PersistBatch(_)));
    assert!(matches!(actions[2], WorkerAction::ReloadFromDisk));
    assert!(matches!(actions[3], WorkerAction::Idle));
    assert!(state.sync_pending);
}
