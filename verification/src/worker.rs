//! The decisions of the background persistence worker: which event does what, with the
//! debounce flags for syncing and for reloading after another instance changed the files.
//! The application runs the loop, waits for the events and performs the actions.

use vstd::prelude::*;
use crate::journal::Action;

verus! {

/// Commands the interface sends to the worker.
pub enum WorkerCommand<C> {
    /// Replace the network client (none: offline).
    UpdateClient(Option<C>),
    /// Persist these actions, then sync.
    Batch(Vec<Action>),
    /// Sync as soon as the debounce allows.
    SyncNow,
    /// Reload configuration, calendars and tasks from disk and replace the worker's store.
    FlushAndLoad,
}

/// The worker's flags.
#[derive(PartialEq, Eq, Structural, Clone, Copy, Debug)]
pub struct WorkerState {
    /// A sync is due once the sync debounce elapses.
    pub sync_pending: bool,
    /// Another instance changed the files; tell the interface once the debounce elapses.
    pub external_change_pending: bool,
    /// The file watcher is running.
    pub watching: bool,
}

/// What woke the worker.
pub enum WorkerEvent<C> {
    /// The file watcher reported a change (`true`) or its channel closed (`false`).
    WatchSignal(bool),
    /// The debounce of external changes elapsed.
    ExternalDebounceElapsed,
    /// A command arrived, or the command channel closed (`None`).
    Command(Option<WorkerCommand<C>>),
    /// The debounce of syncing elapsed.
    SyncDebounceElapsed,
}

/// What the worker does next.
pub enum WorkerAction<C> {
    /// Nothing beyond updating its flags.
    Idle,
    /// Tell the interface that another instance changed the files.
    NotifyExternalChange,
    /// Install this network client.
    SetClient(Option<C>),
    /// Persist these actions, then tell the interface that the journal was saved.
    PersistBatch(Vec<Action>),
    /// Reload the disk state and hand it to the interface.
    ReloadFromDisk,
    /// Sync with the server and report the outcome.
    Sync,
    /// The command channel closed: stop.
    Stop,
}

/// The worker waits only for events whose branch is armed: watcher signals while watching,
/// the external-change debounce while a change is pending, the sync debounce while a sync is
/// pending; commands always.
pub open spec fn event_enabled<C>(s: WorkerState, e: WorkerEvent<C>) -> bool {
    match e {
        WorkerEvent::WatchSignal(_) => s.watching,
        WorkerEvent::ExternalDebounceElapsed => s.external_change_pending,
        WorkerEvent::SyncDebounceElapsed => s.sync_pending,
        WorkerEvent::Command(_) => true,
    }
}

/// The flags after an event.
pub open spec fn next_state<C>(s: WorkerState, e: WorkerEvent<C>) -> WorkerState {
    match e {
        WorkerEvent::WatchSignal(true) => WorkerState { external_change_pending: true, ..s },
        WorkerEvent::WatchSignal(false) => WorkerState { watching: false, ..s },
        WorkerEvent::ExternalDebounceElapsed => WorkerState { external_change_pending: false, ..s },
        WorkerEvent::SyncDebounceElapsed => WorkerState { sync_pending: false, ..s },
        WorkerEvent::Command(Some(WorkerCommand::Batch(_))) => WorkerState { sync_pending: true, ..s },
        WorkerEvent::Command(Some(WorkerCommand::SyncNow)) => WorkerState { sync_pending: true, ..s },
        WorkerEvent::Command(_) => s,
    }
}

/// The action an event calls for.
pub open spec fn next_action<C>(e: WorkerEvent<C>) -> WorkerAction<C> {
    match e {
        WorkerEvent::WatchSignal(_) => WorkerAction::Idle,
        WorkerEvent::ExternalDebounceElapsed => WorkerAction::NotifyExternalChange,
        WorkerEvent::SyncDebounceElapsed => WorkerAction::Sync,
        WorkerEvent::Command(None) => WorkerAction::Stop,
        WorkerEvent::Command(Some(WorkerCommand::UpdateClient(c))) => WorkerAction::SetClient(c),
        WorkerEvent::Command(Some(WorkerCommand::Batch(a))) => WorkerAction::PersistBatch(a),
        WorkerEvent::Command(Some(WorkerCommand::SyncNow)) => WorkerAction::Idle,
        WorkerEvent::Command(Some(WorkerCommand::FlushAndLoad)) => WorkerAction::ReloadFromDisk,
    }
}

/// The flags a worker starts with: nothing pending, watching if the watcher could start.
pub fn initial_worker_state(watching: bool) -> (s: WorkerState)
    ensures
        s == (WorkerState { sync_pending: false, external_change_pending: false, watching }),
{
    WorkerState { sync_pending: false, external_change_pending: false, watching }
}

/// Decide what an event does: the new flags and the action to perform.
pub fn worker_step<C>(s: WorkerState, e: WorkerEvent<C>) -> (r: (WorkerState, WorkerAction<C>))
    requires
        event_enabled(s, e),
    ensures
        r.0 == next_state(s, e),
        r.1 == next_action(e),
{
    match e {
        WorkerEvent::WatchSignal(got) => {
            if got {
                (WorkerState { external_change_pending: true, ..s }, WorkerAction::Idle)
            } else {
                (WorkerState { watching: false, ..s }, WorkerAction::Idle)
            }
        },
        WorkerEvent::ExternalDebounceElapsed => {
            (WorkerState { external_change_pending: false, ..s }, WorkerAction::NotifyExternalChange)
        },
        WorkerEvent::SyncDebounceElapsed => (WorkerState { sync_pending: false, ..s }, WorkerAction::Sync),
        WorkerEvent::Command(cmd) => match cmd {
            None => (s, WorkerAction::Stop),
            Some(WorkerCommand::UpdateClient(c)) => (s, WorkerAction::SetClient(c)),
            Some(WorkerCommand::Batch(a)) => (WorkerState { sync_pending: true, ..s }, WorkerAction::PersistBatch(a)),
            Some(WorkerCommand::SyncNow) => (WorkerState { sync_pending: true, ..s }, WorkerAction::Idle),
            Some(WorkerCommand::FlushAndLoad) => (s, WorkerAction::ReloadFromDisk),
        },
    }
}

/// What the worker tells the interface after a sync.
#[derive(PartialEq, Eq, Structural, Clone, Copy, Debug)]
pub enum SyncReport {
    /// The sync succeeded (the interface updates its unsynced badge).
    Completed,
    /// The sync succeeded and the server changed the configuration: reload it too.
    CompletedWithConfigReload,
    /// The sync failed.
    Failed,
}

/// The report after a sync attempt.
pub fn sync_report(succeeded: bool, config_changed: bool) -> (r: SyncReport)
    ensures
        r == if !succeeded {
            SyncReport::Failed
        } else if config_changed {
            SyncReport::CompletedWithConfigReload
        } else {
            SyncReport::Completed
        },
{
    if !succeeded {
        SyncReport::Failed
    } else if config_changed {
        SyncReport::CompletedWithConfigReload
    } else {
        SyncReport::Completed
    }
}

/// Every persisted batch is followed by a sync: after a batch a sync is pending, and a
/// pending sync stays pending until the sync debounce fires, whatever else arrives.
pub proof fn batch_leads_to_sync<C>(s: WorkerState, a: Vec<Action>, e: WorkerEvent<C>)
    ensures
        next_state(s, WorkerEvent::<C>::Command(Some(WorkerCommand::Batch(a)))).sync_pending,
        s.sync_pending && !(e is SyncDebounceElapsed) ==> next_state(s, e).sync_pending,
{
}

/// A change made by another instance is reported exactly once per debounce: the debounce
/// clears the pending flag, and only a new watcher signal sets it again.
pub proof fn external_change_reported_once<C>(s: WorkerState, e: WorkerEvent<C>)
    ensures
        !next_state(s, WorkerEvent::<C>::ExternalDebounceElapsed).external_change_pending,
        !s.external_change_pending && next_state(s, e).external_change_pending ==> e matches WorkerEvent::WatchSignal(true),
{
}

/// The action a command calls for.
pub open spec fn command_action<C>(c: WorkerCommand<C>) -> WorkerAction<C> {
    next_action(WorkerEvent::Command(Some(c)))
}

/// The flags after a sequence of commands, taken in order.
pub open spec fn commands_state<C>(s: WorkerState, cmds: Seq<WorkerCommand<C>>) -> WorkerState
    decreases cmds.len(),
{
    if cmds.len() == 0 {
        s
    } else {
        next_state(commands_state(s, cmds.drop_last()), WorkerEvent::Command(Some(cmds.last())))
    }
}

/// Take queued commands one at a time, first in first out: the actions come out in the
/// order of the commands, one per command, and each batch is persisted in its turn.
pub fn run_commands<C>(s: WorkerState, cmds: Vec<WorkerCommand<C>>) -> (r: (WorkerState, Vec<WorkerAction<C>>))
    ensures
        r.1@ == cmds@.map_values(|c: WorkerCommand<C>| command_action(c)),
        r.0 == commands_state(s, cmds@),
{
    let ghost all = cmds@;
    let n = cmds.len();
    let mut rest = cmds;
    let mut state = s;
    let mut actions: Vec<WorkerAction<C>> = Vec::new();
    let mut k: usize = 0;
    assert(all.skip(0) =~= all);
    assert(all.take(0) =~= Seq::<WorkerCommand<C>>::empty());
    while rest.len() > 0
        invariant
            k <= all.len(),
            n == all.len(),
            rest@ == all.skip(k as int),
            actions@ == all.take(k as int).map_values(|c: WorkerCommand<C>| command_action(c)),
            state == commands_state(s, all.take(k as int)),
        decreases rest@.len(),
    {
        let c = rest.remove(0);
        assert(c == all[k as int]);
        let ghost before = actions@;
        let (next, action) = worker_step(state, WorkerEvent::Command(Some(c)));
        state = next;
        actions.push(action);
        assert(all.take(k + 1).drop_last() =~= all.take(k as int));
        assert(all.take(k + 1).last() == all[k as int]);
        assert(all.take(k + 1).map_values(|c: WorkerCommand<C>| command_action(c))
            =~= before.push(command_action(all[k as int])));
        assert(rest@ =~= all.skip(k + 1));
        k = k + 1;
    }
    assert(all.take(k as int) =~= all);
    (state, actions)
}

/// Commands are handled in the order they were sent, one action each; a batch of actions is
/// persisted as it was sent, before the commands after it are taken.
pub proof fn commands_run_in_order<C>(cmds: Seq<WorkerCommand<C>>, i: int)
    requires
        0 <= i < cmds.len(),
    ensures
        cmds.map_values(|c: WorkerCommand<C>| command_action(c))[i] == command_action(cmds[i]),
        cmds[i] matches WorkerCommand::Batch(a) ==> command_action(cmds[i]) == WorkerAction::<C>::PersistBatch(a),
{
}

} // verus!
