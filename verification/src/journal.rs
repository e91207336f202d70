//! Offline action journal: the queue of changes waiting to be synced,
//! its compaction, and its replay over a calendar's task list.

use vstd::prelude::*;
use vstd::string::*;
use crate::text::{spec_starts_with, starts_with, chars_of};

verus! {

/// A task as the offline journal sees it.
#[derive(Clone, Debug)]
pub struct Task {
    pub uid: String,
    pub calendar_href: String,
    pub etag: String,
    pub summary: String,
    /// The task's remaining properties, carried through unchanged.
    pub details: String,
}

impl Task {
    /// A copy of the task.
    pub fn duplicate(&self) -> (r: Task)
        ensures
            r == *self,
    {
        Task {
            uid: self.uid.clone(),
            calendar_href: self.calendar_href.clone(),
            etag: self.etag.clone(),
            summary: self.summary.clone(),
            details: self.details.clone(),
        }
    }
}

/// Actions recorded in the offline journal, applied in order when syncing.
#[derive(Clone, Debug)]
pub enum Action {
    Create(Task),
    Update(Task),
    Delete(Task),
    Move(Task, String),
}

impl Action {
    /// The task an action is about.
    pub open spec fn task(self) -> Task {
        match self {
            Action::Create(t) => t,
            Action::Update(t) => t,
            Action::Delete(t) => t,
            Action::Move(t, _) => t,
        }
    }

    /// The uid of the task an action is about.
    pub open spec fn uid(self) -> Seq<char> {
        self.task().uid@
    }

    /// A copy of the action.
    pub fn duplicate(&self) -> (r: Action)
        ensures
            r == *self,
    {
        match self {
            Action::Create(t) => Action::Create(t.duplicate()),
            Action::Update(t) => Action::Update(t.duplicate()),
            Action::Delete(t) => Action::Delete(t.duplicate()),
            Action::Move(t, h) => Action::Move(t.duplicate(), h.clone()),
        }
    }

    /// The uid of the task an action is about.
    pub fn task_uid(&self) -> (r: &String)
        ensures
            r@ == self.uid(),
    {
        match self {
            Action::Create(t) => &t.uid,
            Action::Update(t) => &t.uid,
            Action::Delete(t) => &t.uid,
            Action::Move(t, _) => &t.uid,
        }
    }
}

/// The queue of actions waiting to be synced.
pub struct Journal {
    pub queue: Vec<Action>,
}

/// Where the journal file lives, as the application context resolves it.
pub struct AppContext {
    pub journal_path: Option<String>,
}

/// What reading the journal file gave.
pub enum StoredJournal {
    /// There is no journal file.
    Absent,
    /// The file exists but could not be read or parsed.
    Unreadable,
    /// The file held this journal.
    Loaded(Journal),
}

// ---------------------------------------------------------------------------
// Compaction
// ---------------------------------------------------------------------------

/// How a new action folds into the latest surviving action for the same task:
/// `None` when it does not fold, `Some(slot)` with the slot's new content otherwise.
pub open spec fn merge_into(prev: Action, next: Action) -> Option<Option<Action>> {
    match (prev, next) {
        (Action::Create(_), Action::Update(t)) => Some(Some(Action::Create(t))),
        (Action::Update(_), Action::Update(t)) => Some(Some(Action::Update(t))),
        (Action::Create(_), Action::Delete(_)) => Some(None),
        (Action::Update(_), Action::Delete(t)) => Some(Some(Action::Delete(t))),
        _ => None,
    }
}

/// The slots of a compaction in progress: each slot remembers the uid of the task it was
/// opened for, and holds the surviving action, or nothing once it was cancelled.
pub struct CompactState {
    pub slots: Seq<Option<Action>>,
    pub uids: Seq<Seq<char>>,
}

/// The last slot opened for `uid`, or -1.
pub open spec fn last_slot(uids: Seq<Seq<char>>, uid: Seq<char>) -> int
    decreases uids.len(),
{
    if uids.len() == 0 {
        -1
    } else if uids.last() == uid {
        uids.len() - 1
    } else {
        last_slot(uids.drop_last(), uid)
    }
}

/// One step of compaction: fold `a` into the latest live slot of its task, or open a new slot.
pub open spec fn compact_step(s: CompactState, a: Action) -> CompactState {
    let j = last_slot(s.uids, a.uid());
    if j >= 0 && s.slots[j] is Some && merge_into(s.slots[j].unwrap(), a) is Some {
        CompactState { slots: s.slots.update(j, merge_into(s.slots[j].unwrap(), a).unwrap()), uids: s.uids }
    } else {
        CompactState { slots: s.slots.push(Some(a)), uids: s.uids.push(a.uid()) }
    }
}

/// Compaction of a whole queue, before the cancelled slots are dropped.
pub open spec fn compact_fold(q: Seq<Action>) -> CompactState
    decreases q.len(),
{
    if q.len() == 0 {
        CompactState { slots: Seq::empty(), uids: Seq::empty() }
    } else {
        compact_step(compact_fold(q.drop_last()), q.last())
    }
}

/// The surviving actions of a sequence of slots, in order.
pub open spec fn flatten_slots(slots: Seq<Option<Action>>) -> Seq<Action>
    decreases slots.len(),
{
    if slots.len() == 0 {
        Seq::empty()
    } else {
        let rest = flatten_slots(slots.drop_last());
        match slots.last() {
            Some(a) => rest.push(a),
            None => rest,
        }
    }
}

/// The compacted form of a queue (last write wins, create-then-delete cancels out).
pub open spec fn compacted(q: Seq<Action>) -> Seq<Action> {
    flatten_slots(compact_fold(q).slots)
}

pub(crate) proof fn lemma_last_slot_bounds(uids: Seq<Seq<char>>, uid: Seq<char>)
    ensures
        -1 <= last_slot(uids, uid) < uids.len(),
        last_slot(uids, uid) >= 0 ==> uids[last_slot(uids, uid)] == uid,
        forall|k: int| last_slot(uids, uid) < k < uids.len() ==> uids[k] != uid,
    decreases uids.len(),
{
    if uids.len() > 0 && uids.last() != uid {
        let p = uids.drop_last();
        lemma_last_slot_bounds(p, uid);
        assert forall|k: int| last_slot(uids, uid) < k < uids.len() implies uids[k] != uid by {
            if k < uids.len() - 1 {
                assert(p[k] == uids[k]);
            }
        }
    }
}

pub(crate) proof fn lemma_fold_lens(q: Seq<Action>)
    ensures
        compact_fold(q).slots.len() == compact_fold(q).uids.len(),
        compact_fold(q).slots.len() <= q.len(),
    decreases q.len(),
{
    if q.len() > 0 {
        lemma_fold_lens(q.drop_last());
        lemma_last_slot_bounds(compact_fold(q.drop_last()).uids, q.last().uid());
    }
}

proof fn lemma_flatten_len(slots: Seq<Option<Action>>)
    ensures
        flatten_slots(slots).len() <= slots.len(),
    decreases slots.len(),
{
    if slots.len() > 0 {
        lemma_flatten_len(slots.drop_last());
    }
}

pub(crate) proof fn lemma_flatten_push(slots: Seq<Option<Action>>, x: Option<Action>)
    ensures
        flatten_slots(slots.push(x)) == match x {
            Some(a) => flatten_slots(slots).push(a),
            None => flatten_slots(slots),
        },
{
    assert(slots.push(x).drop_last() == slots);
}

/// Compaction never makes the queue longer.
pub proof fn compaction_never_grows(q: Seq<Action>)
    ensures
        compacted(q).len() <= q.len(),
{
    lemma_fold_lens(q);
    lemma_flatten_len(compact_fold(q).slots);
}

// ---------------------------------------------------------------------------
// Replay over a task list
// ---------------------------------------------------------------------------

/// The uids that the queue keeps alive in calendar `href` (pending creations, updates, moves in).
pub open spec fn pending_uids(q: Seq<Action>, href: Seq<char>) -> Set<Seq<char>> {
    Set::new(|u: Seq<char>| exists|i: int| 0 <= i < q.len() && #[trigger] protects(q[i], href, u))
}

/// Whether action `a` protects uid `u` in calendar `href` from pruning.
pub open spec fn protects(a: Action, href: Seq<char>, u: Seq<char>) -> bool {
    match a {
        Action::Create(t) => t.calendar_href@ == href && t.uid@ == u,
        Action::Update(t) => t.calendar_href@ == href && t.uid@ == u,
        Action::Move(t, target) => target@ == href && t.uid@ == u,
        Action::Delete(_) => false,
    }
}

/// Whether a calendar href names a local calendar.
pub open spec fn is_local_href(href: Seq<char>) -> bool {
    spec_starts_with(href, "local://"@)
}

/// Whether task `t` survives ghost pruning: it has an ETag or the queue protects it.
pub open spec fn survives_pruning(t: Task, q: Seq<Action>, href: Seq<char>) -> bool {
    t.etag@.len() > 0 || pending_uids(q, href).contains(t.uid@)
}

/// Ghost pruning: remote calendars drop the tasks without ETag that the queue does not protect.
pub open spec fn pruned(tasks: Seq<Task>, q: Seq<Action>, href: Seq<char>) -> Seq<Task> {
    if is_local_href(href) {
        tasks
    } else {
        tasks.filter(|t: Task| survives_pruning(t, q, href))
    }
}

/// A task list read as a map from uid to task; a later task replaces an earlier one.
pub open spec fn task_map(tasks: Seq<Task>) -> Map<Seq<char>, Task>
    decreases tasks.len(),
{
    if tasks.len() == 0 {
        Map::empty()
    } else {
        task_map(tasks.drop_last()).insert(tasks.last().uid@, tasks.last())
    }
}

/// The task `t` moved into calendar `href`.
pub open spec fn moved_to(t: Task, href: String) -> Task {
    Task { calendar_href: href, ..t }
}

/// The effect of one action on the tasks of calendar `href`.
pub open spec fn apply_action(m: Map<Seq<char>, Task>, a: Action, href: Seq<char>) -> Map<Seq<char>, Task> {
    match a {
        Action::Create(t) => if t.calendar_href@ == href { m.insert(t.uid@, t) } else { m },
        Action::Update(t) => if t.calendar_href@ == href { m.insert(t.uid@, t) } else { m },
        Action::Delete(t) => if t.calendar_href@ == href { m.remove(t.uid@) } else { m },
        Action::Move(t, target) => if t.calendar_href@ == href {
            m.remove(t.uid@)
        } else if target@ == href {
            m.insert(t.uid@, moved_to(t, target))
        } else {
            m
        },
    }
}

/// The effect of a queue of actions, in order.
pub open spec fn apply_actions(m: Map<Seq<char>, Task>, q: Seq<Action>, href: Seq<char>) -> Map<Seq<char>, Task>
    decreases q.len(),
{
    if q.len() == 0 {
        m
    } else {
        apply_action(apply_actions(m, q.drop_last(), href), q.last(), href)
    }
}

/// No two tasks share a uid.
pub open spec fn distinct_uids(tasks: Seq<Task>) -> bool {
    forall|i: int, j: int| 0 <= i < j < tasks.len() ==> tasks[i].uid@ != tasks[j].uid@
}

/// The tasks of calendar `href` after replaying queue `q` over `tasks`, as a map by uid.
pub open spec fn replayed(tasks: Seq<Task>, q: Seq<Action>, href: Seq<char>) -> Map<Seq<char>, Task> {
    apply_actions(task_map(pruned(tasks, q, href)), q, href)
}

pub(crate) proof fn lemma_task_map_dom(tasks: Seq<Task>)
    ensures
        forall|u: Seq<char>| #[trigger] task_map(tasks).contains_key(u)
            <==> exists|i: int| 0 <= i < tasks.len() && tasks[i].uid@ == u,
    decreases tasks.len(),
{
    if tasks.len() > 0 {
        let p = tasks.drop_last();
        lemma_task_map_dom(p);
        assert forall|u: Seq<char>| #[trigger] task_map(tasks).contains_key(u)
            <==> exists|i: int| 0 <= i < tasks.len() && tasks[i].uid@ == u by {
            if task_map(tasks).contains_key(u) {
                if u == tasks.last().uid@ {
                    assert(tasks[tasks.len() - 1].uid@ == u);
                } else {
                    assert(task_map(p).contains_key(u));
                    let i = choose|i: int| 0 <= i < p.len() && p[i].uid@ == u;
                    assert(tasks[i].uid@ == u);
                }
            }
            if exists|i: int| 0 <= i < tasks.len() && tasks[i].uid@ == u {
                let i = choose|i: int| 0 <= i < tasks.len() && tasks[i].uid@ == u;
                if i < tasks.len() - 1 {
                    assert(p[i].uid@ == u);
                    assert(task_map(p).contains_key(u));
                }
            }
        }
    }
}

proof fn lemma_task_map_update(tasks: Seq<Task>, i: int, t: Task)
    requires
        distinct_uids(tasks),
        0 <= i < tasks.len(),
        tasks[i].uid@ == t.uid@,
    ensures
        task_map(tasks.update(i, t)) == task_map(tasks).insert(t.uid@, t),
        distinct_uids(tasks.update(i, t)),
    decreases tasks.len(),
{
    let n = tasks.len();
    let p = tasks.drop_last();
    if i == n - 1 {
        assert(tasks.update(i, t).drop_last() == p);
        assert(task_map(tasks.update(i, t)) == task_map(p).insert(t.uid@, t));
        assert(task_map(tasks) == task_map(p).insert(t.uid@, tasks.last()));
        assert(task_map(tasks).insert(t.uid@, t) =~= task_map(p).insert(t.uid@, t));
    } else {
        lemma_task_map_update(p, i, t);
        assert(tasks.update(i, t).drop_last() == p.update(i, t));
        assert(tasks.update(i, t).last() == tasks.last());
        assert(tasks.last().uid@ != t.uid@);
        assert(task_map(tasks.update(i, t)) =~= task_map(tasks).insert(t.uid@, t));
    }
}

proof fn lemma_task_map_remove(tasks: Seq<Task>, i: int)
    requires
        distinct_uids(tasks),
        0 <= i < tasks.len(),
    ensures
        task_map(tasks.remove(i)) == task_map(tasks).remove(tasks[i].uid@),
        distinct_uids(tasks.remove(i)),
    decreases tasks.len(),
{
    let n = tasks.len();
    let p = tasks.drop_last();
    let u = tasks[i].uid@;
    if i == n - 1 {
        assert(tasks.remove(i) == p);
        lemma_task_map_dom(p);
        assert(!task_map(p).contains_key(u)) by {
            if task_map(p).contains_key(u) {
                let k = choose|k: int| 0 <= k < p.len() && p[k].uid@ == u;
                assert(tasks[k].uid@ == tasks[i].uid@);
            }
        }
        assert(task_map(tasks).remove(u) =~= task_map(p));
    } else {
        lemma_task_map_remove(p, i);
        assert(tasks.remove(i).drop_last() == p.remove(i));
        assert(tasks.remove(i).last() == tasks.last());
        assert(tasks.last().uid@ != u);
        assert(task_map(tasks.remove(i)) =~= task_map(tasks).remove(u));
    }
}

/// The index of the task with uid `uid` in a list with distinct uids, if any.
fn find_task(tasks: &Vec<Task>, uid: &String) -> (r: Option<usize>)
    ensures
        match r {
            Some(i) => i < tasks@.len() && tasks@[i as int].uid@ == uid@,
            None => forall|k: int| 0 <= k < tasks@.len() ==> tasks@[k].uid@ != uid@,
        },
{
    let mut i: usize = 0;
    while i < tasks.len()
        invariant
            i <= tasks@.len(),
            forall|k: int| 0 <= k < i ==> tasks@[k].uid@ != uid@,
        decreases tasks@.len() - i,
    {
        if tasks[i].uid == *uid {
            return Some(i);
        }
        i = i + 1;
    }
    None
}

/// Insert or replace a task in a list with distinct uids.
fn upsert_task(tasks: &mut Vec<Task>, t: Task)
    requires
        distinct_uids(old(tasks)@),
    ensures
        distinct_uids(final(tasks)@),
        task_map(final(tasks)@) == task_map(old(tasks)@).insert(t.uid@, t),
{
    match find_task(tasks, &t.uid) {
        Some(i) => {
            proof {
                lemma_task_map_update(tasks@, i as int, t);
            }
            tasks.set(i, t);
        },
        None => {
            let ghost before = tasks@;
            tasks.push(t);
            assert(tasks@.drop_last() == before);
        },
    }
}

/// Remove the task with uid `uid` from a list with distinct uids, if present.
fn remove_task(tasks: &mut Vec<Task>, uid: &String)
    requires
        distinct_uids(old(tasks)@),
    ensures
        distinct_uids(final(tasks)@),
        task_map(final(tasks)@) == task_map(old(tasks)@).remove(uid@),
{
    match find_task(tasks, uid) {
        Some(i) => {
            proof {
                lemma_task_map_remove(tasks@, i as int);
            }
            tasks.remove(i);
        },
        None => {
            proof {
                lemma_task_map_dom(tasks@);
                assert(task_map(tasks@).remove(uid@) =~= task_map(tasks@));
            }
        },
    }
}

/// Whether some action of `q` protects uid `uid` in calendar `href` from pruning.
fn is_protected(q: &Vec<Action>, href: &String, uid: &String) -> (r: bool)
    ensures
        r == pending_uids(q@, href@).contains(uid@),
{
    let mut i: usize = 0;
    while i < q.len()
        invariant
            i <= q@.len(),
            forall|k: int| 0 <= k < i ==> !#[trigger] protects(q@[k], href@, uid@),
        decreases q@.len() - i,
    {
        let hit = match &q[i] {
            Action::Create(t) => t.calendar_href == *href && t.uid == *uid,
            Action::Update(t) => t.calendar_href == *href && t.uid == *uid,
            Action::Move(t, target) => *target == *href && t.uid == *uid,
            Action::Delete(_) => false,
        };
        if hit {
            assert(protects(q@[i as int], href@, uid@));
            return true;
        }
        i = i + 1;
    }
    false
}

impl Journal {
    /// An empty journal.
    pub fn new() -> (j: Journal)
        ensures
            j.queue@ == Seq::<Action>::empty(),
    {
        Journal { queue: Vec::new() }
    }

    /// The journal file's path under an explicit context.
    pub fn get_path_with_ctx(ctx: &AppContext) -> (r: Option<String>)
        ensures
            r == ctx.journal_path,
    {
        match &ctx.journal_path {
            Some(p) => Some(p.clone()),
            None => None,
        }
    }

    /// The journal that loading under `ctx` yields, given what reading the file gave:
    /// the stored journal when there is a path and it was read, an empty one otherwise.
    pub fn load_with_ctx(ctx: &AppContext, stored: StoredJournal) -> (j: Journal)
        ensures
            j.queue@ == match (ctx.journal_path, stored) {
                (Some(_), StoredJournal::Loaded(l)) => l.queue@,
                _ => Seq::<Action>::empty(),
            },
    {
        if ctx.journal_path.is_none() {
            return Journal::new();
        }
        match stored {
            StoredJournal::Loaded(l) => l,
            _ => Journal::new(),
        }
    }


    /// Rewrite the queue with `f`, which receives the current queue and returns the new one.
    pub fn modify<F: FnOnce(Vec<Action>) -> Vec<Action>>(&mut self, f: F)
        requires
            f.requires((old(self).queue,)),
        ensures
            f.ensures((old(self).queue,), final(self).queue),
    {
        let mut queue: Vec<Action> = Vec::new();
        std::mem::swap(&mut queue, &mut self.queue);
        self.queue = f(queue);
    }

    /// The journal to write back when the stored queue is rewritten with `f` under `ctx`:
    /// nothing without a journal path; else the stored journal (an empty one when the file
    /// is absent or unreadable) with its queue rewritten.
    pub fn modify_with_ctx<F: FnOnce(Vec<Action>) -> Vec<Action>>(ctx: &AppContext, stored: StoredJournal, f: F) -> (r: Option<Journal>)
        requires
            forall|q: Vec<Action>| f.requires((q,)),
        ensures
            ctx.journal_path is None ==> r is None,
            ctx.journal_path is Some ==> r is Some && exists|q: Vec<Action>|
                q@ == Journal::stored_queue(stored) && #[trigger] f.ensures((q,), r->0.queue),
    {
        if ctx.journal_path.is_none() {
            return None;
        }
        let mut journal = Journal::from_stored(stored);
        let ghost q0 = journal.queue;
        journal.modify(f);
        let r = Some(journal);
        assert(q0@ == Journal::stored_queue(stored) && f.ensures((q0,), r->0.queue));
        r
    }

    /// The queue a stored journal holds: empty when the file is absent or unreadable.
    pub open spec fn stored_queue(stored: StoredJournal) -> Seq<Action> {
        match stored {
            StoredJournal::Loaded(l) => l.queue@,
            _ => Seq::<Action>::empty(),
        }
    }

    fn from_stored(stored: StoredJournal) -> (j: Journal)
        ensures
            j.queue@ == Journal::stored_queue(stored),
    {
        match stored {
            StoredJournal::Loaded(l) => l,
            _ => Journal { queue: Vec::new() },
        }
    }

    /// The journal to write back when `action` is queued under `ctx`: nothing without a
    /// journal path; else the stored journal (an empty one when the file is absent or
    /// unreadable) with the action at the end.
    pub fn push_with_ctx(ctx: &AppContext, stored: StoredJournal, action: Action) -> (r: Option<Journal>)
        ensures
            ctx.journal_path is None ==> r is None,
            ctx.journal_path is Some ==> r is Some && r->0.queue@ == Journal::stored_queue(stored).push(action),
    {
        if ctx.journal_path.is_none() {
            return None;
        }
        let mut journal = Journal::from_stored(stored);
        journal.push(action);
        Some(journal)
    }

    /// Replay the journal that loading under `ctx` yields over the tasks of `calendar_href`
    /// (see [`Journal::load_with_ctx`] and [`Journal::apply_to_tasks`]).
    pub fn apply_to_tasks_with_ctx(ctx: &AppContext, stored: StoredJournal, tasks: &mut Vec<Task>, calendar_href: &str)
        ensures
            ({
                let q = match (ctx.journal_path, stored) {
                    (Some(_), StoredJournal::Loaded(l)) => l.queue@,
                    _ => Seq::<Action>::empty(),
                };
                &&& task_map(final(tasks)@) == replayed(old(tasks)@, q, calendar_href@)
                &&& q.len() == 0 ==> final(tasks)@ == pruned(old(tasks)@, q, calendar_href@)
                &&& q.len() > 0 ==> distinct_uids(final(tasks)@)
            }),
    {
        let journal = Journal::load_with_ctx(ctx, stored);
        journal.apply_to_tasks(tasks, calendar_href);
    }

    /// Whether no action is queued.
    pub fn is_empty(&self) -> (r: bool)
        ensures
            r == (self.queue@.len() == 0),
    {
        self.queue.len() == 0
    }

    /// Queue an action at the end.
    pub fn push(&mut self, action: Action)
        ensures
            final(self).queue@ == old(self).queue@.push(action),
    {
        self.queue.push(action);
    }

    /// Squash redundant actions for the same task (last write wins):
    /// `[Create(A), Update(A'), Update(A'')]` becomes `[Create(A'')]`,
    /// `[Create(A), Delete(A)]` becomes `[]`.
    pub fn compact(&mut self)
        ensures
            final(self).queue@ == compacted(old(self).queue@),
            final(self).queue@.len() <= old(self).queue@.len(),
    {
        let ghost q = self.queue@;
        let mut slots: Vec<Option<Action>> = Vec::new();
        let mut slot_uids: Vec<String> = Vec::new();
        let n = self.queue.len();
        let mut i: usize = 0;
        while i < n
            invariant
                n == q.len(),
                q == self.queue@,
                i <= n,
                slots@ == compact_fold(q.take(i as int)).slots,
                slot_uids@.len() == slots@.len(),
                forall|k: int| 0 <= k < slot_uids@.len()
                    ==> #[trigger] slot_uids@[k]@ == compact_fold(q.take(i as int)).uids[k],
                compact_fold(q.take(i as int)).uids.len() == slots@.len(),
            decreases n - i,
        {
            let action = self.queue[i].duplicate();
            let ghost s = compact_fold(q.take(i as int));
            assert(q.take(i + 1).drop_last() == q.take(i as int));
            assert(q.take(i + 1).last() == action);
            proof {
                lemma_last_slot_bounds(s.uids, action.uid());
            }
            // Locate the newest slot for the action's uid.
            let uid = action.task_uid().clone();
            let mut j: usize = slot_uids.len();
            let mut found = false;
            while j > 0 && !found
                invariant
                    j <= slot_uids@.len(),
                    slot_uids@.len() == s.uids.len(),
                    forall|k: int| 0 <= k < slot_uids@.len() ==> #[trigger] slot_uids@[k]@ == s.uids[k],
                    forall|k: int| j <= k < slot_uids@.len() ==> s.uids[k] != uid@,
                    found ==> j >= 1 && s.uids[j - 1] == uid@,
                decreases j + (if found { 0int } else { 1int }),
            {
                if slot_uids[j - 1] == uid {
                    found = true;
                } else {
                    j = j - 1;
                }
            }
            let ghost expected = last_slot(s.uids, uid@);
            assert(found ==> expected == j - 1) by {
                if found {
                    assert(s.uids[j - 1] == uid@);
                    assert(forall|k: int| j <= k < s.uids.len() ==> s.uids[k] != uid@);
                }
            }
            assert(!found ==> expected == -1) by {
                if !found && expected >= 0 {
                    assert(s.uids[expected] == uid@);
                }
            }
            let mut merged = false;
            if found {
                let idx = j - 1;
                let next: Option<Option<Action>> = match (&slots[idx], &action) {
                    (Some(Action::Create(_)), Action::Update(t)) => Some(Some(Action::Create(t.duplicate()))),
                    (Some(Action::Update(_)), Action::Update(t)) => Some(Some(Action::Update(t.duplicate()))),
                    (Some(Action::Create(_)), Action::Delete(_)) => Some(None),
                    (Some(Action::Update(_)), Action::Delete(t)) => Some(Some(Action::Delete(t.duplicate()))),
                    _ => None,
                };
                match next {
                    Some(x) => {
                        slots.set(idx, x);
                        merged = true;
                    },
                    None => {},
                }
            }
            if !merged {
                slots.push(Some(action));
                slot_uids.push(uid);
            }
            proof {
                let s2 = compact_fold(q.take(i + 1));
                assert(s2 == compact_step(s, action));
                assert(slots@ == s2.slots);
                assert forall|k: int| 0 <= k < slot_uids@.len() implies #[trigger] slot_uids@[k]@ == s2.uids[k] by {
                }
            }
            i = i + 1;
        }
        assert(q.take(n as int) == q);
        // Keep the surviving actions, in order.
        let mut out: Vec<Action> = Vec::new();
        let mut k: usize = 0;
        while k < slots.len()
            invariant
                k <= slots@.len(),
                out@ == flatten_slots(slots@.take(k as int)),
            decreases slots@.len() - k,
        {
            proof {
                assert(slots@.take(k + 1) == slots@.take(k as int).push(slots@[k as int]));
                lemma_flatten_push(slots@.take(k as int), slots@[k as int]);
            }
            match &slots[k] {
                Some(a) => out.push(a.duplicate()),
                None => {},
            }
            k = k + 1;
        }
        assert(slots@.take(slots@.len() as int) == slots@);
        self.queue = out;
        proof {
            compaction_never_grows(q);
        }
    }

    /// Replay the queued actions over the task list of calendar `calendar_href`.
    ///
    /// Remote calendars first lose their tasks without ETag unless the queue keeps them alive
    /// (a pending creation, update or move into the calendar); local calendars (`local://...`)
    /// are never pruned. With an empty queue that is all. Otherwise the actions are applied in
    /// order, last write wins, and the result holds each uid once.
    pub fn apply_to_tasks(self, tasks: &mut Vec<Task>, calendar_href: &str)
        ensures
            task_map(final(tasks)@) == replayed(old(tasks)@, self.queue@, calendar_href@),
            self.queue@.len() == 0 ==> final(tasks)@ == pruned(old(tasks)@, self.queue@, calendar_href@),
            self.queue@.len() > 0 ==> distinct_uids(final(tasks)@),
    {
        let ghost q = self.queue@;
        let ghost orig = tasks@;
        let href = String::from_str(calendar_href);
        let local_prefix = chars_of("local://");
        let is_local = starts_with(&chars_of(calendar_href), &local_prefix);
        let ghost pred = |t: Task| survives_pruning(t, q, href@);

        // 1. Ghost pruning.
        let mut kept: Vec<Task> = Vec::new();
        let mut i: usize = 0;
        while i < tasks.len()
            invariant
                tasks@ == orig,
                i <= orig.len(),
                q == self.queue@,
                href@ == calendar_href@,
                pred == (|t: Task| survives_pruning(t, q, href@)),
                is_local ==> kept@ == orig.take(i as int),
                !is_local ==> kept@ == orig.take(i as int).filter(pred),
            decreases orig.len() - i,
        {
            proof {
                assert(orig.take(i + 1).drop_last() == orig.take(i as int));
                assert(orig.take(i + 1).last() == orig[i as int]);
                reveal_with_fuel(Seq::<_>::filter, 1);
            }
            let keep = is_local || !tasks[i].etag.as_str().is_empty()
                || is_protected(&self.queue, &href, &tasks[i].uid);
            proof {
                let t = orig[i as int];
                assert(pred(t) == survives_pruning(t, q, href@));
                assert(!is_local ==> keep == pred(t));
                assert(orig.take(i + 1).filter(pred) == if pred(t) {
                    orig.take(i as int).filter(pred).push(t)
                } else {
                    orig.take(i as int).filter(pred)
                });
            }
            if keep {
                kept.push(tasks[i].duplicate());
            }
            assert(is_local ==> kept@ == orig.take(i + 1));
            i = i + 1;
        }
        assert(orig.take(orig.len() as int) == orig);
        assert(kept@ == pruned(orig, q, calendar_href@));

        if self.queue.len() == 0 {
            *tasks = kept;
            return;
        }

        // 2. Index the surviving tasks by uid (a later task replaces an earlier one).
        let mut entries: Vec<Task> = Vec::new();
        let mut k: usize = 0;
        while k < kept.len()
            invariant
                k <= kept@.len(),
                distinct_uids(entries@),
                task_map(entries@) == task_map(kept@.take(k as int)),
            decreases kept@.len() - k,
        {
            assert(kept@.take(k + 1).drop_last() == kept@.take(k as int));
            upsert_task(&mut entries, kept[k].duplicate());
            k = k + 1;
        }
        assert(kept@.take(kept@.len() as int) == kept@);

        // 3. Apply the actions in order.
        let n = self.queue.len();
        let mut a: usize = 0;
        while a < n
            invariant
                n == q.len(),
                q == self.queue@,
                a <= n,
                distinct_uids(entries@),
                task_map(entries@) == apply_actions(task_map(kept@), q.take(a as int), href@),
            decreases n - a,
        {
            assert(q.take(a + 1).drop_last() == q.take(a as int));
            assert(q.take(a + 1).last() == q[a as int]);
            match &self.queue[a] {
                Action::Create(t) => {
                    if t.calendar_href == href {
                        upsert_task(&mut entries, t.duplicate());
                    }
                },
                Action::Update(t) => {
                    if t.calendar_href == href {
                        upsert_task(&mut entries, t.duplicate());
                    }
                },
                Action::Delete(t) => {
                    if t.calendar_href == href {
                        remove_task(&mut entries, &t.uid);
                    }
                },
                Action::Move(t, target) => {
                    if t.calendar_href == href {
                        remove_task(&mut entries, &t.uid);
                    } else if *target == href {
                        let moved = Task {
                            uid: t.uid.clone(),
                            calendar_href: target.clone(),
                            etag: t.etag.clone(),
                            summary: t.summary.clone(),
                            details: t.details.clone(),
                        };
                        assert(moved == moved_to(*t, *target));
                        upsert_task(&mut entries, moved);
                    }
                },
            }
            a = a + 1;
        }
        assert(q.take(n as int) == q);
        *tasks = entries;
    }
}


// ---------------------------------------------------------------------------
// Summary of pending changes
// ---------------------------------------------------------------------------

/// The kind of a queued action.
#[derive(PartialEq, Eq, Structural, Clone, Copy, Debug)]
pub enum ActionKind {
    Create,
    Update,
    Delete,
    Move,
}

/// One pending change as the unsynced indicator lists it.
pub struct PendingLine {
    pub kind: ActionKind,
    pub summary: String,
}

/// The pending changes listed by the unsynced indicator, and how many more are not listed.
pub struct UnsyncedSummary {
    pub lines: Vec<PendingLine>,
    pub more: usize,
}

/// How many queued actions the unsynced indicator lists.
pub open spec fn listed_actions() -> int {
    10
}

/// The kind of an action.
pub open spec fn kind_of(a: Action) -> ActionKind {
    match a {
        Action::Create(_) => ActionKind::Create,
        Action::Update(_) => ActionKind::Update,
        Action::Delete(_) => ActionKind::Delete,
        Action::Move(_, _) => ActionKind::Move,
    }
}

/// A summary shortened for display: past 40 characters, the first 37 and `...`.
pub open spec fn shortened(s: Seq<char>) -> Seq<char> {
    if s.len() > 40 {
        s.take(37) + seq!['.', '.', '.']
    } else {
        s
    }
}

fn shorten(s: &String) -> (r: String)
    ensures
        r@ == shortened(s@),
{
    let text = s.as_str();
    if text.unicode_len() > 40 {
        let mut out = String::from_str(text.substring_char(0, 37));
        out.append("...");
        proof {
            reveal_strlit("...");
            assert(out@ =~= shortened(s@));
        }
        out
    } else {
        s.clone()
    }
}

impl Journal {
    /// The first ten queued actions, each with its kind and shortened task summary, and the
    /// number of further actions.
    pub fn unsynced_summary(&self) -> (r: UnsyncedSummary)
        ensures
            r.lines@.len() == if self.queue@.len() > listed_actions() { listed_actions() } else { self.queue@.len() as int },
            forall|i: int| 0 <= i < r.lines@.len() ==> (#[trigger] r.lines@[i]).kind == kind_of(self.queue@[i])
                && r.lines@[i].summary@ == shortened(self.queue@[i].task().summary@),
            r.more == if self.queue@.len() > listed_actions() { self.queue@.len() - listed_actions() } else { 0 },
    {
        let n = self.queue.len();
        let shown = if n > 10 { 10 } else { n };
        let mut lines: Vec<PendingLine> = Vec::new();
        let mut i: usize = 0;
        while i < shown
            invariant
                n == self.queue@.len(),
                shown <= n,
                i <= shown,
                lines@.len() == i,
                forall|k: int| 0 <= k < i ==> (#[trigger] lines@[k]).kind == kind_of(self.queue@[k])
                    && lines@[k].summary@ == shortened(self.queue@[k].task().summary@),
            decreases shown - i,
        {
            let line = match &self.queue[i] {
                Action::Create(t) => PendingLine { kind: ActionKind::Create, summary: shorten(&t.summary) },
                Action::Update(t) => PendingLine { kind: ActionKind::Update, summary: shorten(&t.summary) },
                Action::Delete(t) => PendingLine { kind: ActionKind::Delete, summary: shorten(&t.summary) },
                Action::Move(t, _) => PendingLine { kind: ActionKind::Move, summary: shorten(&t.summary) },
            };
            lines.push(line);
            i = i + 1;
        }
        UnsyncedSummary { lines, more: n - shown }
    }
}

} // verus!
