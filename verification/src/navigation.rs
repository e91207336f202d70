//! Keyboard navigation: moving the selection through the task list, the sidebar and
//! the pickers, cycling focus between panes, and keeping a selection after the list changes.

use vstd::prelude::*;

verus! {

/// A row of the visible task list: a task (by uid) or a group row (expand/collapse).
pub enum ListRow {
    Task(String),
    Group,
}

/// The pane that holds keyboard focus.
#[derive(PartialEq, Eq, Structural, Clone, Copy, Debug)]
pub enum Focus {
    MainList,
    Sidebar,
    SearchInput,
    AddTaskInput,
}

/// The uid of a row, if it is a task row.
pub open spec fn row_uid(r: ListRow) -> Option<Seq<char>> {
    match r {
        ListRow::Task(u) => Some(u@),
        ListRow::Group => None,
    }
}

/// The first row holding the task with uid `uid`, or -1.
pub open spec fn position_of(rows: Seq<ListRow>, uid: Seq<char>) -> int
    decreases rows.len(),
{
    if rows.len() == 0 {
        -1
    } else {
        let p = position_of(rows.drop_last(), uid);
        if p >= 0 {
            p
        } else if row_uid(rows.last()) == Some(uid) {
            rows.len() - 1
        } else {
            -1
        }
    }
}

/// The row the selection stands on: the selected task's row, or the first row when the
/// selected task is not listed or nothing is selected.
pub open spec fn current_index(rows: Seq<ListRow>, selected: Option<String>) -> int {
    match selected {
        Some(u) => if position_of(rows, u@) >= 0 { position_of(rows, u@) } else { 0 },
        None => 0,
    }
}

/// The task uid at row `i`, if that row is a task row.
pub open spec fn uid_at(rows: Seq<ListRow>, i: int) -> Option<Seq<char>> {
    if 0 <= i < rows.len() {
        row_uid(rows[i])
    } else {
        None
    }
}

/// The view of an optional uid.
pub open spec fn opt_view(o: Option<String>) -> Option<Seq<char>> {
    match o {
        Some(s) => Some(s@),
        None => None,
    }
}

proof fn lemma_position_of(rows: Seq<ListRow>, uid: Seq<char>)
    ensures
        -1 <= position_of(rows, uid) < rows.len(),
        position_of(rows, uid) >= 0 ==> row_uid(rows[position_of(rows, uid)]) == Some(uid),
        forall|k: int| 0 <= k < rows.len() && (position_of(rows, uid) < 0 || k < position_of(rows, uid))
            ==> row_uid(#[trigger] rows[k]) != Some(uid),
    decreases rows.len(),
{
    if rows.len() > 0 {
        let p = rows.drop_last();
        lemma_position_of(p, uid);
        assert forall|k: int| 0 <= k < rows.len() && (position_of(rows, uid) < 0 || k < position_of(rows, uid))
            implies row_uid(#[trigger] rows[k]) != Some(uid) by {
            if k < rows.len() - 1 {
                assert(p[k] == rows[k]);
            }
        }
    }
}

/// The index of the row holding task `uid`, if any.
fn find_row(rows: &Vec<ListRow>, uid: &String) -> (r: Option<usize>)
    ensures
        match r {
            Some(i) => i == position_of(rows@, uid@) && i < rows@.len(),
            None => position_of(rows@, uid@) == -1,
        },
{
    proof {
        lemma_position_of(rows@, uid@);
    }
    let mut i: usize = 0;
    while i < rows.len()
        invariant
            i <= rows@.len(),
            forall|k: int| 0 <= k < i ==> row_uid(#[trigger] rows@[k]) != Some(uid@),
            -1 <= position_of(rows@, uid@) < rows@.len(),
            position_of(rows@, uid@) >= 0 ==> row_uid(rows@[position_of(rows@, uid@)]) == Some(uid@),
            forall|k: int| 0 <= k < rows@.len() && (position_of(rows@, uid@) < 0 || k < position_of(rows@, uid@))
                ==> row_uid(#[trigger] rows@[k]) != Some(uid@),
        decreases rows@.len() - i,
    {
        let hit = match &rows[i] {
            ListRow::Task(u) => *u == *uid,
            ListRow::Group => false,
        };
        if hit {
            assert(row_uid(rows@[i as int]) == Some(uid@));
            return Some(i);
        }
        i = i + 1;
    }
    None
}

fn current_row(rows: &Vec<ListRow>, selected: &Option<String>) -> (r: usize)
    ensures
        r == current_index(rows@, *selected),
        rows@.len() > 0 ==> r < rows@.len(),
{
    match selected {
        Some(u) => match find_row(rows, u) {
            Some(i) => i,
            None => 0,
        },
        None => 0,
    }
}

fn task_at(rows: &Vec<ListRow>, i: usize) -> (r: Option<String>)
    ensures
        opt_view(r) == uid_at(rows@, i as int),
{
    if i < rows.len() {
        match &rows[i] {
            ListRow::Task(u) => Some(u.clone()),
            ListRow::Group => None,
        }
    } else {
        None
    }
}

/// The row after the current one, wrapping to the top after the last row.
pub open spec fn spec_next_index(cur: int, len: int) -> int {
    if cur + 1 >= len { 0 } else { cur + 1 }
}

/// The row before the current one, wrapping to the bottom before the first row.
pub open spec fn spec_prev_index(cur: int, len: int) -> int {
    if cur == 0 { len - 1 } else { cur - 1 }
}

/// Move the selection down one row (wrapping). `None` leaves the selection as it is:
/// the list is empty or the new row is a group row.
pub fn select_next_task(rows: &Vec<ListRow>, selected: &Option<String>) -> (r: Option<String>)
    ensures
        rows@.len() == 0 ==> r is None,
        rows@.len() > 0 ==> opt_view(r) == uid_at(rows@,
            spec_next_index(current_index(rows@, *selected), rows@.len() as int)),
{
    if rows.len() == 0 {
        return None;
    }
    let cur = current_row(rows, selected);
    let next = if cur + 1 >= rows.len() { 0 } else { cur + 1 };
    task_at(rows, next)
}

/// Move the selection up one row (wrapping). `None` leaves the selection as it is.
pub fn select_prev_task(rows: &Vec<ListRow>, selected: &Option<String>) -> (r: Option<String>)
    ensures
        rows@.len() == 0 ==> r is None,
        rows@.len() > 0 ==> opt_view(r) == uid_at(rows@,
            spec_prev_index(current_index(rows@, *selected), rows@.len() as int)),
{
    if rows.len() == 0 {
        return None;
    }
    let cur = current_row(rows, selected);
    let prev = if cur == 0 { rows.len() - 1 } else { cur - 1 };
    task_at(rows, prev)
}

/// Move the selection ten rows down, stopping at the last row. `None` leaves it as it is.
pub fn select_next_page(rows: &Vec<ListRow>, selected: &Option<String>) -> (r: Option<String>)
    ensures
        rows@.len() == 0 ==> r is None,
        rows@.len() > 0 ==> opt_view(r) == uid_at(rows@, {
            let t = current_index(rows@, *selected) + 10;
            if t < rows@.len() - 1 { t } else { rows@.len() - 1 }
        }),
{
    if rows.len() == 0 {
        return None;
    }
    let cur = current_row(rows, selected);
    let last = rows.len() - 1;
    let next = if cur < last && last - cur > 10 { cur + 10 } else { last };
    task_at(rows, next)
}

/// Move the selection ten rows up, stopping at the first row. `None` leaves it as it is.
pub fn select_prev_page(rows: &Vec<ListRow>, selected: &Option<String>) -> (r: Option<String>)
    ensures
        rows@.len() == 0 ==> r is None,
        rows@.len() > 0 ==> opt_view(r) == uid_at(rows@, {
            let c = current_index(rows@, *selected);
            if c >= 10 { c - 10 } else { 0 }
        }),
{
    if rows.len() == 0 {
        return None;
    }
    let cur = current_row(rows, selected);
    let prev = if cur >= 10 { cur - 10 } else { 0 };
    task_at(rows, prev)
}

/// The focus order that Tab cycles through.
pub open spec fn focus_rank(f: Focus) -> int {
    match f {
        Focus::MainList => 0,
        Focus::Sidebar => 1,
        Focus::SearchInput => 2,
        Focus::AddTaskInput => 3,
    }
}

/// The pane at a rank of the focus order.
pub open spec fn focus_at(rank: int) -> Focus {
    if rank == 0 {
        Focus::MainList
    } else if rank == 1 {
        Focus::Sidebar
    } else if rank == 2 {
        Focus::SearchInput
    } else {
        Focus::AddTaskInput
    }
}

/// The next pane (forward) or the previous one, in the order main list, sidebar, search, input.
pub open spec fn spec_cycle_focus(f: Focus, forward: bool) -> Focus {
    if forward {
        focus_at((focus_rank(f) + 1) % 4)
    } else {
        focus_at((focus_rank(f) + 3) % 4)
    }
}

/// Cycle keyboard focus to the next pane (forward) or the previous one.
pub fn cycle_focus(f: Focus, forward: bool) -> (r: Focus)
    ensures
        r == spec_cycle_focus(f, forward),
{
    let order = [Focus::MainList, Focus::Sidebar, Focus::SearchInput, Focus::AddTaskInput];
    let cur: usize = match f {
        Focus::MainList => 0,
        Focus::Sidebar => 1,
        Focus::SearchInput => 2,
        Focus::AddTaskInput => 3,
    };
    let next = if forward { (cur + 1) % 4 } else { (cur + 3) % 4 };
    order[next]
}

/// The pane that focus moves to when Tab cycles it: it stays put while a task, its
/// description or a task tree is being edited.
pub fn cycle_focus_guarded(f: Focus, forward: bool, editing: bool) -> (r: Focus)
    ensures
        editing ==> r == f,
        !editing ==> r == spec_cycle_focus(f, forward),
{
    if editing {
        f
    } else {
        cycle_focus(f, forward)
    }
}

/// Cycling focus forward then backward returns to the same pane, and four steps in one
/// direction go all the way round.
pub proof fn focus_cycle_round_trip(f: Focus, forward: bool)
    ensures
        spec_cycle_focus(spec_cycle_focus(f, forward), !forward) == f,
        spec_cycle_focus(spec_cycle_focus(spec_cycle_focus(spec_cycle_focus(f, forward), forward), forward), forward) == f,
{
}

/// The next entry of a list of `len` entries (wrapping), as the sidebar moves its cursor.
pub fn wrap_next(idx: usize, len: usize) -> (r: usize)
    requires
        len > 0,
    ensures
        r == (idx + 1) % (len as int),
{
    ((idx as u128 + 1) % (len as u128)) as usize
}

/// The previous entry of a list of `len` entries (wrapping), as the sidebar moves its cursor.
pub fn wrap_prev(idx: usize, len: usize) -> (r: usize)
    requires
        len > 0,
    ensures
        idx == 0 ==> r == len - 1,
        idx > 0 ==> r == idx - 1,
{
    if idx == 0 { len - 1 } else { idx - 1 }
}

/// On a non-empty list, moving the cursor forward then back returns to an entry of the list.
pub proof fn wrap_round_trip(idx: int, len: int)
    requires
        len > 0,
        0 <= idx < len,
    ensures
        ({
            let n = (idx + 1) % len;
            (if n == 0 { len - 1 } else { n - 1 }) == idx
        }),
{
    if idx + 1 < len {
        vstd::arithmetic::div_mod::lemma_small_mod((idx + 1) as nat, len as nat);
    } else {
        vstd::arithmetic::div_mod::lemma_mod_self_0(len);
    }
}

/// The next entry of a picker of `len` entries, stopping at the last one.
pub fn clamp_next(idx: usize, len: usize) -> (r: usize)
    requires
        len > 0,
    ensures
        r == if idx + 1 < len { idx + 1 } else { len - 1 },
{
    if idx < len - 1 { idx + 1 } else { len - 1 }
}

/// The previous entry of a picker, stopping at the first one.
pub fn clamp_prev(idx: usize) -> (r: usize)
    ensures
        r == if idx > 0 { idx - 1 } else { 0 },
{
    if idx > 0 { idx - 1 } else { 0 }
}

/// The first task row at or after `from`, if any.
pub open spec fn first_task_from(rows: Seq<ListRow>, from: int) -> Option<Seq<char>>
    decreases rows.len() - from,
{
    if from < 0 || from >= rows.len() {
        None
    } else if row_uid(rows[from]) is Some {
        row_uid(rows[from])
    } else {
        first_task_from(rows, from + 1)
    }
}

/// The last task row before `to`, if any.
pub open spec fn last_task_before(rows: Seq<ListRow>, to: int) -> Option<Seq<char>>
    decreases to,
{
    if to <= 0 || to > rows.len() {
        None
    } else if row_uid(rows[to - 1]) is Some {
        row_uid(rows[to - 1])
    } else {
        last_task_before(rows, to - 1)
    }
}

/// Where the selection goes when the selected task (formerly at row `old_idx`) has left the
/// list: the first task row at or after that position (clamped to the list), else the
/// nearest task row before it.
pub open spec fn spec_fallback_selection(rows: Seq<ListRow>, old_idx: int) -> Option<Seq<char>> {
    let start = fallback_start(rows, old_idx);
    if first_task_from(rows, start) is Some {
        first_task_from(rows, start)
    } else {
        last_task_before(rows, start)
    }
}

/// The old position clamped to the list.
pub open spec fn fallback_start(rows: Seq<ListRow>, old_idx: int) -> int {
    if old_idx < rows.len() - 1 { old_idx } else if rows.len() > 0 { rows.len() - 1 } else { 0 }
}

/// Pick the row to select after the selected task (formerly at row `old_idx`) left the list.
pub fn fallback_selection(rows: &Vec<ListRow>, old_idx: usize) -> (r: Option<String>)
    ensures
        opt_view(r) == spec_fallback_selection(rows@, old_idx as int),
{
    let n = rows.len();
    let start = if n > 0 && old_idx < n - 1 { old_idx } else if n > 0 { n - 1 } else { 0 };
    assert(start as int == fallback_start(rows@, old_idx as int));
    let mut i = start;
    while i < n
        invariant
            start <= i <= n,
            n == rows@.len(),
            start as int == fallback_start(rows@, old_idx as int),
            first_task_from(rows@, start as int) == first_task_from(rows@, i as int),
        decreases n - i,
    {
        match &rows[i] {
            ListRow::Task(u) => {
                assert(first_task_from(rows@, i as int) == row_uid(rows@[i as int]));
                return Some(u.clone());
            },
            ListRow::Group => {},
        }
        assert(first_task_from(rows@, i as int) == first_task_from(rows@, i + 1));
        i = i + 1;
    }
    let mut j = start;
    while j > 0
        invariant
            j <= start,
            start <= n || n == 0,
            n == rows@.len(),
            start as int == fallback_start(rows@, old_idx as int),
            first_task_from(rows@, start as int) is None,
            last_task_before(rows@, start as int) == last_task_before(rows@, j as int),
        decreases j,
    {
        if j <= n {
            match &rows[j - 1] {
                ListRow::Task(u) => {
                    assert(last_task_before(rows@, j as int) == row_uid(rows@[j - 1]));
                    return Some(u.clone());
                },
                ListRow::Group => {},
            }
            assert(last_task_before(rows@, j as int) == last_task_before(rows@, j - 1));
        }
        j = j - 1;
    }
    None
}

/// The task to select instead of the task at row `idx` when that task is about to move away:
/// the task row right below it, else the task row right above it.
pub open spec fn spec_neighbour_selection(rows: Seq<ListRow>, idx: int) -> Option<Seq<char>> {
    if uid_at(rows, idx + 1) is Some {
        uid_at(rows, idx + 1)
    } else if idx > 0 {
        uid_at(rows, idx - 1)
    } else {
        None
    }
}

/// The neighbouring task row of row `idx`: the one below, else the one above.
pub fn neighbour_selection(rows: &Vec<ListRow>, idx: usize) -> (r: Option<String>)
    ensures
        opt_view(r) == spec_neighbour_selection(rows@, idx as int),
{
    let below = if idx < rows.len() { task_at(rows, idx + 1) } else { None };
    if below.is_some() {
        return below;
    }
    if idx > 0 {
        task_at(rows, idx - 1)
    } else {
        None
    }
}

/// Moving the selection down then up returns to the same row, when every row is a task row
/// and no two rows hold the same task.
pub proof fn next_then_prev_returns(rows: Seq<ListRow>, i: int)
    requires
        0 <= i < rows.len(),
        forall|k: int| 0 <= k < rows.len() ==> row_uid(#[trigger] rows[k]) is Some,
        forall|a: int, b: int| 0 <= a < b < rows.len() ==> row_uid(#[trigger] rows[a]) != row_uid(#[trigger] rows[b]),
    ensures
        ({
            let n = spec_next_index(i, rows.len() as int);
            let u = row_uid(rows[n]).unwrap();
            position_of(rows, u) == n && spec_prev_index(n, rows.len() as int) == i
        }),
{
    let n = spec_next_index(i, rows.len() as int);
    let u = row_uid(rows[n]).unwrap();
    lemma_position_of(rows, u);
    let p = position_of(rows, u);
    if p < 0 {
        assert(row_uid(rows[n]) != Some(u));
    } else if p < n {
        assert(row_uid(rows[p]) == row_uid(rows[n]));
    } else if p > n {
        assert(row_uid(rows[n]) != Some(u));
    }
}

/// What is open or filled in when Escape is pressed.
#[derive(Clone, Copy, Debug)]
pub struct EscapeContext {
    /// A task is being moved to another calendar.
    pub moving_task: bool,
    /// The iCalendar import dialog is open.
    pub import_dialog_open: bool,
    /// A task is being edited, or a child or a task with a description is being created.
    pub editing: bool,
    /// A task is yanked (picked up to link to another).
    pub yanked: bool,
    /// The main input holds text.
    pub input_filled: bool,
    /// The search field holds text.
    pub search_filled: bool,
    /// Some category is selected.
    pub categories_selected: bool,
    /// Some location is selected.
    pub locations_selected: bool,
}

/// What one press of Escape cancels.
#[derive(PartialEq, Eq, Structural, Clone, Copy, Debug)]
pub enum EscapeAction {
    CancelMove,
    CloseImportDialog,
    CancelEdit,
    ClearYank,
    ClearInput,
    ClearSearch,
    ClearCategories,
    ClearLocations,
    Nothing,
}

/// Escape cancels the first of these that applies: a move, the import dialog, an edit, a
/// yank, the input text, the search text, the selected categories, the selected locations.
pub open spec fn spec_escape_action(c: EscapeContext) -> EscapeAction {
    if c.moving_task {
        EscapeAction::CancelMove
    } else if c.import_dialog_open {
        EscapeAction::CloseImportDialog
    } else if c.editing {
        EscapeAction::CancelEdit
    } else if c.yanked {
        EscapeAction::ClearYank
    } else if c.input_filled {
        EscapeAction::ClearInput
    } else if c.search_filled {
        EscapeAction::ClearSearch
    } else if c.categories_selected {
        EscapeAction::ClearCategories
    } else if c.locations_selected {
        EscapeAction::ClearLocations
    } else {
        EscapeAction::Nothing
    }
}

/// Decide what a press of Escape cancels.
pub fn escape_action(c: &EscapeContext) -> (a: EscapeAction)
    ensures
        a == spec_escape_action(*c),
{
    if c.moving_task {
        EscapeAction::CancelMove
    } else if c.import_dialog_open {
        EscapeAction::CloseImportDialog
    } else if c.editing {
        EscapeAction::CancelEdit
    } else if c.yanked {
        EscapeAction::ClearYank
    } else if c.input_filled {
        EscapeAction::ClearInput
    } else if c.search_filled {
        EscapeAction::ClearSearch
    } else if c.categories_selected {
        EscapeAction::ClearCategories
    } else if c.locations_selected {
        EscapeAction::ClearLocations
    } else {
        EscapeAction::Nothing
    }
}

/// Whether an Escape action changes the filters, so that the task list must be rebuilt.
pub fn escape_refilters(a: EscapeAction) -> (r: bool)
    ensures
        r == (a == EscapeAction::ClearSearch || a == EscapeAction::ClearCategories
            || a == EscapeAction::ClearLocations),
{
    match a {
        EscapeAction::ClearSearch | EscapeAction::ClearCategories | EscapeAction::ClearLocations => true,
        _ => false,
    }
}

/// Whether the list scrolls back to the selected task after Escape: when something was
/// cancelled, or when no task is being edited afterwards.
pub fn escape_rescrolls(a: EscapeAction, editing_after: bool) -> (r: bool)
    ensures
        r == (a != EscapeAction::Nothing || !editing_after),
{
    match a {
        EscapeAction::Nothing => !editing_after,
        _ => true,
    }
}

/// What a press of Escape in the main view does.
#[derive(PartialEq, Eq, Structural, Clone, Copy, Debug)]
pub struct EscapeOutcome {
    /// The one thing it cancels, if any.
    pub action: EscapeAction,
    /// Where the keyboard focus goes: always back to the task list.
    pub focus: Focus,
    /// Whether the task list must be rebuilt.
    pub refilter: bool,
}

/// Press Escape: focus returns to the task list on every press, and the first pending
/// thing of the cascade is cancelled (see [`escape_action`]).
pub fn escape_pressed(c: &EscapeContext) -> (r: EscapeOutcome)
    ensures
        r.action == spec_escape_action(*c),
        r.focus == Focus::MainList,
        r.refilter == (r.action == EscapeAction::ClearSearch || r.action == EscapeAction::ClearCategories
            || r.action == EscapeAction::ClearLocations),
{
    let action = escape_action(c);
    EscapeOutcome { action, focus: Focus::MainList, refilter: escape_refilters(action) }
}

/// Escape caught by a text field: focus returns to the task list, and a task edit or
/// creation in progress is cancelled (`true`).
pub fn escape_captured(editing: bool) -> (r: (Focus, bool))
    ensures
        r.0 == Focus::MainList,
        r.1 == editing,
{
    (Focus::MainList, editing)
}

} // verus!
