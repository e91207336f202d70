use cfait::navigation::{escape_captured, escape_pressed};
use cfait::navigation::{
    clamp_next, cycle_focus_guarded, escape_action, escape_refilters, escape_rescrolls, EscapeAction, EscapeContext, clamp_prev, cycle_focus, fallback_selection, neighbour_selection, select_next_page, select_next_task,
    select_prev_page, select_prev_task, wrap_next, wrap_prev, Focus, ListRow,
};

fn rows(spec: &[&str]) -> Vec<ListRow> {
    spec.iter()
        .map(|s| if *s == "-" { ListRow::Group } else { ListRow::Task(s.to_string()) })
        .collect()
}

fn sel(s: &str) -> Option<String> {
    Some(s.to_string())
}

#[test]
fn next_and_prev_wrap() {
    let r = rows(&["a", "b", "c"]);
    assert_eq!(select_next_task(&r, &sel("a")), sel("b"));
    assert_eq!(select_next_task(&r, &sel("c")), sel("a"));
    assert_eq!(select_prev_task(&r, &sel("a")), sel("c"));
    assert_eq!(select_prev_task(&r, &sel("b")), sel("a"));
    assert_eq!(select_next_task(&r, &None), sel("b"));
    assert_eq!(select_next_task(&r, &sel("gone")), sel("b"));
    assert_eq!(select_next_task(&rows(&[]), &None), None);
}

#[test]
fn group_rows_are_not_selected() {
    let r = rows(&["a", "-", "c"]);
    assert_eq!(select_next_task(&r, &sel("a")), None);
    assert_eq!(select_prev_task(&r, &sel("c")), None);
}

#[test]
fn paging_clamps() {
    let names: Vec<String> = (0..25).map(|i| format!("t{i}")).collect();
    let refs: Vec<&str> = names.iter().map(|s| s.as_str()).collect();
    let r = rows(&refs);
    assert_eq!(select_next_page(&r, &sel("t3")), sel("t13"));
    assert_eq!(select_next_page(&r, &sel("t20")), sel("t24"));
    assert_eq!(select_prev_page(&r, &sel("t13")), sel("t3"));
    assert_eq!(select_prev_page(&r, &sel("t4")), sel("t0"));
}

#[test]
fn focus_cycles_through_four_panes() {
    assert_eq!(cycle_focus(Focus::MainList, true), Focus::Sidebar);
    assert_eq!(cycle_focus(Focus::AddTaskInput, true), Focus::MainList);
    assert_eq!(cycle_focus(Focus::MainList, false), Focus::AddTaskInput);
    for f in [Focus::MainList, Focus::Sidebar, Focus::SearchInput, Focus::AddTaskInput] {
        assert_eq!(cycle_focus(cycle_focus(f, true), false), f);
    }
}

#[test]
fn sidebar_and_picker_cursors() {
    assert_eq!(wrap_next(2, 3), 0);
    assert_eq!(wrap_next(0, 3), 1);
    assert_eq!(wrap_prev(0, 3), 2);
    assert_eq!(wrap_prev(2, 3), 1);
    assert_eq!(clamp_next(2, 3), 2);
    assert_eq!(clamp_next(0, 3), 1);
    assert_eq!(clamp_prev(0), 0);
    assert_eq!(clamp_prev(5), 4);
}

#[test]
fn fallback_prefers_same_position_then_before() {
    let r = rows(&["a", "-", "c"]);
    assert_eq!(fallback_selection(&r, 1), sel("c"));
    assert_eq!(fallback_selection(&r, 7), sel("c"));
    let r2 = rows(&["a", "b", "-"]);
    assert_eq!(fallback_selection(&r2, 2), sel("b"));
    assert_eq!(fallback_selection(&rows(&["-"]), 0), None);
    assert_eq!(fallback_selection(&rows(&[]), 0), None);
}

#[test]
fn neighbour_prefers_the_row_below() {
    let r = rows(&["a", "b", "c"]);
    assert_eq!(neighbour_selection(&r, 1), sel("c"));
    assert_eq!(neighbour_selection(&r, 2), sel("b"));
    assert_eq!(neighbour_selection(&rows(&["a"]), 0), None);
}

fn ctx() -> EscapeContext {
    EscapeContext {
        moving_task: false,
        import_dialog_open: false,
        editing: false,
        yanked: false,
        input_filled: false,
        search_filled: false,
        categories_selected: false,
        locations_selected: false,
    }
}

#[test]
fn escape_cancels_the_first_thing_open() {
    assert_eq!(escape_action(&ctx()), EscapeAction::Nothing);
    let mut c = ctx();
    c.locations_selected = true;
    assert_eq!(escape_action(&c), EscapeAction::ClearLocations);
    c.categories_selected = true;
    assert_eq!(escape_action(&c), EscapeAction::ClearCategories);
    c.search_filled = true;
    assert_eq!(escape_action(&c), EscapeAction::ClearSearch);
    c.input_filled = true;
    assert_eq!(escape_action(&c), EscapeAction::ClearInput);
    c.yanked = true;
    assert_eq!(escape_action(&c), EscapeAction::ClearYank);
    c.editing = true;
    assert_eq!(escape_action(&c), EscapeAction::CancelEdit);
    c.import_dialog_open = true;
    assert_eq!(escape_action(&c), EscapeAction::CloseImportDialog);
    c.moving_task = true;
    assert_eq!(escape_action(&c), EscapeAction::CancelMove);
}

#[test]
fn escape_refilters_and_rescrolls() {
    assert!(escape_refilters(EscapeAction::ClearSearch));
    assert!(escape_refilters(EscapeAction::ClearLocations));
    assert!(!escape_refilters(EscapeAction::ClearInput));
    assert!(escape_rescrolls(EscapeAction::ClearInput, true));
    assert!(!escape_rescrolls(EscapeAction::Nothing, true));
    assert!(escape_rescrolls(EscapeAction::Nothing, false));
}

#[test]
fn focus_stays_while_editing() {
    assert_eq!(cycle_focus_guarded(Focus::MainList, true, true), Focus::MainList);
    assert_eq!(cycle_focus_guarded(Focus::MainList, true, false), Focus::Sidebar);
}

#[test]
fn escape_always_returns_focus_to_the_list() {
    let mut c = ctx();
    c.moving_task = true;
    c.search_filled = true;
    let r = escape_pressed(&c);
    assert_eq!(r.action, EscapeAction::CancelMove);
    assert_eq!(r.focus, Focus::MainList);
    assert!(!r.refilter);
    let r = escape_pressed(&ctx());
    assert_eq!((r.action, r.focus), (EscapeAction::Nothing, Focus::MainList));
    assert_eq!(escape_captured(true), (Focus::MainList, true));
    assert_eq!(escape_captured(false), (Focus::MainList, false));
}
