use cfait::state::SidebarMode;
use cfait::calendars::{
    isolate_calendar_state,
    all_calendars_visible, export_targets, move_targets,
    add_local_calendar, add_local_calendar_with_id, choose_active_calendar, contains_str,
    default_calendar, delete_local_calendar, insert_str, isolate_calendar, merge_calendars,
    recolor_local_calendar, remove_str, rename_local_calendar, replace_local_calendars,
    set_calendar_visibility, toggle_all_calendars, toggle_calendar_disabled, CalendarEntry,
};

fn cal(name: &str, href: &str) -> CalendarEntry {
    CalendarEntry { name: name.to_string(), href: href.to_string(), color: None }
}

fn hrefs(cals: &[CalendarEntry]) -> Vec<String> {
    cals.iter().map(|c| c.href.clone()).collect()
}

fn strs(v: &[&str]) -> Vec<String> {
    v.iter().map(|s| s.to_string()).collect()
}

fn sorted(mut v: Vec<String>) -> Vec<String> {
    v.sort();
    v
}

#[test]
fn merge_adds_only_new_hrefs() {
    let mut cals = vec![cal("Work", "/w/"), cal("Home", "/h/")];
    let extra = vec![cal("Local", "local://default"), cal("Work again", "/w/"), cal("Local", "local://default")];
    merge_calendars(&mut cals, &extra);
    assert_eq!(hrefs(&cals), strs(&["/w/", "/h/", "local://default"]));
    assert_eq!(cals[0].name, "Work");
}

#[test]
fn active_calendar_keeps_current_when_visible() {
    let cals = vec![cal("Work", "/w/"), cal("Home", "/h/")];
    let r = choose_active_calendar(
        &Some("/h/".to_string()), &Some("/w/".to_string()), &cals, &vec![], &vec![],
        &"local://trash".to_string(), &"local://default".to_string(),
    );
    assert_eq!(r, "/h/");
}

#[test]
fn active_calendar_falls_back_in_order() {
    let cals = vec![cal("Trash", "local://trash"), cal("Rec", "local://recovery"), cal("Work", "/w/"), cal("Home", "/h/")];
    let trash = "local://trash".to_string();
    let local = "local://default".to_string();
    // The current one is hidden: the server's default is taken.
    let r = choose_active_calendar(&Some("/h/".to_string()), &Some("/x/".to_string()), &cals, &strs(&["/h/"]), &vec![], &trash, &local);
    assert_eq!(r, "/x/");
    // The server's default is hidden too: the first usable calendar.
    let r = choose_active_calendar(&Some("/h/".to_string()), &Some("/x/".to_string()), &cals, &strs(&["/h/", "/x/"]), &vec![], &trash, &local);
    assert_eq!(r, "/w/");
    // A disabled calendar is skipped.
    let r = choose_active_calendar(&None, &None, &cals, &vec![], &strs(&["/w/"]), &trash, &local);
    assert_eq!(r, "/h/");
    // Nothing usable: the local calendar.
    let r = choose_active_calendar(&None, &None, &cals, &strs(&["/h/"]), &strs(&["/w/"]), &trash, &local);
    assert_eq!(r, "local://default");
    // A current calendar that is not listed is not kept.
    let r = choose_active_calendar(&Some("/gone/".to_string()), &None, &cals, &vec![], &vec![], &trash, &local);
    assert_eq!(r, "/w/");
}

#[test]
fn default_calendar_by_name_or_href() {
    let cals = vec![cal("Work", "/w/"), cal("Home", "/h/")];
    assert_eq!(default_calendar(&cals, &"Home".to_string()), Some("/h/".to_string()));
    assert_eq!(default_calendar(&cals, &"/w/".to_string()), Some("/w/".to_string()));
    assert_eq!(default_calendar(&cals, &"Other".to_string()), None);
}

#[test]
fn replacing_local_calendars() {
    let cals = vec![cal("L1", "local://a"), cal("Work", "/w/"), cal("L2", "local://b"), cal("Home", "/h/")];
    let edited = vec![cal("L2 renamed", "local://b")];
    let r = replace_local_calendars(&cals, &edited);
    assert_eq!(hrefs(&r), strs(&["/w/", "/h/", "local://b"]));
    assert_eq!(r[2].name, "L2 renamed");
}

#[test]
fn string_sets() {
    let mut v = strs(&["a", "b"]);
    insert_str(&mut v, &"b".to_string());
    assert_eq!(v, strs(&["a", "b"]));
    insert_str(&mut v, &"c".to_string());
    assert_eq!(v, strs(&["a", "b", "c"]));
    remove_str(&mut v, &"a".to_string());
    assert_eq!(v, strs(&["b", "c"]));
    remove_str(&mut v, &"z".to_string());
    assert_eq!(v, strs(&["b", "c"]));
    assert!(contains_str(&v, &"c".to_string()));
    assert!(!contains_str(&v, &"a".to_string()));
}

#[test]
fn visibility_of_the_active_calendar() {
    let mut hidden = strs(&["/h/"]);
    let active = Some("/w/".to_string());
    assert!(!set_calendar_visibility(&mut hidden, &"/w/".to_string(), false, &active));
    assert_eq!(hidden, strs(&["/h/"]));
    assert!(set_calendar_visibility(&mut hidden, &"/x/".to_string(), false, &active));
    assert_eq!(sorted(hidden.clone()), strs(&["/h/", "/x/"]));
    assert!(set_calendar_visibility(&mut hidden, &"/h/".to_string(), true, &active));
    assert_eq!(hidden, strs(&["/x/"]));
}

#[test]
fn isolating_a_calendar() {
    let cals = vec![cal("Work", "/w/"), cal("Home", "/h/"), cal("Trash", "local://trash")];
    let hidden = isolate_calendar(&cals, &"/h/".to_string());
    assert_eq!(sorted(hidden), strs(&["/w/", "local://trash"]));
}

#[test]
fn showing_and_hiding_all() {
    let cals = vec![cal("Work", "/w/"), cal("Home", "/h/")];
    let mut hidden = strs(&["/w/", "/h/"]);
    toggle_all_calendars(&mut hidden, true, &cals, &Some("/w/".to_string()));
    assert_eq!(hidden, strs(&["local://trash"]));
    let mut hidden = strs(&["/w/"]);
    toggle_all_calendars(&mut hidden, true, &cals, &Some("local://trash".to_string()));
    assert!(hidden.is_empty());
    let mut hidden = strs(&["/x/"]);
    toggle_all_calendars(&mut hidden, false, &cals, &Some("/w/".to_string()));
    assert_eq!(sorted(hidden), strs(&["/h/", "/x/"]));
}

#[test]
fn disabling_the_active_calendar_clears_it() {
    let mut disabled = vec![];
    let mut active = Some("/w/".to_string());
    toggle_calendar_disabled(&mut disabled, &mut active, &"/w/".to_string(), true);
    assert_eq!(disabled, strs(&["/w/"]));
    assert_eq!(active, None);
    let mut active = Some("/h/".to_string());
    toggle_calendar_disabled(&mut disabled, &mut active, &"/w/".to_string(), false);
    assert!(disabled.is_empty());
    assert_eq!(active, Some("/h/".to_string()));
}

#[test]
fn adding_a_local_calendar() {
    let mut editing = vec![];
    let mut cals = vec![cal("Work", "/w/")];
    let href = add_local_calendar_with_id(&mut editing, &mut cals, "1234");
    assert_eq!(href, "local://1234");
    assert_eq!(editing.len(), 1);
    assert_eq!(editing[0].name, "New Calendar");
    assert_eq!(editing[0].color, None);
    assert_eq!(hrefs(&cals), strs(&["/w/", "local://1234"]));
    // Already listed: the calendar list is left as it is.
    let href = add_local_calendar_with_id(&mut editing, &mut cals, "1234");
    assert_eq!(href, "local://1234");
    assert_eq!(editing.len(), 2);
    assert_eq!(cals.len(), 2);
}

#[test]
fn adding_a_random_local_calendar() {
    let mut editing = vec![];
    let mut cals = vec![];
    let a = add_local_calendar(&mut editing, &mut cals);
    let b = add_local_calendar(&mut editing, &mut cals);
    assert!(a.starts_with("local://"));
    assert_eq!(a.chars().count(), 44);
    assert_ne!(a, b);
    assert_eq!(cals.len(), 2);
}

#[test]
fn deleting_a_local_calendar() {
    let mut editing = vec![cal("A", "local://a"), cal("B", "local://b")];
    let mut cals = vec![cal("W", "/w/"), cal("A", "local://a"), cal("B", "local://b")];
    let default = "local://default".to_string();
    assert!(!delete_local_calendar(&mut editing, &mut cals, &"local://default".to_string(), &default));
    assert!(!delete_local_calendar(&mut editing, &mut cals, &"/w/".to_string(), &default));
    assert_eq!(cals.len(), 3);
    assert!(delete_local_calendar(&mut editing, &mut cals, &"local://a".to_string(), &default));
    assert_eq!(hrefs(&editing), strs(&["local://b"]));
    assert_eq!(hrefs(&cals), strs(&["/w/", "local://b"]));
}

#[test]
fn renaming_and_recoloring_a_local_calendar() {
    let mut editing = vec![cal("A", "local://a")];
    let mut cals = vec![cal("W", "/w/"), cal("A", "local://a")];
    assert!(rename_local_calendar(&mut editing, &mut cals, &"local://a".to_string(), &"Garden".to_string()));
    assert_eq!(editing[0].name, "Garden");
    assert_eq!(cals[1].name, "Garden");
    assert!(!rename_local_calendar(&mut editing, &mut cals, &"/w/".to_string(), &"X".to_string()));
    assert_eq!(cals[0].name, "W");
    assert!(recolor_local_calendar(&mut editing, &mut cals, &"local://a".to_string(), &"#FF8000".to_string()));
    assert_eq!(editing[0].color, Some("#FF8000".to_string()));
    assert_eq!(cals[1].color, Some("#FF8000".to_string()));
}

#[test]
fn merging_twice_is_merging_once() {
    let mut once = vec![cal("Work", "/w/")];
    let extra = vec![cal("L", "local://a"), cal("W2", "/w/"), cal("L2", "local://b")];
    merge_calendars(&mut once, &extra);
    let mut twice = once.clone();
    merge_calendars(&mut twice, &extra);
    assert_eq!(hrefs(&twice), hrefs(&once));
}

#[test]
fn hide_then_show_gives_back_the_hidden_set() {
    let mut hidden = strs(&["/h/"]);
    let active = Some("/a/".to_string());
    set_calendar_visibility(&mut hidden, &"/w/".to_string(), false, &active);
    set_calendar_visibility(&mut hidden, &"/w/".to_string(), true, &active);
    assert_eq!(hidden, strs(&["/h/"]));
}

#[test]
fn add_then_delete_gives_back_the_lists() {
    let mut editing = vec![cal("A", "local://a")];
    let mut cals = vec![cal("W", "/w/"), cal("A", "local://a")];
    let href = add_local_calendar_with_id(&mut editing, &mut cals, "fresh");
    assert!(delete_local_calendar(&mut editing, &mut cals, &href, &"local://default".to_string()));
    assert_eq!(hrefs(&editing), strs(&["local://a"]));
    assert_eq!(hrefs(&cals), strs(&["/w/", "local://a"]));
}

#[test]
fn the_chosen_calendar_is_not_hidden() {
    let cals = vec![cal("Work", "/w/"), cal("Home", "/h/")];
    let hidden = strs(&["/w/", "/x/"]);
    let r = choose_active_calendar(&Some("/w/".to_string()), &Some("/x/".to_string()), &cals, &hidden, &vec![],
        &"local://trash".to_string(), &"local://default".to_string());
    assert_eq!(r, "/h/");
    assert!(!hidden.contains(&r));
}

#[test]
fn show_all_switch_ignores_special_calendars() {
    let cals = vec![cal("Work", "/w/"), cal("Trash", "local://trash"), cal("Rec", "local://recovery")];
    let trash = "local://trash".to_string();
    assert!(all_calendars_visible(&cals, &strs(&["local://trash", "local://recovery"]), &trash));
    assert!(!all_calendars_visible(&cals, &strs(&["/w/"]), &trash));
    assert!(all_calendars_visible(&vec![], &strs(&["/w/"]), &trash));
}

#[test]
fn where_a_task_can_move() {
    let cals = vec![cal("Work", "/w/"), cal("Home", "/h/"), cal("Off", "/o/"), cal("Trash", "local://trash"),
        cal("Rec", "local://recovery"), cal("Local", "local://default")];
    let t = move_targets(&cals, &"/w/".to_string(), &strs(&["/o/"]), &"local://trash".to_string());
    assert_eq!(hrefs(&t), strs(&["/h/", "local://default"]));
}

#[test]
fn where_local_tasks_can_be_exported() {
    let cals = vec![cal("Work", "/w/"), cal("Off", "/o/"), cal("Local", "local://default")];
    let trash = "local://trash".to_string();
    let disabled = strs(&["/o/"]);
    let t = export_targets(&cals, &Some("local://default".to_string()), &disabled, &trash);
    assert_eq!(hrefs(&t), strs(&["/w/"]));
    assert!(export_targets(&cals, &Some("/w/".to_string()), &disabled, &trash).is_empty());
    assert!(export_targets(&cals, &Some("local://trash".to_string()), &disabled, &trash).is_empty());
    assert!(export_targets(&cals, &None, &disabled, &trash).is_empty());
}

#[test]
fn isolating_sets_the_whole_view() {
    let cals = vec![cal("Work", "/w/"), cal("Home", "/h/")];
    let mut hidden = vec![];
    let mut disabled = strs(&["/h/", "/x/"]);
    let mut active = Some("/w/".to_string());
    let mut focused = Some("u1".to_string());
    let mut mode = SidebarMode::Categories;
    isolate_calendar_state(&cals, &"/h/".to_string(), &mut hidden, &mut disabled, &mut active, &mut focused, &mut mode);
    assert_eq!(hidden, strs(&["/w/"]));
    assert_eq!(disabled, strs(&["/x/"]));
    assert_eq!(active, Some("/h/".to_string()));
    assert_eq!(focused, None);
    assert_eq!(mode, SidebarMode::Calendars);
    let mut mode = SidebarMode::Locations;
    isolate_calendar_state(&cals, &"/w/".to_string(), &mut hidden, &mut disabled, &mut active, &mut focused, &mut mode);
    assert_eq!(mode, SidebarMode::Locations);
}
