use cfait::submit::{creation_calendar, merge_description, is_blank_submission, route_submission, route_without_jump, SubmitRoute};

fn route(text: &str, clean: &str, editing: bool) -> String {
    match route_submission(text, clean, editing) {
        SubmitRoute::DefinitionsOnly => "defs".to_string(),
        SubmitRoute::JumpToTag(t) => format!("tag:{t}"),
        SubmitRoute::JumpToLocation(l) => format!("loc:{l}"),
        SubmitRoute::SaveEdit => "edit".to_string(),
        SubmitRoute::CreateTask => "create".to_string(),
    }
}

#[test]
fn blank_input() {
    assert!(is_blank_submission("  \t "));
    assert!(!is_blank_submission(" a "));
}

#[test]
fn definitions_only() {
    assert_eq!(route("#hiking:=#exercise", "", false), "defs");
    assert_eq!(route("x:=y", "x:=y", false), "defs");
    assert_eq!(route("LOC:home", "LOC:home", false), "defs");
    assert_eq!(route("x:=y", "x:=y", true), "edit");
}

#[test]
fn jumps() {
    assert_eq!(route("#garden", "#garden", false), "tag:garden");
    assert_eq!(route("##", "##", false), "create");
    assert_eq!(route("@@home", "@@home", false), "loc:home");
    assert_eq!(route("@@", "@@", false), "create");
    assert_eq!(route("@@", "@@", true), "edit");
    assert_eq!(route("@@\"my place\"", "@@\"my place\"", false), "create");
    assert_eq!(route("#garden", "#garden", true), "edit");
}

#[test]
fn tasks() {
    assert_eq!(route("Buy tea @tomorrow", "Buy tea @tomorrow", false), "create");
    assert_eq!(route("Buy tea", "Buy tea", true), "edit");
    assert!(matches!(route_without_jump(false), SubmitRoute::CreateTask));
    assert!(matches!(route_without_jump(true), SubmitRoute::SaveEdit));
}

#[test]
fn descriptions_are_joined_by_a_blank_line() {
    assert_eq!(merge_description("", "notes"), "notes");
    assert_eq!(merge_description("old", ""), "old");
    assert_eq!(merge_description("old", "new"), "old\n\nnew");
}

#[test]
fn new_tasks_go_to_the_active_or_first_calendar() {
    let s = |x: &str| Some(x.to_string());
    assert_eq!(creation_calendar(&s("/a/"), &s("/f/")), s("/a/"));
    assert_eq!(creation_calendar(&None, &s("/f/")), s("/f/"));
    assert_eq!(creation_calendar(&None, &None), None);
    assert_eq!(creation_calendar(&s(""), &s("/f/")), None);
}
