use cfait::settings::{
    alias_key, alias_request, color_hex, count_vtodos, export_file_name, numeric_edit,
    parse_alias_tags, parse_unsigned, NumericEdit,
};

fn edit(val: &str, max: u64) -> String {
    match numeric_edit(val, max) {
        NumericEdit::Rejected => "rejected".to_string(),
        NumericEdit::Cleared => "cleared".to_string(),
        NumericEdit::Kept => "kept".to_string(),
        NumericEdit::Number(n) => format!("{n}"),
    }
}

fn chars(s: &str) -> Vec<char> {
    s.chars().collect()
}

#[test]
fn numeric_edits() {
    assert_eq!(edit("", 255), "cleared");
    assert_eq!(edit("12", 255), "12");
    assert_eq!(edit("1a", 255), "rejected");
    assert_eq!(edit(" 1", 255), "rejected");
    assert_eq!(edit("300", 255), "kept");
    assert_eq!(edit("300", u32::MAX as u64), "300");
    assert_eq!(edit("٣", 255), "kept");
    assert_eq!(edit("4294967296", u32::MAX as u64), "kept");
    assert_eq!(edit("007", 255), "7");
}

#[test]
fn parsing_like_str_parse() {
    for s in ["0", "+7", "42", "255", "256", "", "+", "-1", "1 ", "99999999999999999999"] {
        let ours = parse_unsigned(&chars(s), 255);
        let std_u8 = s.parse::<u8>().ok().map(|n| n as u64);
        assert_eq!(ours, std_u8, "{s:?}");
        let ours = parse_unsigned(&chars(s), u32::MAX as u64);
        let std_u32 = s.parse::<u32>().ok().map(|n| n as u64);
        assert_eq!(ours, std_u32, "{s:?}");
    }
}

#[test]
fn alias_tags_are_trimmed_and_non_empty() {
    assert_eq!(parse_alias_tags(" #a , b,, c ,"), vec!["#a", "b", "c"]);
    assert!(parse_alias_tags(" , ,").is_empty());
    assert_eq!(parse_alias_tags("one"), vec!["one"]);
}

#[test]
fn alias_keys() {
    assert_eq!(alias_key("  @@home "), "@@home");
    assert_eq!(alias_key("LOC: office"), "@@office");
    assert_eq!(alias_key("loc:park"), "@@park");
    assert_eq!(alias_key("##garden"), "garden");
    assert_eq!(alias_key("work"), "work");
}

#[test]
fn alias_requests() {
    assert!(alias_request("", "a").is_none());
    assert!(alias_request("k", "").is_none());
    assert!(alias_request("k", " , ").is_none());
    let (k, tags) = alias_request("#fit", "gym, run").unwrap();
    assert_eq!(k, "fit");
    assert_eq!(tags, vec!["gym", "run"]);
}

#[test]
fn color_codes() {
    assert_eq!(color_hex(255, 128, 0), "#FF8000");
    assert_eq!(color_hex(0, 0, 0), "#000000");
    assert_eq!(color_hex(10, 171, 205), "#0AABCD");
}

#[test]
fn counting_todos() {
    assert_eq!(count_vtodos(""), 0);
    assert_eq!(count_vtodos("BEGIN:VCALENDAR\nBEGIN:VTODO\nEND:VTODO\nBEGIN:VTODO\nEND:VTODO\nEND:VCALENDAR"), 2);
    assert_eq!(count_vtodos("BEGIN:VTODOBEGIN:VTODO"), 2);
    let s = "xBEGIN:VTODOyBEGIN:VEVENT";
    assert_eq!(count_vtodos(s), s.split("BEGIN:VTODO").count() - 1);
}

#[test]
fn export_names() {
    assert_eq!(export_file_name("local://default"), "cfait_default.ics");
    assert_eq!(export_file_name("https://example.com/cal/"), "cfait_backup.ics");
}
