use cfait::filters::{toggle_details, toggle_expanded, toggle_quick_filter, toggle_selection};

fn strs(v: &[&str]) -> Vec<String> {
    v.iter().map(|s| s.to_string()).collect()
}

#[test]
fn toggling_a_selection() {
    let mut sel = strs(&["a", "b"]);
    toggle_selection(&mut sel, &"c".to_string());
    assert_eq!(sel, strs(&["a", "b", "c"]));
    toggle_selection(&mut sel, &"a".to_string());
    assert_eq!(sel, strs(&["b", "c"]));
    toggle_selection(&mut sel, &"a".to_string());
    toggle_selection(&mut sel, &"a".to_string());
    assert_eq!(sel, strs(&["b", "c"]));
}

#[test]
fn toggling_details() {
    let mut expanded = strs(&["u1"]);
    toggle_expanded(&mut expanded, &"u2".to_string());
    assert_eq!(expanded, strs(&["u1", "u2"]));
    toggle_expanded(&mut expanded, &"u1".to_string());
    assert_eq!(expanded, strs(&["u2"]));
}

#[test]
fn quick_filter() {
    assert_eq!(toggle_quick_filter("", "#today"), "#today");
    assert_eq!(toggle_quick_filter("garden", "#today"), "#today garden");
    assert_eq!(toggle_quick_filter("#today garden", "#today"), "garden");
    assert_eq!(toggle_quick_filter("a #today b #today", "#today"), "a  b");
    let once = toggle_quick_filter("garden", "#today");
    assert_eq!(toggle_quick_filter(&once, "#today"), "garden");
}

#[test]
fn quick_filter_matches_str_replace() {
    for (cur, term) in [("xx #t yy #t", "#t"), ("#t#t#t", "#t"), (" aaa ", "aa"), ("abc", "")] {
        let expected = if cur.contains(term) {
            cur.replace(term, "").trim().to_string()
        } else if cur.is_empty() {
            term.to_string()
        } else {
            format!("{} {}", term, cur)
        };
        assert_eq!(toggle_quick_filter(cur, term), expected);
    }
}

#[test]
fn toggling_twice_gives_back_the_selection() {
    let mut sel = strs(&["a", "b"]);
    toggle_selection(&mut sel, &"c".to_string());
    toggle_selection(&mut sel, &"c".to_string());
    assert_eq!(sel, strs(&["a", "b"]));
    let mut expanded = strs(&["u1"]);
    toggle_expanded(&mut expanded, &"u1".to_string());
    toggle_expanded(&mut expanded, &"u1".to_string());
    assert_eq!(expanded, strs(&["u1"]));
}

#[test]
fn quick_filter_on_then_off() {
    for cur in ["", "garden", "buy milk"] {
        let on = toggle_quick_filter(cur, "#today");
        assert_eq!(toggle_quick_filter(&on, "#today"), cur);
    }
}

#[test]
fn toggling_details_selects_the_task() {
    let mut expanded = strs(&["u1"]);
    let mut selected = Some("u9".to_string());
    toggle_details(&mut expanded, &mut selected, &"u2".to_string());
    assert_eq!(expanded, strs(&["u1", "u2"]));
    assert_eq!(selected, Some("u2".to_string()));
}
