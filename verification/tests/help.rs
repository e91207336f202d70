use cfait::help::{
    first_keyword, get_shortcuts_help, get_syntax_help, SHORTCUT_TEXTS, SYNTAX_KEYWORDS, SYNTAX_TEXTS,
};

#[test]
fn first_keyword_of_a_list() {
    assert_eq!(first_keyword("@, due:"), "@");
    assert_eq!(first_keyword("  ^ "), "^");
    assert_eq!(first_keyword(""), "");
    assert_eq!(first_keyword(",x"), "");
}

fn numbered(prefix: &str, n: usize) -> Vec<String> {
    (0..n).map(|i| format!("{prefix}{i}")).collect()
}

#[test]
fn shortcut_sheet() {
    let texts = numbered("t", SHORTCUT_TEXTS);
    let gui = get_shortcuts_help(true, &texts);
    assert_eq!(gui.len(), 4);
    assert_eq!(gui[0].title, "Navigation & general");
    let keys: Vec<&str> = gui[0].items.iter().map(|i| i.keys.as_str()).collect();
    assert_eq!(keys, vec!["?", "Tab", "j / k / Dn / Up", "PgDn / PgUp", "Ctrl + / - / 0", "z", "Shift + r", "Ctrl + ,"]);
    assert_eq!(gui[0].items[0].desc, "t0");
    assert_eq!(gui[0].items[4].example, "t5");
    assert_eq!(gui[0].items[5].desc, "Fold / Unfold Task Tree");
    let tui = get_shortcuts_help(false, &texts);
    let keys: Vec<&str> = tui[0].items.iter().map(|i| i.keys.as_str()).collect();
    assert_eq!(keys, vec!["?", "Tab", "j / k / Dn / Up", "PgDn / PgUp", "z", "Shift + r"]);
    assert_eq!(tui[1].items.len(), 17);
    assert_eq!(tui[1].items[15].keys, "g");
    assert_eq!(tui[1].items[15].desc, format!("{}/ {}", texts[21], texts[22]));
    assert_eq!(tui[2].items.len(), 7);
    assert_eq!(tui[3].items[6].desc, "Toggle Quick Filter (is:ready)");
    for (a, b) in gui[1..].iter().zip(tui[1..].iter()) {
        assert_eq!(a.title, b.title);
        assert_eq!(a.items.len(), b.items.len());
    }
}

#[test]
fn syntax_guide() {
    let mut keywords: Vec<String> = numbered("k", SYNTAX_KEYWORDS).into_iter().map(|k| format!("{k}, other")).collect();
    keywords[0] = "@, due:".to_string();
    let texts = numbered("t", SYNTAX_TEXTS);
    let g = get_syntax_help(&keywords, &texts);
    assert_eq!(g.len(), 9);
    assert_eq!(g[0].items.len(), 9);
    assert_eq!(g[0].items[0].keys, "!1..9");
    assert_eq!(g[0].items[0].example, "t2 !1");
    assert_eq!(g[0].items[1].keys, "@date");
    assert_eq!(g[0].items[1].example, "t4 @k1, @2025-01-01");
    assert_eq!(g[0].items[4].keys, "#tag");
    assert_eq!(g[0].items[5].keys, "#tag{a,b}");
    assert_eq!(g[0].items[5].example, "#gaming{solo,genre=rpg}");
    assert_eq!(g[8].items[4].example, "");
    assert!(g[8].title.ends_with(" (inside \u{f01c6})"));
    assert_eq!(g[6].items[2].keys, "\\#text");
    let sizes: Vec<usize> = g.iter().map(|s| s.items.len()).collect();
    assert_eq!(sizes, vec![9, 5, 5, 3, 7, 6, 8, 4, 5]);
}
