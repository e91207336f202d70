use cfait::inline::{inline_spans, parse_inline_markdown, InlineKind, InlineSpan};

fn texts(s: &str) -> Vec<(InlineKind, String, String)> {
    let chars: Vec<char> = s.chars().collect();
    inline_spans(s)
        .into_iter()
        .map(|sp: InlineSpan| {
            (
                sp.kind,
                chars[sp.text_start..sp.text_end].iter().collect(),
                chars[sp.target_start..sp.target_end].iter().collect(),
            )
        })
        .collect()
}

fn plain(s: &str) -> (InlineKind, String, String) {
    (InlineKind::Plain, s.to_string(), s.to_string())
}

fn k(kind: InlineKind, s: &str) -> (InlineKind, String, String) {
    (kind, s.to_string(), s.to_string())
}

#[test]
fn plain_text_is_one_span() {
    assert_eq!(texts("just words"), vec![plain("just words")]);
    assert_eq!(texts(""), vec![plain("")]);
}

#[test]
fn emphasis_and_code() {
    assert_eq!(
        texts("a **b** c *d* `e` ~~f~~"),
        vec![
            plain("a "),
            k(InlineKind::Bold, "b"),
            plain(" c "),
            k(InlineKind::Italic, "d"),
            plain(" "),
            k(InlineKind::Code, "e"),
            plain(" "),
            k(InlineKind::Strike, "f"),
        ]
    );
    assert_eq!(texts("__x__"), vec![k(InlineKind::Bold, "x")]);
    assert_eq!(texts("_y_ z"), vec![k(InlineKind::Italic, "y"), plain(" z")]);
}

#[test]
fn earlier_pair_wins_a_tie() {
    assert_eq!(texts("**a*"), vec![k(InlineKind::Italic, ""), plain("a*")]);
}

#[test]
fn wiki_links() {
    assert_eq!(texts("see [[Page]]"), vec![plain("see "), k(InlineKind::WikiLink, "Page")]);
    assert_eq!(
        texts("[[Target|shown]]"),
        vec![(InlineKind::WikiLink, "shown".to_string(), "Target".to_string())]
    );
}

#[test]
fn markdown_links_and_urls() {
    assert_eq!(
        texts("go [site](https://x.org) now"),
        vec![
            plain("go "),
            (InlineKind::Link, "site".to_string(), "https://x.org".to_string()),
            plain(" now"),
        ]
    );
    assert_eq!(
        texts("at https://a.b/c) end"),
        vec![plain("at "), k(InlineKind::Url, "https://a.b/c"), plain(") end")]
    );
    assert_eq!(texts("http://q.r"), vec![k(InlineKind::Url, "http://q.r")]);
    assert_eq!(texts("[no link"), vec![plain("[no link")]);
}

#[test]
fn unicode_positions_are_characters() {
    assert_eq!(texts("é **ü**"), vec![plain("é "), k(InlineKind::Bold, "ü")]);
}

#[test]
fn struck_through_spans() {
    let r = parse_inline_markdown("plain words", true);
    assert_eq!(r.len(), 1);
    assert!(r[0].struck);
    let r = parse_inline_markdown("plain words", false);
    assert_eq!(r.len(), 1);
    assert!(!r[0].struck);
    let r = parse_inline_markdown("a ~~gone~~ **b**", false);
    let flags: Vec<(InlineKind, bool)> = r.iter().map(|s| (s.span.kind, s.struck)).collect();
    assert_eq!(flags, vec![(InlineKind::Plain, false), (InlineKind::Strike, true), (InlineKind::Plain, false), (InlineKind::Bold, false)]);
    let r = parse_inline_markdown("a ~~gone~~ **b**", true);
    assert!(r.iter().all(|s| s.struck));
    assert_eq!(parse_inline_markdown("", true).len(), 1);
}
