use cfait::highlight::{
    classify_session_word, random_session_example, session_example_at, LineKind, LineSpan, MarkdownHighlighter, SessionHighlighter, SmartInputHighlighter, SpanRole,
    WordClass, WordSpan,
};

fn md(line: &str) -> (LineKind, Vec<LineSpan>, Option<usize>) {
    let r = MarkdownHighlighter::new(true).highlight_line(line);
    (r.kind, r.spans, r.rest_start)
}

fn span(start: usize, end: usize, role: SpanRole) -> LineSpan {
    LineSpan { start, end, role }
}

#[test]
fn headers_and_quotes() {
    assert_eq!(md("## Title"), (LineKind::Header, vec![span(0, 3, SpanRole::BlockMarker)], Some(3)));
    assert_eq!(
        md("  > quoted"),
        (LineKind::Quote, vec![span(0, 2, SpanRole::Indent), span(2, 4, SpanRole::BlockMarker)], Some(4))
    );
    assert_eq!(md("####### seven"), (LineKind::Plain, vec![], Some(0)));
}

#[test]
fn list_markers_and_checkboxes() {
    assert_eq!(
        md("- [x] done"),
        (LineKind::Plain, vec![span(0, 2, SpanRole::ListMarker), span(2, 6, SpanRole::Checkbox)], Some(6))
    );
    assert_eq!(md("12. item"), (LineKind::Plain, vec![span(0, 4, SpanRole::ListMarker)], Some(4)));
    assert_eq!(md("12.item"), (LineKind::Plain, vec![], Some(0)));
    assert_eq!(md("* [?] odd"), (LineKind::Plain, vec![span(0, 2, SpanRole::ListMarker)], Some(2)));
    assert_eq!(md("- [ ] "), (LineKind::Plain, vec![span(0, 2, SpanRole::ListMarker), span(2, 6, SpanRole::Checkbox)], None));
}

#[test]
fn tables_and_code_fences() {
    assert_eq!(md("| a | b |"), (LineKind::Table, vec![], Some(0)));
    assert_eq!(md("|alone"), (LineKind::Plain, vec![], Some(0)));
    assert_eq!(md("```rust"), (LineKind::CodeFence, vec![span(0, 7, SpanRole::BlockMarker)], None));
    assert_eq!(md(""), (LineKind::Plain, vec![], None));
}

#[test]
fn positions_are_byte_offsets() {
    assert_eq!(
        md("\u{3000}- item"),
        (LineKind::Plain, vec![span(0, 3, SpanRole::Indent), span(3, 5, SpanRole::ListMarker)], Some(5))
    );
    assert_eq!(md("```é"), (LineKind::CodeFence, vec![span(0, 5, SpanRole::BlockMarker)], None));
    assert_eq!(md("# café"), (LineKind::Header, vec![span(0, 2, SpanRole::BlockMarker)], Some(2)));
    let line = "é 1h ☕";
    let r = SessionHighlighter::new(true).highlight_line(line);
    assert_eq!(
        r,
        vec![
            WordSpan { start: 0, end: 2, is_word: true },
            WordSpan { start: 2, end: 3, is_word: false },
            WordSpan { start: 3, end: 5, is_word: true },
            WordSpan { start: 5, end: 6, is_word: false },
            WordSpan { start: 6, end: 9, is_word: true },
        ]
    );
    assert_eq!(r.last().unwrap().end, line.len());
    assert_eq!(&line[r[2].start..r[2].end], "1h");
}

#[test]
fn session_words_and_gaps() {
    let h = SessionHighlighter::new(false);
    let r = h.highlight_line("  30m  14:00-15:30 x");
    assert_eq!(
        r,
        vec![
            WordSpan { start: 0, end: 2, is_word: false },
            WordSpan { start: 2, end: 5, is_word: true },
            WordSpan { start: 5, end: 7, is_word: false },
            WordSpan { start: 7, end: 18, is_word: true },
            WordSpan { start: 18, end: 19, is_word: false },
            WordSpan { start: 19, end: 20, is_word: true },
        ]
    );
    assert!(h.highlight_line("").is_empty());
}

#[test]
fn session_word_classes() {
    assert_eq!(classify_session_word("30m", true, true), WordClass::Duration);
    assert_eq!(classify_session_word("monday", false, true), WordClass::Date);
    assert_eq!(classify_session_word("14:00", false, false), WordClass::Time);
    assert_eq!(classify_session_word("14:00-15:30", false, false), WordClass::Time);
    assert_eq!(classify_session_word("1:00pm", false, false), WordClass::Plain);
    assert_eq!(classify_session_word("work", false, false), WordClass::Plain);
}

#[test]
fn highlighter_settings() {
    let mut m = MarkdownHighlighter::default();
    assert!(m.is_dark);
    m.update(false);
    assert!(!m.is_dark);
    assert_eq!(m.current_line(), 0);
    let mut s = SmartInputHighlighter::default();
    assert!(s.is_dark && !s.is_search);
    s.update(false, true);
    assert!(!s.is_dark && s.is_search);
    s.change_line(4);
    assert_eq!(s.current_line(), 0);
    assert!(SessionHighlighter::default().is_dark);
}

#[test]
fn session_examples() {
    let all = ["30m", "1h", "2h", "6h", "14:00-15:30", "09:00-10:15"];
    for (k, e) in all.iter().enumerate() {
        assert_eq!(session_example_at(k), *e);
    }
    for _ in 0..20 {
        let r = random_session_example();
        assert!(all.contains(&r.as_str()));
    }
}
