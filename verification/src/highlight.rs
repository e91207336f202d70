//! Line structure for the editors' highlighters: Markdown block markers and checkboxes,
//! and the word/gap segmentation of the session editor. The highlighters hand the editor
//! UTF-8 byte offsets into the line; the structure is found over its characters.

use vstd::prelude::*;
use vstd::string::*;
use crate::text::{spec_is_whitespace, is_whitespace, spec_starts_with, chars_of, byte_offset, byte_offsets, lemma_byte_offset_mono};

verus! {

/// The block kind of a Markdown line.
#[derive(PartialEq, Eq, Structural, Clone, Copy, Debug)]
pub enum LineKind {
    Plain,
    Header,
    Quote,
    Table,
    CodeFence,
}

/// Where the parts of a Markdown line end: leading indentation, block marker (`# `, `> `,
/// `- `, `1. `, or a whole code fence line), and a task checkbox (`[ ] `, `[x] `, ...).
#[derive(PartialEq, Eq, Structural, Clone, Copy, Debug)]
pub struct LineStructure {
    pub indent: usize,
    pub marker_end: usize,
    pub checkbox_end: usize,
    pub kind: LineKind,
}

/// The role of a highlighted span.
#[derive(PartialEq, Eq, Structural, Clone, Copy, Debug)]
pub enum SpanRole {
    /// Leading indentation, unstyled.
    Indent,
    /// A header, quote or code fence marker, styled like the rest of its block.
    BlockMarker,
    /// A list bullet or number.
    ListMarker,
    /// A task checkbox.
    Checkbox,
}

/// A highlighted span `[start, end)` of a line.
#[derive(PartialEq, Eq, Structural, Clone, Copy, Debug)]
pub struct LineSpan {
    pub start: usize,
    pub end: usize,
    pub role: SpanRole,
}

/// The highlighted structure of a Markdown line: the marker spans, and where the inline
/// text starts if anything is left after them.
pub struct MarkdownLine {
    pub kind: LineKind,
    pub spans: Vec<LineSpan>,
    pub rest_start: Option<usize>,
}

/// Number of leading whitespace characters.
pub open spec fn leading_ws(s: Seq<char>) -> nat
    decreases s.len(),
{
    if s.len() == 0 || !spec_is_whitespace(s[0]) {
        0
    } else {
        1 + leading_ws(s.drop_first())
    }
}

/// Number of leading ASCII digits.
pub open spec fn leading_digits(s: Seq<char>) -> nat
    decreases s.len(),
{
    if s.len() == 0 || !('0' <= s[0] && s[0] <= '9') {
        0
    } else {
        1 + leading_digits(s.drop_first())
    }
}

/// `s` holds character `c`.
pub open spec fn has_char(s: Seq<char>, c: char) -> bool {
    exists|i: int| 0 <= i < s.len() && s[i] == c
}

/// The checkbox texts that a list marker may be followed by.
pub open spec fn is_checkbox_at(s: Seq<char>, at: int) -> bool {
    &&& 0 <= at
    &&& at + 4 <= s.len()
    &&& s[at] == '['
    &&& s[at + 2] == ']'
    &&& s[at + 3] == ' '
    &&& {
        let c = s[at + 1];
        c == ' ' || c == 'x' || c == 'X' || c == '/' || c == '-' || c == '<' || c == '>' || c == '*' || c == '~'
    }
}

/// The block kind and marker end of a line, given its indentation.
pub open spec fn block_marker(line: Seq<char>, indent: int) -> (LineKind, int) {
    let t = line.subrange(indent, line.len() as int);
    if spec_starts_with(t, seq!['`', '`', '`']) {
        (LineKind::CodeFence, line.len() as int)
    } else if spec_starts_with(t, seq!['#', ' ']) {
        (LineKind::Header, indent + 2)
    } else if spec_starts_with(t, seq!['#', '#', ' ']) {
        (LineKind::Header, indent + 3)
    } else if spec_starts_with(t, seq!['#', '#', '#', ' ']) {
        (LineKind::Header, indent + 4)
    } else if spec_starts_with(t, seq!['#', '#', '#', '#', ' ']) {
        (LineKind::Header, indent + 5)
    } else if spec_starts_with(t, seq!['#', '#', '#', '#', '#', ' ']) {
        (LineKind::Header, indent + 6)
    } else if spec_starts_with(t, seq!['#', '#', '#', '#', '#', '#', ' ']) {
        (LineKind::Header, indent + 7)
    } else if spec_starts_with(t, seq!['>', ' ']) {
        (LineKind::Quote, indent + 2)
    } else if t.len() > 0 && t[0] == '|' && has_char(t.drop_first(), '|') {
        (LineKind::Table, indent)
    } else if spec_starts_with(t, seq!['-', ' ']) || spec_starts_with(t, seq!['*', ' '])
        || spec_starts_with(t, seq!['+', ' ']) {
        (LineKind::Plain, indent + 2)
    } else {
        let d = leading_digits(t) as int;
        if d > 0 && spec_starts_with(t.subrange(d, t.len() as int), seq!['.', ' ']) {
            (LineKind::Plain, indent + d + 2)
        } else {
            (LineKind::Plain, indent)
        }
    }
}

/// The structure of a Markdown line.
pub open spec fn spec_line_structure(line: Seq<char>) -> LineStructure {
    let indent = leading_ws(line) as int;
    let (kind, marker_end) = block_marker(line, indent);
    let checkbox_end = if marker_end > indent && marker_end < line.len() && is_checkbox_at(line, marker_end) {
        marker_end + 4
    } else {
        marker_end
    };
    LineStructure {
        indent: indent as usize,
        marker_end: marker_end as usize,
        checkbox_end: checkbox_end as usize,
        kind,
    }
}

/// The spans of a line's structure: indentation, marker, checkbox, each when not empty.
pub open spec fn structure_spans(s: LineStructure) -> Seq<LineSpan> {
    let a = if s.indent > 0 {
        seq![LineSpan { start: 0, end: s.indent, role: SpanRole::Indent }]
    } else {
        Seq::empty()
    };
    let marker_role = match s.kind {
        LineKind::Header | LineKind::Quote | LineKind::CodeFence => SpanRole::BlockMarker,
        _ => SpanRole::ListMarker,
    };
    let b = if s.marker_end > s.indent {
        seq![LineSpan { start: s.indent, end: s.marker_end, role: marker_role }]
    } else {
        Seq::empty()
    };
    let c = if s.checkbox_end > s.marker_end {
        seq![LineSpan { start: s.marker_end, end: s.checkbox_end, role: SpanRole::Checkbox }]
    } else {
        Seq::empty()
    };
    a + b + c
}

proof fn lemma_leading_ws_le(s: Seq<char>)
    ensures
        leading_ws(s) <= s.len(),
    decreases s.len(),
{
    if s.len() > 0 {
        lemma_leading_ws_le(s.drop_first());
    }
}

proof fn lemma_leading_ws_step(s: Seq<char>, i: int)
    requires
        0 <= i <= s.len(),
        forall|k: int| 0 <= k < i ==> spec_is_whitespace(#[trigger] s[k]),
    ensures
        leading_ws(s) == i + leading_ws(s.subrange(i, s.len() as int)),
    decreases i,
{
    if i > 0 {
        let t = s.drop_first();
        assert forall|k: int| 0 <= k < i - 1 implies spec_is_whitespace(#[trigger] t[k]) by {
            assert(t[k] == s[k + 1]);
        }
        lemma_leading_ws_step(t, i - 1);
        assert(t.subrange(i - 1, t.len() as int) == s.subrange(i, s.len() as int));
    } else {
        assert(s.subrange(0, s.len() as int) == s);
    }
}

proof fn lemma_leading_digits_step(s: Seq<char>, i: int)
    requires
        0 <= i <= s.len(),
        forall|k: int| 0 <= k < i ==> '0' <= #[trigger] s[k] && s[k] <= '9',
    ensures
        leading_digits(s) == i + leading_digits(s.subrange(i, s.len() as int)),
    decreases i,
{
    if i > 0 {
        let t = s.drop_first();
        assert forall|k: int| 0 <= k < i - 1 implies '0' <= #[trigger] t[k] && t[k] <= '9' by {
            assert(t[k] == s[k + 1]);
        }
        lemma_leading_digits_step(t, i - 1);
        assert(t.subrange(i - 1, t.len() as int) == s.subrange(i, s.len() as int));
    } else {
        assert(s.subrange(0, s.len() as int) == s);
    }
}

/// Whether `line[at..]` begins with `p`.
fn starts_with_at(line: &Vec<char>, at: usize, p: &[char]) -> (r: bool)
    requires
        at <= line@.len(),
    ensures
        r == spec_starts_with(line@.subrange(at as int, line@.len() as int), p@),
{
    let ghost t = line@.subrange(at as int, line@.len() as int);
    if p.len() > line.len() - at {
        return false;
    }
    let n = line.len();
    let mut i: usize = 0;
    while i < p.len()
        invariant
            n == line@.len(),
            at <= line@.len(),
            at + p@.len() <= line@.len(),
            p@.len() <= t.len(),
            t == line@.subrange(at as int, line@.len() as int),
            i <= p@.len(),
            t.subrange(0, i as int) == p@.subrange(0, i as int),
        decreases p@.len() - i,
    {
        let k: usize = at + i;
        if line[k] != p[i] {
            assert(t.subrange(0, p@.len() as int)[i as int] != p@[i as int]);
            return false;
        }
        assert(t.subrange(0, i + 1) == t.subrange(0, i as int).push(t[i as int]));
        assert(p@.subrange(0, i + 1) == p@.subrange(0, i as int).push(p@[i as int]));
        i = i + 1;
    }
    assert(p@.subrange(0, p@.len() as int) == p@);
    true
}

fn has_char_from(line: &Vec<char>, from: usize, c: char) -> (r: bool)
    requires
        from <= line@.len(),
    ensures
        r == has_char(line@.subrange(from as int, line@.len() as int), c),
{
    let ghost t = line@.subrange(from as int, line@.len() as int);
    let mut i = from;
    while i < line.len()
        invariant
            from <= i <= line@.len(),
            t == line@.subrange(from as int, line@.len() as int),
            forall|k: int| from <= k < i ==> line@[k] != c,
        decreases line@.len() - i,
    {
        if line[i] == c {
            assert(t[i - from] == c);
            return true;
        }
        i = i + 1;
    }
    assert forall|k: int| 0 <= k < t.len() implies t[k] != c by {
        assert(t[k] == line@[k + from]);
    }
    false
}

/// Compute the structure of a Markdown line.
pub(crate) fn line_structure(line: &Vec<char>) -> (s: LineStructure)
    ensures
        s == spec_line_structure(line@),
        s.indent <= s.marker_end <= s.checkbox_end <= line@.len(),
{
    let n = line.len();
    let mut indent: usize = 0;
    while indent < n && is_whitespace(line[indent])
        invariant
            indent <= n,
            n == line@.len(),
            forall|k: int| 0 <= k < indent ==> spec_is_whitespace(#[trigger] line@[k]),
        decreases n - indent,
    {
        indent = indent + 1;
    }
    proof {
        lemma_leading_ws_step(line@, indent as int);
        let rest = line@.subrange(indent as int, n as int);
        if indent < n {
            assert(rest[0] == line@[indent as int]);
        }
        assert(leading_ws(rest) == 0);
    }
    let ghost t = line@.subrange(indent as int, n as int);
    let mut kind = LineKind::Plain;
    let mut marker_end = indent;
    if starts_with_at(line, indent, &['`', '`', '`']) {
        kind = LineKind::CodeFence;
        marker_end = n;
    } else if starts_with_at(line, indent, &['#', ' ']) {
        kind = LineKind::Header;
        marker_end = indent + 2;
    } else if starts_with_at(line, indent, &['#', '#', ' ']) {
        kind = LineKind::Header;
        marker_end = indent + 3;
    } else if starts_with_at(line, indent, &['#', '#', '#', ' ']) {
        kind = LineKind::Header;
        marker_end = indent + 4;
    } else if starts_with_at(line, indent, &['#', '#', '#', '#', ' ']) {
        kind = LineKind::Header;
        marker_end = indent + 5;
    } else if starts_with_at(line, indent, &['#', '#', '#', '#', '#', ' ']) {
        kind = LineKind::Header;
        marker_end = indent + 6;
    } else if starts_with_at(line, indent, &['#', '#', '#', '#', '#', '#', ' ']) {
        kind = LineKind::Header;
        marker_end = indent + 7;
    } else if starts_with_at(line, indent, &['>', ' ']) {
        kind = LineKind::Quote;
        marker_end = indent + 2;
    } else if indent < n && line[indent] == '|' && has_char_from(line, indent + 1, '|') {
        proof {
            assert(t.drop_first() == line@.subrange(indent + 1, n as int));
        }
        kind = LineKind::Table;
    } else if starts_with_at(line, indent, &['-', ' ']) || starts_with_at(line, indent, &['*', ' '])
        || starts_with_at(line, indent, &['+', ' ']) {
        marker_end = indent + 2;
    } else {
        proof {
            if indent < n && line@[indent as int] == '|' {
                assert(t.drop_first() == line@.subrange(indent + 1, n as int));
            }
        }
        let mut d: usize = 0;
        while indent + d < n && '0' <= line[indent + d] && line[indent + d] <= '9'
            invariant
                indent + d <= n,
                n == line@.len(),
                t == line@.subrange(indent as int, n as int),
                forall|k: int| 0 <= k < d ==> '0' <= #[trigger] t[k] && t[k] <= '9',
            decreases n - indent - d,
        {
            d = d + 1;
        }
        proof {
            lemma_leading_digits_step(t, d as int);
            let r = t.subrange(d as int, t.len() as int);
            if indent + d < n {
                assert(r[0] == line@[indent + d]);
            }
            assert(leading_digits(r) == 0);
            assert(t.subrange(d as int, t.len() as int) == line@.subrange(indent + d, n as int));
        }
        if d > 0 && starts_with_at(line, indent + d, &['.', ' ']) {
            marker_end = indent + d + 2;
        }
    }
    assert((kind, marker_end as int) == block_marker(line@, indent as int));
    let mut checkbox_end = marker_end;
    if marker_end > indent && marker_end < n && n - marker_end >= 4 {
        let c = line[marker_end + 1];
        if line[marker_end] == '[' && line[marker_end + 2] == ']' && line[marker_end + 3] == ' '
            && (c == ' ' || c == 'x' || c == 'X' || c == '/' || c == '-' || c == '<' || c == '>' || c == '*'
            || c == '~') {
            checkbox_end = marker_end + 4;
        }
    }
    LineStructure { indent, marker_end, checkbox_end, kind }
}

/// The spans for a line structure: indentation, marker, checkbox, each when not empty.
pub(crate) fn spans_of_structure(s: LineStructure) -> (r: Vec<LineSpan>)
    ensures
        r@ == structure_spans(s),
{
    let mut r: Vec<LineSpan> = Vec::new();
    if s.indent > 0 {
        r.push(LineSpan { start: 0, end: s.indent, role: SpanRole::Indent });
    }
    if s.marker_end > s.indent {
        let role = match s.kind {
            LineKind::Header | LineKind::Quote | LineKind::CodeFence => SpanRole::BlockMarker,
            _ => SpanRole::ListMarker,
        };
        r.push(LineSpan { start: s.indent, end: s.marker_end, role });
    }
    if s.checkbox_end > s.marker_end {
        r.push(LineSpan { start: s.marker_end, end: s.checkbox_end, role: SpanRole::Checkbox });
    }
    assert(r@ =~= structure_spans(s));
    r
}

/// A line whose text, after its indentation, starts with one to six `#` and a space is a
/// header: its marker span (a block marker) covers exactly the hashes and the space, after
/// the indentation's own span when there is indentation.
pub proof fn hashes_and_space_make_a_header(line: Seq<char>, w: int, n: int)
    requires
        line.len() <= usize::MAX,
        1 <= n <= 6,
        0 <= w,
        w + n + 1 <= line.len(),
        forall|k: int| 0 <= k < w ==> spec_is_whitespace(#[trigger] line[k]),
        forall|k: int| w <= k < w + n ==> #[trigger] line[k] == '#',
        line[w + n] == ' ',
    ensures
        spec_line_structure(line).kind == LineKind::Header,
        spec_line_structure(line).indent == w,
        spec_line_structure(line).marker_end == w + n + 1,
        ({
            let spans = structure_spans(spec_line_structure(line));
            let m = if w > 0 { 1int } else { 0int };
            &&& spans.len() > m
            &&& w > 0 ==> spans[0] == LineSpan { start: 0, end: w as usize, role: SpanRole::Indent }
            &&& spans[m] == LineSpan { start: w as usize, end: (w + n + 1) as usize, role: SpanRole::BlockMarker }
        }),
{
    lemma_leading_ws_step(line, w);
    let t = line.subrange(w, line.len() as int);
    assert(t[0] == line[w]);
    assert(leading_ws(t) == 0);
    assert forall|k: int| 0 <= k < n implies #[trigger] t[k] == '#' by {
        assert(t[k] == line[w + k]);
    }
    assert(t[n] == line[w + n]);
    if n == 1 {
        assert(t.subrange(0, 2) =~= seq!['#', ' ']);
    } else if n == 2 {
        assert(t.subrange(0, 3) =~= seq!['#', '#', ' ']);
    } else if n == 3 {
        assert(t.subrange(0, 4) =~= seq!['#', '#', '#', ' ']);
    } else if n == 4 {
        assert(t.subrange(0, 5) =~= seq!['#', '#', '#', '#', ' ']);
    } else if n == 5 {
        assert(t.subrange(0, 6) =~= seq!['#', '#', '#', '#', '#', ' ']);
    } else {
        assert(t.subrange(0, 7) =~= seq!['#', '#', '#', '#', '#', '#', ' ']);
    }
}

/// A line whose text after the indentation starts with `- `, `* ` or `+ ` is a list item
/// whose list marker covers the bullet and the space, and a checkbox (`[ ] `, `[x] `, ...)
/// right after it is marked as one; a line that starts with `> ` is a quote whose block
/// marker covers the `>` and the space.
pub proof fn bullets_and_quotes(line: Seq<char>, w: int)
    requires
        line.len() <= usize::MAX,
        0 <= w,
        w + 2 <= line.len(),
        forall|k: int| 0 <= k < w ==> spec_is_whitespace(#[trigger] line[k]),
        line[w + 1] == ' ',
    ensures
        (line[w] == '-' || line[w] == '*' || line[w] == '+') ==> {
            let s = spec_line_structure(line);
            &&& s.kind == LineKind::Plain
            &&& s.indent == w
            &&& s.marker_end == w + 2
            &&& s.checkbox_end == if is_checkbox_at(line, w + 2) { w + 6 } else { w + 2 }
            &&& structure_spans(s).contains(LineSpan { start: w as usize, end: (w + 2) as usize, role: SpanRole::ListMarker })
            &&& is_checkbox_at(line, w + 2) ==> structure_spans(s).contains(
                LineSpan { start: (w + 2) as usize, end: (w + 6) as usize, role: SpanRole::Checkbox })
        },
        line[w] == '>' ==> {
            let s = spec_line_structure(line);
            &&& s.kind == LineKind::Quote
            &&& s.indent == w
            &&& s.marker_end == w + 2
            &&& structure_spans(s).contains(LineSpan { start: w as usize, end: (w + 2) as usize, role: SpanRole::BlockMarker })
        },
{
    lemma_leading_ws_step(line, w);
    let t = line.subrange(w, line.len() as int);
    assert(t[0] == line[w]);
    assert(t[1] == line[w + 1]);
    if line[w] == '-' || line[w] == '*' || line[w] == '+' || line[w] == '>' {
        assert(leading_ws(t) == 0);
        assert(t.subrange(0, 2) =~= seq![line[w], ' ']);
        let s = spec_line_structure(line);
        let spans = structure_spans(s);
        let m: int = if w > 0 { 1 } else { 0 };
        assert(spans[m].start == w && spans[m].end == w + 2);
        if is_checkbox_at(line, w + 2) && line[w] != '>' {
            assert(spans[m + 1].start == w + 2);
        }
    }
}

/// `line` holds, from position `w`, `n` (one to six) `#` and a space.
pub open spec fn hash_marker(line: Seq<char>, w: int, n: int) -> bool {
    &&& 1 <= n <= 6
    &&& 0 <= w
    &&& w + n + 1 <= line.len()
    &&& forall|k: int| w <= k < w + n ==> #[trigger] line[k] == '#'
    &&& line[w + n] == ' '
}

/// A line is a header only when its text after the indentation starts with one to six
/// `#` and a space, and its marker then ends right after that space.
pub proof fn headers_are_hashes_and_space(line: Seq<char>)
    requires
        line.len() <= usize::MAX,
    ensures
        spec_line_structure(line).kind == LineKind::Header ==> exists|n: int|
            #[trigger] hash_marker(line, spec_line_structure(line).indent as int, n)
            && spec_line_structure(line).marker_end == spec_line_structure(line).indent + n + 1,
{
    let w = leading_ws(line) as int;
    lemma_leading_ws_le(line);
    let t = line.subrange(w, line.len() as int);
    if spec_line_structure(line).kind == LineKind::Header {
        assert(spec_line_structure(line).indent as int == w);
        assert(block_marker(line, w).0 == LineKind::Header);
        let n: int = if spec_starts_with(t, seq!['#', ' ']) {
            1
        } else if spec_starts_with(t, seq!['#', '#', ' ']) {
            2
        } else if spec_starts_with(t, seq!['#', '#', '#', ' ']) {
            3
        } else if spec_starts_with(t, seq!['#', '#', '#', '#', ' ']) {
            4
        } else if spec_starts_with(t, seq!['#', '#', '#', '#', '#', ' ']) {
            5
        } else {
            6
        };
        assert(t.subrange(0, n + 1)[n] == ' ');
        assert forall|k: int| w <= k < w + n implies #[trigger] line[k] == '#' by {
            assert(t.subrange(0, n + 1)[k - w] == '#');
            assert(line[k] == t[k - w]);
        }
        assert(line[w + n] == t[n]);
        assert(hash_marker(line, w, n));
        assert(spec_line_structure(line).marker_end == w + n + 1);
    }
}

/// A span of character positions of `line`, as UTF-8 byte offsets.
pub open spec fn span_bytes(line: Seq<char>, sp: LineSpan) -> LineSpan {
    LineSpan {
        start: byte_offset(line, sp.start as int) as usize,
        end: byte_offset(line, sp.end as int) as usize,
        role: sp.role,
    }
}

/// Highlighting for the Markdown notes editor.
pub struct MarkdownHighlighter {
    pub is_dark: bool,
}

impl MarkdownHighlighter {
    /// A highlighter for a dark (`true`) or light theme.
    pub fn new(is_dark: bool) -> (h: MarkdownHighlighter)
        ensures
            h.is_dark == is_dark,
    {
        MarkdownHighlighter { is_dark }
    }

    /// Switch theme.
    pub fn update(&mut self, is_dark: bool)
        ensures
            final(self).is_dark == is_dark,
    {
        self.is_dark = is_dark;
    }

    /// Lines are highlighted independently: there is no line state to move.
    pub fn change_line(&mut self, line: usize)
        ensures
            *final(self) == *old(self),
    {
    }

    /// Lines are highlighted independently: the current line is always 0.
    pub fn current_line(&self) -> (r: usize)
        ensures
            r == 0,
    {
        0
    }

    /// The block structure of a line and where its inline text starts, as UTF-8 byte
    /// offsets into the line.
    pub fn highlight_line(&self, line: &str) -> (r: MarkdownLine)
        requires
            vstd::utf8::encode_utf8(line@).len() <= usize::MAX,
        ensures
            ({
                let s = spec_line_structure(line@);
                &&& r.kind == s.kind
                &&& r.spans@ == structure_spans(s).map_values(|sp: LineSpan| span_bytes(line@, sp))
                &&& r.rest_start == if (s.checkbox_end as int) < line@.len() {
                    Some(byte_offset(line@, s.checkbox_end as int) as usize)
                } else {
                    None
                }
            }),
            r.spans@.len() > 0 ==> r.spans@[0].start == 0,
            forall|k: int| 0 <= k < r.spans@.len()
                ==> (#[trigger] r.spans@[k]).start < r.spans@[k].end <= vstd::utf8::encode_utf8(line@).len(),
            forall|k: int| 0 <= k < r.spans@.len() - 1 ==> (#[trigger] r.spans@[k]).end == r.spans@[k + 1].start,
    {
        let chars = chars_of(line);
        let offsets = byte_offsets(&chars);
        let s = line_structure(&chars);
        let spans = spans_of_structure(s);
        let mut out: Vec<LineSpan> = Vec::new();
        let mut k: usize = 0;
        while k < spans.len()
            invariant
                k <= spans@.len(),
                spans@ == structure_spans(s),
                s == spec_line_structure(chars@),
                chars@ == line@,
                offsets@.len() == chars@.len() + 1,
                forall|i: int| 0 <= i <= chars@.len() ==> offsets@[i] == byte_offset(chars@, i),
                s.indent <= s.marker_end <= s.checkbox_end <= chars@.len(),
                out@ == spans@.take(k as int).map_values(|sp: LineSpan| span_bytes(line@, sp)),
            decreases spans@.len() - k,
        {
            let sp = spans[k];
            let b = LineSpan { start: offsets[sp.start], end: offsets[sp.end], role: sp.role };
            out.push(b);
            assert(spans@.take(k + 1) =~= spans@.take(k as int).push(sp));
            assert(out@ =~= spans@.take(k + 1).map_values(|sp: LineSpan| span_bytes(line@, sp)));
            k = k + 1;
        }
        assert(spans@.take(spans@.len() as int) =~= spans@);
        let rest_start = if s.checkbox_end < chars.len() { Some(offsets[s.checkbox_end]) } else { None };
        proof {
            lemma_byte_offset_mono(chars@, 0, s.indent as int);
            lemma_byte_offset_mono(chars@, s.indent as int, s.marker_end as int);
            lemma_byte_offset_mono(chars@, s.marker_end as int, s.checkbox_end as int);
            lemma_byte_offset_mono(chars@, s.checkbox_end as int, chars@.len() as int);
        }
        MarkdownLine { kind: s.kind, spans: out, rest_start }
    }
}

impl Default for MarkdownHighlighter {
    fn default() -> (h: MarkdownHighlighter)
        ensures
            h.is_dark,
    {
        MarkdownHighlighter { is_dark: true }
    }
}


/// A run of a session line: a word (no whitespace) or a gap (only whitespace), `[start, end)`.
#[derive(PartialEq, Eq, Structural, Clone, Copy, Debug)]
pub struct WordSpan {
    pub start: usize,
    pub end: usize,
    pub is_word: bool,
}

/// How the session editor colours a word.
#[derive(PartialEq, Eq, Structural, Clone, Copy, Debug)]
pub enum WordClass {
    Duration,
    Date,
    Time,
    Plain,
}

/// `spans` cut `line` into consecutive, non-empty runs that alternate between words and
/// gaps: the maximal runs of non-whitespace and of whitespace characters.
pub open spec fn is_word_partition(line: Seq<char>, spans: Seq<WordSpan>) -> bool {
    &&& (line.len() == 0 <==> spans.len() == 0)
    &&& spans.len() > 0 ==> spans[0].start == 0 && spans.last().end == line.len()
    &&& forall|k: int| 0 <= k < spans.len() ==> (#[trigger] spans[k]).start < spans[k].end
    &&& forall|k: int| 0 <= k < spans.len() - 1 ==> (#[trigger] spans[k]).end == spans[k + 1].start
    &&& forall|k: int| 0 <= k < spans.len() - 1 ==> (#[trigger] spans[k]).is_word != spans[k + 1].is_word
    &&& forall|k: int, c: int| 0 <= k < spans.len() && (#[trigger] spans[k]).start <= c < spans[k].end
        ==> spec_is_whitespace(#[trigger] line[c]) != spans[k].is_word
}

/// A run of character positions of `line`, as UTF-8 byte offsets.
pub open spec fn word_bytes(line: Seq<char>, sp: WordSpan) -> WordSpan {
    WordSpan {
        start: byte_offset(line, sp.start as int) as usize,
        end: byte_offset(line, sp.end as int) as usize,
        is_word: sp.is_word,
    }
}

proof fn lemma_partition_bounds(line: Seq<char>, spans: Seq<WordSpan>, k: int)
    requires
        is_word_partition(line, spans),
        0 <= k < spans.len(),
    ensures
        spans[k].start < spans[k].end <= line.len(),
    decreases spans.len() - k,
{
    if k < spans.len() - 1 {
        lemma_partition_bounds(line, spans, k + 1);
        assert(spans[k].end == spans[k + 1].start);
    }
}

/// Cut a session line into words and the whitespace between them.
pub(crate) fn session_words(line: &Vec<char>) -> (r: Vec<WordSpan>)
    ensures
        is_word_partition(line@, r@),
{
    let n = line.len();
    let mut r: Vec<WordSpan> = Vec::new();
    let mut i: usize = 0;
    while i < n
        invariant
            n == line@.len(),
            i <= n,
            r@.len() == 0 <==> i == 0,
            r@.len() > 0 ==> r@[0].start == 0 && r@.last().end == i,
            r@.len() > 0 && i < n ==> r@.last().is_word == spec_is_whitespace(line@[i as int]),
            forall|k: int| 0 <= k < r@.len() ==> (#[trigger] r@[k]).start < r@[k].end,
            forall|k: int| 0 <= k < r@.len() - 1 ==> (#[trigger] r@[k]).end == r@[k + 1].start,
            forall|k: int| 0 <= k < r@.len() - 1 ==> (#[trigger] r@[k]).is_word != r@[k + 1].is_word,
            forall|k: int, c: int| 0 <= k < r@.len() && (#[trigger] r@[k]).start <= c < r@[k].end
                ==> spec_is_whitespace(#[trigger] line@[c]) != r@[k].is_word,
        decreases n - i,
    {
        let start = i;
        let ws = is_whitespace(line[i]);
        while i < n && is_whitespace(line[i]) == ws
            invariant
                n == line@.len(),
                start < i || i == start,
                start <= i <= n,
                start < n,
                spec_is_whitespace(line@[start as int]) == ws,
                forall|c: int| start <= c < i ==> spec_is_whitespace(#[trigger] line@[c]) == ws,
            decreases n - i,
        {
            i = i + 1;
        }
        let ghost before = r@;
        r.push(WordSpan { start, end: i, is_word: !ws });
        assert forall|k: int, c: int| 0 <= k < r@.len() && (#[trigger] r@[k]).start <= c < r@[k].end
            implies spec_is_whitespace(#[trigger] line@[c]) != r@[k].is_word by {
            if k < before.len() {
                assert(r@[k] == before[k]);
            }
        }
        assert forall|k: int| 0 <= k < r@.len() - 1 implies (#[trigger] r@[k]).is_word != r@[k + 1].is_word by {
            if k < before.len() - 1 {
                assert(r@[k] == before[k] && r@[k + 1] == before[k + 1]);
            }
        }
        assert forall|k: int| 0 <= k < r@.len() - 1 implies (#[trigger] r@[k]).end == r@[k + 1].start by {
            if k < before.len() - 1 {
                assert(r@[k] == before[k] && r@[k + 1] == before[k + 1]);
            }
        }
    }
    r
}

/// Whether a lowercased word reads as a time (`14:00`) or a time range (`14:00-15:30`):
/// it holds a colon and either a dash or at most five bytes.
pub open spec fn looks_like_time(lower: Seq<char>) -> bool {
    has_char(lower, ':') && (has_char(lower, '-') || (vstd::utf8::encode_utf8(lower).len() as usize) <= 5)
}

fn has_char_in(s: &Vec<char>, c: char) -> (r: bool)
    ensures
        r == has_char(s@, c),
{
    let mut i: usize = 0;
    while i < s.len()
        invariant
            i <= s@.len(),
            forall|k: int| 0 <= k < i ==> s@[k] != c,
        decreases s@.len() - i,
    {
        if s[i] == c {
            return true;
        }
        i = i + 1;
    }
    false
}

/// The colour class of a session word, given its lowercase text and whether the date
/// parser reads it as a duration or as a date: durations first, then dates, then times.
pub fn classify_session_word(lower: &str, is_duration: bool, is_date: bool) -> (c: WordClass)
    ensures
        c == if is_duration {
            WordClass::Duration
        } else if is_date {
            WordClass::Date
        } else if looks_like_time(lower@) {
            WordClass::Time
        } else {
            WordClass::Plain
        },
{
    if is_duration {
        return WordClass::Duration;
    }
    if is_date {
        return WordClass::Date;
    }
    let chars = chars_of(lower);
    if has_char_in(&chars, ':') && (has_char_in(&chars, '-') || lower.len() <= 5) {
        WordClass::Time
    } else {
        WordClass::Plain
    }
}

/// The session examples that the session editor's hint picks from.
pub open spec fn session_example(k: int) -> Seq<char> {
    if k == 0 {
        seq!['3', '0', 'm']
    } else if k == 1 {
        seq!['1', 'h']
    } else if k == 2 {
        seq!['2', 'h']
    } else if k == 3 {
        seq!['6', 'h']
    } else if k == 4 {
        seq!['1', '4', ':', '0', '0', '-', '1', '5', ':', '3', '0']
    } else {
        seq!['0', '9', ':', '0', '0', '-', '1', '0', ':', '1', '5']
    }
}

/// The number of session examples.
pub const SESSION_EXAMPLES: usize = 6;

/// The session example at position `k`.
pub fn session_example_at(k: usize) -> (r: String)
    requires
        k < SESSION_EXAMPLES,
    ensures
        r@ == session_example(k as int),
{
    let examples: [&str; 6] = ["30m", "1h", "2h", "6h", "14:00-15:30", "09:00-10:15"];
    let r = String::from_str(examples[k]);
    proof {
        reveal_strlit("30m");
        reveal_strlit("1h");
        reveal_strlit("2h");
        reveal_strlit("6h");
        reveal_strlit("14:00-15:30");
        reveal_strlit("09:00-10:15");
        assert(examples@ == seq!["30m", "1h", "2h", "6h", "14:00-15:30", "09:00-10:15"]);
        assert(r@ =~= session_example(k as int));
    }
    r
}

/// `fastrand::usize(..n)`: a random index below `n` (the range must not be empty).
#[verifier::external_body]
pub(crate) fn random_index(n: usize) -> (r: usize)
    requires
        n > 0,
    ensures
        r < n,
{
    fastrand::usize(..n)
}

/// A random example of session syntax, for the session editor's hint.
pub fn random_session_example() -> (r: String)
    ensures
        exists|k: int| 0 <= k < SESSION_EXAMPLES && r@ == session_example(k),
{
    let k = random_index(SESSION_EXAMPLES);
    session_example_at(k)
}

/// Highlighting for the time-session editor.
pub struct SessionHighlighter {
    pub is_dark: bool,
}

impl SessionHighlighter {
    /// A highlighter for a dark (`true`) or light theme.
    pub fn new(is_dark: bool) -> (h: SessionHighlighter)
        ensures
            h.is_dark == is_dark,
    {
        SessionHighlighter { is_dark }
    }

    /// Switch theme.
    pub fn update(&mut self, is_dark: bool)
        ensures
            final(self).is_dark == is_dark,
    {
        self.is_dark = is_dark;
    }

    /// Lines are highlighted independently: there is no line state to move.
    pub fn change_line(&mut self, line: usize)
        ensures
            *final(self) == *old(self),
    {
    }

    /// Lines are highlighted independently: the current line is always 0.
    pub fn current_line(&self) -> (r: usize)
        ensures
            r == 0,
    {
        0
    }

    /// The words and gaps of a session line, as UTF-8 byte ranges that tile the line.
    pub fn highlight_line(&self, line: &str) -> (r: Vec<WordSpan>)
        requires
            vstd::utf8::encode_utf8(line@).len() <= usize::MAX,
        ensures
            exists|w: Seq<WordSpan>| is_word_partition(line@, w)
                && r@ == w.map_values(|sp: WordSpan| word_bytes(line@, sp)),
            line@.len() == 0 <==> r@.len() == 0,
            r@.len() > 0 ==> r@[0].start == 0 && r@.last().end == vstd::utf8::encode_utf8(line@).len(),
            forall|k: int| 0 <= k < r@.len() ==> (#[trigger] r@[k]).start < r@[k].end,
            forall|k: int| 0 <= k < r@.len() - 1 ==> (#[trigger] r@[k]).end == r@[k + 1].start,
    {
        let chars = chars_of(line);
        let offsets = byte_offsets(&chars);
        let words = session_words(&chars);
        let mut out: Vec<WordSpan> = Vec::new();
        let mut k: usize = 0;
        while k < words.len()
            invariant
                k <= words@.len(),
                is_word_partition(chars@, words@),
                chars@ == line@,
                offsets@.len() == chars@.len() + 1,
                forall|i: int| 0 <= i <= chars@.len() ==> offsets@[i] == byte_offset(chars@, i),
                out@ == words@.take(k as int).map_values(|sp: WordSpan| word_bytes(line@, sp)),
            decreases words@.len() - k,
        {
            let sp = words[k];
            proof {
                lemma_partition_bounds(chars@, words@, k as int);
            }
            out.push(WordSpan { start: offsets[sp.start], end: offsets[sp.end], is_word: sp.is_word });
            assert(words@.take(k + 1) =~= words@.take(k as int).push(sp));
            assert(out@ =~= words@.take(k + 1).map_values(|sp: WordSpan| word_bytes(line@, sp)));
            k = k + 1;
        }
        assert(words@.take(words@.len() as int) =~= words@);
        proof {
            let w = words@;
            assert forall|k: int| 0 <= k < out@.len() implies (#[trigger] out@[k]).start < out@[k].end by {
                lemma_partition_bounds(chars@, w, k);
                lemma_byte_offset_mono(chars@, w[k].start as int, w[k].end as int);
            }
            assert forall|k: int| 0 <= k < out@.len() - 1 implies (#[trigger] out@[k]).end == out@[k + 1].start by {
                assert(w[k].end == w[k + 1].start);
            }
            if out@.len() > 0 {
                lemma_byte_offset_mono(chars@, 0, chars@.len() as int);
                assert(out@.last() == word_bytes(line@, w.last()));
            }
        }
        out
    }
}

impl Default for SessionHighlighter {
    fn default() -> (h: SessionHighlighter)
        ensures
            h.is_dark,
    {
        SessionHighlighter { is_dark: true }
    }
}

/// Highlighting settings of the smart input line: theme and whether it is the search field.
pub struct SmartInputHighlighter {
    pub is_dark: bool,
    pub is_search: bool,
}

impl SmartInputHighlighter {
    /// A highlighter for a theme and input role.
    pub fn new(is_dark: bool, is_search: bool) -> (h: SmartInputHighlighter)
        ensures
            h.is_dark == is_dark,
            h.is_search == is_search,
    {
        SmartInputHighlighter { is_dark, is_search }
    }

    /// Change theme and input role.
    pub fn update(&mut self, is_dark: bool, is_search: bool)
        ensures
            final(self).is_dark == is_dark,
            final(self).is_search == is_search,
    {
        self.is_dark = is_dark;
        self.is_search = is_search;
    }

    /// Lines are highlighted independently: there is no line state to move.
    pub fn change_line(&mut self, line: usize)
        ensures
            *final(self) == *old(self),
    {
    }

    /// Lines are highlighted independently: the current line is always 0.
    pub fn current_line(&self) -> (r: usize)
        ensures
            r == 0,
    {
        0
    }
}

impl Default for SmartInputHighlighter {
    fn default() -> (h: SmartInputHighlighter)
        ensures
            h.is_dark,
            !h.is_search,
    {
        SmartInputHighlighter { is_dark: true, is_search: false }
    }
}

} // verus!
