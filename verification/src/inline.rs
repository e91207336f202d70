//! Inline Markdown of task titles and notes: `**bold**`, `__bold__`, `*italic*`, `_italic_`,
//! `` `code` ``, `~~struck~~`, `[[wiki links]]`, `[label](url)` and bare `http(s)://` URLs.
//! Positions count characters.

use vstd::prelude::*;
use vstd::string::*;
use crate::text::{spec_is_whitespace, is_whitespace, chars_of};
use crate::highlight::has_char;

verus! {

/// The kind of an inline span.
#[derive(PartialEq, Eq, Structural, Clone, Copy, Debug)]
pub enum InlineKind {
    Plain,
    WikiLink,
    Bold,
    Italic,
    Strike,
    Code,
    Link,
    Url,
}

/// A span of inline text: its displayed text `[text_start, text_end)` and, for links,
/// the link target `[target_start, target_end)` (equal to the text range otherwise).
#[derive(PartialEq, Eq, Structural, Clone, Copy, Debug)]
pub struct InlineSpan {
    pub kind: InlineKind,
    pub text_start: usize,
    pub text_end: usize,
    pub target_start: usize,
    pub target_end: usize,
}

/// Which construct a match is: one of the delimiter pairs (by index), a Markdown link, or a URL.
#[derive(PartialEq, Eq, Structural, Clone, Copy, Debug)]
pub enum MatchKind {
    Delimited(usize),
    Link,
    Url,
}

/// A construct found at `[start, end)`.
#[derive(PartialEq, Eq, Structural, Clone, Copy, Debug)]
pub struct Found {
    pub start: usize,
    pub end: usize,
    pub kind: MatchKind,
}

/// The delimiter pairs, in the order they are tried: `[[ ]]`, `** **`, `__ __`, `~~ ~~`,
/// `* *`, `_ _`, `` ` ` ``.
pub open spec fn delim_open(i: int) -> Seq<char> {
    if i == 0 {
        seq!['[', '[']
    } else if i == 1 {
        seq!['*', '*']
    } else if i == 2 {
        seq!['_', '_']
    } else if i == 3 {
        seq!['~', '~']
    } else if i == 4 {
        seq!['*']
    } else if i == 5 {
        seq!['_']
    } else {
        seq!['`']
    }
}

/// The closing delimiter of pair `i`.
pub open spec fn delim_close(i: int) -> Seq<char> {
    if i == 0 {
        seq![']', ']']
    } else {
        delim_open(i)
    }
}

/// The span kind of delimiter pair `i`.
pub open spec fn delim_kind(i: int) -> InlineKind {
    if i == 0 {
        InlineKind::WikiLink
    } else if i == 1 || i == 2 {
        InlineKind::Bold
    } else if i == 3 {
        InlineKind::Strike
    } else if i == 4 || i == 5 {
        InlineKind::Italic
    } else {
        InlineKind::Code
    }
}

/// `p` occurs in `s` at position `i`.
pub open spec fn occurs_at(s: Seq<char>, p: Seq<char>, i: int) -> bool {
    0 <= i && i + p.len() <= s.len() && s.subrange(i, i + p.len()) == p
}

/// The first position at or after `from` where `p` occurs in `s`, or -1.
pub open spec fn find_from(s: Seq<char>, p: Seq<char>, from: int) -> int
    decreases s.len() + 1 - from,
{
    if from < 0 || from + p.len() > s.len() {
        -1
    } else if occurs_at(s, p, from) {
        from
    } else {
        find_from(s, p, from + 1)
    }
}

/// Delimiter pair `i` found from `cur`: the first opening delimiter and the first closing
/// delimiter after it.
pub open spec fn delim_candidate(t: Seq<char>, cur: int, i: int) -> Option<(int, int)> {
    let s = find_from(t, delim_open(i), cur);
    if s < 0 {
        None
    } else {
        let e = find_from(t, delim_close(i), s + delim_open(i).len());
        if e < 0 {
            None
        } else {
            Some((s, e + delim_close(i).len()))
        }
    }
}

/// The earliest delimited construct among the first `k` pairs (an earlier pair wins a tie).
pub open spec fn best_delim(t: Seq<char>, cur: int, k: int) -> Option<Found>
    decreases k,
{
    if k <= 0 {
        None
    } else {
        let prev = best_delim(t, cur, k - 1);
        match delim_candidate(t, cur, k - 1) {
            Some((s, e)) => if prev is None || s < prev.unwrap().start {
                Some(Found { start: s as usize, end: e as usize, kind: MatchKind::Delimited((k - 1) as usize) })
            } else {
                prev
            },
            None => prev,
        }
    }
}

/// The first Markdown link `[label](url)` whose `[` lies at or after `si` and before
/// `bound` (when there is one); `[[` is skipped, and a label may not hold `[`.
pub open spec fn link_from(t: Seq<char>, si: int, bound: Option<int>) -> Option<(int, int)>
    decreases t.len() + 2 - si,
{
    let sp = find_from(t, seq!['['], si);
    if sp < si || sp >= t.len() {
        None
    } else if bound is Some && bound.unwrap() <= sp {
        None
    } else if occurs_at(t, seq!['[', '['], sp) {
        link_from(t, sp + 2, bound)
    } else {
        let mid = find_from(t, seq![']', '('], sp);
        if sp < mid && !has_char(t.subrange(sp + 1, mid), '[') {
            let close = find_from(t, seq![')'], mid);
            if close >= 0 {
                Some((sp, close + 1))
            } else {
                link_from(t, sp + 1, bound)
            }
        } else {
            link_from(t, sp + 1, bound)
        }
    }
}

/// Where a bare URL starting at `i` ends: at the first whitespace, `)` or `]`.
pub open spec fn url_end(t: Seq<char>, i: int) -> int
    decreases t.len() - i,
{
    if i < 0 || i >= t.len() {
        t.len() as int
    } else if spec_is_whitespace(t[i]) || t[i] == ')' || t[i] == ']' {
        i
    } else {
        url_end(t, i + 1)
    }
}

/// The scheme `https://` (0) or `http://` (1).
pub open spec fn scheme(j: int) -> Seq<char> {
    if j == 0 {
        seq!['h', 't', 't', 'p', 's', ':', '/', '/']
    } else {
        seq!['h', 't', 't', 'p', ':', '/', '/']
    }
}

/// Consider the bare URL with scheme `j`: it replaces `best` when it starts before the
/// best delimited construct (`bound`) and before `best`.
pub open spec fn with_url(t: Seq<char>, cur: int, j: int, bound: Option<int>, best: Option<Found>) -> Option<Found> {
    let sp = find_from(t, scheme(j), cur);
    if sp < 0 || (bound is Some && bound.unwrap() <= sp) {
        best
    } else if best is None || sp < best.unwrap().start {
        Some(Found { start: sp as usize, end: url_end(t, sp) as usize, kind: MatchKind::Url })
    } else {
        best
    }
}

/// The construct that the parser takes next from position `cur`.
pub open spec fn next_found(t: Seq<char>, cur: int) -> Option<Found> {
    let d = best_delim(t, cur, 7);
    let bound = match d {
        Some(f) => Some(f.start as int),
        None => None,
    };
    let with_link = match link_from(t, cur, bound) {
        Some((s, e)) => Some(Found { start: s as usize, end: e as usize, kind: MatchKind::Link }),
        None => d,
    };
    with_url(t, cur, 1, bound, with_url(t, cur, 0, bound, with_link))
}

/// A plain span `[a, b)`.
pub open spec fn plain(a: int, b: int) -> InlineSpan {
    InlineSpan {
        kind: InlineKind::Plain,
        text_start: a as usize,
        text_end: b as usize,
        target_start: a as usize,
        target_end: b as usize,
    }
}

/// The span a construct gives: its inner text, and its target for links.
pub open spec fn found_span(t: Seq<char>, f: Found) -> InlineSpan {
    let s = f.start as int;
    let e = f.end as int;
    match f.kind {
        MatchKind::Link => {
            let mid = find_from(t, seq![']', '('], s);
            InlineSpan {
                kind: InlineKind::Link,
                text_start: (s + 1) as usize,
                text_end: mid as usize,
                target_start: (mid + 2) as usize,
                target_end: (e - 1) as usize,
            }
        },
        MatchKind::Url => InlineSpan {
            kind: InlineKind::Url,
            text_start: s as usize,
            text_end: e as usize,
            target_start: s as usize,
            target_end: e as usize,
        },
        MatchKind::Delimited(i) => {
            let a = s + delim_open(i as int).len();
            let b = e - delim_close(i as int).len();
            if i == 0 {
                let bar = find_from(t, seq!['|'], a);
                if 0 <= bar && bar < b {
                    InlineSpan {
                        kind: InlineKind::WikiLink,
                        text_start: (bar + 1) as usize,
                        text_end: b as usize,
                        target_start: a as usize,
                        target_end: bar as usize,
                    }
                } else {
                    InlineSpan {
                        kind: InlineKind::WikiLink,
                        text_start: a as usize,
                        text_end: b as usize,
                        target_start: a as usize,
                        target_end: b as usize,
                    }
                }
            } else {
                InlineSpan {
                    kind: delim_kind(i as int),
                    text_start: a as usize,
                    text_end: b as usize,
                    target_start: a as usize,
                    target_end: b as usize,
                }
            }
        },
    }
}

/// The spans of `t` from position `cur` on.
pub open spec fn parse_from(t: Seq<char>, cur: int) -> Seq<InlineSpan>
    decreases t.len() - cur,
{
    if cur < 0 || cur >= t.len() {
        Seq::empty()
    } else {
        match next_found(t, cur) {
            None => seq![plain(cur, t.len() as int)],
            Some(f) => {
                let lead = if f.start > cur { seq![plain(cur, f.start as int)] } else { Seq::empty() };
                let rest = if cur < f.end <= t.len() { parse_from(t, f.end as int) } else { Seq::empty() };
                lead.push(found_span(t, f)) + rest
            },
        }
    }
}

/// The spans of a whole text; an empty text gives one empty plain span.
pub open spec fn spec_parse_inline(t: Seq<char>) -> Seq<InlineSpan> {
    if t.len() == 0 {
        seq![plain(0, 0)]
    } else {
        parse_from(t, 0)
    }
}

// ---------------------------------------------------------------------------
// Facts
// ---------------------------------------------------------------------------

proof fn lemma_find_from(s: Seq<char>, p: Seq<char>, from: int)
    requires
        p.len() > 0,
    ensures
        find_from(s, p, from) == -1 || (from <= find_from(s, p, from) && occurs_at(s, p, find_from(s, p, from))),
    decreases s.len() + 1 - from,
{
    if !(from < 0 || from + p.len() > s.len()) && !occurs_at(s, p, from) {
        lemma_find_from(s, p, from + 1);
    }
}

proof fn lemma_url_end(t: Seq<char>, i: int)
    requires
        0 <= i <= t.len(),
    ensures
        i <= url_end(t, i) <= t.len(),
    decreases t.len() - i,
{
    if i < t.len() && !(spec_is_whitespace(t[i]) || t[i] == ')' || t[i] == ']') {
        lemma_url_end(t, i + 1);
    }
}

proof fn lemma_link_from(t: Seq<char>, si: int, bound: Option<int>)
    requires
        0 <= si,
    ensures
        link_from(t, si, bound) matches Some((s, e)) ==> (si <= s && s < e && e <= t.len()
            && (bound is Some ==> s < bound.unwrap())),
    decreases t.len() + 2 - si,
{
    let sp = find_from(t, seq!['['], si);
    lemma_find_from(t, seq!['['], si);
    if sp < si || sp >= t.len() {
    } else if bound is Some && bound.unwrap() <= sp {
    } else if occurs_at(t, seq!['[', '['], sp) {
        lemma_link_from(t, sp + 2, bound);
    } else {
        let mid = find_from(t, seq![']', '('], sp);
        lemma_find_from(t, seq![']', '('], sp);
        lemma_find_from(t, seq![')'], mid);
        lemma_link_from(t, sp + 1, bound);
    }
}

proof fn lemma_delim_lens(i: int)
    ensures
        delim_open(i).len() > 0,
        delim_close(i).len() > 0,
        delim_open(i).len() + delim_close(i).len() <= 4,
{
}

proof fn lemma_best_delim(t: Seq<char>, cur: int, k: int)
    requires
        0 <= cur,
        k <= 7,
        t.len() <= usize::MAX,
    ensures
        best_delim(t, cur, k) matches Some(f) ==> (cur <= f.start && f.start < f.end && f.end <= t.len()
            && (f.kind matches MatchKind::Delimited(i) && i < 7
            && f.start + delim_open(i as int).len() + delim_close(i as int).len() <= f.end)),
    decreases k,
{
    if k > 0 {
        lemma_best_delim(t, cur, k - 1);
        let i = k - 1;
        lemma_delim_lens(i);
        let s = find_from(t, delim_open(i), cur);
        lemma_find_from(t, delim_open(i), cur);
        if s >= 0 {
            lemma_find_from(t, delim_close(i), s + delim_open(i).len());
        }
    }
}

/// A construct that lies within `[cur, t.len())` and is not empty.
pub open spec fn in_range(t: Seq<char>, cur: int, o: Option<Found>) -> bool {
    o matches Some(f) ==> (cur <= f.start && f.start < f.end && f.end <= t.len())
}

proof fn lemma_with_url(t: Seq<char>, cur: int, j: int, bound: Option<int>, best: Option<Found>)
    requires
        0 <= cur,
        t.len() <= usize::MAX,
        in_range(t, cur, best),
    ensures
        in_range(t, cur, with_url(t, cur, j, bound, best)),
{
    let sch = scheme(j);
    assert(sch.len() > 0);
    lemma_find_from(t, sch, cur);
    let sp = find_from(t, sch, cur);
    if sp >= 0 {
        lemma_url_end(t, sp);
        assert(t.subrange(sp, sp + sch.len())[0] == t[sp]);
        assert(sch[0] == 'h');
        assert(t[sp] == 'h');
        assert(('h' as u32) == 104);
        assert(!spec_is_whitespace(t[sp]));
        lemma_url_end(t, sp + 1);
        assert(url_end(t, sp) == url_end(t, sp + 1));
    }
}

proof fn lemma_next_found(t: Seq<char>, cur: int)
    requires
        0 <= cur < t.len(),
        t.len() <= usize::MAX,
    ensures
        in_range(t, cur, next_found(t, cur)),
{
    lemma_best_delim(t, cur, 7);
    let d = best_delim(t, cur, 7);
    let bound = match d {
        Some(f) => Some(f.start as int),
        None => None,
    };
    lemma_link_from(t, cur, bound);
    let with_link = match link_from(t, cur, bound) {
        Some((s, e)) => Some(Found { start: s as usize, end: e as usize, kind: MatchKind::Link }),
        None => d,
    };
    assert(in_range(t, cur, with_link));
    lemma_with_url(t, cur, 0, bound, with_link);
    lemma_with_url(t, cur, 1, bound, with_url(t, cur, 0, bound, with_link));
}

// ---------------------------------------------------------------------------
// Executable parser
// ---------------------------------------------------------------------------

pub(crate) fn occurs_at_exec(t: &Vec<char>, p: &[char], i: usize) -> (r: bool)
    ensures
        r == occurs_at(t@, p@, i as int),
{
    let n = t.len();
    if i > n || p.len() > n - i {
        return false;
    }
    let mut k: usize = 0;
    while k < p.len()
        invariant
            n == t@.len(),
            i + p@.len() <= n,
            k <= p@.len(),
            t@.subrange(i as int, i + k) == p@.subrange(0, k as int),
        decreases p@.len() - k,
    {
        if t[i + k] != p[k] {
            assert(t@.subrange(i as int, i + p@.len())[k as int] == t@[i + k]);
            return false;
        }
        assert(t@.subrange(i as int, i + k + 1) == t@.subrange(i as int, i + k).push(t@[i + k]));
        assert(p@.subrange(0, k + 1) == p@.subrange(0, k as int).push(p@[k as int]));
        k = k + 1;
    }
    assert(p@.subrange(0, p@.len() as int) == p@);
    true
}

fn find_exec(t: &Vec<char>, p: &[char], from: usize) -> (r: Option<usize>)
    requires
        p@.len() > 0,
    ensures
        match r {
            Some(i) => i as int == find_from(t@, p@, from as int),
            None => find_from(t@, p@, from as int) == -1,
        },
{
    let n = t.len();
    let mut i = from;
    while i <= n && p.len() <= n - i
        invariant
            n == t@.len(),
            from <= i,
            p@.len() > 0,
            find_from(t@, p@, from as int) == find_from(t@, p@, i as int),
        decreases n + 1 - i,
    {
        if occurs_at_exec(t, p, i) {
            return Some(i);
        }
        i = i + 1;
    }
    None
}

fn url_end_exec(t: &Vec<char>, i: usize) -> (r: usize)
    requires
        i <= t@.len(),
    ensures
        r as int == url_end(t@, i as int),
{
    let mut k = i;
    while k < t.len() && !(is_whitespace(t[k]) || t[k] == ')' || t[k] == ']')
        invariant
            i <= k <= t@.len(),
            url_end(t@, i as int) == url_end(t@, k as int),
        decreases t@.len() - k,
    {
        k = k + 1;
    }
    k
}

fn lit1(a: char) -> (r: Vec<char>)
    ensures
        r@ == seq![a],
{
    let r = vec![a];
    assert(r@ =~= seq![a]);
    r
}

fn lit2(a: char, b: char) -> (r: Vec<char>)
    ensures
        r@ == seq![a, b],
{
    let r = vec![a, b];
    assert(r@ =~= seq![a, b]);
    r
}

fn link_from_exec(t: &Vec<char>, si0: usize, bound: Option<usize>) -> (r: Option<(usize, usize)>)
    ensures
        match r {
            Some((s, e)) => link_from(t@, si0 as int, opt_int(bound)) == Some((s as int, e as int)),
            None => link_from(t@, si0 as int, opt_int(bound)) is None,
        },
{
    let n = t.len();
    let mut si = si0;
    loop
        invariant
            n == t@.len(),
            si0 <= si,
            link_from(t@, si0 as int, opt_int(bound)) == link_from(t@, si as int, opt_int(bound)),
        decreases n + 2 - si,
    {
        proof {
            lemma_find_from(t@, seq!['['], si as int);
        }
        let sp = match find_exec(t, lit1('[').as_slice(), si) {
            Some(sp) => sp,
            None => {
                return None;
            },
        };
        assert(sp < n);
        let blocked = match bound {
            Some(b) => b <= sp,
            None => false,
        };
        if blocked {
            return None;
        }
        if occurs_at_exec(t, lit2('[', '[').as_slice(), sp) {
            si = sp + 2;
            continue;
        }
        proof {
            lemma_find_from(t@, seq![']', '('], sp as int);
        }
        match find_exec(t, lit2(']', '(').as_slice(), sp) {
            Some(mid) => {
                if sp < mid {
                    let mut k = sp + 1;
                    let mut clean = true;
                    while k < mid && clean
                        invariant
                            sp + 1 <= k <= mid,
                            mid <= t@.len(),
                            clean ==> forall|j: int| sp + 1 <= j < k ==> t@[j] != '[',
                            !clean ==> k < mid && t@[k as int] == '[',
                        decreases mid - k + (if clean { 1int } else { 0int }),
                    {
                        if t[k] == '[' {
                            clean = false;
                        } else {
                            k = k + 1;
                        }
                    }
                    proof {
                        let lbl = t@.subrange(sp + 1, mid as int);
                        if clean {
                            assert forall|j: int| 0 <= j < lbl.len() implies lbl[j] != '[' by {
                                assert(lbl[j] == t@[sp + 1 + j]);
                            }
                        } else {
                            assert(lbl[k - sp - 1] == '[');
                        }
                    }
                    if clean {
                        proof {
                            lemma_find_from(t@, seq![')'], mid as int);
                        }
                        match find_exec(t, lit1(')').as_slice(), mid) {
                            Some(close) => {
                                return Some((sp, close + 1));
                            },
                            None => {},
                        }
                    }
                }
            },
            None => {},
        }
        si = sp + 1;
    }
}

/// The view of an optional position.
pub open spec fn opt_int(o: Option<usize>) -> Option<int> {
    match o {
        Some(x) => Some(x as int),
        None => None,
    }
}

fn delim_open_exec(i: usize) -> (r: Vec<char>)
    ensures
        r@ == delim_open(i as int),
{
    let r = if i == 0 {
        vec!['[', '[']
    } else if i == 1 {
        vec!['*', '*']
    } else if i == 2 {
        vec!['_', '_']
    } else if i == 3 {
        vec!['~', '~']
    } else if i == 4 {
        vec!['*']
    } else if i == 5 {
        vec!['_']
    } else {
        vec!['`']
    };
    assert(r@ =~= delim_open(i as int));
    r
}

fn delim_close_exec(i: usize) -> (r: Vec<char>)
    ensures
        r@ == delim_close(i as int),
{
    if i == 0 {
        let r = vec![']', ']'];
        assert(r@ =~= delim_close(0));
        r
    } else {
        delim_open_exec(i)
    }
}

fn best_delim_exec(t: &Vec<char>, cur: usize) -> (r: Option<Found>)
    ensures
        r == best_delim(t@, cur as int, 7),
{
    let n = t.len();
    let mut best: Option<Found> = None;
    let mut k: usize = 0;
    while k < 7
        invariant
            n == t@.len(),
            k <= 7,
            best == best_delim(t@, cur as int, k as int),
        decreases 7 - k,
    {
        let open = delim_open_exec(k);
        let close = delim_close_exec(k);
        proof {
            lemma_delim_lens(k as int);
            lemma_find_from(t@, open@, cur as int);
        }
        match find_exec(t, open.as_slice(), cur) {
            Some(s) => {
                proof {
                    lemma_find_from(t@, close@, s + open@.len());
                }
                match find_exec(t, close.as_slice(), s + open.len()) {
                    Some(e) => {
                        let better = match best {
                            Some(b) => s < b.start,
                            None => true,
                        };
                        if better {
                            best = Some(Found { start: s, end: e + close.len(), kind: MatchKind::Delimited(k) });
                        }
                    },
                    None => {},
                }
            },
            None => {},
        }
        k = k + 1;
    }
    best
}

fn scheme_exec(j: usize) -> (r: Vec<char>)
    ensures
        r@ == scheme(j as int),
{
    let r = if j == 0 {
        vec!['h', 't', 't', 'p', 's', ':', '/', '/']
    } else {
        vec!['h', 't', 't', 'p', ':', '/', '/']
    };
    assert(r@ =~= scheme(j as int));
    r
}

fn with_url_exec(t: &Vec<char>, cur: usize, j: usize, bound: Option<usize>, best: Option<Found>) -> (r: Option<Found>)
    ensures
        r == with_url(t@, cur as int, j as int, opt_int(bound), best),
{
    let sch = scheme_exec(j);
    proof {
        lemma_find_from(t@, sch@, cur as int);
    }
    match find_exec(t, sch.as_slice(), cur) {
        None => best,
        Some(sp) => {
            let blocked = match bound {
                Some(b) => b <= sp,
                None => false,
            };
            if blocked {
                return best;
            }
            let better = match best {
                Some(b) => sp < b.start,
                None => true,
            };
            if better {
                Some(Found { start: sp, end: url_end_exec(t, sp), kind: MatchKind::Url })
            } else {
                best
            }
        },
    }
}

fn next_found_exec(t: &Vec<char>, cur: usize) -> (r: Option<Found>)
    ensures
        r == next_found(t@, cur as int),
{
    let d = best_delim_exec(t, cur);
    let bound: Option<usize> = match d {
        Some(f) => Some(f.start),
        None => None,
    };
    let with_link = match link_from_exec(t, cur, bound) {
        Some((s, e)) => Some(Found { start: s, end: e, kind: MatchKind::Link }),
        None => d,
    };
    let a = with_url_exec(t, cur, 0, bound, with_link);
    with_url_exec(t, cur, 1, bound, a)
}

fn found_span_exec(t: &Vec<char>, f: Found) -> (r: InlineSpan)
    requires
        f.start < f.end <= t@.len(),
        f.kind matches MatchKind::Delimited(i) ==> (i < 7
            && f.start + delim_open(i as int).len() + delim_close(i as int).len() <= f.end),
        f.kind is Link ==> f.start < find_from(t@, seq![']', '('], f.start as int)
            && find_from(t@, seq![']', '('], f.start as int) + 3 <= f.end,
    ensures
        r == found_span(t@, f),
{
    match f.kind {
        MatchKind::Link => {
            let mid = match find_exec(t, lit2(']', '(').as_slice(), f.start) {
                Some(m) => m,
                None => f.start,
            };
            InlineSpan {
                kind: InlineKind::Link,
                text_start: f.start + 1,
                text_end: mid,
                target_start: mid + 2,
                target_end: f.end - 1,
            }
        },
        MatchKind::Url => InlineSpan {
            kind: InlineKind::Url,
            text_start: f.start,
            text_end: f.end,
            target_start: f.start,
            target_end: f.end,
        },
        MatchKind::Delimited(i) => {
            let a = f.start + delim_open_exec(i).len();
            let b = f.end - delim_close_exec(i).len();
            if i == 0 {
                proof {
                    lemma_find_from(t@, seq!['|'], a as int);
                }
                let bar = find_exec(t, lit1('|').as_slice(), a);
                match bar {
                    Some(p) => {
                        if p < b {
                            return InlineSpan {
                                kind: InlineKind::WikiLink,
                                text_start: p + 1,
                                text_end: b,
                                target_start: a,
                                target_end: p,
                            };
                        }
                    },
                    None => {},
                }
                InlineSpan { kind: InlineKind::WikiLink, text_start: a, text_end: b, target_start: a, target_end: b }
            } else {
                let kind = if i == 1 || i == 2 {
                    InlineKind::Bold
                } else if i == 3 {
                    InlineKind::Strike
                } else if i == 4 || i == 5 {
                    InlineKind::Italic
                } else {
                    InlineKind::Code
                };
                InlineSpan { kind, text_start: a, text_end: b, target_start: a, target_end: b }
            }
        },
    }
}

/// Split a text into plain and formatted spans, taking at each position the earliest
/// construct: the delimiter pairs in the order `[[ ]]`, `** **`, `__ __`, `~~ ~~`, `* *`,
/// `_ _`, `` ` ` `` (an earlier pair wins a tie), then a `[label](url)` link or a bare
/// `https://`/`http://` URL that starts before them.
pub fn inline_spans(text: &str) -> (r: Vec<InlineSpan>)
    ensures
        r@ == spec_parse_inline(text@),
{
    let t = chars_of(text);
    let n = t.len();
    if n == 0 {
        let r = vec![InlineSpan { kind: InlineKind::Plain, text_start: 0, text_end: 0, target_start: 0, target_end: 0 }];
        assert(r@ =~= spec_parse_inline(text@));
        return r;
    }
    let mut spans: Vec<InlineSpan> = Vec::new();
    let mut cur: usize = 0;
    while cur < n
        invariant
            n == t@.len(),
            t@ == text@,
            cur <= n,
            spans@ + parse_from(t@, cur as int) == parse_from(t@, 0),
        decreases n - cur,
    {
        proof {
            lemma_next_found(t@, cur as int);
        }
        match next_found_exec(&t, cur) {
            None => {
                let ghost before = spans@;
                spans.push(InlineSpan { kind: InlineKind::Plain, text_start: cur, text_end: n, target_start: cur, target_end: n });
                assert(parse_from(t@, cur as int) == seq![plain(cur as int, n as int)]);
                assert(parse_from(t@, n as int) == Seq::<InlineSpan>::empty());
                assert(spans@ + parse_from(t@, n as int) =~= before + parse_from(t@, cur as int));
                cur = n;
            },
            Some(f) => {
                let ghost before = spans@;
                if f.start > cur {
                    spans.push(InlineSpan {
                        kind: InlineKind::Plain,
                        text_start: cur,
                        text_end: f.start,
                        target_start: cur,
                        target_end: f.start,
                    });
                }
                proof {
                    link_span_facts(t@, cur as int, f);
                }
                let sp = found_span_exec(&t, f);
                spans.push(sp);
                proof {
                    let lead = if f.start > cur { seq![plain(cur as int, f.start as int)] } else { Seq::empty() };
                    assert(spans@ =~= before + lead.push(found_span(t@, f)));
                    assert(parse_from(t@, cur as int) == lead.push(found_span(t@, f)) + parse_from(t@, f.end as int));
                    assert(spans@ + parse_from(t@, f.end as int) =~= before + parse_from(t@, cur as int));
                }
                cur = f.end;
            },
        }
    }
    assert(parse_from(t@, cur as int) == Seq::<InlineSpan>::empty());
    assert(spans@ =~= parse_from(t@, 0));
    spans
}

/// Facts about the construct the parser takes, used to build its span.
proof fn link_span_facts(t: Seq<char>, cur: int, f: Found)
    requires
        0 <= cur < t.len(),
        t.len() <= usize::MAX,
        next_found(t, cur) == Some(f),
    ensures
        cur <= f.start < f.end <= t.len(),
        f.kind matches MatchKind::Delimited(i) ==> (i < 7
            && f.start + delim_open(i as int).len() + delim_close(i as int).len() <= f.end),
        f.kind is Link ==> f.start < find_from(t, seq![']', '('], f.start as int)
            && find_from(t, seq![']', '('], f.start as int) + 3 <= f.end,
{
    lemma_next_found(t, cur);
    lemma_best_delim(t, cur, 7);
    let d = best_delim(t, cur, 7);
    let bound = match d {
        Some(g) => Some(g.start as int),
        None => None,
    };
    lemma_link_from(t, cur, bound);
    if f.kind is Link {
        lemma_link_shape(t, cur, bound);
    }
}

/// A link found from `si` starts at `[`, its `](` comes after that, and it closes with `)`
/// at least three characters after the `](`... start.
proof fn lemma_link_shape(t: Seq<char>, si: int, bound: Option<int>)
    requires
        0 <= si,
    ensures
        link_from(t, si, bound) matches Some((s, e)) ==> ({
            let mid = find_from(t, seq![']', '('], s);
            s < mid && mid + 3 <= e && mid >= 0
        }),
    decreases t.len() + 2 - si,
{
    let sp = find_from(t, seq!['['], si);
    lemma_find_from(t, seq!['['], si);
    if sp < si || sp >= t.len() {
    } else if bound is Some && bound.unwrap() <= sp {
    } else if occurs_at(t, seq!['[', '['], sp) {
        lemma_link_shape(t, sp + 2, bound);
    } else {
        let mid = find_from(t, seq![']', '('], sp);
        lemma_find_from(t, seq![']', '('], sp);
        if sp < mid && !has_char(t.subrange(sp + 1, mid), '[') {
            let close = find_from(t, seq![')'], mid);
            lemma_find_from(t, seq![')'], mid);
            if close >= 0 {
                assert(t.subrange(sp, sp + 1)[0] == t[sp]);
                assert(t[sp] == '[');
                assert(t.subrange(mid, mid + 2)[0] == t[mid]);
                assert(t.subrange(mid, mid + 2)[1] == t[mid + 1]);
                assert(t.subrange(close, close + 1)[0] == t[close]);
                assert(t[close] == ')');
                assert(close != mid && close != mid + 1);
            } else {
                lemma_link_shape(t, sp + 1, bound);
            }
        } else {
            lemma_link_shape(t, sp + 1, bound);
        }
    }
}

proof fn lemma_parse_nonempty(t: Seq<char>)
    ensures
        spec_parse_inline(t).len() > 0,
{
    if t.len() > 0 {
        match next_found(t, 0) {
            None => {},
            Some(f) => {
                let lead = if f.start > 0 { seq![plain(0, f.start as int)] } else { Seq::empty() };
                let rest = if 0 < f.end <= t.len() { parse_from(t, f.end as int) } else { Seq::empty() };
                assert((lead.push(found_span(t, f)) + rest).len() >= 1);
            },
        }
    }
}

/// The characters that end a bare URL: whitespace, `)` and `]`.
pub open spec fn url_stop(c: char) -> bool {
    spec_is_whitespace(c) || c == ')' || c == ']'
}

/// `sp` is a bare URL of `t`: it starts with `https://` or `http://`, holds no whitespace,
/// `)` or `]`, ends at the end of the text or right before one of those, and links to
/// itself.
pub open spec fn is_bare_url(t: Seq<char>, sp: InlineSpan) -> bool {
    let a = sp.text_start as int;
    let b = sp.text_end as int;
    &&& a < b <= t.len()
    &&& occurs_at(t, scheme(0), a) || occurs_at(t, scheme(1), a)
    &&& forall|c: int| a <= c < b ==> !url_stop(#[trigger] t[c])
    &&& b == t.len() || url_stop(t[b])
    &&& sp.target_start == sp.text_start
    &&& sp.target_end == sp.text_end
}

proof fn lemma_url_end_stops(t: Seq<char>, i: int)
    requires
        0 <= i <= t.len(),
    ensures
        forall|c: int| i <= c < url_end(t, i) ==> !url_stop(#[trigger] t[c]),
        url_end(t, i) == t.len() || url_stop(t[url_end(t, i)]),
    decreases t.len() - i,
{
    lemma_url_end(t, i);
    if i < t.len() && !url_stop(t[i]) {
        lemma_url_end_stops(t, i + 1);
    }
}

/// A URL construct ends where `url_end` puts it and starts with a scheme.
pub open spec fn url_found_ok(t: Seq<char>, f: Found) -> bool {
    f.kind is Url ==> {
        &&& f.end as int == url_end(t, f.start as int)
        &&& occurs_at(t, scheme(0), f.start as int) || occurs_at(t, scheme(1), f.start as int)
    }
}

proof fn lemma_with_url_ok(t: Seq<char>, cur: int, j: int, bound: Option<int>, best: Option<Found>)
    requires
        0 <= cur,
        j == 0 || j == 1,
        t.len() <= usize::MAX,
        best matches Some(f) ==> url_found_ok(t, f),
    ensures
        with_url(t, cur, j, bound, best) matches Some(f) ==> url_found_ok(t, f),
{
    let sch = scheme(j);
    assert(sch.len() > 0);
    lemma_find_from(t, sch, cur);
    let sp = find_from(t, sch, cur);
    if sp >= 0 {
        lemma_url_end(t, sp);
    }
}

proof fn lemma_next_found_url(t: Seq<char>, cur: int)
    requires
        0 <= cur < t.len(),
        t.len() <= usize::MAX,
    ensures
        next_found(t, cur) matches Some(f) ==> url_found_ok(t, f),
{
    lemma_best_delim(t, cur, 7);
    let d = best_delim(t, cur, 7);
    let bound = match d {
        Some(f) => Some(f.start as int),
        None => None,
    };
    let with_link = match link_from(t, cur, bound) {
        Some((s, e)) => Some(Found { start: s as usize, end: e as usize, kind: MatchKind::Link }),
        None => d,
    };
    lemma_with_url_ok(t, cur, 0, bound, with_link);
    lemma_with_url_ok(t, cur, 1, bound, with_url(t, cur, 0, bound, with_link));
}

proof fn lemma_parse_from_urls(t: Seq<char>, cur: int)
    requires
        0 <= cur,
        t.len() <= usize::MAX,
    ensures
        forall|k: int| 0 <= k < parse_from(t, cur).len() && (#[trigger] parse_from(t, cur)[k]).kind == InlineKind::Url
            ==> is_bare_url(t, parse_from(t, cur)[k]),
    decreases t.len() - cur,
{
    if cur < t.len() {
        lemma_next_found(t, cur);
        lemma_next_found_url(t, cur);
        match next_found(t, cur) {
            None => {},
            Some(f) => {
                let lead = if f.start > cur { seq![plain(cur, f.start as int)] } else { Seq::empty() };
                let rest = if cur < f.end <= t.len() { parse_from(t, f.end as int) } else { Seq::empty() };
                let head = lead.push(found_span(t, f));
                let all = head + rest;
                assert(parse_from(t, cur) == all);
                if cur < f.end <= t.len() {
                    lemma_parse_from_urls(t, f.end as int);
                }
                if f.kind is Url {
                    lemma_url_end_stops(t, f.start as int);
                }
                assert forall|k: int| 0 <= k < all.len() && (#[trigger] all[k]).kind == InlineKind::Url
                    implies is_bare_url(t, all[k]) by {
                    if k < head.len() {
                        if k == head.len() - 1 {
                            assert(all[k] == found_span(t, f));
                        } else {
                            assert(all[k] == lead[k]);
                        }
                    } else {
                        assert(all[k] == rest[k - head.len()]);
                    }
                }
            },
        }
    }
}

/// A bare URL in a title or a note is exactly the link it shows: every URL span starts
/// with `https://` or `http://`, holds no whitespace, `)` or `]`, and ends at the end of
/// the text or right before the first whitespace, `)` or `]` after its start.
pub proof fn bare_urls_stop_at_whitespace(t: Seq<char>)
    requires
        t.len() <= usize::MAX,
    ensures
        forall|k: int| 0 <= k < spec_parse_inline(t).len()
            && (#[trigger] spec_parse_inline(t)[k]).kind == InlineKind::Url
            ==> is_bare_url(t, spec_parse_inline(t)[k]),
{
    if t.len() > 0 {
        lemma_parse_from_urls(t, 0);
    }
}

/// `[a, b)` of `t` lies between two occurrences of the delimiter `d`.
pub open spec fn enclosed_by(t: Seq<char>, a: int, b: int, d: Seq<char>) -> bool {
    occurs_at(t, d, a - d.len()) && occurs_at(t, d, b)
}

/// A bold, italic, struck or code span lies between the delimiters of its kind: `**` or
/// `__` for bold, `*` or `_` for italic, `~~` for struck text and `` ` `` for code; a
/// link's text lies between `[` and `](`, and its target runs from there to a `)`.
pub open spec fn within_own_delimiters(t: Seq<char>, sp: InlineSpan) -> bool {
    let a = sp.text_start as int;
    let b = sp.text_end as int;
    match sp.kind {
        InlineKind::Bold => enclosed_by(t, a, b, seq!['*', '*']) || enclosed_by(t, a, b, seq!['_', '_']),
        InlineKind::Italic => enclosed_by(t, a, b, seq!['*']) || enclosed_by(t, a, b, seq!['_']),
        InlineKind::Strike => enclosed_by(t, a, b, seq!['~', '~']),
        InlineKind::Code => enclosed_by(t, a, b, seq!['`']),
        InlineKind::Link => {
            &&& occurs_at(t, seq!['['], a - 1)
            &&& occurs_at(t, seq![']', '('], b)
            &&& sp.target_start as int == b + 2
            &&& occurs_at(t, seq![')'], sp.target_end as int)
        },
        _ => true,
    }
}

proof fn lemma_link_ends(t: Seq<char>, si: int, bound: Option<int>)
    requires
        0 <= si,
    ensures
        link_from(t, si, bound) matches Some((s, e)) ==> ({
            let mid = find_from(t, seq![']', '('], s);
            &&& occurs_at(t, seq!['['], s)
            &&& occurs_at(t, seq![')'], e - 1)
            &&& mid >= 0 ==> occurs_at(t, seq![']', '('], mid)
        }),
    decreases t.len() + 2 - si,
{
    let sp = find_from(t, seq!['['], si);
    lemma_find_from(t, seq!['['], si);
    if sp < si || sp >= t.len() {
    } else if bound is Some && bound.unwrap() <= sp {
    } else if occurs_at(t, seq!['[', '['], sp) {
        lemma_link_ends(t, sp + 2, bound);
    } else {
        let mid = find_from(t, seq![']', '('], sp);
        lemma_find_from(t, seq![']', '('], sp);
        lemma_find_from(t, seq![')'], mid);
        lemma_link_ends(t, sp + 1, bound);
    }
}

proof fn lemma_best_delim_candidate(t: Seq<char>, cur: int, k: int)
    requires
        0 <= cur,
        k <= 7,
        t.len() <= usize::MAX,
    ensures
        best_delim(t, cur, k) matches Some(f) ==> (f.kind matches MatchKind::Delimited(i)
            && delim_candidate(t, cur, i as int) == Some((f.start as int, f.end as int))),
    decreases k,
{
    lemma_best_delim(t, cur, k);
    if k > 0 {
        lemma_best_delim_candidate(t, cur, k - 1);
        let i = k - 1;
        lemma_delim_lens(i);
        lemma_find_from(t, delim_open(i), cur);
        let s = find_from(t, delim_open(i), cur);
        if s >= 0 {
            lemma_find_from(t, delim_close(i), s + delim_open(i).len());
        }
    }
}

proof fn lemma_candidate_occurs(t: Seq<char>, cur: int, i: int)
    requires
        0 <= cur,
    ensures
        delim_candidate(t, cur, i) matches Some((s, e)) ==> (occurs_at(t, delim_open(i), s)
            && occurs_at(t, delim_close(i), e - delim_close(i).len())),
{
    lemma_delim_lens(i);
    lemma_find_from(t, delim_open(i), cur);
    let s = find_from(t, delim_open(i), cur);
    if s >= 0 {
        lemma_find_from(t, delim_close(i), s + delim_open(i).len());
    }
}

proof fn lemma_next_found_delimited(t: Seq<char>, cur: int)
    requires
        0 <= cur < t.len(),
        t.len() <= usize::MAX,
    ensures
        next_found(t, cur) matches Some(f) ==> (f.kind matches MatchKind::Delimited(i) ==> (
            occurs_at(t, delim_open(i as int), f.start as int)
            && occurs_at(t, delim_close(i as int), f.end - delim_close(i as int).len()))),
{
    lemma_best_delim_candidate(t, cur, 7);
    let d = best_delim(t, cur, 7);
    match d {
        Some(g) => match g.kind {
            MatchKind::Delimited(i) => lemma_candidate_occurs(t, cur, i as int),
            _ => {},
        },
        None => {},
    }
}

proof fn lemma_parse_from_delimited(t: Seq<char>, cur: int)
    requires
        0 <= cur,
        t.len() <= usize::MAX,
    ensures
        forall|k: int| 0 <= k < parse_from(t, cur).len()
            ==> within_own_delimiters(t, #[trigger] parse_from(t, cur)[k]),
    decreases t.len() - cur,
{
    if cur < t.len() {
        lemma_next_found(t, cur);
        lemma_next_found_delimited(t, cur);
        match next_found(t, cur) {
            None => {},
            Some(f) => {
                link_span_facts(t, cur, f);
                let d = best_delim(t, cur, 7);
                let bound = match d {
                    Some(g) => Some(g.start as int),
                    None => None,
                };
                lemma_link_ends(t, cur, bound);
                lemma_link_from(t, cur, bound);
                lemma_best_delim(t, cur, 7);
                if f.kind is Link {
                    assert(link_from(t, cur, bound) is Some);
                    let (ls, le) = link_from(t, cur, bound).unwrap();
                    assert(f.start as int == ls && f.end as int == le);
                    let sp = found_span(t, f);
                    assert(within_own_delimiters(t, sp));
                }
                let lead = if f.start > cur { seq![plain(cur, f.start as int)] } else { Seq::empty() };
                let rest = if cur < f.end <= t.len() { parse_from(t, f.end as int) } else { Seq::empty() };
                let head = lead.push(found_span(t, f));
                let all = head + rest;
                assert(parse_from(t, cur) == all);
                if cur < f.end <= t.len() {
                    lemma_parse_from_delimited(t, f.end as int);
                }
                assert forall|k: int| 0 <= k < all.len() implies within_own_delimiters(t, #[trigger] all[k]) by {
                    if k < head.len() {
                        if k == head.len() - 1 {
                            assert(all[k] == found_span(t, f));
                        } else {
                            assert(all[k] == lead[k]);
                        }
                    } else {
                        assert(all[k] == rest[k - head.len()]);
                    }
                }
            },
        }
    }
}

/// Formatting is never given to text outside its delimiters: every bold span lies between
/// `**` or `__`, every italic span between `*` or `_`, every struck span between `~~`,
/// every code span between backticks, and every `[label](url)` link shows the label and
/// points to the url.
pub proof fn formatting_lies_within_delimiters(t: Seq<char>)
    requires
        t.len() <= usize::MAX,
    ensures
        forall|k: int| 0 <= k < spec_parse_inline(t).len()
            ==> within_own_delimiters(t, #[trigger] spec_parse_inline(t)[k]),
{
    if t.len() > 0 {
        lemma_parse_from_delimited(t, 0);
    }
}

/// An inline span with whether it is drawn struck through.
#[derive(PartialEq, Eq, Structural, Clone, Copy, Debug)]
pub struct StyledSpan {
    pub span: InlineSpan,
    pub struck: bool,
}

/// A span of a task's text drawn struck through: every span of a struck-through task, and
/// the `~~` spans of any task.
pub open spec fn styled(sp: InlineSpan, is_strikethrough: bool) -> StyledSpan {
    StyledSpan { span: sp, struck: is_strikethrough || sp.kind == InlineKind::Strike }
}

/// Split a task's text into its inline spans (see [`inline_spans`]) and mark the ones drawn
/// struck through.
pub fn parse_inline_markdown(text: &str, is_strikethrough: bool) -> (r: Vec<StyledSpan>)
    ensures
        r@ == spec_parse_inline(text@).map_values(|sp: InlineSpan| styled(sp, is_strikethrough)),
        r@.len() > 0,
{
    let spans = inline_spans(text);
    proof {
        lemma_parse_nonempty(text@);
    }
    let mut r: Vec<StyledSpan> = Vec::new();
    let mut k: usize = 0;
    while k < spans.len()
        invariant
            k <= spans@.len(),
            spans@ == spec_parse_inline(text@),
            r@ == spans@.take(k as int).map_values(|sp: InlineSpan| styled(sp, is_strikethrough)),
        decreases spans@.len() - k,
    {
        let sp = spans[k];
        let struck = is_strikethrough || match sp.kind {
            InlineKind::Strike => true,
            _ => false,
        };
        r.push(StyledSpan { span: sp, struck });
        assert(spans@.take(k + 1) =~= spans@.take(k as int).push(sp));
        assert(r@ =~= spans@.take(k + 1).map_values(|sp: InlineSpan| styled(sp, is_strikethrough)));
        k = k + 1;
    }
    assert(spans@.take(spans@.len() as int) =~= spans@);
    r
}

} // verus!
