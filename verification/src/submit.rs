//! Routing of what the user submits in the main input: definitions only, a jump to a
//! category or a location, an edit of the task being edited, or a new task.

use vstd::prelude::*;
use vstd::string::*;
use crate::text::{spec_is_whitespace, is_whitespace, chars_of, spec_starts_with, starts_with};
use crate::highlight::has_char;
use crate::hotkeys::{key_lower, to_lowercase};
use crate::inline::occurs_at;

verus! {

/// Where a submission goes.
pub enum SubmitRoute {
    /// Nothing but definitions (aliases, goals) or a lone `:=`/`loc:` token: clear the input.
    DefinitionsOnly,
    /// A lone `#tag`: show the tasks of that category.
    JumpToTag(String),
    /// A lone `@@place` or `loc:place` with a place named: show the tasks at that place
    /// (quotes still to strip).
    JumpToLocation(String),
    /// Save the task being edited.
    SaveEdit,
    /// Create a new task.
    CreateTask,
}

/// Number of leading whitespace characters.
pub open spec fn lead_ws(s: Seq<char>) -> int
    decreases s.len(),
{
    if s.len() == 0 || !spec_is_whitespace(s[0]) {
        0
    } else {
        1 + lead_ws(s.drop_first())
    }
}

/// Number of trailing whitespace characters.
pub open spec fn trail_ws(s: Seq<char>) -> int
    decreases s.len(),
{
    if s.len() == 0 || !spec_is_whitespace(s.last()) {
        0
    } else {
        1 + trail_ws(s.drop_last())
    }
}

/// `s` without leading and trailing whitespace (what `str::trim` gives).
pub open spec fn trimmed(s: Seq<char>) -> Seq<char> {
    let a = lead_ws(s);
    if a == s.len() {
        Seq::empty()
    } else {
        s.subrange(a, s.len() - trail_ws(s))
    }
}

/// `s` without its leading repetitions of `p` (what `str::trim_start_matches` gives).
pub open spec fn strip_leading(s: Seq<char>, p: Seq<char>) -> Seq<char>
    decreases s.len(),
{
    if p.len() > 0 && spec_starts_with(s, p) {
        strip_leading(s.subrange(p.len() as int, s.len() as int), p)
    } else {
        s
    }
}

/// `p` occurs somewhere in `s`.
pub open spec fn contains_seq(s: Seq<char>, p: Seq<char>) -> bool {
    exists|i: int| #[trigger] occurs_at(s, p, i)
}

/// The route of a non-blank submission, given its trimmed text, the input left once inline
/// alias and goal definitions are taken out, and whether a task is being edited.
pub open spec fn spec_route(text: Seq<char>, clean: Seq<char>, editing: bool) -> SubmitRouteKind {
    let t = trimmed(clean);
    let tag = strip_leading(t, seq!['#']);
    let place = strip_leading(strip_leading(clean, seq!['@', '@']), seq!['l', 'o', 'c', ':']);
    if t.len() == 0 || (!has_char(t, ' ') && (contains_seq(t, seq![':', '='])
        || spec_starts_with(key_lower(t), seq!['l', 'o', 'c', ':'])) && !editing) {
        SubmitRouteKind::DefinitionsOnly
    } else if spec_starts_with(clean, seq!['#']) && !has_char(t, ' ') && !editing && tag.len() > 0
        && !contains_seq(text, seq![':', '=']) {
        SubmitRouteKind::JumpToTag(tag)
    } else if (spec_starts_with(clean, seq!['@', '@']) || spec_starts_with(clean, seq!['l', 'o', 'c', ':']))
        && !has_char(t, ' ') && !editing && place.len() > 0 {
        SubmitRouteKind::JumpToLocation(place)
    } else if editing {
        SubmitRouteKind::SaveEdit
    } else {
        SubmitRouteKind::CreateTask
    }
}

/// The shape of a route, with the text it carries.
pub enum SubmitRouteKind {
    DefinitionsOnly,
    JumpToTag(Seq<char>),
    JumpToLocation(Seq<char>),
    SaveEdit,
    CreateTask,
}

/// The shape of a route.
pub open spec fn route_kind(r: SubmitRoute) -> SubmitRouteKind {
    match r {
        SubmitRoute::DefinitionsOnly => SubmitRouteKind::DefinitionsOnly,
        SubmitRoute::JumpToTag(s) => SubmitRouteKind::JumpToTag(s@),
        SubmitRoute::JumpToLocation(s) => SubmitRouteKind::JumpToLocation(s@),
        SubmitRoute::SaveEdit => SubmitRouteKind::SaveEdit,
        SubmitRoute::CreateTask => SubmitRouteKind::CreateTask,
    }
}

proof fn lemma_lead_ws(s: Seq<char>, i: int)
    requires
        0 <= i <= s.len(),
        forall|k: int| 0 <= k < i ==> spec_is_whitespace(#[trigger] s[k]),
    ensures
        lead_ws(s) == i + lead_ws(s.subrange(i, s.len() as int)),
    decreases i,
{
    if i > 0 {
        let t = s.drop_first();
        assert forall|k: int| 0 <= k < i - 1 implies spec_is_whitespace(#[trigger] t[k]) by {
            assert(t[k] == s[k + 1]);
        }
        lemma_lead_ws(t, i - 1);
        assert(t.subrange(i - 1, t.len() as int) == s.subrange(i, s.len() as int));
    } else {
        assert(s.subrange(0, s.len() as int) == s);
    }
}

proof fn lemma_trail_ws(s: Seq<char>, j: int)
    requires
        0 <= j <= s.len(),
        forall|k: int| j <= k < s.len() ==> spec_is_whitespace(#[trigger] s[k]),
    ensures
        trail_ws(s) == (s.len() - j) + trail_ws(s.subrange(0, j)),
    decreases s.len() - j,
{
    if j < s.len() {
        let t = s.drop_last();
        assert forall|k: int| j <= k < t.len() implies spec_is_whitespace(#[trigger] t[k]) by {
            assert(t[k] == s[k]);
        }
        lemma_trail_ws(t, j);
        assert(t.subrange(0, j) == s.subrange(0, j));
    } else {
        assert(s.subrange(0, j) == s);
    }
}

/// Trim whitespace from both ends.
pub(crate) fn trim_chars(s: &Vec<char>) -> (r: Vec<char>)
    ensures
        r@ == trimmed(s@),
{
    let n = s.len();
    let mut a: usize = 0;
    while a < n && is_whitespace(s[a])
        invariant
            n == s@.len(),
            a <= n,
            forall|k: int| 0 <= k < a ==> spec_is_whitespace(#[trigger] s@[k]),
        decreases n - a,
    {
        a = a + 1;
    }
    proof {
        lemma_lead_ws(s@, a as int);
        if a < n {
            assert(s@.subrange(a as int, n as int)[0] == s@[a as int]);
        }
    }
    if a == n {
        return Vec::new();
    }
    let mut b: usize = n;
    while b > a && is_whitespace(s[b - 1])
        invariant
            n == s@.len(),
            a < n,
            a <= b <= n,
            !spec_is_whitespace(s@[a as int]),
            forall|k: int| b <= k < n ==> spec_is_whitespace(#[trigger] s@[k]),
        decreases b,
    {
        b = b - 1;
    }
    proof {
        lemma_trail_ws(s@, b as int);
        let pre = s@.subrange(0, b as int);
        assert(b > a);
        assert(pre.last() == s@[b - 1]);
    }
    let mut r: Vec<char> = Vec::new();
    let mut i = a;
    while i < b
        invariant
            a <= i <= b,
            b <= s@.len(),
            r@ == s@.subrange(a as int, i as int),
        decreases b - i,
    {
        r.push(s[i]);
        i = i + 1;
    }
    r
}

pub(crate) fn strip_leading_chars(s: &Vec<char>, p: &Vec<char>) -> (r: Vec<char>)
    requires
        p@.len() > 0,
    ensures
        r@ == strip_leading(s@, p@),
{
    let n = s.len();
    let m = p.len();
    let mut at: usize = 0;
    assert(s@.subrange(0, n as int) == s@);
    loop
        invariant
            n == s@.len(),
            m == p@.len(),
            m > 0,
            at <= n,
            strip_leading(s@, p@) == strip_leading(s@.subrange(at as int, n as int), p@),
        decreases n - at,
    {
        let mut k: usize = 0;
        let mut ok = m <= n - at;
        while ok && k < m
            invariant
                n == s@.len(),
                m == p@.len(),
                at <= n,
                ok ==> m <= n - at,
                k <= m,
                ok ==> forall|j: int| 0 <= j < k ==> s@[at + j] == p@[j],
                !ok ==> !spec_starts_with(s@.subrange(at as int, n as int), p@),
            decreases m - k + (if ok { 1int } else { 0int }),
        {
            if s[at + k] != p[k] {
                ok = false;
                assert(s@.subrange(at as int, n as int).subrange(0, m as int)[k as int] == s@[at + k]);
            } else {
                k = k + 1;
            }
        }
        let ghost rest = s@.subrange(at as int, n as int);
        if !ok {
            let mut r: Vec<char> = Vec::new();
            let mut i = at;
            while i < n
                invariant
                    at <= i <= n,
                    n == s@.len(),
                    r@ == s@.subrange(at as int, i as int),
                decreases n - i,
            {
                r.push(s[i]);
                i = i + 1;
            }
            return r;
        }
        proof {
            assert(rest.subrange(0, m as int) =~= p@);
            assert(rest.subrange(m as int, rest.len() as int) == s@.subrange(at + m, n as int));
        }
        at = at + m;
    }
}

pub(crate) fn contains_chars(s: &Vec<char>, p: &Vec<char>) -> (r: bool)
    ensures
        r == contains_seq(s@, p@),
{
    let n = s.len();
    let m = p.len();
    if m > n {
        return false;
    }
    if m == 0 {
        assert(s@.subrange(0, 0) =~= p@);
        assert(occurs_at(s@, p@, 0));
        return true;
    }
    let mut i: usize = 0;
    while i <= n - m
        invariant
            n == s@.len(),
            m == p@.len(),
            0 < m <= n,
            forall|j: int| 0 <= j < i ==> !#[trigger] occurs_at(s@, p@, j),
        decreases n - m + 1 - i,
    {
        let mut k: usize = 0;
        let mut ok = true;
        while ok && k < m
            invariant
                n == s@.len(),
                m == p@.len(),
                i + m <= n,
                k <= m,
                ok ==> forall|j: int| 0 <= j < k ==> s@[i + j] == p@[j],
                !ok ==> s@.subrange(i as int, i + m) != p@,
            decreases m - k + (if ok { 1int } else { 0int }),
        {
            if s[i + k] != p[k] {
                ok = false;
                assert(s@.subrange(i as int, i + m)[k as int] == s@[i + k]);
            } else {
                k = k + 1;
            }
        }
        if ok {
            assert(s@.subrange(i as int, i + m) =~= p@);
            assert(occurs_at(s@, p@, i as int));
            return true;
        }
        i = i + 1;
    }
    assert forall|j: int| !#[trigger] occurs_at(s@, p@, j) by {
        if 0 <= j && j + p@.len() <= s@.len() {
            assert(j < i);
        }
    }
    false
}

fn has_char_vec(s: &Vec<char>, c: char) -> (r: bool)
    ensures
        r == has_char(s@, c),
{
    let mut i: usize = 0;
    while i < s.len()
        invariant
            i <= s@.len(),
            forall|k: int| 0 <= k < i ==> s@[k] != c,
        decreases s@.len() - i,
    {
        if s[i] == c {
            return true;
        }
        i = i + 1;
    }
    false
}

fn lowercase_chars(s: &Vec<char>) -> (r: Vec<char>)
    ensures
        r@ == key_lower(s@),
{
    chars_of(to_lowercase(string_of(s).as_str()).as_str())
}

/// A string holding these characters.
#[verifier::external_body]
pub(crate) fn string_of(s: &Vec<char>) -> (r: String)
    ensures
        r@ == s@,
{
    s.iter().collect()
}

fn lit(a: &[char]) -> (r: Vec<char>)
    ensures
        r@ == a@,
{
    let mut r: Vec<char> = Vec::new();
    let mut i: usize = 0;
    while i < a.len()
        invariant
            i <= a@.len(),
            r@ == a@.subrange(0, i as int),
        decreases a@.len() - i,
    {
        r.push(a[i]);
        i = i + 1;
    }
    assert(a@.subrange(0, a@.len() as int) == a@);
    r
}

/// Whether the submitted text is blank (only whitespace): then the input is just cleared.
pub fn is_blank_submission(raw: &str) -> (r: bool)
    ensures
        r == (trimmed(raw@).len() == 0),
{
    trim_chars(&chars_of(raw)).len() == 0
}

/// Route a non-blank submission: `text` is the submitted text (trimmed), `clean` the input
/// once inline alias and goal definitions are taken out, `editing` whether a task is being
/// edited.
pub fn route_submission(text: &str, clean: &str, editing: bool) -> (r: SubmitRoute)
    ensures
        route_kind(r) == spec_route(text@, clean@, editing),
{
    let text_c = chars_of(text);
    let clean_c = chars_of(clean);
    let t = trim_chars(&clean_c);
    let has_space = has_char_vec(&t, ' ');
    let assign = lit(&[':', '=']);
    let loc = lit(&['l', 'o', 'c', ':']);
    let hash = lit(&['#']);
    let at2 = lit(&['@', '@']);
    proof {
        assert(assign@ =~= seq![':', '=']);
        assert(loc@ =~= seq!['l', 'o', 'c', ':']);
        assert(hash@ =~= seq!['#']);
        assert(at2@ =~= seq!['@', '@']);
    }
    if t.len() == 0 || (!has_space && (contains_chars(&t, &assign) || starts_with(&lowercase_chars(&t), &loc))
        && !editing) {
        return SubmitRoute::DefinitionsOnly;
    }
    if starts_with(&clean_c, &hash) && !has_space && !editing {
        let tag = strip_leading_chars(&t, &hash);
        if tag.len() > 0 && !contains_chars(&text_c, &assign) {
            return SubmitRoute::JumpToTag(string_of(&tag));
        }
    }
    if (starts_with(&clean_c, &at2) || starts_with(&clean_c, &loc)) && !has_space && !editing {
        let place = strip_leading_chars(&strip_leading_chars(&clean_c, &at2), &loc);
        if place.len() > 0 {
            return SubmitRoute::JumpToLocation(string_of(&place));
        }
    }
    if editing {
        SubmitRoute::SaveEdit
    } else {
        SubmitRoute::CreateTask
    }
}

/// Where a submission goes when its location jump names no place: an edit or a new task.
pub fn route_without_jump(editing: bool) -> (r: SubmitRoute)
    ensures
        route_kind(r) == if editing { SubmitRouteKind::SaveEdit } else { SubmitRouteKind::CreateTask },
{
    if editing {
        SubmitRoute::SaveEdit
    } else {
        SubmitRoute::CreateTask
    }
}

/// What `strip_leading` leaves is a suffix of its input.
proof fn lemma_strip_leading_suffix(s: Seq<char>, p: Seq<char>)
    ensures
        strip_leading(s, p).len() <= s.len(),
        strip_leading(s, p) =~= s.subrange(s.len() - strip_leading(s, p).len(), s.len() as int),
    decreases s.len(),
{
    if p.len() > 0 && spec_starts_with(s, p) {
        let rest = s.subrange(p.len() as int, s.len() as int);
        lemma_strip_leading_suffix(rest, p);
        assert(rest.subrange(rest.len() - strip_leading(rest, p).len(), rest.len() as int)
            =~= s.subrange(s.len() - strip_leading(rest, p).len(), s.len() as int));
    }
}

/// A submission whose trimmed input holds a space is a sentence, never a jump nor bare
/// definitions: it saves the task being edited, or else creates a new task.
pub proof fn spaced_submission_is_a_task(text: Seq<char>, clean: Seq<char>, editing: bool)
    requires
        has_char(trimmed(clean), ' '),
    ensures
        spec_route(text, clean, editing) == (if editing {
            SubmitRouteKind::SaveEdit
        } else {
            SubmitRouteKind::CreateTask
        }),
{
}

/// A jump to a category happens only when no task is being edited, and carries a
/// non-empty tag of one word: the trimmed input without its leading `#`s, with no space.
pub proof fn tag_jump_is_one_word(text: Seq<char>, clean: Seq<char>, editing: bool)
    ensures
        spec_route(text, clean, editing) matches SubmitRouteKind::JumpToTag(tag) ==> {
            &&& !editing
            &&& tag.len() > 0
            &&& !has_char(tag, ' ')
            &&& tag == strip_leading(trimmed(clean), seq!['#'])
        },
{
    let t = trimmed(clean);
    let tag = strip_leading(t, seq!['#']);
    lemma_strip_leading_suffix(t, seq!['#']);
    if spec_route(text, clean, editing) is JumpToTag {
        assert(!has_char(t, ' '));
        let k = t.len() - tag.len();
        assert forall|i: int| 0 <= i < tag.len() implies tag[i] != ' ' by {
            assert(tag[i] == t[k + i]);
        }
    }
}

/// A jump to a place happens only when no task is being edited, for input that starts with
/// `@@` or `loc:` and holds no space once trimmed; the place it carries is not empty and
/// is the end of that input, after its `@@`s and `loc:`s.
pub proof fn place_jump_shape(text: Seq<char>, clean: Seq<char>, editing: bool)
    ensures
        spec_route(text, clean, editing) matches SubmitRouteKind::JumpToLocation(place) ==> {
            &&& !editing
            &&& spec_starts_with(clean, seq!['@', '@']) || spec_starts_with(clean, seq!['l', 'o', 'c', ':'])
            &&& !has_char(trimmed(clean), ' ')
            &&& place.len() > 0
            &&& place.len() <= clean.len()
            &&& place == clean.subrange(clean.len() - place.len(), clean.len() as int)
        },
{
    let inner = strip_leading(clean, seq!['@', '@']);
    lemma_strip_leading_suffix(clean, seq!['@', '@']);
    lemma_strip_leading_suffix(inner, seq!['l', 'o', 'c', ':']);
    let place = strip_leading(inner, seq!['l', 'o', 'c', ':']);
    assert(inner.subrange(inner.len() - place.len(), inner.len() as int)
        =~= clean.subrange(clean.len() - place.len(), clean.len() as int));
}

/// A task's description once text from the description editor (or a subtask's own
/// description) is added: the new text alone when there was none, the old one alone when
/// nothing is added, else both, separated by a blank line.
pub open spec fn spec_merge_description(existing: Seq<char>, extra: Seq<char>) -> Seq<char> {
    if extra.len() == 0 {
        existing
    } else if existing.len() == 0 {
        extra
    } else {
        existing + seq!['\n', '\n'] + extra
    }
}

/// Add text to a task's description.
pub fn merge_description(existing: &str, extra: &str) -> (r: String)
    ensures
        r@ == spec_merge_description(existing@, extra@),
{
    if extra.unicode_len() == 0 {
        return String::from_str(existing);
    }
    if existing.unicode_len() == 0 {
        return String::from_str(extra);
    }
    let mut r = String::from_str(existing);
    let sep = "\n\n";
    proof {
        reveal_strlit("\n\n");
    }
    r.append(sep);
    r.append(extra);
    assert(r@ =~= spec_merge_description(existing@, extra@));
    r
}

/// The calendar a new task goes to: the active calendar, else the first listed one; none
/// when that leaves an empty href (then no task is created).
pub open spec fn spec_creation_calendar(active: Option<Seq<char>>, first: Option<Seq<char>>) -> Option<Seq<char>> {
    let h = match active {
        Some(a) => a,
        None => match first {
            Some(f) => f,
            None => Seq::empty(),
        },
    };
    if h.len() == 0 {
        None
    } else {
        Some(h)
    }
}

/// Choose the calendar a new task is created in, from the active calendar and the first
/// listed calendar's href.
pub fn creation_calendar(active: &Option<String>, first: &Option<String>) -> (r: Option<String>)
    ensures
        match r {
            Some(h) => spec_creation_calendar(crate::calendars::opt_str(*active), crate::calendars::opt_str(*first)) == Some(h@),
            None => spec_creation_calendar(crate::calendars::opt_str(*active), crate::calendars::opt_str(*first)) is None,
        },
{
    let h = match active {
        Some(a) => a.clone(),
        None => match first {
            Some(f) => f.clone(),
            None => String::new(),
        },
    };
    if h.as_str().unicode_len() == 0 {
        None
    } else {
        Some(h)
    }
}

} // verus!
