//! The task-list filters that the sidebar and the search bar toggle: selected categories
//! and locations, expanded task details, and the quick filter in the search text.

use vstd::prelude::*;
use vstd::string::*;
use crate::text::chars_of;
use crate::submit::{trimmed, trim_chars, string_of, contains_seq, contains_chars, lead_ws, trail_ws};
use crate::inline::occurs_at;
use crate::text::spec_is_whitespace;
use crate::inline::occurs_at_exec;
use crate::calendars::{str_set, no_dup_strs, contains_str, insert_str, remove_str};

verus! {

/// The position of the first string equal to `x`, if any.
pub open spec fn first_index_of(v: Seq<String>, x: Seq<char>) -> Option<int>
    decreases v.len(),
{
    if v.len() == 0 {
        None
    } else if v[0]@ == x {
        Some(0)
    } else {
        match first_index_of(v.drop_first(), x) {
            Some(i) => Some(i + 1),
            None => None,
        }
    }
}

proof fn lemma_first_index_of(v: Seq<String>, x: Seq<char>)
    ensures
        match first_index_of(v, x) {
            Some(i) => 0 <= i < v.len() && v[i]@ == x,
            None => forall|k: int| 0 <= k < v.len() ==> (#[trigger] v[k])@ != x,
        },
    decreases v.len(),
{
    if v.len() > 0 {
        lemma_first_index_of(v.drop_first(), x);
        if first_index_of(v, x) is None {
            assert forall|k: int| 0 <= k < v.len() implies (#[trigger] v[k])@ != x by {
                if k > 0 {
                    assert(v[k] == v.drop_first()[k - 1]);
                }
            }
        } else if v[0]@ != x {
            let i = first_index_of(v.drop_first(), x)->0;
            assert(v[i + 1] == v.drop_first()[i]);
        }
    }
}

fn find_first(v: &Vec<String>, x: &String) -> (r: Option<usize>)
    ensures
        match r {
            Some(i) => first_index_of(v@, x@) == Some(i as int),
            None => first_index_of(v@, x@) is None,
        },
{
    assert(v@.subrange(0, v@.len() as int) =~= v@);
    let mut i: usize = 0;
    while i < v.len()
        invariant
            i <= v@.len(),
            first_index_of(v@, x@) == match first_index_of(v@.subrange(i as int, v@.len() as int), x@) {
                Some(j) => Some(j + i),
                None => None::<int>,
            },
        decreases v@.len() - i,
    {
        let ghost rest = v@.subrange(i as int, v@.len() as int);
        assert(rest[0] == v@[i as int]);
        assert(rest.drop_first() == v@.subrange(i + 1, v@.len() as int));
        if v[i] == *x {
            return Some(i);
        }
        i = i + 1;
    }
    None
}

/// A selection once `item` is toggled: its first occurrence leaves it, or, when it is not
/// there, it is added at the end.
pub open spec fn toggled(selected: Seq<String>, item: String) -> Seq<String> {
    match first_index_of(selected, item@) {
        Some(i) => selected.remove(i),
        None => selected.push(item),
    }
}

/// A set once `x` is toggled: removed when it holds `x`, added otherwise.
pub open spec fn toggled_set(s: Set<Seq<char>>, x: Seq<char>) -> Set<Seq<char>> {
    if s.contains(x) {
        s.remove(x)
    } else {
        s.insert(x)
    }
}

/// Toggle a selected category or location.
pub fn toggle_selection(selected: &mut Vec<String>, item: &String)
    ensures
        final(selected)@ == toggled(old(selected)@, *item),
{
    proof {
        lemma_first_index_of(selected@, item@);
    }
    match find_first(selected, item) {
        Some(i) => {
            selected.remove(i);
        },
        None => {
            selected.push(item.clone());
        },
    }
}

/// Show or hide a task's details: the set of expanded tasks loses `uid` when it has it,
/// and gains it otherwise.
pub fn toggle_expanded(expanded: &mut Vec<String>, uid: &String)
    requires
        no_dup_strs(old(expanded)@),
    ensures
        no_dup_strs(final(expanded)@),
        str_set(final(expanded)@) == toggled_set(str_set(old(expanded)@), uid@),
{
    if contains_str(expanded, uid) {
        remove_str(expanded, uid);
    } else {
        insert_str(expanded, uid);
    }
}

/// Show or hide a task's details from its row: the set of expanded tasks is toggled and the
/// task becomes the selected one.
pub fn toggle_details(expanded: &mut Vec<String>, selected: &mut Option<String>, uid: &String)
    requires
        no_dup_strs(old(expanded)@),
    ensures
        no_dup_strs(final(expanded)@),
        str_set(final(expanded)@) == toggled_set(str_set(old(expanded)@), uid@),
        *final(selected) == Some(*uid),
{
    toggle_expanded(expanded, uid);
    *selected = Some(uid.clone());
}

/// `s` with every occurrence of `p` taken out, left to right (what `str::replace` with an
/// empty replacement gives).
pub open spec fn remove_all(s: Seq<char>, p: Seq<char>) -> Seq<char>
    decreases s.len(),
{
    if p.len() == 0 || s.len() < p.len() {
        s
    } else if s.take(p.len() as int) == p {
        remove_all(s.skip(p.len() as int), p)
    } else {
        seq![s[0]] + remove_all(s.drop_first(), p)
    }
}

fn remove_all_chars(s: &Vec<char>, p: &Vec<char>) -> (r: Vec<char>)
    ensures
        r@ == remove_all(s@, p@),
{
    if p.len() == 0 {
        let mut r: Vec<char> = Vec::new();
        let mut k: usize = 0;
        while k < s.len()
            invariant
                k <= s@.len(),
                r@ == s@.take(k as int),
            decreases s@.len() - k,
        {
            r.push(s[k]);
            assert(s@.take(k + 1) =~= s@.take(k as int).push(s@[k as int]));
            k = k + 1;
        }
        assert(s@.take(s@.len() as int) =~= s@);
        return r;
    }
    let n = s.len();
    let m = p.len();
    let mut out: Vec<char> = Vec::new();
    let mut i: usize = 0;
    assert(s@.skip(0) =~= s@);
    while i < n
        invariant
            n == s@.len(),
            m == p@.len(),
            m > 0,
            i <= n,
            remove_all(s@, p@) == out@ + remove_all(s@.skip(i as int), p@),
        decreases n - i,
    {
        let ghost rest = s@.skip(i as int);
        if occurs_at_exec(s, p.as_slice(), i) {
            assert(rest.take(m as int) =~= s@.subrange(i as int, i + m));
            assert(rest.skip(m as int) =~= s@.skip(i + m));
            i = i + m;
        } else {
            proof {
                if rest.len() >= m {
                    assert(rest.take(m as int) =~= s@.subrange(i as int, i + m));
                }
            }
            assert(rest.drop_first() =~= s@.skip(i + 1));
            assert(rest[0] == s@[i as int]);
            let ghost before = out@;
            out.push(s[i]);
            assert(before + (seq![s@[i as int]] + remove_all(s@.skip(i + 1), p@))
                =~= out@ + remove_all(s@.skip(i + 1), p@));
            i = i + 1;
        }
    }
    assert(s@.skip(n as int) =~= Seq::<char>::empty());
    assert(out@ + Seq::<char>::empty() =~= out@);
    out
}

/// The search text once the quick filter is toggled: when the text holds the quick filter
/// term, every occurrence is taken out and the rest trimmed; else the term is put in front
/// of the text, with a space when the text is not empty.
pub open spec fn spec_quick_filter(current: Seq<char>, term: Seq<char>) -> Seq<char> {
    if contains_seq(current, term) {
        trimmed(remove_all(current, term))
    } else if current.len() == 0 {
        term
    } else {
        term + seq![' '] + current
    }
}

/// Toggle the quick filter term in the search text.
pub fn toggle_quick_filter(current: &str, term: &str) -> (r: String)
    ensures
        r@ == spec_quick_filter(current@, term@),
{
    let c = chars_of(current);
    let t = chars_of(term);
    if contains_chars(&c, &t) {
        return string_of(&trim_chars(&remove_all_chars(&c, &t)));
    }
    if c.len() == 0 {
        return string_of(&t);
    }
    let mut out = t.clone();
    out.push(' ');
    let ghost head = out@;
    let mut i: usize = 0;
    while i < c.len()
        invariant
            i <= c@.len(),
            out@ == head + c@.take(i as int),
        decreases c@.len() - i,
    {
        out.push(c[i]);
        assert(c@.take(i + 1) =~= c@.take(i as int).push(c@[i as int]));
        i = i + 1;
    }
    assert(c@.take(c@.len() as int) =~= c@);
    assert(out@ =~= t@ + seq![' '] + c@);
    string_of(&out)
}

/// Toggling a category or location that is not selected, and then toggling it again,
/// gives back the selection as it was.
pub proof fn toggle_selection_twice(selected: Seq<String>, item: String)
    requires
        first_index_of(selected, item@) is None,
    ensures
        toggled(toggled(selected, item), item) == selected,
{
    lemma_first_index_of(selected, item@);
    lemma_first_index_after(selected, item);
    assert(selected.push(item).remove(selected.len() as int) =~= selected);
}

proof fn lemma_first_index_after(selected: Seq<String>, item: String)
    requires
        first_index_of(selected, item@) is None,
    ensures
        first_index_of(selected.push(item), item@) == Some(selected.len() as int),
    decreases selected.len(),
{
    if selected.len() > 0 {
        lemma_first_index_after(selected.drop_first(), item);
        assert(selected.push(item).drop_first() =~= selected.drop_first().push(item));
    } else {
        assert(selected.push(item)[0] == item);
    }
}

/// Showing or hiding a task's details twice leaves the set of expanded tasks as it was.
pub proof fn toggle_expanded_twice(expanded: Set<Seq<char>>, uid: Seq<char>)
    ensures
        toggled_set(toggled_set(expanded, uid), uid) == expanded,
{
    assert(toggled_set(toggled_set(expanded, uid), uid) =~= expanded);
}

proof fn lemma_remove_all_absent(s: Seq<char>, p: Seq<char>)
    requires
        p.len() > 0,
        !contains_seq(s, p),
    ensures
        remove_all(s, p) == s,
    decreases s.len(),
{
    if s.len() >= p.len() {
        assert(s.take(p.len() as int) != p) by {
            if s.take(p.len() as int) == p {
                assert(s.subrange(0, p.len() as int) == s.take(p.len() as int));
                assert(occurs_at(s, p, 0));
            }
        }
        let t = s.drop_first();
        assert(!contains_seq(t, p)) by {
            if contains_seq(t, p) {
                let i = choose|i: int| #[trigger] occurs_at(t, p, i);
                assert(s.subrange(i + 1, i + 1 + p.len()) =~= t.subrange(i, i + p.len()));
                assert(occurs_at(s, p, i + 1));
            }
        }
        lemma_remove_all_absent(t, p);
        assert(seq![s[0]] + t =~= s);
    }
}

proof fn lemma_lead_ws_chars(s: Seq<char>)
    ensures
        0 <= lead_ws(s) <= s.len(),
        forall|k: int| 0 <= k < lead_ws(s) ==> spec_is_whitespace(#[trigger] s[k]),
        lead_ws(s) < s.len() ==> !spec_is_whitespace(s[lead_ws(s)]),
    decreases s.len(),
{
    if s.len() > 0 && spec_is_whitespace(s[0]) {
        let t = s.drop_first();
        lemma_lead_ws_chars(t);
        assert forall|k: int| 0 <= k < lead_ws(s) implies spec_is_whitespace(#[trigger] s[k]) by {
            if k > 0 {
                assert(s[k] == t[k - 1]);
            }
        }
        if lead_ws(s) < s.len() {
            assert(s[lead_ws(s)] == t[lead_ws(t)]);
        }
    }
}

proof fn lemma_trail_ws_chars(s: Seq<char>)
    ensures
        0 <= trail_ws(s) <= s.len(),
        forall|k: int| s.len() - trail_ws(s) <= k < s.len() ==> spec_is_whitespace(#[trigger] s[k]),
    decreases s.len(),
{
    if s.len() > 0 && spec_is_whitespace(s.last()) {
        let t = s.drop_last();
        lemma_trail_ws_chars(t);
        assert forall|k: int| s.len() - trail_ws(s) <= k < s.len() implies spec_is_whitespace(#[trigger] s[k]) by {
            if k < s.len() - 1 {
                assert(s[k] == t[k]);
            }
        }
    }
}

proof fn lemma_trimmed_after_space(c: Seq<char>)
    requires
        c.len() > 0,
        trimmed(c) == c,
    ensures
        trimmed(seq![' '] + c) == c,
{
    let sc = seq![' '] + c;
    let a = lead_ws(c);
    let b = trail_ws(c);
    lemma_lead_ws_chars(c);
    lemma_trail_ws_chars(c);
    assert(a < c.len()) by {
        if a == c.len() {
            assert(trimmed(c).len() == 0);
        }
    }
    assert(b <= c.len() - 1 - a) by {
        if b > c.len() - 1 - a {
            assert(spec_is_whitespace(c[a]));
        }
    }
    assert(a == 0 && b == 0) by {
        assert(trimmed(c).len() == c.len() - b - a);
    }
    assert(!spec_is_whitespace(c[0]));
    assert(!spec_is_whitespace(c.last())) by {
        if spec_is_whitespace(c.last()) {
            lemma_trail_ws_chars(c.drop_last());
            assert(trail_ws(c) >= 1);
        }
    }
    assert(sc.drop_first() =~= c);
    assert(sc[0] == ' ');
    assert(spec_is_whitespace(sc[0]));
    assert(lead_ws(sc) == 1 + lead_ws(c));
    assert(lead_ws(sc) == 1);
    assert(sc.last() == c.last());
    assert(trail_ws(sc) == 0);
    assert(sc.subrange(1, sc.len() as int) =~= c);
}

/// Toggling the quick filter on and then off gives back the search text, when the text is
/// trimmed and neither it nor the text after the inserted space holds the term.
pub proof fn quick_filter_round_trip(current: Seq<char>, term: Seq<char>)
    requires
        term.len() > 0,
        trimmed(current) == current,
        !contains_seq(seq![' '] + current, term),
    ensures
        spec_quick_filter(spec_quick_filter(current, term), term) == current,
{
    assert(!contains_seq(current, term)) by {
        if contains_seq(current, term) {
            let i = choose|i: int| #[trigger] occurs_at(current, term, i);
            assert((seq![' '] + current).subrange(i + 1, i + 1 + term.len()) =~= current.subrange(i, i + term.len()));
            assert(occurs_at(seq![' '] + current, term, i + 1));
        }
    }
    if current.len() == 0 {
        assert(occurs_at(term, term, 0)) by {
            assert(term.subrange(0, term.len() as int) =~= term);
        }
        assert(term.skip(term.len() as int) =~= Seq::<char>::empty());
        assert(term.take(term.len() as int) =~= term);
        assert(remove_all(term, term) == remove_all(Seq::<char>::empty(), term));
        assert(trimmed(Seq::<char>::empty()) =~= Seq::<char>::empty());
    } else {
        let first = term + seq![' '] + current;
        let rest = seq![' '] + current;
        assert(first.subrange(0, term.len() as int) =~= term);
        assert(occurs_at(first, term, 0));
        assert(first.take(term.len() as int) =~= term);
        assert(first.skip(term.len() as int) =~= rest);
        lemma_remove_all_absent(rest, term);
        lemma_trimmed_after_space(current);
    }
}

} // verus!
