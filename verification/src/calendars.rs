//! The calendar list and its visibility: merging local calendars in, choosing the active
//! calendar, and the hidden and disabled sets that the sidebar toggles.

use vstd::prelude::*;
use vstd::string::*;
use crate::text::{spec_starts_with, starts_with, chars_of};
use crate::state::SidebarMode;

verus! {

/// A calendar: its display name, its href (`local://...` for local calendars) and the
/// colour it was given, if any (`#RRGGBB`).
#[derive(Clone, Debug)]
pub struct CalendarEntry {
    pub name: String,
    pub href: String,
    pub color: Option<String>,
}

/// The hrefs of a list of strings, as a set.
pub open spec fn str_set(v: Seq<String>) -> Set<Seq<char>> {
    Set::new(|s: Seq<char>| exists|i: int| 0 <= i < v.len() && (#[trigger] v[i])@ == s)
}

/// No string occurs twice.
pub open spec fn no_dup_strs(v: Seq<String>) -> bool {
    forall|i: int, j: int| 0 <= i < j < v.len() ==> (#[trigger] v[i])@ != (#[trigger] v[j])@
}

/// Some calendar of the list has href `h`.
pub open spec fn has_href(cals: Seq<CalendarEntry>, h: Seq<char>) -> bool {
    exists|i: int| 0 <= i < cals.len() && (#[trigger] cals[i]).href@ == h
}

/// The view of an optional string.
pub open spec fn opt_str(o: Option<String>) -> Option<Seq<char>> {
    match o {
        Some(s) => Some(s@),
        None => None,
    }
}

/// `cals` with each calendar of `extra` appended when no calendar before it has its href.
pub open spec fn merged(cals: Seq<CalendarEntry>, extra: Seq<CalendarEntry>) -> Seq<CalendarEntry>
    decreases extra.len(),
{
    if extra.len() == 0 {
        cals
    } else {
        let m = merged(cals, extra.drop_last());
        if has_href(m, extra.last().href@) {
            m
        } else {
            m.push(extra.last())
        }
    }
}

fn find_href(cals: &Vec<CalendarEntry>, h: &String) -> (r: bool)
    ensures
        r == has_href(cals@, h@),
{
    let mut i: usize = 0;
    while i < cals.len()
        invariant
            i <= cals@.len(),
            forall|k: int| 0 <= k < i ==> (#[trigger] cals@[k]).href@ != h@,
        decreases cals@.len() - i,
    {
        if cals[i].href == *h {
            return true;
        }
        i = i + 1;
    }
    false
}

fn dup_opt_string(o: &Option<String>) -> (r: Option<String>)
    ensures
        r == *o,
{
    match o {
        Some(s) => Some(s.clone()),
        None => None,
    }
}

fn dup_entry(c: &CalendarEntry) -> (r: CalendarEntry)
    ensures
        r == *c,
{
    CalendarEntry { name: c.name.clone(), href: c.href.clone(), color: dup_opt_string(&c.color) }
}

/// Add the calendars of `extra` whose href the list does not have yet, in order.
pub fn merge_calendars(cals: &mut Vec<CalendarEntry>, extra: &Vec<CalendarEntry>)
    ensures
        final(cals)@ == merged(old(cals)@, extra@),
{
    let ghost start = cals@;
    let mut i: usize = 0;
    while i < extra.len()
        invariant
            i <= extra@.len(),
            cals@ == merged(start, extra@.take(i as int)),
        decreases extra@.len() - i,
    {
        assert(extra@.take(i + 1).drop_last() == extra@.take(i as int));
        assert(extra@.take(i + 1).last() == extra@[i as int]);
        if !find_href(cals, &extra[i].href) {
            let e = dup_entry(&extra[i]);
            assert(e == extra@[i as int]);
            cals.push(e);
        }
        i = i + 1;
    }
    assert(extra@.take(extra@.len() as int) == extra@);
}

/// Whether `h` is one of `v`.
pub fn contains_str(v: &Vec<String>, h: &String) -> (r: bool)
    ensures
        r == str_set(v@).contains(h@),
{
    let mut i: usize = 0;
    while i < v.len()
        invariant
            i <= v@.len(),
            forall|k: int| 0 <= k < i ==> (#[trigger] v@[k])@ != h@,
        decreases v@.len() - i,
    {
        if v[i] == *h {
            assert(str_set(v@).contains(h@)) by {
                assert(v@[i as int]@ == h@);
            }
            return true;
        }
        i = i + 1;
    }
    false
}

/// The calendar to make active after connecting: the current one if it is listed and not
/// hidden, else the server's default if not hidden, else the first listed calendar that is
/// neither hidden, disabled, the trash nor `local://recovery`, else the local calendar.
pub open spec fn spec_active_calendar(
    current: Option<Seq<char>>,
    network: Option<Seq<char>>,
    cals: Seq<CalendarEntry>,
    hidden: Set<Seq<char>>,
    disabled: Set<Seq<char>>,
    trash: Seq<char>,
    local: Seq<char>,
) -> Seq<char> {
    if current is Some && has_href(cals, current.unwrap()) && !hidden.contains(current.unwrap()) {
        current.unwrap()
    } else if network is Some && !hidden.contains(network.unwrap()) {
        network.unwrap()
    } else {
        match first_usable(cals, hidden, disabled, trash) {
            Some(h) => h,
            None => local,
        }
    }
}

/// Whether a calendar may become active by default.
pub open spec fn usable(c: CalendarEntry, hidden: Set<Seq<char>>, disabled: Set<Seq<char>>, trash: Seq<char>) -> bool {
    !hidden.contains(c.href@) && !disabled.contains(c.href@) && c.href@ != trash
        && c.href@ != seq!['l', 'o', 'c', 'a', 'l', ':', '/', '/', 'r', 'e', 'c', 'o', 'v', 'e', 'r', 'y']
}

/// The href of the first usable calendar.
pub open spec fn first_usable(cals: Seq<CalendarEntry>, hidden: Set<Seq<char>>, disabled: Set<Seq<char>>, trash: Seq<char>) -> Option<Seq<char>>
    decreases cals.len(),
{
    if cals.len() == 0 {
        None
    } else if usable(cals[0], hidden, disabled, trash) {
        Some(cals[0].href@)
    } else {
        first_usable(cals.drop_first(), hidden, disabled, trash)
    }
}

fn recovery_href() -> (r: String)
    ensures
        r@ == seq!['l', 'o', 'c', 'a', 'l', ':', '/', '/', 'r', 'e', 'c', 'o', 'v', 'e', 'r', 'y'],
{
    let r = String::from_str("local://recovery");
    proof {
        reveal_strlit("local://recovery");
        assert(r@ =~= seq!['l', 'o', 'c', 'a', 'l', ':', '/', '/', 'r', 'e', 'c', 'o', 'v', 'e', 'r', 'y']);
    }
    r
}

/// Choose the active calendar after connecting to the server.
pub fn choose_active_calendar(
    current: &Option<String>,
    network: &Option<String>,
    cals: &Vec<CalendarEntry>,
    hidden: &Vec<String>,
    disabled: &Vec<String>,
    trash: &String,
    local: &String,
) -> (r: String)
    ensures
        r@ == spec_active_calendar(opt_str(*current), opt_str(*network), cals@, str_set(hidden@), str_set(disabled@), trash@, local@),
{
    match current {
        Some(c) => {
            if find_href(cals, c) && !contains_str(hidden, c) {
                return c.clone();
            }
        },
        None => {},
    }
    match network {
        Some(n) => {
            if !contains_str(hidden, n) {
                return n.clone();
            }
        },
        None => {},
    }
    let recovery = recovery_href();
    let ghost target = spec_active_calendar(opt_str(*current), opt_str(*network), cals@, str_set(hidden@), str_set(disabled@), trash@, local@);
    assert(target == match first_usable(cals@, str_set(hidden@), str_set(disabled@), trash@) {
        Some(h) => h,
        None => local@,
    });
    assert(cals@.subrange(0, cals@.len() as int) =~= cals@);
    let mut i: usize = 0;
    while i < cals.len()
        invariant
            i <= cals@.len(),
            recovery@ == seq!['l', 'o', 'c', 'a', 'l', ':', '/', '/', 'r', 'e', 'c', 'o', 'v', 'e', 'r', 'y'],
            target == spec_active_calendar(opt_str(*current), opt_str(*network), cals@, str_set(hidden@), str_set(disabled@), trash@, local@),
            target == match first_usable(cals@, str_set(hidden@), str_set(disabled@), trash@) {
                Some(h) => h,
                None => local@,
            },
            first_usable(cals@, str_set(hidden@), str_set(disabled@), trash@)
                == first_usable(cals@.subrange(i as int, cals@.len() as int), str_set(hidden@), str_set(disabled@), trash@),
        decreases cals@.len() - i,
    {
        let h = &cals[i].href;
        let ghost rest = cals@.subrange(i as int, cals@.len() as int);
        assert(rest[0] == cals@[i as int]);
        assert(rest.drop_first() == cals@.subrange(i + 1, cals@.len() as int));
        if !contains_str(hidden, h) && !contains_str(disabled, h) && *h != *trash && *h != recovery {
            assert(usable(rest[0], str_set(hidden@), str_set(disabled@), trash@));
            return h.clone();
        }
        i = i + 1;
    }
    assert(cals@.subrange(i as int, cals@.len() as int).len() == 0);
    local.clone()
}

/// The calendar a configured default names: the first calendar whose name or href equals it.
pub open spec fn spec_default_calendar(cals: Seq<CalendarEntry>, def: Seq<char>) -> Option<Seq<char>>
    decreases cals.len(),
{
    if cals.len() == 0 {
        None
    } else if cals[0].name@ == def || cals[0].href@ == def {
        Some(cals[0].href@)
    } else {
        spec_default_calendar(cals.drop_first(), def)
    }
}

/// Find the calendar that a configured default (a name or an href) names.
pub fn default_calendar(cals: &Vec<CalendarEntry>, def: &String) -> (r: Option<String>)
    ensures
        opt_str(r) == spec_default_calendar(cals@, def@),
{
    assert(cals@.subrange(0, cals@.len() as int) =~= cals@);
    let mut i: usize = 0;
    while i < cals.len()
        invariant
            i <= cals@.len(),
            spec_default_calendar(cals@, def@) == spec_default_calendar(cals@.subrange(i as int, cals@.len() as int), def@),
        decreases cals@.len() - i,
    {
        let ghost rest = cals@.subrange(i as int, cals@.len() as int);
        assert(rest[0] == cals@[i as int]);
        assert(rest.drop_first() == cals@.subrange(i + 1, cals@.len() as int));
        if cals[i].name == *def || cals[i].href == *def {
            return Some(cals[i].href.clone());
        }
        i = i + 1;
    }
    None
}

/// Whether an href names a local calendar.
pub open spec fn is_local(h: Seq<char>) -> bool {
    spec_starts_with(h, seq!['l', 'o', 'c', 'a', 'l', ':', '/', '/'])
}

fn local_prefix() -> (r: Vec<char>)
    ensures
        r@ == seq!['l', 'o', 'c', 'a', 'l', ':', '/', '/'],
{
    let r = vec!['l', 'o', 'c', 'a', 'l', ':', '/', '/'];
    assert(r@ =~= seq!['l', 'o', 'c', 'a', 'l', ':', '/', '/']);
    r
}

/// Replace the local calendars of the list by the edited ones: the remote calendars stay in
/// order, then come the edited local calendars.
pub fn replace_local_calendars(cals: &Vec<CalendarEntry>, edited: &Vec<CalendarEntry>) -> (r: Vec<CalendarEntry>)
    ensures
        r@ == cals@.filter(|c: CalendarEntry| !is_local(c.href@)) + edited@,
{
    let ghost pred = |c: CalendarEntry| !is_local(c.href@);
    let prefix = local_prefix();
    let mut r: Vec<CalendarEntry> = Vec::new();
    let mut i: usize = 0;
    while i < cals.len()
        invariant
            i <= cals@.len(),
            prefix@ == seq!['l', 'o', 'c', 'a', 'l', ':', '/', '/'],
            pred == (|c: CalendarEntry| !is_local(c.href@)),
            r@ == cals@.take(i as int).filter(pred),
        decreases cals@.len() - i,
    {
        proof {
            reveal_with_fuel(Seq::<_>::filter, 1);
            assert(cals@.take(i + 1).drop_last() == cals@.take(i as int));
            assert(cals@.take(i + 1).last() == cals@[i as int]);
        }
        let local = starts_with(&chars_of(cals[i].href.as_str()), &prefix);
        if !local {
            r.push(dup_entry(&cals[i]));
        }
        i = i + 1;
    }
    assert(cals@.take(cals@.len() as int) == cals@);
    let ghost kept = r@;
    let mut j: usize = 0;
    while j < edited.len()
        invariant
            j <= edited@.len(),
            r@ == kept + edited@.take(j as int),
        decreases edited@.len() - j,
    {
        r.push(dup_entry(&edited[j]));
        assert(kept + edited@.take(j + 1) =~= (kept + edited@.take(j as int)).push(edited@[j as int]));
        j = j + 1;
    }
    assert(edited@.take(edited@.len() as int) =~= edited@);
    r
}

/// Insert `h` into a duplicate-free list of strings, if absent.
pub fn insert_str(v: &mut Vec<String>, h: &String)
    requires
        no_dup_strs(old(v)@),
    ensures
        no_dup_strs(final(v)@),
        str_set(final(v)@) == str_set(old(v)@).insert(h@),
{
    if contains_str(v, h) {
        assert(str_set(v@) =~= str_set(v@).insert(h@));
        return;
    }
    let ghost before = v@;
    v.push(h.clone());
    assert forall|s: Seq<char>| #[trigger] str_set(v@).contains(s) == str_set(before).insert(h@).contains(s) by {
        if str_set(v@).contains(s) {
            let i = choose|i: int| 0 <= i < v@.len() && (#[trigger] v@[i])@ == s;
            if i < before.len() {
                assert(before[i] == v@[i]);
            }
        }
        if str_set(before).contains(s) {
            let i = choose|i: int| 0 <= i < before.len() && (#[trigger] before[i])@ == s;
            assert(v@[i] == before[i]);
        }
        if s == h@ {
            assert(v@[before.len() as int]@ == s);
        }
    }
    assert(str_set(v@) =~= str_set(before).insert(h@));
}

/// Remove `h` from a duplicate-free list of strings.
pub fn remove_str(v: &mut Vec<String>, h: &String)
    requires
        no_dup_strs(old(v)@),
    ensures
        no_dup_strs(final(v)@),
        str_set(final(v)@) == str_set(old(v)@).remove(h@),
{
    let ghost before = v@;
    let mut i: usize = 0;
    while i < v.len()
        invariant
            v@ == before,
            before == old(v)@,
            no_dup_strs(before),
            i <= v@.len(),
            forall|k: int| 0 <= k < i ==> (#[trigger] v@[k])@ != h@,
        decreases v@.len() - i,
    {
        if v[i] == *h {
            v.remove(i);
            assert forall|s: Seq<char>| #[trigger] str_set(v@).contains(s) == str_set(before).remove(h@).contains(s) by {
                if str_set(v@).contains(s) {
                    let k = choose|k: int| 0 <= k < v@.len() && (#[trigger] v@[k])@ == s;
                    if k < i {
                        assert(v@[k] == before[k]);
                    } else {
                        assert(v@[k] == before[k + 1]);
                        assert(before[k + 1]@ != before[i as int]@);
                    }
                }
                if str_set(before).remove(h@).contains(s) {
                    let k = choose|k: int| 0 <= k < before.len() && (#[trigger] before[k])@ == s;
                    assert(k != i);
                    if k < i {
                        assert(v@[k] == before[k]);
                    } else {
                        assert(v@[k - 1] == before[k]);
                    }
                }
            }
            assert(str_set(v@) =~= str_set(before).remove(h@));
            assert forall|a: int, b: int| 0 <= a < b < v@.len() implies (#[trigger] v@[a])@ != (#[trigger] v@[b])@ by {
                let a0 = if a < i { a } else { a + 1 };
                let b0 = if b < i { b } else { b + 1 };
                assert(v@[a] == before[a0]);
                assert(v@[b] == before[b0]);
            }
            return;
        }
        i = i + 1;
    }
    assert(str_set(v@) =~= str_set(before).remove(h@)) by {
        assert(!str_set(v@).contains(h@)) by {
            if str_set(v@).contains(h@) {
                let k = choose|k: int| 0 <= k < v@.len() && (#[trigger] v@[k])@ == h@;
            }
        }
    }
}

/// The hidden set once a calendar is shown or hidden: the active calendar cannot be hidden.
pub open spec fn visibility_result(hidden: Set<Seq<char>>, href: Seq<char>, visible: bool, active: Option<Seq<char>>) -> Set<Seq<char>> {
    if visible {
        hidden.remove(href)
    } else if active == Some(href) {
        hidden
    } else {
        hidden.insert(href)
    }
}

/// Show or hide a calendar. The active calendar cannot be hidden: then nothing changes and
/// the result is `false`.
pub fn set_calendar_visibility(hidden: &mut Vec<String>, href: &String, visible: bool, active: &Option<String>) -> (changed: bool)
    requires
        no_dup_strs(old(hidden)@),
    ensures
        no_dup_strs(final(hidden)@),
        changed == (visible || opt_str(*active) != Some(href@)),
        str_set(final(hidden)@) == visibility_result(str_set(old(hidden)@), href@, visible, opt_str(*active)),
        !changed ==> final(hidden)@ == old(hidden)@,
{
    let is_active = match active {
        Some(a) => *a == *href,
        None => false,
    };
    if !visible && is_active {
        return false;
    }
    if visible {
        remove_str(hidden, href);
    } else {
        insert_str(hidden, href);
    }
    true
}

/// Hide every calendar but `href` (what isolating a calendar does).
pub fn isolate_calendar(cals: &Vec<CalendarEntry>, href: &String) -> (hidden: Vec<String>)
    ensures
        no_dup_strs(hidden@),
        forall|s: Seq<char>| #[trigger] str_set(hidden@).contains(s) <==> (has_href(cals@, s) && s != href@),
{
    let mut hidden: Vec<String> = Vec::new();
    let mut i: usize = 0;
    while i < cals.len()
        invariant
            i <= cals@.len(),
            no_dup_strs(hidden@),
            forall|s: Seq<char>| #[trigger] str_set(hidden@).contains(s)
                <==> (has_href(cals@.take(i as int), s) && s != href@),
        decreases cals@.len() - i,
    {
        let ghost before = hidden@;
        if cals[i].href != *href {
            insert_str(&mut hidden, &cals[i].href);
        }
        assert forall|s: Seq<char>| #[trigger] str_set(hidden@).contains(s)
            <==> (has_href(cals@.take(i + 1), s) && s != href@) by {
            if has_href(cals@.take(i + 1), s) {
                let k = choose|k: int| 0 <= k < i + 1 && (#[trigger] cals@.take(i + 1)[k]).href@ == s;
                if k < i {
                    assert(cals@.take(i as int)[k] == cals@.take(i + 1)[k]);
                }
            }
            if has_href(cals@.take(i as int), s) {
                let k = choose|k: int| 0 <= k < i && (#[trigger] cals@.take(i as int)[k]).href@ == s;
                assert(cals@.take(i + 1)[k] == cals@.take(i as int)[k]);
            }
            assert(cals@.take(i + 1)[i as int] == cals@[i as int]);
        }
        i = i + 1;
    }
    assert(cals@.take(cals@.len() as int) == cals@);
    hidden
}


/// The hrefs of the listed calendars other than `keep`.
pub open spec fn hrefs_except(cals: Seq<CalendarEntry>, keep: Option<Seq<char>>) -> Set<Seq<char>> {
    Set::new(|s: Seq<char>| has_href(cals, s) && keep != Some(s))
}

/// The href of the local trash calendar.
pub open spec fn trash_href() -> Seq<char> {
    seq!['l', 'o', 'c', 'a', 'l', ':', '/', '/', 't', 'r', 'a', 's', 'h']
}

fn trash_string() -> (r: String)
    ensures
        r@ == trash_href(),
{
    let r = String::from_str("local://trash");
    proof {
        reveal_strlit("local://trash");
        assert(r@ =~= trash_href());
    }
    r
}

/// Show or hide all calendars at once. Showing all clears the hidden set but keeps the
/// trash hidden unless it is the active calendar; hiding all hides every listed calendar
/// but the active one.
pub fn toggle_all_calendars(hidden: &mut Vec<String>, show_all: bool, cals: &Vec<CalendarEntry>, active: &Option<String>)
    requires
        no_dup_strs(old(hidden)@),
    ensures
        no_dup_strs(final(hidden)@),
        show_all && opt_str(*active) == Some(trash_href()) ==> str_set(final(hidden)@) == Set::<Seq<char>>::empty(),
        show_all && opt_str(*active) != Some(trash_href()) ==> str_set(final(hidden)@) == Set::<Seq<char>>::empty().insert(trash_href()),
        !show_all ==> str_set(final(hidden)@) == str_set(old(hidden)@).union(hrefs_except(cals@, opt_str(*active))),
{
    if show_all {
        let trash = trash_string();
        let active_is_trash = match active {
            Some(a) => *a == trash,
            None => false,
        };
        let mut fresh: Vec<String> = Vec::new();
        assert(str_set(fresh@) =~= Set::<Seq<char>>::empty());
        if !active_is_trash {
            insert_str(&mut fresh, &trash);
        }
        *hidden = fresh;
        return;
    }
    let ghost start = hidden@;
    let mut i: usize = 0;
    while i < cals.len()
        invariant
            i <= cals@.len(),
            no_dup_strs(hidden@),
            str_set(hidden@) == str_set(start).union(hrefs_except(cals@.take(i as int), opt_str(*active))),
        decreases cals@.len() - i,
    {
        let keep = match active {
            Some(a) => *a == cals[i].href,
            None => false,
        };
        if !keep {
            insert_str(hidden, &cals[i].href);
        }
        assert(str_set(hidden@) =~= str_set(start).union(hrefs_except(cals@.take(i + 1), opt_str(*active)))) by {
            assert(cals@.take(i + 1)[i as int] == cals@[i as int]);
            assert forall|s: Seq<char>| has_href(cals@.take(i + 1), s) <==> (has_href(cals@.take(i as int), s) || s == cals@[i as int].href@) by {
                if has_href(cals@.take(i + 1), s) {
                    let k = choose|k: int| 0 <= k < i + 1 && (#[trigger] cals@.take(i + 1)[k]).href@ == s;
                    if k < i {
                        assert(cals@.take(i as int)[k] == cals@.take(i + 1)[k]);
                    }
                }
                if has_href(cals@.take(i as int), s) {
                    let k = choose|k: int| 0 <= k < i && (#[trigger] cals@.take(i as int)[k]).href@ == s;
                    assert(cals@.take(i + 1)[k] == cals@.take(i as int)[k]);
                }
            }
        }
        i = i + 1;
    }
    assert(cals@.take(cals@.len() as int) == cals@);
}

/// Disable or enable a calendar. Disabling the active calendar leaves no calendar active.
pub fn toggle_calendar_disabled(disabled: &mut Vec<String>, active: &mut Option<String>, href: &String, is_disabled: bool)
    requires
        no_dup_strs(old(disabled)@),
    ensures
        no_dup_strs(final(disabled)@),
        is_disabled ==> str_set(final(disabled)@) == str_set(old(disabled)@).insert(href@),
        !is_disabled ==> str_set(final(disabled)@) == str_set(old(disabled)@).remove(href@),
        is_disabled && opt_str(*old(active)) == Some(href@) ==> *final(active) is None,
        !(is_disabled && opt_str(*old(active)) == Some(href@)) ==> *final(active) == *old(active),
{
    if is_disabled {
        insert_str(disabled, href);
        let is_active = match active {
            Some(a) => *a == *href,
            None => false,
        };
        if is_active {
            *active = None;
        }
    } else {
        remove_str(disabled, href);
    }
}

/// The position of the first calendar with href `h`, if any.
pub open spec fn first_href_index(cals: Seq<CalendarEntry>, h: Seq<char>) -> Option<int>
    decreases cals.len(),
{
    if cals.len() == 0 {
        None
    } else if cals[0].href@ == h {
        Some(0)
    } else {
        match first_href_index(cals.drop_first(), h) {
            Some(i) => Some(i + 1),
            None => None,
        }
    }
}

pub(crate) proof fn lemma_first_href_index(cals: Seq<CalendarEntry>, h: Seq<char>)
    ensures
        match first_href_index(cals, h) {
            Some(i) => 0 <= i < cals.len() && cals[i].href@ == h
                && forall|k: int| 0 <= k < i ==> (#[trigger] cals[k]).href@ != h,
            None => !has_href(cals, h),
        },
    decreases cals.len(),
{
    if cals.len() > 0 {
        lemma_first_href_index(cals.drop_first(), h);
        if cals[0].href@ != h {
            match first_href_index(cals.drop_first(), h) {
                Some(i) => {
                    assert forall|k: int| 0 <= k < i + 1 implies (#[trigger] cals[k]).href@ != h by {
                        if k > 0 {
                            assert(cals[k] == cals.drop_first()[k - 1]);
                        }
                    }
                },
                None => {
                    if has_href(cals, h) {
                        let k = choose|k: int| 0 <= k < cals.len() && (#[trigger] cals[k]).href@ == h;
                        assert(cals.drop_first()[k - 1] == cals[k]);
                    }
                },
            }
        }
    }
}

fn first_with_href(cals: &Vec<CalendarEntry>, h: &String) -> (r: Option<usize>)
    ensures
        match r {
            Some(i) => first_href_index(cals@, h@) == Some(i as int),
            None => first_href_index(cals@, h@) is None,
        },
{
    assert(cals@.subrange(0, cals@.len() as int) =~= cals@);
    let mut i: usize = 0;
    while i < cals.len()
        invariant
            i <= cals@.len(),
            first_href_index(cals@, h@) == match first_href_index(cals@.subrange(i as int, cals@.len() as int), h@) {
                Some(j) => Some(j + i),
                None => None::<int>,
            },
        decreases cals@.len() - i,
    {
        let ghost rest = cals@.subrange(i as int, cals@.len() as int);
        assert(rest[0] == cals@[i as int]);
        assert(rest.drop_first() == cals@.subrange(i + 1, cals@.len() as int));
        if cals[i].href == *h {
            return Some(i);
        }
        i = i + 1;
    }
    None
}

/// The calendar a new local calendar starts as: named `New Calendar`, at `href`, with no
/// colour.
pub open spec fn is_new_local_calendar(c: CalendarEntry, href: Seq<char>) -> bool {
    &&& c.name@ == seq!['N', 'e', 'w', ' ', 'C', 'a', 'l', 'e', 'n', 'd', 'a', 'r']
    &&& c.href@ == href
    &&& c.color is None
}

/// The lists after a new local calendar at `href` is added: it joins the edited local
/// calendars, and the calendar list when no calendar there has that href yet.
pub open spec fn added_local(
    old_editing: Seq<CalendarEntry>,
    old_cals: Seq<CalendarEntry>,
    editing: Seq<CalendarEntry>,
    cals: Seq<CalendarEntry>,
    href: Seq<char>,
) -> bool {
    &&& editing.len() == old_editing.len() + 1
    &&& editing.take(old_editing.len() as int) == old_editing
    &&& is_new_local_calendar(editing.last(), href)
    &&& has_href(old_cals, href) ==> cals == old_cals
    &&& !has_href(old_cals, href) ==> cals.len() == old_cals.len() + 1
        && cals.take(old_cals.len() as int) == old_cals && cals.last() == editing.last()
}

fn new_local_entry(href: &String) -> (c: CalendarEntry)
    ensures
        is_new_local_calendar(c, href@),
{
    let name = String::from_str("New Calendar");
    proof {
        reveal_strlit("New Calendar");
        assert(name@ =~= seq!['N', 'e', 'w', ' ', 'C', 'a', 'l', 'e', 'n', 'd', 'a', 'r']);
    }
    CalendarEntry { name, href: href.clone(), color: None }
}

/// Add a local calendar with the given id: its href is `local://` and the id.
pub fn add_local_calendar_with_id(editing: &mut Vec<CalendarEntry>, cals: &mut Vec<CalendarEntry>, id: &str) -> (href: String)
    ensures
        href@ == seq!['l', 'o', 'c', 'a', 'l', ':', '/', '/'] + id@,
        added_local(old(editing)@, old(cals)@, final(editing)@, final(cals)@, href@),
{
    let mut href = String::from_str("local://");
    proof {
        reveal_strlit("local://");
    }
    href.append(id);
    assert(href@ =~= seq!['l', 'o', 'c', 'a', 'l', ':', '/', '/'] + id@);
    let entry = new_local_entry(&href);
    editing.push(dup_entry(&entry));
    assert(editing@.take(editing@.len() - 1) =~= old(editing)@);
    if !find_href(cals, &href) {
        cals.push(entry);
        assert(cals@.take(cals@.len() - 1) =~= old(cals)@);
    }
    href
}

/// A fresh calendar id: the hyphenated form of a random (version 4) UUID, from
/// `uuid::Uuid::new_v4`. It is random, so nothing is promised of it but its length. It
/// panics only where the system gives no random bytes.
#[verifier::external_body]
fn new_calendar_id() -> (id: String)
    ensures
        id@.len() == 36,
{
    uuid::Uuid::new_v4().to_string()
}

/// Add a local calendar under a fresh random id.
pub fn add_local_calendar(editing: &mut Vec<CalendarEntry>, cals: &mut Vec<CalendarEntry>) -> (href: String)
    ensures
        href@.len() == 44,
        spec_starts_with(href@, seq!['l', 'o', 'c', 'a', 'l', ':', '/', '/']),
        added_local(old(editing)@, old(cals)@, final(editing)@, final(cals)@, href@),
{
    let id = new_calendar_id();
    let href = add_local_calendar_with_id(editing, cals, id.as_str());
    assert(href@.subrange(0, 8) =~= seq!['l', 'o', 'c', 'a', 'l', ':', '/', '/']);
    href
}

/// Delete a local calendar: the default local calendar cannot be deleted, and an href that
/// is not among the edited local calendars changes nothing (`false`). Else its first entry
/// leaves the edited list and every calendar with that href leaves the calendar list.
pub fn delete_local_calendar(editing: &mut Vec<CalendarEntry>, cals: &mut Vec<CalendarEntry>, href: &String, default_href: &String) -> (deleted: bool)
    ensures
        deleted == (href@ != default_href@ && has_href(old(editing)@, href@)),
        !deleted ==> final(editing)@ == old(editing)@ && final(cals)@ == old(cals)@,
        deleted ==> final(editing)@ == old(editing)@.remove(first_href_index(old(editing)@, href@)->0)
            && final(cals)@ == old(cals)@.filter(|c: CalendarEntry| c.href@ != href@),
{
    proof {
        lemma_first_href_index(editing@, href@);
    }
    if *href == *default_href {
        return false;
    }
    match first_with_href(editing, href) {
        None => false,
        Some(i) => {
            editing.remove(i);
            let ghost pred = |c: CalendarEntry| c.href@ != href@;
            let mut kept: Vec<CalendarEntry> = Vec::new();
            let mut j: usize = 0;
            while j < cals.len()
                invariant
                    j <= cals@.len(),
                    pred == (|c: CalendarEntry| c.href@ != href@),
                    kept@ == cals@.take(j as int).filter(pred),
                decreases cals@.len() - j,
            {
                proof {
                    reveal_with_fuel(Seq::<_>::filter, 1);
                    assert(cals@.take(j + 1).drop_last() == cals@.take(j as int));
                    assert(cals@.take(j + 1).last() == cals@[j as int]);
                }
                if cals[j].href != *href {
                    kept.push(dup_entry(&cals[j]));
                }
                j = j + 1;
            }
            assert(cals@.take(cals@.len() as int) == cals@);
            *cals = kept;
            true
        },
    }
}

/// Rename a local calendar: the first edited local calendar with that href, and the first
/// calendar of the list with it, take the new name. An href that is not among the edited
/// local calendars changes nothing (`false`).
pub fn rename_local_calendar(editing: &mut Vec<CalendarEntry>, cals: &mut Vec<CalendarEntry>, href: &String, name: &String) -> (renamed: bool)
    ensures
        renamed == has_href(old(editing)@, href@),
        !renamed ==> final(editing)@ == old(editing)@ && final(cals)@ == old(cals)@,
        renamed ==> ({
            let i = first_href_index(old(editing)@, href@)->0;
            final(editing)@ == old(editing)@.update(i, CalendarEntry { name: *name, ..old(editing)@[i] })
        }),
        renamed ==> match first_href_index(old(cals)@, href@) {
            Some(j) => final(cals)@ == old(cals)@.update(j, CalendarEntry { name: *name, ..old(cals)@[j] }),
            None => final(cals)@ == old(cals)@,
        },
{
    proof {
        lemma_first_href_index(editing@, href@);
    }
    match first_with_href(editing, href) {
        None => false,
        Some(i) => {
            let mut e = dup_entry(&editing[i]);
            e.name = name.clone();
            editing.set(i, e);
            proof {
                lemma_first_href_index(cals@, href@);
            }
            match first_with_href(cals, href) {
                Some(j) => {
                    let mut c = dup_entry(&cals[j]);
                    c.name = name.clone();
                    cals.set(j, c);
                },
                None => {},
            }
            true
        },
    }
}

/// Give a local calendar a colour: the first edited local calendar with that href, and the
/// first calendar of the list with it, take the colour. An href that is not among the edited
/// local calendars changes nothing (`false`).
pub fn recolor_local_calendar(editing: &mut Vec<CalendarEntry>, cals: &mut Vec<CalendarEntry>, href: &String, color: &String) -> (recolored: bool)
    ensures
        recolored == has_href(old(editing)@, href@),
        !recolored ==> final(editing)@ == old(editing)@ && final(cals)@ == old(cals)@,
        recolored ==> ({
            let i = first_href_index(old(editing)@, href@)->0;
            final(editing)@ == old(editing)@.update(i, CalendarEntry { color: Some(*color), ..old(editing)@[i] })
        }),
        recolored ==> match first_href_index(old(cals)@, href@) {
            Some(j) => final(cals)@ == old(cals)@.update(j, CalendarEntry { color: Some(*color), ..old(cals)@[j] }),
            None => final(cals)@ == old(cals)@,
        },
{
    proof {
        lemma_first_href_index(editing@, href@);
    }
    match first_with_href(editing, href) {
        None => false,
        Some(i) => {
            let mut e = dup_entry(&editing[i]);
            e.color = Some(color.clone());
            editing.set(i, e);
            proof {
                lemma_first_href_index(cals@, href@);
            }
            match first_with_href(cals, href) {
                Some(j) => {
                    let mut c = dup_entry(&cals[j]);
                    c.color = Some(color.clone());
                    cals.set(j, c);
                },
                None => {},
            }
            true
        },
    }
}

/// The href of the recovery calendar.
pub open spec fn recovery_href_spec() -> Seq<char> {
    seq!['l', 'o', 'c', 'a', 'l', ':', '/', '/', 'r', 'e', 'c', 'o', 'v', 'e', 'r', 'y']
}

/// Whether a calendar is one of the two special local calendars, the trash or the
/// recovery calendar.
pub open spec fn is_special(c: CalendarEntry, trash: Seq<char>) -> bool {
    c.href@ == trash || c.href@ == recovery_href_spec()
}

fn special(c: &CalendarEntry, trash: &String, recovery: &String) -> (r: bool)
    requires
        recovery@ == recovery_href_spec(),
    ensures
        r == is_special(*c, trash@),
{
    c.href == *trash || c.href == *recovery
}

/// Whether every calendar of the list but the trash and the recovery calendar is shown
/// (what the "show all" switch displays).
pub fn all_calendars_visible(cals: &Vec<CalendarEntry>, hidden: &Vec<String>, trash: &String) -> (r: bool)
    ensures
        r == forall|k: int| 0 <= k < cals@.len() && !is_special(#[trigger] cals@[k], trash@)
            ==> !str_set(hidden@).contains(cals@[k].href@),
{
    let recovery = recovery_href();
    let mut i: usize = 0;
    while i < cals.len()
        invariant
            i <= cals@.len(),
            recovery@ == recovery_href_spec(),
            forall|k: int| 0 <= k < i && !is_special(#[trigger] cals@[k], trash@)
                ==> !str_set(hidden@).contains(cals@[k].href@),
        decreases cals@.len() - i,
    {
        if !special(&cals[i], trash, &recovery) && contains_str(hidden, &cals[i].href) {
            return false;
        }
        i = i + 1;
    }
    true
}

/// Whether a calendar can receive a task moved out of `from`: another calendar, not
/// disabled, not special.
pub open spec fn is_move_target(c: CalendarEntry, from: Seq<char>, disabled: Set<Seq<char>>, trash: Seq<char>) -> bool {
    c.href@ != from && !disabled.contains(c.href@) && !is_special(c, trash)
}

/// The calendars a task of calendar `from` can be moved to, in list order.
pub fn move_targets(cals: &Vec<CalendarEntry>, from: &String, disabled: &Vec<String>, trash: &String) -> (r: Vec<CalendarEntry>)
    ensures
        r@ == cals@.filter(|c: CalendarEntry| is_move_target(c, from@, str_set(disabled@), trash@)),
{
    let ghost pred = |c: CalendarEntry| is_move_target(c, from@, str_set(disabled@), trash@);
    let recovery = recovery_href();
    let mut r: Vec<CalendarEntry> = Vec::new();
    let mut i: usize = 0;
    while i < cals.len()
        invariant
            i <= cals@.len(),
            recovery@ == recovery_href_spec(),
            pred == (|c: CalendarEntry| is_move_target(c, from@, str_set(disabled@), trash@)),
            r@ == cals@.take(i as int).filter(pred),
        decreases cals@.len() - i,
    {
        proof {
            reveal_with_fuel(Seq::<_>::filter, 1);
            assert(cals@.take(i + 1).drop_last() == cals@.take(i as int));
            assert(cals@.take(i + 1).last() == cals@[i as int]);
        }
        if cals[i].href != *from && !contains_str(disabled, &cals[i].href) && !special(&cals[i], trash, &recovery) {
            r.push(dup_entry(&cals[i]));
        }
        i = i + 1;
    }
    assert(cals@.take(cals@.len() as int) == cals@);
    r
}

/// Whether a calendar can receive the tasks of a local calendar: a remote calendar that is
/// not disabled.
pub open spec fn is_export_target(c: CalendarEntry, disabled: Set<Seq<char>>) -> bool {
    !is_local(c.href@) && !disabled.contains(c.href@)
}

/// The calendars that the tasks of the active calendar can be exported to: none unless the
/// active calendar is a local one other than the trash and the recovery calendar; then the
/// remote calendars that are not disabled, in list order.
pub fn export_targets(cals: &Vec<CalendarEntry>, active: &Option<String>, disabled: &Vec<String>, trash: &String) -> (r: Vec<CalendarEntry>)
    ensures
        (match opt_str(*active) {
            Some(a) => is_local(a) && a != trash@ && a != recovery_href_spec(),
            None => false,
        }) ==> r@ == cals@.filter(|c: CalendarEntry| is_export_target(c, str_set(disabled@))),
        !(match opt_str(*active) {
            Some(a) => is_local(a) && a != trash@ && a != recovery_href_spec(),
            None => false,
        }) ==> r@.len() == 0,
{
    let recovery = recovery_href();
    let prefix = local_prefix();
    let eligible = match active {
        Some(a) => starts_with(&chars_of(a.as_str()), &prefix) && *a != *trash && *a != recovery,
        None => false,
    };
    let mut r: Vec<CalendarEntry> = Vec::new();
    if !eligible {
        return r;
    }
    let ghost pred = |c: CalendarEntry| is_export_target(c, str_set(disabled@));
    let mut i: usize = 0;
    while i < cals.len()
        invariant
            i <= cals@.len(),
            prefix@ == seq!['l', 'o', 'c', 'a', 'l', ':', '/', '/'],
            pred == (|c: CalendarEntry| is_export_target(c, str_set(disabled@))),
            r@ == cals@.take(i as int).filter(pred),
        decreases cals@.len() - i,
    {
        proof {
            reveal_with_fuel(Seq::<_>::filter, 1);
            assert(cals@.take(i + 1).drop_last() == cals@.take(i as int));
            assert(cals@.take(i + 1).last() == cals@[i as int]);
        }
        if !starts_with(&chars_of(cals[i].href.as_str()), &prefix) && !contains_str(disabled, &cals[i].href) {
            r.push(dup_entry(&cals[i]));
        }
        i = i + 1;
    }
    assert(cals@.take(cals@.len() as int) == cals@);
    r
}

/// Everything that isolating a calendar changes: it becomes the active calendar and is
/// re-enabled, every other listed calendar is hidden, no task stays focused, and the
/// categories sidebar switches back to the calendars.
pub fn isolate_calendar_state(
    cals: &Vec<CalendarEntry>,
    href: &String,
    hidden: &mut Vec<String>,
    disabled: &mut Vec<String>,
    active: &mut Option<String>,
    focused_task: &mut Option<String>,
    mode: &mut SidebarMode,
)
    requires
        no_dup_strs(old(disabled)@),
    ensures
        *final(active) == Some(*href),
        *final(focused_task) is None,
        *final(mode) == (if *old(mode) == SidebarMode::Categories { SidebarMode::Calendars } else { *old(mode) }),
        no_dup_strs(final(hidden)@),
        forall|s: Seq<char>| #[trigger] str_set(final(hidden)@).contains(s) <==> (has_href(cals@, s) && s != href@),
        no_dup_strs(final(disabled)@),
        str_set(final(disabled)@) == str_set(old(disabled)@).remove(href@),
{
    if *mode == SidebarMode::Categories {
        *mode = SidebarMode::Calendars;
    }
    *focused_task = None;
    *active = Some(href.clone());
    *hidden = isolate_calendar(cals, href);
    remove_str(disabled, href);
}

} // verus!
