//! Laws of the calendar list and its visibility sets.

use vstd::prelude::*;
use crate::calendars::{
    added_local, first_href_index, first_usable, has_href, merged, spec_active_calendar, usable,
    visibility_result, CalendarEntry,
};

verus! {

/// Hiding a calendar that is not hidden and then showing it again leaves the hidden set as
/// it was, whichever calendar is active.
pub proof fn hide_then_show_restores(hidden: Set<Seq<char>>, href: Seq<char>, active: Option<Seq<char>>)
    requires
        !hidden.contains(href),
    ensures
        visibility_result(visibility_result(hidden, href, false, active), href, true, active) == hidden,
{
    assert(visibility_result(visibility_result(hidden, href, false, active), href, true, active) =~= hidden);
}

proof fn lemma_has_href_push(cals: Seq<CalendarEntry>, c: CalendarEntry, h: Seq<char>)
    requires
        has_href(cals, h),
    ensures
        has_href(cals.push(c), h),
{
    let k = choose|k: int| 0 <= k < cals.len() && (#[trigger] cals[k]).href@ == h;
    assert(cals.push(c)[k] == cals[k]);
}

proof fn lemma_merged_has_extra(cals: Seq<CalendarEntry>, extra: Seq<CalendarEntry>)
    ensures
        forall|k: int| 0 <= k < extra.len() ==> has_href(merged(cals, extra), (#[trigger] extra[k]).href@),
    decreases extra.len(),
{
    if extra.len() > 0 {
        let init = extra.drop_last();
        let m = merged(cals, init);
        lemma_merged_has_extra(cals, init);
        assert forall|k: int| 0 <= k < extra.len() implies has_href(merged(cals, extra), (#[trigger] extra[k]).href@) by {
            if k < extra.len() - 1 {
                assert(extra[k] == init[k]);
                assert(has_href(m, init[k].href@));
                if !has_href(m, extra.last().href@) {
                    lemma_has_href_push(m, extra.last(), init[k].href@);
                }
            } else if !has_href(m, extra.last().href@) {
                assert(m.push(extra.last())[m.len() as int] == extra.last());
            }
        }
    }
}

proof fn lemma_merge_known(cals: Seq<CalendarEntry>, extra: Seq<CalendarEntry>)
    requires
        forall|k: int| 0 <= k < extra.len() ==> has_href(cals, (#[trigger] extra[k]).href@),
    ensures
        merged(cals, extra) == cals,
    decreases extra.len(),
{
    if extra.len() > 0 {
        let init = extra.drop_last();
        assert forall|k: int| 0 <= k < init.len() implies has_href(cals, (#[trigger] init[k]).href@) by {
            assert(init[k] == extra[k]);
        }
        lemma_merge_known(cals, init);
        assert(has_href(cals, extra[extra.len() - 1].href@));
    }
}

/// Merging the same calendars in a second time changes nothing.
pub proof fn merge_calendars_idempotent(cals: Seq<CalendarEntry>, extra: Seq<CalendarEntry>)
    ensures
        merged(merged(cals, extra), extra) == merged(cals, extra),
{
    lemma_merged_has_extra(cals, extra);
    lemma_merge_known(merged(cals, extra), extra);
}

/// Deleting a local calendar just added, under an href that neither list had and that is
/// not the default local calendar's, gives back both lists as they were.
pub proof fn add_then_delete_restores(
    old_editing: Seq<CalendarEntry>,
    old_cals: Seq<CalendarEntry>,
    editing: Seq<CalendarEntry>,
    cals: Seq<CalendarEntry>,
    href: Seq<char>,
    default_href: Seq<char>,
)
    requires
        added_local(old_editing, old_cals, editing, cals, href),
        !has_href(old_editing, href),
        !has_href(old_cals, href),
        href != default_href,
    ensures
        href != default_href && has_href(editing, href),
        editing.remove(first_href_index(editing, href)->0) == old_editing,
        cals.filter(|c: CalendarEntry| c.href@ != href) == old_cals,
{
    let n = old_editing.len() as int;
    assert(editing[n] == editing.last());
    assert(has_href(editing, href));
    crate::calendars::lemma_first_href_index(editing, href);
    let i = first_href_index(editing, href)->0;
    assert(i == n) by {
        if i < n {
            assert(editing[i] == editing.take(n)[i]);
            assert(old_editing[i].href@ == href);
        }
    }
    assert(editing.remove(n) =~= old_editing) by {
        assert forall|k: int| 0 <= k < n implies editing.remove(n)[k] == old_editing[k] by {
            assert(editing[k] == editing.take(n)[k]);
        }
    }
    let pred = |c: CalendarEntry| c.href@ != href;
    assert(cals =~= old_cals.push(editing.last())) by {
        assert forall|k: int| 0 <= k < old_cals.len() implies cals[k] == old_cals[k] by {
            assert(cals[k] == cals.take(old_cals.len() as int)[k]);
        }
    }
    lemma_filter_keeps_all(old_cals, href);
    reveal_with_fuel(Seq::<CalendarEntry>::filter, 1);
    assert(old_cals.push(editing.last()).drop_last() =~= old_cals);
}

proof fn lemma_filter_keeps_all(cals: Seq<CalendarEntry>, href: Seq<char>)
    requires
        !has_href(cals, href),
    ensures
        cals.filter(|c: CalendarEntry| c.href@ != href) == cals,
    decreases cals.len(),
{
    reveal_with_fuel(Seq::<CalendarEntry>::filter, 1);
    if cals.len() > 0 {
        let init = cals.drop_last();
        assert(!has_href(init, href)) by {
            if has_href(init, href) {
                let k = choose|k: int| 0 <= k < init.len() && (#[trigger] init[k]).href@ == href;
                assert(cals[k] == init[k]);
            }
        }
        lemma_filter_keeps_all(init, href);
        assert(cals.last() == cals[cals.len() - 1]);
        assert(init.push(cals.last()) =~= cals);
    }
}

proof fn lemma_first_usable(cals: Seq<CalendarEntry>, hidden: Set<Seq<char>>, disabled: Set<Seq<char>>, trash: Seq<char>)
    ensures
        first_usable(cals, hidden, disabled, trash) matches Some(h) ==> has_href(cals, h) && !hidden.contains(h)
            && !disabled.contains(h) && h != trash,
    decreases cals.len(),
{
    if cals.len() > 0 && !usable(cals[0], hidden, disabled, trash) {
        let rest = cals.drop_first();
        lemma_first_usable(rest, hidden, disabled, trash);
        if let Some(h) = first_usable(rest, hidden, disabled, trash) {
            let k = choose|k: int| 0 <= k < rest.len() && (#[trigger] rest[k]).href@ == h;
            assert(cals[k + 1] == rest[k]);
        }
    } else if cals.len() > 0 {
        assert(has_href(cals, cals[0].href@));
    }
}

/// The calendar made active after connecting is never a hidden one, unless no calendar
/// qualifies and the local calendar is taken; and when it comes from the list, it is
/// listed, not disabled and not the trash.
pub proof fn active_calendar_is_visible(
    current: Option<Seq<char>>,
    network: Option<Seq<char>>,
    cals: Seq<CalendarEntry>,
    hidden: Set<Seq<char>>,
    disabled: Set<Seq<char>>,
    trash: Seq<char>,
    local: Seq<char>,
)
    ensures
        ({
            let a = spec_active_calendar(current, network, cals, hidden, disabled, trash, local);
            &&& !hidden.contains(a) || a == local
            &&& (a != local && Some(a) != current && Some(a) != network) ==> has_href(cals, a)
                && !disabled.contains(a) && a != trash
        }),
{
    lemma_first_usable(cals, hidden, disabled, trash);
}

} // verus!
