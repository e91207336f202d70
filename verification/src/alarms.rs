//! Which ringing alarms stay on screen: the ones snoozed or dismissed leave, and the ones
//! whose task or alarm changed in the store are pruned.

use vstd::prelude::*;
use vstd::string::*;
use crate::text::{chars_of, spec_starts_with, starts_with};
use crate::settings::{split_pieces, split_on};
use crate::calendars::{opt_str, recovery_href_spec};

verus! {

/// What the store says of a ringing alarm's task.
pub struct RingingCheck {
    /// The task is still in the store.
    pub task_found: bool,
    /// The task is done or cancelled.
    pub done: bool,
    /// The calendar the task is in.
    pub calendar_href: String,
    /// The task's due time as an RFC 3339 stamp, if it has one.
    pub due_stamp: Option<String>,
    /// The task's start time as an RFC 3339 stamp, if it has one.
    pub start_stamp: Option<String>,
    /// The task still lists an alarm with this alarm's uid (the first one is consulted).
    pub alarm_listed: bool,
    /// That alarm was acknowledged.
    pub alarm_acknowledged: bool,
}

/// Whether a ringing alarm stays: its task is still in the store, not done, not in the
/// trash or the recovery calendar; an implicit alarm (`implicit_due:|stamp` or
/// `implicit_start:|stamp`) only while the task's due or start time is still that stamp;
/// an explicit alarm only while the task lists it unacknowledged.
pub open spec fn spec_keeps_ringing(alarm_uid: Seq<char>, c: RingingCheck, trash: Seq<char>) -> bool {
    if !c.task_found {
        false
    } else if c.done || c.calendar_href@ == trash || c.calendar_href@ == recovery_href_spec() {
        false
    } else if spec_starts_with(alarm_uid, "implicit_"@) {
        let parts = split_pieces(alarm_uid, '|');
        if parts.len() >= 2 {
            let current = if parts[0] == "implicit_due:"@ {
                opt_str(c.due_stamp)
            } else if parts[0] == "implicit_start:"@ {
                opt_str(c.start_stamp)
            } else {
                None
            };
            current == Some(parts[1])
        } else {
            false
        }
    } else {
        c.alarm_listed && !c.alarm_acknowledged
    }
}

fn same_chars(a: &Vec<char>, b: &Vec<char>) -> (r: bool)
    ensures
        r == (a@ == b@),
{
    if a.len() != b.len() {
        return false;
    }
    let r = starts_with(a, b);
    assert(a@.subrange(0, a@.len() as int) =~= a@);
    r
}

/// Decide whether a ringing alarm stays on screen.
pub fn keeps_ringing(alarm_uid: &str, c: &RingingCheck, trash: &String) -> (r: bool)
    ensures
        r == spec_keeps_ringing(alarm_uid@, *c, trash@),
{
    if !c.task_found {
        return false;
    }
    let href = chars_of(c.calendar_href.as_str());
    if c.done || same_chars(&href, &chars_of(trash.as_str())) || same_chars(&href, &chars_of("local://recovery")) {
        proof {
            reveal_strlit("local://recovery");
            assert("local://recovery"@ =~= recovery_href_spec());
        }
        return false;
    }
    proof {
        reveal_strlit("local://recovery");
        assert("local://recovery"@ =~= recovery_href_spec());
    }
    let uid = chars_of(alarm_uid);
    if !starts_with(&uid, &chars_of("implicit_")) {
        return c.alarm_listed && !c.alarm_acknowledged;
    }
    let parts = split_on(&uid, '|');
    if parts.len() < 2 {
        return false;
    }
    let ghost views = parts@.map_values(|v: Vec<char>| v@);
    assert(views[0] == parts@[0]@ && views[1] == parts@[1]@);
    let current: Option<&String> = if same_chars(&parts[0], &chars_of("implicit_due:")) {
        c.due_stamp.as_ref()
    } else if same_chars(&parts[0], &chars_of("implicit_start:")) {
        c.start_stamp.as_ref()
    } else {
        None
    };
    match current {
        Some(stamp) => same_chars(&chars_of(stamp.as_str()), &parts[1]),
        None => false,
    }
}

/// Take a snoozed or dismissed alarm off the ringing list, given as (task uid, alarm uid)
/// pairs: every entry for that task and alarm leaves it, the others stay in order.
pub fn stop_ringing(ringing: &Vec<(String, String)>, task_uid: &String, alarm_uid: &String) -> (r: Vec<(String, String)>)
    ensures
        r@ == ringing@.filter(|e: (String, String)| !(e.0@ == task_uid@ && e.1@ == alarm_uid@)),
{
    let ghost pred = |e: (String, String)| !(e.0@ == task_uid@ && e.1@ == alarm_uid@);
    let mut r: Vec<(String, String)> = Vec::new();
    let mut i: usize = 0;
    while i < ringing.len()
        invariant
            i <= ringing@.len(),
            pred == (|e: (String, String)| !(e.0@ == task_uid@ && e.1@ == alarm_uid@)),
            r@ == ringing@.take(i as int).filter(pred),
        decreases ringing@.len() - i,
    {
        proof {
            reveal_with_fuel(Seq::<_>::filter, 1);
            assert(ringing@.take(i + 1).drop_last() == ringing@.take(i as int));
            assert(ringing@.take(i + 1).last() == ringing@[i as int]);
        }
        if !(ringing[i].0 == *task_uid && ringing[i].1 == *alarm_uid) {
            r.push((ringing[i].0.clone(), ringing[i].1.clone()));
        }
        i = i + 1;
    }
    assert(ringing@.take(ringing@.len() as int) == ringing@);
    r
}

/// The ringing list (task uid, alarm uid) after pruning its first `n` entries against what
/// the store says of each (`checks[i]` for entry `i`): the entries that keep ringing, in
/// order.
pub open spec fn pruned_ringing(ringing: Seq<(String, String)>, checks: Seq<RingingCheck>, trash: Seq<char>, n: int) -> Seq<(String, String)>
    decreases n,
{
    if n <= 0 {
        Seq::empty()
    } else {
        let r = pruned_ringing(ringing, checks, trash, n - 1);
        if spec_keeps_ringing(ringing[n - 1].1@, checks[n - 1], trash) {
            r.push(ringing[n - 1])
        } else {
            r
        }
    }
}

/// Prune the ringing list after the store changed: keep, in order, the entries whose
/// check says they still ring (`checks[i]` describes entry `i`).
pub fn prune_ringing(ringing: &Vec<(String, String)>, checks: &Vec<RingingCheck>, trash: &String) -> (r: Vec<(String, String)>)
    requires
        checks@.len() == ringing@.len(),
    ensures
        r@ == pruned_ringing(ringing@, checks@, trash@, ringing@.len() as int),
{
    let mut r: Vec<(String, String)> = Vec::new();
    let mut i: usize = 0;
    while i < ringing.len()
        invariant
            i <= ringing@.len(),
            checks@.len() == ringing@.len(),
            r@ == pruned_ringing(ringing@, checks@, trash@, i as int),
        decreases ringing@.len() - i,
    {
        if keeps_ringing(ringing[i].1.as_str(), &checks[i], trash) {
            r.push((ringing[i].0.clone(), ringing[i].1.clone()));
        }
        i = i + 1;
    }
    r
}

/// Entry `e` is one of the first `n` entries of the ringing list, and that entry still
/// rings.
pub open spec fn live_entry(ringing: Seq<(String, String)>, checks: Seq<RingingCheck>, trash: Seq<char>, n: int, e: (String, String)) -> bool {
    exists|i: int| 0 <= i < n && e.0 == (#[trigger] ringing[i]).0 && e.1 == ringing[i].1
        && spec_keeps_ringing(ringing[i].1@, checks[i], trash)
}

/// After pruning, every entry of the ringing list still rings: it comes from the list, and
/// its task is in the store, not done, not in the trash or recovery calendar, and its alarm
/// (implicit: still at the task's time; explicit: listed and unacknowledged) is live. And
/// every entry that still rings is kept.
pub proof fn pruned_ringing_is_live(ringing: Seq<(String, String)>, checks: Seq<RingingCheck>, trash: Seq<char>, n: int)
    requires
        0 <= n <= ringing.len(),
        checks.len() == ringing.len(),
    ensures
        forall|k: int| 0 <= k < pruned_ringing(ringing, checks, trash, n).len()
            ==> live_entry(ringing, checks, trash, n, #[trigger] pruned_ringing(ringing, checks, trash, n)[k]),
        forall|i: int| 0 <= i < n && spec_keeps_ringing(ringing[i].1@, checks[i], trash)
            ==> pruned_ringing(ringing, checks, trash, n).contains(#[trigger] ringing[i]),
    decreases n,
{
    if n > 0 {
        pruned_ringing_is_live(ringing, checks, trash, n - 1);
        let r = pruned_ringing(ringing, checks, trash, n - 1);
        let p = pruned_ringing(ringing, checks, trash, n);
        let keep = spec_keeps_ringing(ringing[n - 1].1@, checks[n - 1], trash);
        assert forall|k: int| 0 <= k < p.len() implies live_entry(ringing, checks, trash, n, #[trigger] p[k]) by {
            if k < r.len() {
                assert(p[k] == r[k]);
                assert(live_entry(ringing, checks, trash, n - 1, r[k]));
                let i = choose|i: int| 0 <= i < n - 1 && r[k].0 == (#[trigger] ringing[i]).0 && r[k].1 == ringing[i].1
                    && spec_keeps_ringing(ringing[i].1@, checks[i], trash);
                assert(0 <= i < n && p[k].0 == ringing[i].0 && p[k].1 == ringing[i].1);
            } else {
                assert(keep);
                assert(p[k] == ringing[n - 1]);
                assert(p[k].0 == ringing[n - 1].0 && p[k].1 == ringing[n - 1].1);
            }
        }
        assert forall|i: int| 0 <= i < n && spec_keeps_ringing(ringing[i].1@, checks[i], trash)
            implies p.contains(#[trigger] ringing[i]) by {
            if i < n - 1 {
                let j = choose|j: int| 0 <= j < r.len() && r[j] == ringing[i];
                assert(p[j] == r[j]);
            } else {
                assert(p[r.len() as int] == ringing[i]);
            }
        }
    }
}

} // verus!
