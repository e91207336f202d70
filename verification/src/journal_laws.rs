//! Laws of the journal: replaying a compacted journal gives the same tasks as replaying
//! the journal it came from, and actions recorded for other calendars do not change a
//! calendar's replay.

use vstd::prelude::*;
use crate::journal::{
    Action, CompactState, Task, compact_fold, compact_step, compacted, flatten_slots, last_slot, merge_into,
    apply_actions, pending_uids, pruned, replayed, task_map, survives_pruning, protects, is_local_href,
    lemma_last_slot_bounds, lemma_fold_lens, apply_action, lemma_flatten_push,
};

verus! {

/// Every action of `q` is about calendar `h`, and none moves a task.
pub open spec fn single_calendar(q: Seq<Action>, h: Seq<char>) -> bool {
    forall|i: int| 0 <= i < q.len() ==> !(#[trigger] q[i] is Move) && q[i].task().calendar_href@ == h
}

/// Every creation in `q` is the first action on its task, and creates a task that `tasks`
/// does not hold yet.
pub open spec fn creations_are_new(q: Seq<Action>, tasks: Seq<Task>) -> bool {
    forall|i: int| 0 <= i < q.len() && #[trigger] q[i] is Create ==> {
        &&& forall|j: int| 0 <= j < i ==> q[j].uid() != q[i].uid()
        &&& forall|k: int| 0 <= k < tasks.len() ==> tasks[k].uid@ != q[i].uid()
    }
}

/// What an action leaves in place of its task: the task, or nothing.
pub open spec fn effect(a: Action) -> Option<Task> {
    match a {
        Action::Create(t) => Some(t),
        Action::Update(t) => Some(t),
        _ => None,
    }
}

/// The effect of the last action of `q` on task `u`, if any action is about it.
pub open spec fn last_effect(q: Seq<Action>, u: Seq<char>) -> Option<Option<Task>>
    decreases q.len(),
{
    if q.len() == 0 {
        None
    } else if q.last().uid() == u {
        Some(effect(q.last()))
    } else {
        last_effect(q.drop_last(), u)
    }
}

/// Some creation in `q` is about task `u`.
pub open spec fn created_in(q: Seq<Action>, u: Seq<char>) -> bool {
    exists|i: int| 0 <= i < q.len() && #[trigger] q[i] is Create && q[i].uid() == u
}

/// The effect of the last live slot about task `u`.
pub open spec fn last_live(slots: Seq<Option<Action>>, u: Seq<char>) -> Option<Option<Task>>
    decreases slots.len(),
{
    if slots.len() == 0 {
        None
    } else {
        match slots.last() {
            Some(a) => if a.uid() == u {
                Some(effect(a))
            } else {
                last_live(slots.drop_last(), u)
            },
            None => last_live(slots.drop_last(), u),
        }
    }
}

/// What compaction keeps true of its slots after a prefix `q` of the queue.
pub open spec fn fold_inv(q: Seq<Action>, s: CompactState, h: Seq<char>) -> bool {
    &&& s.slots.len() == s.uids.len()
    &&& forall|j: int| 0 <= j < s.slots.len() && (#[trigger] s.slots[j]) is Some ==> {
        &&& s.slots[j].unwrap().uid() == s.uids[j]
        &&& !(s.slots[j].unwrap() is Move)
        &&& s.slots[j].unwrap().task().calendar_href@ == h
    }
    &&& forall|j: int| 0 <= j < s.slots.len() && ((#[trigger] s.slots[j]) is None || s.slots[j].unwrap() is Create)
        ==> created_in(q, s.uids[j])
    &&& forall|j: int, k: int| 0 <= j < s.slots.len() && 0 <= k < s.slots.len() && k != j
        && (#[trigger] s.slots[j]) is Some && s.slots[j].unwrap() is Create ==> #[trigger] s.uids[k] != s.uids[j]
    &&& forall|u: Seq<char>| (#[trigger] last_effect(q, u) is None) == (last_slot(s.uids, u) == -1)
    &&& forall|u: Seq<char>| #[trigger] last_slot(s.uids, u) >= 0 && s.slots[last_slot(s.uids, u)] is Some
        ==> last_effect(q, u) == Some(effect(s.slots[last_slot(s.uids, u)].unwrap()))
    &&& forall|u: Seq<char>| #[trigger] last_slot(s.uids, u) >= 0 && s.slots[last_slot(s.uids, u)] is None
        ==> last_effect(q, u) == Some(None::<Task>)
            && forall|k: int| 0 <= k < s.uids.len() && k != last_slot(s.uids, u) ==> s.uids[k] != u
}

proof fn lemma_last_effect_none(q: Seq<Action>, u: Seq<char>)
    ensures
        last_effect(q, u) is None <==> forall|i: int| 0 <= i < q.len() ==> (#[trigger] q[i]).uid() != u,
    decreases q.len(),
{
    if q.len() > 0 {
        let p = q.drop_last();
        lemma_last_effect_none(p, u);
        if last_effect(q, u) is None {
            assert forall|i: int| 0 <= i < q.len() implies (#[trigger] q[i]).uid() != u by {
                if i < q.len() - 1 {
                    assert(p[i] == q[i]);
                }
            }
        } else if q.last().uid() != u {
            let i = choose|i: int| 0 <= i < p.len() && (#[trigger] p[i]).uid() == u;
            assert(q[i] == p[i]);
        }
    }
}

proof fn lemma_last_slot_push(uids: Seq<Seq<char>>, x: Seq<char>, u: Seq<char>)
    ensures
        last_slot(uids.push(x), u) == if x == u { uids.len() as int } else { last_slot(uids, u) },
{
    assert(uids.push(x).drop_last() == uids);
}

proof fn lemma_fold_step(q: Seq<Action>, h: Seq<char>)
    requires
        q.len() > 0,
        single_calendar(q, h),
        forall|i: int| 0 <= i < q.len() && #[trigger] q[i] is Create ==> forall|j: int| 0 <= j < i ==> q[j].uid() != q[i].uid(),
        fold_inv(q.drop_last(), compact_fold(q.drop_last()), h),
    ensures
        fold_inv(q, compact_fold(q), h),
{
    let p = q.drop_last();
    let a = q.last();
    let s0 = compact_fold(p);
    let s = compact_fold(q);
    let u0 = a.uid();
    let j = last_slot(s0.uids, u0);
    assert(s == compact_step(s0, a));
    lemma_last_slot_bounds(s0.uids, u0);
    assert(q[q.len() - 1] == a);
    assert(!(a is Move) && a.task().calendar_href@ == h);
    assert forall|u: Seq<char>| u != u0 implies #[trigger] last_effect(q, u) == last_effect(p, u) by {}
    assert(last_effect(q, u0) == Some(effect(a)));
    assert forall|u: Seq<char>| created_in(p, u) implies #[trigger] created_in(q, u) by {
        let i = choose|i: int| 0 <= i < p.len() && #[trigger] p[i] is Create && p[i].uid() == u;
        assert(q[i] == p[i]);
    }
    if a is Create {
        assert(created_in(q, u0)) by {
            assert(q[q.len() - 1] is Create);
        }
        assert forall|i: int| 0 <= i < p.len() implies (#[trigger] p[i]).uid() != u0 by {
            assert(q[i] == p[i]);
        }
        lemma_last_effect_none(p, u0);
    }
    if j >= 0 && s0.slots[j] is Some && merge_into(s0.slots[j].unwrap(), a) is Some {
        let x = merge_into(s0.slots[j].unwrap(), a).unwrap();
        assert(s.slots == s0.slots.update(j, x));
        assert(s.uids == s0.uids);
        let prev = s0.slots[j].unwrap();
        assert(prev.uid() == u0);
        // Slot contents.
        assert forall|k: int| 0 <= k < s.slots.len() && (#[trigger] s.slots[k]) is Some implies {
            &&& s.slots[k].unwrap().uid() == s.uids[k]
            &&& !(s.slots[k].unwrap() is Move)
            &&& s.slots[k].unwrap().task().calendar_href@ == h
        } by {
            if k != j {
                assert(s.slots[k] == s0.slots[k]);
            }
        }
        assert forall|k: int| 0 <= k < s.slots.len() && ((#[trigger] s.slots[k]) is None || s.slots[k].unwrap() is Create)
            implies created_in(q, s.uids[k]) by {
            if k != j {
                assert(s.slots[k] == s0.slots[k]);
            } else {
                assert(prev is Create);
            }
        }
        assert forall|k: int, l: int| 0 <= k < s.slots.len() && 0 <= l < s.slots.len() && l != k
            && (#[trigger] s.slots[k]) is Some && s.slots[k].unwrap() is Create implies #[trigger] s.uids[l] != s.uids[k] by {
            if k != j {
                assert(s.slots[k] == s0.slots[k]);
            } else {
                assert(prev is Create);
            }
        }
        assert forall|u: Seq<char>| (#[trigger] last_effect(q, u) is None) == (last_slot(s.uids, u) == -1) by {
            if u == u0 {
            } else {
                assert(last_effect(q, u) == last_effect(p, u));
            }
        }
        assert forall|u: Seq<char>| #[trigger] last_slot(s.uids, u) >= 0 && s.slots[last_slot(s.uids, u)] is Some
            implies last_effect(q, u) == Some(effect(s.slots[last_slot(s.uids, u)].unwrap())) by {
            if u != u0 {
                lemma_last_slot_bounds(s0.uids, u);
                assert(last_slot(s.uids, u) != j);
                assert(last_effect(q, u) == last_effect(p, u));
            }
        }
        assert forall|u: Seq<char>| #[trigger] last_slot(s.uids, u) >= 0 && s.slots[last_slot(s.uids, u)] is None
            implies last_effect(q, u) == Some(None::<Task>)
                && forall|k: int| 0 <= k < s.uids.len() && k != last_slot(s.uids, u) ==> s.uids[k] != u by {
            if u != u0 {
                lemma_last_slot_bounds(s0.uids, u);
                assert(last_slot(s.uids, u) != j);
                assert(last_effect(q, u) == last_effect(p, u));
            } else {
                assert(prev is Create);
                assert forall|k: int| 0 <= k < s.uids.len() && k != j implies s.uids[k] != u by {
                    assert(s0.uids[k] != s0.uids[j]);
                }
            }
        }
    } else {
        assert(s.slots == s0.slots.push(Some(a)));
        assert(s.uids == s0.uids.push(u0));
        let n = s0.slots.len();
        assert forall|u: Seq<char>| #[trigger] last_slot(s.uids, u) == if u0 == u { n as int } else { last_slot(s0.uids, u) } by {
            lemma_last_slot_push(s0.uids, u0, u);
        }
        if a is Create {
            assert(j == -1);
        }
        assert forall|k: int| 0 <= k < s.slots.len() && (#[trigger] s.slots[k]) is Some implies {
            &&& s.slots[k].unwrap().uid() == s.uids[k]
            &&& !(s.slots[k].unwrap() is Move)
            &&& s.slots[k].unwrap().task().calendar_href@ == h
        } by {
            if k < n {
                assert(s.slots[k] == s0.slots[k]);
                assert(s.uids[k] == s0.uids[k]);
            }
        }
        assert forall|k: int| 0 <= k < s.slots.len() && ((#[trigger] s.slots[k]) is None || s.slots[k].unwrap() is Create)
            implies created_in(q, s.uids[k]) by {
            if k < n {
                assert(s.slots[k] == s0.slots[k]);
                assert(s.uids[k] == s0.uids[k]);
            }
        }
        assert forall|k: int, l: int| 0 <= k < s.slots.len() && 0 <= l < s.slots.len() && l != k
            && (#[trigger] s.slots[k]) is Some && s.slots[k].unwrap() is Create implies #[trigger] s.uids[l] != s.uids[k] by {
            if k < n {
                assert(s.slots[k] == s0.slots[k]);
                assert(s.uids[k] == s0.uids[k]);
                if l < n {
                    assert(s.uids[l] == s0.uids[l]);
                } else {
                    // The new slot is about u0; a live creation slot about u0 would have
                    // absorbed or refused this action.
                    if s.uids[k] == u0 {
                        assert(forall|m: int| 0 <= m < n && m != k ==> s0.uids[m] != s0.uids[k]);
                        assert(last_slot(s0.uids, u0) == k) by {
                            if last_slot(s0.uids, u0) != k {
                                lemma_last_slot_bounds(s0.uids, u0);
                            }
                        }
                        assert(merge_into(s0.slots[k].unwrap(), a) is None);
                        assert(a is Create);
                        assert(last_effect(p, u0) is None);
                        assert(false);
                    }
                }
            } else {
                assert(a is Create);
                assert(l < n);
                assert(s.uids[l] == s0.uids[l]);
                lemma_last_slot_bounds(s0.uids, u0);
            }
        }
        assert forall|u: Seq<char>| (#[trigger] last_effect(q, u) is None) == (last_slot(s.uids, u) == -1) by {
            if u != u0 {
                assert(last_effect(q, u) == last_effect(p, u));
            }
        }
        assert forall|u: Seq<char>| #[trigger] last_slot(s.uids, u) >= 0 && s.slots[last_slot(s.uids, u)] is Some
            implies last_effect(q, u) == Some(effect(s.slots[last_slot(s.uids, u)].unwrap())) by {
            if u != u0 {
                lemma_last_slot_bounds(s0.uids, u);
                assert(s.slots[last_slot(s.uids, u)] == s0.slots[last_slot(s0.uids, u)]);
                assert(last_effect(q, u) == last_effect(p, u));
            }
        }
        assert forall|u: Seq<char>| #[trigger] last_slot(s.uids, u) >= 0 && s.slots[last_slot(s.uids, u)] is None
            implies last_effect(q, u) == Some(None::<Task>)
                && forall|k: int| 0 <= k < s.uids.len() && k != last_slot(s.uids, u) ==> s.uids[k] != u by {
            if u != u0 {
                lemma_last_slot_bounds(s0.uids, u);
                assert(s.slots[last_slot(s.uids, u)] == s0.slots[last_slot(s0.uids, u)]);
                assert(last_effect(q, u) == last_effect(p, u));
                assert forall|k: int| 0 <= k < s.uids.len() && k != last_slot(s.uids, u) implies s.uids[k] != u by {
                    if k < n {
                        assert(s.uids[k] == s0.uids[k]);
                    }
                }
            }
        }
    }
}

proof fn lemma_fold_inv(q: Seq<Action>, h: Seq<char>)
    requires
        single_calendar(q, h),
        forall|i: int| 0 <= i < q.len() && #[trigger] q[i] is Create ==> forall|j: int| 0 <= j < i ==> q[j].uid() != q[i].uid(),
    ensures
        fold_inv(q, compact_fold(q), h),
    decreases q.len(),
{
    if q.len() == 0 {
        assert forall|u: Seq<char>| (#[trigger] last_effect(q, u) is None) == (last_slot(compact_fold(q).uids, u) == -1) by {}
    } else {
        let p = q.drop_last();
        assert forall|i: int| 0 <= i < p.len() implies !(#[trigger] p[i] is Move) && p[i].task().calendar_href@ == h by {
            assert(p[i] == q[i]);
        }
        assert forall|i: int| 0 <= i < p.len() && #[trigger] p[i] is Create implies forall|j: int| 0 <= j < i ==> p[j].uid() != p[i].uid() by {
            assert(p[i] == q[i]);
            assert forall|j: int| 0 <= j < i implies p[j].uid() != p[i].uid() by {
                assert(p[j] == q[j]);
            }
        }
        lemma_fold_inv(p, h);
        lemma_fold_step(q, h);
    }
}

proof fn lemma_flatten_last_effect(slots: Seq<Option<Action>>, u: Seq<char>)
    ensures
        last_effect(flatten_slots(slots), u) == last_live(slots, u),
    decreases slots.len(),
{
    if slots.len() > 0 {
        let p = slots.drop_last();
        lemma_flatten_last_effect(p, u);
        match slots.last() {
            Some(a) => {
                assert(flatten_slots(slots) == flatten_slots(p).push(a));
                assert(flatten_slots(slots).drop_last() == flatten_slots(p));
            },
            None => {},
        }
    }
}

proof fn lemma_last_live(s: CompactState, u: Seq<char>)
    requires
        s.slots.len() == s.uids.len(),
        forall|j: int| 0 <= j < s.slots.len() && (#[trigger] s.slots[j]) is Some ==> s.slots[j].unwrap().uid() == s.uids[j],
    ensures
        last_slot(s.uids, u) == -1 ==> last_live(s.slots, u) is None,
        last_slot(s.uids, u) >= 0 && s.slots[last_slot(s.uids, u)] is Some
            ==> last_live(s.slots, u) == Some(effect(s.slots[last_slot(s.uids, u)].unwrap())),
        last_slot(s.uids, u) >= 0 && s.slots[last_slot(s.uids, u)] is None
            && (forall|k: int| 0 <= k < s.uids.len() && k != last_slot(s.uids, u) ==> s.uids[k] != u)
            ==> last_live(s.slots, u) is None,
    decreases s.slots.len(),
{
    if s.slots.len() > 0 {
        let n = s.slots.len();
        let t = CompactState { slots: s.slots.drop_last(), uids: s.uids.drop_last() };
        assert forall|j: int| 0 <= j < t.slots.len() && (#[trigger] t.slots[j]) is Some implies t.slots[j].unwrap().uid() == t.uids[j] by {
            assert(t.slots[j] == s.slots[j]);
        }
        lemma_last_live(t, u);
        assert(s.slots[n - 1] == s.slots.last());
        if s.uids.last() == u {
            assert(last_slot(s.uids, u) == n - 1);
            if s.slots.last() is None && (forall|m: int| 0 <= m < s.uids.len() && m != last_slot(s.uids, u) ==> s.uids[m] != u) {
                assert forall|k: int| 0 <= k < t.uids.len() implies t.uids[k] != u by {
                    assert(t.uids[k] == s.uids[k]);
                }
                lemma_last_slot_bounds(t.uids, u);
                if last_slot(t.uids, u) >= 0 {
                    assert(t.uids[last_slot(t.uids, u)] == u);
                }
            }
        } else {
            assert(last_slot(s.uids, u) == last_slot(t.uids, u));
            lemma_last_slot_bounds(t.uids, u);
            if last_slot(t.uids, u) >= 0 {
                assert(s.slots[last_slot(s.uids, u)] == t.slots[last_slot(t.uids, u)]);
            }
            if s.slots.last() is Some {
                assert(s.slots.last().unwrap().uid() == s.uids[n - 1]);
            }
            if last_slot(s.uids, u) >= 0 && s.slots[last_slot(s.uids, u)] is None
                && (forall|k: int| 0 <= k < s.uids.len() && k != last_slot(s.uids, u) ==> s.uids[k] != u) {
                assert forall|k: int| 0 <= k < t.uids.len() && k != last_slot(t.uids, u) implies t.uids[k] != u by {
                    assert(t.uids[k] == s.uids[k]);
                }
            }
        }
    }
}

proof fn lemma_apply_point(m: Map<Seq<char>, Task>, q: Seq<Action>, h: Seq<char>, u: Seq<char>)
    requires
        single_calendar(q, h),
    ensures
        apply_actions(m, q, h).contains_key(u) == match last_effect(q, u) {
            None => m.contains_key(u),
            Some(e) => e is Some,
        },
        apply_actions(m, q, h).contains_key(u) ==> apply_actions(m, q, h)[u] == match last_effect(q, u) {
            None => m[u],
            Some(e) => e.unwrap(),
        },
    decreases q.len(),
{
    if q.len() > 0 {
        let p = q.drop_last();
        assert forall|i: int| 0 <= i < p.len() implies !(#[trigger] p[i] is Move) && p[i].task().calendar_href@ == h by {
            assert(p[i] == q[i]);
        }
        lemma_apply_point(m, p, h, u);
        assert(q[q.len() - 1] == q.last());
    }
}

proof fn lemma_filters_agree(tasks: Seq<Task>, f: spec_fn(Task) -> bool, g: spec_fn(Task) -> bool, u: Seq<char>)
    requires
        forall|k: int| 0 <= k < tasks.len() && (#[trigger] tasks[k]).uid@ == u ==> f(tasks[k]) == g(tasks[k]),
    ensures
        task_map(tasks.filter(f)).contains_key(u) == task_map(tasks.filter(g)).contains_key(u),
        task_map(tasks.filter(f)).contains_key(u) ==> task_map(tasks.filter(f))[u] == task_map(tasks.filter(g))[u],
    decreases tasks.len(),
{
    reveal_with_fuel(Seq::<_>::filter, 1);
    if tasks.len() > 0 {
        let p = tasks.drop_last();
        assert forall|k: int| 0 <= k < p.len() && (#[trigger] p[k]).uid@ == u implies f(p[k]) == g(p[k]) by {
            assert(p[k] == tasks[k]);
        }
        lemma_filters_agree(p, f, g, u);
        let t = tasks.last();
        assert(tasks[tasks.len() - 1] == t);
        let ff = p.filter(f);
        let gg = p.filter(g);
        if f(t) {
            assert(tasks.filter(f) == ff.push(t));
            assert(ff.push(t).drop_last() == ff);
        }
        if g(t) {
            assert(tasks.filter(g) == gg.push(t));
            assert(gg.push(t).drop_last() == gg);
        }
    }
}

proof fn lemma_absent_uid(tasks: Seq<Task>, f: spec_fn(Task) -> bool, u: Seq<char>)
    requires
        forall|k: int| 0 <= k < tasks.len() ==> (#[trigger] tasks[k]).uid@ != u,
    ensures
        !task_map(tasks.filter(f)).contains_key(u),
        !task_map(tasks).contains_key(u),
    decreases tasks.len(),
{
    reveal_with_fuel(Seq::<_>::filter, 1);
    if tasks.len() > 0 {
        let p = tasks.drop_last();
        assert forall|k: int| 0 <= k < p.len() implies (#[trigger] p[k]).uid@ != u by {
            assert(p[k] == tasks[k]);
        }
        lemma_absent_uid(p, f, u);
        let t = tasks.last();
        assert(tasks[tasks.len() - 1] == t);
        if f(t) {
            assert(tasks.filter(f).drop_last() == p.filter(f));
        }
    }
}

proof fn lemma_pending(q: Seq<Action>, h: Seq<char>, u: Seq<char>)
    requires
        single_calendar(q, h),
        last_effect(q, u) is None,
    ensures
        !pending_uids(q, h).contains(u),
{
    lemma_last_effect_none(q, u);
    if pending_uids(q, h).contains(u) {
        let i = choose|i: int| 0 <= i < q.len() && #[trigger] protects(q[i], h, u);
        assert(q[i].uid() != u);
    }
}

proof fn lemma_compacted_single_calendar(q: Seq<Action>, h: Seq<char>)
    requires
        single_calendar(q, h),
        fold_inv(q, compact_fold(q), h),
    ensures
        single_calendar(compacted(q), h),
{
    let slots = compact_fold(q).slots;
    lemma_flatten_contents(slots, h);
}

proof fn lemma_flatten_contents(slots: Seq<Option<Action>>, h: Seq<char>)
    requires
        forall|j: int| 0 <= j < slots.len() && (#[trigger] slots[j]) is Some
            ==> !(slots[j].unwrap() is Move) && slots[j].unwrap().task().calendar_href@ == h,
    ensures
        single_calendar(flatten_slots(slots), h),
    decreases slots.len(),
{
    if slots.len() > 0 {
        let p = slots.drop_last();
        assert forall|j: int| 0 <= j < p.len() && (#[trigger] p[j]) is Some
            implies !(p[j].unwrap() is Move) && p[j].unwrap().task().calendar_href@ == h by {
            assert(p[j] == slots[j]);
        }
        lemma_flatten_contents(p, h);
        let r = flatten_slots(p);
        match slots.last() {
            Some(a) => {
                assert(slots[slots.len() - 1] == slots.last());
                assert(flatten_slots(slots) == r.push(a));
                assert forall|i: int| 0 <= i < r.push(a).len()
                    implies !(#[trigger] r.push(a)[i] is Move) && r.push(a)[i].task().calendar_href@ == h by {
                    if i < r.len() {
                        assert(r.push(a)[i] == r[i]);
                    }
                }
            },
            None => {},
        }
    }
}

/// Compaction keeps what replay gives: when every queued action is about one calendar and
/// moves nothing, and each creation is the first action on a task that the list does not
/// hold yet, replaying the compacted queue over a task list gives the same tasks (by uid)
/// as replaying the whole queue.
pub proof fn compaction_preserves_replay(tasks: Seq<Task>, q: Seq<Action>, h: Seq<char>)
    requires
        single_calendar(q, h),
        creations_are_new(q, tasks),
    ensures
        replayed(tasks, compacted(q), h) == replayed(tasks, q, h),
{
    let cq = compacted(q);
    let s = compact_fold(q);
    assert forall|i: int| 0 <= i < q.len() && #[trigger] q[i] is Create
        implies forall|j: int| 0 <= j < i ==> q[j].uid() != q[i].uid() by {}
    lemma_fold_inv(q, h);
    lemma_compacted_single_calendar(q, h);
    let pq = pruned(tasks, q, h);
    let pc = pruned(tasks, cq, h);
    let m1 = task_map(pq);
    let m2 = task_map(pc);
    let f = |t: Task| survives_pruning(t, q, h);
    let g = |t: Task| survives_pruning(t, cq, h);
    assert forall|u: Seq<char>| #[trigger] replayed(tasks, cq, h).contains_key(u) == replayed(tasks, q, h).contains_key(u)
        && (replayed(tasks, q, h).contains_key(u) ==> replayed(tasks, cq, h)[u] == replayed(tasks, q, h)[u]) by {
        lemma_apply_point(m1, q, h, u);
        lemma_apply_point(m2, cq, h, u);
        lemma_flatten_last_effect(s.slots, u);
        lemma_last_live(s, u);
        lemma_last_slot_bounds(s.uids, u);
        let j = last_slot(s.uids, u);
        if last_effect(q, u) is None {
            lemma_pending(q, h, u);
            lemma_pending(cq, h, u);
            if !is_local_href(h) {
                assert forall|k: int| 0 <= k < tasks.len() && (#[trigger] tasks[k]).uid@ == u implies f(tasks[k]) == g(tasks[k]) by {}
                lemma_filters_agree(tasks, f, g, u);
            }
        } else if s.slots[j] is None {
            assert(created_in(q, u));
            let i = choose|i: int| 0 <= i < q.len() && #[trigger] q[i] is Create && q[i].uid() == u;
            assert forall|k: int| 0 <= k < tasks.len() implies (#[trigger] tasks[k]).uid@ != u by {}
            lemma_absent_uid(tasks, g, u);
        }
    }
    assert(replayed(tasks, cq, h) =~= replayed(tasks, q, h));
}

/// Whether action `a` concerns calendar `h`: it is about a task of `h`, or moves a task into
/// `h`.
pub open spec fn concerns(a: Action, h: Seq<char>) -> bool {
    match a {
        Action::Move(t, target) => t.calendar_href@ == h || target@ == h,
        _ => a.task().calendar_href@ == h,
    }
}

proof fn lemma_apply_others(m: Map<Seq<char>, Task>, q: Seq<Action>, h: Seq<char>)
    ensures
        apply_actions(m, q.filter(|a: Action| concerns(a, h)), h) == apply_actions(m, q, h),
    decreases q.len(),
{
    reveal_with_fuel(Seq::<Action>::filter, 1);
    if q.len() > 0 {
        let init = q.drop_last();
        lemma_apply_others(m, init, h);
        let sub = init.filter(|a: Action| concerns(a, h));
        if concerns(q.last(), h) {
            assert(sub.push(q.last()).drop_last() =~= sub);
        } else {
            assert(apply_action(apply_actions(m, init, h), q.last(), h) == apply_actions(m, init, h));
        }
    }
}

/// Actions recorded for other calendars (other than moves into the calendar) change
/// nothing in a calendar's replay: the queue may be cut down to the actions that concern
/// the calendar.
pub proof fn other_calendars_do_not_matter(tasks: Seq<Task>, q: Seq<Action>, h: Seq<char>)
    ensures
        replayed(tasks, q.filter(|a: Action| concerns(a, h)), h) == replayed(tasks, q, h),
{
    let f = q.filter(|a: Action| concerns(a, h));
    assert(pending_uids(f, h) =~= pending_uids(q, h)) by {
        assert forall|u: Seq<char>| pending_uids(f, h).contains(u) implies pending_uids(q, h).contains(u) by {
            let i = choose|i: int| 0 <= i < f.len() && #[trigger] protects(f[i], h, u);
            assert(f.contains(f[i]));
            q.lemma_filter_contains_rev(|a: Action| concerns(a, h), f[i]);
            let j = choose|j: int| 0 <= j < q.len() && q[j] == f[i];
            assert(protects(q[j], h, u));
        }
        assert forall|u: Seq<char>| pending_uids(q, h).contains(u) implies pending_uids(f, h).contains(u) by {
            let i = choose|i: int| 0 <= i < q.len() && #[trigger] protects(q[i], h, u);
            assert(concerns(q[i], h));
            q.lemma_filter_contains(|a: Action| concerns(a, h), i);
            let j = choose|j: int| 0 <= j < f.len() && f[j] == q[i];
            assert(protects(f[j], h, u));
        }
    }
    assert((|t: Task| survives_pruning(t, f, h)) =~= (|t: Task| survives_pruning(t, q, h)));
    assert(pruned(tasks, f, h) == pruned(tasks, q, h));
    lemma_apply_others(task_map(pruned(tasks, q, h)), q, h);
}

/// The actions of a queue that are about the task with uid `u`, in order.
pub open spec fn of_task(q: Seq<Action>, u: Seq<char>) -> Seq<Action> {
    q.filter(|a: Action| a.uid() == u)
}

/// The slots opened for the task with uid `u`, in order.
spec fn task_slots(slots: Seq<Option<Action>>, uids: Seq<Seq<char>>, u: Seq<char>) -> Seq<Option<Action>>
    decreases slots.len(),
{
    if slots.len() == 0 || uids.len() == 0 {
        Seq::empty()
    } else {
        let r = task_slots(slots.drop_last(), uids.drop_last(), u);
        if uids.last() == u {
            r.push(slots.last())
        } else {
            r
        }
    }
}

/// Each live slot holds an action about the task it was opened for.
spec fn slots_match(s: CompactState) -> bool {
    &&& s.slots.len() == s.uids.len()
    &&& forall|k: int| 0 <= k < s.slots.len() && (#[trigger] s.slots[k]) is Some ==> s.slots[k].unwrap().uid() == s.uids[k]
}

proof fn lemma_merge_uid(prev: Action, a: Action)
    ensures
        merge_into(prev, a) matches Some(Some(b)) ==> b.uid() == a.uid(),
{
}

proof fn lemma_task_slots_update_other(slots: Seq<Option<Action>>, uids: Seq<Seq<char>>, u: Seq<char>, j: int, x: Option<Action>)
    requires
        slots.len() == uids.len(),
        0 <= j < slots.len(),
        uids[j] != u,
    ensures
        task_slots(slots.update(j, x), uids, u) == task_slots(slots, uids, u),
    decreases slots.len(),
{
    if j < slots.len() - 1 {
        assert(slots.update(j, x).drop_last() =~= slots.drop_last().update(j, x));
        lemma_task_slots_update_other(slots.drop_last(), uids.drop_last(), u, j, x);
    } else {
        assert(slots.update(j, x).drop_last() =~= slots.drop_last());
    }
}

proof fn lemma_task_slots_last(slots: Seq<Option<Action>>, uids: Seq<Seq<char>>, u: Seq<char>)
    requires
        slots.len() == uids.len(),
    ensures
        last_slot(uids, u) >= 0 ==> task_slots(slots, uids, u).len() > 0
            && task_slots(slots, uids, u).last() == slots[last_slot(uids, u)],
        last_slot(uids, u) < 0 ==> task_slots(slots, uids, u).len() == 0,
    decreases slots.len(),
{
    if slots.len() > 0 && uids.last() != u {
        lemma_task_slots_last(slots.drop_last(), uids.drop_last(), u);
        lemma_last_slot_bounds(uids.drop_last(), u);
    }
}

proof fn lemma_task_slots_update_last(slots: Seq<Option<Action>>, uids: Seq<Seq<char>>, u: Seq<char>, x: Option<Action>)
    requires
        slots.len() == uids.len(),
        last_slot(uids, u) >= 0,
    ensures
        task_slots(slots.update(last_slot(uids, u), x), uids, u)
            == task_slots(slots, uids, u).update(task_slots(slots, uids, u).len() - 1, x),
    decreases slots.len(),
{
    let j = last_slot(uids, u);
    lemma_task_slots_last(slots, uids, u);
    if uids.last() == u {
        assert(slots.update(j, x).drop_last() =~= slots.drop_last());
        let r = task_slots(slots.drop_last(), uids.drop_last(), u);
        assert(r.push(x) =~= r.push(slots.last()).update(r.len() as int, x));
    } else {
        lemma_last_slot_bounds(uids, u);
        assert(slots.update(j, x).drop_last() =~= slots.drop_last().update(j, x));
        lemma_task_slots_update_last(slots.drop_last(), uids.drop_last(), u, x);
    }
}

proof fn lemma_all_u_last_slot(uids: Seq<Seq<char>>, u: Seq<char>)
    requires
        forall|k: int| 0 <= k < uids.len() ==> #[trigger] uids[k] == u,
    ensures
        last_slot(uids, u) == uids.len() - 1,
{
    if uids.len() > 0 {
        assert(uids.last() == uids[uids.len() - 1]);
    }
}

/// Compacting a queue and then keeping one task's actions is compacting that task's actions
/// alone (with the slots of the queue kept for that task).
proof fn lemma_fold_per_task(q: Seq<Action>, u: Seq<char>)
    ensures
        slots_match(compact_fold(q)),
        compact_fold(of_task(q, u)).slots == task_slots(compact_fold(q).slots, compact_fold(q).uids, u),
        compact_fold(of_task(q, u)).slots.len() == compact_fold(of_task(q, u)).uids.len(),
        forall|k: int| 0 <= k < compact_fold(of_task(q, u)).uids.len()
            ==> #[trigger] compact_fold(of_task(q, u)).uids[k] == u,
    decreases q.len(),
{
    reveal_with_fuel(Seq::<Action>::filter, 1);
    if q.len() > 0 {
        let init = q.drop_last();
        let a = q.last();
        lemma_fold_per_task(init, u);
        let s = compact_fold(init);
        let p = compact_fold(of_task(init, u));
        lemma_last_slot_bounds(s.uids, a.uid());
        let j = last_slot(s.uids, a.uid());
        if j >= 0 && s.slots[j] is Some {
            lemma_merge_uid(s.slots[j].unwrap(), a);
        }
        let s2 = compact_step(s, a);
        assert(slots_match(s2)) by {
            assert forall|k: int| 0 <= k < s2.slots.len() && (#[trigger] s2.slots[k]) is Some
                implies s2.slots[k].unwrap().uid() == s2.uids[k] by {
                if k < s.slots.len() && k != j {
                    assert(s2.slots[k] == s.slots[k]);
                }
            }
        }
        if a.uid() != u {
            assert(of_task(q, u) == of_task(init, u));
            if j >= 0 && s.slots[j] is Some && merge_into(s.slots[j].unwrap(), a) is Some {
                lemma_task_slots_update_other(s.slots, s.uids, u, j, merge_into(s.slots[j].unwrap(), a).unwrap());
            } else {
                assert(s.slots.push(Some(a)).drop_last() =~= s.slots);
                assert(s.uids.push(a.uid()).drop_last() =~= s.uids);
            }
        } else {
            assert(of_task(q, u) == of_task(init, u).push(a));
            assert(of_task(init, u).push(a).drop_last() =~= of_task(init, u));
            lemma_all_u_last_slot(p.uids, u);
            lemma_task_slots_last(s.slots, s.uids, u);
            if j >= 0 && s.slots[j] is Some && merge_into(s.slots[j].unwrap(), a) is Some {
                lemma_task_slots_update_last(s.slots, s.uids, u, merge_into(s.slots[j].unwrap(), a).unwrap());
            } else {
                assert(s.slots.push(Some(a)).drop_last() =~= s.slots);
                assert(s.uids.push(a.uid()).drop_last() =~= s.uids);
            }
        }
    }
}

proof fn lemma_flatten_task(slots: Seq<Option<Action>>, uids: Seq<Seq<char>>, u: Seq<char>)
    requires
        slots_match(CompactState { slots, uids }),
    ensures
        of_task(flatten_slots(slots), u) == flatten_slots(task_slots(slots, uids, u)),
    decreases slots.len(),
{
    reveal_with_fuel(Seq::<Action>::filter, 1);
    if slots.len() > 0 {
        let si = slots.drop_last();
        let ui = uids.drop_last();
        assert(slots_match(CompactState { slots: si, uids: ui })) by {
            assert forall|k: int| 0 <= k < si.len() && (#[trigger] si[k]) is Some
                implies si[k].unwrap().uid() == ui[k] by {
                assert(si[k] == slots[k]);
            }
        }
        lemma_flatten_task(si, ui, u);
        let r = task_slots(si, ui, u);
        assert(slots.last() == slots[slots.len() - 1]);
        match slots.last() {
            Some(a) => {
                assert(flatten_slots(si).push(a).drop_last() =~= flatten_slots(si));
                if uids.last() == u {
                    lemma_flatten_push(r, Some(a));
                }
            },
            None => {
                if uids.last() == u {
                    lemma_flatten_push(r, None);
                }
            },
        }
    }
}

/// Compaction treats each task on its own: the actions that the compacted queue keeps for a
/// task are what compacting that task's own actions gives, in the same order.
pub proof fn compaction_per_task(q: Seq<Action>, u: Seq<char>)
    ensures
        of_task(compacted(q), u) == compacted(of_task(q, u)),
{
    lemma_fold_per_task(q, u);
    lemma_flatten_task(compact_fold(q).slots, compact_fold(q).uids, u);
}

} // verus!
