//! The filtered view of the store and the selection that moves over it.
//!
//! The view is the store's tasks in store order, with the `Done` ones left
//! out when the "hide completed" flag is set. The selection is an index into
//! the view; `next`/`previous` wrap around its ends, and after the view
//! changes the selection is clamped back to the first row when it no longer
//! names one.
use vstd::prelude::*;
use crate::task::{Progress, Task, TaskV, task_eq};

verus! {

/// Whether a task stays visible under the filter flag.
pub open spec fn keeps(t: TaskV, hide_completed: bool) -> bool {
    !hide_completed || t.progress != Progress::Done
}

/// The tasks of `items` that the filter keeps, in store order.
pub open spec fn filtered_view(items: Seq<TaskV>, hide_completed: bool) -> Seq<TaskV>
    decreases items.len(),
{
    if items.len() == 0 {
        Seq::empty()
    } else {
        let front = filtered_view(items.drop_last(), hide_completed);
        if keeps(items.last(), hide_completed) {
            front.push(items.last())
        } else {
            front
        }
    }
}

/// With the filter off the view is the store itself.
pub proof fn lemma_filtered_view_off(items: Seq<TaskV>)
    ensures
        filtered_view(items, false) =~= items,
    decreases items.len(),
{
    if items.len() > 0 {
        lemma_filtered_view_off(items.drop_last());
    }
}

/// Every task of the view is a task of the store that the filter keeps.
pub proof fn lemma_filtered_view_sound(items: Seq<TaskV>, hide: bool)
    ensures
        forall|j: int|
            0 <= j < filtered_view(items, hide).len() ==> keeps(
                #[trigger] filtered_view(items, hide)[j],
                hide,
            ) && items.contains(filtered_view(items, hide)[j]),
    decreases items.len(),
{
    if items.len() > 0 {
        lemma_filtered_view_sound(items.drop_last(), hide);
        assert forall|j: int| 0 <= j < filtered_view(items, hide).len() implies keeps(
            #[trigger] filtered_view(items, hide)[j],
            hide,
        ) && items.contains(filtered_view(items, hide)[j]) by {
            let fv = filtered_view(items, hide);
            let front = filtered_view(items.drop_last(), hide);
            if j < front.len() {
                assert(fv[j] == front[j]);
                let k = choose|k: int|
                    0 <= k < items.drop_last().len() && items.drop_last()[k] == front[j];
                assert(items[k] == front[j]);
            } else {
                assert(fv[j] == items.last());
                assert(items[items.len() - 1] == items.last());
            }
        }
    }
}

/// Every task of the store that the filter keeps is in the view.
pub proof fn lemma_filtered_view_complete(items: Seq<TaskV>, hide: bool)
    ensures
        forall|i: int|
            0 <= i < items.len() && keeps(#[trigger] items[i], hide) ==> filtered_view(
                items,
                hide,
            ).contains(items[i]),
    decreases items.len(),
{
    if items.len() > 0 {
        lemma_filtered_view_complete(items.drop_last(), hide);
        assert forall|i: int| 0 <= i < items.len() && keeps(#[trigger] items[i], hide) implies
            filtered_view(items, hide).contains(items[i]) by {
            let fv = filtered_view(items, hide);
            let front = filtered_view(items.drop_last(), hide);
            if i < items.len() - 1 {
                assert(items.drop_last()[i] == items[i]);
                let k = choose|k: int| 0 <= k < front.len() && front[k] == items[i];
                assert(fv[k] == items[i]);
            } else {
                assert(fv[fv.len() - 1] == items[i]);
            }
        }
    }
}

/// The view keeps exactly the tasks the filter keeps: with the flag set it
/// excludes all and only the `Done` tasks; with the flag clear it is the
/// store unchanged.
pub proof fn lemma_filtered_view_characterises(items: Seq<TaskV>, hide: bool)
    ensures
        forall|j: int|
            0 <= j < filtered_view(items, hide).len() ==> (hide ==> #[trigger] filtered_view(
                items,
                hide,
            )[j].progress != Progress::Done) && items.contains(filtered_view(items, hide)[j]),
        forall|i: int|
            0 <= i < items.len() && (hide ==> #[trigger] items[i].progress != Progress::Done)
                ==> filtered_view(items, hide).contains(items[i]),
        !hide ==> filtered_view(items, hide) == items,
{
    lemma_filtered_view_sound(items, hide);
    lemma_filtered_view_complete(items, hide);
    if !hide {
        lemma_filtered_view_off(items);
    }
}

/// Replacing a store entry with one the filter treats the same way keeps
/// the view's length.
pub proof fn lemma_filtered_view_update_len(items: Seq<TaskV>, ix: int, t: TaskV, hide: bool)
    requires
        0 <= ix < items.len(),
        keeps(t, hide) == keeps(items[ix], hide),
    ensures
        filtered_view(items.update(ix, t), hide).len() == filtered_view(items, hide).len(),
    decreases items.len(),
{
    let u = items.update(ix, t);
    if ix == items.len() - 1 {
        assert(u.drop_last() =~= items.drop_last());
        assert(u.last() == t);
        assert(items.last() == items[ix]);
    } else {
        assert(u.drop_last() =~= items.drop_last().update(ix, t));
        assert(u.last() == items.last());
        assert(items.drop_last()[ix] == items[ix]);
        lemma_filtered_view_update_len(items.drop_last(), ix, t, hide);
    }
}

/// Appending a task grows the view by one row when the filter keeps it and
/// not at all otherwise.
pub proof fn lemma_filtered_view_push_len(items: Seq<TaskV>, t: TaskV, hide: bool)
    ensures
        filtered_view(items.push(t), hide).len() == filtered_view(items, hide).len() + (
        if keeps(t, hide) {
            1int
        } else {
            0int
        }),
{
    assert(items.push(t).drop_last() =~= items);
    assert(items.push(t).last() == t);
}

/// The view of `items` as owned tasks, in store order.
pub fn filter_tasks(items: &Vec<Task>, hide_completed: bool) -> (r: Vec<Task>)
    ensures
        r.deep_view() == filtered_view(items.deep_view(), hide_completed),
{
    let mut r: Vec<Task> = Vec::new();
    let mut i: usize = 0;
    proof {
        assert(items.deep_view().take(0) =~= Seq::<TaskV>::empty());
    }
    while i < items.len()
        invariant
            0 <= i <= items.len(),
            items.deep_view().len() == items.len(),
            r.deep_view() == filtered_view(items.deep_view().take(i as int), hide_completed),
        decreases items.len() - i,
    {
        let ghost pre = items.deep_view().take(i as int);
        if !hide_completed || !matches!(items[i].progress, Progress::Done) {
            r.push(items[i].clone());
        }
        proof {
            assert(items.deep_view().take(i + 1).drop_last() =~= pre);
            assert(items.deep_view().take(i + 1).last() == items.deep_view()[i as int]);
            assert(r.deep_view() =~= filtered_view(
                items.deep_view().take(i + 1),
                hide_completed,
            ));
        }
        i += 1;
    }
    proof {
        assert(items.deep_view().take(items.len() as int) =~= items.deep_view());
    }
    r
}

/// The index after `cur` in a view of length `len`, wrapping to the first
/// row past the last one.
pub open spec fn next_index(cur: int, len: int) -> int {
    if len <= 0 {
        0
    } else if cur + 1 >= len {
        0
    } else {
        cur + 1
    }
}

/// The index before `cur` in a view of length `len`, wrapping to the last
/// row before the first one.
pub open spec fn prev_index(cur: int, len: int) -> int {
    if len <= 0 {
        0
    } else if cur == 0 || cur > len {
        len - 1
    } else {
        cur - 1
    }
}

/// The selection after the view changed: clamped back to the first row when
/// it no longer names one.
pub open spec fn clamp_index(cur: int, len: int) -> int {
    if cur >= len {
        0
    } else {
        cur
    }
}

/// Wherever the selection starts, moving it keeps it inside the non-empty
/// view, and it wraps exactly at the two ends: forward from the last row to
/// the first, backward from the first row to the last.
pub proof fn lemma_navigation_in_bounds(cur: int, len: int)
    requires
        len > 0,
        0 <= cur,
    ensures
        0 <= next_index(cur, len) < len,
        0 <= prev_index(cur, len) < len,
        cur == len - 1 ==> next_index(cur, len) == 0,
        cur < len - 1 ==> next_index(cur, len) == cur + 1,
        cur == 0 ==> prev_index(cur, len) == len - 1,
        0 < cur <= len ==> prev_index(cur, len) == cur - 1,
        0 <= clamp_index(cur, len) < len,
{
}

} // verus!
