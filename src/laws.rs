use vstd::prelude::*;

use crate::store::{
    StoreView, TaskView, id_at, has_id, store_wf, empty_store, added, updated, completed, deleted,
    other_than, lemma_filter_keeps_all, lemma_filter_drops_one,
};
use crate::dispatch::{CommandView, output, needs_save, next_store, task_status_line};

verus! {

/// `s` after adding one task for each description of `ds`, in order.
pub open spec fn after_adds(s: StoreView, ds: Seq<Seq<char>>) -> StoreView
    decreases ds.len(),
{
    if ds.len() == 0 {
        s
    } else {
        added(after_adds(s, ds.drop_last()), ds.last())
    }
}

/// Adding tasks keeps the earlier ones, appends one task per description
/// under consecutive identifiers starting at the counter, and advances the
/// counter by the number of tasks added.
pub proof fn lemma_adds_append(s: StoreView, ds: Seq<Seq<char>>)
    requires
        s.next_id + ds.len() <= u32::MAX,
    ensures
        after_adds(s, ds).next_id == s.next_id + ds.len(),
        after_adds(s, ds).tasks.len() == s.tasks.len() + ds.len(),
        after_adds(s, ds).tasks.take(s.tasks.len() as int) == s.tasks,
        forall|k: int|
            0 <= k < ds.len() ==> #[trigger] after_adds(s, ds).tasks[s.tasks.len() + k] == (
            TaskView { id: (s.next_id + k) as u32, description: ds[k], completed: false }),
    decreases ds.len(),
{
    if ds.len() > 0 {
        lemma_adds_append(s, ds.drop_last());
        let p = after_adds(s, ds.drop_last());
        let r = after_adds(s, ds);
        assert(r.tasks == p.tasks.push(
            TaskView { id: p.next_id, description: ds.last(), completed: false },
        ));
        assert(r.tasks.take(s.tasks.len() as int) =~= p.tasks.take(s.tasks.len() as int));
        assert forall|k: int| 0 <= k < ds.len() implies #[trigger] r.tasks[s.tasks.len() + k] == (
        TaskView { id: (s.next_id + k) as u32, description: ds[k], completed: false }) by {
            if k < ds.len() - 1 {
                assert(r.tasks[s.tasks.len() + k] == p.tasks[s.tasks.len() + k]);
                assert(ds.drop_last()[k] == ds[k]);
            }
        }
    } else {
        assert(s.tasks.take(s.tasks.len() as int) =~= s.tasks);
    }
}

/// From a fresh store, the `k`-th added task gets identifier `k + 1`, which
/// is the counter just before that addition; so all identifiers issued are
/// distinct, and the result is well formed.
pub proof fn lemma_fresh_adds_unique_ids(ds: Seq<Seq<char>>)
    requires
        ds.len() < u32::MAX,
    ensures
        store_wf(after_adds(empty_store(), ds)),
        forall|k: int|
            0 <= k < ds.len() ==> #[trigger] after_adds(empty_store(), ds).tasks[k].id == after_adds(
                empty_store(),
                ds.take(k),
            ).next_id,
        forall|i: int, j: int|
            0 <= i < ds.len() && 0 <= j < ds.len() && i != j ==> after_adds(empty_store(), ds).tasks[i].id
                != after_adds(empty_store(), ds).tasks[j].id,
{
    let e = empty_store();
    let r = after_adds(e, ds);
    lemma_adds_append(e, ds);
    assert forall|k: int| 0 <= k < ds.len() implies r.tasks[k] == (TaskView {
        id: (k + 1) as u32,
        description: ds[k],
        completed: false,
    }) by {
        assert(r.tasks[e.tasks.len() + k] == r.tasks[k]);
    }
    assert forall|k: int| 0 <= k < ds.len() implies #[trigger] r.tasks[k].id == after_adds(
        e,
        ds.take(k),
    ).next_id by {
        lemma_adds_append(e, ds.take(k));
    }
}

/// Each addition advances the counter by exactly one.
pub proof fn lemma_add_advances_counter(s: StoreView, d: Seq<char>)
    requires
        s.next_id < u32::MAX,
    ensures
        added(s, d).next_id == s.next_id + 1,
{
}

/// Deleting a task leaves the counter as it was, and no later addition
/// issues the deleted identifier again.
pub proof fn lemma_deleted_id_not_reissued(s: StoreView, id: u32, ds: Seq<Seq<char>>)
    requires
        store_wf(s),
        has_id(s.tasks, id),
        s.next_id + ds.len() <= u32::MAX,
    ensures
        deleted(s, id).next_id == s.next_id,
        !has_id(after_adds(deleted(s, id), ds).tasks, id),
{
    let d = deleted(s, id);
    lemma_delete_removes(s, id);
    lemma_adds_append(d, ds);
    let r = after_adds(d, ds);
    let i0 = choose|i: int| id_at(s.tasks, id, i);
    assert forall|k: int| 0 <= k < r.tasks.len() implies r.tasks[k].id != id by {
        if k < d.tasks.len() {
            assert(r.tasks.take(d.tasks.len() as int)[k] == r.tasks[k]);
            assert(!id_at(d.tasks, id, k));
        } else {
            assert(r.tasks[d.tasks.len() + (k - d.tasks.len())] == r.tasks[k]);
            assert(s.tasks[i0].id < s.next_id);
        }
    }
}

/// On an identifier that no task has, updating, deleting and completing
/// leave the store unchanged, report that the task was not found, and ask
/// for nothing to be persisted.
pub proof fn lemma_absent_id_changes_nothing(s: StoreView, id: u32, d: Seq<char>)
    requires
        !has_id(s.tasks, id),
    ensures
        updated(s, id, d) == s,
        completed(s, id) == s,
        deleted(s, id) == s,
        output(s, CommandView::Update { id, description: d }) == seq![
            task_status_line(id, " not found."@),
        ],
        output(s, CommandView::Delete { id }) == seq![task_status_line(id, " not found."@)],
        output(s, CommandView::Complete { id }) == seq![task_status_line(id, " not found."@)],
        !needs_save(s, CommandView::Update { id, description: d }),
        !needs_save(s, CommandView::Delete { id }),
        !needs_save(s, CommandView::Complete { id }),
{
    assert forall|k: int| 0 <= k < s.tasks.len() implies other_than(id)(s.tasks[k]) by {
        assert(!id_at(s.tasks, id, k));
    }
    lemma_filter_keeps_all(s.tasks, other_than(id));
    assert(updated(s, id, d).tasks =~= s.tasks);
    assert(completed(s, id).tasks =~= s.tasks);
}

/// Completing a task twice leaves the store as completing it once.
pub proof fn lemma_complete_idempotent(s: StoreView, id: u32)
    ensures
        completed(completed(s, id), id) == completed(s, id),
        next_store(next_store(s, CommandView::Complete { id }), CommandView::Complete { id })
            == next_store(s, CommandView::Complete { id }),
{
    assert(completed(completed(s, id), id).tasks =~= completed(s, id).tasks);
}

/// Deleting an existing task removes exactly that task: it can no longer be
/// found, there is one task fewer, and the others keep their values and
/// their relative order.
pub proof fn lemma_delete_removes(s: StoreView, id: u32)
    requires
        store_wf(s),
        has_id(s.tasks, id),
    ensures
        !has_id(deleted(s, id).tasks, id),
        deleted(s, id).tasks.len() == s.tasks.len() - 1,
        exists|i: int| id_at(s.tasks, id, i) && deleted(s, id).tasks == s.tasks.remove(i),
{
    let i = choose|i: int| id_at(s.tasks, id, i);
    assert forall|k: int| 0 <= k < s.tasks.len() && k != i implies other_than(id)(s.tasks[k]) by {
    }
    lemma_filter_drops_one(s.tasks, other_than(id), i);
    let r = deleted(s, id).tasks;
    assert forall|k: int| 0 <= k < r.len() implies r[k].id != id by {
        if k < i {
            assert(r[k] == s.tasks[k]);
        } else {
            assert(r[k] == s.tasks[k + 1]);
        }
    }
}

} // verus!
