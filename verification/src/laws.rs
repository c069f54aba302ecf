//! What holds of the operations for every collection, proved over the
//! functions of `model` that the operations' contracts are stated with.

use vstd::prelude::*;
use crate::model::{
    added, deleted, filter_of_text, has_id, lemma_filter_all, lemma_max_id, lemma_position,
    listed, marked, max_id, not_id, position, updated,
};
use crate::status::{status_of_text, status_text_round_trip, Status};
use crate::task::{ids_unique, valid_collection, TaskView};
use crate::timestamp::Timestamp;

verus! {

/// A task that is added gets the id one above the largest id present, which
/// is 1 in an empty collection and larger than every id present; the tasks
/// before it stay as they were.
pub proof fn added_id_follows_largest(tasks: Seq<TaskView>, description: Seq<char>, now: Timestamp)
    requires
        max_id(tasks) < u32::MAX,
    ensures
        added(tasks, description, now).len() == tasks.len() + 1,
        added(tasks, description, now).drop_last() == tasks,
        added(tasks, description, now).last().id == max_id(tasks) + 1,
        tasks.len() == 0 ==> added(tasks, description, now).last().id == 1,
        forall|i: int|
            0 <= i < tasks.len() ==> (#[trigger] tasks[i]).id < added(
                tasks,
                description,
                now,
            ).last().id,
        max_id(added(tasks, description, now)) == max_id(tasks) + 1,
{
    lemma_max_id(tasks);
}

/// Adding a task to a collection in which no id occurs twice gives such a
/// collection again.
pub proof fn added_keeps_ids_unique(tasks: Seq<TaskView>, description: Seq<char>, now: Timestamp)
    requires
        max_id(tasks) < u32::MAX,
        ids_unique(tasks),
    ensures
        ids_unique(added(tasks, description, now)),
{
    added_id_follows_largest(tasks, description, now);
    let after = added(tasks, description, now);
    assert forall|i: int, j: int| 0 <= i < j < after.len() implies after[i].id != after[j].id by {}
}

/// The collection after one task was added for each entry of `entries`, in
/// order. An entry is a description and the time of the addition.
pub open spec fn added_all(tasks: Seq<TaskView>, entries: Seq<(Seq<char>, Timestamp)>) -> Seq<
    TaskView,
>
    decreases entries.len(),
{
    if entries.len() == 0 {
        tasks
    } else {
        let before = added_all(tasks, entries.drop_last());
        added(before, entries.last().0, entries.last().1)
    }
}

/// However many tasks are added one after another, they are numbered
/// consecutively from the id after the largest one present, the tasks that
/// were there stay, and no id comes to occur twice.
pub proof fn added_all_numbers_consecutively(
    tasks: Seq<TaskView>,
    entries: Seq<(Seq<char>, Timestamp)>,
)
    requires
        max_id(tasks) + entries.len() <= u32::MAX,
    ensures
        added_all(tasks, entries).len() == tasks.len() + entries.len(),
        added_all(tasks, entries).take(tasks.len() as int) == tasks,
        max_id(added_all(tasks, entries)) == max_id(tasks) + entries.len(),
        forall|k: int|
            0 <= k < entries.len() ==> (#[trigger] added_all(tasks, entries)[tasks.len() + k]).id
                == max_id(tasks) + 1 + k,
        ids_unique(tasks) ==> ids_unique(added_all(tasks, entries)),
    decreases entries.len(),
{
    if entries.len() > 0 {
        let earlier = entries.drop_last();
        let before = added_all(tasks, earlier);
        let after = added_all(tasks, entries);
        added_all_numbers_consecutively(tasks, earlier);
        added_id_follows_largest(before, entries.last().0, entries.last().1);
        assert forall|k: int| 0 <= k < entries.len() implies (#[trigger] after[tasks.len() + k]).id
            == max_id(tasks) + 1 + k by {}
        if ids_unique(tasks) {
            added_keeps_ids_unique(before, entries.last().0, entries.last().1);
        }
    }
}

/// A listing by status holds exactly the tasks of the collection that have
/// that status.
pub proof fn listed_holds_exactly_the_matching(tasks: Seq<TaskView>, status: Status)
    ensures
        forall|t: TaskView|
            #[trigger] listed(tasks, Some(status)).contains(t) <==> tasks.contains(t) && t.status
                == status,
    decreases tasks.len(),
{
    reveal(Seq::filter);
    let all = listed(tasks, Some(status));
    if tasks.len() == 0 {
        assert forall|t: TaskView| #[trigger] all.contains(t) <==> tasks.contains(t) && t.status
            == status by {}
    } else {
        let rest = tasks.drop_last();
        let last = tasks.last();
        let some = listed(rest, Some(status));
        listed_holds_exactly_the_matching(rest, status);
        assert forall|t: TaskView| #[trigger] all.contains(t) <==> tasks.contains(t) && t.status
            == status by {
            if all.contains(t) {
                let i = choose|i: int| 0 <= i < all.len() && all[i] == t;
                if i < some.len() {
                    assert(some[i] == t);
                    assert(some.contains(t));
                    let j = choose|j: int| 0 <= j < rest.len() && rest[j] == t;
                    assert(tasks[j] == t);
                } else {
                    assert(t == last);
                    assert(tasks[tasks.len() - 1] == t);
                }
            }
            if tasks.contains(t) && t.status == status {
                let j = choose|j: int| 0 <= j < tasks.len() && tasks[j] == t;
                if j < rest.len() {
                    assert(rest[j] == t);
                    assert(rest.contains(t));
                    assert(some.contains(t));
                    let i = choose|i: int| 0 <= i < some.len() && some[i] == t;
                    assert(all[i] == t);
                } else {
                    assert(all[all.len() - 1] == t);
                }
            }
        }
    }
}

/// A listing keeps the order of the collection: it is the collection itself
/// where every task is shown, and otherwise what is left when the tasks with
/// another status are taken out one by one from the end.
pub proof fn listed_keeps_order(tasks: Seq<TaskView>, status: Status)
    requires
        tasks.len() > 0,
    ensures
        listed(tasks, Some(status)) == if tasks.last().status == status {
            listed(tasks.drop_last(), Some(status)).push(tasks.last())
        } else {
            listed(tasks.drop_last(), Some(status))
        },
{
    reveal(Seq::filter);
}

/// Without a filter, and with a filter whose text names no status, a listing
/// shows every task; with the text of a status it shows the tasks with that
/// status.
pub proof fn filter_text_selects(tasks: Seq<TaskView>, text: Seq<char>, status: Status)
    ensures
        listed(tasks, filter_of_text(None)) == tasks,
        status_of_text(text) is None ==> listed(tasks, filter_of_text(Some(text))) == tasks,
        listed(tasks, filter_of_text(Some(status.text()))) == listed(tasks, Some(status)),
{
    status_text_round_trip(status);
}

/// An update changes the description and the time of the last change of the
/// first task with the id, and nothing else: not the task's id, status or
/// time of creation, and no other task.
pub proof fn updated_changes_only_its_target(
    tasks: Seq<TaskView>,
    id: u32,
    description: Seq<char>,
    now: Timestamp,
)
    ensures
        updated(tasks, id, description, now).len() == tasks.len(),
        forall|j: int|
            0 <= j < tasks.len() && j != position(tasks, id) ==> #[trigger] updated(
                tasks,
                id,
                description,
                now,
            )[j] == tasks[j],
        has_id(tasks, id) ==> {
            let p = position(tasks, id);
            let target = updated(tasks, id, description, now)[p];
            &&& 0 <= p < tasks.len()
            &&& tasks[p].id == id
            &&& target.id == id
            &&& target.status == tasks[p].status
            &&& target.created_at == tasks[p].created_at
            &&& target.description == description
            &&& target.updated_at == now
        },
{
    lemma_position(tasks, id);
}

/// Marking changes the status and the time of the last change of the first
/// task with the id, and nothing else: not the task's id, description or time
/// of creation, and no other task.
pub proof fn marked_changes_only_its_target(
    tasks: Seq<TaskView>,
    id: u32,
    status: Status,
    now: Timestamp,
)
    ensures
        marked(tasks, id, status, now).len() == tasks.len(),
        forall|j: int|
            0 <= j < tasks.len() && j != position(tasks, id) ==> #[trigger] marked(
                tasks,
                id,
                status,
                now,
            )[j] == tasks[j],
        has_id(tasks, id) ==> {
            let p = position(tasks, id);
            let target = marked(tasks, id, status, now)[p];
            &&& 0 <= p < tasks.len()
            &&& tasks[p].id == id
            &&& target.id == id
            &&& target.description == tasks[p].description
            &&& target.created_at == tasks[p].created_at
            &&& target.status == status
            &&& target.updated_at == now
        },
{
    lemma_position(tasks, id);
}

/// Updating, marking or deleting by an id that no task has leaves the
/// collection as it is.
pub proof fn missing_id_changes_nothing(
    tasks: Seq<TaskView>,
    id: u32,
    description: Seq<char>,
    status: Status,
    now: Timestamp,
)
    requires
        !has_id(tasks, id),
    ensures
        updated(tasks, id, description, now) == tasks,
        marked(tasks, id, status, now) == tasks,
        deleted(tasks, id) == tasks,
{
    lemma_position(tasks, id);
    lemma_filter_all(tasks, not_id(id));
}

/// After a deletion no task has the id, every remaining task was there
/// before, and every task with another id remains.
pub proof fn deleted_removes_exactly_the_id(tasks: Seq<TaskView>, id: u32)
    ensures
        !has_id(deleted(tasks, id), id),
        forall|t: TaskView|
            #[trigger] deleted(tasks, id).contains(t) <==> tasks.contains(t) && t.id != id,
        deleted(tasks, id).len() <= tasks.len(),
        has_id(tasks, id) <==> deleted(tasks, id).len() < tasks.len(),
    decreases tasks.len(),
{
    reveal(Seq::filter);
    let all = deleted(tasks, id);
    if tasks.len() == 0 {
        assert forall|t: TaskView| #[trigger] all.contains(t) <==> tasks.contains(t) && t.id
            != id by {}
    } else {
        let rest = tasks.drop_last();
        let last = tasks.last();
        let some = deleted(rest, id);
        deleted_removes_exactly_the_id(rest, id);
        assert forall|t: TaskView| #[trigger] all.contains(t) <==> tasks.contains(t) && t.id
            != id by {
            if all.contains(t) {
                let i = choose|i: int| 0 <= i < all.len() && all[i] == t;
                if i < some.len() {
                    assert(some[i] == t);
                    assert(some.contains(t));
                    let j = choose|j: int| 0 <= j < rest.len() && rest[j] == t;
                    assert(tasks[j] == t);
                } else {
                    assert(t == last);
                    assert(tasks[tasks.len() - 1] == t);
                }
            }
            if tasks.contains(t) && t.id != id {
                let j = choose|j: int| 0 <= j < tasks.len() && tasks[j] == t;
                if j < rest.len() {
                    assert(rest[j] == t);
                    assert(rest.contains(t));
                    assert(some.contains(t));
                    let i = choose|i: int| 0 <= i < some.len() && some[i] == t;
                    assert(all[i] == t);
                } else {
                    assert(all[all.len() - 1] == t);
                }
            }
        }
        if has_id(all, id) {
            let i = choose|i: int| 0 <= i < all.len() && all[i].id == id;
            assert(all.contains(all[i]));
        }
        if has_id(tasks, id) {
            let j = choose|j: int| 0 <= j < tasks.len() && tasks[j].id == id;
            if j < rest.len() {
                assert(rest[j].id == id);
                assert(has_id(rest, id));
            }
        }
        if has_id(rest, id) {
            let j = choose|j: int| 0 <= j < rest.len() && rest[j].id == id;
            assert(tasks[j].id == id);
        }
        if last.id == id {
            assert(tasks[tasks.len() - 1].id == id);
        }
    }
}

/// Adding a task with a description that is not empty keeps a valid
/// collection valid.
pub proof fn added_keeps_valid(tasks: Seq<TaskView>, description: Seq<char>, now: Timestamp)
    requires
        valid_collection(tasks),
        max_id(tasks) < u32::MAX,
        description.len() > 0,
    ensures
        valid_collection(added(tasks, description, now)),
{
    added_id_follows_largest(tasks, description, now);
    added_keeps_ids_unique(tasks, description, now);
    let after = added(tasks, description, now);
    assert forall|i: int| 0 <= i < after.len() implies (#[trigger] after[i]).valid() by {}
}

/// An update with a description that is not empty, at a time that is not
/// before the task was created, keeps a valid collection valid.
pub proof fn updated_keeps_valid(
    tasks: Seq<TaskView>,
    id: u32,
    description: Seq<char>,
    now: Timestamp,
)
    requires
        valid_collection(tasks),
        description.len() > 0,
        has_id(tasks, id) ==> tasks[position(tasks, id)].created_at.le(now),
    ensures
        valid_collection(updated(tasks, id, description, now)),
{
    updated_changes_only_its_target(tasks, id, description, now);
    lemma_position(tasks, id);
    let after = updated(tasks, id, description, now);
    assert forall|i: int| 0 <= i < after.len() implies (#[trigger] after[i]).valid() by {}
    assert forall|i: int, j: int| 0 <= i < j < after.len() implies after[i].id != after[j].id by {}
}

/// Marking at a time that is not before the task was created keeps a valid
/// collection valid.
pub proof fn marked_keeps_valid(tasks: Seq<TaskView>, id: u32, status: Status, now: Timestamp)
    requires
        valid_collection(tasks),
        has_id(tasks, id) ==> tasks[position(tasks, id)].created_at.le(now),
    ensures
        valid_collection(marked(tasks, id, status, now)),
{
    marked_changes_only_its_target(tasks, id, status, now);
    lemma_position(tasks, id);
    let after = marked(tasks, id, status, now);
    assert forall|i: int| 0 <= i < after.len() implies (#[trigger] after[i]).valid() by {}
    assert forall|i: int, j: int| 0 <= i < j < after.len() implies after[i].id != after[j].id by {}
}

/// Deleting keeps a valid collection valid.
pub proof fn deleted_keeps_valid(tasks: Seq<TaskView>, id: u32)
    requires
        valid_collection(tasks),
    ensures
        valid_collection(deleted(tasks, id)),
    decreases tasks.len(),
{
    reveal(Seq::filter);
    if tasks.len() > 0 {
        let rest = tasks.drop_last();
        let last = tasks.last();
        let some = deleted(rest, id);
        let all = deleted(tasks, id);
        assert forall|i: int| 0 <= i < rest.len() implies (#[trigger] rest[i]).valid() by {
            assert(rest[i] == tasks[i]);
        }
        assert forall|i: int, j: int| 0 <= i < j < rest.len() implies rest[i].id
            != rest[j].id by {
            assert(rest[i] == tasks[i] && rest[j] == tasks[j]);
        }
        deleted_keeps_valid(rest, id);
        deleted_removes_exactly_the_id(rest, id);
        if last.id != id {
            assert forall|i: int| 0 <= i < all.len() implies (#[trigger] all[i]).valid() by {
                if i < some.len() {
                    assert(all[i] == some[i]);
                } else {
                    assert(all[i] == tasks[tasks.len() - 1]);
                }
            }
            assert forall|i: int, j: int| 0 <= i < j < all.len() implies all[i].id
                != all[j].id by {
                assert(all[i] == some[i]);
                if j < some.len() {
                    assert(all[j] == some[j]);
                } else {
                    assert(some.contains(some[i]));
                    let m = choose|m: int| 0 <= m < rest.len() && rest[m] == some[i];
                    assert(tasks[m] == some[i]);
                    assert(tasks[tasks.len() - 1] == all[j]);
                }
            }
        }
    }
}

} // verus!
