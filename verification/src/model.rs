//! What each operation of the tracker does to a collection of tasks, stated
//! over the contents of the collection.

use vstd::prelude::*;
use crate::status::{status_of_text, Status};
use crate::task::TaskView;
use crate::timestamp::Timestamp;

verus! {

/// The largest id in the collection, or 0 where it is empty.
pub open spec fn max_id(tasks: Seq<TaskView>) -> nat
    decreases tasks.len(),
{
    if tasks.len() == 0 {
        0
    } else {
        let rest = max_id(tasks.drop_last());
        if tasks.last().id > rest {
            tasks.last().id as nat
        } else {
            rest
        }
    }
}

/// Some task of the collection has this id.
pub open spec fn has_id(tasks: Seq<TaskView>, id: u32) -> bool {
    exists|i: int| 0 <= i < tasks.len() && tasks[i].id == id
}

/// The index of the first task with this id, or the length of the collection
/// where no task has it.
pub open spec fn position(tasks: Seq<TaskView>, id: u32) -> int
    decreases tasks.len(),
{
    if tasks.len() == 0 {
        0
    } else if tasks[0].id == id {
        0
    } else {
        1 + position(tasks.drop_first(), id)
    }
}

/// The collection after a task with this description was added at `now`:
/// the new task comes last, takes the id after the largest one, is still to
/// be done, and was created and last changed at `now`.
pub open spec fn added(tasks: Seq<TaskView>, description: Seq<char>, now: Timestamp) -> Seq<
    TaskView,
> {
    tasks.push(
        TaskView {
            id: (max_id(tasks) + 1) as u32,
            description,
            status: Status::Todo,
            created_at: now,
            updated_at: now,
        },
    )
}

/// The collection after the first task with this id got a new description at
/// `now`. Without such a task it is the collection itself.
pub open spec fn updated(
    tasks: Seq<TaskView>,
    id: u32,
    description: Seq<char>,
    now: Timestamp,
) -> Seq<TaskView> {
    let p = position(tasks, id);
    if p < tasks.len() {
        tasks.update(p, TaskView { description, updated_at: now, ..tasks[p] })
    } else {
        tasks
    }
}

/// The collection after the first task with this id got a new status at
/// `now`. Without such a task it is the collection itself.
pub open spec fn marked(tasks: Seq<TaskView>, id: u32, status: Status, now: Timestamp) -> Seq<
    TaskView,
> {
    let p = position(tasks, id);
    if p < tasks.len() {
        tasks.update(p, TaskView { status, updated_at: now, ..tasks[p] })
    } else {
        tasks
    }
}

/// Holds of the tasks whose id is not `id`.
pub open spec fn not_id(id: u32) -> spec_fn(TaskView) -> bool {
    |t: TaskView| t.id != id
}

/// Holds of the tasks whose status is `status`.
pub open spec fn in_status(status: Status) -> spec_fn(TaskView) -> bool {
    |t: TaskView| t.status == status
}

/// The collection without the tasks that have this id, the others in their
/// order.
pub open spec fn deleted(tasks: Seq<TaskView>, id: u32) -> Seq<TaskView> {
    tasks.filter(not_id(id))
}

/// The status to list by, given the text of a filter: a filter that is absent
/// or names no status selects nothing, so that every task is listed.
pub open spec fn filter_of_text(text: Option<Seq<char>>) -> Option<Status> {
    match text {
        Some(t) => status_of_text(t),
        None => None,
    }
}

/// The tasks that a listing shows: those with the given status, in their
/// order, or all of them where no status is given.
pub open spec fn listed(tasks: Seq<TaskView>, filter: Option<Status>) -> Seq<TaskView> {
    match filter {
        Some(status) => tasks.filter(in_status(status)),
        None => tasks,
    }
}

/// The largest id bounds every id, and is the id of some task unless the
/// collection is empty.
pub proof fn lemma_max_id(tasks: Seq<TaskView>)
    ensures
        forall|i: int| 0 <= i < tasks.len() ==> (#[trigger] tasks[i]).id <= max_id(tasks),
        tasks.len() == 0 ==> max_id(tasks) == 0,
        tasks.len() > 0 ==> exists|i: int| 0 <= i < tasks.len() && tasks[i].id == max_id(tasks),
        max_id(tasks) <= u32::MAX,
    decreases tasks.len(),
{
    if tasks.len() > 0 {
        let rest = tasks.drop_last();
        lemma_max_id(rest);
        assert forall|i: int| 0 <= i < tasks.len() implies (#[trigger] tasks[i]).id <= max_id(
            tasks,
        ) by {
            if i < rest.len() {
                assert(rest[i] == tasks[i]);
            }
        }
        if tasks.last().id > max_id(rest) {
            assert(tasks[tasks.len() - 1].id == max_id(tasks));
        } else {
            if rest.len() > 0 {
                let i = choose|i: int| 0 <= i < rest.len() && rest[i].id == max_id(rest);
                assert(tasks[i].id == max_id(tasks));
            } else {
                assert(tasks[0].id == max_id(tasks));
            }
        }
    }
}

/// `position` points at the first task with the id, and past the end exactly
/// where no task has it.
pub proof fn lemma_position(tasks: Seq<TaskView>, id: u32)
    ensures
        0 <= position(tasks, id) <= tasks.len(),
        position(tasks, id) < tasks.len() ==> tasks[position(tasks, id)].id == id,
        forall|j: int| 0 <= j < position(tasks, id) ==> (#[trigger] tasks[j]).id != id,
        position(tasks, id) < tasks.len() <==> has_id(tasks, id),
    decreases tasks.len(),
{
    if tasks.len() > 0 && tasks[0].id != id {
        let rest = tasks.drop_first();
        lemma_position(rest, id);
        let p = position(tasks, id);
        assert forall|j: int| 0 <= j < p implies (#[trigger] tasks[j]).id != id by {
            if j > 0 {
                assert(rest[j - 1] == tasks[j]);
            }
        }
        if p < tasks.len() {
            assert(rest[p - 1] == tasks[p]);
            assert(has_id(tasks, id));
        }
        if has_id(tasks, id) {
            let i = choose|i: int| 0 <= i < tasks.len() && tasks[i].id == id;
            assert(rest[i - 1].id == id);
            assert(has_id(rest, id));
        }
    } else if tasks.len() > 0 {
        assert(tasks[0].id == id);
    }
}

/// Filtering one element more either appends that element or changes
/// nothing, as the element meets the predicate or not.
pub proof fn lemma_filter_next<A>(s: Seq<A>, pred: spec_fn(A) -> bool, k: int)
    requires
        0 <= k < s.len(),
    ensures
        s.take(k + 1).filter(pred) == if pred(s[k]) {
            s.take(k).filter(pred).push(s[k])
        } else {
            s.take(k).filter(pred)
        },
{
    reveal(Seq::filter);
    assert(s.take(k + 1).drop_last() =~= s.take(k));
}

/// Filtering keeps a sequence as it is where every element meets the
/// predicate.
pub proof fn lemma_filter_all<A>(s: Seq<A>, pred: spec_fn(A) -> bool)
    requires
        forall|i: int| 0 <= i < s.len() ==> pred(#[trigger] s[i]),
    ensures
        s.filter(pred) == s,
    decreases s.len(),
{
    reveal(Seq::filter);
    if s.len() > 0 {
        let rest = s.drop_last();
        assert forall|i: int| 0 <= i < rest.len() implies pred(#[trigger] rest[i]) by {}
        lemma_filter_all(rest, pred);
    }
}

} // verus!
