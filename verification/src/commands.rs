//! The operations of the tracker on a collection of tasks.

use vstd::prelude::*;
use crate::model::{
    added, deleted, filter_of_text, has_id, in_status, lemma_filter_all, lemma_filter_next,
    lemma_position, listed, marked, max_id, not_id, position, updated,
};
use crate::status::Status;
use crate::task::{views, Task, TaskView};
use crate::timestamp::{current_time, Timestamp};

verus! {

/// The largest id in the collection, or 0 where it is empty.
pub fn largest_id(tasks: &Vec<Task>) -> (m: u32)
    ensures
        m == max_id(views(tasks@)),
{
    let mut m: u32 = 0;
    let mut i: usize = 0;
    while i < tasks.len()
        invariant
            i <= tasks.len(),
            m == max_id(views(tasks@).take(i as int)),
        decreases tasks.len() - i,
    {
        proof {
            let s = views(tasks@);
            assert(s.take(i + 1).drop_last() =~= s.take(i as int));
        }
        if tasks[i].id > m {
            m = tasks[i].id;
        }
        i += 1;
    }
    proof {
        assert(views(tasks@).take(tasks.len() as int) =~= views(tasks@));
    }
    m
}

/// The index of the first task with this id, if there is one.
pub fn find_task(tasks: &Vec<Task>, id: u32) -> (found: Option<usize>)
    ensures
        match found {
            Some(i) => i < tasks.len() && i == position(views(tasks@), id),
            None => !has_id(views(tasks@), id),
        },
{
    let mut i: usize = 0;
    while i < tasks.len()
        invariant
            i <= tasks.len(),
            forall|j: int| 0 <= j < i ==> (#[trigger] views(tasks@)[j]).id != id,
        decreases tasks.len() - i,
    {
        if tasks[i].id == id {
            proof {
                lemma_position(views(tasks@), id);
                assert(views(tasks@)[i as int].id == id);
            }
            return Some(i);
        }
        i += 1;
    }
    None
}

/// Adds a task with this description, created at `now`. It comes last, is
/// still to be done, and its id, which is returned, is one more than the
/// largest id in the collection: 1 where the collection is empty.
///
/// Where the largest id is already the largest number an id can be, nothing
/// is added and `None` is returned.
pub fn add_task_at(tasks: &mut Vec<Task>, description: &str, now: Timestamp) -> (id: Option<u32>)
    ensures
        match id {
            Some(n) => {
                &&& n == max_id(views(old(tasks)@)) + 1
                &&& views(final(tasks)@) == added(views(old(tasks)@), description@, now)
                &&& final(tasks)@.len() == old(tasks)@.len() + 1
                &&& final(tasks)@.drop_last() == old(tasks)@
            },
            None => max_id(views(old(tasks)@)) == u32::MAX && final(tasks)@ == old(tasks)@,
        },
{
    let largest: u32 = largest_id(tasks);
    if largest == u32::MAX {
        return None;
    }
    let id: u32 = largest + 1;
    tasks.push(
        Task {
            id,
            description: description.to_owned(),
            status: Status::Todo,
            created_at: now,
            updated_at: now,
        },
    );
    Some(id)
}

/// Gives the first task with this id a new description and records `now` as
/// the time of its last change. Returns whether there is such a task; where
/// there is none, the collection stays as it is.
pub fn update_task_at(tasks: &mut Vec<Task>, id: u32, description: &str, now: Timestamp) -> (found:
    bool)
    ensures
        found == has_id(views(old(tasks)@), id),
        views(final(tasks)@) == updated(views(old(tasks)@), id, description@, now),
        final(tasks)@.len() == old(tasks)@.len(),
        forall|j: int|
            0 <= j < old(tasks)@.len() && j != position(views(old(tasks)@), id)
                ==> final(tasks)@[j] == old(tasks)@[j],
        !found ==> final(tasks)@ == old(tasks)@,
{
    proof {
        lemma_position(views(tasks@), id);
    }
    match find_task(tasks, id) {
        Some(i) => {
            tasks[i].description = description.to_owned();
            tasks[i].updated_at = now;
            true
        },
        None => false,
    }
}

/// Gives the first task with this id a new status and records `now` as the
/// time of its last change. Any status may follow any other. Returns whether
/// there is such a task; where there is none, the collection stays as it is.
pub fn mark_task_at(tasks: &mut Vec<Task>, id: u32, status: Status, now: Timestamp) -> (found: bool)
    ensures
        found == has_id(views(old(tasks)@), id),
        views(final(tasks)@) == marked(views(old(tasks)@), id, status, now),
        final(tasks)@.len() == old(tasks)@.len(),
        forall|j: int|
            0 <= j < old(tasks)@.len() && j != position(views(old(tasks)@), id)
                ==> final(tasks)@[j] == old(tasks)@[j],
        !found ==> final(tasks)@ == old(tasks)@,
{
    proof {
        lemma_position(views(tasks@), id);
    }
    match find_task(tasks, id) {
        Some(i) => {
            tasks[i].status = status;
            tasks[i].updated_at = now;
            true
        },
        None => false,
    }
}

/// Removes every task with this id and keeps the others in their order.
/// Returns whether a task was removed; where none has the id, the collection
/// stays as it is.
pub fn delete_task(tasks: &mut Vec<Task>, id: u32) -> (removed: bool)
    ensures
        removed == has_id(views(old(tasks)@), id),
        views(final(tasks)@) == deleted(views(old(tasks)@), id),
        !removed ==> final(tasks)@ == old(tasks)@,
{
    let ghost before = views(tasks@);
    let ghost mut k: int = 0;
    let mut removed = false;
    let mut i: usize = 0;
    proof {
        reveal(Seq::filter);
    }
    while i < tasks.len()
        invariant
            before == views(old(tasks)@),
            0 <= i <= tasks.len(),
            0 <= k <= before.len(),
            tasks.len() - i == before.len() - k,
            views(tasks@).take(i as int) == before.take(k).filter(not_id(id)),
            views(tasks@).skip(i as int) == before.skip(k),
            removed <==> exists|j: int| 0 <= j < k && before[j].id == id,
            !removed ==> tasks@ == old(tasks)@ && i == k,
        decreases tasks.len() - i,
    {
        let ghost current = views(tasks@);
        proof {
            lemma_filter_next(before, not_id(id), k);
            assert(current.skip(i as int)[0] == before.skip(k)[0]);
        }
        if tasks[i].id == id {
            let _ = tasks.remove(i);
            removed = true;
            proof {
                let rest = views(tasks@).skip(i as int);
                assert forall|j: int| 0 <= j < rest.len() implies #[trigger] rest[j]
                    == before.skip(k + 1)[j] by {
                    assert(current.skip(i as int)[j + 1] == before.skip(k)[j + 1]);
                }
                k = k + 1;
            }
        } else {
            proof {
                let rest = views(tasks@).skip(i + 1);
                assert forall|j: int| 0 <= j < rest.len() implies #[trigger] rest[j]
                    == before.skip(k + 1)[j] by {
                    assert(current.skip(i as int)[j + 1] == before.skip(k)[j + 1]);
                }
                k = k + 1;
            }
            i += 1;
        }
    }
    proof {
        assert(before.take(k) =~= before);
        if !removed {
            lemma_filter_all(before, not_id(id));
        }
    }
    removed
}

/// The contents of a listing, in order.
pub open spec fn shown(tasks: Seq<&Task>) -> Seq<TaskView> {
    tasks.map_values(|t: &Task| t@)
}

/// The text of a filter, where one is given.
pub open spec fn filter_text(filter: Option<&str>) -> Option<Seq<char>> {
    match filter {
        Some(text) => Some(text@),
        None => None,
    }
}

/// The tasks with the given status, in their order, or all tasks where no
/// status is given.
pub fn tasks_in_status<'a>(tasks: &'a Vec<Task>, status: Option<Status>) -> (list: Vec<&'a Task>)
    ensures
        shown(list@) == listed(views(tasks@), status),
{
    let mut list: Vec<&'a Task> = Vec::new();
    let mut i: usize = 0;
    proof {
        reveal(Seq::filter);
    }
    while i < tasks.len()
        invariant
            0 <= i <= tasks.len(),
            shown(list@) == listed(views(tasks@).take(i as int), status),
        decreases tasks.len() - i,
    {
        let task = &tasks[i];
        let keep = match status {
            Some(wanted) => task.status == wanted,
            None => true,
        };
        proof {
            match status {
                Some(wanted) => {
                    lemma_filter_next(views(tasks@), in_status(wanted), i as int);
                },
                None => {
                    assert(views(tasks@).take(i + 1) =~= views(tasks@).take(i as int).push(
                        views(tasks@)[i as int],
                    ));
                },
            }
        }
        if keep {
            list.push(task);
        }
        i += 1;
    }
    proof {
        assert(views(tasks@).take(i as int) =~= views(tasks@));
    }
    list
}

/// The tasks to show for a filter given as text: where the text is `todo`,
/// `in-progress` or `done`, the tasks with that status; where it is absent or
/// anything else, all of them. The order is that of the collection.
pub fn list_tasks<'a>(tasks: &'a Vec<Task>, filter: Option<&str>) -> (list: Vec<&'a Task>)
    ensures
        shown(list@) == listed(views(tasks@), filter_of_text(filter_text(filter))),
{
    let status = match filter {
        Some(text) => Status::parse(text),
        None => None,
    };
    tasks_in_status(tasks, status)
}

/// Adds a task with this description, created now: see `add_task_at`, which
/// this calls with the time that the clock shows.
pub fn add_task(tasks: &mut Vec<Task>, description: &str) -> (id: Option<u32>)
    ensures
        match id {
            Some(n) => {
                &&& n == max_id(views(old(tasks)@)) + 1
                &&& exists|now: Timestamp|
                    views(final(tasks)@) == #[trigger] added(
                        views(old(tasks)@),
                        description@,
                        now,
                    )
                &&& final(tasks)@.len() == old(tasks)@.len() + 1
                &&& final(tasks)@.drop_last() == old(tasks)@
            },
            None => max_id(views(old(tasks)@)) == u32::MAX && final(tasks)@ == old(tasks)@,
        },
{
    let now = current_time();
    add_task_at(tasks, description, now)
}

/// Gives the first task with this id a new description, changed now: see
/// `update_task_at`, which this calls with the time that the clock shows.
pub fn update_task(tasks: &mut Vec<Task>, id: u32, description: &str) -> (found: bool)
    ensures
        found == has_id(views(old(tasks)@), id),
        exists|now: Timestamp|
            views(final(tasks)@) == #[trigger] updated(views(old(tasks)@), id, description@, now),
        final(tasks)@.len() == old(tasks)@.len(),
        forall|j: int|
            0 <= j < old(tasks)@.len() && j != position(views(old(tasks)@), id)
                ==> final(tasks)@[j] == old(tasks)@[j],
        !found ==> final(tasks)@ == old(tasks)@,
{
    let now = current_time();
    update_task_at(tasks, id, description, now)
}

/// Gives the first task with this id a new status, changed now: see
/// `mark_task_at`, which this calls with the time that the clock shows.
pub fn mark_task(tasks: &mut Vec<Task>, id: u32, status: Status) -> (found: bool)
    ensures
        found == has_id(views(old(tasks)@), id),
        exists|now: Timestamp|
            views(final(tasks)@) == #[trigger] marked(views(old(tasks)@), id, status, now),
        final(tasks)@.len() == old(tasks)@.len(),
        forall|j: int|
            0 <= j < old(tasks)@.len() && j != position(views(old(tasks)@), id)
                ==> final(tasks)@[j] == old(tasks)@[j],
        !found ==> final(tasks)@ == old(tasks)@,
{
    let now = current_time();
    mark_task_at(tasks, id, status, now)
}

} // verus!
